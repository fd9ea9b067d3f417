//! The promotion plan: which production paths are deleted and which staged
//! files are moved where, and what the production tree holds afterwards.

use vstd::prelude::*;
use crate::catalog::RepoMapping;
use crate::changeset::{ChangeSet, ChangeSetView, PathSet};
use crate::paths::{local_path, remap};

verus! {

/// A staged file and the production path it is moved to.
pub struct FileMove {
    pub staged: String,
    pub target: String,
}

impl View for FileMove {
    type V = (Seq<char>, Seq<char>);

    open spec fn view(&self) -> (Seq<char>, Seq<char>) {
        (self.staged@, self.target@)
    }
}

pub open spec fn move_sources(moves: Seq<FileMove>) -> Seq<Seq<char>> {
    moves.map_values(|m: FileMove| m.staged@)
}

/// The two passes of one promotion: the production paths to delete, then
/// the staged files to move into place.
pub struct PromotionPlan {
    pub deletions: Vec<String>,
    pub moves: Vec<FileMove>,
}

/// The production paths that a change set deletes.
pub open spec fn deleted_targets(changes: ChangeSetView, prefix: Seq<char>, dest: Seq<char>) -> Set<Seq<char>> {
    changes.deletions().map(|p: Seq<char>| local_path(p, prefix, dest))
}

/// The added or modified paths that made it to staging.
pub open spec fn promoted_sources(changes: ChangeSetView, staged: Set<Seq<char>>) -> Set<Seq<char>> {
    changes.additions().intersect(staged)
}

impl PromotionPlan {
    /// The plan carries out `changes` for a repository with this prefix and
    /// destination, given the set of paths that were staged.
    pub open spec fn carries_out(
        &self,
        changes: ChangeSetView,
        prefix: Seq<char>,
        dest: Seq<char>,
        staged: Set<Seq<char>>,
    ) -> bool {
        &&& self.deletions.deep_view().no_duplicates()
        &&& self.deletions.deep_view().to_set() == deleted_targets(changes, prefix, dest)
        &&& move_sources(self.moves@).no_duplicates()
        &&& move_sources(self.moves@).to_set() == promoted_sources(changes, staged)
        &&& forall|i: int| 0 <= i < self.moves@.len()
            ==> (#[trigger] self.moves@[i]).target@ == local_path(self.moves@[i].staged@, prefix, dest)
    }
}

/// Plans the deletion and promotion passes for `changes`. Only staged paths
/// are moved: a file whose fetch failed is left out.
pub fn plan_promotion(changes: &ChangeSet, mapping: &RepoMapping, staged: &PathSet) -> (r: PromotionPlan)
    requires
        changes.wf(),
    ensures
        r.carries_out(changes@, mapping.source_prefix@, mapping.dest_subfolder@, staged@),
{
    let ghost prefix = mapping.source_prefix@;
    let ghost dest = mapping.dest_subfolder@;
    let ghost f = |p: Seq<char>| local_path(p, prefix, dest);

    let mut targets = PathSet::new();
    let to_delete = changes.deletion_list();
    let mut i: usize = 0;
    while i < to_delete.len()
        invariant
            i <= to_delete@.len(),
            targets.wf(),
            f == (|p: Seq<char>| local_path(p, prefix, dest)),
            prefix == mapping.source_prefix@,
            dest == mapping.dest_subfolder@,
            targets@ == to_delete.deep_view().subrange(0, i as int).to_set().map(f),
        decreases to_delete@.len() - i,
    {
        let ghost done = to_delete.deep_view().subrange(0, i as int);
        let t = remap(to_delete[i].as_str(), mapping.source_prefix.as_str(), mapping.dest_subfolder.as_str());
        targets.insert(t);
        proof {
            let x = to_delete@[i as int]@;
            assert(to_delete.deep_view().subrange(0, i as int + 1) =~= done.push(x));
            done.lemma_push_to_set_commute(x);
            assert(done.push(x).to_set().map(f) =~= done.to_set().map(f).insert(f(x))) by {
                assert forall|y: Seq<char>| done.push(x).to_set().map(f).contains(y)
                    implies done.to_set().map(f).insert(f(x)).contains(y) by {
                    let z = choose|z: Seq<char>| done.push(x).to_set().contains(z) && f(z) == y;
                    if z != x {
                        assert(done.to_set().contains(z));
                    }
                }
                assert forall|y: Seq<char>| done.to_set().map(f).insert(f(x)).contains(y)
                    implies done.push(x).to_set().map(f).contains(y) by {
                    if y == f(x) {
                        assert(done.push(x).to_set().contains(x));
                    } else {
                        let z = choose|z: Seq<char>| done.to_set().contains(z) && f(z) == y;
                        assert(done.push(x).to_set().contains(z));
                    }
                }
            }
        }
        i = i + 1;
    }
    assert(to_delete.deep_view().subrange(0, to_delete@.len() as int) =~= to_delete.deep_view());
    let deletions = targets.to_vec();

    let to_add = changes.addition_list();
    let mut moves: Vec<FileMove> = Vec::new();
    let mut k: usize = 0;
    while k < to_add.len()
        invariant
            k <= to_add@.len(),
            to_add.deep_view().no_duplicates(),
            prefix == mapping.source_prefix@,
            dest == mapping.dest_subfolder@,
            move_sources(moves@).no_duplicates(),
            move_sources(moves@).to_set() == to_add.deep_view().subrange(0, k as int).to_set().intersect(staged@),
            forall|j: int| 0 <= j < moves@.len()
                ==> (#[trigger] moves@[j]).target@ == local_path(moves@[j].staged@, prefix, dest),
        decreases to_add@.len() - k,
    {
        let ghost done = to_add.deep_view().subrange(0, k as int);
        let ghost x = to_add@[k as int]@;
        proof {
            assert(to_add.deep_view().subrange(0, k as int + 1) =~= done.push(x));
            done.lemma_push_to_set_commute(x);
        }
        if staged.contains(to_add[k].as_str()) {
            let target = remap(to_add[k].as_str(), mapping.source_prefix.as_str(), mapping.dest_subfolder.as_str());
            let ghost before = moves@;
            proof {
                assert(!move_sources(before).contains(x)) by {
                    if move_sources(before).contains(x) {
                        assert(move_sources(before).to_set().contains(x));
                        let j = choose|j: int| 0 <= j < done.len() && done[j] == x;
                        assert(to_add.deep_view()[j] == to_add.deep_view()[k as int]);
                    }
                }
            }
            moves.push(FileMove { staged: to_add[k].clone(), target });
            proof {
                assert(move_sources(moves@) =~= move_sources(before).push(x));
                move_sources(before).lemma_push_to_set_commute(x);
            }
        }
        k = k + 1;
        assert(move_sources(moves@).to_set() =~= to_add.deep_view().subrange(0, k as int).to_set().intersect(staged@));
    }
    assert(to_add.deep_view().subrange(0, to_add@.len() as int) =~= to_add.deep_view());
    PromotionPlan { deletions, moves }
}

/// Number of `true` outcomes.
pub open spec fn count_true(s: Seq<bool>) -> nat
    decreases s.len(),
{
    if s.len() == 0 {
        0
    } else {
        count_true(s.drop_last()) + if s.last() { 1nat } else { 0nat }
    }
}

proof fn lemma_count_true_bound(s: Seq<bool>)
    ensures
        count_true(s) <= s.len(),
    decreases s.len(),
{
    if s.len() > 0 {
        lemma_count_true_bound(s.drop_last());
    }
}

/// How a pass went: files deleted from production and files moved into it.
#[derive(Debug, Clone, Copy, PartialEq, Eq, Structural)]
pub struct PassReport {
    pub removed: usize,
    pub promoted: usize,
}

/// Counts the per-file outcomes of a pass: one flag per planned deletion and
/// one per planned move, `true` where the file operation succeeded.
pub fn summarize(deleted: &Vec<bool>, moved: &Vec<bool>) -> (r: PassReport)
    ensures
        r.removed == count_true(deleted@),
        r.promoted == count_true(moved@),
{
    PassReport { removed: count_ok(deleted), promoted: count_ok(moved) }
}

fn count_ok(flags: &Vec<bool>) -> (r: usize)
    ensures
        r == count_true(flags@),
{
    let mut n: usize = 0;
    let mut i: usize = 0;
    while i < flags.len()
        invariant
            i <= flags@.len(),
            n == count_true(flags@.subrange(0, i as int)),
        decreases flags@.len() - i,
    {
        proof {
            assert(flags@.subrange(0, i as int + 1).drop_last() =~= flags@.subrange(0, i as int));
            lemma_count_true_bound(flags@.subrange(0, i as int));
        }
        if flags[i] {
            n = n + 1;
        }
        i = i + 1;
    }
    assert(flags@.subrange(0, flags@.len() as int) =~= flags@);
    n
}

/// The production tree after a pass, as a map from production path to
/// content: the deletion targets are gone, then each staged addition sits at
/// its target with the content it was staged with. `staging` maps each
/// staged repository path to its content.
pub open spec fn promoted_tree(
    tree: Map<Seq<char>, Seq<u8>>,
    changes: ChangeSetView,
    prefix: Seq<char>,
    dest: Seq<char>,
    staging: Map<Seq<char>, Seq<u8>>,
) -> Map<Seq<char>, Seq<u8>> {
    let sources = promoted_sources(changes, staging.dom());
    let placed = Map::new(
        |t: Seq<char>| exists|p: Seq<char>| sources.contains(p) && local_path(p, prefix, dest) == t,
        |t: Seq<char>| staging[choose|p: Seq<char>| sources.contains(p) && local_path(p, prefix, dest) == t],
    );
    tree.remove_keys(deleted_targets(changes, prefix, dest)).union_prefer_right(placed)
}

/// Replaying a pass that was already applied, with the same files staged
/// again, leaves the production tree as the first pass left it.
pub proof fn lemma_replay_is_idempotent(
    tree: Map<Seq<char>, Seq<u8>>,
    changes: ChangeSetView,
    prefix: Seq<char>,
    dest: Seq<char>,
    staging: Map<Seq<char>, Seq<u8>>,
)
    ensures
        promoted_tree(promoted_tree(tree, changes, prefix, dest, staging), changes, prefix, dest, staging)
            == promoted_tree(tree, changes, prefix, dest, staging),
{
    let once = promoted_tree(tree, changes, prefix, dest, staging);
    let twice = promoted_tree(once, changes, prefix, dest, staging);
    assert(twice =~= once);
}

/// A staged addition ends up at its production path with its staged content.
pub proof fn lemma_staged_file_promoted(
    tree: Map<Seq<char>, Seq<u8>>,
    changes: ChangeSetView,
    prefix: Seq<char>,
    dest: Seq<char>,
    staging: Map<Seq<char>, Seq<u8>>,
    p: Seq<char>,
)
    requires
        changes.within(prefix),
        changes.additions().contains(p),
        staging.contains_key(p),
    ensures
        promoted_tree(tree, changes, prefix, dest, staging).contains_key(local_path(p, prefix, dest)),
        promoted_tree(tree, changes, prefix, dest, staging)[local_path(p, prefix, dest)] == staging[p],
{
    let sources = promoted_sources(changes, staging.dom());
    let t = local_path(p, prefix, dest);
    assert(sources.contains(p));
    let q = choose|q: Seq<char>| sources.contains(q) && local_path(q, prefix, dest) == t;
    crate::paths::lemma_local_path_injective(p, q, prefix, dest);
}

/// An addition whose fetch failed is not staged, and is absent from the
/// production tree afterwards unless it was there before and is not deleted.
pub proof fn lemma_unfetched_file_absent(
    tree: Map<Seq<char>, Seq<u8>>,
    changes: ChangeSetView,
    prefix: Seq<char>,
    dest: Seq<char>,
    staging: Map<Seq<char>, Seq<u8>>,
    p: Seq<char>,
)
    requires
        changes.within(prefix),
        changes.additions().contains(p),
        !staging.contains_key(p),
        !tree.contains_key(local_path(p, prefix, dest)) || changes.deletions().contains(p),
    ensures
        !promoted_tree(tree, changes, prefix, dest, staging).contains_key(local_path(p, prefix, dest)),
{
    let sources = promoted_sources(changes, staging.dom());
    let t = local_path(p, prefix, dest);
    if changes.deletions().contains(p) {
        assert(deleted_targets(changes, prefix, dest).contains(t));
    }
    assert forall|q: Seq<char>| sources.contains(q) implies local_path(q, prefix, dest) != t by {
        if local_path(q, prefix, dest) == t {
            crate::paths::lemma_local_path_injective(p, q, prefix, dest);
        }
    }
}

} // verus!
