//! Sets of repository paths and the change set of one synchronisation pass.

use vstd::prelude::*;
use crate::text::{has_prefix, starts_with};

verus! {

/// The paths of `paths` that lie under `prefix`.
pub open spec fn in_scope(paths: Seq<Seq<char>>, prefix: Seq<char>) -> Set<Seq<char>> {
    Set::new(|p: Seq<char>| paths.contains(p) && has_prefix(p, prefix))
}

/// A set of repository paths, each held once, in the order first inserted.
pub struct PathSet {
    paths: Vec<String>,
}

impl View for PathSet {
    type V = Set<Seq<char>>;

    closed spec fn view(&self) -> Set<Seq<char>> {
        self.paths.deep_view().to_set()
    }
}

impl PathSet {
    /// No path is held twice.
    pub closed spec fn wf(&self) -> bool {
        self.paths.deep_view().no_duplicates()
    }

    /// The paths in the order they are held.
    pub closed spec fn order(&self) -> Seq<Seq<char>> {
        self.paths.deep_view()
    }

    pub fn new() -> (r: PathSet)
        ensures
            r.wf(),
            r@ == Set::<Seq<char>>::empty(),
    {
        let r = PathSet { paths: Vec::new() };
        assert(r.paths.deep_view() =~= Seq::<Seq<char>>::empty());
        r
    }

    pub fn len(&self) -> (r: usize)
        requires
            self.wf(),
        ensures
            r == self@.len(),
    {
        proof {
            self.paths.deep_view().unique_seq_to_set();
        }
        self.paths.len()
    }

    pub fn contains(&self, path: &str) -> (r: bool)
        ensures
            r == self@.contains(path@),
    {
        let mut i: usize = 0;
        while i < self.paths.len()
            invariant
                i <= self.paths@.len(),
                forall|j: int| 0 <= j < i ==> self.paths@[j]@ != path@,
            decreases self.paths@.len() - i,
        {
            if crate::text::same_text(self.paths[i].as_str(), path) {
                assert(self.paths.deep_view()[i as int] == path@);
                return true;
            }
            i = i + 1;
        }
        assert(!self.paths.deep_view().contains(path@)) by {
            if self.paths.deep_view().contains(path@) {
                let j = choose|j: int| 0 <= j < self.paths.deep_view().len() && self.paths.deep_view()[j] == path@;
                assert(self.paths@[j]@ == path@);
            }
        }
        false
    }

    /// Adds `path`; a path already held is kept once.
    pub fn insert(&mut self, path: String)
        requires
            old(self).wf(),
        ensures
            final(self).wf(),
            final(self)@ == old(self)@.insert(path@),
    {
        if !self.contains(path.as_str()) {
            let ghost before = self.paths.deep_view();
            let ghost p = path@;
            self.paths.push(path);
            proof {
                assert(self.paths.deep_view() =~= before.push(p));
                before.lemma_push_to_set_commute(p);
            }
        } else {
            assert(old(self)@.insert(path@) =~= old(self)@);
        }
    }

    /// Adds each path of `paths` that lies under `prefix`.
    pub fn insert_in_scope(&mut self, paths: &Vec<String>, prefix: &str)
        requires
            old(self).wf(),
        ensures
            final(self).wf(),
            final(self)@ == old(self)@ + in_scope(paths.deep_view(), prefix@),
    {
        let mut i: usize = 0;
        while i < paths.len()
            invariant
                i <= paths@.len(),
                self.wf(),
                self@ == old(self)@ + in_scope(paths.deep_view().subrange(0, i as int), prefix@),
            decreases paths@.len() - i,
        {
            let ghost done = paths.deep_view().subrange(0, i as int);
            let ghost next = paths.deep_view().subrange(0, i as int + 1);
            assert(next =~= done.push(paths@[i as int]@));
            if starts_with(paths[i].as_str(), prefix) {
                self.insert(paths[i].clone());
            }
            i = i + 1;
            assert(self@ =~= old(self)@ + in_scope(next, prefix@)) by {
                assert forall|p: Seq<char>| next.contains(p) <==> (done.contains(p) || p == paths@[i - 1]@) by {
                    if next.contains(p) {
                        let j = choose|j: int| 0 <= j < next.len() && next[j] == p;
                        if j < done.len() {
                            assert(done[j] == p);
                        }
                    }
                    if done.contains(p) {
                        let j = choose|j: int| 0 <= j < done.len() && done[j] == p;
                        assert(next[j] == p);
                    }
                    if p == paths@[i - 1]@ {
                        assert(next[i - 1] == p);
                    }
                }
            }
        }
        assert(paths.deep_view().subrange(0, paths@.len() as int) =~= paths.deep_view());
    }

    /// Adds every path of `other`.
    pub fn insert_all(&mut self, other: &PathSet)
        requires
            old(self).wf(),
        ensures
            final(self).wf(),
            final(self)@ == old(self)@ + other@,
    {
        let mut i: usize = 0;
        while i < other.paths.len()
            invariant
                i <= other.paths@.len(),
                self.wf(),
                self@ == old(self)@ + other.paths.deep_view().subrange(0, i as int).to_set(),
            decreases other.paths@.len() - i,
        {
            let ghost done = other.paths.deep_view().subrange(0, i as int);
            assert(other.paths.deep_view().subrange(0, i as int + 1) =~= done.push(other.paths@[i as int]@));
            proof {
                done.lemma_push_to_set_commute(other.paths@[i as int]@);
            }
            self.insert(other.paths[i].clone());
            i = i + 1;
            assert(self@ =~= old(self)@ + other.paths.deep_view().subrange(0, i as int).to_set());
        }
        assert(other.paths.deep_view().subrange(0, other.paths@.len() as int) =~= other.paths.deep_view());
    }

    /// A copy of the set.
    pub fn copy(&self) -> (r: PathSet)
        requires
            self.wf(),
        ensures
            r.wf(),
            r@ == self@,
            r.order() == self.order(),
    {
        let mut paths: Vec<String> = Vec::new();
        let mut i: usize = 0;
        while i < self.paths.len()
            invariant
                i <= self.paths@.len(),
                paths.deep_view() == self.paths.deep_view().subrange(0, i as int),
            decreases self.paths@.len() - i,
        {
            let item = self.paths[i].clone();
            assert(item@ == self.paths@[i as int]@);
            let ghost before = paths.deep_view();
            paths.push(item);
            assert(paths.deep_view() =~= before.push(item@));
            i = i + 1;
            assert(paths.deep_view() =~= self.paths.deep_view().subrange(0, i as int));
        }
        assert(self.paths.deep_view().subrange(0, self.paths@.len() as int) =~= self.paths.deep_view());
        PathSet { paths }
    }

    /// The paths, each once, in the order they are held.
    pub fn to_vec(&self) -> (r: Vec<String>)
        requires
            self.wf(),
        ensures
            r.deep_view() == self.order(),
            r.deep_view().no_duplicates(),
            r.deep_view().to_set() == self@,
    {
        let c = self.copy();
        c.paths
    }
}

/// The mathematical content of a change set.
pub ghost struct ChangeSetView {
    pub added: Set<Seq<char>>,
    pub modified: Set<Seq<char>>,
    pub removed: Set<Seq<char>>,
}

impl ChangeSetView {
    pub open spec fn empty() -> ChangeSetView {
        ChangeSetView { added: Set::empty(), modified: Set::empty(), removed: Set::empty() }
    }

    /// Paths whose old artifact is deleted: the removed and the modified ones.
    pub open spec fn deletions(self) -> Set<Seq<char>> {
        self.removed + self.modified
    }

    /// Paths fetched and promoted: the added and the modified ones.
    pub open spec fn additions(self) -> Set<Seq<char>> {
        self.added + self.modified
    }

    /// Every path of the change set lies under `prefix`.
    pub open spec fn within(self, prefix: Seq<char>) -> bool {
        &&& forall|p: Seq<char>| self.added.contains(p) ==> has_prefix(p, prefix)
        &&& forall|p: Seq<char>| self.modified.contains(p) ==> has_prefix(p, prefix)
        &&& forall|p: Seq<char>| self.removed.contains(p) ==> has_prefix(p, prefix)
    }
}

/// The paths that one synchronisation pass adds, modifies and removes.
pub struct ChangeSet {
    pub added: PathSet,
    pub modified: PathSet,
    pub removed: PathSet,
}

impl View for ChangeSet {
    type V = ChangeSetView;

    open spec fn view(&self) -> ChangeSetView {
        ChangeSetView { added: self.added@, modified: self.modified@, removed: self.removed@ }
    }
}

impl ChangeSet {
    pub open spec fn wf(&self) -> bool {
        self.added.wf() && self.modified.wf() && self.removed.wf()
    }

    pub fn new() -> (r: ChangeSet)
        ensures
            r.wf(),
            r@ == ChangeSetView::empty(),
    {
        ChangeSet { added: PathSet::new(), modified: PathSet::new(), removed: PathSet::new() }
    }

    /// The paths to delete from production, each once: removed and modified.
    pub fn deletion_list(&self) -> (r: Vec<String>)
        requires
            self.wf(),
        ensures
            r.deep_view().no_duplicates(),
            r.deep_view().to_set() == self@.deletions(),
    {
        let mut s = self.removed.copy();
        s.insert_all(&self.modified);
        s.to_vec()
    }

    /// The paths to fetch and promote, each once: added and modified.
    pub fn addition_list(&self) -> (r: Vec<String>)
        requires
            self.wf(),
        ensures
            r.deep_view().no_duplicates(),
            r.deep_view().to_set() == self@.additions(),
    {
        let mut s = self.added.copy();
        s.insert_all(&self.modified);
        s.to_vec()
    }

    /// Number of paths to delete and number of paths to add.
    pub fn counts(&self) -> (r: (usize, usize))
        requires
            self.wf(),
        ensures
            r.0 == self@.deletions().len(),
            r.1 == self@.additions().len(),
    {
        let d = self.deletion_list();
        let a = self.addition_list();
        proof {
            d.deep_view().unique_seq_to_set();
            a.deep_view().unique_seq_to_set();
        }
        (d.len(), a.len())
    }
}

/// A modified path is both deleted and added: it is in the deletion set and
/// in the addition set of any change set, never in only one of them.
pub proof fn lemma_modified_deleted_and_added(c: ChangeSetView, p: Seq<char>)
    requires
        c.modified.contains(p),
    ensures
        c.deletions().contains(p),
        c.additions().contains(p),
{
}

} // verus!
