//! The repository catalog: for each remote repository, the source prefix of
//! the files it contributes and the subfolder of the production root it owns.

use vstd::prelude::*;
use crate::changeset::PathSet;
use crate::text::{chars_of, same_text, string_of};

verus! {

/// One `key;value` pair of a mapping table.
#[derive(Debug, Clone)]
pub struct TableEntry {
    pub key: String,
    pub value: String,
}

impl View for TableEntry {
    type V = (Seq<char>, Seq<char>);

    open spec fn view(&self) -> (Seq<char>, Seq<char>) {
        (self.key@, self.value@)
    }
}

pub open spec fn entry_views(entries: Seq<TableEntry>) -> Seq<(Seq<char>, Seq<char>)> {
    entries.map_values(|e: TableEntry| e@)
}

/// The map that a table's entries give, a later entry for a key replacing
/// an earlier one.
pub open spec fn table_map(entries: Seq<(Seq<char>, Seq<char>)>) -> Map<Seq<char>, Seq<char>>
    decreases entries.len(),
{
    if entries.len() == 0 {
        Map::empty()
    } else {
        table_map(entries.drop_last()).insert(entries.last().0, entries.last().1)
    }
}

/// The value that a table gives to `key`, if any.
pub fn table_lookup(entries: &Vec<TableEntry>, key: &str) -> (r: Option<String>)
    ensures
        r is Some <==> table_map(entry_views(entries@)).contains_key(key@),
        r is Some ==> r->Some_0@ == table_map(entry_views(entries@))[key@],
{
    let mut found: Option<String> = None;
    let mut i: usize = 0;
    while i < entries.len()
        invariant
            i <= entries@.len(),
            found is Some <==> table_map(entry_views(entries@.subrange(0, i as int))).contains_key(key@),
            found is Some ==> found->Some_0@ == table_map(entry_views(entries@.subrange(0, i as int)))[key@],
        decreases entries@.len() - i,
    {
        proof {
            let next = entry_views(entries@.subrange(0, i as int + 1));
            assert(next.drop_last() =~= entry_views(entries@.subrange(0, i as int)));
            assert(next.last() == entries@[i as int]@);
        }
        if same_text(entries[i].key.as_str(), key) {
            found = Some(entries[i].value.clone());
        }
        i = i + 1;
    }
    assert(entries@.subrange(0, entries@.len() as int) =~= entries@);
    found
}

/// The pieces of `s` between the separators `sep`, as `str::split` gives
/// them: one more piece than there are separators.
pub open spec fn split_pieces(s: Seq<char>, sep: char) -> Seq<Seq<char>>
    decreases s.len(),
{
    if s.len() == 0 {
        seq![Seq::<char>::empty()]
    } else {
        let before = split_pieces(s.drop_last(), sep);
        if s.last() == sep {
            before.push(Seq::<char>::empty())
        } else {
            before.update(before.len() - 1, before.last().push(s.last()))
        }
    }
}

/// `s` cut at its first `sep`, as `str::split_once` gives it.
pub open spec fn split_first(s: Seq<char>, sep: char) -> Option<(Seq<char>, Seq<char>)>
    decreases s.len(),
{
    if s.len() == 0 {
        None
    } else if s[0] == sep {
        Some((Seq::<char>::empty(), s.drop_first()))
    } else {
        match split_first(s.drop_first(), sep) {
            Some((k, v)) => Some((seq![s[0]] + k, v)),
            None => None,
        }
    }
}

/// The `key;value` pairs of a list of pieces; a piece without `;` is skipped.
pub open spec fn table_entries(pieces: Seq<Seq<char>>) -> Seq<(Seq<char>, Seq<char>)>
    decreases pieces.len(),
{
    if pieces.len() == 0 {
        Seq::empty()
    } else {
        let before = table_entries(pieces.drop_last());
        match split_first(pieces.last(), ';') {
            Some(kv) => before.push(kv),
            None => before,
        }
    }
}

/// The entries of a table written `key;value|key;value|...`.
pub open spec fn parsed_table(s: Seq<char>) -> Seq<(Seq<char>, Seq<char>)> {
    table_entries(split_pieces(s, '|'))
}

proof fn lemma_split_pieces_nonempty(s: Seq<char>, sep: char)
    ensures
        split_pieces(s, sep).len() >= 1,
    decreases s.len(),
{
    if s.len() > 0 {
        lemma_split_pieces_nonempty(s.drop_last(), sep);
    }
}

proof fn lemma_split_first_at(s: Seq<char>, sep: char, i: int)
    requires
        0 <= i <= s.len(),
        forall|j: int| 0 <= j < i ==> s[j] != sep,
        i < s.len() ==> s[i] == sep,
    ensures
        split_first(s, sep) == if i < s.len() {
            Some((s.subrange(0, i), s.subrange(i + 1, s.len() as int)))
        } else {
            None::<(Seq<char>, Seq<char>)>
        },
    decreases i,
{
    if s.len() > 0 && i > 0 {
        let t = s.drop_first();
        assert forall|j: int| 0 <= j < i - 1 implies t[j] != sep by {
            assert(t[j] == s[j + 1]);
        }
        lemma_split_first_at(t, sep, i - 1);
        if i < s.len() {
            assert(seq![s[0]] + t.subrange(0, i - 1) =~= s.subrange(0, i));
            assert(t.subrange(i, t.len() as int) =~= s.subrange(i + 1, s.len() as int));
        }
    } else if s.len() > 0 {
        assert(s.subrange(0, 0) =~= Seq::<char>::empty());
        assert(s.drop_first() =~= s.subrange(1, s.len() as int));
    }
}

/// The entry a piece gives, if it holds a `;`.
fn piece_entry(piece: &Vec<char>) -> (r: Option<TableEntry>)
    ensures
        match r {
            Some(e) => split_first(piece@, ';') == Some(e@),
            None => split_first(piece@, ';') is None,
        },
{
    let mut i: usize = 0;
    while i < piece.len() && piece[i] != ';'
        invariant
            i <= piece@.len(),
            forall|j: int| 0 <= j < i ==> piece@[j] != ';',
        decreases piece@.len() - i,
    {
        i = i + 1;
    }
    proof {
        lemma_split_first_at(piece@, ';', i as int);
    }
    if i == piece.len() {
        return None;
    }
    let mut key: Vec<char> = Vec::new();
    let mut value: Vec<char> = Vec::new();
    let mut k: usize = 0;
    while k < piece.len()
        invariant
            i < piece@.len(),
            k <= piece@.len(),
            key@ == piece@.subrange(0, if k < i { k as int } else { i as int }),
            value@ == if k <= i { Seq::<char>::empty() } else { piece@.subrange(i + 1, k as int) },
        decreases piece@.len() - k,
    {
        if k < i {
            key.push(piece[k]);
        } else if k > i {
            value.push(piece[k]);
        }
        k = k + 1;
        assert(key@ =~= piece@.subrange(0, if k < i { k as int } else { i as int }));
        assert(value@ =~= if k <= i { Seq::<char>::empty() } else { piece@.subrange(i + 1, k as int) });
    }
    Some(TableEntry { key: string_of(key.as_slice()), value: string_of(value.as_slice()) })
}

/// Reads a table written `key;value|key;value|...`: pieces split at `|`,
/// each cut at its first `;`; a piece without `;` is skipped.
pub fn parse_table(s: &str) -> (r: Vec<TableEntry>)
    ensures
        entry_views(r@) == parsed_table(s@),
{
    let cs = chars_of(s);
    let mut entries: Vec<TableEntry> = Vec::new();
    let mut cur: Vec<char> = Vec::new();
    let mut i: usize = 0;
    proof {
        assert(cs@.subrange(0, 0) =~= Seq::<char>::empty());
        assert(split_pieces(Seq::<char>::empty(), '|').drop_last() =~= Seq::<Seq<char>>::empty());
    }
    while i < cs.len()
        invariant
            i <= cs@.len(),
            split_pieces(cs@.subrange(0, i as int), '|').len() >= 1,
            entry_views(entries@) == table_entries(split_pieces(cs@.subrange(0, i as int), '|').drop_last()),
            cur@ == split_pieces(cs@.subrange(0, i as int), '|').last(),
        decreases cs@.len() - i,
    {
        let ghost before = split_pieces(cs@.subrange(0, i as int), '|');
        let ghost next = cs@.subrange(0, i as int + 1);
        assert(next.drop_last() =~= cs@.subrange(0, i as int));
        if cs[i] == '|' {
            let ghost old_entries = entries@;
            match piece_entry(&cur) {
                Some(e) => {
                    entries.push(e);
                    assert(entry_views(entries@) =~= entry_views(old_entries).push(e@));
                },
                None => {},
            }
            cur = Vec::new();
            proof {
                assert(split_pieces(next, '|') == before.push(Seq::<char>::empty()));
                assert(before.push(Seq::<char>::empty()).drop_last() =~= before);
                assert(before.drop_last() =~= before.subrange(0, before.len() - 1));
            }
        } else {
            cur.push(cs[i]);
            proof {
                let after = before.update(before.len() - 1, before.last().push(cs@[i as int]));
                assert(split_pieces(next, '|') == after);
                assert(after.drop_last() =~= before.drop_last());
            }
        }
        i = i + 1;
    }
    assert(cs@.subrange(0, cs@.len() as int) =~= cs@);
    let ghost pieces = split_pieces(cs@, '|');
    let ghost old_entries = entries@;
    match piece_entry(&cur) {
        Some(e) => {
            entries.push(e);
            assert(entry_views(entries@) =~= entry_views(old_entries).push(e@));
        },
        None => {},
    }
    entries
}

/// Where one repository's files come from and where they go.
#[derive(Debug, Clone)]
pub struct RepoMapping {
    pub source_prefix: String,
    pub dest_subfolder: String,
}

/// Why a repository cannot be served.
#[derive(Debug, Clone, Copy, PartialEq, Eq, Structural)]
pub enum CatalogError {
    /// The repository has no source prefix in the catalog.
    UnknownRepository,
    /// The repository has no destination subfolder in the catalog.
    NoDestination,
}

pub ghost struct CatalogView {
    pub prefixes: Map<Seq<char>, Seq<char>>,
    pub destinations: Map<Seq<char>, Seq<char>>,
}

/// The two mapping tables, loaded once and read on every trigger.
pub struct Catalog {
    pub prefixes: Vec<TableEntry>,
    pub destinations: Vec<TableEntry>,
}

impl View for Catalog {
    type V = CatalogView;

    open spec fn view(&self) -> CatalogView {
        CatalogView {
            prefixes: table_map(entry_views(self.prefixes@)),
            destinations: table_map(entry_views(self.destinations@)),
        }
    }
}

impl CatalogView {
    /// The outcome of looking a repository up: its prefix and destination,
    /// or the first of the two that is missing.
    pub open spec fn lookup(self, name: Seq<char>) -> Result<(Seq<char>, Seq<char>), CatalogError> {
        if !self.prefixes.contains_key(name) {
            Err(CatalogError::UnknownRepository)
        } else if !self.destinations.contains_key(name) {
            Err(CatalogError::NoDestination)
        } else {
            Ok((self.prefixes[name], self.destinations[name]))
        }
    }
}

pub open spec fn mapping_result_view(r: Result<RepoMapping, CatalogError>) -> Result<(Seq<char>, Seq<char>), CatalogError> {
    match r {
        Ok(m) => Ok((m.source_prefix@, m.dest_subfolder@)),
        Err(e) => Err(e),
    }
}

impl Catalog {
    /// Loads the catalog from its two tables: repository to source prefix,
    /// and repository to destination subfolder.
    pub fn from_tables(prefix_table: &str, destination_table: &str) -> (r: Catalog)
        ensures
            entry_views(r.prefixes@) == parsed_table(prefix_table@),
            entry_views(r.destinations@) == parsed_table(destination_table@),
            r@.prefixes == table_map(parsed_table(prefix_table@)),
            r@.destinations == table_map(parsed_table(destination_table@)),
    {
        Catalog { prefixes: parse_table(prefix_table), destinations: parse_table(destination_table) }
    }

    /// Looks a repository up by its full name.
    pub fn lookup(&self, name: &str) -> (r: Result<RepoMapping, CatalogError>)
        ensures
            mapping_result_view(r) == self@.lookup(name@),
    {
        let source_prefix = match table_lookup(&self.prefixes, name) {
            None => return Err(CatalogError::UnknownRepository),
            Some(p) => p,
        };
        let dest_subfolder = match table_lookup(&self.destinations, name) {
            None => return Err(CatalogError::NoDestination),
            Some(d) => d,
        };
        Ok(RepoMapping { source_prefix, dest_subfolder })
    }

    /// The repositories that have a source prefix, each once, in the order
    /// of their first entry.
    pub fn repositories(&self) -> (r: Vec<String>)
        ensures
            r.deep_view().no_duplicates(),
            r.deep_view().to_set() == self@.prefixes.dom(),
    {
        let mut names = PathSet::new();
        let mut i: usize = 0;
        while i < self.prefixes.len()
            invariant
                i <= self.prefixes@.len(),
                names.wf(),
                names@ == table_map(entry_views(self.prefixes@.subrange(0, i as int))).dom(),
            decreases self.prefixes@.len() - i,
        {
            proof {
                let next = entry_views(self.prefixes@.subrange(0, i as int + 1));
                assert(next.drop_last() =~= entry_views(self.prefixes@.subrange(0, i as int)));
                assert(next.last() == self.prefixes@[i as int]@);
            }
            names.insert(self.prefixes[i].key.clone());
            i = i + 1;
            assert(names@ =~= table_map(entry_views(self.prefixes@.subrange(0, i as int))).dom());
        }
        assert(self.prefixes@.subrange(0, self.prefixes@.len() as int) =~= self.prefixes@);
        names.to_vec()
    }
}

} // verus!
