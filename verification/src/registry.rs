//! The registry data model: a list of (name, path) pairs with unique names,
//! modelled in specifications as a map from name to path.
use vstd::prelude::*;

verus! {

/// No two entries share a name.
pub open spec fn unique_names(s: Seq<(String, String)>) -> bool {
    forall|i: int, j: int| 0 <= i < j < s.len() ==> s[i].0@ != s[j].0@
}

/// The mapping that a pair list denotes: later pairs win on a repeated name.
pub open spec fn map_of(s: Seq<(String, String)>) -> Map<Seq<char>, Seq<char>>
    decreases s.len(),
{
    if s.len() == 0 {
        Map::empty()
    } else {
        map_of(s.drop_last()).insert(s.last().0@, s.last().1@)
    }
}

/// The persisted registry: a format version tag and the name-to-path mapping.
pub struct Config {
    pub version: String,
    pub repo: Vec<(String, String)>,
}

impl Config {
    /// Well-formedness: entry names are unique, so the list denotes a map faithfully.
    pub open spec fn wf(self) -> bool {
        unique_names(self.repo@)
    }

    /// The registry seen as a mathematical map from name to path.
    pub open spec fn repo_map(self) -> Map<Seq<char>, Seq<char>> {
        map_of(self.repo@)
    }
}

impl Default for Config {
    /// An empty registry with the initial format version tag.
    fn default() -> (r: Self)
        ensures
            r.wf(),
            r.repo@.len() == 0,
            r.repo_map() == Map::<Seq<char>, Seq<char>>::empty(),
            r.version@ == "0.1.0"@,
    {
        Config { version: String::from_str("0.1.0"), repo: Vec::new() }
    }
}

/// Dropping the last entry keeps the names unique.
pub proof fn lemma_unique_drop_last(s: Seq<(String, String)>)
    requires
        unique_names(s),
        s.len() > 0,
    ensures
        unique_names(s.drop_last()),
{
    assert forall|i: int, j: int|
        0 <= i < j < s.drop_last().len() implies s.drop_last()[i].0@ != s.drop_last()[j].0@ by {
        assert(s[i].0@ != s[j].0@);
    }
}

/// Removing any entry keeps the names unique.
pub proof fn lemma_unique_remove(s: Seq<(String, String)>, i: int)
    requires
        unique_names(s),
        0 <= i < s.len(),
    ensures
        unique_names(s.remove(i)),
{
    assert forall|p: int, q: int|
        0 <= p < q < s.remove(i).len() implies s.remove(i)[p].0@ != s.remove(i)[q].0@ by {
        let p0: int = if p < i { p } else { p + 1 };
        let q0: int = if q < i { q } else { q + 1 };
        assert(s.remove(i)[p] == s[p0]);
        assert(s.remove(i)[q] == s[q0]);
        assert(s[p0].0@ != s[q0].0@);
    }
}

/// A name is a key of the denoted map exactly when some entry carries it.
pub proof fn lemma_map_of_contains(s: Seq<(String, String)>, k: Seq<char>)
    ensures
        map_of(s).contains_key(k) <==> exists|i: int| 0 <= i < s.len() && s[i].0@ == k,
    decreases s.len(),
{
    if s.len() == 0 {
    } else {
        lemma_map_of_contains(s.drop_last(), k);
        if s.last().0@ == k {
            assert(s[s.len() - 1].0@ == k);
        } else {
            if map_of(s).contains_key(k) {
                let i = choose|i: int| 0 <= i < s.drop_last().len() && s.drop_last()[i].0@ == k;
                assert(s[i].0@ == k);
            }
            if exists|i: int| 0 <= i < s.len() && s[i].0@ == k {
                let i = choose|i: int| 0 <= i < s.len() && s[i].0@ == k;
                assert(i < s.len() - 1);
                assert(s.drop_last()[i].0@ == k);
            }
        }
    }
}

/// Under unique names, entry `i` gives the denoted map's value at its name.
pub proof fn lemma_map_of_index(s: Seq<(String, String)>, i: int)
    requires
        unique_names(s),
        0 <= i < s.len(),
    ensures
        map_of(s).contains_key(s[i].0@),
        map_of(s)[s[i].0@] == s[i].1@,
    decreases s.len(),
{
    if i == s.len() - 1 {
    } else {
        lemma_unique_drop_last(s);
        lemma_map_of_index(s.drop_last(), i);
        assert(s.drop_last()[i] == s[i]);
        assert(s[i].0@ != s[s.len() - 1].0@);
    }
}

/// Appending an entry inserts its pair into the denoted map.
pub proof fn lemma_map_of_push(s: Seq<(String, String)>, p: (String, String))
    ensures
        map_of(s.push(p)) == map_of(s).insert(p.0@, p.1@),
{
    assert(s.push(p).drop_last() =~= s);
    assert(s.push(p).last() == p);
}

/// Under unique names, removing entry `i` removes exactly its name from the
/// denoted map.
pub proof fn lemma_map_of_remove(s: Seq<(String, String)>, i: int)
    requires
        unique_names(s),
        0 <= i < s.len(),
    ensures
        map_of(s.remove(i)) == map_of(s).remove(s[i].0@),
    decreases s.len(),
{
    let k = s[i].0@;
    lemma_unique_drop_last(s);
    if i == s.len() - 1 {
        assert(s.remove(i) =~= s.drop_last());
        lemma_map_of_contains(s.drop_last(), k);
        assert forall|j: int| 0 <= j < s.drop_last().len() implies s.drop_last()[j].0@ != k by {
            assert(s[j].0@ != s[i].0@);
        }
        assert(!map_of(s.drop_last()).contains_key(k));
        assert(map_of(s).remove(k) =~= map_of(s.drop_last()));
    } else {
        let dl = s.drop_last();
        lemma_map_of_remove(dl, i);
        assert(s.remove(i).drop_last() =~= dl.remove(i));
        assert(s.remove(i).last() == s.last());
        assert(s.remove(i).len() > 0);
        assert(map_of(s.remove(i)) == map_of(dl.remove(i)).insert(s.last().0@, s.last().1@));
        assert(dl[i] == s[i]);
        assert(s[i].0@ != s[s.len() - 1].0@);
        assert(map_of(dl).remove(k).insert(s.last().0@, s.last().1@) =~= map_of(dl).insert(
            s.last().0@,
            s.last().1@,
        ).remove(k));
    }
}

/// Under unique names, the denoted map has exactly one key per entry.
pub proof fn lemma_map_of_len(s: Seq<(String, String)>)
    requires
        unique_names(s),
    ensures
        map_of(s).dom().finite(),
        map_of(s).dom().len() == s.len(),
    decreases s.len(),
{
    if s.len() == 0 {
        assert(map_of(s).dom() =~= Set::<Seq<char>>::empty());
    } else {
        let dl = s.drop_last();
        let k = s.last().0@;
        lemma_unique_drop_last(s);
        lemma_map_of_len(dl);
        lemma_map_of_contains(dl, k);
        assert forall|j: int| 0 <= j < dl.len() implies dl[j].0@ != k by {
            assert(s[j].0@ != s[s.len() - 1].0@);
        }
        assert(!map_of(dl).contains_key(k));
        assert(map_of(s).dom() =~= map_of(dl).dom().insert(k));
        vstd::set::axiom_set_insert_len(map_of(dl).dom(), k);
    }
}

/// One parsed invocation: exactly one subcommand.
pub enum Command {
    Add { name: String, file: String },
    Remove { name: String },
    Edit { name: String },
    Yoink { directory: String },
    Yeet { directory: String, dry_run: bool },
}

/// The parsed command line: the subcommand plus the shared option that
/// overrides where the registry is persisted.
pub struct Opt {
    pub cmd: Command,
    pub config_file: Option<String>,
}

/// What a dispatched command asks its caller to do afterwards.
pub struct Outcome {
    /// The registry was mutated and must be persisted again.
    pub changed: bool,
    /// File copies to carry out, as (source, destination) path pairs.
    pub copies: Vec<(String, String)>,
    /// Whether the copies are to be performed; false exactly for a dry run.
    pub perform_copies: bool,
    /// A path to hand to the external editor, for the edit command.
    pub edit_path: Option<String>,
    /// The path of the entry a remove deleted, for the confirmation record.
    pub removed: Option<String>,
}

} // verus!
