//! A small library behind a personal configuration-file manager: it keeps a
//! registry mapping symbolic names to filesystem paths and offers the
//! operations behind the `add`, `remove`, `edit`, `yoink` (export every
//! registered file into a directory) and `yeet` (restore every registered
//! file from that directory) commands. The library computes what to do —
//! registry mutations and copy plans — and leaves the file copies,
//! persistence and the external editor to its caller.
use vstd::prelude::*;

pub mod error;
pub mod laws;
pub mod registry;

use crate::error::ConfigrsError;
use crate::registry::{
    lemma_map_of_contains, lemma_map_of_index, lemma_map_of_push, lemma_map_of_remove,
    lemma_unique_remove, map_of, unique_names, Command, Config, Opt, Outcome,
};

verus! {

/// Find the index of the entry named `name`, if any.
fn find_index(repo: &Vec<(String, String)>, name: &String) -> (r: Option<usize>)
    ensures
        match r {
            Some(i) => i < repo@.len() && repo@[i as int].0@ == name@,
            None => forall|i: int| 0 <= i < repo@.len() ==> repo@[i].0@ != name@,
        },
{
    let mut k: usize = 0;
    while k < repo.len()
        invariant
            k <= repo@.len(),
            forall|j: int| 0 <= j < k ==> repo@[j].0@ != name@,
        decreases repo@.len() - k,
    {
        if repo[k].0 == *name {
            return Some(k);
        }
        k = k + 1;
    }
    None
}

/// Insert or overwrite the mapping `name -> file`. Always succeeds; the
/// registry must be persisted afterwards. When the name was absent, the new
/// entry goes to the end and every existing entry stays in place.
pub fn add(cfg: &mut Config, name: &String, file: &String)
    requires
        old(cfg).wf(),
    ensures
        final(cfg).wf(),
        final(cfg).repo_map() == old(cfg).repo_map().insert(name@, file@),
        final(cfg).version == old(cfg).version,
        !old(cfg).repo_map().contains_key(name@) ==> final(cfg).repo@ == old(cfg).repo@.push(
            (*name, *file),
        ),
{
    proof {
        lemma_map_of_contains(cfg.repo@, name@);
    }
    let found = find_index(&cfg.repo, name);
    let ghost s0 = cfg.repo@;
    match found {
        Some(i) => {
            proof {
                lemma_map_of_remove(s0, i as int);
                lemma_unique_remove(s0, i as int);
            }
            cfg.repo.remove(i);
            proof {
                assert forall|j: int| 0 <= j < cfg.repo@.len() implies cfg.repo@[j].0@ != name@ by {
                    let j0: int = if j < i { j } else { j + 1 };
                    assert(cfg.repo@[j] == s0[j0]);
                    if j0 < i {
                        assert(s0[j0].0@ != s0[i as int].0@);
                    } else {
                        assert(s0[i as int].0@ != s0[j0].0@);
                    }
                }
            }
        },
        None => {},
    }
    let ghost s1 = cfg.repo@;
    cfg.repo.push((name.clone(), file.clone()));
    proof {
        assert(cfg.repo@ =~= s1.push((*name, *file)));
        lemma_map_of_push(s1, (*name, *file));
        assert forall|p: int, q: int|
            0 <= p < q < cfg.repo@.len() implies cfg.repo@[p].0@ != cfg.repo@[q].0@ by {
            if q < s1.len() {
                assert(s1[p].0@ != s1[q].0@);
            } else {
                assert(s1[p].0@ != name@);
            }
        }
        if found is Some {
            assert(map_of(s1).insert(name@, file@) =~= map_of(s0).insert(name@, file@));
        }
    }
}

/// Delete `name` from the registry and return its path; when the name is
/// absent, fail with `NotFound` and leave the registry unchanged. On success
/// exactly one entry goes away and the registry must be persisted afterwards.
pub fn remove(cfg: &mut Config, name: &String) -> (r: Result<String, ConfigrsError>)
    requires
        old(cfg).wf(),
    ensures
        final(cfg).wf(),
        old(cfg).repo_map().contains_key(name@) ==> (r matches Ok(p)
            && p@ == old(cfg).repo_map()[name@]
            && final(cfg).repo_map() == old(cfg).repo_map().remove(name@)
            && final(cfg).repo@.len() + 1 == old(cfg).repo@.len()
            && final(cfg).version == old(cfg).version),
        old(cfg).repo_map().contains_key(name@) ==> exists|i: int|
            0 <= i < old(cfg).repo@.len() && old(cfg).repo@[i].0@ == name@ && final(cfg).repo@
                == old(cfg).repo@.remove(i),
        !old(cfg).repo_map().contains_key(name@) ==> (r matches Err(ConfigrsError::NotFound(n))
            && n@ == name@ && *final(cfg) == *old(cfg)),
{
    proof {
        lemma_map_of_contains(cfg.repo@, name@);
    }
    let found = find_index(&cfg.repo, name);
    match found {
        Some(i) => {
            proof {
                lemma_map_of_remove(cfg.repo@, i as int);
                lemma_unique_remove(cfg.repo@, i as int);
                lemma_map_of_index(cfg.repo@, i as int);
            }
            let pair = cfg.repo.remove(i);
            Ok(pair.1)
        },
        None => Err(ConfigrsError::NotFound(name.clone())),
    }
}

/// Resolve the path registered under `name`, for handing to the external
/// editor. Read-only: the registry is never marked changed by an edit.
pub fn edit(cfg: &Config, name: &String) -> (r: Result<String, ConfigrsError>)
    requires
        cfg.wf(),
    ensures
        cfg.repo_map().contains_key(name@) ==> (r matches Ok(p) && p@ == cfg.repo_map()[name@]),
        !cfg.repo_map().contains_key(name@) ==> (r matches Err(ConfigrsError::NotFound(n)) && n@
            == name@),
{
    proof {
        lemma_map_of_contains(cfg.repo@, name@);
    }
    match find_index(&cfg.repo, name) {
        Some(i) => {
            proof {
                lemma_map_of_index(cfg.repo@, i as int);
            }
            Ok(cfg.repo[i].1.clone())
        },
        None => Err(ConfigrsError::NotFound(name.clone())),
    }
}

/// The destination of a bulk copy: `dir`, a path separator, then `name`.
pub open spec fn join_seq(dir: Seq<char>, name: Seq<char>) -> Seq<char> {
    dir + seq!['/'] + name
}

/// Append `name` to `dir` as a path component.
fn join_path(dir: &String, name: &String) -> (r: String)
    ensures
        r@ == join_seq(dir@, name@),
{
    proof {
        reveal_strlit("/");
    }
    let mut s = dir.clone();
    s.append("/");
    s.append(name.as_str());
    proof {
        assert(s@ =~= dir@ + seq!['/'] + name@);
    }
    s
}

/// The (source, destination) views of a copy plan.
pub open spec fn pairs_view(s: Seq<(String, String)>) -> Seq<(Seq<char>, Seq<char>)> {
    Seq::new(s.len(), |i: int| (s[i].0@, s[i].1@))
}

/// The copy plan of a yoink: every registered file into `dir`, renamed to its
/// registered name.
pub open spec fn yoink_pairs(repo: Seq<(String, String)>, dir: Seq<char>) -> Seq<
    (Seq<char>, Seq<char>),
> {
    Seq::new(repo.len(), |i: int| (repo[i].1@, join_seq(dir, repo[i].0@)))
}

/// The copy plan of a yeet: `dir`/name back onto every registered file.
pub open spec fn yeet_pairs(repo: Seq<(String, String)>, dir: Seq<char>) -> Seq<
    (Seq<char>, Seq<char>),
> {
    Seq::new(repo.len(), |i: int| (join_seq(dir, repo[i].0@), repo[i].1@))
}

/// Plan a yoink: one (source, destination) pair per registry entry, copying
/// the registered file into `directory` under the entry's name. Planning
/// never mutates the registry.
pub fn yoink_plan(cfg: &Config, directory: &String) -> (r: Vec<(String, String)>)
    ensures
        pairs_view(r@) == yoink_pairs(cfg.repo@, directory@),
{
    let mut r: Vec<(String, String)> = Vec::new();
    let mut k: usize = 0;
    while k < cfg.repo.len()
        invariant
            k <= cfg.repo@.len(),
            r@.len() == k,
            forall|j: int|
                0 <= j < k ==> r@[j].0@ == cfg.repo@[j].1@ && r@[j].1@ == join_seq(
                    directory@,
                    cfg.repo@[j].0@,
                ),
        decreases cfg.repo@.len() - k,
    {
        let dst = join_path(directory, &cfg.repo[k].0);
        r.push((cfg.repo[k].1.clone(), dst));
        k = k + 1;
    }
    proof {
        assert(pairs_view(r@) =~= yoink_pairs(cfg.repo@, directory@));
    }
    r
}

/// Plan a yeet: one (source, destination) pair per registry entry, copying
/// `directory`/name back onto the registered path. Planning never mutates the
/// registry.
pub fn yeet_plan(cfg: &Config, directory: &String) -> (r: Vec<(String, String)>)
    ensures
        pairs_view(r@) == yeet_pairs(cfg.repo@, directory@),
{
    let mut r: Vec<(String, String)> = Vec::new();
    let mut k: usize = 0;
    while k < cfg.repo.len()
        invariant
            k <= cfg.repo@.len(),
            r@.len() == k,
            forall|j: int|
                0 <= j < k ==> r@[j].0@ == join_seq(directory@, cfg.repo@[j].0@) && r@[j].1@
                    == cfg.repo@[j].1@,
        decreases cfg.repo@.len() - k,
    {
        let src = join_path(directory, &cfg.repo[k].0);
        r.push((src, cfg.repo[k].1.clone()));
        k = k + 1;
    }
    proof {
        assert(pairs_view(r@) =~= yeet_pairs(cfg.repo@, directory@));
    }
    r
}

/// Dispatch one parsed command against the registry. The outcome says what
/// remains for the caller: whether the registry must be persisted again
/// (exactly for add, and for a remove that found its name), which file copies
/// to carry out and whether to perform them (never for a dry-run yeet), and
/// which file to open in the editor.
pub fn run(cfg: &mut Config, opt: &Opt) -> (r: Result<Outcome, ConfigrsError>)
    requires
        old(cfg).wf(),
    ensures
        final(cfg).wf(),
        match opt.cmd {
            Command::Add { name, file } => r matches Ok(out) && out.changed && out.edit_path
                is None && out.removed is None && out.copies@.len() == 0
                && final(cfg).repo_map() == old(cfg).repo_map().insert(name@, file@)
                && final(cfg).version == old(cfg).version,
            Command::Remove { name } => if old(cfg).repo_map().contains_key(name@) {
                r matches Ok(out) && out.changed && out.edit_path is None && out.copies@.len()
                    == 0 && (out.removed matches Some(p) && p@ == old(cfg).repo_map()[name@])
                    && final(cfg).repo_map() == old(cfg).repo_map().remove(name@)
                    && final(cfg).repo@.len() + 1 == old(cfg).repo@.len()
                    && final(cfg).version == old(cfg).version
            } else {
                r matches Err(ConfigrsError::NotFound(n)) && n@ == name@ && *final(cfg) == *old(cfg)
            },
            Command::Edit { name } => *final(cfg) == *old(cfg)
                && if old(cfg).repo_map().contains_key(name@) {
                (r matches Ok(out) && !out.changed && out.copies@.len() == 0 && (out.edit_path
                    matches Some(p) && p@ == old(cfg).repo_map()[name@]))
            } else {
                (r matches Err(ConfigrsError::NotFound(n)) && n@ == name@)
            },
            Command::Yoink { directory } => (r matches Ok(out)
                && !out.changed && out.perform_copies && out.edit_path is None
                && pairs_view(out.copies@) == yoink_pairs(old(cfg).repo@, directory@))
                && *final(cfg) == *old(cfg),
            Command::Yeet { directory, dry_run } => (r matches Ok(out)
                && !out.changed && out.perform_copies == !dry_run && out.edit_path is None
                && pairs_view(out.copies@) == yeet_pairs(old(cfg).repo@, directory@))
                && *final(cfg) == *old(cfg),
        },
{
    match &opt.cmd {
        Command::Add { name, file } => {
            crate::add(cfg, name, file);
            Ok(
                Outcome {
                    changed: true,
                    copies: Vec::new(),
                    perform_copies: false,
                    edit_path: None,
                    removed: None,
                },
            )
        },
        Command::Remove { name } => {
            match remove(cfg, name) {
                Ok(path) => Ok(
                    Outcome {
                        changed: true,
                        copies: Vec::new(),
                        perform_copies: false,
                        edit_path: None,
                        removed: Some(path),
                    },
                ),
                Err(e) => Err(e),
            }
        },
        Command::Edit { name } => {
            match edit(cfg, name) {
                Ok(p) => Ok(
                    Outcome {
                        changed: false,
                        copies: Vec::new(),
                        perform_copies: false,
                        edit_path: Some(p),
                        removed: None,
                    },
                ),
                Err(e) => Err(e),
            }
        },
        Command::Yoink { directory } => {
            let copies = yoink_plan(cfg, directory);
            Ok(
                Outcome {
                    changed: false,
                    copies,
                    perform_copies: true,
                    edit_path: None,
                    removed: None,
                },
            )
        },
        Command::Yeet { directory, dry_run } => {
            let copies = yeet_plan(cfg, directory);
            Ok(
                Outcome {
                    changed: false,
                    copies,
                    perform_copies: !*dry_run,
                    edit_path: None,
                    removed: None,
                },
            )
        },
    }
}

/// Build a registry from a version tag and the stored (name, path) pairs that
/// the persistence collaborator handed back; on a repeated name the later pair
/// wins. Pairs with unique names are kept exactly as given.
pub fn from_pairs(version: String, pairs: Vec<(String, String)>) -> (r: Config)
    ensures
        r.wf(),
        r.version == version,
        r.repo_map() == map_of(pairs@),
        unique_names(pairs@) ==> r.repo@ == pairs@,
{
    let mut cfg = Config { version, repo: Vec::new() };
    let mut k: usize = 0;
    while k < pairs.len()
        invariant
            k <= pairs@.len(),
            cfg.wf(),
            cfg.version == version,
            cfg.repo_map() == map_of(pairs@.subrange(0, k as int)),
            unique_names(pairs@) ==> cfg.repo@ == pairs@.subrange(0, k as int),
        decreases pairs@.len() - k,
    {
        let ghost pre = cfg.repo@;
        proof {
            lemma_map_of_contains(pre, pairs@[k as int].0@);
        }
        crate::add(&mut cfg, &pairs[k].0, &pairs[k].1);
        proof {
            assert(pairs@.subrange(0, k + 1).drop_last() =~= pairs@.subrange(0, k as int));
            assert(pairs@.subrange(0, k + 1).last() == pairs@[k as int]);
            if unique_names(pairs@) {
                assert forall|j: int| 0 <= j < pre.len() implies pre[j].0@ != pairs@[k as int].0@
                by {
                    assert(pre[j] == pairs@[j]);
                    assert(pairs@[j].0@ != pairs@[k as int].0@);
                }
                assert(!map_of(pre).contains_key(pairs@[k as int].0@));
                assert(cfg.repo@ =~= pairs@.subrange(0, k + 1));
            }
        }
        k = k + 1;
    }
    proof {
        assert(pairs@.subrange(0, pairs@.len() as int) =~= pairs@);
    }
    cfg
}

} // verus!
