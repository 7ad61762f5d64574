//! Laws that relate the registry operations to one another. Each is stated
//! over the same spec-level models that the operations' contracts use: the
//! name-to-path map a registry denotes, the copy plans of the bulk commands,
//! and, for the bulk laws, a filesystem modelled as a map from file path to
//! file content.
use vstd::prelude::*;

use crate::registry::{
    lemma_map_of_index, lemma_map_of_len, lemma_map_of_remove, map_of, unique_names, Config,
};
use crate::{join_seq, yoink_pairs};

verus! {

/// Add followed by lookup on the same name always finds the just-added path.
pub proof fn lemma_add_then_lookup(m: Map<Seq<char>, Seq<char>>, name: Seq<char>, path: Seq<char>)
    ensures
        m.insert(name, path).contains_key(name),
        m.insert(name, path)[name] == path,
{
}

/// Removing a present name deletes exactly that entry: the name is gone, every
/// other name keeps its path, and the registry shrinks by exactly one — a
/// well-formed registry has one map key per entry.
pub proof fn lemma_remove_exact(cfg: Config, name: Seq<char>, other: Seq<char>)
    requires
        cfg.wf(),
        cfg.repo_map().contains_key(name),
        other != name,
    ensures
        !cfg.repo_map().remove(name).contains_key(name),
        cfg.repo_map().remove(name).contains_key(other) <==> cfg.repo_map().contains_key(other),
        cfg.repo_map().contains_key(other) ==> cfg.repo_map().remove(name)[other]
            == cfg.repo_map()[other],
        cfg.repo_map().dom().len() == cfg.repo@.len(),
        cfg.repo_map().remove(name).dom().len() + 1 == cfg.repo@.len(),
{
    let m = cfg.repo_map();
    lemma_map_of_len(cfg.repo@);
    assert(m.remove(name).dom() =~= m.dom().remove(name));
    vstd::set::axiom_set_remove_len(m.dom(), name);
}

/// Unique names survive any reordering of the pairs.
pub proof fn lemma_unique_names_permutation(s1: Seq<(String, String)>, s2: Seq<(String, String)>)
    requires
        unique_names(s1),
        s1.to_multiset() == s2.to_multiset(),
    ensures
        unique_names(s2),
{
    broadcast use vstd::seq_lib::group_to_multiset_ensures;

    assert forall|i: int, j: int|
        0 <= i < s1.len() && 0 <= j < s1.len() && i != j implies s1[i] != s1[j] by {
        if i < j {
            assert(s1[i].0@ != s1[j].0@);
        } else {
            assert(s1[j].0@ != s1[i].0@);
        }
    }
    s1.lemma_multiset_has_no_duplicates();
    s2.lemma_multiset_has_no_duplicates_conv();
    assert forall|a: int, b: int| 0 <= a < b < s2.len() implies s2[a].0@ != s2[b].0@ by {
        if s2[a].0@ == s2[b].0@ {
            assert(s2[a] != s2[b]);
            assert(s2.contains(s2[a]));
            assert(s2.contains(s2[b]));
            assert(s2.to_multiset().count(s2[a]) > 0);
            assert(s2.to_multiset().count(s2[b]) > 0);
            assert(s1.to_multiset().count(s2[a]) > 0);
            assert(s1.to_multiset().count(s2[b]) > 0);
            assert(s1.contains(s2[a]));
            assert(s1.contains(s2[b]));
            let i = choose|i: int| 0 <= i < s1.len() && s1[i] == s2[a];
            let j = choose|j: int| 0 <= j < s1.len() && s1[j] == s2[b];
            assert(i != j);
            if i < j {
                assert(s1[i].0@ != s1[j].0@);
            } else {
                assert(s1[j].0@ != s1[i].0@);
            }
        }
    }
}

/// The map a registry denotes does not depend on the order of its uniquely
/// named pairs: the persistence collaborator may hand the stored entries back
/// in any order, and the reloaded registry still denotes the same map.
pub proof fn lemma_map_of_permutation(s1: Seq<(String, String)>, s2: Seq<(String, String)>)
    requires
        unique_names(s1),
        s1.to_multiset() == s2.to_multiset(),
    ensures
        map_of(s2) == map_of(s1),
    decreases s1.len(),
{
    broadcast use vstd::seq_lib::group_to_multiset_ensures;

    lemma_unique_names_permutation(s1, s2);
    if s1.len() == 0 {
        assert(s2.to_multiset().len() == 0);
        assert(s2.len() == 0);
    } else {
        let p = s1.last();
        assert(s1.contains(p));
        assert(s1.to_multiset().count(p) > 0);
        assert(s2.to_multiset().count(p) > 0);
        assert(s2.contains(p));
        let j = choose|j: int| 0 <= j < s2.len() && s2[j] == p;
        let i: int = s1.len() - 1;
        assert(s1.remove(i) =~= s1.drop_last());
        assert(s1.remove(i).to_multiset() =~= s1.to_multiset().remove(p));
        assert(s2.remove(j).to_multiset() =~= s2.to_multiset().remove(p));
        crate::registry::lemma_unique_drop_last(s1);
        lemma_map_of_permutation(s1.drop_last(), s2.remove(j));
        lemma_map_of_remove(s2, j);
        lemma_map_of_index(s2, j);
        assert(map_of(s2).remove(p.0@) == map_of(s1.drop_last()));
        assert(map_of(s2) =~= map_of(s1.drop_last()).insert(p.0@, p.1@));
    }
}

/// One copy: the content at `src`, if any, overwrites whatever is at `dst`.
pub open spec fn apply_copy(
    disk: Map<Seq<char>, Seq<u8>>,
    src: Seq<char>,
    dst: Seq<char>,
) -> Map<Seq<char>, Seq<u8>> {
    if disk.contains_key(src) {
        disk.insert(dst, disk[src])
    } else {
        disk
    }
}

/// Carry a copy plan out in order over a filesystem modelled as a map from
/// file path to file content.
pub open spec fn apply_copies(
    disk: Map<Seq<char>, Seq<u8>>,
    plan: Seq<(Seq<char>, Seq<char>)>,
) -> Map<Seq<char>, Seq<u8>>
    decreases plan.len(),
{
    if plan.len() == 0 {
        disk
    } else {
        apply_copy(apply_copies(disk, plan.drop_last()), plan.last().0, plan.last().1)
    }
}

/// Some copy of the plan writes to path `p`.
pub open spec fn is_destination(plan: Seq<(Seq<char>, Seq<char>)>, p: Seq<char>) -> bool {
    exists|i: int| 0 <= i < plan.len() && plan[i].1 == p
}

/// A plan whose copies cannot interfere: every source exists, no two copies
/// write the same path, and no copy writes over any copy's source.
pub open spec fn plan_independent(
    disk: Map<Seq<char>, Seq<u8>>,
    plan: Seq<(Seq<char>, Seq<char>)>,
) -> bool {
    &&& forall|i: int| 0 <= i < plan.len() ==> disk.contains_key(#[trigger] plan[i].0)
    &&& forall|i: int, j: int| 0 <= i < j < plan.len() ==> plan[i].1 != plan[j].1
    &&& forall|i: int| 0 <= i < plan.len() ==> !is_destination(plan, #[trigger] plan[i].0)
}

/// What an independent plan leaves on disk: every destination holds its
/// source's original content, and every other path is untouched.
pub proof fn lemma_apply_copies_frame(
    disk: Map<Seq<char>, Seq<u8>>,
    plan: Seq<(Seq<char>, Seq<char>)>,
)
    requires
        plan_independent(disk, plan),
    ensures
        forall|p: Seq<char>|
            !is_destination(plan, p) ==> (apply_copies(disk, plan).contains_key(p)
                <==> disk.contains_key(p)),
        forall|p: Seq<char>|
            !is_destination(plan, p) && disk.contains_key(p) ==> apply_copies(disk, plan)[p]
                == disk[p],
        forall|i: int|
            0 <= i < plan.len() ==> apply_copies(disk, plan).contains_key(#[trigger] plan[i].1)
                && apply_copies(disk, plan)[plan[i].1] == disk[plan[i].0],
    decreases plan.len(),
{
    if plan.len() == 0 {
    } else {
        let pre = plan.drop_last();
        let s = plan.last().0;
        let d = plan.last().1;
        assert forall|p: Seq<char>| is_destination(pre, p) implies is_destination(plan, p) by {
            let i = choose|i: int| 0 <= i < pre.len() && pre[i].1 == p;
            assert(plan[i].1 == p);
        }
        assert(plan_independent(disk, pre)) by {
            assert(forall|i: int| 0 <= i < pre.len() ==> pre[i] == plan[i]);
        }
        lemma_apply_copies_frame(disk, pre);
        let r0 = apply_copies(disk, pre);
        assert(!is_destination(plan, s));
        assert(!is_destination(pre, s));
        assert(r0.contains_key(s));
        assert(r0[s] == disk[s]);
        assert(apply_copies(disk, plan) == r0.insert(d, r0[s]));
        assert forall|i: int|
            0 <= i < plan.len() implies apply_copies(disk, plan).contains_key(#[trigger] plan[i].1)
            && apply_copies(disk, plan)[plan[i].1] == disk[plan[i].0] by {
            if i < plan.len() - 1 {
                assert(plan[i].1 != d);
                assert(pre[i] == plan[i]);
            }
        }
    }
}

/// An independent plan is idempotent: carrying it out a second time changes
/// nothing, because the first run already wrote every destination and
/// disturbed no source.
pub proof fn lemma_apply_copies_idempotent(
    disk: Map<Seq<char>, Seq<u8>>,
    plan: Seq<(Seq<char>, Seq<char>)>,
)
    requires
        plan_independent(disk, plan),
    ensures
        apply_copies(apply_copies(disk, plan), plan) == apply_copies(disk, plan),
{
    let r1 = apply_copies(disk, plan);
    lemma_apply_copies_frame(disk, plan);
    assert(plan_independent(r1, plan)) by {
        assert forall|i: int| 0 <= i < plan.len() implies r1.contains_key(#[trigger] plan[i].0) by {
            assert(!is_destination(plan, plan[i].0));
            assert(disk.contains_key(plan[i].0));
        }
    }
    lemma_apply_copies_frame(r1, plan);
    let r2 = apply_copies(r1, plan);
    assert forall|p: Seq<char>| r2.contains_key(p) <==> r1.contains_key(p) by {
        if is_destination(plan, p) {
            let i = choose|i: int| 0 <= i < plan.len() && plan[i].1 == p;
            assert(r2.contains_key(plan[i].1));
            assert(r1.contains_key(plan[i].1));
        }
    }
    assert forall|p: Seq<char>| r1.contains_key(p) implies r2[p] == r1[p] by {
        if is_destination(plan, p) {
            let i = choose|i: int| 0 <= i < plan.len() && plan[i].1 == p;
            assert(r2[plan[i].1] == r1[plan[i].0]);
            assert(r1[plan[i].0] == disk[plan[i].0]);
            assert(r1[plan[i].1] == disk[plan[i].0]);
        }
    }
    assert(r2 =~= r1);
}

/// Distinct names give distinct destinations under one directory.
pub proof fn lemma_join_seq_injective(dir: Seq<char>, n1: Seq<char>, n2: Seq<char>)
    requires
        join_seq(dir, n1) == join_seq(dir, n2),
    ensures
        n1 == n2,
{
    let a = join_seq(dir, n1);
    let b = join_seq(dir, n2);
    assert(a.len() == dir.len() + 1 + n1.len());
    assert(b.len() == dir.len() + 1 + n2.len());
    assert forall|k: int| 0 <= k < n1.len() implies n1[k] == n2[k] by {
        assert(a[dir.len() + 1 + k] == n1[k]);
        assert(b[dir.len() + 1 + k] == n2[k]);
    }
    assert(n1 =~= n2);
}

/// Yoink is idempotent: when every registered file exists and no registered
/// path lies at a destination inside the target directory, exporting twice
/// leaves exactly the files, with exactly the content, that exporting once
/// leaves.
pub proof fn lemma_yoink_idempotent(cfg: Config, dir: Seq<char>, disk: Map<Seq<char>, Seq<u8>>)
    requires
        cfg.wf(),
        forall|i: int| 0 <= i < cfg.repo@.len() ==> disk.contains_key(#[trigger] cfg.repo@[i].1@),
        forall|i: int, j: int|
            0 <= i < cfg.repo@.len() && 0 <= j < cfg.repo@.len() ==> cfg.repo@[i].1@ != join_seq(
                dir,
                cfg.repo@[j].0@,
            ),
    ensures
        apply_copies(apply_copies(disk, yoink_pairs(cfg.repo@, dir)), yoink_pairs(cfg.repo@, dir))
            == apply_copies(disk, yoink_pairs(cfg.repo@, dir)),
{
    let plan = yoink_pairs(cfg.repo@, dir);
    assert forall|i: int, j: int| 0 <= i < j < plan.len() implies plan[i].1 != plan[j].1 by {
        if plan[i].1 == plan[j].1 {
            lemma_join_seq_injective(dir, cfg.repo@[i].0@, cfg.repo@[j].0@);
            assert(cfg.repo@[i].0@ != cfg.repo@[j].0@);
        }
    }
    assert forall|i: int| 0 <= i < plan.len() implies !is_destination(plan, #[trigger] plan[i].0) by {
        if is_destination(plan, plan[i].0) {
            let j = choose|j: int| 0 <= j < plan.len() && plan[j].1 == plan[i].0;
            assert(cfg.repo@[i].1@ == join_seq(dir, cfg.repo@[j].0@));
        }
    }
    lemma_apply_copies_idempotent(disk, plan);
}

/// Round trip: a well-formed registry, stored and rebuilt from the stored
/// pairs in whatever order the persistence collaborator returns them, denotes
/// the same name-to-path map and carries the same version.
pub proof fn lemma_store_load_round_trip(
    stored: Config,
    returned: Seq<(String, String)>,
    loaded: Config,
)
    requires
        stored.wf(),
        returned.to_multiset() == stored.repo@.to_multiset(),
        loaded.version == stored.version,
        loaded.repo_map() == map_of(returned),
    ensures
        loaded.repo_map() == stored.repo_map(),
        loaded.version == stored.version,
{
    lemma_map_of_permutation(stored.repo@, returned);
}

} // verus!

