//! Lists of usernames on which nobody stands twice.

use crate::server::model::{
    fresh, is_fresh_at, is_not_name, only_fresh, stale, with_name, without_name,
    STALE_AFTER_MILLIS,
};
use vstd::hash_map::StringHashMap;
use vstd::prelude::*;

verus! {

/// What passes a filter of a list without repeats has no repeats.
pub proof fn lemma_filter_no_duplicates<A>(s: Seq<A>, keep: spec_fn(A) -> bool)
    requires
        s.no_duplicates(),
    ensures
        s.filter(keep).no_duplicates(),
    decreases s.len(),
{
    reveal(Seq::filter);
    if s.len() > 0 {
        let front = s.drop_last();
        lemma_filter_no_duplicates(front, keep);
        if keep(s.last()) {
            if front.filter(keep).contains(s.last()) {
                front.lemma_filter_contains_rev(keep, s.last());
                let j = front.index_of(s.last());
                assert(s[j] == s[s.len() - 1]);
            }
        }
    }
}

/// Exactly those of the list that pass the filter are in what it keeps.
pub proof fn lemma_filter_membership<A>(s: Seq<A>, keep: spec_fn(A) -> bool, x: A)
    ensures
        s.filter(keep).contains(x) <==> s.contains(x) && keep(x),
{
    broadcast use vstd::seq_lib::group_filter_ensures;

    if s.filter(keep).contains(x) {
        s.lemma_filter_contains_rev(keep, x);
        let j = s.filter(keep).index_of(x);
        assert(keep(s.filter(keep)[j]));
    }
    if s.contains(x) && keep(x) {
        let j = s.index_of(x);
        assert(s.filter(keep).contains(s[j]));
    }
}

/// Taking a name off a list without repeats leaves no repeats, and leaves
/// on it exactly the others.
pub proof fn lemma_without_name(list: Seq<Seq<char>>, name: Seq<char>)
    ensures
        list.no_duplicates() ==> without_name(list, name).no_duplicates(),
        forall|u: Seq<char>|
            #[trigger] without_name(list, name).contains(u) <==> list.contains(u) && u != name,
{
    let keep = is_not_name(name);
    if list.no_duplicates() {
        lemma_filter_no_duplicates(list, keep);
    }
    assert forall|u: Seq<char>|
        #[trigger] without_name(list, name).contains(u) <==> list.contains(u) && u != name by {
        lemma_filter_membership(list, keep, u);
    }
}

/// Keeping the fresh of a list without repeats leaves no repeats, and leaves
/// on it exactly those that are fresh.
pub proof fn lemma_only_fresh(list: Seq<Seq<char>>, last_active: Map<Seq<char>, u64>, now: u64)
    ensures
        list.no_duplicates() ==> only_fresh(list, last_active, now).no_duplicates(),
        forall|u: Seq<char>|
            #[trigger] only_fresh(list, last_active, now).contains(u) <==> list.contains(u)
                && fresh(last_active, u, now),
{
    let keep = is_fresh_at(last_active, now);
    if list.no_duplicates() {
        lemma_filter_no_duplicates(list, keep);
    }
    assert forall|u: Seq<char>|
        #[trigger] only_fresh(list, last_active, now).contains(u) <==> list.contains(u) && fresh(
            last_active,
            u,
            now,
        ) by {
        lemma_filter_membership(list, keep, u);
    }
}

/// Putting a name on a list without repeats leaves no repeats, and leaves on
/// it exactly the name and what was there.
pub proof fn lemma_with_name(list: Seq<Seq<char>>, name: Seq<char>)
    ensures
        list.no_duplicates() ==> with_name(list, name).no_duplicates(),
        forall|u: Seq<char>|
            #[trigger] with_name(list, name).contains(u) <==> list.contains(u) || u == name,
{
    let longer = list.push(name);
    if !list.contains(name) {
        assert(longer[list.len() as int] == name);
        assert forall|u: Seq<char>| #[trigger] longer.contains(u) <==> list.contains(u) || u
            == name by {
            if list.contains(u) {
                let j = list.index_of(u);
                assert(longer[j] == u);
            }
            if longer.contains(u) {
                let j = longer.index_of(u);
                if j < list.len() {
                    assert(list[j] == u);
                }
            }
        }
        if list.no_duplicates() {
            assert forall|i: int, j: int|
                0 <= i < longer.len() && 0 <= j < longer.len() && i != j implies longer[i]
                != longer[j] by {
                if i < list.len() && j < list.len() {
                } else if i < list.len() {
                    assert(list.contains(list[i]));
                } else if j < list.len() {
                    assert(list.contains(list[j]));
                }
            }
        }
    }
}

/// Whether `name` is on `list`.
pub fn has_name(list: &Vec<String>, name: &String) -> (found: bool)
    ensures
        found == list.deep_view().contains(name@),
{
    let mut i: usize = 0;
    while i < list.len()
        invariant
            i <= list.len(),
            forall|j: int| 0 <= j < i ==> list.deep_view()[j] != name@,
        decreases list.len() - i,
    {
        if list[i] == *name {
            assert(list.deep_view()[i as int] == name@);
            return true;
        }
        i += 1;
    }
    false
}

/// Puts `name` on `list` unless it is there.
pub fn add_name(list: &mut Vec<String>, name: String)
    ensures
        final(list).deep_view() == with_name(old(list).deep_view(), name@),
{
    if !has_name(list, &name) {
        list.push(name);
        assert(list.deep_view() =~= old(list).deep_view().push(name@));
    }
}

/// `list` without `name`, the rest in its order.
pub fn without(list: &Vec<String>, name: &String) -> (kept: Vec<String>)
    ensures
        kept.deep_view() == without_name(list.deep_view(), name@),
{
    let ghost keep = is_not_name(name@);
    let mut kept: Vec<String> = Vec::new();
    let mut i: usize = 0;
    assert(list.deep_view().take(0) =~= Seq::empty());
    assert(kept.deep_view() =~= Seq::empty());
    proof {
        reveal(Seq::filter);
    }
    while i < list.len()
        invariant
            i <= list.len(),
            keep == is_not_name(name@),
            kept.deep_view() == list.deep_view().take(i as int).filter(keep),
        decreases list.len() - i,
    {
        proof {
            list.deep_view().lemma_take_succ_push(i as int);
            list.deep_view().take(i as int).lemma_filter_push(list.deep_view()[i as int], keep);
        }
        let ghost before = kept.deep_view();
        if list[i] != *name {
            kept.push(list[i].clone());
            assert(kept.deep_view() =~= before.push(list.deep_view()[i as int]));
        }
        i += 1;
    }
    assert(list.deep_view().take(i as int) =~= list.deep_view());
    kept
}

/// Whether a heartbeat seen at `seen` is too old at `now`.
pub fn is_stale(seen: u64, now: u64) -> (old: bool)
    ensures
        old == stale(seen, now),
{
    now > seen && now - seen > STALE_AFTER_MILLIS
}

/// Whether `name` has a heartbeat on record that is not too old at `now`.
pub fn is_fresh(last_active: &StringHashMap<u64>, name: &String, now: u64) -> (ok: bool)
    ensures
        ok == fresh(last_active@, name@, now),
{
    match last_active.get(name.as_str()) {
        Some(seen) => !is_stale(*seen, now),
        None => false,
    }
}

/// Those of `list` with a fresh heartbeat at `now`, in their order.
pub fn fresh_only(list: &Vec<String>, last_active: &StringHashMap<u64>, now: u64) -> (kept: Vec<
    String,
>)
    ensures
        kept.deep_view() == only_fresh(list.deep_view(), last_active@, now),
{
    let ghost keep = is_fresh_at(last_active@, now);
    let mut kept: Vec<String> = Vec::new();
    let mut i: usize = 0;
    assert(list.deep_view().take(0) =~= Seq::empty());
    assert(kept.deep_view() =~= Seq::empty());
    proof {
        reveal(Seq::filter);
    }
    while i < list.len()
        invariant
            i <= list.len(),
            keep == is_fresh_at(last_active@, now),
            kept.deep_view() == list.deep_view().take(i as int).filter(keep),
        decreases list.len() - i,
    {
        proof {
            list.deep_view().lemma_take_succ_push(i as int);
            list.deep_view().take(i as int).lemma_filter_push(list.deep_view()[i as int], keep);
        }
        let ghost before = kept.deep_view();
        if is_fresh(last_active, &list[i], now) {
            kept.push(list[i].clone());
            assert(kept.deep_view() =~= before.push(list.deep_view()[i as int]));
        }
        i += 1;
    }
    assert(list.deep_view().take(i as int) =~= list.deep_view());
    kept
}

} // verus!
