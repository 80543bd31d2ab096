//! A list of (name, register) entries read as a map, with the facts that the
//! store's operations need about it.
use vstd::prelude::*;
use crate::model::{RegisterModel, StoreModel};

verus! {

/// One entry of a register list: its name and its register.
pub type EntryModel = (Seq<char>, RegisterModel);

/// The map that a list of entries denotes: a later entry overrides an earlier
/// one with the same name.
pub open spec fn map_of(s: Seq<EntryModel>) -> StoreModel
    decreases s.len(),
{
    if s.len() == 0 {
        Map::empty()
    } else {
        map_of(s.drop_last()).insert(s.last().0, s.last().1)
    }
}

/// No two entries share a name.
pub open spec fn names_distinct(s: Seq<EntryModel>) -> bool {
    forall|i: int, j: int| 0 <= i < j < s.len() ==> #[trigger] s[i].0 != #[trigger] s[j].0
}

pub proof fn lemma_map_of_contains(s: Seq<EntryModel>, k: Seq<char>)
    ensures
        map_of(s).contains_key(k) <==> exists|i: int| 0 <= i < s.len() && #[trigger] s[i].0 == k,
    decreases s.len(),
{
    if s.len() > 0 {
        let d = s.drop_last();
        lemma_map_of_contains(d, k);
        if map_of(s).contains_key(k) {
            if k != s.last().0 {
                let i = choose|i: int| 0 <= i < d.len() && #[trigger] d[i].0 == k;
                assert(s[i].0 == k);
            } else {
                assert(s[s.len() - 1].0 == k);
            }
        }
        if exists|i: int| 0 <= i < s.len() && #[trigger] s[i].0 == k {
            let i = choose|i: int| 0 <= i < s.len() && #[trigger] s[i].0 == k;
            if i < s.len() - 1 {
                assert(d[i].0 == k);
            }
        }
    }
}

pub proof fn lemma_map_of_value(s: Seq<EntryModel>, i: int)
    requires
        names_distinct(s),
        0 <= i < s.len(),
    ensures
        map_of(s).contains_key(s[i].0),
        map_of(s)[s[i].0] == s[i].1,
    decreases s.len(),
{
    if i < s.len() - 1 {
        let d = s.drop_last();
        assert(d[i] == s[i]);
        assert(s[i].0 != s[s.len() - 1].0);
        lemma_map_of_value(d, i);
    }
}

pub proof fn lemma_map_of_len(s: Seq<EntryModel>)
    requires
        names_distinct(s),
    ensures
        map_of(s).dom().finite(),
        map_of(s).len() == s.len(),
    decreases s.len(),
{
    if s.len() > 0 {
        let d = s.drop_last();
        lemma_map_of_len(d);
        lemma_map_of_contains(d, s.last().0);
        assert(!map_of(d).contains_key(s.last().0)) by {
            if map_of(d).contains_key(s.last().0) {
                let i = choose|i: int| 0 <= i < d.len() && #[trigger] d[i].0 == s.last().0;
                assert(s[i].0 == s[s.len() - 1].0);
            }
        }
    }
}

pub proof fn lemma_map_of_push(s: Seq<EntryModel>, e: EntryModel)
    requires
        names_distinct(s),
        !map_of(s).contains_key(e.0),
    ensures
        names_distinct(s.push(e)),
        map_of(s.push(e)) == map_of(s).insert(e.0, e.1),
{
    assert(s.push(e).drop_last() =~= s);
    lemma_map_of_contains(s, e.0);
    assert forall|i: int, j: int| 0 <= i < j < s.push(e).len() implies #[trigger] s.push(e)[i].0
        != #[trigger] s.push(e)[j].0 by {
        if j == s.len() {
            assert(s[i].0 != e.0);
        }
    }
}

pub proof fn lemma_map_of_update(s: Seq<EntryModel>, i: int, v: RegisterModel)
    requires
        names_distinct(s),
        0 <= i < s.len(),
    ensures
        names_distinct(s.update(i, (s[i].0, v))),
        map_of(s.update(i, (s[i].0, v))) == map_of(s).insert(s[i].0, v),
    decreases s.len(),
{
    let t = s.update(i, (s[i].0, v));
    let d = s.drop_last();
    assert(names_distinct(t)) by {
        assert forall|a: int, b: int| 0 <= a < b < t.len() implies #[trigger] t[a].0
            != #[trigger] t[b].0 by {
            assert(t[a].0 == s[a].0 && t[b].0 == s[b].0);
        }
    }
    if i == s.len() - 1 {
        assert(t.drop_last() =~= d);
        assert(map_of(t) =~= map_of(s).insert(s[i].0, v));
    } else {
        assert(t.drop_last() =~= d.update(i, (d[i].0, v)));
        assert(s[i].0 != s[s.len() - 1].0);
        lemma_map_of_update(d, i, v);
        assert(map_of(t) =~= map_of(s).insert(s[i].0, v));
    }
}

pub proof fn lemma_map_of_remove(s: Seq<EntryModel>, i: int)
    requires
        names_distinct(s),
        0 <= i < s.len(),
    ensures
        names_distinct(s.remove(i)),
        map_of(s.remove(i)) == map_of(s).remove(s[i].0),
    decreases s.len(),
{
    let t = s.remove(i);
    let d = s.drop_last();
    assert(names_distinct(t)) by {
        assert forall|a: int, b: int| 0 <= a < b < t.len() implies #[trigger] t[a].0
            != #[trigger] t[b].0 by {
            let a2 = if a < i { a } else { a + 1 };
            let b2 = if b < i { b } else { b + 1 };
            assert(t[a] == s[a2] && t[b] == s[b2]);
        }
    }
    if i == s.len() - 1 {
        assert(t =~= d);
        lemma_map_of_contains(d, s[i].0);
        assert(!map_of(d).contains_key(s[i].0)) by {
            if map_of(d).contains_key(s[i].0) {
                let j = choose|j: int| 0 <= j < d.len() && #[trigger] d[j].0 == s[i].0;
                assert(s[j].0 == s[i].0);
            }
        }
        assert(map_of(t) =~= map_of(s).remove(s[i].0));
    } else {
        assert(t.drop_last() =~= d.remove(i));
        assert(t.last() == s.last());
        assert(d[i] == s[i]);
        assert(s[i].0 != s[s.len() - 1].0);
        lemma_map_of_remove(d, i);
        assert(map_of(t) =~= map_of(s).remove(s[i].0));
    }
}

} // verus!
