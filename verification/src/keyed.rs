//! Identifier-keyed association lists: the registry, the publisher's cache
//! and the observer's state map all store their entries in a vector of
//! `(id, value)` pairs with pairwise distinct ids, and are specified through
//! the map those entries denote.

use vstd::prelude::*;

verus! {

use vstd::pervasive::VecAdditionalExecFns;

/// The map an entry list denotes.
pub open spec fn entries_map<V>(s: Seq<(u128, V)>) -> Map<u128, V>
    decreases s.len(),
{
    if s.len() == 0 {
        Map::empty()
    } else {
        entries_map(s.drop_last()).insert(s.last().0, s.last().1)
    }
}

/// Whether the ids of an entry list are pairwise distinct.
pub open spec fn unique_ids<V>(s: Seq<(u128, V)>) -> bool {
    forall|i: int, j: int|
        0 <= i < j < s.len() ==> (#[trigger] s[i]).0 != (#[trigger] s[j]).0
}

/// Whether some entry of the list carries this id.
pub open spec fn has_id<V>(s: Seq<(u128, V)>, id: u128) -> bool {
    exists|i: int| 0 <= i < s.len() && (#[trigger] s[i]).0 == id
}

/// The denoted map's domain holds exactly the listed ids.
pub proof fn lemma_entries_map_dom<V>(s: Seq<(u128, V)>)
    ensures
        forall|k: u128| #[trigger] entries_map(s).dom().contains(k) <==> has_id(s, k),
    decreases s.len(),
{
    if s.len() > 0 {
        let dl = s.drop_last();
        lemma_entries_map_dom(dl);
        assert forall|k: u128| #[trigger] entries_map(s).dom().contains(k) implies has_id(s, k) by {
            if k == s.last().0 {
                assert(s[s.len() - 1].0 == k);
            } else {
                assert(entries_map(dl).dom().contains(k));
                assert(has_id(dl, k));
                let i = choose|i: int| 0 <= i < dl.len() && (#[trigger] dl[i]).0 == k;
                assert(s[i].0 == k);
            }
        }
        assert forall|k: u128| has_id(s, k) implies #[trigger] entries_map(s).dom().contains(k) by {
            let i = choose|i: int| 0 <= i < s.len() && (#[trigger] s[i]).0 == k;
            if i < s.len() - 1 {
                assert(dl[i] == s[i]);
                assert(has_id(dl, k));
                assert(entries_map(dl).dom().contains(k));
            } else {
                assert(s.last() == s[i]);
            }
        }
    }
}

/// In a list with distinct ids, the denoted map sends each listed id to its
/// entry's value.
pub proof fn lemma_entries_map_index<V>(s: Seq<(u128, V)>, i: int)
    requires
        unique_ids(s),
        0 <= i < s.len(),
    ensures
        entries_map(s).dom().contains(s[i].0),
        entries_map(s)[s[i].0] == s[i].1,
    decreases s.len(),
{
    let dl = s.drop_last();
    if i == s.len() - 1 {
    } else {
        assert(unique_ids(dl)) by {
            assert(forall|x: int, y: int|
                0 <= x < y < dl.len() ==> (#[trigger] dl[x]) == s[x] && (#[trigger] dl[y]) == s[y]);
        }
        lemma_entries_map_index(dl, i);
        assert(s[i].0 != s.last().0) by {
            assert(s[s.len() - 1] == s.last());
        }
    }
}

/// A list with distinct ids denotes a finite map with one entry per element.
pub proof fn lemma_entries_map_len<V>(s: Seq<(u128, V)>)
    requires
        unique_ids(s),
    ensures
        entries_map(s).dom().finite(),
        entries_map(s).dom().len() == s.len(),
    decreases s.len(),
{
    if s.len() > 0 {
        let dl = s.drop_last();
        assert(unique_ids(dl)) by {
            assert(forall|x: int, y: int|
                0 <= x < y < dl.len() ==> (#[trigger] dl[x]) == s[x] && (#[trigger] dl[y]) == s[y]);
        }
        lemma_entries_map_len(dl);
        lemma_entries_map_dom(dl);
        assert(!has_id(dl, s.last().0)) by {
            assert forall|i: int| 0 <= i < dl.len() implies (#[trigger] dl[i]).0 != s.last().0 by {
                assert(dl[i] == s[i]);
                assert(s[s.len() - 1] == s.last());
            }
        }
    }
}

/// Binding a fresh id grows the denoted map by exactly one entry. With
/// `lemma_entries_map_len` this is the cardinality behind the bulk
/// snapshots: registering or tracking ids that are pairwise distinct leaves
/// one entry per id, so listing them yields exactly as many entries as were
/// added.
pub proof fn lemma_insert_fresh_adds_one<V>(m: Map<u128, V>, id: u128, v: V)
    requires
        m.dom().finite(),
        !m.dom().contains(id),
    ensures
        m.insert(id, v).dom().finite(),
        m.insert(id, v).dom().len() == m.dom().len() + 1,
{
    assert(m.insert(id, v).dom() =~= m.dom().insert(id));
}

/// Appending an entry inserts its pair into the denoted map.
pub proof fn lemma_entries_map_push<V>(s: Seq<(u128, V)>, id: u128, v: V)
    ensures
        entries_map(s.push((id, v))) == entries_map(s).insert(id, v),
        unique_ids(s) && !has_id(s, id) ==> unique_ids(s.push((id, v))),
{
    let p = s.push((id, v));
    assert(p.drop_last() =~= s);
    assert(p.last() == (id, v));
    if unique_ids(s) && !has_id(s, id) {
        assert forall|i: int, j: int| 0 <= i < j < p.len() implies (#[trigger] p[i]).0
            != (#[trigger] p[j]).0 by {
            if j == p.len() - 1 {
                assert(p[i] == s[i]);
            } else {
                assert(p[i] == s[i] && p[j] == s[j]);
            }
        }
    }
}

/// Overwriting the entry at `i` with the same id updates the denoted map at
/// that id.
pub proof fn lemma_entries_map_update<V>(s: Seq<(u128, V)>, i: int, v: V)
    requires
        unique_ids(s),
        0 <= i < s.len(),
    ensures
        entries_map(s.update(i, (s[i].0, v))) == entries_map(s).insert(s[i].0, v),
        unique_ids(s.update(i, (s[i].0, v))),
    decreases s.len(),
{
    let k = s[i].0;
    let u = s.update(i, (k, v));
    assert forall|x: int, y: int| 0 <= x < y < u.len() implies (#[trigger] u[x]).0
        != (#[trigger] u[y]).0 by {
        assert(u[x].0 == s[x].0 && u[y].0 == s[y].0);
        assert(s[x].0 != s[y].0);
    }
    let dl = s.drop_last();
    assert(unique_ids(dl)) by {
        assert(forall|x: int, y: int|
            0 <= x < y < dl.len() ==> (#[trigger] dl[x]) == s[x] && (#[trigger] dl[y]) == s[y]);
    }
    if i == s.len() - 1 {
        assert(u.drop_last() =~= dl);
        assert(u.last() == (k, v));
        assert(entries_map(s).insert(k, v) =~= entries_map(dl).insert(k, v));
    } else {
        assert(u.drop_last() =~= dl.update(i, (k, v)));
        assert(dl[i] == s[i]);
        lemma_entries_map_update(dl, i, v);
        assert(u.last() == s.last());
        assert(s[i].0 != s.last().0) by {
            assert(s[s.len() - 1] == s.last());
        }
        assert(entries_map(dl).insert(k, v).insert(s.last().0, s.last().1) =~= entries_map(
            dl,
        ).insert(s.last().0, s.last().1).insert(k, v));
    }
}

/// Taking the entry at `i` out removes its id from the denoted map.
pub proof fn lemma_entries_map_remove_at<V>(s: Seq<(u128, V)>, i: int)
    requires
        unique_ids(s),
        0 <= i < s.len(),
    ensures
        entries_map(s.remove(i)) == entries_map(s).remove(s[i].0),
        unique_ids(s.remove(i)),
    decreases s.len(),
{
    let k = s[i].0;
    let r = s.remove(i);
    assert forall|x: int, y: int| 0 <= x < y < r.len() implies (#[trigger] r[x]).0
        != (#[trigger] r[y]).0 by {
        let sx: int = if x < i {
            x
        } else {
            x + 1
        };
        let sy: int = if y < i {
            y
        } else {
            y + 1
        };
        assert(r[x] == s[sx] && r[y] == s[sy]);
    }
    let dl = s.drop_last();
    assert(unique_ids(dl)) by {
        assert(forall|x: int, y: int|
            0 <= x < y < dl.len() ==> (#[trigger] dl[x]) == s[x] && (#[trigger] dl[y]) == s[y]);
    }
    if i == s.len() - 1 {
        assert(r =~= dl);
        lemma_entries_map_dom(dl);
        assert(!has_id(dl, k)) by {
            assert forall|x: int| 0 <= x < dl.len() implies (#[trigger] dl[x]).0 != k by {
                assert(dl[x] == s[x]);
                assert(s[s.len() - 1] == s.last());
            }
        }
        assert(entries_map(s).remove(k) =~= entries_map(dl));
    } else {
        assert(r.drop_last() =~= dl.remove(i));
        assert(dl[i] == s[i]);
        lemma_entries_map_remove_at(dl, i);
        assert(r.last() == s.last());
        assert(k != s.last().0) by {
            assert(s[s.len() - 1] == s.last());
        }
        assert(entries_map(dl).remove(k).insert(s.last().0, s.last().1) =~= entries_map(dl).insert(
            s.last().0,
            s.last().1,
        ).remove(k));
    }
}

/// Finds the position of the entry carrying `id`, if one does.
pub fn find_index<V>(entries: &Vec<(u128, V)>, id: u128) -> (r: Option<usize>)
    ensures
        r matches Some(i) ==> i < entries@.len() && entries@[i as int].0 == id,
        r is None ==> !has_id(entries@, id),
{
    let n = entries.len();
    let mut i: usize = 0;
    while i < n
        invariant
            0 <= i <= n,
            n == entries@.len(),
            forall|j: int| 0 <= j < i ==> (#[trigger] entries@[j]).0 != id,
        decreases n - i,
    {
        if entries[i].0 == id {
            return Some(i);
        }
        i = i + 1;
    }
    None
}

/// Looks the value for `id` up in the denoted map.
pub fn map_get<'a, V>(entries: &'a Vec<(u128, V)>, id: u128) -> (r: Option<&'a V>)
    requires
        unique_ids(entries@),
    ensures
        r matches Some(v) ==> entries_map(entries@).dom().contains(id) && *v == entries_map(
            entries@,
        )[id],
        r is None ==> !entries_map(entries@).dom().contains(id),
{
    proof {
        lemma_entries_map_dom(entries@);
    }
    match find_index(entries, id) {
        Some(i) => {
            proof {
                lemma_entries_map_index(entries@, i as int);
            }
            Some(&entries[i].1)
        },
        None => None,
    }
}

/// Binds `id` to `v` in the denoted map, overwriting an entry that already
/// carries it.
pub fn map_insert<V>(entries: &mut Vec<(u128, V)>, id: u128, v: V)
    requires
        unique_ids(old(entries)@),
    ensures
        unique_ids(final(entries)@),
        entries_map(final(entries)@) == entries_map(old(entries)@).insert(id, v),
{
    match find_index(entries, id) {
        Some(i) => {
            proof {
                lemma_entries_map_update(entries@, i as int, v);
            }
            entries.set(i, (id, v));
        },
        None => {
            proof {
                lemma_entries_map_push(entries@, id, v);
            }
            entries.push((id, v));
        },
    }
}

/// Takes the entry for `id` out of the denoted map, handing its value back.
pub fn map_remove<V>(entries: &mut Vec<(u128, V)>, id: u128) -> (r: Option<V>)
    requires
        unique_ids(old(entries)@),
    ensures
        unique_ids(final(entries)@),
        r matches Some(v) ==> entries_map(old(entries)@).dom().contains(id) && v == entries_map(
            old(entries)@,
        )[id] && entries_map(final(entries)@) == entries_map(old(entries)@).remove(id),
        r is None ==> !entries_map(old(entries)@).dom().contains(id) && final(entries)@ == old(
            entries,
        )@,
{
    proof {
        lemma_entries_map_dom(entries@);
    }
    match find_index(entries, id) {
        Some(i) => {
            proof {
                lemma_entries_map_index(entries@, i as int);
                lemma_entries_map_remove_at(entries@, i as int);
            }
            let (_, v) = entries.remove(i);
            Some(v)
        },
        None => None,
    }
}

} // verus!
