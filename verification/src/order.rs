use std::collections::BTreeMap;
use vstd::prelude::*;
use vstd::std_specs::btree::*;
use vstd::std_specs::cmp::OrdSpec;
use vstd::std_specs::iter::IteratorSpec;

verus! {

/// Every element is strictly smaller than those after it.
pub open spec fn ascending(s: Seq<u128>) -> bool {
    forall|i: int, j: int| 0 <= i < j < s.len() ==> s[i] < s[j]
}

/// `s` lists the members of `ids`, each once, smallest first.
pub open spec fn lists_in_order(s: Seq<u128>, ids: Set<u128>) -> bool {
    ascending(s) && s.to_set() == ids
}

/// The members of a finite set of identifiers, smallest first.
pub open spec fn ids_in_order(ids: Set<u128>) -> Seq<u128> {
    choose|s: Seq<u128>| lists_in_order(s, ids)
}

/// A set has only one listing in ascending order.
pub proof fn lemma_ascending_unique(a: Seq<u128>, b: Seq<u128>)
    requires
        ascending(a),
        ascending(b),
        a.to_set() == b.to_set(),
    ensures
        a == b,
    decreases a.len(),
{
    if a.len() == 0 {
        if b.len() > 0 {
            assert(b.contains(b[0]));
            assert(a.to_set().contains(b[0]));
            assert(a.contains(b[0]));
        }
        assert(a =~= b);
    } else {
        let al = a.last();
        assert(a.contains(al));
        assert(b.to_set().contains(al));
        assert(b.contains(al));
        let bl = b.last();
        assert(b.contains(bl));
        assert(a.to_set().contains(bl));
        assert(a.contains(bl));
        let i = choose|i: int| 0 <= i < a.len() && a[i] == bl;
        let j = choose|j: int| 0 <= j < b.len() && b[j] == al;
        assert(al == bl);
        let a1 = a.drop_last();
        let b1 = b.drop_last();
        assert forall|x: u128| a1.to_set().contains(x) <==> b1.to_set().contains(x) by {
            if a1.contains(x) {
                let k = choose|k: int| 0 <= k < a1.len() && a1[k] == x;
                assert(a[k] == x);
                assert(a.contains(x));
                assert(b.to_set().contains(x));
                assert(b.contains(x));
                let m = choose|m: int| 0 <= m < b.len() && b[m] == x;
                assert(m < b.len() - 1);
                assert(b1[m] == x);
                assert(b1.contains(x));
            }
            if b1.contains(x) {
                let k = choose|k: int| 0 <= k < b1.len() && b1[k] == x;
                assert(b[k] == x);
                assert(b.contains(x));
                assert(a.to_set().contains(x));
                assert(a.contains(x));
                let m = choose|m: int| 0 <= m < a.len() && a[m] == x;
                assert(m < a.len() - 1);
                assert(a1[m] == x);
                assert(a1.contains(x));
            }
        }
        assert(a1.to_set() =~= b1.to_set());
        lemma_ascending_unique(a1, b1);
        assert(a =~= a1.push(al));
        assert(b =~= b1.push(bl));
    }
}

/// An ascending listing of a set is the listing of that set.
pub proof fn lemma_listing_is_unique(s: Seq<u128>, ids: Set<u128>)
    requires
        lists_in_order(s, ids),
    ensures
        s == ids_in_order(ids),
{
    lemma_ascending_unique(s, ids_in_order(ids));
}

/// What the key iterator of a map promises of its order, in terms of `<`.
proof fn lemma_increasing_is_ascending(s: Seq<&u128>)
    requires
        increasing_seq(s),
    ensures
        ascending(s.unref()),
{
    broadcast use vstd::std_specs::btree::group_btree_axioms;
    broadcast use vstd::laws_cmp::group_laws_cmp;
    broadcast use vstd::laws_cmp::lemma_ref_obeys_cmp_spec;

    assert(vstd::laws_cmp::obeys_cmp::<u128>());
    assert(vstd::laws_cmp::obeys_cmp::<&u128>());
    axiom_increasing_seq_meaning::<&u128>(s);
    let t = s.unref();
    assert forall|i: int, j: int| 0 <= i < j < t.len() implies t[i] < t[j] by {
        assert(OrdSpec::cmp_spec(&s[i], &s[j]) is Less);
        assert(t[i] == *s[i]);
        assert(t[j] == *s[j]);
    }
}

/// The keys of a map, smallest first.
pub fn sorted_ids<V>(m: &BTreeMap<u128, V>) -> (ids: Vec<u128>)
    ensures
        ids@ == ids_in_order(m@.dom()),
        lists_in_order(ids@, m@.dom()),
        ids@.len() == m@.dom().len(),
{
    let mut ids: Vec<u128> = Vec::new();
    let ghost all: Seq<u128> = spec_keys_iter(m).remaining().unref();
    proof {
        axiom_spec_keys_iter(m);
        lemma_increasing_is_ascending(spec_keys_iter(m).remaining());
    }
    for k in it: m.keys()
        invariant
            it.seq().unref() == all,
            ids@ == all.take(it.index()),
    {
        ids.push(*k);
        assert(all.take(it.index() + 1) =~= all.take(it.index()).push(*k));
    }
    proof {
        assert(ids@ =~= all);
        lemma_listing_is_unique(ids@, m@.dom());
    }
    ids
}

/// The order of positions on the map: by the first coordinate, then by the
/// second.
pub open spec fn precedes(a: (i16, i16), b: (i16, i16)) -> bool {
    a.0 < b.0 || (a.0 == b.0 && a.1 < b.1)
}

/// Every position comes before those after it.
pub open spec fn ascending_positions(s: Seq<(i16, i16)>) -> bool {
    forall|i: int, j: int| 0 <= i < j < s.len() ==> precedes(s[i], s[j])
}

/// `s` lists the members of `positions`, each once, in the order of the map.
pub open spec fn lists_positions(s: Seq<(i16, i16)>, positions: Set<(i16, i16)>) -> bool {
    ascending_positions(s) && s.to_set() == positions
}

/// The members of a finite set of positions in the order of the map.
pub open spec fn positions_in_order(positions: Set<(i16, i16)>) -> Seq<(i16, i16)> {
    choose|s: Seq<(i16, i16)>| lists_positions(s, positions)
}

/// A set of positions has only one listing in the order of the map.
pub proof fn lemma_ascending_positions_unique(a: Seq<(i16, i16)>, b: Seq<(i16, i16)>)
    requires
        ascending_positions(a),
        ascending_positions(b),
        a.to_set() == b.to_set(),
    ensures
        a == b,
    decreases a.len(),
{
    if a.len() == 0 {
        if b.len() > 0 {
            assert(b.contains(b[0]));
            assert(a.to_set().contains(b[0]));
            assert(a.contains(b[0]));
        }
        assert(a =~= b);
    } else {
        let al = a.last();
        assert(a.contains(al));
        assert(b.to_set().contains(al));
        assert(b.contains(al));
        let bl = b.last();
        assert(b.contains(bl));
        assert(a.to_set().contains(bl));
        assert(a.contains(bl));
        let i = choose|i: int| 0 <= i < a.len() && a[i] == bl;
        let j = choose|j: int| 0 <= j < b.len() && b[j] == al;
        if i < a.len() - 1 {
            assert(precedes(a[i], al));
        }
        if j < b.len() - 1 {
            assert(precedes(b[j], bl));
        }
        assert(al == bl);
        let a1 = a.drop_last();
        let b1 = b.drop_last();
        assert forall|x: (i16, i16)| a1.to_set().contains(x) <==> b1.to_set().contains(x) by {
            if a1.contains(x) {
                let k = choose|k: int| 0 <= k < a1.len() && a1[k] == x;
                assert(a[k] == x);
                assert(precedes(a[k], al));
                assert(a.contains(x));
                assert(b.to_set().contains(x));
                assert(b.contains(x));
                let m = choose|m: int| 0 <= m < b.len() && b[m] == x;
                assert(m < b.len() - 1);
                assert(b1[m] == x);
                assert(b1.contains(x));
            }
            if b1.contains(x) {
                let k = choose|k: int| 0 <= k < b1.len() && b1[k] == x;
                assert(b[k] == x);
                assert(precedes(b[k], bl));
                assert(b.contains(x));
                assert(a.to_set().contains(x));
                assert(a.contains(x));
                let m = choose|m: int| 0 <= m < a.len() && a[m] == x;
                assert(m < a.len() - 1);
                assert(a1[m] == x);
                assert(a1.contains(x));
            }
        }
        assert(a1.to_set() =~= b1.to_set());
        lemma_ascending_positions_unique(a1, b1);
        assert(a =~= a1.push(al));
        assert(b =~= b1.push(bl));
    }
}

/// What the key iterator of a map of positions promises of its order, in
/// terms of the order of the map.
proof fn lemma_increasing_positions(s: Seq<&(i16, i16)>)
    requires
        increasing_seq(s),
    ensures
        ascending_positions(s.unref()),
{
    broadcast use vstd::std_specs::btree::group_btree_axioms;
    broadcast use vstd::laws_cmp::group_laws_cmp;
    broadcast use vstd::laws_cmp::lemma_ref_obeys_cmp_spec;

    assert(vstd::laws_cmp::obeys_cmp::<i16>());
    assert(vstd::laws_cmp::obeys_cmp::<(i16, i16)>());
    assert(vstd::laws_cmp::obeys_cmp::<&(i16, i16)>());
    axiom_increasing_seq_meaning::<&(i16, i16)>(s);
    let t = s.unref();
    assert forall|i: int, j: int| 0 <= i < j < t.len() implies precedes(t[i], t[j]) by {
        assert(OrdSpec::cmp_spec(&s[i], &s[j]) is Less);
        assert(t[i] == *s[i]);
        assert(t[j] == *s[j]);
    }
}

/// The keys of a map of positions in the order of the map.
pub fn sorted_positions<V>(m: &BTreeMap<(i16, i16), V>) -> (positions: Vec<(i16, i16)>)
    ensures
        positions@ == positions_in_order(m@.dom()),
        lists_positions(positions@, m@.dom()),
        positions@.len() == m@.dom().len(),
{
    let mut positions: Vec<(i16, i16)> = Vec::new();
    let ghost all: Seq<(i16, i16)> = spec_keys_iter(m).remaining().unref();
    proof {
        axiom_spec_keys_iter(m);
        lemma_increasing_positions(spec_keys_iter(m).remaining());
    }
    for k in it: m.keys()
        invariant
            it.seq().unref() == all,
            positions@ == all.take(it.index()),
    {
        positions.push(*k);
        assert(all.take(it.index() + 1) =~= all.take(it.index()).push(*k));
    }
    proof {
        assert(positions@ =~= all);
        assert(lists_positions(positions@, m@.dom()));
        lemma_ascending_positions_unique(positions@, positions_in_order(m@.dom()));
    }
    positions
}

/// The listing of a finite set of positions holds exactly its members.
pub proof fn lemma_positions_listed(positions: Set<(i16, i16)>)
    requires
        positions.finite(),
    ensures
        lists_positions(positions_in_order(positions), positions),
    decreases positions.len(),
{
    lemma_positions_can_be_listed(positions);
}

/// Every finite set of positions has a listing in the order of the map.
proof fn lemma_positions_can_be_listed(positions: Set<(i16, i16)>)
    requires
        positions.finite(),
    ensures
        exists|s: Seq<(i16, i16)>| lists_positions(s, positions),
    decreases positions.len(),
{
    if positions.len() == 0 {
        let s = Seq::<(i16, i16)>::empty();
        assert(positions =~= Set::<(i16, i16)>::empty());
        assert(s.to_set() =~= positions);
        assert(lists_positions(s, positions));
    } else {
        let top = greatest_position(positions);
        let rest = positions.remove(top);
        lemma_positions_can_be_listed(rest);
        let s0 = choose|s: Seq<(i16, i16)>| lists_positions(s, rest);
        let s = s0.push(top);
        assert forall|i: int, j: int| 0 <= i < j < s.len() implies precedes(s[i], s[j]) by {
            if j == s.len() - 1 {
                assert(s0.contains(s0[i]));
                assert(s0.to_set().contains(s0[i]));
                assert(rest.contains(s[i]));
            }
        }
        assert forall|x: (i16, i16)| s.to_set().contains(x) <==> positions.contains(x) by {
            if s.contains(x) {
                let k = choose|k: int| 0 <= k < s.len() && s[k] == x;
                if k < s0.len() {
                    assert(s0.contains(x));
                    assert(s0.to_set().contains(x));
                }
            }
            if positions.contains(x) {
                if x == top {
                    assert(s[s.len() - 1] == x);
                } else {
                    assert(rest.contains(x));
                    assert(s0.to_set().contains(x));
                    assert(s0.contains(x));
                    let k = choose|k: int| 0 <= k < s0.len() && s0[k] == x;
                    assert(s[k] == x);
                }
            }
        }
        assert(s.to_set() =~= positions);
        assert(lists_positions(s, positions));
    }
}

/// A member of a set of positions that no other member comes after.
spec fn is_greatest(positions: Set<(i16, i16)>, top: (i16, i16)) -> bool {
    positions.contains(top) && forall|p: (i16, i16)|
        positions.contains(p) && p != top ==> precedes(p, top)
}

/// The last member of a finite set of positions that is not empty.
proof fn greatest_position(positions: Set<(i16, i16)>) -> (top: (i16, i16))
    requires
        positions.finite(),
        positions.len() > 0,
    ensures
        is_greatest(positions, top),
    decreases positions.len(),
{
    let some = positions.choose();
    let rest = positions.remove(some);
    if rest.len() == 0 {
        assert forall|p: (i16, i16)| positions.contains(p) && p != some implies precedes(
            p,
            some,
        ) by {
            assert(rest.contains(p));
        }
        some
    } else {
        let other = greatest_position(rest);
        let top = if precedes(other, some) {
            some
        } else {
            other
        };
        assert forall|p: (i16, i16)| positions.contains(p) && p != top implies precedes(p, top) by {
            if p != some {
                assert(rest.contains(p));
            }
        }
        top
    }
}

} // verus!
