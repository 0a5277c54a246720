//! Sorting of territory-identifier lists, used when the generator normalizes
//! each record's used-by list into ascending territory order.

use vstd::prelude::*;
use vstd::relations::{antisymmetric, reflexive, sorted_by, strongly_connected, total_ordering,
    transitive};
use vstd::seq_lib::{lemma_multiset_commutative, lemma_sorted_unique};

verus! {

/// The territory ordering: ascending numeric identifier, which is also the
/// external territory enumeration's own order.
pub open spec fn ids_leq() -> spec_fn(u16, u16) -> bool {
    |a: u16, b: u16| a <= b
}

pub proof fn lemma_ids_leq_total()
    ensures
        total_ordering(ids_leq()),
{
    assert(reflexive(ids_leq())) by {
        assert(forall|x: u16| #[trigger] ids_leq()(x, x));
    }
    assert(antisymmetric(ids_leq()));
    assert(transitive(ids_leq()));
    assert(strongly_connected(ids_leq()));
}

/// A list in ascending territory order.
pub open spec fn sorted_ids(l: Seq<u16>) -> bool {
    sorted_by(l, ids_leq())
}

/// The canonical sorted permutation of a territory list.
pub open spec fn sort_ids_spec(l: Seq<u16>) -> Seq<u16> {
    l.sort_by(ids_leq())
}

pub proof fn lemma_sort_ids_spec(l: Seq<u16>)
    ensures
        sorted_ids(sort_ids_spec(l)),
        sort_ids_spec(l).to_multiset() == l.to_multiset(),
        sort_ids_spec(l).len() == l.len(),
{
    broadcast use vstd::seq_lib::group_to_multiset_ensures;

    lemma_ids_leq_total();
    l.lemma_sort_by_ensures(ids_leq());
    assert(l.to_multiset().len() == l.len());
    assert(sort_ids_spec(l).to_multiset().len() == sort_ids_spec(l).len());
}

/// Inserting anywhere adds the element to the sequence's multiset.
proof fn lemma_insert_to_multiset(s: Seq<u16>, i: int, x: u16)
    requires
        0 <= i <= s.len(),
    ensures
        s.insert(i, x).to_multiset() == s.to_multiset().insert(x),
{
    broadcast use vstd::seq_lib::group_to_multiset_ensures;
    broadcast use vstd::multiset::group_multiset_axioms;

    let a = s.subrange(0, i);
    let b = s.subrange(i, s.len() as int);
    assert(s =~= a + b);
    lemma_multiset_commutative(a, b);
    assert(s.insert(i, x) == a.push(x) + b);
    lemma_multiset_commutative(a.push(x), b);
    assert(a.push(x).to_multiset() =~= a.to_multiset().insert(x));
    assert(a.to_multiset().insert(x).add(b.to_multiset()) =~= a.to_multiset().add(
        b.to_multiset(),
    ).insert(x));
}

/// Insertion sort: returns the canonical sorted permutation of `v`.
pub fn sort_ids(v: &Vec<u16>) -> (r: Vec<u16>)
    ensures
        r@ == sort_ids_spec(v@),
        sorted_ids(r@),
        r@.to_multiset() == v@.to_multiset(),
        r@.len() == v@.len(),
{
    broadcast use vstd::seq_lib::group_to_multiset_ensures;

    let mut r: Vec<u16> = Vec::new();
    let mut i: usize = 0;
    proof {
        assert(r@.to_multiset() =~= v@.take(0).to_multiset()) by {
            assert(r@ =~= v@.take(0));
        }
    }
    while i < v.len()
        invariant
            0 <= i <= v@.len(),
            sorted_ids(r@),
            r@.to_multiset() == v@.take(i as int).to_multiset(),
        decreases v@.len() - i,
    {
        let x = v[i];
        let mut pos: usize = 0;
        while pos < r.len() && r[pos] < x
            invariant
                0 <= pos <= r@.len(),
                forall|j: int| 0 <= j < pos ==> r@[j] < x,
            decreases r@.len() - pos,
        {
            pos = pos + 1;
        }
        let ghost old_r = r@;
        r.insert(pos, x);
        proof {
            broadcast use vstd::seq_lib::group_to_multiset_ensures;

            old_r.insert_ensures(pos as int, x);
            assert(sorted_ids(r@)) by {
                assert forall|a: int, b: int|
                    0 <= a < b < r@.len() implies #[trigger] ids_leq()(r@[a], r@[b]) by {
                    if b < pos {
                        assert(r@[a] == old_r[a] && r@[b] == old_r[b]);
                        assert(ids_leq()(old_r[a], old_r[b]));
                    } else if a < pos && b == pos {
                        assert(r@[a] == old_r[a] && r@[b] == x);
                    } else if a < pos && b > pos {
                        assert(r@[a] == old_r[a] && r@[b] == old_r[b - 1]);
                        if b - 1 == a {
                        } else {
                            assert(ids_leq()(old_r[a], old_r[b - 1]));
                        }
                    } else if a == pos && b > pos {
                        assert(r@[a] == x && r@[b] == old_r[b - 1]);
                        assert(pos < old_r.len());
                        assert(x <= old_r[pos as int]);
                        if b - 1 == pos {
                        } else {
                            assert(ids_leq()(old_r[pos as int], old_r[b - 1]));
                        }
                    } else {
                        assert(r@[a] == old_r[a - 1] && r@[b] == old_r[b - 1]);
                        assert(ids_leq()(old_r[a - 1], old_r[b - 1]));
                    }
                }
            }
            lemma_insert_to_multiset(old_r, pos as int, x);
            assert(v@.take(i as int + 1) =~= v@.take(i as int).push(x));
            assert(v@.take(i as int).push(x).to_multiset() =~= v@.take(
                i as int,
            ).to_multiset().insert(x));
        }
        i = i + 1;
    }
    proof {
        assert(v@.take(v@.len() as int) =~= v@);
        lemma_ids_leq_total();
        v@.lemma_sort_by_ensures(ids_leq());
        lemma_sorted_unique(r@, sort_ids_spec(v@), ids_leq());
        assert(r@.to_multiset().len() == r@.len());
        assert(v@.to_multiset().len() == v@.len());
    }
    r
}

} // verus!
