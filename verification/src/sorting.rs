//! Ordering and filtering support for the query engine.
//!
//! The queries select records with `Seq::filter` and present some of them
//! sorted.  The lemmas here relate a filter built up element by element to
//! the filter of the whole store, and define the expiration-ordered
//! ("first to expire first") arrangement of blood units together with its
//! laws: same contents, ascending expiration, insertion order kept on
//! ties.

use vstd::prelude::*;

use crate::types::BloodUnit;

verus! {

/// A result list capped to `max_results` entries; a cap of zero means
/// "no cap".
pub open spec fn capped_take<A>(s: Seq<A>, max_results: u32) -> Seq<A> {
    if max_results == 0 || max_results >= s.len() {
        s
    } else {
        s.take(max_results as int)
    }
}

/// Extending the scanned prefix by one element extends its filter by that
/// element exactly when the predicate holds.
pub proof fn lemma_filter_take_step<A>(s: Seq<A>, p: spec_fn(A) -> bool, i: int)
    requires
        0 <= i < s.len(),
    ensures
        s.take(i + 1).filter(p) == if p(s[i]) {
            s.take(i).filter(p).push(s[i])
        } else {
            s.take(i).filter(p)
        },
{
    reveal(Seq::filter);
    assert(s.take(i + 1).drop_last() =~= s.take(i));
    assert(s.take(i + 1).last() == s[i]);
}

/// The filter of a prefix is a prefix of the whole filter.
pub proof fn lemma_filter_take_is_prefix<A>(s: Seq<A>, p: spec_fn(A) -> bool, i: int)
    requires
        0 <= i <= s.len(),
    ensures
        s.take(i).filter(p).len() <= s.filter(p).len(),
        s.take(i).filter(p) == s.filter(p).take(s.take(i).filter(p).len() as int),
{
    assert(s =~= s.take(i) + s.skip(i));
    Seq::filter_distributes_over_add(s.take(i), s.skip(i), p);
    assert(s.filter(p) == s.take(i).filter(p) + s.skip(i).filter(p));
    assert(s.take(i).filter(p) =~= (s.take(i).filter(p) + s.skip(i).filter(p)).take(
        s.take(i).filter(p).len() as int,
    ));
}

/// A sequence is its own filter once the whole of it has been scanned.
pub proof fn lemma_take_all<A>(s: Seq<A>)
    ensures
        s.take(s.len() as int) == s,
{
    assert(s.take(s.len() as int) =~= s);
}

/// Every element of a filter occurs in the sequence it was drawn from.
pub proof fn lemma_filter_elements_contained<A>(s: Seq<A>, p: spec_fn(A) -> bool)
    ensures
        forall|k: int| 0 <= k < s.filter(p).len() ==> s.contains(#[trigger] s.filter(p)[k]),
    decreases s.len(),
{
    reveal(Seq::filter);
    if s.len() > 0 {
        let dl = s.drop_last();
        lemma_filter_elements_contained(dl, p);
        let fd = dl.filter(p);
        assert forall|k: int| 0 <= k < s.filter(p).len() implies s.contains(
            #[trigger] s.filter(p)[k],
        ) by {
            if k < fd.len() {
                assert(dl.contains(fd[k]));
                let m = choose|m: int| 0 <= m < dl.len() && dl[m] == fd[k];
                assert(s[m] == fd[k]);
            } else {
                assert(s.filter(p)[k] == s.last());
                assert(s[s.len() - 1] == s.last());
            }
        }
    }
}

/// Filtering keeps any order the whole sequence already has: a pair of
/// kept elements stands in the same relation it stood in before.
pub proof fn lemma_filter_keeps_order<A>(
    s: Seq<A>,
    p: spec_fn(A) -> bool,
    lt: spec_fn(A, A) -> bool,
)
    requires
        forall|i: int, j: int| 0 <= i < j < s.len() ==> lt(s[i], s[j]),
    ensures
        forall|i: int, j: int|
            0 <= i < j < s.filter(p).len() ==> lt(s.filter(p)[i], s.filter(p)[j]),
    decreases s.len(),
{
    reveal(Seq::filter);
    if s.len() > 0 {
        let dl = s.drop_last();
        lemma_filter_keeps_order(dl, p, lt);
        lemma_filter_elements_contained(dl, p);
        let fd = dl.filter(p);
        let f = s.filter(p);
        assert forall|i: int, j: int| 0 <= i < j < f.len() implies lt(f[i], f[j]) by {
            if j < fd.len() {
            } else {
                assert(p(s.last()) && f == fd.push(s.last()) && f[j] == s.last());
                if i < fd.len() {
                    assert(dl.contains(fd[i]));
                    let m = choose|m: int| 0 <= m < dl.len() && dl[m] == fd[i];
                    assert(lt(s[m], s[s.len() - 1]));
                }
            }
        }
    }
}

/// Filtering keeps ids in increasing position order, as the primary
/// store lays them out.
pub proof fn lemma_filter_increasing_ids(s: Seq<BloodUnit>, p: spec_fn(BloodUnit) -> bool)
    requires
        forall|i: int, j: int| 0 <= i < j < s.len() ==> s[i].id < s[j].id,
    ensures
        forall|i: int, j: int|
            0 <= i < j < s.filter(p).len() ==> s.filter(p)[i].id < s.filter(p)[j].id,
{
    lemma_filter_keeps_order(s, p, |a: BloodUnit, b: BloodUnit| a.id < b.id);
}

/// Where a unit belongs in expiration order: strictly later expirations
/// move behind it, equal ones stay in front (insertion order on ties).
pub open spec fn fifo_insert(s: Seq<BloodUnit>, u: BloodUnit) -> Seq<BloodUnit>
    decreases s.len(),
{
    if s.len() == 0 {
        seq![u]
    } else if s.last().expiration_date <= u.expiration_date {
        s.push(u)
    } else {
        fifo_insert(s.drop_last(), u).push(s.last())
    }
}

/// The expiration-ordered arrangement of a sequence of units: each unit
/// in turn is placed behind every earlier unit that expires no later.
pub open spec fn fifo_sorted(s: Seq<BloodUnit>) -> Seq<BloodUnit>
    decreases s.len(),
{
    if s.len() == 0 {
        Seq::empty()
    } else {
        fifo_insert(fifo_sorted(s.drop_last()), s.last())
    }
}

/// Units `a` before `b` in expiration order: `a` expires strictly
/// earlier, or at the same time but was registered first.
pub open spec fn fifo_before(a: BloodUnit, b: BloodUnit) -> bool {
    a.expiration_date < b.expiration_date || (a.expiration_date == b.expiration_date && a.id
        < b.id)
}

/// Inserting into a sequence ordered by `fifo_before`, where every
/// present unit has a smaller id, keeps the ordering and adds exactly the
/// new unit.
proof fn lemma_fifo_insert_props(s: Seq<BloodUnit>, u: BloodUnit)
    requires
        forall|i: int, j: int| 0 <= i < j < s.len() ==> fifo_before(s[i], s[j]),
        forall|i: int| 0 <= i < s.len() ==> (#[trigger] s[i]).id < u.id,
    ensures
        fifo_insert(s, u).len() == s.len() + 1,
        fifo_insert(s, u).to_multiset() == s.to_multiset().insert(u),
        forall|i: int, j: int|
            0 <= i < j < fifo_insert(s, u).len() ==> fifo_before(
                fifo_insert(s, u)[i],
                fifo_insert(s, u)[j],
            ),
        forall|i: int|
            0 <= i < fifo_insert(s, u).len() ==> s.contains(#[trigger] fifo_insert(s, u)[i])
                || fifo_insert(s, u)[i] == u,
    decreases s.len(),
{
    broadcast use vstd::seq_lib::group_to_multiset_ensures;

    let out = fifo_insert(s, u);
    if s.len() == 0 {
        assert(out =~= seq![u]);
        assert(seq![u].to_multiset() =~= s.to_multiset().insert(u)) by {
            assert(seq![u] =~= s.push(u));
        }
    } else if s.last().expiration_date <= u.expiration_date {
        assert(out == s.push(u));
        assert(fifo_before(s.last(), u));
        assert forall|i: int, j: int| 0 <= i < j < out.len() implies fifo_before(
            out[i],
            out[j],
        ) by {
            if j < s.len() as int {
            } else {
                assert(out[j] == u);
                if i < s.len() - 1 {
                    assert(fifo_before(s[i], s.last()));
                }
            }
        }
        assert forall|i: int| 0 <= i < out.len() implies s.contains(#[trigger] out[i]) || out[i]
            == u by {
            if i < s.len() as int {
                assert(out[i] == s[i]);
            }
        }
    } else {
        let t = s.drop_last();
        lemma_fifo_insert_props(t, u);
        let inner = fifo_insert(t, u);
        assert(out == inner.push(s.last()));
        assert(s =~= t.push(s.last()));
        assert(s.to_multiset() == t.to_multiset().insert(s.last()));
        assert(out.to_multiset() == inner.to_multiset().insert(s.last()));
        assert(out.to_multiset() =~= s.to_multiset().insert(u)) by {
            assert(inner.to_multiset() == t.to_multiset().insert(u));
        }
        assert forall|i: int, j: int| 0 <= i < j < out.len() implies fifo_before(
            out[i],
            out[j],
        ) by {
            if j < inner.len() as int {
            } else {
                assert(out[j] == s.last());
                assert(t.contains(inner[i]) || inner[i] == u);
                if inner[i] == u {
                    assert(u.expiration_date < s.last().expiration_date);
                } else {
                    let k = choose|k: int| 0 <= k < t.len() && t[k] == inner[i];
                    assert(fifo_before(s[k], s[s.len() - 1]));
                }
            }
        }
        assert forall|i: int| 0 <= i < out.len() implies s.contains(#[trigger] out[i]) || out[i]
            == u by {
            if i < inner.len() as int {
                assert(t.contains(inner[i]) || inner[i] == u);
                if t.contains(inner[i]) {
                    let k = choose|k: int| 0 <= k < t.len() && t[k] == inner[i];
                    assert(s[k] == out[i]);
                }
            } else {
                assert(out[i] == s.last());
                assert(s[s.len() - 1] == s.last());
            }
        }
    }
}

/// Inserting at the position found by scanning back over strictly later
/// expirations is exactly `fifo_insert`.
pub proof fn lemma_fifo_insert_at(s: Seq<BloodUnit>, u: BloodUnit, pos: int)
    requires
        0 <= pos <= s.len(),
        forall|j: int| pos <= j < s.len() ==> s[j].expiration_date > u.expiration_date,
        pos > 0 ==> s[pos - 1].expiration_date <= u.expiration_date,
    ensures
        fifo_insert(s, u) == s.insert(pos, u),
    decreases s.len(),
{
    if s.len() == 0 {
        assert(fifo_insert(s, u) =~= s.insert(0, u));
    } else if pos == s.len() {
        assert(s.last().expiration_date <= u.expiration_date);
        assert(fifo_insert(s, u) == s.push(u));
        assert(s.push(u) =~= s.insert(pos, u));
    } else {
        assert(s[s.len() - 1].expiration_date > u.expiration_date);
        assert(s.last().expiration_date > u.expiration_date);
        lemma_fifo_insert_at(s.drop_last(), u, pos);
        assert(fifo_insert(s, u) == s.drop_last().insert(pos, u).push(s.last()));
        assert(s.insert(pos, u) =~= s.drop_last().insert(pos, u).push(s.last()));
    }
}

/// Law of the expiration ordering: for units whose ids increase with
/// position (as a filtered store always presents them), the arrangement
/// has the same length and contents, and is sorted by `fifo_before`:
/// ascending expiration, with ties kept in registration order.
pub proof fn lemma_fifo_sorted_ensures(s: Seq<BloodUnit>)
    requires
        forall|i: int, j: int| 0 <= i < j < s.len() ==> s[i].id < s[j].id,
    ensures
        fifo_sorted(s).len() == s.len(),
        fifo_sorted(s).to_multiset() == s.to_multiset(),
        forall|i: int, j: int|
            0 <= i < j < fifo_sorted(s).len() ==> fifo_before(fifo_sorted(s)[i], fifo_sorted(s)[j]),
    decreases s.len(),
{
    broadcast use vstd::seq_lib::group_to_multiset_ensures;

    if s.len() == 0 {
        assert(fifo_sorted(s) =~= Seq::<BloodUnit>::empty());
        assert(s.to_multiset() =~= fifo_sorted(s).to_multiset());
    } else {
        let t = s.drop_last();
        let u = s.last();
        lemma_fifo_sorted_ensures(t);
        let inner = fifo_sorted(t);
        assert forall|i: int| 0 <= i < inner.len() implies (#[trigger] inner[i]).id < u.id by {
            assert(inner.to_multiset().contains(inner[i]));
            assert(t.to_multiset().contains(inner[i]));
            assert(t.contains(inner[i]));
            let k = choose|k: int| 0 <= k < t.len() && t[k] == inner[i];
            assert(s[k].id < s[s.len() - 1].id);
        }
        lemma_fifo_insert_props(inner, u);
        assert(s =~= t.push(u));
        assert(s.to_multiset() == t.to_multiset().insert(u));
    }
}

} // verus!
