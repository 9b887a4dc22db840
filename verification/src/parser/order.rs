//! Diagnostics in source order.

use vstd::prelude::*;
use vstd::seq_lib::group_to_multiset_ensures;

use crate::diagnostics::{diag_views, DiagView, Diagnostic};
use crate::span::Span;

verus! {

/// The first place comes no later than the second: by start, then by end; what
/// has no place comes first.
pub open spec fn no_later(a: Option<Span>, b: Option<Span>) -> bool {
    match (a, b) {
        (None, _) => true,
        (Some(_), None) => false,
        (Some(x), Some(y)) => x.start < y.start || (x.start == y.start && x.end <= y.end),
    }
}

/// `d` after every diagnostic at the end of the list that comes no later.
pub open spec fn placed(ds: Seq<DiagView>, d: DiagView) -> Seq<DiagView>
    decreases ds.len(),
{
    if ds.len() == 0 || no_later(ds.last().span, d.span) {
        ds.push(d)
    } else {
        placed(ds.drop_last(), d).push(ds.last())
    }
}

/// The diagnostics in the order of their places; at one place they stay in
/// order.
pub open spec fn sorted(ds: Seq<DiagView>) -> Seq<DiagView>
    decreases ds.len(),
{
    if ds.len() == 0 {
        ds
    } else {
        placed(sorted(ds.drop_last()), ds.last())
    }
}

pub open spec fn in_place_order(ds: Seq<DiagView>) -> bool {
    forall|i: int, j: int|
        #![trigger ds[i], ds[j]]
        0 <= i < j < ds.len() ==> no_later(ds[i].span, ds[j].span)
}

/// The diagnostics at one place.
pub open spec fn at_place(ds: Seq<DiagView>, p: (u32, u32)) -> Seq<DiagView> {
    ds.filter(
        |d: DiagView|
            match d.span {
                Some(s) => (s.start, s.end) == p,
                None => false,
            },
    )
}

proof fn lemma_placed(ds: Seq<DiagView>, d: DiagView)
    requires
        in_place_order(ds),
    ensures
        in_place_order(placed(ds, d)),
        placed(ds, d).to_multiset() == ds.to_multiset().insert(d),
        placed(ds, d).len() == ds.len() + 1,
        ds.len() > 0 && !no_later(ds.last().span, d.span) ==> placed(ds, d).last() == ds.last(),
        forall|i: int|
            #![trigger placed(ds, d)[i]]
            0 <= i < placed(ds, d).len() ==> placed(ds, d)[i] == d || ds.contains(
                placed(ds, d)[i],
            ),
    decreases ds.len(),
{
    broadcast use group_to_multiset_ensures;

    if ds.len() == 0 || no_later(ds.last().span, d.span) {
        let r = ds.push(d);
        assert forall|i: int, j: int|
            #![trigger r[i], r[j]]
            0 <= i < j < r.len() implies no_later(r[i].span, r[j].span) by {
            if j == ds.len() {
                assert(no_later(ds[i].span, ds.last().span)) by {
                    if i < ds.len() - 1 {
                        assert(no_later(ds[i].span, ds[ds.len() - 1].span));
                    }
                }
            }
        }
        assert forall|i: int| #![trigger r[i]] 0 <= i < r.len() implies r[i] == d || ds.contains(
            r[i],
        ) by {
            if i < ds.len() {
                assert(ds.contains(ds[i]));
            }
        }
    } else {
        let rest = ds.drop_last();
        lemma_placed(rest, d);
        let p = placed(rest, d);
        let r = p.push(ds.last());
        assert(ds =~= rest.push(ds.last()));
        assert(r.to_multiset() =~= ds.to_multiset().insert(d));
        assert forall|i: int, j: int|
            #![trigger r[i], r[j]]
            0 <= i < j < r.len() implies no_later(r[i].span, r[j].span) by {
            if j == p.len() {
                if p[i] != d {
                    assert(rest.contains(p[i]));
                    let k = choose|k: int| 0 <= k < rest.len() && rest[k] == p[i];
                    assert(no_later(ds[k].span, ds[ds.len() - 1].span));
                }
            }
        }
        assert forall|i: int| #![trigger r[i]] 0 <= i < r.len() implies r[i] == d || ds.contains(
            r[i],
        ) by {
            if i < p.len() {
                if p[i] != d {
                    assert(rest.contains(p[i]));
                    let k = choose|k: int| 0 <= k < rest.len() && rest[k] == p[i];
                    assert(ds[k] == p[i]);
                }
            } else {
                assert(ds.contains(ds[ds.len() - 1]));
            }
        }
    }
}

proof fn lemma_sorted(ds: Seq<DiagView>)
    ensures
        in_place_order(sorted(ds)),
        sorted(ds).to_multiset() == ds.to_multiset(),
        sorted(ds).len() == ds.len(),
    decreases ds.len(),
{
    broadcast use group_to_multiset_ensures;

    if ds.len() > 0 {
        lemma_sorted(ds.drop_last());
        lemma_placed(sorted(ds.drop_last()), ds.last());
        assert(ds =~= ds.drop_last().push(ds.last()));
    }
}

/// Sorting puts the diagnostics in the order of their places, and neither
/// loses nor adds one.
pub proof fn law_sorted(ds: Seq<DiagView>)
    ensures
        in_place_order(sorted(ds)),
        sorted(ds).to_multiset() == ds.to_multiset(),
        sorted(ds).len() == ds.len(),
{
    lemma_sorted(ds);
}

proof fn lemma_filter_push(ds: Seq<DiagView>, d: DiagView, p: (u32, u32))
    ensures
        at_place(ds.push(d), p) == (match d.span {
            Some(s) => if (s.start, s.end) == p {
                at_place(ds, p).push(d)
            } else {
                at_place(ds, p)
            },
            None => at_place(ds, p),
        }),
{
    reveal(Seq::filter);
    assert(ds.push(d).drop_last() =~= ds);
}

proof fn lemma_placed_stable(ds: Seq<DiagView>, d: DiagView, p: (u32, u32))
    ensures
        at_place(placed(ds, d), p) == at_place(ds.push(d), p),
    decreases ds.len(),
{
    if !(ds.len() == 0 || no_later(ds.last().span, d.span)) {
        let rest = ds.drop_last();
        assert(ds =~= rest.push(ds.last()));
        lemma_placed_stable(rest, d, p);
        lemma_filter_push(placed(rest, d), ds.last(), p);
        lemma_filter_push(rest, d, p);
        lemma_filter_push(rest, ds.last(), p);
        lemma_filter_push(ds, d, p);
    }
}

/// Diagnostics at one place stay in the order in which they were found.
pub proof fn law_sorted_is_stable(ds: Seq<DiagView>, p: (u32, u32))
    ensures
        at_place(sorted(ds), p) == at_place(ds, p),
    decreases ds.len(),
{
    if ds.len() > 0 {
        let rest = ds.drop_last();
        law_sorted_is_stable(rest, p);
        lemma_placed_stable(sorted(rest), ds.last(), p);
        lemma_filter_push(sorted(rest), ds.last(), p);
        lemma_filter_push(rest, ds.last(), p);
        assert(ds =~= rest.push(ds.last()));
    }
}

fn comes_no_later(a: &Option<Span>, b: &Option<Span>) -> (r: bool)
    ensures
        r == no_later(*a, *b),
{
    match (a, b) {
        (None, _) => true,
        (Some(_), None) => false,
        (Some(x), Some(y)) => x.start < y.start || (x.start == y.start && x.end <= y.end),
    }
}

/// Inserts a diagnostic after every one that comes no later.
fn place(ds: &mut Vec<Diagnostic>, d: Diagnostic)
    ensures
        diag_views(final(ds)@) == placed(diag_views(old(ds)@), d@),
{
    let ghost before = diag_views(ds@);
    let mut k: usize = ds.len();
    assert(before.take(k as int) =~= before);
    assert(before.skip(k as int) =~= Seq::<DiagView>::empty());
    assert(placed(before, d@) =~= placed(before.take(k as int), d@) + before.skip(k as int));
    while k > 0 && !comes_no_later(&ds[k - 1].span, &d.span)
        invariant
            before == diag_views(ds@),
            k <= before.len(),
            placed(before, d@) == placed(before.take(k as int), d@) + before.skip(k as int),
        decreases k,
    {
        let ghost t = before.take(k as int);
        assert(t.last() == ds@[k - 1]@);
        assert(t.drop_last() =~= before.take(k - 1));
        assert(placed(t.drop_last(), d@).push(t.last()) + before.skip(k as int) =~= placed(
            t.drop_last(),
            d@,
        ) + before.skip(k - 1));
        k = k - 1;
    }
    proof {
        let t = before.take(k as int);
        if k > 0 {
            assert(t.last() == ds@[k - 1]@);
        }
        assert(placed(t, d@) == t.push(d@));
        assert(t.push(d@) + before.skip(k as int) =~= before.insert(k as int, d@));
        assert(diag_views(ds@.insert(k as int, d)) =~= before.insert(k as int, d@));
    }
    ds.insert(k, d);
}

/// Puts diagnostics in source order.
pub fn sort_diagnostics(ds: Vec<Diagnostic>) -> (r: Vec<Diagnostic>)
    ensures
        diag_views(r@) == sorted(diag_views(ds@)),
{
    let mut rest = ds;
    let ghost all = diag_views(rest@);
    let mut out: Vec<Diagnostic> = Vec::new();
    assert(diag_views(out@) =~= Seq::<DiagView>::empty());
    assert(all.take(0) =~= Seq::<DiagView>::empty());
    let n: usize = rest.len();
    let mut k: usize = 0;
    while k < n
        invariant
            k <= n,
            n == all.len(),
            rest@.len() == n - k,
            forall|i: int| 0 <= i < n - k ==> (#[trigger] rest@[i])@ == all[k + i],
            diag_views(out@) == sorted(all.take(k as int)),
        decreases n - k,
    {
        let d = rest.remove(0);
        assert(all.take(k as int + 1).drop_last() =~= all.take(k as int));
        place(&mut out, d);
        k = k + 1;
    }
    assert(all.take(n as int) =~= all);
    out
}

} // verus!
