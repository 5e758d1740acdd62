//! Putting the entries in order: newest first, and entries of one instant
//! in the order in which they were loaded.

use vstd::prelude::*;
use vstd::multiset::Multiset;
use vstd::seq_lib::{to_multiset_build, to_multiset_insert};
use crate::entry::{PageData, PageDataView};
use crate::helpers::Timestamp;

verus! {

/// Whether the entries stand newest first: no entry is later than one that
/// stands before it.
pub open spec fn newest_first(s: Seq<PageDataView>) -> bool {
    forall|i: int, j: int|
        0 <= i < j < s.len() ==> !(#[trigger] s[j]).created_at.later_than(
            (#[trigger] s[i]).created_at,
        )
}

/// The test that picks the entries created at the instant of `at`.
pub open spec fn created_at(at: Timestamp) -> spec_fn(PageDataView) -> bool {
    |e: PageDataView| e.created_at.same_instant(at)
}

/// The entries of `s` that were created at the instant of `at`, in the
/// order in which they stand in `s`.
pub open spec fn entries_at(s: Seq<PageDataView>, at: Timestamp) -> Seq<PageDataView> {
    s.filter(created_at(at))
}

/// Whether `sorted` is `loaded` put in order: it stands newest first, and
/// for every instant it holds the entries of `loaded` of that instant, in
/// the order in which they stand there.
pub open spec fn is_sorted_form(sorted: Seq<PageDataView>, loaded: Seq<PageDataView>) -> bool {
    &&& newest_first(sorted)
    &&& forall|at: Timestamp| #[trigger] entries_at(sorted, at) == entries_at(loaded, at)
}

/// Putting an entry before the first entry that is not later than it keeps
/// the order.
proof fn lemma_insert_keeps_order(s: Seq<PageDataView>, i: int, e: PageDataView)
    requires
        newest_first(s),
        0 <= i <= s.len(),
        forall|k: int| 0 <= k < i ==> (#[trigger] s[k]).created_at.later_than(e.created_at),
        i < s.len() ==> !s[i].created_at.later_than(e.created_at),
    ensures
        newest_first(s.insert(i, e)),
{
    let t = s.insert(i, e);
    assert forall|a: int, b: int| 0 <= a < b < t.len() implies !(#[trigger] t[b]).created_at.later_than(
        (#[trigger] t[a]).created_at,
    ) by {
        if b == i {
            assert(t[a] == s[a]);
        } else if a == i {
            assert(t[b] == s[b - 1]);
            if b - 1 > i {
                assert(!s[b - 1].created_at.later_than(s[i].created_at));
            }
        } else if a < i && b > i {
            assert(t[a] == s[a]);
            assert(t[b] == s[b - 1]);
        } else if a < i {
            assert(t[a] == s[a] && t[b] == s[b]);
        } else {
            assert(t[a] == s[a - 1] && t[b] == s[b - 1]);
        }
    }
}

/// Putting an entry behind entries that are all later than it puts it
/// first among the entries of its instant, and leaves the entries of every
/// other instant as they were.
proof fn lemma_insert_keeps_groups(s: Seq<PageDataView>, i: int, e: PageDataView, at: Timestamp)
    requires
        0 <= i <= s.len(),
        forall|k: int| 0 <= k < i ==> (#[trigger] s[k]).created_at.later_than(e.created_at),
    ensures
        entries_at(s.insert(i, e), at) == entries_at(seq![e] + s, at),
{
    let p = created_at(at);
    let head = s.take(i);
    let tail = s.skip(i);
    assert(s.insert(i, e) == head + (seq![e] + tail));
    assert(s == head + tail);
    Seq::filter_distributes_over_add(head, seq![e] + tail, p);
    Seq::filter_distributes_over_add(head, tail, p);
    tail.lemma_filter_prepend(e, p);
    s.lemma_filter_prepend(e, p);
    if p(e) {
        assert(head.all(|x: PageDataView| !p(x))) by {
            assert forall|k: int| 0 <= k < head.len() implies !p(#[trigger] head[k]) by {
                assert(head[k] == s[k]);
            }
        }
        head.lemma_all_neg_filter_empty(p);
        assert(head.filter(p) == Seq::<PageDataView>::empty());
        assert(Seq::<PageDataView>::empty() + (seq![e] + tail.filter(p)) == seq![e] + (
        Seq::<PageDataView>::empty() + tail.filter(p)));
    } else {
        assert(Seq::<PageDataView>::empty() + tail.filter(p) == tail.filter(p));
        assert(Seq::<PageDataView>::empty() + s.filter(p) == s.filter(p));
    }
}

/// Two sequences that stand newest first and hold the same entries in the
/// same order for every instant are one and the same.
proof fn lemma_same_groups(a: Seq<PageDataView>, b: Seq<PageDataView>)
    requires
        newest_first(a),
        newest_first(b),
        forall|at: Timestamp| #[trigger] entries_at(a, at) == entries_at(b, at),
    ensures
        a == b,
    decreases a.len(),
{
    if a.len() == 0 {
        if b.len() > 0 {
            let u = b[0].created_at;
            b.lemma_filter_contains(created_at(u), 0);
            a.lemma_filter_len(created_at(u));
            assert(entries_at(a, u) == entries_at(b, u));
            assert(false);
        }
    } else {
        let x = a[0];
        let t = x.created_at;
        let ra = a.drop_first();
        assert(a == seq![x] + ra);
        ra.lemma_filter_prepend(x, created_at(t));
        assert(entries_at(a, t) == seq![x] + ra.filter(created_at(t)));
        assert(entries_at(a, t) == entries_at(b, t));
        b.lemma_filter_len(created_at(t));
        let y = b[0];
        let u = y.created_at;
        let rb = b.drop_first();
        assert(b == seq![y] + rb);
        // each of the two first entries stands in the other sequence
        rb.lemma_filter_prepend(y, created_at(u));
        assert(entries_at(b, u) == seq![y] + rb.filter(created_at(u)));
        assert(entries_at(a, u) == entries_at(b, u));
        assert(entries_at(a, u)[0] == y);
        assert(a.filter(created_at(u)).contains(y));
        a.lemma_filter_contains_rev(created_at(u), y);
        let k = choose|k: int| 0 <= k < a.len() && a[k] == y;
        assert(!a[k].created_at.later_than(a[0].created_at) || k == 0);
        assert(entries_at(b, t)[0] == x);
        assert(b.filter(created_at(t)).contains(x));
        b.lemma_filter_contains_rev(created_at(t), x);
        let m = choose|m: int| 0 <= m < b.len() && b[m] == x;
        assert(!b[m].created_at.later_than(b[0].created_at) || m == 0);
        assert(u.same_instant(t));
        rb.lemma_filter_prepend(y, created_at(t));
        assert(entries_at(b, t) == seq![y] + rb.filter(created_at(t)));
        assert((seq![y] + rb.filter(created_at(t)))[0] == y);
        assert(x == y);
        assert forall|at: Timestamp| #[trigger] entries_at(ra, at) == entries_at(rb, at) by {
            ra.lemma_filter_prepend(x, created_at(at));
            rb.lemma_filter_prepend(x, created_at(at));
            assert(entries_at(a, at) == entries_at(b, at));
            let first = if created_at(at)(x) {
                seq![x]
            } else {
                Seq::<PageDataView>::empty()
            };
            assert(first + ra.filter(created_at(at)) == first + rb.filter(created_at(at)));
            assert((first + ra.filter(created_at(at))).skip(first.len() as int) == ra.filter(
                created_at(at),
            ));
            assert((first + rb.filter(created_at(at))).skip(first.len() as int) == rb.filter(
                created_at(at),
            ));
        }
        assert forall|i: int, j: int| 0 <= i < j < ra.len() implies !(#[trigger] ra[j]).created_at.later_than(
            (#[trigger] ra[i]).created_at,
        ) by {
            assert(ra[i] == a[i + 1] && ra[j] == a[j + 1]);
        }
        assert forall|i: int, j: int| 0 <= i < j < rb.len() implies !(#[trigger] rb[j]).created_at.later_than(
            (#[trigger] rb[i]).created_at,
        ) by {
            assert(rb[i] == b[i + 1] && rb[j] == b[j + 1]);
        }
        lemma_same_groups(ra, rb);
    }
}

/// There is only one way to put entries in order: whatever is the sorted
/// form of the entries is the same sequence.
pub proof fn lemma_sorted_form_unique(
    a: Seq<PageDataView>,
    b: Seq<PageDataView>,
    loaded: Seq<PageDataView>,
)
    requires
        is_sorted_form(a, loaded),
        is_sorted_form(b, loaded),
    ensures
        a == b,
{
    assert forall|at: Timestamp| #[trigger] entries_at(a, at) == entries_at(b, at) by {
        assert(entries_at(a, at) == entries_at(loaded, at));
        assert(entries_at(b, at) == entries_at(loaded, at));
    }
    lemma_same_groups(a, b);
}

/// Where `e` goes in `sorted`: before the first entry that is not later
/// than it.
fn place_of(sorted: &Vec<PageData>, e: &PageData) -> (i: usize)
    ensures
        i <= sorted.len(),
        forall|k: int|
            0 <= k < i ==> (#[trigger] sorted.deep_view()[k]).created_at.later_than(e.created_at),
        i < sorted.len() ==> !sorted.deep_view()[i as int].created_at.later_than(e.created_at),
{
    let mut i: usize = 0;
    while i < sorted.len() && sorted[i].created_at.is_later_than(&e.created_at)
        invariant
            i <= sorted.len(),
            forall|k: int|
                0 <= k < i ==> (#[trigger] sorted.deep_view()[k]).created_at.later_than(
                    e.created_at,
                ),
        decreases sorted.len() - i,
    {
        i += 1;
    }
    i
}

/// Puts the entries in order, newest first. Entries of one instant keep the
/// order in which they were loaded.
pub fn sort_entries(entries: Vec<PageData>) -> (sorted: Vec<PageData>)
    ensures
        is_sorted_form(sorted.deep_view(), entries.deep_view()),
        sorted.deep_view().to_multiset() == entries.deep_view().to_multiset(),
        sorted.len() == entries.len(),
        forall|i: int|
            0 <= i < sorted.len() - 1 ==> !(#[trigger] sorted.deep_view()[i + 1]).created_at.later_than(
                sorted.deep_view()[i].created_at,
            ),
{
    let ghost loaded = entries.deep_view();
    let mut rest = entries;
    let mut sorted: Vec<PageData> = Vec::new();
    assert(loaded.skip(loaded.len() as int) == Seq::<PageDataView>::empty());
    assert(sorted.deep_view() == Seq::<PageDataView>::empty());
    assert(rest.deep_view() == loaded.take(loaded.len() as int));
    assert(sorted.deep_view().to_multiset().add(rest.deep_view().to_multiset())
        =~= loaded.to_multiset()) by {
        sorted.deep_view().to_multiset_ensures();
        assert(sorted.deep_view().to_multiset() =~= Multiset::<PageDataView>::empty());
    }
    while rest.len() > 0
        invariant
            rest.len() <= loaded.len(),
            rest.deep_view() == loaded.take(rest.len() as int),
            sorted.len() + rest.len() == loaded.len(),
            is_sorted_form(sorted.deep_view(), loaded.skip(rest.len() as int)),
            sorted.deep_view().to_multiset().add(rest.deep_view().to_multiset())
                == loaded.to_multiset(),
        decreases rest.len(),
    {
        let ghost rest_before = rest.deep_view();
        let ghost before = sorted.deep_view();
        let e = rest.pop().unwrap();
        let ghost ev = e.deep_view();
        let i = place_of(&sorted, &e);
        sorted.insert(i, e);
        proof {
            let n = rest.len() as int;
            assert(rest.deep_view() == loaded.take(n));
            assert(rest_before == rest.deep_view().push(ev));
            assert(sorted.deep_view() == before.insert(i as int, ev));
            assert(rest_before[n] == ev);
            assert(loaded[n] == ev);
            assert(loaded.skip(n) == seq![ev] + loaded.skip(n + 1));
            lemma_insert_keeps_order(before, i as int, ev);
            to_multiset_build(rest.deep_view(), ev);
            to_multiset_insert(before, i as int, ev);
            assert(before.insert(i as int, ev).to_multiset().add(rest.deep_view().to_multiset())
                =~= before.to_multiset().add(rest_before.to_multiset()));
            assert forall|at: Timestamp| #[trigger]
                entries_at(before.insert(i as int, ev), at) == entries_at(loaded.skip(n), at) by {
                lemma_insert_keeps_groups(before, i as int, ev, at);
                before.lemma_filter_prepend(ev, created_at(at));
                loaded.skip(n + 1).lemma_filter_prepend(ev, created_at(at));
                assert(entries_at(before, at) == entries_at(loaded.skip(n + 1), at));
            }
        }
    }
    assert(loaded.skip(0) == loaded);
    assert(rest.deep_view().to_multiset() =~= Multiset::<PageDataView>::empty()) by {
        rest.deep_view().to_multiset_ensures();
    }
    assert(sorted.deep_view().to_multiset().add(Multiset::<PageDataView>::empty())
        =~= sorted.deep_view().to_multiset());
    sorted
}

} // verus!
