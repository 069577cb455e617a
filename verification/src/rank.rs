//! Ordering candidates by priority, keeping equals in the order they came.

use vstd::prelude::*;
use crate::icon::{icon_views, Icon, IconView};

verus! {

/// No icon stands before one of lower priority.
pub open spec fn is_sorted(s: Seq<IconView>) -> bool {
    forall|i: int, j: int| 0 <= i <= j < s.len() ==> s[i].priority <= s[j].priority
}

/// The icons of `s` that have priority `p`, in their order in `s`.
pub open spec fn with_priority(s: Seq<IconView>, p: u8) -> Seq<IconView> {
    s.filter(|x: IconView| x.priority == p)
}

/// Where an icon of priority `p` goes into `s`: right behind the last icon
/// whose priority is not higher than `p`, or to the front if there is none.
pub open spec fn insert_point(s: Seq<IconView>, p: u8) -> nat
    decreases s.len(),
{
    if s.len() == 0 || s.last().priority <= p {
        s.len()
    } else {
        insert_point(s.drop_last(), p)
    }
}

/// `s` with `x` put in at its insert point.
pub open spec fn insert_ranked(s: Seq<IconView>, x: IconView) -> Seq<IconView> {
    s.insert(insert_point(s, x.priority) as int, x)
}

/// The icons of `s` ordered by priority; icons of one priority keep the order
/// they have in `s`.
pub open spec fn ranked(s: Seq<IconView>) -> Seq<IconView>
    decreases s.len(),
{
    if s.len() == 0 {
        s
    } else {
        insert_ranked(ranked(s.drop_last()), s.last())
    }
}

/// `k` splits `s` as an insert point for priority `p` does.
pub open spec fn splits_at(s: Seq<IconView>, p: u8, k: int) -> bool {
    &&& 0 <= k <= s.len()
    &&& forall|j: int| k <= j < s.len() ==> (#[trigger] s[j]).priority > p
    &&& (k == 0 || s[k - 1].priority <= p)
}

/// The insert point splits the list, and is the only index that does.
pub proof fn lemma_insert_point(s: Seq<IconView>, p: u8)
    ensures
        splits_at(s, p, insert_point(s, p) as int),
        forall|k: int| splits_at(s, p, k) ==> k == insert_point(s, p),
    decreases s.len(),
{
    if !(s.len() == 0 || s.last().priority <= p) {
        lemma_insert_point(s.drop_last(), p);
        let d = s.drop_last();
        let k = insert_point(d, p) as int;
        assert forall|j: int| k <= j < s.len() implies (#[trigger] s[j]).priority > p by {
            if j < d.len() {
                assert(d[j].priority > p);
            }
        }
        assert(k == 0 || s[k - 1] == d[k - 1]);
    }
    let k0 = insert_point(s, p) as int;
    assert(splits_at(s, p, k0));
    assert forall|k: int| splits_at(s, p, k) implies k == k0 by {
        if k < k0 {
            assert(s[k0 - 1].priority > p);
        } else if k > k0 {
            assert(s[k - 1].priority > p);
        }
    }
}

/// Putting an icon into a sorted list at its insert point leaves the list
/// sorted, one longer, and changes the icons of no priority but its own,
/// where it comes last.
pub proof fn lemma_insert_ranked(s: Seq<IconView>, x: IconView, p: u8)
    ensures
        insert_ranked(s, x).len() == s.len() + 1,
        is_sorted(s) ==> is_sorted(insert_ranked(s, x)),
        with_priority(insert_ranked(s, x), p) == if x.priority == p {
            with_priority(s, p).push(x)
        } else {
            with_priority(s, p)
        },
{
    broadcast use Seq::filter_distributes_over_add, Seq::lemma_filter_push;

    lemma_insert_point(s, x.priority);
    let k = insert_point(s, x.priority) as int;
    let r = insert_ranked(s, x);
    if is_sorted(s) {
        assert forall|i: int, j: int| 0 <= i <= j < r.len() implies r[i].priority
            <= r[j].priority by {
            if i < k && j == k {
                assert(s[i].priority <= s[k - 1].priority);
            } else if i < k && j > k {
                assert(s[i].priority <= s[j - 1].priority);
            } else if i == k && j > k {
                assert(s[j - 1].priority > x.priority);
            } else if i > k {
                assert(s[i - 1].priority <= s[j - 1].priority);
            }
        }
    }
    let pred = |y: IconView| y.priority == p;
    let front = s.take(k);
    let back = s.skip(k);
    assert(s =~= front + back);
    assert(r =~= front.push(x) + back);
    assert(s.filter(pred) == front.filter(pred) + back.filter(pred));
    assert(r.filter(pred) == front.push(x).filter(pred) + back.filter(pred));
    if x.priority == p {
        assert(back.all(|y: IconView| !pred(y))) by {
            assert forall|j: int| 0 <= j < back.len() implies !pred(#[trigger] back[j]) by {
                assert(s[k + j].priority > x.priority);
            }
        }
        back.lemma_all_neg_filter_empty(pred);
        assert(back.filter(pred) =~= Seq::<IconView>::empty());
        assert(r.filter(pred) =~= s.filter(pred).push(x));
    }
}

/// Ranking keeps the length, yields a sorted list, and keeps the icons of
/// each priority in the order they had: the order is by priority and stable.
pub proof fn lemma_ranked_stable(s: Seq<IconView>)
    ensures
        ranked(s).len() == s.len(),
        is_sorted(ranked(s)),
        forall|p: u8| #[trigger] with_priority(ranked(s), p) == with_priority(s, p),
    decreases s.len(),
{
    broadcast use Seq::lemma_filter_push;

    if s.len() > 0 {
        let d = s.drop_last();
        let x = s.last();
        lemma_ranked_stable(d);
        assert(s =~= d.push(x));
        assert forall|p: u8| #[trigger] with_priority(ranked(s), p) == with_priority(s, p) by {
            lemma_insert_ranked(ranked(d), x, p);
            assert(with_priority(ranked(d), p) == with_priority(d, p));
        }
        lemma_insert_ranked(ranked(d), x, 0);
    }
}

/// Ranking neither adds a candidate nor drops one.
pub proof fn lemma_ranked_contains(s: Seq<IconView>, x: IconView)
    ensures
        ranked(s).contains(x) <==> s.contains(x),
{
    lemma_ranked_stable(s);
    let pred = |y: IconView| y.priority == x.priority;
    assert(with_priority(ranked(s), x.priority) == with_priority(s, x.priority));
    if ranked(s).contains(x) {
        let i = choose|i: int| 0 <= i < ranked(s).len() && ranked(s)[i] == x;
        ranked(s).lemma_filter_contains(pred, i);
        s.lemma_filter_contains_rev(pred, x);
    }
    if s.contains(x) {
        let i = choose|i: int| 0 <= i < s.len() && s[i] == x;
        s.lemma_filter_contains(pred, i);
        ranked(s).lemma_filter_contains_rev(pred, x);
    }
}

/// A list that is sorted already is its own ranking.
pub proof fn lemma_ranked_of_sorted(s: Seq<IconView>)
    requires
        is_sorted(s),
    ensures
        ranked(s) == s,
    decreases s.len(),
{
    if s.len() > 0 {
        let d = s.drop_last();
        assert(is_sorted(d)) by {
            assert forall|i: int, j: int| 0 <= i <= j < d.len() implies d[i].priority
                <= d[j].priority by {
                assert(s[i].priority <= s[j].priority);
            }
        }
        lemma_ranked_of_sorted(d);
        lemma_insert_point(d, s.last().priority);
        assert(splits_at(d, s.last().priority, d.len() as int)) by {
            if d.len() > 0 {
                assert(s[d.len() - 1].priority <= s[s.len() - 1].priority);
            }
        }
        assert(d.insert(d.len() as int, s.last()) =~= s);
    }
}

/// Ranking a list a second time changes nothing.
pub proof fn lemma_ranked_idempotent(s: Seq<IconView>)
    ensures
        ranked(ranked(s)) == ranked(s),
{
    lemma_ranked_stable(s);
    lemma_ranked_of_sorted(ranked(s));
}

/// Two sorted lists that hold, for each priority, the same icons in the same
/// order are one and the same list.
pub proof fn lemma_stable_order_unique(a: Seq<IconView>, b: Seq<IconView>)
    requires
        is_sorted(a),
        is_sorted(b),
        forall|p: u8| #[trigger] with_priority(a, p) == with_priority(b, p),
    ensures
        a == b,
    decreases a.len(),
{
    broadcast use Seq::lemma_filter_push;

    if a.len() == 0 {
        if b.len() > 0 {
            let y = b[0];
            let pred = |z: IconView| z.priority == y.priority;
            b.lemma_filter_contains(pred, 0);
            assert(with_priority(a, y.priority) == with_priority(b, y.priority));
            a.lemma_filter_contains_rev(pred, y);
        }
        assert(a =~= b);
    } else {
        let x = a.last();
        let p = x.priority;
        let pred = |z: IconView| z.priority == p;
        a.lemma_filter_contains(pred, a.len() - 1);
        assert(with_priority(a, p) == with_priority(b, p));
        b.lemma_filter_contains_rev(pred, x);
        let y = b.last();
        let q = y.priority;
        let pred_q = |z: IconView| z.priority == q;
        b.lemma_filter_contains(pred_q, b.len() - 1);
        assert(with_priority(a, q) == with_priority(b, q));
        a.lemma_filter_contains_rev(pred_q, y);
        let j = choose|j: int| 0 <= j < b.len() && b[j] == x;
        assert(b[j].priority <= b[b.len() - 1].priority);
        let k = choose|k: int| 0 <= k < a.len() && a[k] == y;
        assert(a[k].priority <= a[a.len() - 1].priority);
        assert(p == q);
        let da = a.drop_last();
        let db = b.drop_last();
        assert(a =~= da.push(x));
        assert(b =~= db.push(y));
        assert(with_priority(a, p) == with_priority(da, p).push(x));
        assert(with_priority(b, p) == with_priority(db, p).push(y));
        assert(with_priority(da, p).push(x).last() == x);
        assert(with_priority(db, p).push(y).last() == y);
        assert(x == y);
        assert(with_priority(da, p) =~= with_priority(da, p).push(x).drop_last());
        assert(with_priority(db, p) =~= with_priority(db, p).push(y).drop_last());
        assert forall|r: u8| #[trigger] with_priority(da, r) == with_priority(db, r) by {
            assert(with_priority(a, r) == with_priority(b, r));
            if r != p {
                assert(with_priority(a, r) == with_priority(da, r));
                assert(with_priority(b, r) == with_priority(db, r));
            }
        }
        assert(is_sorted(da)) by {
            assert forall|i: int, j: int| 0 <= i <= j < da.len() implies da[i].priority
                <= da[j].priority by {
                assert(a[i].priority <= a[j].priority);
            }
        }
        assert(is_sorted(db)) by {
            assert forall|i: int, j: int| 0 <= i <= j < db.len() implies db[i].priority
                <= db[j].priority by {
                assert(b[i].priority <= b[j].priority);
            }
        }
        lemma_stable_order_unique(da, db);
    }
}

/// Being ordered by priority and stable pins the ranking down: a sorted list
/// that holds, for each priority, the icons of `s` in their order in `s` is
/// the ranking of `s`.
pub proof fn lemma_ranked_is_the_stable_order(s: Seq<IconView>, t: Seq<IconView>)
    requires
        is_sorted(t),
        forall|p: u8| #[trigger] with_priority(t, p) == with_priority(s, p),
    ensures
        t == ranked(s),
{
    lemma_ranked_stable(s);
    assert forall|p: u8| #[trigger] with_priority(t, p) == with_priority(ranked(s), p) by {
        assert(with_priority(t, p) == with_priority(s, p));
        assert(with_priority(ranked(s), p) == with_priority(s, p));
    }
    lemma_stable_order_unique(t, ranked(s));
}

/// Puts `icon` into the sorted list `list`, behind every icon that is not of
/// higher priority.
pub fn insert_icon(list: &mut Vec<Icon>, icon: Icon)
    ensures
        icon_views(final(list)@) == insert_ranked(icon_views(old(list)@), icon@),
{
    let ghost before = icon_views(list@);
    let mut k: usize = list.len();
    while k > 0 && list[k - 1].priority > icon.priority
        invariant
            k <= list.len(),
            *list == *old(list),
            before == icon_views(list@),
            forall|j: int| k <= j < before.len() ==> (#[trigger] before[j]).priority > icon.priority,
        decreases k,
    {
        k -= 1;
    }
    proof {
        assert(k == 0 || before[k - 1].priority <= icon.priority);
        assert(splits_at(before, icon.priority, k as int));
        lemma_insert_point(before, icon.priority);
    }
    let ghost view = icon@;
    list.insert(k, icon);
    assert(icon_views(list@) =~= before.insert(k as int, view));
}

/// Orders the candidates by priority, lowest first. Candidates of equal
/// priority keep their order.
pub fn sort_icons(icons: Vec<Icon>) -> (sorted: Vec<Icon>)
    ensures
        icon_views(sorted@) == ranked(icon_views(icons@)),
        sorted@.len() == icons@.len(),
        is_sorted(icon_views(sorted@)),
        forall|p: u8|
            #[trigger] with_priority(icon_views(sorted@), p) == with_priority(icon_views(icons@), p),
{
    let ghost input = icon_views(icons@);
    let mut rest = icons;
    let mut sorted: Vec<Icon> = Vec::new();
    let ghost mut done: int = 0;
    while rest.len() > 0
        invariant
            0 <= done <= input.len(),
            icon_views(rest@) == input.skip(done),
            icon_views(sorted@) == ranked(input.take(done)),
        decreases rest.len(),
    {
        let ghost before = rest@;
        let icon = rest.remove(0);
        proof {
            assert(icon_views(before).len() == before.len());
            assert(done < input.len());
            assert(icon@ == icon_views(before)[0]);
            assert forall|j: int| 0 <= j < rest@.len() implies icon_views(rest@)[j] == input.skip(
                done + 1,
            )[j] by {
                assert(rest@[j] == before[j + 1]);
                assert(icon_views(before)[j + 1] == input.skip(done)[j + 1]);
            }
            assert(input.take(done + 1).drop_last() =~= input.take(done));
            assert(icon_views(rest@) =~= input.skip(done + 1));
            done = done + 1;
        }
        insert_icon(&mut sorted, icon);
    }
    proof {
        assert(icon_views(rest@).len() == 0);
        assert(input.take(done) =~= input);
        lemma_ranked_stable(input);
    }
    sorted
}

} // verus!
