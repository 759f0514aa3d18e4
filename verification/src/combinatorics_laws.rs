//! What the search for colourings proves.
use crate::combinatorics::{SearchStatus, all_colors_differ, ap_colors, bad, good, is_ap, max_color, one_color, search, terms_in_range, tried, try_from, visit};
use vstd::prelude::*;

verus! {

/// A part of a good colouring is good.
pub proof fn parts_of_good_are_good(c: Seq<int>, k: int, n: int)
    requires
        good(c, k),
        0 <= n <= c.len(),
    ensures
        good(c.take(n), k),
{
    if k >= 2 {
        let p = c.take(n);
        assert forall|start: int, step: int| is_ap(n, k, start, step) implies !#[trigger] bad(
            p,
            start,
            step,
            k,
        ) by {
            assert(is_ap(c.len() as int, k, start, step));
            terms_in_range(n, k, start, step);
            assert(ap_colors(p, start, step, k) =~= ap_colors(c, start, step, k));
            assert(!bad(c, start, step, k));
        }
    }
}

/// Two colourings that give the same places equal colours.
pub open spec fn same_pattern(a: Seq<int>, b: Seq<int>) -> bool {
    a.len() == b.len() && forall|i: int, j: int|
        0 <= i < a.len() && 0 <= j < a.len() ==> (#[trigger] a[i] == #[trigger] a[j]) == (b[i]
            == b[j])
}

proof fn pattern_carries(a: Seq<int>, b: Seq<int>, k: int)
    requires
        same_pattern(a, b),
        good(a, k),
    ensures
        good(b, k),
{
    if k >= 2 {
        assert forall|start: int, step: int|
            is_ap(b.len() as int, k, start, step) implies !#[trigger] bad(b, start, step, k) by {
            terms_in_range(b.len() as int, k, start, step);
            let x = ap_colors(a, start, step, k);
            let y = ap_colors(b, start, step, k);
            assert forall|i: int, j: int| 0 <= i < k && 0 <= j < k implies (x[i] == x[j]) == (y[i]
                == y[j]) by {
                assert(1 <= start + i * step <= b.len());
                assert(1 <= start + j * step <= b.len());
                assert((a[start + i * step - 1] == a[start + j * step - 1]) == (b[start + i * step
                    - 1] == b[start + j * step - 1]));
            }
            assert(!bad(a, start, step, k));
            if one_color(y) {
                assert forall|i: int| 0 <= i < x.len() implies #[trigger] x[i] == x[0] by {
                    assert(y[i] == y[0]);
                }
                assert(one_color(x));
            }
            if all_colors_differ(y) {
                assert forall|i: int, j: int| 0 <= i < j < x.len() implies #[trigger] x[i]
                    != #[trigger] x[j] by {
                    assert(y[i] != y[j]);
                }
                assert(all_colors_differ(x));
            }
        }
    }
}

/// Whether good or not depends on which places have equal colours alone.
pub proof fn only_the_pattern_matters(a: Seq<int>, b: Seq<int>, k: int)
    requires
        same_pattern(a, b),
    ensures
        good(a, k) == good(b, k),
{
    if good(a, k) {
        pattern_carries(a, b, k);
    }
    if good(b, k) {
        assert(same_pattern(b, a));
        pattern_carries(b, a, k);
    }
}

/// Every colour is one that the search tries at its place.
pub open spec fn in_space(w: Seq<int>, max: Option<usize>) -> bool {
    forall|i: int| 0 <= i < w.len() ==> 0 <= #[trigger] w[i] < tried(w.take(i), max)
}

proof fn space_push(c: Seq<int>, color: int, max: Option<usize>)
    requires
        in_space(c, max),
        0 <= color < tried(c, max),
    ensures
        in_space(c.push(color), max),
{
    let d = c.push(color);
    assert forall|i: int| 0 <= i < d.len() implies 0 <= #[trigger] d[i] < tried(d.take(i), max) by {
        assert(d.take(i) =~= c.take(i));
        if i < c.len() {
            assert(c[i] == d[i]);
        } else {
            assert(c.take(i) =~= c);
        }
    }
}

/// A colouring that extends another.
pub open spec fn extends(w: Seq<int>, c: Seq<int>) -> bool {
    c.len() <= w.len() && w.take(c.len() as int) == c
}

proof fn visit_is_sound(c: Seq<int>, n: int, k: int, max: Option<usize>, limit: int, nodes: int)
    requires
        c.len() <= n,
        in_space(c, max),
        good(c, k),
        visit(c, n, k, max, limit, nodes).coloring is Some,
    ensures
        ({
            let w = visit(c, n, k, max, limit, nodes).coloring->Some_0;
            w.len() == n && good(w, k) && in_space(w, max)
        }),
    decreases n - c.len(), 1int, 0int,
{
    if c.len() < n {
        try_is_sound(c, 0, n, k, max, limit, nodes + 1);
    }
}

proof fn try_is_sound(
    c: Seq<int>,
    color: int,
    n: int,
    k: int,
    max: Option<usize>,
    limit: int,
    nodes: int,
)
    requires
        c.len() < n,
        color >= 0,
        in_space(c, max),
        try_from(c, color, n, k, max, limit, nodes).coloring is Some,
    ensures
        ({
            let w = try_from(c, color, n, k, max, limit, nodes).coloring->Some_0;
            w.len() == n && good(w, k) && in_space(w, max)
        }),
    decreases n - c.len(), 0int, tried(c, max) - color,
{
    if color < tried(c, max) {
        if !good(c.push(color), k) {
            try_is_sound(c, color + 1, n, k, max, limit, nodes);
        } else {
            let f = visit(c.push(color), n, k, max, limit, nodes);
            if f.coloring is Some {
                space_push(c, color, max);
                visit_is_sound(c.push(color), n, k, max, limit, nodes);
            } else if !f.hit {
                try_is_sound(c, color + 1, n, k, max, limit, f.nodes);
            }
        }
    }
}

proof fn visit_is_complete(
    c: Seq<int>,
    w: Seq<int>,
    n: int,
    k: int,
    max: Option<usize>,
    limit: int,
    nodes: int,
)
    requires
        w.len() == n,
        extends(w, c),
        in_space(w, max),
        good(w, k),
    ensures
        visit(c, n, k, max, limit, nodes).coloring is Some || visit(
            c,
            n,
            k,
            max,
            limit,
            nodes,
        ).hit,
    decreases n - c.len(), 1int, 0int,
{
    if nodes < limit && c.len() < n {
        try_is_complete(c, 0, w, n, k, max, limit, nodes + 1);
    }
}

proof fn try_is_complete(
    c: Seq<int>,
    color: int,
    w: Seq<int>,
    n: int,
    k: int,
    max: Option<usize>,
    limit: int,
    nodes: int,
)
    requires
        w.len() == n,
        c.len() < n,
        extends(w, c),
        in_space(w, max),
        good(w, k),
        0 <= color <= w[c.len() as int],
    ensures
        try_from(c, color, n, k, max, limit, nodes).coloring is Some || try_from(
            c,
            color,
            n,
            k,
            max,
            limit,
            nodes,
        ).hit,
    decreases n - c.len(), 0int, tried(c, max) - color,
{
    let at = c.len() as int;
    assert(w[at] < tried(w.take(at), max));
    if color == w[at] {
        assert(w.take(at + 1) =~= c.push(color));
        parts_of_good_are_good(w, k, at + 1);
        visit_is_complete(c.push(color), w, n, k, max, limit, nodes);
    } else if !good(c.push(color), k) {
        try_is_complete(c, color + 1, w, n, k, max, limit, nodes);
    } else {
        let f = visit(c.push(color), n, k, max, limit, nodes);
        if !(f.coloring is Some || f.hit) {
            try_is_complete(c, color + 1, w, n, k, max, limit, f.nodes);
        }
    }
}

/// All colours lie within the limit, where there is one.
pub open spec fn within(w: Seq<int>, max: Option<usize>) -> bool {
    max matches Some(limit) ==> forall|i: int| 0 <= i < w.len() ==> 0 <= #[trigger] w[i] < limit
}

/// The colours renamed so that the first one is zero.
pub open spec fn swapped(w: Seq<int>) -> Seq<int> {
    w.map_values(
        |x: int|
            if x == w[0] {
                0
            } else if x == 0 {
                w[0]
            } else {
                x
            },
    )
}

/// The place of the first equal colour before the last one; the last place
/// itself where there is none.
pub open spec fn earlier(w: Seq<int>, i: int) -> int
    decreases w.len() - i,
{
    if i >= w.len() - 1 || w[i] == w.last() {
        i
    } else {
        earlier(w, i + 1)
    }
}

proof fn earlier_is_right(w: Seq<int>, i: int)
    requires
        0 <= i <= w.len() - 1,
    ensures
        i <= earlier(w, i) <= w.len() - 1,
        w[earlier(w, i)] == w.last(),
        forall|j: int| i <= j < earlier(w, i) ==> #[trigger] w[j] != w.last(),
    decreases w.len() - i,
{
    if i < w.len() - 1 && w[i] != w.last() {
        earlier_is_right(w, i + 1);
    }
}

/// The colours renamed in the order of their first places.
pub open spec fn renamed(w: Seq<int>) -> Seq<int>
    decreases w.len(),
{
    if w.len() == 0 {
        w
    } else {
        let r = renamed(w.drop_last());
        let e = earlier(w, 0);
        if e < w.len() - 1 {
            r.push(r[e])
        } else {
            r.push(max_color(r) + 1)
        }
    }
}

proof fn max_is_upper(c: Seq<int>)
    ensures
        max_color(c) >= -1,
        forall|i: int| 0 <= i < c.len() ==> #[trigger] c[i] <= max_color(c),
    decreases c.len(),
{
    if c.len() > 0 {
        let front = c.drop_last();
        max_is_upper(front);
        assert forall|i: int| 0 <= i < c.len() implies #[trigger] c[i] <= max_color(c) by {
            if i < c.len() - 1 {
                assert(front[i] == c[i]);
            }
        }
    }
}

proof fn renaming_keeps_the_pattern(w: Seq<int>)
    ensures
        same_pattern(w, renamed(w)),
        in_space(renamed(w), None),
        renamed(w).len() == w.len(),
    decreases w.len(),
{
    let r = renamed(w);
    if w.len() > 0 {
        let front = w.drop_last();
        let rf = renamed(front);
        renaming_keeps_the_pattern(front);
        earlier_is_right(w, 0);
        max_is_upper(rf);
        let e = earlier(w, 0);
        let last = w.len() - 1;
        assert(r.drop_last() =~= rf);
        assert forall|i: int, j: int| 0 <= i < w.len() && 0 <= j < w.len() implies (
        #[trigger] w[i] == #[trigger] w[j]) == (r[i] == r[j]) by {
            if i < last && j < last {
                assert((front[i] == front[j]) == (rf[i] == rf[j]));
            } else if i == last && j == last {
            } else {
                let m = if i < last {
                    i
                } else {
                    j
                };
                assert(r[m] == rf[m]);
                if e < last {
                    assert((front[m] == front[e]) == (rf[m] == rf[e]));
                } else {
                    assert(w[m] != w.last());
                    assert(rf[m] <= max_color(rf));
                }
            }
        }
        let color = r.last();
        if e < last {
            assert(rf[e] <= max_color(rf));
            assert(0 <= rf[e]);
        }
        if rf.len() == 0 {
            assert(rf =~= Seq::<int>::empty());
            assert(max_color(rf) == -1);
        }
        assert(0 <= color < tried(rf, None));
        space_push(rf, color, None);
        assert(rf.push(color) =~= r);
    }
}

proof fn swapping_keeps_the_pattern(w: Seq<int>, limit: usize)
    requires
        w.len() > 0,
        within(w, Some(limit)),
    ensures
        same_pattern(w, swapped(w)),
        in_space(swapped(w), Some(limit)),
{
    let s = swapped(w);
    assert(0 <= w[0] < limit);
    assert forall|i: int| 0 <= i < s.len() implies 0 <= #[trigger] s[i] < tried(
        s.take(i),
        Some(limit),
    ) by {
        assert(0 <= w[i] < limit);
    }
}

/// A colouring that the search finds is good, has every place coloured, and
/// keeps to the colours that are allowed.
pub proof fn found_colorings_are_good(n: int, k: int, max: Option<usize>, limit: int)
    requires
        k != 1,
        k >= 0,
        n >= 0,
        search(n, k, max, limit).0 == SearchStatus::Exists,
    ensures
        search(n, k, max, limit).1.coloring is Some,
        ({
            let w = search(n, k, max, limit).1.coloring->Some_0;
            w.len() == n && good(w, k) && within(w, max)
        }),
{
    let e = Seq::<int>::empty();
    if k >= 2 {
        assert forall|start: int, step: int| is_ap(0, k, start, step) implies !#[trigger] bad(
            e,
            start,
            step,
            k,
        ) by {
            terms_in_range(0, k, start, step);
        }
    }
    visit_is_sound(e, n, k, max, limit, 0);
    let w = search(n, k, max, limit).1.coloring->Some_0;
    if let Some(l) = max {
        assert forall|i: int| 0 <= i < w.len() implies 0 <= #[trigger] w[i] < l by {
            assert(w[i] < tried(w.take(i), max));
        }
    }
}

/// Where the search says that there is none, no colouring at all is good, of
/// those that keep to the allowed colours.
pub proof fn unsat_means_none(n: int, k: int, max: Option<usize>, limit: int, w: Seq<int>)
    requires
        k != 1,
        k >= 0,
        n >= 1,
        search(n, k, max, limit).0 == SearchStatus::Unsat,
        w.len() == n,
        within(w, max),
    ensures
        !good(w, k),
{
    if good(w, k) {
        let e = Seq::<int>::empty();
        match max {
            Some(l) => {
                assert(0 <= w[0] < l);
                swapping_keeps_the_pattern(w, l);
                only_the_pattern_matters(w, swapped(w), k);
                assert(swapped(w).take(0) =~= e);
                visit_is_complete(e, swapped(w), n, k, max, limit, 0);
            },
            None => {
                renaming_keeps_the_pattern(w);
                only_the_pattern_matters(w, renamed(w), k);
                assert(renamed(w).take(0) =~= e);
                visit_is_complete(e, renamed(w), n, k, max, limit, 0);
            },
        }
    }
}

} // verus!
