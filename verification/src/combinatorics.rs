//! Colourings without bad arithmetic progressions, and the search for them.
use vstd::prelude::*;

verus! {

/// What makes a progression bad: one colour, or all colours different.
#[derive(Clone, Copy, Debug, PartialEq, Eq, Structural)]
pub enum BadApKind {
    Monochromatic,
    Rainbow,
}

/// A bad progression with its terms and their colours.
#[derive(Debug)]
pub struct BadAp {
    pub kind: BadApKind,
    pub terms: Vec<usize>,
    pub colors: Vec<usize>,
}

#[derive(Clone, Copy, Debug, PartialEq, Eq, Structural)]
pub enum SearchStatus {
    Exists,
    Unsat,
    Inconclusive,
}

/// What a search found.
#[derive(Debug)]
pub struct ColoringSearchResult {
    pub status: SearchStatus,
    pub n: usize,
    pub k: usize,
    pub max_colors: Option<usize>,
    pub nodes: usize,
    pub node_limit: usize,
    pub coloring: Option<Vec<usize>>,
}

/// Sizes as integers.
pub open spec fn ints(s: Seq<usize>) -> Seq<int> {
    s.map_values(|x: usize| x as int)
}

/// The last of the `k` terms.
pub open spec fn last_term(start: int, step: int, k: int) -> int {
    start + (k - 1) * step
}

/// A progression of `k` terms among `1..=n`.
pub open spec fn is_ap(n: int, k: int, start: int, step: int) -> bool {
    1 <= start && 1 <= step && last_term(start, step, k) <= n
}

/// The terms of a progression.
pub open spec fn ap(start: int, step: int, k: int) -> Seq<int> {
    Seq::new(k as nat, |i: int| start + i * step)
}

/// The progressions from `start` and `step` on, by start and then by step.
pub open spec fn aps_from(n: int, k: int, start: int, step: int) -> Seq<Seq<int>>
    decreases n + 1 - start, n + 1 - step,
{
    if k < 2 || start > n || start < 1 || step < 1 || step > n {
        Seq::empty()
    } else if last_term(start, step, k) <= n {
        seq![ap(start, step, k)] + aps_from(n, k, start, step + 1)
    } else {
        aps_from(n, k, start + 1, 1)
    }
}

/// All progressions of `k` terms among `1..=n`.
pub open spec fn progressions(n: int, k: int) -> Seq<Seq<int>> {
    aps_from(n, k, 1, 1)
}

pub proof fn terms_in_range(n: int, k: int, start: int, step: int)
    requires
        k >= 2,
        is_ap(n, k, start, step),
    ensures
        step < n,
        start < n,
        forall|i: int| 0 <= i < k ==> 1 <= #[trigger] (start + i * step) <= n,
{
    assert((k - 1) * step >= step) by (nonlinear_arith)
        requires
            k >= 2,
            step >= 1,
    ;
    assert forall|i: int| 0 <= i < k implies 1 <= #[trigger] (start + i * step) <= n by {
        assert(0 <= i * step <= (k - 1) * step) by (nonlinear_arith)
            requires
                0 <= i <= k - 1,
                step >= 1,
        ;
    }
}

proof fn next_last(start: int, step: int, k: int)
    ensures
        last_term(start, step + 1, k) == last_term(start, step, k) + (k - 1),
        last_term(start, 1, k) == start + (k - 1),
{
    assert((k - 1) * (step + 1) == (k - 1) * step + (k - 1)) by (nonlinear_arith);
    assert((k - 1) * 1 == k - 1) by (nonlinear_arith);
}

fn terms_of(start: usize, step: usize, k: usize, n: usize) -> (v: Vec<usize>)
    requires
        k >= 2,
        is_ap(n as int, k as int, start as int, step as int),
    ensures
        ints(v@) == ap(start as int, step as int, k as int),
{
    let mut v: Vec<usize> = Vec::new();
    let mut i: usize = 0;
    let mut term: usize = start;
    proof {
        terms_in_range(n as int, k as int, start as int, step as int);
        assert(start + 0 * step == start) by (nonlinear_arith);
    }
    while i < k
        invariant
            i <= k,
            k >= 2,
            i < k ==> term == start + i * step,
            forall|j: int| 0 <= j < k ==> 1 <= #[trigger] (start + j * step) <= n,
            v@.len() == i,
            forall|j: int| 0 <= j < i ==> v@[j] == #[trigger] (start + j * step),
        decreases k - i,
    {
        v.push(term);
        if i + 1 < k {
            proof {
                assert((i + 1) * step == i * step + step) by (nonlinear_arith);
                assert(1 <= start + (i + 1) * step <= n);
            }
            term = term + step;
        }
        i = i + 1;
    }
    assert(ints(v@) =~= ap(start as int, step as int, k as int));
    v
}

/// Lists of terms as integers.
pub open spec fn int_lists(s: Seq<Vec<usize>>) -> Seq<Seq<int>> {
    s.map_values(|v: Vec<usize>| ints(v@))
}

/// All arithmetic progressions of `k` terms among `1..=n`. There are endless
/// many of a single term, so `k` is not one.
pub fn arithmetic_progressions(n: usize, k: usize) -> (r: Vec<Vec<usize>>)
    requires
        n == 0 || k != 1,
    ensures
        int_lists(r@) == progressions(n as int, k as int),
{
    let mut aps: Vec<Vec<usize>> = Vec::new();
    assert(int_lists(aps@) =~= Seq::<Seq<int>>::empty());
    if k == 0 || n == 0 || k > n {
        proof {
            if k > n && n > 0 {
                none_too_long(n as int, k as int, 1);
            }
        }
        return aps;
    }
    let ghost total = progressions(n as int, k as int);
    let mut start: usize = 1;
    assert(int_lists(aps@) + total =~= total);
    while start <= n
        invariant
            2 <= k <= n,
            1 <= start,
            start <= n || start == n + 1,
            n < usize::MAX || start <= n,
            total == progressions(n as int, k as int),
            int_lists(aps@) + aps_from(n as int, k as int, start as int, 1) == total,
        ensures
            int_lists(aps@) == total,
        decreases n + 1 - start,
    {
        let mut step: usize = 1;
        proof {
            next_last(start as int, 1, k as int);
        }
        let mut fits: bool = k - 1 <= n - start;
        let mut last: usize = if fits {
            start + (k - 1)
        } else {
            0
        };
        while fits
            invariant
                2 <= k <= n,
                1 <= start <= n,
                1 <= step,
                fits ==> last == last_term(start as int, step as int, k as int) && last <= n,
                !fits ==> last_term(start as int, step as int, k as int) > n,
                step <= n,
                int_lists(aps@) + aps_from(n as int, k as int, start as int, step as int)
                    == total,
            decreases n + 1 - step, fits as int,
        {
            let ghost before = int_lists(aps@);
            let v = terms_of(start, step, k, n);
            let ghost rest = aps_from(n as int, k as int, start as int, step + 1);
            proof {
                terms_in_range(n as int, k as int, start as int, step as int);
                next_last(start as int, step as int, k as int);
            }
            aps.push(v);
            proof {
                assert(int_lists(aps@) =~= before.push(ints(v@)));
                assert(before + (seq![ints(v@)] + rest) =~= int_lists(aps@) + rest);
            }
            fits = k - 1 <= n - last;
            if fits {
                last = last + (k - 1);
            }
            step = step + 1;
        }
        if start == n {
            proof {
                assert(aps_from(n as int, k as int, start + 1, 1) =~= Seq::<Seq<int>>::empty());
                assert(int_lists(aps@) + Seq::<Seq<int>>::empty() =~= int_lists(aps@));
            }
            return aps;
        }
        start = start + 1;
    }
    aps
}

proof fn none_too_long(n: int, k: int, start: int)
    requires
        k > n >= 1,
        k >= 2,
        start >= 1,
    ensures
        aps_from(n, k, start, 1) == Seq::<Seq<int>>::empty(),
    decreases n + 1 - start,
{
    next_last(start, 1, k);
    if start <= n {
        none_too_long(n, k, start + 1);
    }
}

// Bad progressions

/// The colours of the terms of a progression.
pub open spec fn ap_colors(c: Seq<int>, start: int, step: int, k: int) -> Seq<int> {
    Seq::new(k as nat, |i: int| c[start + i * step - 1])
}

pub open spec fn one_color(s: Seq<int>) -> bool {
    s.len() > 0 && forall|i: int| 0 <= i < s.len() ==> #[trigger] s[i] == s[0]
}

pub open spec fn all_colors_differ(s: Seq<int>) -> bool {
    forall|i: int, j: int| 0 <= i < j < s.len() ==> #[trigger] s[i] != #[trigger] s[j]
}

/// A progression of one colour, or of all different ones.
pub open spec fn bad(c: Seq<int>, start: int, step: int, k: int) -> bool {
    one_color(ap_colors(c, start, step, k)) || all_colors_differ(ap_colors(c, start, step, k))
}

/// No progression of `k` terms is bad.
pub open spec fn good(c: Seq<int>, k: int) -> bool {
    k >= 2 ==> forall|start: int, step: int|
        is_ap(c.len() as int, k, start, step) ==> !#[trigger] bad(c, start, step, k)
}

/// The first bad progression from `start` and `step` on.
pub open spec fn first_bad(c: Seq<int>, k: int, start: int, step: int) -> Option<(int, int)>
    decreases c.len() + 1 - start, c.len() + 1 - step,
{
    let n = c.len() as int;
    if k < 2 || start > n || start < 1 || step < 1 || step > n {
        None
    } else if last_term(start, step, k) <= n {
        if bad(c, start, step, k) {
            Some((start, step))
        } else {
            first_bad(c, k, start, step + 1)
        }
    } else {
        first_bad(c, k, start + 1, 1)
    }
}

proof fn further_last(start: int, step: int, more: int, k: int)
    requires
        k >= 2,
        step <= more,
    ensures
        last_term(start, step, k) <= last_term(start, more, k),
{
    assert((k - 1) * step <= (k - 1) * more) by (nonlinear_arith)
        requires
            k >= 2,
            step <= more,
    ;
}

/// What is found is a bad progression; where nothing is found, none from there
/// on is bad.
pub proof fn first_bad_is_right(c: Seq<int>, k: int, start: int, step: int)
    requires
        k >= 2,
        1 <= start,
        1 <= step,
        step <= c.len() || start > c.len(),
    ensures
        match first_bad(c, k, start, step) {
            Some((s, d)) => is_ap(c.len() as int, k, s, d) && bad(c, s, d, k),
            None => forall|s: int, d: int|
                is_ap(c.len() as int, k, s, d) && (s > start || (s == start && d >= step))
                    ==> !#[trigger] bad(c, s, d, k),
        },
    decreases c.len() + 1 - start, c.len() + 1 - step,
{
    let n = c.len() as int;
    assert forall|s: int, d: int| #[trigger] is_ap(n, k, s, d) implies s < n && d < n by {
        terms_in_range(n, k, s, d);
    }
    if start > n {
    } else if last_term(start, step, k) <= n {
        terms_in_range(n, k, start, step);
        if !bad(c, start, step, k) {
            first_bad_is_right(c, k, start, step + 1);
        }
    } else {
        first_bad_is_right(c, k, start + 1, 1);
        assert forall|s: int, d: int|
            is_ap(n, k, s, d) && (s > start || (s == start && d >= step)) && first_bad(
                c,
                k,
                start,
                step,
            ) is None implies !#[trigger] bad(c, s, d, k) by {
            if s == start {
                further_last(start, step, d, k);
            }
        }
    }
}

/// Nothing bad is found in a colouring exactly where it is good.
pub proof fn good_means_none_bad(c: Seq<int>, k: int)
    requires
        k != 1 || c.len() == 0,
        k >= 0,
    ensures
        good(c, k) == (first_bad(c, k, 1, 1) is None),
{
    if k >= 2 {
        first_bad_is_right(c, k, 1, 1);
    }
}

fn all_equal(values: &Vec<usize>) -> (b: bool)
    ensures
        b == one_color(ints(values@)),
{
    if values.len() == 0 {
        return false;
    }
    let ghost all = ints(values@);
    let mut i: usize = 0;
    while i < values.len()
        invariant
            i <= values.len(),
            values@.len() > 0,
            all == ints(values@),
            forall|j: int| 0 <= j < i ==> #[trigger] all[j] == all[0],
        decreases values.len() - i,
    {
        if values[i] != values[0] {
            assert(all[i as int] != all[0]);
            return false;
        }
        i = i + 1;
    }
    true
}

fn all_distinct(values: &Vec<usize>) -> (b: bool)
    ensures
        b == all_colors_differ(ints(values@)),
{
    let ghost all = ints(values@);
    let mut i: usize = 0;
    while i < values.len()
        invariant
            i <= values.len(),
            all == ints(values@),
            forall|a: int, b: int| 0 <= a < i && a < b < all.len() ==> #[trigger] all[a] != #[trigger] all[b],
        decreases values.len() - i,
    {
        let mut j: usize = i + 1;
        while j < values.len()
            invariant
                i < j <= values.len(),
                all == ints(values@),
                forall|b: int| i < b < j ==> all[i as int] != #[trigger] all[b],
            decreases values.len() - j,
        {
            if values[i] == values[j] {
                assert(all[i as int] == all[j as int]);
                return false;
            }
            j = j + 1;
        }
        i = i + 1;
    }
    true
}

fn colors_of(colors: &Vec<usize>, start: usize, step: usize, k: usize) -> (v: Vec<usize>)
    requires
        k >= 2,
        is_ap(colors@.len() as int, k as int, start as int, step as int),
    ensures
        ints(v@) == ap_colors(ints(colors@), start as int, step as int, k as int),
{
    let terms = terms_of(start, step, k, colors.len());
    let ghost t = ap(start as int, step as int, k as int);
    proof {
        terms_in_range(colors@.len() as int, k as int, start as int, step as int);
        assert(terms@.len() == k) by {
            assert(ints(terms@).len() == t.len());
        }
        assert forall|i: int| 0 <= i < k implies terms@[i] == #[trigger] (start + i * step) by {
            assert(ints(terms@)[i] == t[i]);
        }
    }
    let mut v: Vec<usize> = Vec::new();
    let mut i: usize = 0;
    while i < k
        invariant
            i <= k,
            terms@.len() == k,
            forall|i: int| 0 <= i < k ==> terms@[i] == #[trigger] (start + i * step),
            forall|i: int| 0 <= i < k ==> 1 <= #[trigger] (start + i * step) <= colors@.len(),
            v@.len() == i,
            forall|j: int| 0 <= j < i ==> v@[j] == colors@[#[trigger] (start + j * step) - 1],
        decreases k - i,
    {
        assert(terms@[i as int] == start + i * step);
        v.push(colors[terms[i] - 1]);
        i = i + 1;
    }
    assert(ints(v@) =~= ap_colors(ints(colors@), start as int, step as int, k as int));
    v
}

/// A bad progression with its kind, terms and colours.
pub open spec fn bad_ap_at(r: BadAp, c: Seq<int>, k: int, start: int, step: int) -> bool {
    let s = ap_colors(c, start, step, k);
    &&& ints(r.terms@) == ap(start, step, k)
    &&& ints(r.colors@) == s
    &&& r.kind == (if one_color(s) {
        BadApKind::Monochromatic
    } else {
        BadApKind::Rainbow
    })
}

/// The first bad progression of `k` terms, by start and then by step.
pub fn bad_arithmetic_progression(colors: &Vec<usize>, k: usize) -> (r: Option<BadAp>)
    requires
        colors@.len() == 0 || k != 1,
    ensures
        match first_bad(ints(colors@), k as int, 1, 1) {
            Some((start, step)) => r is Some && bad_ap_at(
                r->Some_0,
                ints(colors@),
                k as int,
                start,
                step,
            ),
            None => r is None,
        },
{
    let n: usize = colors.len();
    let ghost c = ints(colors@);
    if k == 0 || k > n {
        proof {
            if k > n && n > 0 {
                none_bad_too_long(c, k as int, 1);
            }
        }
        return None;
    }
    let ghost total = first_bad(c, k as int, 1, 1);
    let mut start: usize = 1;
    loop
        invariant
            2 <= k <= n,
            1 <= start <= n,
            n == colors@.len(),
            c == ints(colors@),
            total == first_bad(c, k as int, 1, 1),
            first_bad(c, k as int, start as int, 1) == total,
        decreases n + 1 - start,
    {
        let mut step: usize = 1;
        proof {
            next_last(start as int, 1, k as int);
        }
        let mut fits: bool = k - 1 <= n - start;
        let mut last: usize = if fits {
            start + (k - 1)
        } else {
            0
        };
        while fits
            invariant
                2 <= k <= n,
                1 <= start <= n,
                n == colors@.len(),
                c == ints(colors@),
                total == first_bad(c, k as int, 1, 1),
                1 <= step <= n,
                fits ==> last == last_term(start as int, step as int, k as int) && last <= n,
                !fits ==> last_term(start as int, step as int, k as int) > n,
                first_bad(c, k as int, start as int, step as int) == total,
            decreases n + 1 - step, fits as int,
        {
            let v = colors_of(colors, start, step, k);
            let mono = all_equal(&v);
            if mono || all_distinct(&v) {
                return Some(
                    BadAp {
                        kind: if mono {
                            BadApKind::Monochromatic
                        } else {
                            BadApKind::Rainbow
                        },
                        terms: terms_of(start, step, k, n),
                        colors: v,
                    },
                );
            }
            proof {
                terms_in_range(n as int, k as int, start as int, step as int);
                next_last(start as int, step as int, k as int);
            }
            fits = k - 1 <= n - last;
            if fits {
                last = last + (k - 1);
            }
            step = step + 1;
        }
        if start == n {
            assert(first_bad(c, k as int, start + 1, 1) is None);
            return None;
        }
        start = start + 1;
    }
}

proof fn none_bad_too_long(c: Seq<int>, k: int, start: int)
    requires
        k > c.len() >= 1,
        k >= 2,
        start >= 1,
    ensures
        first_bad(c, k, start, 1) is None,
    decreases c.len() + 1 - start,
{
    next_last(start, 1, k);
    if start <= c.len() {
        none_bad_too_long(c, k, start + 1);
    }
}

/// Whether no progression of `k` terms is bad.
pub fn is_good_coloring(colors: &Vec<usize>, k: usize) -> (b: bool)
    requires
        k != 1 || colors@.len() == 0,
    ensures
        b == good(ints(colors@), k as int),
{
    proof {
        good_means_none_bad(ints(colors@), k as int);
    }
    bad_arithmetic_progression(colors, k).is_none()
}

// The search

/// The greatest colour; -1 where there is none.
pub open spec fn max_color(c: Seq<int>) -> int
    decreases c.len(),
{
    if c.len() == 0 {
        -1
    } else if c.last() > max_color(c.drop_last()) {
        c.last()
    } else {
        max_color(c.drop_last())
    }
}

/// How many colours are tried at the next place: one at the first, then all that
/// are allowed, or all that are used and one more.
pub open spec fn tried(c: Seq<int>, max: Option<usize>) -> int {
    if c.len() == 0 {
        1
    } else {
        match max {
            Some(limit) => limit as int,
            None => max_color(c) + 2,
        }
    }
}

/// What a search below a part of a colouring gives: a colouring, the number of
/// places visited, and whether their limit was hit.
pub struct Found {
    pub coloring: Option<Seq<int>>,
    pub nodes: int,
    pub hit: bool,
}

/// The search below `c`.
pub open spec fn visit(c: Seq<int>, n: int, k: int, max: Option<usize>, limit: int, nodes: int) -> Found
    decreases n - c.len(), 1int, 0int,
{
    if nodes >= limit {
        Found { coloring: None, nodes, hit: true }
    } else if c.len() >= n {
        Found { coloring: Some(c), nodes: nodes + 1, hit: false }
    } else {
        try_from(c, 0, n, k, max, limit, nodes + 1)
    }
}

/// The search below `c` with colours from `color` on.
pub open spec fn try_from(
    c: Seq<int>,
    color: int,
    n: int,
    k: int,
    max: Option<usize>,
    limit: int,
    nodes: int,
) -> Found
    decreases n - c.len(), 0int, tried(c, max) - color,
{
    if color >= tried(c, max) || c.len() >= n {
        Found { coloring: None, nodes, hit: false }
    } else if !good(c.push(color), k) {
        try_from(c, color + 1, n, k, max, limit, nodes)
    } else {
        let f = visit(c.push(color), n, k, max, limit, nodes);
        if f.coloring is Some || f.hit {
            f
        } else {
            try_from(c, color + 1, n, k, max, limit, f.nodes)
        }
    }
}

fn dfs_search(
    colors: &mut Vec<usize>,
    max_used: usize,
    n: usize,
    k: usize,
    max_colors: Option<usize>,
    node_limit: usize,
    nodes: &mut usize,
) -> (r: (Option<Vec<usize>>, bool))
    requires
        k != 1,
        old(colors)@.len() <= n,
        old(colors)@.len() > 0 ==> max_used == max_color(ints(old(colors)@)),
        old(colors)@.len() == 0 ==> max_used == 0,
        max_used <= old(colors)@.len() || max_colors is Some,
        max_colors matches Some(limit) ==> limit > 0 && max_used < limit,
        n < usize::MAX,
    ensures
        final(colors)@ == old(colors)@,
        ({
            let f = visit(
                ints(old(colors)@),
                n as int,
                k as int,
                max_colors,
                node_limit as int,
                *old(nodes) as int,
            );
            &&& *final(nodes) == f.nodes
            &&& r.1 == f.hit
            &&& match f.coloring {
                Some(w) => r.0 is Some && ints(r.0->Some_0@) == w,
                None => r.0 is None,
            }
        }),
    decreases n - old(colors)@.len(),
{
    let ghost c = ints(colors@);
    let ghost start = colors@;
    if *nodes >= node_limit {
        return (None, true);
    }
    *nodes = *nodes + 1;
    if colors.len() == n {
        let mut w: Vec<usize> = Vec::new();
        let mut i: usize = 0;
        while i < colors.len()
            invariant
                i <= colors.len(),
                w@ == colors@.take(i as int),
            decreases colors.len() - i,
        {
            w.push(colors[i]);
            i = i + 1;
            assert(colors@.take(i as int) =~= colors@.take(i - 1).push(colors@[i - 1]));
        }
        assert(w@ =~= colors@);
        return (Some(w), false);
    }
    let many: usize = if colors.len() == 0 {
        1
    } else {
        match max_colors {
            Some(limit) => limit,
            None => max_used + 2,
        }
    };
    let ghost whole = visit(
        c,
        n as int,
        k as int,
        max_colors,
        node_limit as int,
        *old(nodes) as int,
    );
    let mut color: usize = 0;
    while color < many
        invariant
            k != 1,
            n < usize::MAX,
            colors@ == start,
            c == ints(start),
            start.len() < n,
            start == old(colors)@,
            many == tried(c, max_colors),
            color <= many,
            start.len() > 0 ==> max_used == max_color(c),
            start.len() == 0 ==> max_used == 0,
            max_used <= start.len() || max_colors is Some,
            max_colors matches Some(limit) ==> limit > 0 && max_used < limit,
            max_colors is None ==> many <= n + 2,
            whole == visit(
                c,
                n as int,
                k as int,
                max_colors,
                node_limit as int,
                *old(nodes) as int,
            ),
            whole == try_from(
                c,
                color as int,
                n as int,
                k as int,
                max_colors,
                node_limit as int,
                *nodes as int,
            ),
        decreases many - color,
    {
        colors.push(color);
        let next: usize = if color > max_used {
            color
        } else {
            max_used
        };
        proof {
            assert(ints(colors@) =~= c.push(color as int));
            assert(c.push(color as int).drop_last() =~= c);
            assert(start.push(color).drop_last() =~= start);
            assert(c.push(color as int).last() == color);
            assert(c.len() == start.len());
            assert(max_color(Seq::<int>::empty()) == -1);
            if start.len() == 0 {
                assert(c =~= Seq::<int>::empty());
            }
            assert(max_color(c.push(color as int)) == next);
        }
        if is_good_coloring(colors, k) {
            let ghost before = *nodes;
            let (found, hit) = dfs_search(colors, next, n, k, max_colors, node_limit, nodes);
            if found.is_some() || hit {
                let _ = colors.pop();
                assert(colors@ =~= start);
                return (found, hit);
            }
        }
        let _ = colors.pop();
        assert(colors@ =~= start);
        color = color + 1;
    }
    (None, false)
}

/// What a search gives.
pub open spec fn search(n: int, k: int, max: Option<usize>, limit: int) -> (SearchStatus, Found) {
    let nothing = Found { coloring: None, nodes: 0, hit: false };
    if k == 0 || n == 0 || limit == 0 {
        (SearchStatus::Inconclusive, nothing)
    } else if max == Some(0usize) {
        (SearchStatus::Unsat, nothing)
    } else {
        let f = visit(Seq::empty(), n, k, max, limit, 0);
        (
            if f.coloring is Some {
                SearchStatus::Exists
            } else if f.hit {
                SearchStatus::Inconclusive
            } else {
                SearchStatus::Unsat
            },
            f,
        )
    }
}

/// Searches for a colouring of `1..=n` without bad progressions of `k` terms,
/// visiting at most `node_limit` places.
pub fn search_good_coloring(
    n: usize,
    k: usize,
    max_colors: Option<usize>,
    node_limit: usize,
) -> (r: ColoringSearchResult)
    requires
        k == 0 || n == 0 || node_limit == 0 || max_colors == Some(0usize) || (k != 1 && n
            < usize::MAX),
    ensures
        ({
            let (status, f) = search(n as int, k as int, max_colors, node_limit as int);
            &&& r.status == status
            &&& r.nodes == f.nodes
            &&& match f.coloring {
                Some(w) => r.coloring is Some && ints(r.coloring->Some_0@) == w,
                None => r.coloring is None,
            }
        }),
        r.n == n,
        r.k == k,
        r.max_colors == max_colors,
        r.node_limit == node_limit,
{
    if k == 0 || n == 0 || node_limit == 0 {
        return ColoringSearchResult {
            status: SearchStatus::Inconclusive,
            n,
            k,
            max_colors,
            nodes: 0,
            node_limit,
            coloring: None,
        };
    }
    if let Some(0) = max_colors {
        return ColoringSearchResult {
            status: SearchStatus::Unsat,
            n,
            k,
            max_colors,
            nodes: 0,
            node_limit,
            coloring: None,
        };
    }
    let mut colors: Vec<usize> = Vec::new();
    assert(ints(colors@) =~= Seq::<int>::empty());
    let mut nodes: usize = 0;
    let (coloring, hit_limit) = dfs_search(
        &mut colors,
        0,
        n,
        k,
        max_colors,
        node_limit,
        &mut nodes,
    );
    let status = if coloring.is_some() {
        SearchStatus::Exists
    } else if hit_limit {
        SearchStatus::Inconclusive
    } else {
        SearchStatus::Unsat
    };
    ColoringSearchResult { status, n, k, max_colors, nodes, node_limit, coloring }
}

} // verus!
