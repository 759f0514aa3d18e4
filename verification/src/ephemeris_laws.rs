//! What answers for a time, and how tables of states are read.

use crate::ephemeris::{Pick, Read, StateRow, covered, first_around, first_near, is_content, is_letter, is_rows, line_reads, near, picked, settled};
use crate::number::Real;
use crate::parse::trimmed;
use crate::sorting::{ascending, by_key, no_nan, sorting_orders};
use crate::strings::words;
use vstd::prelude::*;

verus! {

proof fn near_is_first(s: Seq<Real>, i: int)
    requires
        0 <= i <= s.len(),
    ensures
        i <= first_near(s, i) <= s.len(),
        first_near(s, i) < s.len() ==> near(s[first_near(s, i)]),
        forall|k: int| i <= k < first_near(s, i) ==> !near(#[trigger] s[k]),
    decreases s.len() - i,
{
    if i < s.len() && !near(s[i]) {
        near_is_first(s, i + 1);
    }
}

proof fn around_is_first(rows: Seq<StateRow>, et: Real, i: int)
    requires
        0 <= i < rows.len(),
    ensures
        ({
            let p = first_around(rows, et, i);
            &&& i <= p <= rows.len()
            &&& p < rows.len() ==> p + 1 < rows.len() && rows[p].0.at_most(et) && et.at_most(
                rows[p + 1].0,
            )
            &&& forall|k: int|
                i <= k < p && k + 1 < rows.len() ==> !((#[trigger] rows[k]).0.at_most(et)
                    && et.at_most(rows[k + 1].0))
        }),
    decreases rows.len() - i,
{
    if i + 1 < rows.len() && !(rows[i].0.at_most(et) && et.at_most(rows[i + 1].0)) {
        around_is_first(rows, et, i + 1);
    }
}

/// The first row whose time is less than a billionth away answers. Where there is
/// none, the time lies between the row that answers and the next; where there is no
/// such pair either, nothing answers.
pub proof fn the_first_near_row_answers(rows: Seq<StateRow>, gaps: Seq<Real>, et: Real)
    requires
        rows.len() > 0,
        gaps.len() == rows.len(),
        rows.len() <= usize::MAX,
    ensures
        match picked(rows, gaps, et) {
            Pick::Row(i) => {
                &&& i < rows.len()
                &&& gaps[i as int].spec_abs().below(Real { bits: 0x3E11_2E0B_E826_D695 })
                &&& forall|k: int|
                    0 <= k < i ==> !(#[trigger] gaps[k]).spec_abs().below(
                        Real { bits: 0x3E11_2E0B_E826_D695 },
                    )
            },
            Pick::Between(i) => {
                &&& i + 1 < rows.len()
                &&& rows[i as int].0.at_most(et) && et.at_most(rows[i + 1].0)
                &&& forall|k: int|
                    0 <= k < gaps.len() ==> !(#[trigger] gaps[k]).spec_abs().below(
                        Real { bits: 0x3E11_2E0B_E826_D695 },
                    )
            },
            Pick::Lost => forall|k: int|
                0 <= k < rows.len() - 1 ==> !((#[trigger] rows[k]).0.at_most(et) && et.at_most(
                    rows[k + 1].0,
                )),
        },
{
    near_is_first(gaps, 0);
    around_is_first(rows, et, 0);
}

/// A time is covered where it is neither before the first row nor behind the last;
/// in rows that are put in order, exactly where some row is not behind it and some
/// row not before it.
pub proof fn ordered_rows_cover_their_span(rows: Seq<StateRow>, et: Real)
    requires
        no_nan(rows),
        rows.len() > 0,
        !et.spec_is_nan(),
    ensures
        ascending(by_key(rows)),
        by_key(rows).to_multiset() == rows.to_multiset(),
        covered(by_key(rows), et) <==> (exists|i: int|
            0 <= i < rows.len() && !et.below((#[trigger] by_key(rows)[i]).0)) && (exists|i: int|
            0 <= i < rows.len() && !(#[trigger] by_key(rows)[i]).0.below(et)),
{
    sorting_orders(rows);
    let s = by_key(rows);
    let n = s.len() as int;
    assert(!s[0].0.spec_is_nan() && !s[n - 1].0.spec_is_nan());
    if exists|i: int| 0 <= i < n && !et.below((#[trigger] s[i]).0) {
        let i = choose|i: int| 0 <= i < n && !et.below((#[trigger] s[i]).0);
        if i > 0 {
            assert(!s[i].0.below(s[0].0));
            assert(!s[i].0.spec_is_nan());
        }
    }
    if exists|i: int| 0 <= i < n && !(#[trigger] s[i]).0.below(et) {
        let i = choose|i: int| 0 <= i < n && !(#[trigger] s[i]).0.below(et);
        if i < n - 1 {
            assert(!s[n - 1].0.below(s[i].0));
            assert(!s[i].0.spec_is_nan());
        }
    }
}

/// The numbers of a table are settled where every one could be read and none is
/// infinite that may not be; they then stand in their order.
pub proof fn numbers_are_settled_in_order(
    s: Seq<Read>,
    parsed: Seq<Result<Real, Seq<char>>>,
    with_cause: bool,
)
    requires
        parsed.len() == s.len(),
    ensures
        settled(s, parsed, with_cause) is Ok <==> forall|i: int|
            0 <= i < s.len() ==> (#[trigger] s[i]) is Number && parsed[i] is Ok && (
            s[i]->infinite is None || parsed[i]->Ok_0.spec_is_finite()),
        settled(s, parsed, with_cause) is Ok ==> settled(s, parsed, with_cause)->Ok_0.len()
            == s.len() && forall|i: int|
            0 <= i < s.len() ==> #[trigger] settled(s, parsed, with_cause)->Ok_0[i]
                == parsed[i]->Ok_0,
{
    prefix_is_settled(s, parsed, with_cause);
}

proof fn prefix_is_settled(
    s: Seq<Read>,
    parsed: Seq<Result<Real, Seq<char>>>,
    with_cause: bool,
)
    requires
        parsed.len() >= s.len(),
    ensures
        settled(s, parsed, with_cause) is Ok <==> forall|i: int|
            0 <= i < s.len() ==> (#[trigger] s[i]) is Number && parsed[i] is Ok && (
            s[i]->infinite is None || parsed[i]->Ok_0.spec_is_finite()),
        settled(s, parsed, with_cause) is Ok ==> settled(s, parsed, with_cause)->Ok_0.len()
            == s.len() && forall|i: int|
            0 <= i < s.len() ==> #[trigger] settled(s, parsed, with_cause)->Ok_0[i]
                == parsed[i]->Ok_0,
    decreases s.len(),
{
    if s.len() > 0 {
        let front = s.drop_last();
        prefix_is_settled(front, parsed, with_cause);
        let last = s[s.len() - 1];
        assert(last == s.last());
        if settled(front, parsed, with_cause) is Ok {
            assert forall|i: int| 0 <= i < s.len() - 1 implies (#[trigger] s[i]) is Number
                && parsed[i] is Ok && (s[i]->infinite is None
                || parsed[i]->Ok_0.spec_is_finite()) by {
                assert(front[i] == s[i]);
            }
        } else {
            let i = choose|i: int|
                0 <= i < front.len() && !((#[trigger] front[i]) is Number && parsed[i] is Ok && (
                front[i]->infinite is None || parsed[i]->Ok_0.spec_is_finite()));
            assert(s[i] == front[i]);
        }
    }
}

/// A row of a table has seven numbers; empty lines, comments and lines that begin
/// with a letter have none, and any other line is at fault.
pub proof fn rows_have_seven_numbers(line: Seq<char>, no: int, path: Seq<char>)
    ensures
        ({
            let r = line_reads(line, no, path);
            let w = words(trimmed(line));
            &&& !is_content(line) ==> r.len() == 0
            &&& r.len() == 0 || r.len() == 1 && r[0] is Fault || r.len() == 7 && forall|i: int|
                0 <= i < 7 ==> (#[trigger] r[i]) is Number && r[i]->token == w[i]
                    && r[i]->infinite is Some
            &&& is_content(line) && w.len() == 7 && w[0].len() > 0 && !is_letter(w[0][0]) ==> r.len()
                == 7
            &&& is_content(line) && w.len() > 0 && w.len() != 7 && w[0].len() > 0 && !is_letter(
                w[0][0],
            ) ==> r.len() == 1
        }),
{
    reveal_strlit("BODY");
    let w = words(trimmed(line));
    if w.len() > 0 && w[0] == "BODY"@ {
        assert(w[0][0] == 'B');
    }
}

/// A row's numbers are a time and the six of a state behind it.
pub proof fn states_are_cut_out_in_order(rows: Seq<StateRow>, flat: Seq<Real>, k: int, j: int)
    requires
        is_rows(rows, flat),
        0 <= k < rows.len(),
        0 <= j < 6,
    ensures
        rows.len() * 7 <= flat.len() < rows.len() * 7 + 7,
        rows[k].0 == flat[7 * k],
        rows[k].1@[j] == flat[7 * k + 1 + j],
{
    assert(rows[k].1@ == flat.subrange(7 * k + 1, 7 * k + 7));
}

} // verus!
