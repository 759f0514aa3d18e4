//! What the coordinates of a context say of its values.

use crate::call_laws::{all_finite, values_in_order};
use crate::feature_schema::{Aggregation, Coord, FeatureSpec, FeatureType, FeatureValue, MINUS_INFINITY, PLUS_INFINITY, TimeSeriesWindow, aggregated, all_coords, bottom, encode_fault, encoded_value, feature_coords, place_in, pushed, top};
use crate::number::{HIDDEN, ONE, Real, SIGN};
use crate::values::texts;
use vstd::prelude::*;

verus! {

/// The greatest of finite values is one of them, and none is above it.
pub proof fn the_top_is_the_greatest(s: Seq<Real>)
    requires
        s.len() > 0,
        all_finite(s),
    ensures
        s.contains(top(s)),
        forall|i: int| 0 <= i < s.len() ==> !top(s).below(#[trigger] s[i]),
    decreases s.len(),
{
    let front = s.drop_last();
    let last = s[s.len() - 1];
    assert(last.spec_is_finite());
    if front.len() > 0 {
        assert forall|i: int| 0 <= i < front.len() implies (
        #[trigger] front[i]).spec_is_finite() by {
            assert(front[i] == s[i]);
        }
        the_top_is_the_greatest(front);
        let k = choose|k: int| 0 <= k < front.len() && front[k] == top(front);
        assert(s[k] == top(front));
        assert(s[k].spec_is_finite());
        assert forall|i: int| 0 <= i < s.len() implies !top(s).below(#[trigger] s[i]) by {
            if i < front.len() {
                assert(front[i] == s[i]);
                assert(!top(front).below(front[i]));
                assert(s[i].spec_is_finite());
            }
        }
    } else {
        assert(front =~= Seq::<Real>::empty());
        assert(top(front) == (Real { bits: MINUS_INFINITY }));
        ends_are_outside(last);
    }
    assert(s[s.len() - 1] == last);
}

/// The least of finite values is one of them, and none is below it.
pub proof fn the_bottom_is_the_least(s: Seq<Real>)
    requires
        s.len() > 0,
        all_finite(s),
    ensures
        s.contains(bottom(s)),
        forall|i: int| 0 <= i < s.len() ==> !(#[trigger] s[i]).below(bottom(s)),
    decreases s.len(),
{
    let front = s.drop_last();
    let last = s[s.len() - 1];
    assert(last.spec_is_finite());
    if front.len() > 0 {
        assert forall|i: int| 0 <= i < front.len() implies (
        #[trigger] front[i]).spec_is_finite() by {
            assert(front[i] == s[i]);
        }
        the_bottom_is_the_least(front);
        let k = choose|k: int| 0 <= k < front.len() && front[k] == bottom(front);
        assert(s[k] == bottom(front));
        assert(s[k].spec_is_finite());
        assert forall|i: int| 0 <= i < s.len() implies !(#[trigger] s[i]).below(bottom(s)) by {
            if i < front.len() {
                assert(front[i] == s[i]);
                assert(!front[i].below(bottom(front)));
                assert(s[i].spec_is_finite());
            }
        }
    } else {
        assert(front =~= Seq::<Real>::empty());
        assert(bottom(front) == (Real { bits: PLUS_INFINITY }));
        ends_are_outside(last);
    }
    assert(s[s.len() - 1] == last);
}

proof fn ends_are_outside(r: Real)
    requires
        r.spec_is_finite(),
    ensures
        (Real { bits: MINUS_INFINITY }).below(r),
        r.below(Real { bits: PLUS_INFINITY }),
        !(Real { bits: MINUS_INFINITY }).spec_is_nan(),
        !(Real { bits: PLUS_INFINITY }).spec_is_nan(),
{
    let b = r.bits;
    assert((b / HIDDEN) % 0x800 != 0x7FF);
    if b >= SIGN {
        assert(b - SIGN < 0x7FF0_0000_0000_0000) by {
            assert(b >= 0xFFF0_0000_0000_0000u64 ==> (b / 0x10_0000_0000_0000u64) % 0x800u64
                == 0x7FFu64) by (bit_vector);
        }
    } else {
        assert(b < 0x7FF0_0000_0000_0000) by {
            assert(b >= 0x7FF0_0000_0000_0000u64 && b < 0x8000_0000_0000_0000u64 ==> (b
                / 0x10_0000_0000_0000u64) % 0x800u64 == 0x7FFu64) by (bit_vector);
        }
    }
}

/// What is taken of a window: its greatest or least value, the mean or the slope of
/// its values in their order, or a percentile of the same values in growing order.
/// An empty window counts as zero.
pub proof fn windows_are_summed_up(s: Seq<Real>)
    requires
        all_finite(s),
    ensures
        s.len() == 0 ==> forall|a: Aggregation| #[trigger]
            aggregated(s, a) == Coord::Given(Real { bits: 0 }),
        s.len() > 0 ==> {
            &&& aggregated(s, Aggregation::Mean) == Coord::Mean(s)
            &&& aggregated(s, Aggregation::Max) matches Coord::Given(x) && s.contains(x)
                && forall|i: int| 0 <= i < s.len() ==> !x.below(#[trigger] s[i])
            &&& aggregated(s, Aggregation::Min) matches Coord::Given(x) && s.contains(x)
                && forall|i: int| 0 <= i < s.len() ==> !(#[trigger] s[i]).below(x)
        },
        s.len() == 1 ==> aggregated(s, Aggregation::P50) == Coord::Given(s[0])
            && aggregated(s, Aggregation::P95) == Coord::Given(s[0]) && aggregated(
            s,
            Aggregation::Slope,
        ) == Coord::Given(Real { bits: 0 }),
        s.len() > 1 ==> aggregated(s, Aggregation::Slope) == Coord::Slope(s),
        s.len() > 1 ==> aggregated(s, Aggregation::P50) is Percentile && aggregated(
            s,
            Aggregation::P50,
        )->Percentile_1 == 50,
        s.len() > 1 ==> aggregated(s, Aggregation::P95) is Percentile && aggregated(
            s,
            Aggregation::P95,
        )->Percentile_1 == 95,
        s.len() > 1 ==> {
            let p = aggregated(s, Aggregation::P50)->Percentile_0;
            &&& p == aggregated(s, Aggregation::P95)->Percentile_0
            &&& p.to_multiset() == s.to_multiset()
            &&& forall|i: int, j: int|
                0 <= i <= j < p.len() ==> (#[trigger] p[i]).at_most(#[trigger] p[j])
        },
{
    values_in_order(s);
    if s.len() > 0 {
        the_top_is_the_greatest(s);
        the_bottom_is_the_least(s);
    }
}

/// A window takes the new value last and lets the oldest go where it is full.
pub proof fn windows_let_the_oldest_go(s: Seq<Real>, max: int, v: Real)
    requires
        max > 0,
        s.len() <= max,
    ensures
        pushed(s, max, v).last() == v,
        s.len() < max ==> pushed(s, max, v).drop_last() == s,
        s.len() == max ==> pushed(s, max, v).drop_last() == s.drop_first(),
{
    assert(pushed(s, max, v).drop_last() =~= (if s.len() < max {
        s
    } else {
        s.drop_first()
    }));
}

/// A category has a coordinate for each declared value but the first: one at its
/// own, zero elsewhere, so the first value has zeros alone.
pub proof fn categories_mark_their_own_place(spec: FeatureSpec, c: String, i: int)
    requires
        spec.feature_type is Categorical,
        ({
            let all = texts(spec.feature_type->Categorical_values@);
            &&& all.contains(c@)
            &&& 0 <= i < all.len() - 1
            &&& forall|j: int, k: int|
                0 <= j < k < all.len() ==> #[trigger] all[j] != #[trigger] all[k]
        }),
    ensures
        ({
            let all = texts(spec.feature_type->Categorical_values@);
            let e = encoded_value(spec, FeatureValue::Category(c));
            &&& e.len() == all.len() - 1
            &&& all[i + 1] == c@ ==> e[i] == Coord::Given(Real { bits: ONE })
            &&& all[i + 1] != c@ ==> e[i] == Coord::Given(Real { bits: 0 })
        }),
{
    let all = texts(spec.feature_type->Categorical_values@);
    place_is_first(all, c@, 0);
    let p = place_in(all, c@, 0);
    if all[i + 1] == c@ && p != i + 1 {
        if p < i + 1 {
            assert(all[p] != all[i + 1]);
        } else {
            assert(all[i + 1] != all[p]);
        }
    }
}

proof fn place_is_first(s: Seq<Seq<char>>, c: Seq<char>, i: int)
    requires
        0 <= i <= s.len(),
        exists|k: int| i <= k < s.len() && s[k] == c,
    ensures
        i <= place_in(s, c, i) < s.len(),
        s[place_in(s, c, i)] == c,
    decreases s.len() - i,
{
    let k = choose|k: int| i <= k < s.len() && s[k] == c;
    if s[i] != c {
        assert(i + 1 <= k < s.len() && s[k] == c);
        place_is_first(s, c, i + 1);
    }
}

/// A number with a range is scaled by it, one without stands as it is, and one on a
/// circle has its sine and then its cosine.
pub proof fn numbers_are_encoded(spec: FeatureSpec, n: Real)
    ensures
        spec.feature_type matches FeatureType::Continuous { range: None } ==> encoded_value(
            spec,
            FeatureValue::Number(n),
        ) == seq![Coord::Given(n)],
        spec.feature_type matches FeatureType::Continuous { range: Some(r) } ==> encoded_value(
            spec,
            FeatureValue::Number(n),
        ) == seq![Coord::Scaled { n, min: r@[0], max: r@[1] }],
        spec.feature_type matches FeatureType::Cyclic { period } ==> encoded_value(
            spec,
            FeatureValue::Number(n),
        ) == seq![Coord::Sine { n, period }, Coord::Cosine { n, period }],
{
}

/// Values that cannot be encoded are refused: numbers in a range of hardly any
/// width, categories that are not declared, circles without a period, and values of
/// the wrong kind; all others are taken.
pub proof fn unfit_values_are_refused(spec: FeatureSpec, value: FeatureValue, span: Real)
    ensures
        encode_fault(spec, value, span) is None <==> match (spec.feature_type, value) {
            (FeatureType::Continuous { range }, FeatureValue::Number(_)) => range is None
                || !span.spec_abs().below(Real { bits: 0x3D71_9799_812D_EA11 }),
            (FeatureType::Categorical { values }, FeatureValue::Category(c)) => texts(
                values@,
            ).contains(c@),
            (FeatureType::Cyclic { period }, FeatureValue::Number(_)) => !period.at_most(
                Real { bits: 0 },
            ),
            _ => false,
        },
{
}

/// Features are encoded one behind the other, in their order; a feature without a
/// value is refused.
pub proof fn features_are_encoded_in_order(
    s: Seq<FeatureSpec>,
    f: FeatureSpec,
    spans: Seq<Real>,
    values: Map<Seq<char>, FeatureValue>,
    windows: Map<Seq<char>, TimeSeriesWindow>,
)
    requires
        spans.len() == s.len() + 1,
    ensures
        all_coords(s.push(f), spans, values, windows) is Ok <==> all_coords(
            s,
            spans,
            values,
            windows,
        ) is Ok && feature_coords(f, spans.last(), values, windows) is Ok,
        all_coords(s.push(f), spans, values, windows) is Ok ==> all_coords(
            s.push(f),
            spans,
            values,
            windows,
        )->Ok_0 == all_coords(s, spans, values, windows)->Ok_0 + feature_coords(
            f,
            spans.last(),
            values,
            windows,
        )->Ok_0,
        !(f.feature_type is TimeSeries) && !values.contains_key(f.name@) ==> feature_coords(
            f,
            spans.last(),
            values,
            windows,
        ) is Err,
{
    assert(s.push(f).drop_last() =~= s);
}

} // verus!
