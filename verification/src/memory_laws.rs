//! A capsule's memory survives being written and read.
use crate::capsule_memory::{CapsuleMemory, DetectorView, MemoryParts, MemoryView, OodParts, StrategyMemory, StrategyRounded, StrategyView, adwin_round_trip, bandit_js, bandit_of, bucket_fields, bucket_map, buckets_of, candidate_fields, detector_fields, detector_map, detector_view, detectors_of, filled_records, key_candidate, memory_js, memory_of, named_candidate, named_records, opt_js, or_null, record_js, series_fields, strategies_of, strategy_fields, strategy_js, strategy_map, strategy_of, window_map, windows_of};
use crate::change_detection::AdwinDetector;
use crate::feature_schema::{TimeSeriesWindow, series_round_trip, size_of_u64};
use crate::json::{Js, Json, field_behind, js, natural_js, real_js};
use crate::learning_memory::{BucketView, ContextBucket, bucket_round_trip, bucket_valid};
use crate::learning_stats::Rounded;
use crate::meta_bandit::{BanditView, CandidateRecord, names_are_found, record_of};
use crate::number::Real;
use crate::parse::{all_digits, digits_value, is_digit, natural};
use crate::table::entries_map;
use crate::text::{dec_nat, digit_char};
use vstd::prelude::*;

verus! {

proof fn digits_are_read(n: nat)
    ensures
        dec_nat(n).len() > 0,
        all_digits(dec_nat(n)),
        digits_value(dec_nat(n)) == n,
    decreases n,
{
    reveal_with_fuel(digits_value, 2);
    if n >= 10 {
        digits_are_read(n / 10);
        let s = dec_nat(n);
        assert(s.drop_last() =~= dec_nat(n / 10));
        assert(s.last() == digit_char((n % 10) as int));
        assert forall|i: int| 0 <= i < s.len() implies is_digit(#[trigger] s[i]) by {
            if i < s.len() - 1 {
                assert(s[i] == dec_nat(n / 10)[i]);
            }
        }
    } else {
        assert(dec_nat(n).drop_last() =~= Seq::<char>::empty());
    }
}

/// A natural number that is written in decimal is read back.
pub proof fn naturals_round_trip(n: nat)
    ensures
        natural(dec_nat(n)) == Some(n as int),
{
    digits_are_read(n);
    assert(is_digit(dec_nat(n)[0]));
}

// Portfolios

/// Finite numbers, and no candidate twice.
pub open spec fn bandit_valid(m: BanditView) -> bool {
    &&& m.candidates.len() > 0
    &&& forall|i: int|
        0 <= i < m.candidates.len() ==> (#[trigger] m.candidates[i]).trials.spec_is_finite()
            && m.candidates[i].cumulative_reward.spec_is_finite()
    &&& forall|i: int, j: int|
        0 <= i < j < m.candidates.len() ==> (#[trigger] m.candidates[i]).id != (
        #[trigger] m.candidates[j]).id
    &&& m.exploration_decay.spec_is_finite()
    &&& m.min_exploration.spec_is_finite()
    &&& m.forgetting_factor.spec_is_finite()
}

proof fn record_fields(c: CandidateRecord)
    requires
        c.trials.spec_is_finite(),
        c.cumulative_reward.spec_is_finite(),
    ensures
        named_candidate(record_js(c)) == Some(c.id),
        record_js(c).real_or("trials"@, Real { bits: 0 }) == c.trials,
        record_js(c).real_or("cumulativeReward"@, Real { bits: 0 }) == c.cumulative_reward,
{
    broadcast use field_behind;

    reveal_strlit("id");
    reveal_strlit("trials");
    reveal_strlit("cumulativeReward");
    assert("id"@.len() == 2);
    assert("trials"@.len() == 6);
    assert("cumulativeReward"@.len() == 16);
    let j = record_js(c);
    assert(j.get("id"@) == Some(Js::Str(c.id.word())));
    assert(j.get("trials"@) == Some(real_js(c.trials)));
    assert(j.get("cumulativeReward"@) == Some(real_js(c.cumulative_reward)));
    names_are_found(c.id);
}

pub open spec fn record_list(c: Seq<CandidateRecord>) -> Seq<Js> {
    c.map_values(|c: CandidateRecord| record_js(c))
}

proof fn names_are_read(c: Seq<CandidateRecord>)
    requires
        forall|i: int|
            0 <= i < c.len() ==> (#[trigger] c[i]).trials.spec_is_finite()
                && c[i].cumulative_reward.spec_is_finite(),
    ensures
        named_records(record_list(c)) == c.map_values(
            |c: CandidateRecord| CandidateRecord::fresh(c.id),
        ),
    decreases c.len(),
{
    let goal = c.map_values(|c: CandidateRecord| CandidateRecord::fresh(c.id));
    if c.len() > 0 {
        let front = c.drop_last();
        assert forall|i: int| 0 <= i < front.len() implies (
        #[trigger] front[i]).trials.spec_is_finite()
            && front[i].cumulative_reward.spec_is_finite() by {
            assert(front[i] == c[i]);
        }
        names_are_read(front);
        assert(c[c.len() - 1].trials.spec_is_finite());
        record_fields(c.last());
        assert(record_list(c).drop_last() =~= record_list(front));
        assert(goal =~= front.map_values(
            |c: CandidateRecord| CandidateRecord::fresh(c.id),
        ).push(CandidateRecord::fresh(c.last().id)));
    } else {
        assert(goal =~= Seq::<CandidateRecord>::empty());
    }
}

proof fn record_is_found(c: Seq<CandidateRecord>, at: int, from: int)
    requires
        0 <= from <= at < c.len(),
        forall|i: int| from <= i < at ==> (#[trigger] c[i]).id != c[at].id,
    ensures
        record_of(c, c[at].id, from) == at,
    decreases at - from,
{
    if from < at {
        record_is_found(c, at, from + 1);
    }
}

/// The records of the first `n` filled, and those behind them fresh.
pub open spec fn half_filled(c: Seq<CandidateRecord>, n: int) -> Seq<CandidateRecord> {
    Seq::new(
        c.len(),
        |i: int|
            if i < n {
                c[i]
            } else {
                CandidateRecord::fresh(c[i].id)
            },
    )
}

proof fn records_are_filled(c: Seq<CandidateRecord>, n: int)
    requires
        0 <= n <= c.len(),
        forall|i: int|
            0 <= i < c.len() ==> (#[trigger] c[i]).trials.spec_is_finite()
                && c[i].cumulative_reward.spec_is_finite(),
        forall|i: int, j: int|
            0 <= i < j < c.len() ==> (#[trigger] c[i]).id != (#[trigger] c[j]).id,
    ensures
        filled_records(record_list(c).take(n), half_filled(c, 0)) == half_filled(c, n),
    decreases n,
{
    let all = record_list(c);
    if n > 0 {
        records_are_filled(c, n - 1);
        assert(all.take(n).drop_last() =~= all.take(n - 1));
        assert(all.take(n).last() == record_js(c[n - 1]));
        record_fields(c[n - 1]);
        let before = half_filled(c, n - 1);
        assert(before[n - 1].id == c[n - 1].id);
        assert forall|i: int| 0 <= i < n - 1 implies (#[trigger] before[i]).id != before[n
            - 1].id by {
            assert(c[i].id != c[n - 1].id);
        }
        record_is_found(before, n - 1, 0);
        assert(before.update(n - 1, c[n - 1]) =~= half_filled(c, n));
    } else {
        assert(all.take(0) =~= Seq::<Js>::empty());
    }
}

/// A valid portfolio that is written as JSON is read back unchanged.
pub proof fn bandit_round_trip(m: BanditView)
    requires
        bandit_valid(m),
    ensures
        bandit_of(bandit_js(m)) == Some(m),
{
    broadcast use field_behind;

    reveal_strlit("candidates");
    reveal_strlit("totalRounds");
    reveal_strlit("explorationDecay");
    reveal_strlit("minExploration");
    reveal_strlit("forgettingFactor");
    assert("candidates"@.len() == 10);
    assert("totalRounds"@.len() == 11);
    assert("explorationDecay"@.len() == 16);
    assert("minExploration"@.len() == 14);
    assert("forgettingFactor"@.len() == 16);
    assert("explorationDecay"@[0] != "forgettingFactor"@[0]);
    let j = bandit_js(m);
    let c = m.candidates;
    assert(j.get("candidates"@) == Some(Js::Arr(record_list(c))));
    assert(j.get("totalRounds"@) == Some(natural_js(m.total_rounds)));
    assert(j.get("explorationDecay"@) == Some(real_js(m.exploration_decay)));
    assert(j.get("minExploration"@) == Some(real_js(m.min_exploration)));
    assert(j.get("forgettingFactor"@) == Some(real_js(m.forgetting_factor)));
    names_are_read(c);
    assert(named_records(record_list(c)) =~= half_filled(c, 0));
    records_are_filled(c, c.len() as int);
    assert(record_list(c).take(c.len() as int) =~= record_list(c));
    assert(half_filled(c, c.len() as int) =~= c);
}

// Tables

/// Every bucket is valid with its numbers for display.
pub open spec fn buckets_valid(s: Seq<(String, ContextBucket)>, r: Seq<Vec<Rounded>>) -> bool {
    &&& r.len() == s.len()
    &&& forall|i: int| 0 <= i < s.len() ==> bucket_valid((#[trigger] s[i]).1, r[i]@)
}

proof fn buckets_are_read(s: Seq<(String, ContextBucket)>, r: Seq<Vec<Rounded>>, n: int)
    requires
        0 <= n <= s.len(),
        buckets_valid(s, r),
    ensures
        buckets_of(bucket_fields(s, r, n)) == bucket_map(entries_map(s.take(n))),
    decreases n,
{
    if n > 0 {
        buckets_are_read(s, r, n - 1);
        let f = bucket_fields(s, r, n);
        assert(f.drop_last() =~= bucket_fields(s, r, n - 1));
        assert(bucket_valid(s[n - 1].1, r[n - 1]@));
        bucket_round_trip(s[n - 1].1, r[n - 1]@);
        assert(s.take(n).drop_last() =~= s.take(n - 1));
        assert(bucket_map(entries_map(s.take(n))) =~= bucket_map(entries_map(s.take(n - 1))).insert(
            s[n - 1].0@,
            s[n - 1].1.seen(),
        ));
    } else {
        assert(bucket_map(entries_map(s.take(0))) =~= Map::<Seq<char>, BucketView>::empty());
    }
}

/// Every key begins with a candidate.
pub open spec fn keys_name_candidates(s: Seq<(String, ContextBucket)>) -> bool {
    forall|i: int| 0 <= i < s.len() ==> key_candidate((#[trigger] s[i]).0@) is Some
}

proof fn candidates_are_read(s: Seq<(String, ContextBucket)>, r: Seq<Vec<Rounded>>, n: int)
    requires
        0 <= n <= s.len(),
        buckets_valid(s, r),
        keys_name_candidates(s),
    ensures
        candidate_fields(bucket_fields(s, r, n)) == bucket_map(entries_map(s.take(n))),
    decreases n,
{
    if n > 0 {
        candidates_are_read(s, r, n - 1);
        let f = bucket_fields(s, r, n);
        assert(f.drop_last() =~= bucket_fields(s, r, n - 1));
        assert(bucket_valid(s[n - 1].1, r[n - 1]@));
        assert(key_candidate(s[n - 1].0@) is Some);
        bucket_round_trip(s[n - 1].1, r[n - 1]@);
        assert(s.take(n).drop_last() =~= s.take(n - 1));
        assert(bucket_map(entries_map(s.take(n))) =~= bucket_map(entries_map(s.take(n - 1))).insert(
            s[n - 1].0@,
            s[n - 1].1.seen(),
        ));
    } else {
        assert(bucket_map(entries_map(s.take(0))) =~= Map::<Seq<char>, BucketView>::empty());
    }
}

/// Finite numbers.
pub open spec fn detector_valid(d: DetectorView) -> bool {
    &&& d.delta.spec_is_finite()
    &&& forall|i: int| 0 <= i < d.window.len() ==> (#[trigger] d.window[i]).spec_is_finite()
}

proof fn detectors_are_read(s: Seq<(String, AdwinDetector)>, n: int)
    requires
        0 <= n <= s.len(),
        forall|i: int| 0 <= i < s.len() ==> detector_valid(detector_view((#[trigger] s[i]).1)),
    ensures
        detectors_of(detector_fields(s, n)) == detector_map(entries_map(s.take(n))),
    decreases n,
{
    if n > 0 {
        detectors_are_read(s, n - 1);
        let f = detector_fields(s, n);
        assert(f.drop_last() =~= detector_fields(s, n - 1));
        assert(detector_valid(detector_view(s[n - 1].1)));
        adwin_round_trip(detector_view(s[n - 1].1));
        assert(s.take(n).drop_last() =~= s.take(n - 1));
        assert(detector_map(entries_map(s.take(n))) =~= detector_map(
            entries_map(s.take(n - 1)),
        ).insert(s[n - 1].0@, detector_view(s[n - 1].1)));
    } else {
        assert(detector_map(entries_map(s.take(0))) =~= Map::<Seq<char>, DetectorView>::empty());
    }
}

// Strategies

/// A part that is there and not null, or that is not there.
pub open spec fn told_or_absent(j: Option<Json>) -> bool {
    j matches Some(v) ==> !(js(v) is Null)
}

/// All that a strategy keeps can be written.
pub open spec fn strategy_valid(s: StrategyMemory, r: StrategyRounded) -> bool {
    &&& buckets_valid(s.contexts.entries@, r.contexts@)
    &&& buckets_valid(s.candidate_contexts.entries@, r.candidates@)
    &&& keys_name_candidates(s.candidate_contexts.entries@)
    &&& s.meta_bandit matches Some(m) ==> bandit_valid(m.seen())
    &&& forall|i: int|
        0 <= i < s.context_detectors.entries@.len() ==> detector_valid(
            detector_view((#[trigger] s.context_detectors.entries@[i]).1),
        )
}

proof fn strategy_keys(s: StrategyMemory, r: StrategyRounded)
    ensures
        ({
            let j = strategy_js(s, r);
            &&& j.get("nOptions"@) == Some(natural_js(s.n_options as u64))
            &&& j.get("contexts"@) == Some(
                Js::Obj(
                    bucket_fields(
                        s.contexts.entries@,
                        r.contexts@,
                        s.contexts.entries@.len() as int,
                    ),
                ),
            )
            &&& j.get("candidateContexts"@) == Some(
                Js::Obj(
                    bucket_fields(
                        s.candidate_contexts.entries@,
                        r.candidates@,
                        s.candidate_contexts.entries@.len() as int,
                    ),
                ),
            )
            &&& j.get("metaBandit"@) == Some(
                match s.meta_bandit {
                    Some(m) => bandit_js(m.seen()),
                    None => Js::Null,
                },
            )
            &&& j.get("contextDetectors"@) == Some(
                Js::Obj(
                    detector_fields(
                        s.context_detectors.entries@,
                        s.context_detectors.entries@.len() as int,
                    ),
                ),
            )
            &&& j.get("discreteOod"@) == Some(or_null(opt_js(s.discrete_ood)))
            &&& j.get("featureOod"@) == Some(or_null(opt_js(s.feature_ood)))
        }),
{
    broadcast use field_behind;

    reveal_strlit("nodeId");
    reveal_strlit("nOptions");
    reveal_strlit("contexts");
    reveal_strlit("candidateContexts");
    reveal_strlit("metaBandit");
    reveal_strlit("contextDetectors");
    reveal_strlit("discreteOod");
    reveal_strlit("featureOod");
    assert("nodeId"@.len() == 6);
    assert("nOptions"@.len() == 8);
    assert("contexts"@.len() == 8);
    assert("candidateContexts"@.len() == 17);
    assert("metaBandit"@.len() == 10);
    assert("contextDetectors"@.len() == 16);
    assert("discreteOod"@.len() == 11);
    assert("featureOod"@.len() == 10);
    assert("nOptions"@[0] != "contexts"@[0]);
    assert("metaBandit"@[0] != "featureOod"@[0]);
}

/// The parts are what a strategy holds.
pub open spec fn parts_of(s: StrategyMemory, p: OodParts) -> bool {
    &&& opt_js(p.discrete) == opt_js(s.discrete_ood)
    &&& opt_js(p.feature) == opt_js(s.feature_ood)
}

/// A valid strategy that is written as JSON is read back unchanged, if its
/// detectors of unfamiliar contexts are.
pub proof fn strategy_round_trip(s: StrategyMemory, r: StrategyRounded, p: OodParts)
    requires
        strategy_valid(s, r),
        parts_of(s, p),
    ensures
        strategy_of(s.node_id, strategy_js(s, r), p) == s.seen(),
{
    strategy_keys(s, r);
    let a = s.contexts.entries@;
    let b = s.candidate_contexts.entries@;
    let d = s.context_detectors.entries@;
    buckets_are_read(a, r.contexts@, a.len() as int);
    candidates_are_read(b, r.candidates@, b.len() as int);
    detectors_are_read(d, d.len() as int);
    assert(a.take(a.len() as int) =~= a);
    assert(b.take(b.len() as int) =~= b);
    assert(d.take(d.len() as int) =~= d);
    if let Some(m) = s.meta_bandit {
        bandit_round_trip(m.seen());
    } else {
        assert(Js::Null.get("candidates"@) is None);
    }
    assert(size_of_u64(s.n_options as u64) == s.n_options);
    let back = strategy_of(s.node_id, strategy_js(s, r), p);
    assert(back.contexts == s.seen().contexts);
    assert(back.candidate_contexts == s.seen().candidate_contexts);
    assert(back.meta_bandit == s.seen().meta_bandit);
    assert(back.detectors == s.seen().detectors);
    assert(back.discrete_ood == s.seen().discrete_ood);
    assert(back.feature_ood == s.seen().feature_ood);
}

// The whole memory

/// Strategies stand under their nodes' numbers, and all that is kept can be
/// written.
pub open spec fn memory_valid(m: CapsuleMemory, r: Seq<StrategyRounded>) -> bool {
    &&& r.len() == m.strategies.entries@.len()
    &&& forall|i: int|
        0 <= i < m.strategies.entries@.len() ==> strategy_valid(
            (#[trigger] m.strategies.entries@[i]).1,
            r[i],
        ) && m.strategies.entries@[i].0@ == dec_nat(m.strategies.entries@[i].1.node_id as nat)
    &&& forall|i: int|
        0 <= i < m.time_series_windows.entries@.len() ==> finite_window(
            (#[trigger] m.time_series_windows.entries@[i]).1.values@,
        )
    &&& told_or_absent(m.shared_state)
}

/// Finite numbers.
pub open spec fn finite_window(v: Seq<Real>) -> bool {
    forall|i: int| 0 <= i < v.len() ==> (#[trigger] v[i]).spec_is_finite()
}

/// The parts are what a memory holds.
pub open spec fn memory_parts_of(m: CapsuleMemory, p: MemoryParts) -> bool {
    &&& p.strategies@.len() == m.strategies.entries@.len()
    &&& forall|i: int|
        0 <= i < m.strategies.entries@.len() ==> parts_of(
            (#[trigger] m.strategies.entries@[i]).1,
            p.strategies@[i],
        )
    &&& opt_js(p.shared) == opt_js(m.shared_state)
}

proof fn strategies_are_read(m: CapsuleMemory, r: Seq<StrategyRounded>, p: MemoryParts, n: int)
    requires
        0 <= n <= m.strategies.entries@.len(),
        memory_valid(m, r),
        memory_parts_of(m, p),
    ensures
        strategy_fields(m.strategies.entries@, r, n).len() == n,
        strategies_of(strategy_fields(m.strategies.entries@, r, n), p.strategies@) == strategy_map(
            entries_map(m.strategies.entries@.take(n)),
        ),
    decreases n,
{
    let s = m.strategies.entries@;
    if n > 0 {
        strategies_are_read(m, r, p, n - 1);
        let f = strategy_fields(s, r, n);
        let e = s[n - 1];
        assert(f.drop_last() =~= strategy_fields(s, r, n - 1));
        assert(strategy_valid(e.1, r[n - 1]));
        assert(parts_of(e.1, p.strategies@[n - 1]));
        strategy_round_trip(e.1, r[n - 1], p.strategies@[n - 1]);
        naturals_round_trip(e.1.node_id as nat);
        assert(s.take(n).drop_last() =~= s.take(n - 1));
        assert(strategy_map(entries_map(s.take(n))) =~= strategy_map(
            entries_map(s.take(n - 1)),
        ).insert(e.0@, e.1.seen()));
    } else {
        assert(strategy_map(entries_map(s.take(0))) =~= Map::<Seq<char>, StrategyView>::empty());
    }
}

proof fn windows_are_read(s: Seq<(String, TimeSeriesWindow)>, n: int)
    requires
        0 <= n <= s.len(),
        forall|i: int| 0 <= i < s.len() ==> finite_window((#[trigger] s[i]).1.values@),
    ensures
        windows_of(series_fields(s, n)) == window_map(entries_map(s.take(n))),
    decreases n,
{
    if n > 0 {
        windows_are_read(s, n - 1);
        let f = series_fields(s, n);
        assert(f.drop_last() =~= series_fields(s, n - 1));
        assert(finite_window(s[n - 1].1.values@));
        series_round_trip(s[n - 1].1.values@, s[n - 1].1.max_size);
        assert(s.take(n).drop_last() =~= s.take(n - 1));
        assert(window_map(entries_map(s.take(n))) =~= window_map(entries_map(s.take(n - 1))).insert(
            s[n - 1].0@,
            (s[n - 1].1.values@, s[n - 1].1.max_size),
        ));
    } else {
        assert(window_map(entries_map(s.take(0))) =~= Map::<
            Seq<char>,
            (Seq<Real>, usize),
        >::empty());
    }
}

/// A valid memory that is written as JSON is read back unchanged, but for the
/// version, which is then the latest, if the parts that other readers take are.
pub proof fn memory_round_trip(m: CapsuleMemory, r: Seq<StrategyRounded>, p: MemoryParts)
    requires
        memory_valid(m, r),
        memory_parts_of(m, p),
    ensures
        memory_of(memory_js(m, r), p) == (MemoryView { version: 7, ..m.seen() }),
{
    broadcast use field_behind;

    reveal_strlit("version");
    reveal_strlit("strategies");
    reveal_strlit("timeSeriesWindows");
    reveal_strlit("sharedState");
    assert("version"@.len() == 7);
    assert("strategies"@.len() == 10);
    assert("timeSeriesWindows"@.len() == 17);
    assert("sharedState"@.len() == 11);
    let j = memory_js(m, r);
    let s = m.strategies.entries@;
    let w = m.time_series_windows.entries@;
    assert(j.get("version"@) == Some(natural_js(7)));
    assert(j.get("strategies"@) == Some(Js::Obj(strategy_fields(s, r, s.len() as int))));
    assert(j.get("timeSeriesWindows"@) == Some(Js::Obj(series_fields(w, w.len() as int))));
    assert(j.get("sharedState"@) == Some(or_null(opt_js(m.shared_state))));
    strategies_are_read(m, r, p, s.len() as int);
    windows_are_read(w, w.len() as int);
    assert(s.take(s.len() as int) =~= s);
    assert(w.take(w.len() as int) =~= w);
    let back = memory_of(j, p);
    assert(back.strategies == m.seen().strategies);
    assert(back.windows == m.seen().windows);
    assert(back.shared_state == m.seen().shared_state);
}

} // verus!
