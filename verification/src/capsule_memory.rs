//! The memory of a capsule as a whole: its strategies, and their JSON.
use crate::change_detection::AdwinDetector;
use crate::feature_schema::{TimeSeriesWindow, as_size, series_js, series_of, size_of_u64};
use crate::json::{Js, Json, copy_json, empty_object, field_behind, fields, js, jss, natural_js, no_fields, put, real_js, reals_in_list, reals_js, reals_of, reals_round_trip};
use crate::learning_memory::{BucketView, ContextBucket, bucket_js, bucket_of, first_states, first_weights, fresh_bucket, make_option_states_for_candidate, new_bucket, parse_bucket, serialize_bucket, starting_weights, weighted_of, weighted_states};
use crate::learning_sections::{default_context_adwin_delta, low_word, to_low_word};
use crate::learning_stats::Rounded;
use crate::meta_bandit::{BanditView, CandidateId, CandidateRecord, MetaBandit, record_of};
use crate::number::Real;
use crate::parse::{chars_of, find_place, first_place, natural, parse_u64, text_of};
use crate::real_constants::{R_0_002, R_0_05, R_0_999, R_5_0};
use crate::strings::{cat3, parts};
use crate::table::{Table, entries_are_the_map};
use crate::text::{dec_nat, u64_text};
use crate::values::texts;
use vstd::prelude::*;
use vstd::string::StringExecFns;

verus! {

/// What is kept for one decision of a program.
#[derive(Debug)]
pub struct StrategyMemory {
    pub node_id: u32,
    pub n_options: usize,
    pub contexts: Table<ContextBucket>,
    /// Buckets by candidate and context: `candidate|context`.
    pub candidate_contexts: Table<ContextBucket>,
    pub meta_bandit: Option<MetaBandit>,
    pub context_detectors: Table<AdwinDetector>,
    /// The detectors of unfamiliar contexts, as they are written.
    pub discrete_ood: Option<Json>,
    pub feature_ood: Option<Json>,
}

/// What is kept for a capsule. Strategies stand under the decimal numbers of
/// their nodes.
#[derive(Debug)]
pub struct CapsuleMemory {
    pub strategies: Table<StrategyMemory>,
    pub version: u32,
    pub time_series_windows: Table<TimeSeriesWindow>,
    /// The state that options share, as it is written.
    pub shared_state: Option<Json>,
}

pub struct DetectorView {
    pub window: Seq<Real>,
    pub delta: Real,
    pub max_size: usize,
    pub min_subwindow: usize,
}

pub struct StrategyView {
    pub node_id: u32,
    pub n_options: usize,
    pub contexts: Map<Seq<char>, BucketView>,
    pub candidate_contexts: Map<Seq<char>, BucketView>,
    pub meta_bandit: Option<BanditView>,
    pub detectors: Map<Seq<char>, DetectorView>,
    pub discrete_ood: Option<Js>,
    pub feature_ood: Option<Js>,
}

pub open spec fn detector_view(d: AdwinDetector) -> DetectorView {
    DetectorView {
        window: d.window@,
        delta: d.delta,
        max_size: d.max_size,
        min_subwindow: d.min_subwindow,
    }
}

pub open spec fn bucket_map(m: Map<Seq<char>, ContextBucket>) -> Map<Seq<char>, BucketView> {
    m.map_values(|b: ContextBucket| b.seen())
}

pub open spec fn detector_map(m: Map<Seq<char>, AdwinDetector>) -> Map<Seq<char>, DetectorView> {
    m.map_values(|d: AdwinDetector| detector_view(d))
}

pub open spec fn opt_js(j: Option<Json>) -> Option<Js> {
    match j {
        Some(v) => Some(js(v)),
        None => None,
    }
}

pub open spec fn opt_bandit(m: Option<MetaBandit>) -> Option<BanditView> {
    match m {
        Some(b) => Some(b.seen()),
        None => None,
    }
}

/// All buckets are well formed.
pub open spec fn buckets_wf(m: Map<Seq<char>, ContextBucket>) -> bool {
    forall|k: Seq<char>| #[trigger] m.contains_key(k) ==> m[k].wf()
}

impl StrategyMemory {
    pub open spec fn seen(self) -> StrategyView {
        StrategyView {
            node_id: self.node_id,
            n_options: self.n_options,
            contexts: bucket_map(self.contexts@),
            candidate_contexts: bucket_map(self.candidate_contexts@),
            meta_bandit: opt_bandit(self.meta_bandit),
            detectors: detector_map(self.context_detectors@),
            discrete_ood: opt_js(self.discrete_ood),
            feature_ood: opt_js(self.feature_ood),
        }
    }

    pub open spec fn wf(self) -> bool {
        &&& self.contexts.wf()
        &&& self.candidate_contexts.wf()
        &&& self.context_detectors.wf()
        &&& buckets_wf(self.contexts@)
        &&& buckets_wf(self.candidate_contexts@)
    }

    /// A strategy that has seen nothing.
    pub open spec fn fresh(node_id: u32, n_options: usize) -> StrategyView {
        StrategyView {
            node_id,
            n_options,
            contexts: Map::empty(),
            candidate_contexts: Map::empty(),
            meta_bandit: None,
            detectors: Map::empty(),
            discrete_ood: None,
            feature_ood: None,
        }
    }

    pub fn new(node_id: u32, n_options: usize) -> (s: Self)
        ensures
            s.seen() == StrategyMemory::fresh(node_id, n_options),
            s.wf(),
    {
        let s = StrategyMemory {
            node_id,
            n_options,
            contexts: Table::new(),
            candidate_contexts: Table::new(),
            meta_bandit: None,
            context_detectors: Table::new(),
            discrete_ood: None,
            feature_ood: None,
        };
        assert(s.seen().contexts =~= Map::<Seq<char>, BucketView>::empty());
        assert(s.seen().candidate_contexts =~= Map::<Seq<char>, BucketView>::empty());
        assert(s.seen().detectors =~= Map::<Seq<char>, DetectorView>::empty());
        s
    }
}

proof fn bucket_insert(m: Map<Seq<char>, ContextBucket>, k: Seq<char>, b: ContextBucket)
    ensures
        bucket_map(m.insert(k, b)) == bucket_map(m).insert(k, b.seen()),
        buckets_wf(m) && b.wf() ==> buckets_wf(m.insert(k, b)),
{
    assert(bucket_map(m.insert(k, b)) =~= bucket_map(m).insert(k, b.seen()));
}

proof fn detector_insert(m: Map<Seq<char>, AdwinDetector>, k: Seq<char>, d: AdwinDetector)
    ensures
        detector_map(m.insert(k, d)) == detector_map(m).insert(k, detector_view(d)),
{
    assert(detector_map(m.insert(k, d)) =~= detector_map(m).insert(k, detector_view(d)));
}

/// What follows of a map once a value in it is changed.
proof fn overwritten<K, V>(m: Map<K, V>, k: K, a: V)
    ensures
        forall|x: V| #[trigger] m.insert(k, a).insert(k, x) == m.insert(k, x),
{
    assert forall|x: V| #[trigger] m.insert(k, a).insert(k, x) == m.insert(k, x) by {
        assert(m.insert(k, a).insert(k, x) =~= m.insert(k, x));
    }
}

proof fn strategies_change(m: Map<Seq<char>, StrategyMemory>, k: Seq<char>)
    ensures
        forall|s: StrategyMemory|
            strategy_map(#[trigger] m.insert(k, s)) == strategy_map(m).insert(k, s.seen())
                && (strategies_wf(m) && s.wf() ==> strategies_wf(m.insert(k, s))),
{
    assert forall|s: StrategyMemory|
        strategy_map(#[trigger] m.insert(k, s)) == strategy_map(m).insert(k, s.seen())
            && (strategies_wf(m) && s.wf() ==> strategies_wf(m.insert(k, s))) by {
        strategy_insert(m, k, s);
    }
}

proof fn buckets_change(m: Map<Seq<char>, ContextBucket>, k: Seq<char>)
    ensures
        forall|b: ContextBucket|
            bucket_map(#[trigger] m.insert(k, b)) == bucket_map(m).insert(k, b.seen())
                && (buckets_wf(m) && b.wf() ==> buckets_wf(m.insert(k, b))),
{
    assert forall|b: ContextBucket|
        bucket_map(#[trigger] m.insert(k, b)) == bucket_map(m).insert(k, b.seen())
            && (buckets_wf(m) && b.wf() ==> buckets_wf(m.insert(k, b))) by {
        bucket_insert(m, k, b);
    }
}

proof fn detectors_change(m: Map<Seq<char>, AdwinDetector>, k: Seq<char>)
    ensures
        forall|d: AdwinDetector|
            detector_map(#[trigger] m.insert(k, d)) == detector_map(m).insert(k, detector_view(d)),
{
    assert forall|d: AdwinDetector|
        detector_map(#[trigger] m.insert(k, d)) == detector_map(m).insert(
            k,
            detector_view(d),
        ) by {
        detector_insert(m, k, d);
    }
}

// The JSON of the parts

pub open spec fn record_js(c: CandidateRecord) -> Js {
    Js::Obj(
        no_fields().push(("id"@, Js::Str(c.id.word()))).push(("trials"@, real_js(c.trials))).push(
            ("cumulativeReward"@, real_js(c.cumulative_reward)),
        ),
    )
}

pub open spec fn bandit_js(m: BanditView) -> Js {
    Js::Obj(
        no_fields().push(
            ("candidates"@, Js::Arr(m.candidates.map_values(|c: CandidateRecord| record_js(c)))),
        ).push(("totalRounds"@, natural_js(m.total_rounds))).push(
            ("explorationDecay"@, real_js(m.exploration_decay)),
        ).push(("minExploration"@, real_js(m.min_exploration))).push(
            ("forgettingFactor"@, real_js(m.forgetting_factor)),
        ),
    )
}

/// A portfolio as JSON.
pub fn serialize_meta_bandit(m: &MetaBandit) -> (j: Json)
    ensures
        js(j) == bandit_js(m.seen()),
{
    let mut a: Vec<Json> = Vec::new();
    let mut i: usize = 0;
    while i < m.candidates.len()
        invariant
            i <= m.candidates.len(),
            a@.len() == i,
            forall|k: int| 0 <= k < i ==> js(#[trigger] a@[k]) == record_js(m.candidates@[k]),
        decreases m.candidates.len() - i,
    {
        let mut c = empty_object();
        put(&mut c, "id", Json::text(m.candidates[i].id.as_str()));
        put(&mut c, "trials", Json::number(m.candidates[i].trials));
        put(&mut c, "cumulativeReward", Json::number(m.candidates[i].cumulative_reward));
        a.push(Json::Obj(c));
        i = i + 1;
    }
    assert(jss(a@) =~= m.candidates@.map_values(|c: CandidateRecord| record_js(c)));
    let mut o = empty_object();
    put(&mut o, "candidates", Json::Arr(a));
    put(&mut o, "totalRounds", Json::natural(m.total_rounds));
    put(&mut o, "explorationDecay", Json::number(m.exploration_decay));
    put(&mut o, "minExploration", Json::number(m.min_exploration));
    put(&mut o, "forgettingFactor", Json::number(m.forgetting_factor));
    Json::Obj(o)
}

/// The candidate that an item names.
pub open spec fn named_candidate(j: Js) -> Option<CandidateId> {
    match j.str_at("id"@) {
        Some(s) => CandidateId::of_word(s),
        None => None,
    }
}

fn read_candidate(j: &Json) -> (r: Option<CandidateId>)
    ensures
        r == named_candidate(js(*j)),
{
    match j.str_at("id") {
        Some(s) => CandidateId::from_str(s),
        None => None,
    }
}

/// The candidates among the items, each with a fresh record.
pub open spec fn named_records(s: Seq<Js>) -> Seq<CandidateRecord>
    decreases s.len(),
{
    if s.len() == 0 {
        Seq::empty()
    } else {
        match named_candidate(s.last()) {
            Some(id) => named_records(s.drop_last()).push(CandidateRecord::fresh(id)),
            None => named_records(s.drop_last()),
        }
    }
}

/// The records with the numbers of the items; those of an item go to the first
/// record of its candidate.
pub open spec fn filled_records(s: Seq<Js>, c: Seq<CandidateRecord>) -> Seq<CandidateRecord>
    decreases s.len(),
{
    if s.len() == 0 {
        c
    } else {
        let before = filled_records(s.drop_last(), c);
        match named_candidate(s.last()) {
            Some(id) => {
                let at = record_of(before, id, 0);
                if at < before.len() {
                    before.update(
                        at,
                        CandidateRecord {
                            id: before[at].id,
                            trials: s.last().real_or("trials"@, Real { bits: 0 }),
                            cumulative_reward: s.last().real_or("cumulativeReward"@, Real { bits: 0 }),
                        },
                    )
                } else {
                    before
                }
            },
            None => before,
        }
    }
}

/// The portfolio that JSON holds.
pub open spec fn bandit_of(j: Js) -> Option<BanditView> {
    match j.array_at("candidates"@) {
        None => None,
        Some(a) => if named_records(a).len() == 0 {
            None
        } else {
            Some(
                BanditView {
                    candidates: filled_records(a, named_records(a)),
                    total_rounds: j.u64_or("totalRounds"@, 0),
                    exploration_decay: j.real_or("explorationDecay"@, Real { bits: R_5_0 }),
                    min_exploration: j.real_or("minExploration"@, Real { bits: R_0_05 }),
                    forgetting_factor: j.real_or("forgettingFactor"@, Real { bits: R_0_999 }),
                },
            )
        },
    }
}

/// Reads a portfolio from JSON.
pub fn parse_meta_bandit(j: &Json) -> (r: Option<MetaBandit>)
    ensures
        match bandit_of(js(*j)) {
            Some(m) => r is Some && r->Some_0.seen() == m,
            None => r is None,
        },
{
    let a = match j.array_at("candidates") {
        Some(a) => a,
        None => {
            return None;
        },
    };
    let ghost all = jss(a@);
    let mut c: Vec<CandidateRecord> = Vec::new();
    let mut i: usize = 0;
    assert(all.take(0) == Seq::<Js>::empty());
    while i < a.len()
        invariant
            i <= a.len(),
            all == jss(a@),
            c@ == named_records(all.take(i as int)),
        decreases a.len() - i,
    {
        assert(all.take(i + 1).drop_last() == all.take(i as int));
        assert(all.take(i + 1).last() == js(a@[i as int]));
        if let Some(id) = read_candidate(&a[i]) {
            c.push(CandidateRecord::new(id));
        }
        i = i + 1;
    }
    assert(all.take(i as int) == all);
    if c.len() == 0 {
        return None;
    }
    let mut m = MetaBandit {
        candidates: c,
        total_rounds: j.u64_or("totalRounds", 0),
        exploration_decay: j.real_or("explorationDecay", Real { bits: R_5_0 }),
        min_exploration: j.real_or("minExploration", Real { bits: R_0_05 }),
        forgetting_factor: j.real_or("forgettingFactor", Real { bits: R_0_999 }),
    };
    let ghost start = m.candidates@;
    let ghost first = m.seen();
    let mut k: usize = 0;
    while k < a.len()
        invariant
            k <= a.len(),
            all == jss(a@),
            m.candidates@ == filled_records(all.take(k as int), start),
            m.seen() == (BanditView { candidates: m.candidates@, ..first }),
        decreases a.len() - k,
    {
        assert(all.take(k + 1).drop_last() == all.take(k as int));
        assert(all.take(k + 1).last() == js(a@[k as int]));
        if let Some(id) = read_candidate(&a[k]) {
            if let Some(at) = m.position(id) {
                let trials = a[k].real_or("trials", Real { bits: 0 });
                let cumulative_reward = a[k].real_or("cumulativeReward", Real { bits: 0 });
                m.candidates.set(at, CandidateRecord { id, trials, cumulative_reward });
            }
        }
        k = k + 1;
    }
    assert(all.take(k as int) == all);
    Some(m)
}

pub open spec fn adwin_js(d: DetectorView) -> Js {
    Js::Obj(
        no_fields().push(("window"@, reals_js(d.window))).push(("delta"@, real_js(d.delta))).push(
            ("maxSize"@, natural_js(d.max_size as u64)),
        ).push(("minSubwindow"@, natural_js(d.min_subwindow as u64))),
    )
}

/// A change detector as JSON.
pub fn serialize_adwin(d: &AdwinDetector) -> (j: Json)
    ensures
        js(j) == adwin_js(detector_view(*d)),
{
    let mut o = empty_object();
    put(&mut o, "window", Json::reals(&d.window));
    put(&mut o, "delta", Json::number(d.delta));
    put(&mut o, "maxSize", Json::natural(d.max_size as u64));
    put(&mut o, "minSubwindow", Json::natural(d.min_subwindow as u64));
    Json::Obj(o)
}

/// The change detector that JSON holds.
pub open spec fn adwin_of(j: Js) -> Option<DetectorView> {
    match (j.array_at("window"@), j.real_at("delta"@)) {
        (Some(a), Some(delta)) => match j.get("maxSize"@) {
            Some(n) => match n.as_u64() {
                Some(max) => Some(
                    DetectorView {
                        window: reals_of(a),
                        delta,
                        max_size: size_of_u64(max),
                        min_subwindow: size_of_u64(j.u64_or("minSubwindow"@, 5)),
                    },
                ),
                None => None,
            },
            None => None,
        },
        _ => None,
    }
}

/// Reads a change detector from JSON.
pub fn parse_adwin(j: &Json) -> (r: Option<AdwinDetector>)
    ensures
        match adwin_of(js(*j)) {
            Some(d) => r is Some && detector_view(r->Some_0) == d,
            None => r is None,
        },
{
    let window = match j.array_at("window") {
        Some(a) => reals_in_list(a),
        None => {
            return None;
        },
    };
    let delta = match j.real_at("delta") {
        Some(x) => x,
        None => {
            return None;
        },
    };
    match j.get("maxSize") {
        Some(n) => match n.as_u64() {
            Some(max) => Some(
                AdwinDetector::restore_state(
                    window,
                    delta,
                    as_size(max),
                    as_size(j.u64_or("minSubwindow", 5)),
                ),
            ),
            None => None,
        },
        None => None,
    }
}

/// A finite detector that is written as JSON is read back unchanged.
pub proof fn adwin_round_trip(d: DetectorView)
    requires
        d.delta.spec_is_finite(),
        forall|i: int| 0 <= i < d.window.len() ==> (#[trigger] d.window[i]).spec_is_finite(),
    ensures
        adwin_of(adwin_js(d)) == Some(d),
{
    broadcast use field_behind;

    reveal_strlit("window");
    reveal_strlit("delta");
    reveal_strlit("maxSize");
    reveal_strlit("minSubwindow");
    assert("window"@.len() == 6);
    assert("delta"@.len() == 5);
    assert("maxSize"@.len() == 7);
    assert("minSubwindow"@.len() == 12);
    let j = adwin_js(d);
    reals_round_trip(d.window);
    assert(j.get("window"@) == Some(reals_js(d.window)));
    assert(j.get("delta"@) == Some(real_js(d.delta)));
    assert(j.get("maxSize"@) == Some(natural_js(d.max_size as u64)));
    assert(j.get("minSubwindow"@) == Some(natural_js(d.min_subwindow as u64)));
    assert(size_of_u64(d.max_size as u64) == d.max_size);
    assert(size_of_u64(d.min_subwindow as u64) == d.min_subwindow);
}

// Reading the memory

/// The buckets among the fields.
pub open spec fn buckets_of(o: Seq<(Seq<char>, Js)>) -> Map<Seq<char>, BucketView>
    decreases o.len(),
{
    if o.len() == 0 {
        Map::empty()
    } else {
        buckets_of(o.drop_last()).insert(o.last().0, bucket_of(o.last().1))
    }
}

fn read_buckets(o: &Vec<(String, Json)>) -> (t: Table<ContextBucket>)
    ensures
        bucket_map(t@) == buckets_of(fields(o@)),
        t.wf(),
        buckets_wf(t@),
{
    let ghost all = fields(o@);
    let mut t: Table<ContextBucket> = Table::new();
    let mut i: usize = 0;
    proof {
        assert(all.take(0) == no_fields());
        assert(bucket_map(t@) =~= Map::<Seq<char>, BucketView>::empty());
    }
    while i < o.len()
        invariant
            i <= o.len(),
            all == fields(o@),
            t.wf(),
            buckets_wf(t@),
            bucket_map(t@) == buckets_of(all.take(i as int)),
        decreases o.len() - i,
    {
        assert(all.take(i + 1).drop_last() == all.take(i as int));
        assert(all.take(i + 1).last() == (o@[i as int].0@, js(o@[i as int].1)));
        let b = parse_bucket(&o[i].1);
        proof {
            bucket_insert(t@, o@[i as int].0@, b);
        }
        t.insert(o[i].0.clone(), b);
        i = i + 1;
    }
    assert(all.take(i as int) == all);
    t
}

/// The candidate in front of the first bar of a key.
pub open spec fn key_candidate(key: Seq<char>) -> Option<CandidateId> {
    if first_place(key, "|"@, 0) < key.len() {
        CandidateId::of_word(key.take(first_place(key, "|"@, 0)))
    } else {
        None
    }
}

fn candidate_of_key(key: &str) -> (r: Option<CandidateId>)
    ensures
        r == key_candidate(key@),
{
    let v = chars_of(key);
    let bar = chars_of("|");
    let i: usize = find_place(&v, &bar, 0);
    if i < v.len() {
        assert(v@.subrange(0, i as int) == v@.take(i as int));
        CandidateId::from_str(text_of(&v, 0, i).as_str())
    } else {
        None
    }
}

/// The fields whose keys begin with a candidate and a bar.
pub open spec fn candidate_fields(o: Seq<(Seq<char>, Js)>) -> Map<Seq<char>, BucketView>
    decreases o.len(),
{
    if o.len() == 0 {
        Map::empty()
    } else if key_candidate(o.last().0) is Some {
        candidate_fields(o.drop_last()).insert(o.last().0, bucket_of(o.last().1))
    } else {
        candidate_fields(o.drop_last())
    }
}

fn read_candidate_fields(o: &Vec<(String, Json)>) -> (t: Table<ContextBucket>)
    ensures
        bucket_map(t@) == candidate_fields(fields(o@)),
        t.wf(),
        buckets_wf(t@),
{
    let ghost all = fields(o@);
    let mut t: Table<ContextBucket> = Table::new();
    let mut i: usize = 0;
    proof {
        assert(all.take(0) == no_fields());
        assert(bucket_map(t@) =~= Map::<Seq<char>, BucketView>::empty());
    }
    while i < o.len()
        invariant
            i <= o.len(),
            all == fields(o@),
            t.wf(),
            buckets_wf(t@),
            bucket_map(t@) == candidate_fields(all.take(i as int)),
        decreases o.len() - i,
    {
        assert(all.take(i + 1).drop_last() == all.take(i as int));
        assert(all.take(i + 1).last() == (o@[i as int].0@, js(o@[i as int].1)));
        if candidate_of_key(o[i].0.as_str()).is_some() {
            let b = parse_bucket(&o[i].1);
            proof {
                bucket_insert(t@, o@[i as int].0@, b);
            }
            t.insert(o[i].0.clone(), b);
        }
        i = i + 1;
    }
    assert(all.take(i as int) == all);
    t
}

/// The detectors among the fields.
pub open spec fn detectors_of(o: Seq<(Seq<char>, Js)>) -> Map<Seq<char>, DetectorView>
    decreases o.len(),
{
    if o.len() == 0 {
        Map::empty()
    } else {
        match adwin_of(o.last().1) {
            Some(d) => detectors_of(o.drop_last()).insert(o.last().0, d),
            None => detectors_of(o.drop_last()),
        }
    }
}

fn read_detectors(o: &Vec<(String, Json)>) -> (t: Table<AdwinDetector>)
    ensures
        detector_map(t@) == detectors_of(fields(o@)),
        t.wf(),
{
    let ghost all = fields(o@);
    let mut t: Table<AdwinDetector> = Table::new();
    let mut i: usize = 0;
    proof {
        assert(all.take(0) == no_fields());
        assert(detector_map(t@) =~= Map::<Seq<char>, DetectorView>::empty());
    }
    while i < o.len()
        invariant
            i <= o.len(),
            all == fields(o@),
            t.wf(),
            detector_map(t@) == detectors_of(all.take(i as int)),
        decreases o.len() - i,
    {
        assert(all.take(i + 1).drop_last() == all.take(i as int));
        assert(all.take(i + 1).last() == (o@[i as int].0@, js(o@[i as int].1)));
        if let Some(d) = parse_adwin(&o[i].1) {
            proof {
                detector_insert(t@, o@[i as int].0@, d);
            }
            t.insert(o[i].0.clone(), d);
        }
        i = i + 1;
    }
    assert(all.take(i as int) == all);
    t
}

/// The number of a node that a key gives; zero where it gives none.
pub open spec fn node_number(key: Seq<char>) -> u32 {
    match natural(key) {
        Some(n) => if 0 <= n <= u32::MAX {
            n as u32
        } else {
            0
        },
        None => 0,
    }
}

fn read_node_number(key: &str) -> (n: u32)
    ensures
        n == node_number(key@),
{
    match parse_u64(key) {
        Some(n) => if n <= 0xFFFF_FFFF {
            n as u32
        } else {
            0
        },
        None => 0,
    }
}

/// The fields under a key, or none.
pub open spec fn fields_at(j: Js, key: Seq<char>) -> Seq<(Seq<char>, Js)> {
    match j.object_at(key) {
        Some(o) => o,
        None => no_fields(),
    }
}

/// What a strategy's detectors of unfamiliar contexts are read as, each in its
/// written form; nothing where one cannot be read.
#[derive(Debug)]
pub struct OodParts {
    pub discrete: Option<Json>,
    pub feature: Option<Json>,
}

/// The parts of a memory that other readers take: the detectors of each strategy,
/// in the order of the strategies' fields, and the state that options share, in
/// their written forms.
#[derive(Debug)]
pub struct MemoryParts {
    pub strategies: Vec<OodParts>,
    pub shared: Option<Json>,
}

/// What a field was read as, where it is there.
pub open spec fn read_at(j: Js, key: Seq<char>, part: Option<Json>) -> Option<Js> {
    match j.get(key) {
        Some(_) => opt_js(part),
        None => None,
    }
}

/// What a field was read as, where it is there and not null.
pub open spec fn read_unless_null(j: Js, key: Seq<char>, part: Option<Json>) -> Option<Js> {
    match j.get(key) {
        Some(v) => if v is Null {
            None
        } else {
            opt_js(part)
        },
        None => None,
    }
}

/// The strategy that JSON holds for a node.
pub open spec fn strategy_of(node_id: u32, j: Js, parts: OodParts) -> StrategyView {
    StrategyView {
        node_id,
        n_options: size_of_u64(j.u64_or("nOptions"@, 0)),
        contexts: buckets_of(fields_at(j, "contexts"@)),
        candidate_contexts: candidate_fields(fields_at(j, "candidateContexts"@)),
        meta_bandit: match j.get("metaBandit"@) {
            Some(m) => bandit_of(m),
            None => None,
        },
        detectors: detectors_of(fields_at(j, "contextDetectors"@)),
        discrete_ood: read_at(j, "discreteOod"@, parts.discrete),
        feature_ood: read_at(j, "featureOod"@, parts.feature),
    }
}

fn parse_strategy(node_id: u32, j: &Json, parts: OodParts) -> (s: StrategyMemory)
    ensures
        s.seen() == strategy_of(node_id, js(*j), parts),
        s.wf(),
{
    let none = empty_object();
    let contexts = match j.object_at("contexts") {
        Some(o) => read_buckets(o),
        None => read_buckets(&none),
    };
    let candidate_contexts = match j.object_at("candidateContexts") {
        Some(o) => read_candidate_fields(o),
        None => read_candidate_fields(&none),
    };
    let context_detectors = match j.object_at("contextDetectors") {
        Some(o) => read_detectors(o),
        None => read_detectors(&none),
    };
    let meta_bandit = match j.get("metaBandit") {
        Some(m) => parse_meta_bandit(m),
        None => None,
    };
    StrategyMemory {
        node_id,
        n_options: as_size(j.u64_or("nOptions", 0)),
        contexts,
        candidate_contexts,
        meta_bandit,
        context_detectors,
        discrete_ood: match j.get("discreteOod") {
            Some(_) => parts.discrete,
            None => None,
        },
        feature_ood: match j.get("featureOod") {
            Some(_) => parts.feature,
            None => None,
        },
    }
}

pub open spec fn strategy_map(m: Map<Seq<char>, StrategyMemory>) -> Map<Seq<char>, StrategyView> {
    m.map_values(|s: StrategyMemory| s.seen())
}

pub open spec fn strategies_wf(m: Map<Seq<char>, StrategyMemory>) -> bool {
    forall|k: Seq<char>| #[trigger] m.contains_key(k) ==> m[k].wf()
}

proof fn strategy_insert(m: Map<Seq<char>, StrategyMemory>, k: Seq<char>, s: StrategyMemory)
    ensures
        strategy_map(m.insert(k, s)) == strategy_map(m).insert(k, s.seen()),
        strategies_wf(m) && s.wf() ==> strategies_wf(m.insert(k, s)),
{
    assert(strategy_map(m.insert(k, s)) =~= strategy_map(m).insert(k, s.seen()));
}

/// The strategies among the fields.
pub open spec fn strategies_of(o: Seq<(Seq<char>, Js)>, parts: Seq<OodParts>) -> Map<
    Seq<char>,
    StrategyView,
>
    decreases o.len(),
{
    if o.len() == 0 {
        Map::empty()
    } else {
        let id = node_number(o.last().0);
        strategies_of(o.drop_last(), parts).insert(
            dec_nat(id as nat),
            strategy_of(id, o.last().1, parts[o.len() - 1]),
        )
    }
}

/// The windows among the fields.
pub open spec fn windows_of(o: Seq<(Seq<char>, Js)>) -> Map<Seq<char>, (Seq<Real>, usize)>
    decreases o.len(),
{
    if o.len() == 0 {
        Map::empty()
    } else {
        match series_of(o.last().1) {
            Ok(w) => windows_of(o.drop_last()).insert(o.last().0, w),
            Err(_) => windows_of(o.drop_last()),
        }
    }
}

pub open spec fn window_map(m: Map<Seq<char>, TimeSeriesWindow>) -> Map<
    Seq<char>,
    (Seq<Real>, usize),
> {
    m.map_values(|w: TimeSeriesWindow| (w.values@, w.max_size))
}

/// A memory with what it holds as maps.
pub struct MemoryView {
    pub strategies: Map<Seq<char>, StrategyView>,
    pub version: u32,
    pub windows: Map<Seq<char>, (Seq<Real>, usize)>,
    pub shared_state: Option<Js>,
}

/// The memory that JSON holds, given what other readers take.
pub open spec fn memory_of(j: Js, parts: MemoryParts) -> MemoryView {
    MemoryView {
        strategies: strategies_of(fields_at(j, "strategies"@), parts.strategies@),
        version: low_word(j.u64_or("version"@, 1)),
        windows: windows_of(fields_at(j, "timeSeriesWindows"@)),
        shared_state: read_unless_null(j, "sharedState"@, parts.shared),
    }
}

fn read_strategies(o: &Vec<(String, Json)>, parts: Vec<OodParts>) -> (t: Table<StrategyMemory>)
    requires
        parts@.len() == o@.len(),
    ensures
        strategy_map(t@) == strategies_of(fields(o@), parts@),
        t.wf(),
        strategies_wf(t@),
{
    let ghost all = fields(o@);
    let ghost given = parts@;
    let mut left = parts;
    let mut t: Table<StrategyMemory> = Table::new();
    let mut i: usize = 0;
    proof {
        assert(all.take(0) == no_fields());
        assert(strategy_map(t@) =~= Map::<Seq<char>, StrategyView>::empty());
        assert(given.skip(0) =~= given);
    }
    while i < o.len()
        invariant
            i <= o.len(),
            all == fields(o@),
            given.len() == o@.len(),
            left@ == given.skip(i as int),
            t.wf(),
            strategies_wf(t@),
            strategy_map(t@) == strategies_of(all.take(i as int), given),
        decreases o.len() - i,
    {
        assert(all.take(i + 1).drop_last() == all.take(i as int));
        assert(all.take(i + 1).last() == (o@[i as int].0@, js(o@[i as int].1)));
        let part = left.remove(0);
        assert(part == given[i as int]);
        assert(left@ =~= given.skip(i + 1));
        let id: u32 = read_node_number(o[i].0.as_str());
        let s = parse_strategy(id, &o[i].1, part);
        let key = u64_text(id as u64);
        proof {
            strategy_insert(t@, key@, s);
        }
        t.insert(key, s);
        i = i + 1;
    }
    assert(all.take(i as int) == all);
    t
}

fn read_windows(o: &Vec<(String, Json)>) -> (t: Table<TimeSeriesWindow>)
    ensures
        window_map(t@) == windows_of(fields(o@)),
        t.wf(),
{
    let ghost all = fields(o@);
    let mut t: Table<TimeSeriesWindow> = Table::new();
    let mut i: usize = 0;
    proof {
        assert(all.take(0) == no_fields());
        assert(window_map(t@) =~= Map::<Seq<char>, (Seq<Real>, usize)>::empty());
    }
    while i < o.len()
        invariant
            i <= o.len(),
            all == fields(o@),
            t.wf(),
            window_map(t@) == windows_of(all.take(i as int)),
        decreases o.len() - i,
    {
        assert(all.take(i + 1).drop_last() == all.take(i as int));
        assert(all.take(i + 1).last() == (o@[i as int].0@, js(o@[i as int].1)));
        if let Ok(w) = TimeSeriesWindow::deserialize(&o[i].1) {
            let ghost before = t@;
            let ghost k = o@[i as int].0@;
            t.insert(o[i].0.clone(), w);
            assert(window_map(before.insert(k, w)) =~= window_map(before).insert(
                k,
                (w.values@, w.max_size),
            ));
        }
        i = i + 1;
    }
    assert(all.take(i as int) == all);
    t
}

// Writing the memory

/// Numbers for display, of each option of each bucket of a strategy.
#[derive(Debug)]
pub struct StrategyRounded {
    pub contexts: Vec<Vec<Rounded>>,
    pub candidates: Vec<Vec<Rounded>>,
}

pub open spec fn bucket_fields(s: Seq<(String, ContextBucket)>, r: Seq<Vec<Rounded>>, n: int) -> Seq<
    (Seq<char>, Js),
>
    decreases n,
{
    if n <= 0 {
        no_fields()
    } else {
        bucket_fields(s, r, n - 1).push((s[n - 1].0@, bucket_js(s[n - 1].1, r[n - 1]@)))
    }
}

/// There are numbers for display of each option of each bucket.
pub open spec fn rounded_fits(s: Seq<(String, ContextBucket)>, r: Seq<Vec<Rounded>>) -> bool {
    &&& r.len() == s.len()
    &&& forall|i: int| 0 <= i < s.len() ==> (#[trigger] r[i])@.len() == s[i].1.stats@.len()
}

fn buckets_json(t: &Table<ContextBucket>, r: &Vec<Vec<Rounded>>) -> (j: Json)
    requires
        rounded_fits(t.entries@, r@),
    ensures
        js(j) == Js::Obj(bucket_fields(t.entries@, r@, t.entries@.len() as int)),
{
    let mut o = empty_object();
    let mut i: usize = 0;
    while i < t.entries.len()
        invariant
            i <= t.entries.len(),
            rounded_fits(t.entries@, r@),
            fields(o@) == bucket_fields(t.entries@, r@, i as int),
        decreases t.entries.len() - i,
    {
        assert(r@[i as int]@.len() == t.entries@[i as int].1.stats@.len());
        put(&mut o, t.entries[i].0.as_str(), serialize_bucket(&t.entries[i].1, &r[i]));
        i = i + 1;
    }
    Json::Obj(o)
}

pub open spec fn detector_fields(s: Seq<(String, AdwinDetector)>, n: int) -> Seq<(Seq<char>, Js)>
    decreases n,
{
    if n <= 0 {
        no_fields()
    } else {
        detector_fields(s, n - 1).push((s[n - 1].0@, adwin_js(detector_view(s[n - 1].1))))
    }
}

fn detectors_json(t: &Table<AdwinDetector>) -> (j: Json)
    ensures
        js(j) == Js::Obj(detector_fields(t.entries@, t.entries@.len() as int)),
{
    let mut o = empty_object();
    let mut i: usize = 0;
    while i < t.entries.len()
        invariant
            i <= t.entries.len(),
            fields(o@) == detector_fields(t.entries@, i as int),
        decreases t.entries.len() - i,
    {
        put(&mut o, t.entries[i].0.as_str(), serialize_adwin(&t.entries[i].1));
        i = i + 1;
    }
    Json::Obj(o)
}

pub open spec fn or_null(j: Option<Js>) -> Js {
    match j {
        Some(v) => v,
        None => Js::Null,
    }
}

fn json_or_null(j: &Option<Json>) -> (r: Json)
    ensures
        js(r) == or_null(opt_js(*j)),
{
    match j {
        Some(v) => copy_json(v),
        None => Json::Null,
    }
}

pub open spec fn strategy_js(s: StrategyMemory, r: StrategyRounded) -> Js {
    Js::Obj(
        no_fields().push(("nodeId"@, natural_js(s.node_id as u64))).push(
            ("nOptions"@, natural_js(s.n_options as u64)),
        ).push(
            (
                "contexts"@,
                Js::Obj(
                    bucket_fields(
                        s.contexts.entries@,
                        r.contexts@,
                        s.contexts.entries@.len() as int,
                    ),
                ),
            ),
        ).push(
            (
                "candidateContexts"@,
                Js::Obj(
                    bucket_fields(
                        s.candidate_contexts.entries@,
                        r.candidates@,
                        s.candidate_contexts.entries@.len() as int,
                    ),
                ),
            ),
        ).push(
            (
                "metaBandit"@,
                match s.meta_bandit {
                    Some(m) => bandit_js(m.seen()),
                    None => Js::Null,
                },
            ),
        ).push(
            (
                "contextDetectors"@,
                Js::Obj(
                    detector_fields(
                        s.context_detectors.entries@,
                        s.context_detectors.entries@.len() as int,
                    ),
                ),
            ),
        ).push(("discreteOod"@, or_null(opt_js(s.discrete_ood)))).push(
            ("featureOod"@, or_null(opt_js(s.feature_ood))),
        ),
    )
}

fn strategy_json(s: &StrategyMemory, r: &StrategyRounded) -> (j: Json)
    requires
        rounded_fits(s.contexts.entries@, r.contexts@),
        rounded_fits(s.candidate_contexts.entries@, r.candidates@),
    ensures
        js(j) == strategy_js(*s, *r),
{
    let mut o = empty_object();
    put(&mut o, "nodeId", Json::natural(s.node_id as u64));
    put(&mut o, "nOptions", Json::natural(s.n_options as u64));
    put(&mut o, "contexts", buckets_json(&s.contexts, &r.contexts));
    put(&mut o, "candidateContexts", buckets_json(&s.candidate_contexts, &r.candidates));
    let bandit = match &s.meta_bandit {
        Some(m) => serialize_meta_bandit(m),
        None => Json::Null,
    };
    put(&mut o, "metaBandit", bandit);
    put(&mut o, "contextDetectors", detectors_json(&s.context_detectors));
    put(&mut o, "discreteOod", json_or_null(&s.discrete_ood));
    put(&mut o, "featureOod", json_or_null(&s.feature_ood));
    Json::Obj(o)
}

pub open spec fn strategy_fields(
    s: Seq<(String, StrategyMemory)>,
    r: Seq<StrategyRounded>,
    n: int,
) -> Seq<(Seq<char>, Js)>
    decreases n,
{
    if n <= 0 {
        no_fields()
    } else {
        strategy_fields(s, r, n - 1).push(
            (s[n - 1].0@, strategy_js(s[n - 1].1, r[n - 1])),
        )
    }
}

pub open spec fn series_fields(s: Seq<(String, TimeSeriesWindow)>, n: int) -> Seq<(Seq<char>, Js)>
    decreases n,
{
    if n <= 0 {
        no_fields()
    } else {
        series_fields(s, n - 1).push(
            (s[n - 1].0@, series_js(s[n - 1].1.values@, s[n - 1].1.max_size)),
        )
    }
}

/// There are numbers for display of every bucket of the memory.
pub open spec fn memory_rounded_fits(
    s: Seq<(String, StrategyMemory)>,
    r: Seq<StrategyRounded>,
) -> bool {
    &&& r.len() == s.len()
    &&& forall|i: int|
        0 <= i < s.len() ==> rounded_fits(
            (#[trigger] s[i]).1.contexts.entries@,
            r[i].contexts@,
        ) && rounded_fits(s[i].1.candidate_contexts.entries@, r[i].candidates@)
}

pub open spec fn memory_js(m: CapsuleMemory, r: Seq<StrategyRounded>) -> Js {
    Js::Obj(
        no_fields().push(("version"@, natural_js(7))).push(
            (
                "strategies"@,
                Js::Obj(
                    strategy_fields(m.strategies.entries@, r, m.strategies.entries@.len() as int),
                ),
            ),
        ).push(
            (
                "timeSeriesWindows"@,
                Js::Obj(
                    series_fields(
                        m.time_series_windows.entries@,
                        m.time_series_windows.entries@.len() as int,
                    ),
                ),
            ),
        ).push(("sharedState"@, or_null(opt_js(m.shared_state)))),
    )
}

/// A bucket's key for a candidate and a context.
pub open spec fn candidate_key(c: CandidateId, context: Seq<char>) -> Seq<char> {
    c.word() + "|"@ + context
}

impl CapsuleMemory {
    pub open spec fn seen(self) -> MemoryView {
        MemoryView {
            strategies: strategy_map(self.strategies@),
            version: self.version,
            windows: window_map(self.time_series_windows@),
            shared_state: opt_js(self.shared_state),
        }
    }

    pub open spec fn wf(self) -> bool {
        &&& self.strategies.wf()
        &&& strategies_wf(self.strategies@)
        &&& self.time_series_windows.wf()
    }

    /// The strategy of a node.
    pub open spec fn strategy(self, node_id: u32) -> Option<StrategyView> {
        let k = dec_nat(node_id as nat);
        if self.seen().strategies.contains_key(k) {
            Some(self.seen().strategies[k])
        } else {
            None
        }
    }

    /// Reads a memory from JSON. `parts` are what other readers make of each
    /// strategy's fields `discreteOod` and `featureOod`, and of `sharedState`.
    pub fn from_json(j: &Json, parts: MemoryParts) -> (m: Self)
        requires
            parts.strategies@.len() == fields_at(js(*j), "strategies"@).len(),
        ensures
            m.seen() == memory_of(js(*j), parts),
            m.wf(),
    {
        let none = empty_object();
        let strategies = match j.object_at("strategies") {
            Some(o) => {
                assert(o@.len() == fields(o@).len());
                read_strategies(o, parts.strategies)
            },
            None => {
                assert(none@.len() == fields(none@).len());
                read_strategies(&none, parts.strategies)
            },
        };
        let time_series_windows = match j.object_at("timeSeriesWindows") {
            Some(o) => read_windows(o),
            None => read_windows(&none),
        };
        let shared_state = match j.get("sharedState") {
            Some(v) => match v {
                Json::Null => None,
                _ => parts.shared,
            },
            None => None,
        };
        CapsuleMemory {
            strategies,
            version: to_low_word(j.u64_or("version", 1)),
            time_series_windows,
            shared_state,
        }
    }

    /// The memory as JSON.
    pub fn to_json(&self, rounded: &Vec<StrategyRounded>) -> (j: Json)
        requires
            memory_rounded_fits(self.strategies.entries@, rounded@),
        ensures
            js(j) == memory_js(*self, rounded@),
    {
        let mut s = empty_object();
        let mut i: usize = 0;
        while i < self.strategies.entries.len()
            invariant
                i <= self.strategies.entries.len(),
                memory_rounded_fits(self.strategies.entries@, rounded@),
                fields(s@) == strategy_fields(self.strategies.entries@, rounded@, i as int),
            decreases self.strategies.entries.len() - i,
        {
            let e = &self.strategies.entries[i];
            assert(rounded_fits(
                self.strategies.entries@[i as int].1.contexts.entries@,
                rounded@[i as int].contexts@,
            ));
            put(&mut s, e.0.as_str(), strategy_json(&e.1, &rounded[i]));
            i = i + 1;
        }
        let mut w = empty_object();
        let mut k: usize = 0;
        while k < self.time_series_windows.entries.len()
            invariant
                k <= self.time_series_windows.entries.len(),
                fields(w@) == series_fields(self.time_series_windows.entries@, k as int),
            decreases self.time_series_windows.entries.len() - k,
        {
            put(
                &mut w,
                self.time_series_windows.entries[k].0.as_str(),
                self.time_series_windows.entries[k].1.serialize(),
            );
            k = k + 1;
        }
        let mut o = empty_object();
        put(&mut o, "version", Json::natural(7));
        put(&mut o, "strategies", Json::Obj(s));
        put(&mut o, "timeSeriesWindows", Json::Obj(w));
        put(&mut o, "sharedState", json_or_null(&self.shared_state));
        Json::Obj(o)
    }

    /// Takes the strategy of a node out, or a fresh one where there is none.
    fn take_strategy(&mut self, node_id: u32, n_options: usize) -> (s: StrategyMemory)
        requires
            old(self).wf(),
        ensures
            final(self).wf(),
            s.wf(),
            s.seen() == (match old(self).strategy(node_id) {
                Some(v) => v,
                None => StrategyMemory::fresh(node_id, n_options),
            }),
            final(self).seen() == (MemoryView {
                strategies: old(self).seen().strategies.remove(dec_nat(node_id as nat)),
                ..old(self).seen()
            }),
    {
        let key = u64_text(node_id as u64);
        let ghost before = self.strategies@;
        let found = self.strategies.remove(key.as_str());
        assert(strategy_map(self.strategies@) =~= strategy_map(before).remove(key@));
        match found {
            Some(s) => s,
            None => StrategyMemory::new(node_id, n_options),
        }
    }

    fn put_strategy(&mut self, node_id: u32, s: StrategyMemory)
        requires
            old(self).wf(),
            s.wf(),
        ensures
            final(self).wf(),
            final(self).seen() == (MemoryView {
                strategies: old(self).seen().strategies.insert(dec_nat(node_id as nat), s.seen()),
                ..old(self).seen()
            }),
    {
        let key = u64_text(node_id as u64);
        proof {
            strategy_insert(self.strategies@, key@, s);
        }
        self.strategies.insert(key, s);
    }

    /// Makes sure that a strategy has a bucket for a context, with weights from
    /// the graph.
    fn ensure_context(
        &mut self,
        node_id: u32,
        context_key: &str,
        graph_weights: &Vec<Real>,
        n_options: usize,
    )
        requires
            old(self).wf(),
            n_options <= 0x20_0000_0000_0000,
        ensures
            final(self).wf(),
            ({
                let s = match old(self).strategy(node_id) {
                    Some(v) => v,
                    None => StrategyMemory::fresh(node_id, n_options),
                };
                let w = first_weights(graph_weights@, n_options as nat);
                let after = if s.contexts.contains_key(context_key@) {
                    s
                } else {
                    StrategyView {
                        contexts: s.contexts.insert(
                            context_key@,
                            fresh_bucket(w, n_options as nat, weighted_states(w)),
                        ),
                        ..s
                    }
                };
                final(self).seen() == (MemoryView {
                    strategies: old(self).seen().strategies.insert(
                        dec_nat(node_id as nat),
                        after,
                    ),
                    ..old(self).seen()
                })
            }),
    {
        let ghost all = self.seen().strategies;
        let ghost k = dec_nat(node_id as nat);
        let mut s = self.take_strategy(node_id, n_options);
        if s.contexts.get(context_key).is_none() {
            let w = starting_weights(graph_weights, n_options);
            let states = weighted_of(&w);
            let b = new_bucket(w, n_options, states);
            proof {
                bucket_insert(s.contexts@, context_key@, b);
            }
            s.contexts.insert(String::from_str(context_key), b);
        }
        self.put_strategy(node_id, s);
        assert(all.remove(k).insert(k, s.seen()) =~= all.insert(k, s.seen()));
    }

    /// The bucket of a context, to be changed in place. A strategy that has none
    /// gets one, with weights from the graph.
    pub fn get_or_init_context(
        &mut self,
        node_id: u32,
        context_key: &str,
        graph_weights: &Vec<Real>,
        n_options: usize,
    ) -> (b: &mut ContextBucket)
        requires
            old(self).wf(),
            n_options <= 0x20_0000_0000_0000,
        ensures
            b.wf(),
            final(b).wf() ==> final(self).wf(),
            ({
                let s = match old(self).strategy(node_id) {
                    Some(v) => v,
                    None => StrategyMemory::fresh(node_id, n_options),
                };
                let w = first_weights(graph_weights@, n_options as nat);
                &&& b.seen() == (if s.contexts.contains_key(context_key@) {
                    s.contexts[context_key@]
                } else {
                    fresh_bucket(w, n_options as nat, weighted_states(w))
                })
                &&& final(self).seen() == (MemoryView {
                    strategies: old(self).seen().strategies.insert(
                        dec_nat(node_id as nat),
                        StrategyView {
                            contexts: s.contexts.insert(context_key@, final(b).seen()),
                            ..s
                        },
                    ),
                    ..old(self).seen()
                })
            }),
    {
        let ghost all = self.seen().strategies;
        self.ensure_context(node_id, context_key, graph_weights, n_options);
        let key = u64_text(node_id as u64);
        proof {
            assert(self.seen().strategies.contains_key(key@));
            assert(self.strategies@.contains_key(key@));
            let s = self.strategies@[key@];
            assert(self.seen().strategies[key@] == s.seen());
            assert(s.seen().contexts.contains_key(context_key@));
            assert(s.contexts@.contains_key(context_key@));
            assert(s.seen().contexts[context_key@] == s.contexts@[context_key@].seen());
            strategies_change(self.strategies@, key@);
            buckets_change(s.contexts@, context_key@);
            overwritten(all, key@, s.seen());
            let fresh = match old(self).strategy(node_id) {
                Some(v) => v,
                None => StrategyMemory::fresh(node_id, n_options),
            };
            let w = first_weights(graph_weights@, n_options as nat);
            overwritten(
                fresh.contexts,
                context_key@,
                fresh_bucket(w, n_options as nat, weighted_states(w)),
            );
        }
        let s = self.strategies.value_mut(key.as_str());
        s.contexts.value_mut(context_key)
    }

    /// Makes sure that a strategy has a bucket for a candidate and a context.
    fn ensure_candidate_context(
        &mut self,
        node_id: u32,
        context_key: &str,
        candidate: CandidateId,
        graph_weights: &Vec<Real>,
        n_options: usize,
    )
        requires
            old(self).wf(),
            n_options <= 0x20_0000_0000_0000,
        ensures
            final(self).wf(),
            ({
                let s = match old(self).strategy(node_id) {
                    Some(v) => v,
                    None => StrategyMemory::fresh(node_id, n_options),
                };
                let w = first_weights(graph_weights@, n_options as nat);
                let key = candidate_key(candidate, context_key@);
                let after = if s.candidate_contexts.contains_key(key) {
                    s
                } else {
                    StrategyView {
                        candidate_contexts: s.candidate_contexts.insert(
                            key,
                            fresh_bucket(w, n_options as nat, first_states(candidate, w)),
                        ),
                        ..s
                    }
                };
                final(self).seen() == (MemoryView {
                    strategies: old(self).seen().strategies.insert(
                        dec_nat(node_id as nat),
                        after,
                    ),
                    ..old(self).seen()
                })
            }),
    {
        let ghost all = self.seen().strategies;
        let ghost k = dec_nat(node_id as nat);
        let key = cat3(candidate.as_str(), "|", context_key);
        let mut s = self.take_strategy(node_id, n_options);
        if s.candidate_contexts.get(key.as_str()).is_none() {
            let w = starting_weights(graph_weights, n_options);
            let states = make_option_states_for_candidate(candidate, &w);
            let b = new_bucket(w, n_options, states);
            proof {
                bucket_insert(s.candidate_contexts@, key@, b);
            }
            s.candidate_contexts.insert(key, b);
        }
        self.put_strategy(node_id, s);
        assert(all.remove(k).insert(k, s.seen()) =~= all.insert(k, s.seen()));
    }

    /// The bucket of a candidate and a context, to be changed in place. A strategy
    /// that has none gets one, with the states that the candidate starts with.
    pub fn get_or_init_candidate_context(
        &mut self,
        node_id: u32,
        context_key: &str,
        candidate: CandidateId,
        graph_weights: &Vec<Real>,
        n_options: usize,
    ) -> (b: &mut ContextBucket)
        requires
            old(self).wf(),
            n_options <= 0x20_0000_0000_0000,
        ensures
            b.wf(),
            final(b).wf() ==> final(self).wf(),
            ({
                let s = match old(self).strategy(node_id) {
                    Some(v) => v,
                    None => StrategyMemory::fresh(node_id, n_options),
                };
                let w = first_weights(graph_weights@, n_options as nat);
                let key = candidate_key(candidate, context_key@);
                &&& b.seen() == (if s.candidate_contexts.contains_key(key) {
                    s.candidate_contexts[key]
                } else {
                    fresh_bucket(w, n_options as nat, first_states(candidate, w))
                })
                &&& final(self).seen() == (MemoryView {
                    strategies: old(self).seen().strategies.insert(
                        dec_nat(node_id as nat),
                        StrategyView {
                            candidate_contexts: s.candidate_contexts.insert(
                                key,
                                final(b).seen(),
                            ),
                            ..s
                        },
                    ),
                    ..old(self).seen()
                })
            }),
    {
        let ghost all = self.seen().strategies;
        self.ensure_candidate_context(node_id, context_key, candidate, graph_weights, n_options);
        let key = u64_text(node_id as u64);
        let full = cat3(candidate.as_str(), "|", context_key);
        proof {
            assert(full@ == candidate_key(candidate, context_key@));
            assert(self.seen().strategies.contains_key(key@));
            assert(self.strategies@.contains_key(key@));
            let s = self.strategies@[key@];
            assert(self.seen().strategies[key@] == s.seen());
            assert(s.seen().candidate_contexts.contains_key(full@));
            assert(s.candidate_contexts@.contains_key(full@));
            assert(s.seen().candidate_contexts[full@] == s.candidate_contexts@[full@].seen());
            strategies_change(self.strategies@, key@);
            buckets_change(s.candidate_contexts@, full@);
            overwritten(all, key@, s.seen());
            let before = match old(self).strategy(node_id) {
                Some(v) => v,
                None => StrategyMemory::fresh(node_id, n_options),
            };
            let w = first_weights(graph_weights@, n_options as nat);
            overwritten(
                before.candidate_contexts,
                full@,
                fresh_bucket(w, n_options as nat, first_states(candidate, w)),
            );
        }
        let s = self.strategies.value_mut(key.as_str());
        s.candidate_contexts.value_mut(full.as_str())
    }

    /// Makes sure that a strategy has a portfolio.
    fn ensure_meta_bandit(
        &mut self,
        node_id: u32,
        n_options: usize,
        candidates: &Vec<CandidateId>,
    )
        requires
            old(self).wf(),
        ensures
            final(self).wf(),
            ({
                let s = match old(self).strategy(node_id) {
                    Some(v) => v,
                    None => StrategyMemory::fresh(node_id, n_options),
                };
                let after = if s.meta_bandit is Some {
                    s
                } else {
                    StrategyView { meta_bandit: Some(MetaBandit::fresh(candidates@)), ..s }
                };
                final(self).seen() == (MemoryView {
                    strategies: old(self).seen().strategies.insert(
                        dec_nat(node_id as nat),
                        after,
                    ),
                    ..old(self).seen()
                })
            }),
    {
        let ghost all = self.seen().strategies;
        let ghost k = dec_nat(node_id as nat);
        let mut s = self.take_strategy(node_id, n_options);
        if s.meta_bandit.is_none() {
            s.meta_bandit = Some(MetaBandit::new_with_candidates(candidates));
        }
        self.put_strategy(node_id, s);
        assert(all.remove(k).insert(k, s.seen()) =~= all.insert(k, s.seen()));
    }

    /// The portfolio of a strategy, to be changed in place. A strategy that has
    /// none gets one of these candidates.
    pub fn get_or_init_meta_bandit(
        &mut self,
        node_id: u32,
        n_options: usize,
        candidates: &Vec<CandidateId>,
    ) -> (m: &mut MetaBandit)
        requires
            old(self).wf(),
        ensures
            final(self).wf(),
            ({
                let s = match old(self).strategy(node_id) {
                    Some(v) => v,
                    None => StrategyMemory::fresh(node_id, n_options),
                };
                &&& m.seen() == (match s.meta_bandit {
                    Some(b) => b,
                    None => MetaBandit::fresh(candidates@),
                })
                &&& final(self).seen() == (MemoryView {
                    strategies: old(self).seen().strategies.insert(
                        dec_nat(node_id as nat),
                        StrategyView { meta_bandit: Some(final(m).seen()), ..s },
                    ),
                    ..old(self).seen()
                })
            }),
    {
        let ghost all = self.seen().strategies;
        let key = u64_text(node_id as u64);
        self.ensure_meta_bandit(node_id, n_options, candidates);
        proof {
            assert(self.seen().strategies.contains_key(key@));
            assert(self.strategies@.contains_key(key@));
            let s = self.strategies@[key@];
            assert(self.seen().strategies[key@] == s.seen());
            strategies_change(self.strategies@, key@);
            overwritten(all, key@, s.seen());
        }
        let s = self.strategies.value_mut(key.as_str());
        held_bandit(&mut s.meta_bandit)
    }

    /// Makes sure that a strategy has a change detector for a context. One that
    /// is there keeps its sensitivity.
    fn ensure_context_detector(
        &mut self,
        node_id: u32,
        context_key: &str,
        context_adwin_delta: Real,
    )
        requires
            old(self).wf(),
        ensures
            final(self).wf(),
            ({
                let s = match old(self).strategy(node_id) {
                    Some(v) => v,
                    None => StrategyMemory::fresh(node_id, 0),
                };
                let after = if s.detectors.contains_key(context_key@) {
                    s
                } else {
                    StrategyView {
                        detectors: s.detectors.insert(
                            context_key@,
                            fresh_detector(context_adwin_delta),
                        ),
                        ..s
                    }
                };
                final(self).seen() == (MemoryView {
                    strategies: old(self).seen().strategies.insert(
                        dec_nat(node_id as nat),
                        after,
                    ),
                    ..old(self).seen()
                })
            }),
    {
        let ghost all = self.seen().strategies;
        let ghost k = dec_nat(node_id as nat);
        let mut s = self.take_strategy(node_id, 0);
        if s.context_detectors.get(context_key).is_none() {
            let d = AdwinDetector::new(context_adwin_delta, 1000);
            proof {
                detector_insert(s.context_detectors@, context_key@, d);
                assert(d.window@ =~= Seq::<Real>::empty());
            }
            s.context_detectors.insert(String::from_str(context_key), d);
        }
        self.put_strategy(node_id, s);
        assert(all.remove(k).insert(k, s.seen()) =~= all.insert(k, s.seen()));
    }

    /// The change detector of a context, to be changed in place. A strategy that
    /// has none gets one; one that is there keeps its sensitivity.
    pub fn get_or_init_context_detector_with_delta(
        &mut self,
        node_id: u32,
        context_key: &str,
        context_adwin_delta: Real,
    ) -> (d: &mut AdwinDetector)
        requires
            old(self).wf(),
        ensures
            final(self).wf(),
            ({
                let s = match old(self).strategy(node_id) {
                    Some(v) => v,
                    None => StrategyMemory::fresh(node_id, 0),
                };
                &&& detector_view(*d) == (if s.detectors.contains_key(context_key@) {
                    s.detectors[context_key@]
                } else {
                    fresh_detector(context_adwin_delta)
                })
                &&& final(self).seen() == (MemoryView {
                    strategies: old(self).seen().strategies.insert(
                        dec_nat(node_id as nat),
                        StrategyView {
                            detectors: s.detectors.insert(context_key@, detector_view(*final(d))),
                            ..s
                        },
                    ),
                    ..old(self).seen()
                })
            }),
    {
        let ghost all = self.seen().strategies;
        self.ensure_context_detector(node_id, context_key, context_adwin_delta);
        let key = u64_text(node_id as u64);
        proof {
            assert(self.seen().strategies.contains_key(key@));
            assert(self.strategies@.contains_key(key@));
            let s = self.strategies@[key@];
            assert(self.seen().strategies[key@] == s.seen());
            assert(s.seen().detectors.contains_key(context_key@));
            assert(s.context_detectors@.contains_key(context_key@));
            assert(s.seen().detectors[context_key@] == detector_view(
                s.context_detectors@[context_key@],
            ));
            strategies_change(self.strategies@, key@);
            detectors_change(s.context_detectors@, context_key@);
            overwritten(all, key@, s.seen());
            let before = match old(self).strategy(node_id) {
                Some(v) => v,
                None => StrategyMemory::fresh(node_id, 0),
            };
            overwritten(before.detectors, context_key@, fresh_detector(context_adwin_delta));
        }
        let s = self.strategies.value_mut(key.as_str());
        s.context_detectors.value_mut(context_key)
    }

    /// Like `get_or_init_context_detector_with_delta`, with the default
    /// sensitivity of contexts.
    pub fn get_or_init_context_detector(&mut self, node_id: u32, context_key: &str) -> (d:
        &mut AdwinDetector)
        requires
            old(self).wf(),
        ensures
            final(self).wf(),
            ({
                let s = match old(self).strategy(node_id) {
                    Some(v) => v,
                    None => StrategyMemory::fresh(node_id, 0),
                };
                &&& detector_view(*d) == (if s.detectors.contains_key(context_key@) {
                    s.detectors[context_key@]
                } else {
                    fresh_detector(Real { bits: R_0_002 })
                })
                &&& final(self).seen() == (MemoryView {
                    strategies: old(self).seen().strategies.insert(
                        dec_nat(node_id as nat),
                        StrategyView {
                            detectors: s.detectors.insert(context_key@, detector_view(*final(d))),
                            ..s
                        },
                    ),
                    ..old(self).seen()
                })
            }),
    {
        self.get_or_init_context_detector_with_delta(
            node_id,
            context_key,
            default_context_adwin_delta(),
        )
    }

    /// The portfolio of a strategy.
    pub fn meta_bandit_for(&self, node_id: u32) -> (r: Option<&MetaBandit>)
        requires
            self.wf(),
        ensures
            match self.strategy(node_id) {
                Some(s) => match s.meta_bandit {
                    Some(m) => r is Some && r->Some_0.seen() == m,
                    None => r is None,
                },
                None => r is None,
            },
    {
        let key = u64_text(node_id as u64);
        match self.strategies.get(key.as_str()) {
            Some(s) => match &s.meta_bandit {
                Some(m) => Some(m),
                None => None,
            },
            None => None,
        }
    }

    /// Forgets all rounds of a strategy's portfolio.
    pub fn reset_meta_bandit(&mut self, node_id: u32)
        requires
            old(self).wf(),
        ensures
            final(self).wf(),
            match old(self).strategy(node_id) {
                Some(s) => match s.meta_bandit {
                    Some(m) => final(self).seen() == (MemoryView {
                        strategies: old(self).seen().strategies.insert(
                            dec_nat(node_id as nat),
                            StrategyView { meta_bandit: Some(forgotten(m)), ..s },
                        ),
                        ..old(self).seen()
                    }),
                    None => final(self).seen() == old(self).seen(),
                },
                None => final(self).seen() == old(self).seen(),
            },
    {
        let ghost all = self.seen().strategies;
        let ghost k = dec_nat(node_id as nat);
        let key = u64_text(node_id as u64);
        if self.strategies.get(key.as_str()).is_none() {
            return ;
        }
        let mut s = self.take_strategy(node_id, 0);
        if let Some(m) = s.meta_bandit {
            let mut b = m;
            b.reset();
            s.meta_bandit = Some(b);
        }
        self.put_strategy(node_id, s);
        assert(all.remove(k).insert(k, s.seen()) =~= all.insert(k, s.seen()));
        assert(all.insert(k, all[k]) =~= all);
    }

    /// Empties the window of a context's change detector.
    pub fn reset_context_detector(&mut self, node_id: u32, context_key: &str)
        requires
            old(self).wf(),
        ensures
            final(self).wf(),
            match old(self).strategy(node_id) {
                Some(s) => final(self).seen() == (MemoryView {
                    strategies: old(self).seen().strategies.insert(
                        dec_nat(node_id as nat),
                        if s.detectors.contains_key(context_key@) {
                            StrategyView {
                                detectors: s.detectors.insert(
                                    context_key@,
                                    DetectorView {
                                        window: Seq::empty(),
                                        ..s.detectors[context_key@]
                                    },
                                ),
                                ..s
                            }
                        } else {
                            s
                        },
                    ),
                    ..old(self).seen()
                }),
                None => final(self).seen() == old(self).seen(),
            },
    {
        let ghost all = self.seen().strategies;
        let ghost k = dec_nat(node_id as nat);
        let key = u64_text(node_id as u64);
        if self.strategies.get(key.as_str()).is_none() {
            return ;
        }
        let mut s = self.take_strategy(node_id, 0);
        let ghost before = s.context_detectors@;
        if let Some(found) = s.context_detectors.remove(context_key) {
            let mut d = found;
            d.reset();
            proof {
                detector_insert(s.context_detectors@, context_key@, d);
                assert(d.window@ =~= Seq::<Real>::empty());
            }
            s.context_detectors.insert(String::from_str(context_key), d);
            assert(detector_map(before.remove(context_key@)).insert(context_key@, detector_view(d))
                =~= detector_map(before).insert(context_key@, detector_view(d)));
        } else {
            assert(s.context_detectors@ =~= before);
        }
        self.put_strategy(node_id, s);
        assert(all.remove(k).insert(k, s.seen()) =~= all.insert(k, s.seen()));
    }

    /// The detector of unfamiliar discrete contexts, as it is written.
    pub fn discrete_ood_for(&self, node_id: u32) -> (r: Option<&Json>)
        requires
            self.wf(),
        ensures
            match self.strategy(node_id) {
                Some(s) => match s.discrete_ood {
                    Some(j) => r is Some && js(*r->Some_0) == j,
                    None => r is None,
                },
                None => r is None,
            },
    {
        let key = u64_text(node_id as u64);
        match self.strategies.get(key.as_str()) {
            Some(s) => match &s.discrete_ood {
                Some(j) => Some(j),
                None => None,
            },
            None => None,
        }
    }

    /// The detector of unfamiliar features, as it is written.
    pub fn feature_ood_for(&self, node_id: u32) -> (r: Option<&Json>)
        requires
            self.wf(),
        ensures
            match self.strategy(node_id) {
                Some(s) => match s.feature_ood {
                    Some(j) => r is Some && js(*r->Some_0) == j,
                    None => r is None,
                },
                None => r is None,
            },
    {
        let key = u64_text(node_id as u64);
        match self.strategies.get(key.as_str()) {
            Some(s) => match &s.feature_ood {
                Some(j) => Some(j),
                None => None,
            },
            None => None,
        }
    }

    /// Drops the buckets of all candidates for a context.
    pub fn reset_candidate_contexts(&mut self, node_id: u32, context_key: &str)
        requires
            old(self).wf(),
        ensures
            final(self).wf(),
            match old(self).strategy(node_id) {
                Some(s) => final(self).seen() == (MemoryView {
                    strategies: old(self).seen().strategies.insert(
                        dec_nat(node_id as nat),
                        StrategyView {
                            candidate_contexts: without_candidates(
                                s.candidate_contexts,
                                context_key@,
                            ),
                            ..s
                        },
                    ),
                    ..old(self).seen()
                }),
                None => final(self).seen() == old(self).seen(),
            },
    {
        let ghost all = self.seen().strategies;
        let ghost k = dec_nat(node_id as nat);
        let key = u64_text(node_id as u64);
        if self.strategies.get(key.as_str()).is_none() {
            return ;
        }
        let mut s = self.take_strategy(node_id, 0);
        drop_candidate(&mut s, CandidateId::Thompson, context_key);
        drop_candidate(&mut s, CandidateId::Ucb, context_key);
        drop_candidate(&mut s, CandidateId::Weighted, context_key);
        drop_candidate(&mut s, CandidateId::EpsilonGreedy, context_key);
        drop_candidate(&mut s, CandidateId::Greedy, context_key);
        drop_candidate(&mut s, CandidateId::LinUcb, context_key);
        drop_candidate(&mut s, CandidateId::LinTs, context_key);
        self.put_strategy(node_id, s);
        assert(all.remove(k).insert(k, s.seen()) =~= all.insert(k, s.seen()));
    }

    /// The candidates that have a bucket for a context.
    pub fn candidates_for_context(&self, node_id: u32, context_key: &str) -> (r: Vec<CandidateId>)
        requires
            self.wf(),
        ensures
            forall|c: CandidateId| #[trigger]
                r@.contains(c) <==> (self.strategy(node_id) is Some && self.strategy(
                    node_id,
                )->Some_0.candidate_contexts.contains_key(candidate_key(c, context_key@))),
            r@.no_duplicates(),
    {
        let mut r: Vec<CandidateId> = Vec::new();
        let key = u64_text(node_id as u64);
        match self.strategies.get(key.as_str()) {
            None => {},
            Some(s) => {
                let all = CandidateId::all();
                let mut i: usize = 0;
                while i < 7
                    invariant
                        i <= 7,
                        self.strategy(node_id) == Some(s.seen()),
                        s.wf(),
                        all@ == seq![
                            CandidateId::Thompson,
                            CandidateId::Ucb,
                            CandidateId::Weighted,
                            CandidateId::EpsilonGreedy,
                            CandidateId::Greedy,
                            CandidateId::LinUcb,
                            CandidateId::LinTs,
                        ],
                        forall|c: CandidateId| #[trigger]
                            r@.contains(c) <==> listed(all@, i as int, c)
                                && s.seen().candidate_contexts.contains_key(
                                candidate_key(c, context_key@),
                            ),
                        r@.no_duplicates(),
                    decreases 7 - i,
                {
                    let ghost before = r@;
                    let c = all[i];
                    assert(!before.contains(c)) by {
                        if listed(all@, i as int, c) {
                            let k = choose|k: int| 0 <= k < i && all@[k] == c;
                            assert(all@[k] == all@[i as int]);
                        }
                    }
                    let full = cat3(c.as_str(), "|", context_key);
                    let there = s.candidate_contexts.get(full.as_str()).is_some();
                    if there {
                        r.push(c);
                    }
                    proof {
                        assert forall|d: CandidateId| #[trigger]
                            r@.contains(d) <==> listed(all@, i + 1, d)
                                && s.seen().candidate_contexts.contains_key(
                                candidate_key(d, context_key@),
                            ) by {
                            if there {
                                assert(r@[r@.len() - 1] == c);
                                if before.contains(d) {
                                    let k = choose|k: int| 0 <= k < before.len() && before[k] == d;
                                    assert(r@[k] == d);
                                }
                                if r@.contains(d) && d != c {
                                    let k = choose|k: int| 0 <= k < r@.len() && r@[k] == d;
                                    assert(before[k] == d);
                                }
                            }
                            assert(all@[i as int] == c);
                            if listed(all@, i + 1, d) && d != c {
                                let k = choose|k: int| 0 <= k < i + 1 && all@[k] == d;
                                assert(0 <= k < i && all@[k] == d);
                            }
                            if listed(all@, i as int, d) {
                                let k = choose|k: int| 0 <= k < i && all@[k] == d;
                                assert(0 <= k < i + 1 && all@[k] == d);
                            }
                        }
                    }
                    i = i + 1;
                }
                proof {
                    assert forall|c: CandidateId| #[trigger] listed(all@, 7, c) by {
                        match c {
                            CandidateId::Thompson => assert(all@[0] == c),
                            CandidateId::Ucb => assert(all@[1] == c),
                            CandidateId::Weighted => assert(all@[2] == c),
                            CandidateId::EpsilonGreedy => assert(all@[3] == c),
                            CandidateId::Greedy => assert(all@[4] == c),
                            CandidateId::LinUcb => assert(all@[5] == c),
                            CandidateId::LinTs => assert(all@[6] == c),
                        }
                    }
                }
            },
        }
        r
    }

    /// The contexts of a strategy.
    pub fn list_contexts(&self, node_id: u32) -> (r: Vec<String>)
        requires
            self.wf(),
        ensures
            forall|key: Seq<char>| #[trigger]
                texts(r@).contains(key) <==> (self.strategy(node_id) is Some && self.strategy(
                    node_id,
                )->Some_0.contexts.contains_key(key)),
            texts(r@).no_duplicates(),
    {
        let mut r: Vec<String> = Vec::new();
        let key = u64_text(node_id as u64);
        match self.strategies.get(key.as_str()) {
            None => {},
            Some(s) => {
                let mut i: usize = 0;
                while i < s.contexts.entries.len()
                    invariant
                        i <= s.contexts.entries.len(),
                        r@.len() == i,
                        forall|k: int|
                            0 <= k < i ==> (#[trigger] r@[k])@ == s.contexts.entries@[k].0@,
                    decreases s.contexts.entries.len() - i,
                {
                    r.push(s.contexts.entries[i].0.clone());
                    i = i + 1;
                }
                proof {
                    entries_are_the_map(s.contexts.entries@);
                    assert forall|key: Seq<char>| #[trigger]
                        texts(r@).contains(key) <==> s.seen().contexts.contains_key(key) by {
                        if texts(r@).contains(key) {
                            let k = choose|k: int| 0 <= k < texts(r@).len() && texts(r@)[k] == key;
                            assert(s.contexts.entries@[k].0@ == key);
                        }
                        if s.contexts@.contains_key(key) {
                            let k = choose|k: int|
                                0 <= k < s.contexts.entries@.len() && (
                                #[trigger] s.contexts.entries@[k]).0@ == key;
                            assert(texts(r@)[k] == key);
                        }
                    }
                }
            },
        }
        r
    }
}

/// The portfolio that is there.
fn held_bandit(o: &mut Option<MetaBandit>) -> (m: &mut MetaBandit)
    requires
        *old(o) is Some,
    ensures
        *m == (*old(o))->Some_0,
        *final(o) == Some(*final(m)),
{
    match o {
        Some(m) => m,
        None => vstd::pervasive::unreached(),
    }
}

/// A portfolio without its rounds.
pub open spec fn forgotten(m: BanditView) -> BanditView {
    BanditView {
        candidates: m.candidates.map_values(|c: CandidateRecord| CandidateRecord::fresh(c.id)),
        total_rounds: 0,
        ..m
    }
}

/// One of the first `n` candidates.
pub open spec fn listed(all: Seq<CandidateId>, n: int, c: CandidateId) -> bool {
    exists|k: int| 0 <= k < n && all[k] == c
}

pub open spec fn fresh_detector(delta: Real) -> DetectorView {
    DetectorView { window: Seq::empty(), delta, max_size: 1000, min_subwindow: 5 }
}

/// The buckets without those of any candidate for a context.
pub open spec fn without_candidates(m: Map<Seq<char>, BucketView>, context: Seq<char>) -> Map<
    Seq<char>,
    BucketView,
> {
    m.remove(candidate_key(CandidateId::Thompson, context)).remove(
        candidate_key(CandidateId::Ucb, context),
    ).remove(candidate_key(CandidateId::Weighted, context)).remove(
        candidate_key(CandidateId::EpsilonGreedy, context),
    ).remove(candidate_key(CandidateId::Greedy, context)).remove(
        candidate_key(CandidateId::LinUcb, context),
    ).remove(candidate_key(CandidateId::LinTs, context))
}

fn drop_candidate(s: &mut StrategyMemory, c: CandidateId, context: &str)
    requires
        old(s).wf(),
    ensures
        final(s).wf(),
        final(s).seen() == (StrategyView {
            candidate_contexts: old(s).seen().candidate_contexts.remove(
                candidate_key(c, context@),
            ),
            ..old(s).seen()
        }),
{
    let key = cat3(c.as_str(), "|", context);
    let ghost before = s.candidate_contexts@;
    let _ = s.candidate_contexts.remove(key.as_str());
    assert(bucket_map(s.candidate_contexts@) =~= bucket_map(before).remove(key@));
}

impl Default for CapsuleMemory {
    fn default() -> (m: Self)
        ensures
            m.seen() == (MemoryView {
                strategies: Map::empty(),
                version: 2,
                windows: Map::empty(),
                shared_state: None,
            }),
            m.wf(),
    {
        let m = CapsuleMemory {
            strategies: Table::new(),
            version: 2,
            time_series_windows: Table::new(),
            shared_state: None,
        };
        assert(m.seen().strategies =~= Map::<Seq<char>, StrategyView>::empty());
        assert(m.seen().windows =~= Map::<Seq<char>, (Seq<Real>, usize)>::empty());
        m
    }
}

/// A bucket that was made once is there ever after: making sure of it again
/// changes nothing.
pub proof fn contexts_are_made_once(
    m: CapsuleMemory,
    node_id: u32,
    context: Seq<char>,
    s: StrategyView,
)
    requires
        m.strategy(node_id) == Some(s),
        s.contexts.contains_key(context),
    ensures
        m.seen().strategies.insert(dec_nat(node_id as nat), s) == m.seen().strategies,
{
    assert(m.seen().strategies.insert(dec_nat(node_id as nat), s) =~= m.seen().strategies);
}

} // verus!
