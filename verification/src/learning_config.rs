//! The settings of the learning layer as a whole, and their JSON.
use crate::feature_schema::{ContextSpec, as_size, size_of_u64};
use crate::json::{Js, Json, empty_object, field_behind, fields, js, jss, natural_js, no_fields, put, real_js, reals_in_list, reals_js, reals_of, reals_round_trip};
use crate::learning_sections::{ActionSpace, Algorithm, ChangeDetectionConfig, ConformalConfig, CorruptionRobustConfig, DecayConfig, RefusalConfig, RiskSensitiveConfig, SafetyConfig, SharedStateScoreKind, WindowConfig, change_default, change_js, change_json, change_of, change_round_trip, change_valid, conformal_default, conformal_js, conformal_json, conformal_of, conformal_round_trip, conformal_valid, corruption_default, corruption_js, corruption_json, corruption_of, corruption_round_trip, corruption_valid, decay_default, decay_js, decay_json, decay_of, decay_round_trip, decay_valid, default_change, default_conformal, default_corruption, default_decay, default_refusal, default_risk, default_safety, default_window, read_change, read_conformal, read_corruption, read_decay, read_risk, read_safety, read_window, risk_default, risk_js, risk_json, risk_of, risk_round_trip, risk_valid, safety_default, safety_js, safety_json, safety_of, safety_round_trip, safety_valid, window_default, window_js, window_json, window_of, window_round_trip, window_valid};
use crate::number::{ONE, Real};
use crate::real_constants::{R_0_0001, R_0_05, R_0_1, R_0_5, R_0_999, R_10_0, R_1EM06, R_1EM09};
use crate::strings::{parts, texts_push};
use crate::table::{Table, entries_map};
use crate::text::same;
use crate::values::texts;
use vstd::prelude::*;
use vstd::string::StringExecFns;

verus! {

/// A signal that comes after the fact.
#[derive(Debug)]
pub struct DelayedSignalSpec {
    pub name: String,
    pub noise_variance: Real,
    pub bias: Real,
}

#[derive(Debug)]
pub struct DelayedFeedbackConfig {
    pub enabled: bool,
    pub signals: Vec<DelayedSignalSpec>,
}

#[derive(Debug)]
pub struct ParetoConfig {
    pub enabled: bool,
    pub objectives: Vec<String>,
}

/// The weights of the parts of an outcome.
#[derive(Debug)]
pub struct RewardPolicy {
    pub weights: Table<Real>,
}

/// The settings of a state that all options share.
#[derive(Debug)]
pub struct SharedStateConfig {
    pub enabled: bool,
    pub d_context: usize,
    pub d_option: usize,
    pub lambda: Real,
    pub alpha: Real,
    pub score_kind: SharedStateScoreKind,
    /// The features of each option, by its name.
    pub option_features: Table<Vec<Real>>,
}

/// The settings of the learning layer.
#[derive(Debug)]
pub struct LearningConfig {
    pub algorithm: Algorithm,
    pub decay: DecayConfig,
    pub safety: SafetyConfig,
    pub window: WindowConfig,
    pub change_detection: ChangeDetectionConfig,
    pub reward_policy: Option<RewardPolicy>,
    pub learning_rate: Real,
    pub delayed_feedback: DelayedFeedbackConfig,
    pub risk_sensitive: RiskSensitiveConfig,
    pub corruption_robust: CorruptionRobustConfig,
    pub conformal: ConformalConfig,
    pub pareto: ParetoConfig,
    pub context_spec: ContextSpec,
    pub refusal: RefusalConfig,
    pub action_space: ActionSpace,
    pub shared_state: SharedStateConfig,
}

/// A signal with its name as a sequence.
pub struct SignalView {
    pub name: Seq<char>,
    pub noise_variance: Real,
    pub bias: Real,
}

pub open spec fn signal_views(s: Seq<DelayedSignalSpec>) -> Seq<SignalView> {
    s.map_values(
        |d: DelayedSignalSpec|
            SignalView { name: d.name@, noise_variance: d.noise_variance, bias: d.bias },
    )
}

/// A map of lists with the lists as sequences.
pub open spec fn list_map(m: Map<Seq<char>, Vec<Real>>) -> Map<Seq<char>, Seq<Real>> {
    m.map_values(|v: Vec<Real>| v@)
}

/// Shared settings with what they hold as sequences.
pub struct SharedView {
    pub enabled: bool,
    pub d_context: usize,
    pub d_option: usize,
    pub lambda: Real,
    pub alpha: Real,
    pub score_kind: SharedStateScoreKind,
    pub option_features: Map<Seq<char>, Seq<Real>>,
}

impl SharedStateConfig {
    pub open spec fn seen(self) -> SharedView {
        SharedView {
            enabled: self.enabled,
            d_context: self.d_context,
            d_option: self.d_option,
            lambda: self.lambda,
            alpha: self.alpha,
            score_kind: self.score_kind,
            option_features: list_map(self.option_features@),
        }
    }
}

/// The settings with what they hold as sequences and maps.
pub struct ConfigView {
    pub algorithm: Algorithm,
    pub decay: DecayConfig,
    pub safety: SafetyConfig,
    pub window: WindowConfig,
    pub change_detection: ChangeDetectionConfig,
    pub reward_policy: Option<Map<Seq<char>, Real>>,
    pub learning_rate: Real,
    pub delayed_enabled: bool,
    pub signals: Seq<SignalView>,
    pub risk_sensitive: RiskSensitiveConfig,
    pub corruption_robust: CorruptionRobustConfig,
    pub conformal: ConformalConfig,
    pub pareto_enabled: bool,
    pub objectives: Seq<Seq<char>>,
    pub context_spec: ContextSpec,
    pub refusal: RefusalConfig,
    pub action_space: ActionSpace,
    pub shared_state: SharedView,
}

impl LearningConfig {
    pub open spec fn seen(self) -> ConfigView {
        ConfigView {
            algorithm: self.algorithm,
            decay: self.decay,
            safety: self.safety,
            window: self.window,
            change_detection: self.change_detection,
            reward_policy: match self.reward_policy {
                Some(p) => Some(p.weights@),
                None => None,
            },
            learning_rate: self.learning_rate,
            delayed_enabled: self.delayed_feedback.enabled,
            signals: signal_views(self.delayed_feedback.signals@),
            risk_sensitive: self.risk_sensitive,
            corruption_robust: self.corruption_robust,
            conformal: self.conformal,
            pareto_enabled: self.pareto.enabled,
            objectives: texts(self.pareto.objectives@),
            context_spec: self.context_spec,
            refusal: self.refusal,
            action_space: self.action_space,
            shared_state: self.shared_state.seen(),
        }
    }

    /// The tables have each key once.
    pub open spec fn wf(self) -> bool {
        &&& self.reward_policy matches Some(p) ==> p.weights.wf()
        &&& self.shared_state.option_features.wf()
        &&& self.shared_state.option_features.sorted()
    }
}

// Delayed feedback

/// A signal that JSON declares.
pub open spec fn signal_of(j: Js) -> Option<SignalView> {
    match j.str_at("name"@) {
        Some(name) => Some(
            SignalView {
                name,
                noise_variance: j.real_or("noiseVariance"@, Real { bits: ONE }).spec_max(Real { bits: R_1EM06 }),
                bias: j.real_or("bias"@, Real { bits: 0 }),
            },
        ),
        None => None,
    }
}

/// The signals among the items.
pub open spec fn signals_of(s: Seq<Js>) -> Seq<SignalView>
    decreases s.len(),
{
    if s.len() == 0 {
        Seq::empty()
    } else {
        match signal_of(s.last()) {
            Some(d) => signals_of(s.drop_last()).push(d),
            None => signals_of(s.drop_last()),
        }
    }
}

fn read_signals(a: &Vec<Json>) -> (r: Vec<DelayedSignalSpec>)
    ensures
        signal_views(r@) == signals_of(jss(a@)),
{
    let ghost all = jss(a@);
    let mut r: Vec<DelayedSignalSpec> = Vec::new();
    let mut i: usize = 0;
    proof {
        assert(all.take(0) == Seq::<Js>::empty());
        assert(signal_views(r@) =~= Seq::<SignalView>::empty());
    }
    while i < a.len()
        invariant
            i <= a.len(),
            all == jss(a@),
            signal_views(r@) == signals_of(all.take(i as int)),
        decreases a.len() - i,
    {
        assert(all.take(i + 1).drop_last() == all.take(i as int));
        assert(all.take(i + 1).last() == js(a@[i as int]));
        if let Some(name) = a[i].str_at("name") {
            let ghost before = r@;
            let noise = a[i].real_or("noiseVariance", Real { bits: ONE }).max(Real { bits: R_1EM06 });
            let bias = a[i].real_or("bias", Real { bits: 0 });
            let d = DelayedSignalSpec { name: String::from_str(name), noise_variance: noise, bias };
            r.push(d);
            assert(signal_views(r@) =~= signal_views(before).push(
                SignalView { name: d.name@, noise_variance: d.noise_variance, bias: d.bias },
            ));
        }
        i = i + 1;
    }
    assert(all.take(i as int) == all);
    r
}

pub open spec fn signal_js(d: SignalView) -> Js {
    Js::Obj(
        no_fields().push(("name"@, Js::Str(d.name))).push(
            ("noiseVariance"@, real_js(d.noise_variance)),
        ).push(("bias"@, real_js(d.bias))),
    )
}

pub open spec fn signals_js(s: Seq<SignalView>) -> Seq<Js> {
    s.map_values(|d: SignalView| signal_js(d))
}

fn signals_json(v: &Vec<DelayedSignalSpec>) -> (j: Json)
    ensures
        js(j) == Js::Arr(signals_js(signal_views(v@))),
{
    let mut a: Vec<Json> = Vec::new();
    let mut i: usize = 0;
    while i < v.len()
        invariant
            i <= v.len(),
            a@.len() == i,
            forall|k: int|
                0 <= k < i ==> js(#[trigger] a@[k]) == signal_js(signal_views(v@)[k]),
        decreases v.len() - i,
    {
        let mut o = empty_object();
        put(&mut o, "name", Json::text(v[i].name.as_str()));
        put(&mut o, "noiseVariance", Json::number(v[i].noise_variance));
        put(&mut o, "bias", Json::number(v[i].bias));
        a.push(Json::Obj(o));
        i = i + 1;
    }
    assert(jss(a@) =~= signals_js(signal_views(v@)));
    Json::Arr(a)
}

pub open spec fn signal_valid(d: SignalView) -> bool {
    &&& d.noise_variance.spec_is_finite()
    &&& d.noise_variance.spec_max(Real { bits: R_1EM06 }) == d.noise_variance
    &&& d.bias.spec_is_finite()
}

proof fn signals_round_trip(s: Seq<SignalView>)
    requires
        forall|i: int| 0 <= i < s.len() ==> signal_valid(#[trigger] s[i]),
    ensures
        signals_of(signals_js(s)) == s,
    decreases s.len(),
{
    broadcast use field_behind;

    if s.len() > 0 {
        let front = s.drop_last();
        assert forall|i: int| 0 <= i < front.len() implies signal_valid(#[trigger] front[i]) by {
            assert(front[i] == s[i]);
        }
        signals_round_trip(front);
        assert(signals_js(s).drop_last() =~= signals_js(front));
        let d = s[s.len() - 1];
        assert(signal_valid(d));
        reveal_strlit("name");
        reveal_strlit("noiseVariance");
        reveal_strlit("bias");
        assert("name"@.len() == 4 && "noiseVariance"@.len() == 13 && "bias"@.len() == 4);
        assert("name"@[0] != "bias"@[0]);
        let j = signal_js(d);
        assert(j.get("name"@) is Some);
        assert(j.get("noiseVariance"@) is Some);
        assert(j.get("bias"@) is Some);
        assert(signal_of(j) == Some(d));
        assert(front.push(d) =~= s);
    } else {
        assert(s =~= Seq::<SignalView>::empty());
    }
}

// Objectives

/// The texts among the items.
pub open spec fn texts_of(s: Seq<Js>) -> Seq<Seq<char>>
    decreases s.len(),
{
    if s.len() == 0 {
        Seq::empty()
    } else {
        match s.last().as_str() {
            Some(t) => texts_of(s.drop_last()).push(t),
            None => texts_of(s.drop_last()),
        }
    }
}

/// The texts among the items of a list.
pub fn read_texts(a: &Vec<Json>) -> (r: Vec<String>)
    ensures
        texts(r@) == texts_of(jss(a@)),
{
    let ghost all = jss(a@);
    let mut r: Vec<String> = Vec::new();
    let mut i: usize = 0;
    proof {
        assert(all.take(0) == Seq::<Js>::empty());
        assert(texts(r@) =~= Seq::<Seq<char>>::empty());
    }
    while i < a.len()
        invariant
            i <= a.len(),
            all == jss(a@),
            texts(r@) == texts_of(all.take(i as int)),
        decreases a.len() - i,
    {
        assert(all.take(i + 1).drop_last() == all.take(i as int));
        assert(all.take(i + 1).last() == js(a@[i as int]));
        if let Some(t) = a[i].as_str() {
            let s = String::from_str(t);
            proof {
                texts_push(r@, s);
            }
            r.push(s);
        }
        i = i + 1;
    }
    assert(all.take(i as int) == all);
    r
}

pub open spec fn texts_js(s: Seq<Seq<char>>) -> Seq<Js> {
    s.map_values(|t: Seq<char>| Js::Str(t))
}

/// A list of texts as JSON.
pub fn texts_json(v: &Vec<String>) -> (j: Json)
    ensures
        js(j) == Js::Arr(texts_js(texts(v@))),
{
    let mut a: Vec<Json> = Vec::new();
    let mut i: usize = 0;
    while i < v.len()
        invariant
            i <= v.len(),
            a@.len() == i,
            forall|k: int| 0 <= k < i ==> js(#[trigger] a@[k]) == Js::Str(v@[k]@),
        decreases v.len() - i,
    {
        a.push(Json::text(v[i].as_str()));
        i = i + 1;
    }
    assert(jss(a@) =~= texts_js(texts(v@)));
    Json::Arr(a)
}

proof fn texts_round_trip(s: Seq<Seq<char>>)
    ensures
        texts_of(texts_js(s)) == s,
    decreases s.len(),
{
    if s.len() > 0 {
        texts_round_trip(s.drop_last());
        assert(texts_js(s).drop_last() =~= texts_js(s.drop_last()));
        assert(s.drop_last().push(s.last()) =~= s);
    } else {
        assert(s =~= Seq::<Seq<char>>::empty());
    }
}

// Weights by name

/// The numbers among the fields, by name.
pub open spec fn reals_by_name(o: Seq<(Seq<char>, Js)>) -> Map<Seq<char>, Real>
    decreases o.len(),
{
    if o.len() == 0 {
        Map::empty()
    } else {
        match o.last().1.as_real() {
            Some(r) => reals_by_name(o.drop_last()).insert(o.last().0, r),
            None => reals_by_name(o.drop_last()),
        }
    }
}

/// The numbers among the fields of an object.
pub fn read_reals_by_name(o: &Vec<(String, Json)>) -> (t: Table<Real>)
    ensures
        t@ == reals_by_name(fields(o@)),
        t.wf(),
{
    let ghost all = fields(o@);
    let mut t: Table<Real> = Table::new();
    let mut i: usize = 0;
    assert(all.take(0) == no_fields());
    while i < o.len()
        invariant
            i <= o.len(),
            all == fields(o@),
            t.wf(),
            t@ == reals_by_name(all.take(i as int)),
        decreases o.len() - i,
    {
        assert(all.take(i + 1).drop_last() == all.take(i as int));
        assert(all.take(i + 1).last() == (o@[i as int].0@, js(o@[i as int].1)));
        if let Some(r) = o[i].1.as_real() {
            t.insert(o[i].0.clone(), r);
        }
        i = i + 1;
    }
    assert(all.take(i as int) == all);
    t
}

/// The entries of a table of numbers as fields.
pub open spec fn real_fields(s: Seq<(String, Real)>) -> Seq<(Seq<char>, Js)>
    decreases s.len(),
{
    if s.len() == 0 {
        no_fields()
    } else {
        real_fields(s.drop_last()).push((s.last().0@, real_js(s.last().1)))
    }
}

/// A table of numbers as JSON.
pub fn reals_by_name_json(t: &Table<Real>) -> (j: Json)
    ensures
        js(j) == Js::Obj(real_fields(t.entries@)),
{
    let ghost all = t.entries@;
    let mut o = empty_object();
    let mut i: usize = 0;
    assert(all.take(0) == Seq::<(String, Real)>::empty());
    while i < t.entries.len()
        invariant
            i <= t.entries.len(),
            all == t.entries@,
            fields(o@) == real_fields(all.take(i as int)),
        decreases t.entries.len() - i,
    {
        assert(all.take(i + 1).drop_last() == all.take(i as int));
        put(&mut o, t.entries[i].0.as_str(), Json::number(t.entries[i].1));
        i = i + 1;
    }
    assert(all.take(i as int) == all);
    Json::Obj(o)
}

/// A table of finite numbers that is written as JSON is read back unchanged.
pub proof fn reals_by_name_round_trip(s: Seq<(String, Real)>)
    requires
        forall|i: int| 0 <= i < s.len() ==> (#[trigger] s[i]).1.spec_is_finite(),
    ensures
        reals_by_name(real_fields(s)) == entries_map(s),
    decreases s.len(),
{
    if s.len() > 0 {
        let front = s.drop_last();
        assert forall|i: int| 0 <= i < front.len() implies (
        #[trigger] front[i]).1.spec_is_finite() by {
            assert(front[i] == s[i]);
        }
        reals_by_name_round_trip(front);
        assert(s[s.len() - 1].1.spec_is_finite());
        assert(real_fields(s).drop_last() =~= real_fields(front));
    }
}

/// A list of entries stands for no map without keys, unless it is empty.
proof fn entries_make_keys<V>(s: Seq<(String, V)>)
    ensures
        (entries_map(s) == Map::<Seq<char>, V>::empty()) == (s.len() == 0),
{
    if s.len() > 0 {
        assert(entries_map(s).contains_key(s.last().0@));
    }
}

// Shared state

pub open spec fn kind_of(s: Option<Seq<char>>) -> SharedStateScoreKind {
    if s == Some("lin_ts"@) || s == Some("linTs"@) || s == Some("LinTs"@) {
        SharedStateScoreKind::LinTs
    } else {
        SharedStateScoreKind::Ucb
    }
}

fn read_kind(s: Option<&str>) -> (m: SharedStateScoreKind)
    ensures
        m == kind_of(
            match s {
                Some(t) => Some(t@),
                None => None,
            },
        ),
{
    match s {
        Some(t) => if same(t, "lin_ts") || same(t, "linTs") || same(t, "LinTs") {
            SharedStateScoreKind::LinTs
        } else {
            SharedStateScoreKind::Ucb
        },
        None => SharedStateScoreKind::Ucb,
    }
}

pub open spec fn kind_word(m: SharedStateScoreKind) -> Seq<char> {
    match m {
        SharedStateScoreKind::Ucb => "ucb"@,
        SharedStateScoreKind::LinTs => "lin_ts"@,
    }
}

fn kind_text(m: SharedStateScoreKind) -> (s: &'static str)
    ensures
        s@ == kind_word(m),
{
    match m {
        SharedStateScoreKind::Ucb => "ucb",
        SharedStateScoreKind::LinTs => "lin_ts",
    }
}

/// The lists of `d` numbers among the fields, by name.
pub open spec fn lists_by_name(o: Seq<(Seq<char>, Js)>, d: usize) -> Map<Seq<char>, Seq<Real>>
    decreases o.len(),
{
    if o.len() == 0 {
        Map::empty()
    } else {
        let front = lists_by_name(o.drop_last(), d);
        match o.last().1.as_array() {
            Some(a) => if reals_of(a).len() == d {
                front.insert(o.last().0, reals_of(a))
            } else {
                front
            },
            None => front,
        }
    }
}

proof fn list_map_insert(m: Map<Seq<char>, Vec<Real>>, k: Seq<char>, v: Vec<Real>)
    ensures
        list_map(m.insert(k, v)) == list_map(m).insert(k, v@),
{
    assert(list_map(m.insert(k, v)) =~= list_map(m).insert(k, v@));
}

fn read_lists_by_name(o: &Vec<(String, Json)>, d: usize) -> (t: Table<Vec<Real>>)
    ensures
        list_map(t@) == lists_by_name(fields(o@), d),
        t.wf(),
        t.sorted(),
{
    let ghost all = fields(o@);
    let mut t: Table<Vec<Real>> = Table::new();
    let mut i: usize = 0;
    proof {
        assert(all.take(0) == no_fields());
        assert(list_map(t@) =~= Map::<Seq<char>, Seq<Real>>::empty());
    }
    while i < o.len()
        invariant
            i <= o.len(),
            all == fields(o@),
            t.wf(),
            t.sorted(),
            list_map(t@) == lists_by_name(all.take(i as int), d),
        decreases o.len() - i,
    {
        assert(all.take(i + 1).drop_last() == all.take(i as int));
        assert(all.take(i + 1).last() == (o@[i as int].0@, js(o@[i as int].1)));
        if let Some(a) = o[i].1.as_array() {
            let v = reals_in_list(a);
            if v.len() == d {
                proof {
                    list_map_insert(t@, o@[i as int].0@, v);
                }
                t.insert_sorted(o[i].0.clone(), v);
            }
        }
        i = i + 1;
    }
    assert(all.take(i as int) == all);
    t
}

/// The entries of a table of lists as fields.
pub open spec fn list_fields(s: Seq<(String, Vec<Real>)>) -> Seq<(Seq<char>, Js)>
    decreases s.len(),
{
    if s.len() == 0 {
        no_fields()
    } else {
        list_fields(s.drop_last()).push((s.last().0@, reals_js(s.last().1@)))
    }
}

fn lists_by_name_json(t: &Table<Vec<Real>>) -> (j: Json)
    ensures
        js(j) == Js::Obj(list_fields(t.entries@)),
{
    let ghost all = t.entries@;
    let mut o = empty_object();
    let mut i: usize = 0;
    assert(all.take(0) == Seq::<(String, Vec<Real>)>::empty());
    while i < t.entries.len()
        invariant
            i <= t.entries.len(),
            all == t.entries@,
            fields(o@) == list_fields(all.take(i as int)),
        decreases t.entries.len() - i,
    {
        assert(all.take(i + 1).drop_last() == all.take(i as int));
        put(&mut o, t.entries[i].0.as_str(), Json::reals(&t.entries[i].1));
        i = i + 1;
    }
    assert(all.take(i as int) == all);
    Json::Obj(o)
}

/// Finite lists, each of length `d`.
pub open spec fn lists_valid(s: Seq<(String, Vec<Real>)>, d: usize) -> bool {
    forall|i: int| 0 <= i < s.len() ==> list_valid(#[trigger] s[i], d)
}

pub open spec fn list_valid(e: (String, Vec<Real>), d: usize) -> bool {
    e.1@.len() == d && forall|k: int| 0 <= k < d ==> (#[trigger] e.1@[k]).spec_is_finite()
}

proof fn lists_round_trip(s: Seq<(String, Vec<Real>)>, d: usize)
    requires
        lists_valid(s, d),
    ensures
        lists_by_name(list_fields(s), d) == list_map(entries_map(s)),
    decreases s.len(),
{
    if s.len() > 0 {
        let front = s.drop_last();
        assert forall|i: int| 0 <= i < front.len() implies list_valid(#[trigger] front[i], d) by {
            assert(front[i] == s[i]);
        }
        lists_round_trip(front, d);
        let last = s[s.len() - 1];
        assert(list_valid(last, d));
        reals_round_trip(last.1@);
        list_map_insert(entries_map(front), last.0@, last.1);
        assert(list_fields(s).drop_last() =~= list_fields(front));
        assert(list_fields(s).last().1.as_array() == Some(
            last.1@.map_values(|r: Real| real_js(r)),
        ));
    } else {
        assert(list_map(entries_map(s)) =~= Map::<Seq<char>, Seq<Real>>::empty());
    }
}

pub open spec fn default_shared() -> SharedView {
    SharedView {
        enabled: false,
        d_context: 0,
        d_option: 0,
        lambda: Real { bits: ONE },
        alpha: Real { bits: ONE },
        score_kind: SharedStateScoreKind::Ucb,
        option_features: Map::empty(),
    }
}

impl Default for SharedStateConfig {
    fn default() -> (c: Self)
        ensures
            c.seen() == default_shared(),
            c.option_features.wf(),
            c.option_features.sorted(),
    {
        let c = SharedStateConfig {
            enabled: false,
            d_context: 0,
            d_option: 0,
            lambda: Real { bits: ONE },
            alpha: Real { bits: ONE },
            score_kind: SharedStateScoreKind::Ucb,
            option_features: Table::new(),
        };
        assert(c.seen().option_features =~= default_shared().option_features);
        c
    }
}

/// Shared settings that JSON holds; they count only where they are enabled.
pub open spec fn shared_of(j: Js) -> SharedView {
    if j.bool_or("enabled"@, false) {
        let d = size_of_u64(j.u64_or("dOption"@, 0));
        SharedView {
            enabled: true,
            d_context: size_of_u64(j.u64_or("dContext"@, 0)),
            d_option: d,
            lambda: j.real_or("lambda"@, Real { bits: ONE }).spec_max(Real { bits: R_1EM09 }),
            alpha: j.real_or("alpha"@, Real { bits: ONE }).spec_max(Real { bits: 0 }),
            score_kind: kind_of(j.str_at("scoreKind"@)),
            option_features: match j.object_at("optionFeatures"@) {
                Some(o) => lists_by_name(o, d),
                None => Map::empty(),
            },
        }
    } else {
        default_shared()
    }
}

fn read_shared(j: &Json) -> (c: SharedStateConfig)
    ensures
        c.seen() == shared_of(js(*j)),
        c.option_features.wf(),
        c.option_features.sorted(),
{
    if !j.bool_or("enabled", false) {
        return SharedStateConfig::default();
    }
    let d_context: usize = as_size(j.u64_or("dContext", 0));
    let d_option: usize = as_size(j.u64_or("dOption", 0));
    let lambda = j.real_or("lambda", Real { bits: ONE }).max(Real { bits: R_1EM09 });
    let alpha = j.real_or("alpha", Real { bits: ONE }).max(Real { bits: 0 });
    let score_kind = read_kind(j.str_at("scoreKind"));
    let option_features = match j.object_at("optionFeatures") {
        Some(o) => read_lists_by_name(o, d_option),
        None => {
            let t: Table<Vec<Real>> = Table::new();
            assert(list_map(t@) =~= Map::<Seq<char>, Seq<Real>>::empty());
            t
        },
    };
    SharedStateConfig {
        enabled: true,
        d_context,
        d_option,
        lambda,
        alpha,
        score_kind,
        option_features,
    }
}

pub open spec fn shared_js(c: SharedStateConfig) -> Js {
    Js::Obj(
        no_fields().push(("enabled"@, Js::Bool(c.enabled))).push(
            ("dContext"@, natural_js(c.d_context as u64)),
        ).push(("dOption"@, natural_js(c.d_option as u64))).push(
            ("lambda"@, real_js(c.lambda)),
        ).push(("alpha"@, real_js(c.alpha))).push(
            ("scoreKind"@, Js::Str(kind_word(c.score_kind))),
        ).push(("optionFeatures"@, Js::Obj(list_fields(c.option_features.entries@)))),
    )
}

fn shared_json(c: &SharedStateConfig) -> (j: Json)
    ensures
        js(j) == shared_js(*c),
{
    let mut o = empty_object();
    put(&mut o, "enabled", Json::Bool(c.enabled));
    put(&mut o, "dContext", Json::natural(c.d_context as u64));
    put(&mut o, "dOption", Json::natural(c.d_option as u64));
    put(&mut o, "lambda", Json::number(c.lambda));
    put(&mut o, "alpha", Json::number(c.alpha));
    put(&mut o, "scoreKind", Json::text(kind_text(c.score_kind)));
    put(&mut o, "optionFeatures", lists_by_name_json(&c.option_features));
    Json::Obj(o)
}

/// Enabled settings within their bounds, or the default.
pub open spec fn shared_valid(c: SharedStateConfig) -> bool {
    if c.enabled {
        &&& c.lambda.spec_is_finite()
        &&& c.lambda.spec_max(Real { bits: R_1EM09 }) == c.lambda
        &&& c.alpha.spec_is_finite()
        &&& c.alpha.spec_max(Real { bits: 0 }) == c.alpha
        &&& lists_valid(c.option_features.entries@, c.d_option)
    } else {
        c.seen() == default_shared()
    }
}

proof fn shared_round_trip(c: SharedStateConfig)
    requires
        shared_valid(c),
    ensures
        shared_of(shared_js(c)) == c.seen(),
{
    broadcast use field_behind;

    reveal_strlit("enabled");
    reveal_strlit("dContext");
    reveal_strlit("dOption");
    reveal_strlit("lambda");
    reveal_strlit("alpha");
    reveal_strlit("scoreKind");
    reveal_strlit("optionFeatures");
    assert("enabled"@.len() == 7);
    assert("dContext"@.len() == 8);
    assert("dOption"@.len() == 7);
    assert("lambda"@.len() == 6);
    assert("alpha"@.len() == 5);
    assert("scoreKind"@.len() == 9);
    assert("optionFeatures"@.len() == 14);
    assert("enabled"@[0] != "dOption"@[0]);
    reveal_strlit("lin_ts");
    reveal_strlit("linTs");
    reveal_strlit("LinTs");
    reveal_strlit("ucb");
    assert("lin_ts"@.len() == 6);
    assert("linTs"@.len() == 5);
    assert("LinTs"@.len() == 5);
    assert("ucb"@.len() == 3);
    assert("linTs"@[0] != "LinTs"@[0]);
    let j = shared_js(c);
    assert(j.get("enabled"@) is Some);
    assert(j.get("dContext"@) is Some);
    assert(j.get("dOption"@) is Some);
    assert(j.get("lambda"@) is Some);
    assert(j.get("alpha"@) is Some);
    assert(j.get("scoreKind"@) is Some);
    assert(j.get("optionFeatures"@) is Some);
    if c.enabled {
        lists_round_trip(c.option_features.entries@, c.d_option);
        assert(size_of_u64(c.d_option as u64) == c.d_option);
        assert(size_of_u64(c.d_context as u64) == c.d_context);
    }
}

// The whole

/// What is read from JSON by the types' own rules, where it could be.
#[derive(Debug)]
pub struct ParsedParts {
    pub context_spec: Option<ContextSpec>,
    pub action_space: Option<ActionSpace>,
    pub refusal: Option<RefusalConfig>,
}

pub open spec fn algorithm_of(j: Js) -> Algorithm {
    match j.str_at("algorithm"@) {
        Some(a) => if a == "epsilonGreedy"@ {
            Algorithm::EpsilonGreedy { epsilon: j.real_or("epsilon"@, Real { bits: R_0_1 }) }
        } else if a == "ucb1"@ {
            Algorithm::Ucb1
        } else if a == "thompsonSampling"@ || a == "thompson"@ {
            Algorithm::ThompsonSampling
        } else if a == "softmax"@ {
            Algorithm::Softmax { temperature: j.real_or("temperature"@, Real { bits: ONE }) }
        } else {
            Algorithm::SimpleWeighted
        },
        None => Algorithm::SimpleWeighted,
    }
}

fn read_algorithm(j: &Json) -> (a: Algorithm)
    ensures
        a == algorithm_of(js(*j)),
{
    match j.str_at("algorithm") {
        Some(a) => if same(a, "epsilonGreedy") {
            Algorithm::EpsilonGreedy { epsilon: j.real_or("epsilon", Real { bits: R_0_1 }) }
        } else if same(a, "ucb1") {
            Algorithm::Ucb1
        } else if same(a, "thompsonSampling") || same(a, "thompson") {
            Algorithm::ThompsonSampling
        } else if same(a, "softmax") {
            Algorithm::Softmax { temperature: j.real_or("temperature", Real { bits: ONE }) }
        } else {
            Algorithm::SimpleWeighted
        },
        None => Algorithm::SimpleWeighted,
    }
}

/// The safety settings that a mode stands for.
pub open spec fn safety_in_mode(mode: Option<Seq<char>>) -> SafetyConfig {
    let d = default_safety();
    if mode == Some("highThroughput"@) {
        SafetyConfig { snapshot_on_feedback: false, journal_on_feedback: false, ..d }
    } else if mode == Some("highAssurance"@) {
        SafetyConfig {
            snapshot_on_feedback: true,
            journal_on_feedback: true,
            reward_clip: Real { bits: ONE },
            ..d
        }
    } else {
        d
    }
}

fn read_safety_mode(mode: Option<&str>) -> (c: SafetyConfig)
    ensures
        c == safety_in_mode(
            match mode {
                Some(t) => Some(t@),
                None => None,
            },
        ),
{
    let mut c = safety_default();
    if let Some(m) = mode {
        if same(m, "highThroughput") {
            c.snapshot_on_feedback = false;
            c.journal_on_feedback = false;
        } else if same(m, "highAssurance") {
            c.snapshot_on_feedback = true;
            c.journal_on_feedback = true;
            c.reward_clip = Real { bits: ONE };
        }
    }
    c
}

pub open spec fn held_refusal(r: RefusalConfig) -> RefusalConfig {
    RefusalConfig {
        enabled: r.enabled,
        coverage: r.coverage.spec_clamp(Real { bits: R_0_5 }, Real { bits: R_0_999 }),
        max_interval_width: r.max_interval_width.spec_max(Real { bits: 0 }),
        ood_threshold: r.ood_threshold.spec_clamp(Real { bits: 0 }, Real { bits: R_10_0 }),
    }
}

/// The settings that JSON holds.
pub open spec fn config_of(j: Js, parts: ParsedParts) -> ConfigView {
    ConfigView {
        algorithm: algorithm_of(j),
        decay: match j.get("decay"@) {
            Some(d) => decay_of(d),
            None => default_decay(),
        },
        safety: match j.get("safety"@) {
            Some(d) => safety_of(d),
            None => safety_in_mode(j.str_at("mode"@)),
        },
        window: match j.get("window"@) {
            Some(d) => window_of(d),
            None => default_window(),
        },
        change_detection: match j.get("changeDetection"@) {
            Some(d) => change_of(d),
            None => default_change(),
        },
        reward_policy: match j.object_at("rewardPolicy"@) {
            Some(o) => if reals_by_name(o) == Map::<Seq<char>, Real>::empty() {
                None
            } else {
                Some(reals_by_name(o))
            },
            None => None,
        },
        learning_rate: match j.real_at("learningRate"@) {
            Some(r) => r.spec_clamp(Real { bits: R_0_0001 }, Real { bits: R_0_5 }),
            None => Real { bits: R_0_05 },
        },
        delayed_enabled: match j.get("delayedFeedback"@) {
            Some(d) => d.bool_or("enabled"@, false),
            None => false,
        },
        signals: match j.get("delayedFeedback"@) {
            Some(d) => match d.array_at("signals"@) {
                Some(a) => signals_of(a),
                None => Seq::empty(),
            },
            None => Seq::empty(),
        },
        risk_sensitive: match j.get("riskSensitive"@) {
            Some(d) => risk_of(d),
            None => default_risk(),
        },
        corruption_robust: match j.get("corruptionRobust"@) {
            Some(d) => corruption_of(d),
            None => default_corruption(),
        },
        conformal: match j.get("conformal"@) {
            Some(d) => conformal_of(d),
            None => default_conformal(),
        },
        pareto_enabled: match j.get("pareto"@) {
            Some(d) => d.bool_or("enabled"@, false),
            None => false,
        },
        objectives: match j.get("pareto"@) {
            Some(d) => match d.array_at("objectives"@) {
                Some(a) => texts_of(a),
                None => Seq::empty(),
            },
            None => Seq::empty(),
        },
        context_spec: match (j.get("contextSpec"@), parts.context_spec) {
            (Some(_), Some(c)) => c,
            _ => ContextSpec::Discrete,
        },
        refusal: match j.get("refusal"@) {
            Some(_) => held_refusal(
                match parts.refusal {
                    Some(r) => r,
                    None => default_refusal(),
                },
            ),
            None => default_refusal(),
        },
        action_space: match (j.get("actionSpace"@), parts.action_space) {
            (Some(_), Some(a)) => a,
            _ => ActionSpace::Discrete,
        },
        shared_state: match j.object_at("sharedState"@) {
            Some(o) => shared_of(Js::Obj(o)),
            None => default_shared(),
        },
    }
}

fn empty_texts() -> (v: Vec<String>)
    ensures
        texts(v@) == Seq::<Seq<char>>::empty(),
{
    let v: Vec<String> = Vec::new();
    assert(texts(v@) =~= Seq::<Seq<char>>::empty());
    v
}

fn no_signals() -> (v: Vec<DelayedSignalSpec>)
    ensures
        signal_views(v@) == Seq::<SignalView>::empty(),
{
    let v: Vec<DelayedSignalSpec> = Vec::new();
    assert(signal_views(v@) =~= Seq::<SignalView>::empty());
    v
}

fn read_delayed(j: &Json) -> (c: DelayedFeedbackConfig)
    ensures
        c.enabled == config_of(js(*j), nothing_parsed()).delayed_enabled,
        signal_views(c.signals@) == config_of(js(*j), nothing_parsed()).signals,
{
    match j.get("delayedFeedback") {
        Some(d) => DelayedFeedbackConfig {
            enabled: d.bool_or("enabled", false),
            signals: match d.array_at("signals") {
                Some(a) => read_signals(a),
                None => no_signals(),
            },
        },
        None => DelayedFeedbackConfig { enabled: false, signals: no_signals() },
    }
}

pub open spec fn nothing_parsed() -> ParsedParts {
    ParsedParts { context_spec: None, action_space: None, refusal: None }
}

fn read_pareto(j: &Json) -> (c: ParetoConfig)
    ensures
        c.enabled == config_of(js(*j), nothing_parsed()).pareto_enabled,
        texts(c.objectives@) == config_of(js(*j), nothing_parsed()).objectives,
{
    match j.get("pareto") {
        Some(d) => ParetoConfig {
            enabled: d.bool_or("enabled", false),
            objectives: match d.array_at("objectives") {
                Some(a) => read_texts(a),
                None => empty_texts(),
            },
        },
        None => ParetoConfig { enabled: false, objectives: empty_texts() },
    }
}

fn read_policy(j: &Json) -> (p: Option<RewardPolicy>)
    ensures
        match config_of(js(*j), nothing_parsed()).reward_policy {
            Some(m) => p is Some && p->Some_0.weights@ == m && p->Some_0.weights.wf(),
            None => p is None,
        },
{
    match j.object_at("rewardPolicy") {
        Some(o) => {
            let weights = read_reals_by_name(o);
            proof {
                entries_make_keys(weights.entries@);
            }
            if weights.entries.len() > 0 {
                Some(RewardPolicy { weights })
            } else {
                None
            }
        },
        None => None,
    }
}

fn algorithm_text(a: Algorithm) -> (s: &'static str)
    ensures
        s@ == algorithm_word(a),
{
    match a {
        Algorithm::SimpleWeighted => "simpleWeighted",
        Algorithm::EpsilonGreedy { .. } => "epsilonGreedy",
        Algorithm::Ucb1 => "ucb1",
        Algorithm::ThompsonSampling => "thompsonSampling",
        Algorithm::Softmax { .. } => "softmax",
    }
}

pub open spec fn algorithm_word(a: Algorithm) -> Seq<char> {
    match a {
        Algorithm::SimpleWeighted => "simpleWeighted"@,
        Algorithm::EpsilonGreedy { .. } => "epsilonGreedy"@,
        Algorithm::Ucb1 => "ucb1"@,
        Algorithm::ThompsonSampling => "thompsonSampling"@,
        Algorithm::Softmax { .. } => "softmax"@,
    }
}

pub open spec fn delayed_js(c: LearningConfig) -> Js {
    Js::Obj(
        no_fields().push(("enabled"@, Js::Bool(c.delayed_feedback.enabled))).push(
            ("signals"@, Js::Arr(signals_js(signal_views(c.delayed_feedback.signals@)))),
        ),
    )
}

pub open spec fn pareto_js(c: LearningConfig) -> Js {
    Js::Obj(
        no_fields().push(("enabled"@, Js::Bool(c.pareto.enabled))).push(
            ("objectives"@, Js::Arr(texts_js(texts(c.pareto.objectives@)))),
        ),
    )
}

/// The fields that every configuration has.
pub open spec fn plain_fields(c: LearningConfig) -> Seq<(Seq<char>, Js)> {
    no_fields().push(("algorithm"@, Js::Str(algorithm_word(c.algorithm)))).push(
        ("learningRate"@, real_js(c.learning_rate)),
    ).push(("decay"@, decay_js(c.decay))).push(("safety"@, safety_js(c.safety))).push(
        ("window"@, window_js(c.window)),
    ).push(("changeDetection"@, change_js(c.change_detection))).push(
        ("delayedFeedback"@, delayed_js(c)),
    ).push(("riskSensitive"@, risk_js(c.risk_sensitive))).push(
        ("corruptionRobust"@, corruption_js(c.corruption_robust)),
    ).push(("conformal"@, conformal_js(c.conformal))).push(("pareto"@, pareto_js(c)))
}

/// The parameter of the algorithm, where it has one.
pub open spec fn with_parameter(o: Seq<(Seq<char>, Js)>, a: Algorithm) -> Seq<(Seq<char>, Js)> {
    match a {
        Algorithm::EpsilonGreedy { epsilon } => o.push(("epsilon"@, real_js(epsilon))),
        Algorithm::Softmax { temperature } => o.push(("temperature"@, real_js(temperature))),
        _ => o,
    }
}

pub open spec fn with_policy(o: Seq<(Seq<char>, Js)>, p: Option<RewardPolicy>) -> Seq<
    (Seq<char>, Js),
> {
    match p {
        Some(p) => o.push(("rewardPolicy"@, Js::Obj(real_fields(p.weights.entries@)))),
        None => o,
    }
}

/// The settings as JSON, with the parts that are written by the types' own
/// rules.
pub open spec fn config_js(c: LearningConfig, context: Js, refusal: Js, actions: Js) -> Js {
    Js::Obj(
        with_policy(with_parameter(plain_fields(c), c.algorithm), c.reward_policy).push(
            ("contextSpec"@, context),
        ).push(("refusal"@, refusal)).push(("actionSpace"@, actions)).push(
            ("sharedState"@, shared_js(c.shared_state)),
        ),
    )
}

/// The settings that hold where nothing is said.
pub open spec fn default_config() -> ConfigView {
    config_of(Js::Null, nothing_parsed())
}

impl Default for LearningConfig {
    fn default() -> (c: Self)
        ensures
            c.seen() == default_config(),
            c.wf(),
    {
        LearningConfig::from_json(
            &Json::Null,
            ParsedParts { context_spec: None, action_space: None, refusal: None },
        )
    }
}

impl LearningConfig {
    /// Reads the settings from JSON. `parts` holds what the types' own rules made
    /// of the fields `contextSpec`, `actionSpace` and `refusal`.
    pub fn from_json(json: &Json, parts: ParsedParts) -> (c: Self)
        ensures
            c.seen() == config_of(js(*json), parts),
            c.wf(),
    {
        let safety = match json.get("safety") {
            Some(s) => read_safety(s),
            None => read_safety_mode(json.str_at("mode")),
        };
        let shared_state = match json.get("sharedState") {
            Some(s) => match s.as_object() {
                Some(_) => read_shared(s),
                None => SharedStateConfig::default(),
            },
            None => SharedStateConfig::default(),
        };
        let decay = match json.get("decay") {
            Some(d) => read_decay(d),
            None => decay_default(),
        };
        let window = match json.get("window") {
            Some(d) => read_window(d),
            None => window_default(),
        };
        let change_detection = match json.get("changeDetection") {
            Some(d) => read_change(d),
            None => change_default(),
        };
        let risk_sensitive = match json.get("riskSensitive") {
            Some(d) => read_risk(d),
            None => risk_default(),
        };
        let corruption_robust = match json.get("corruptionRobust") {
            Some(d) => read_corruption(d),
            None => corruption_default(),
        };
        let conformal = match json.get("conformal") {
            Some(d) => read_conformal(d),
            None => conformal_default(),
        };
        let learning_rate = match json.real_at("learningRate") {
            Some(r) => r.clamp(Real { bits: R_0_0001 }, Real { bits: R_0_5 }),
            None => Real { bits: R_0_05 },
        };
        let context_spec = match (json.get("contextSpec"), parts.context_spec) {
            (Some(_), Some(c)) => c,
            _ => ContextSpec::Discrete,
        };
        let action_space = match (json.get("actionSpace"), parts.action_space) {
            (Some(_), Some(a)) => a,
            _ => ActionSpace::Discrete,
        };
        let refusal = match json.get("refusal") {
            Some(_) => {
                let r = match parts.refusal {
                    Some(r) => r,
                    None => RefusalConfig::default(),
                };
                RefusalConfig {
                    enabled: r.enabled,
                    coverage: r.coverage.clamp(Real { bits: R_0_5 }, Real { bits: R_0_999 }),
                    max_interval_width: r.max_interval_width.max(Real { bits: 0 }),
                    ood_threshold: r.ood_threshold.clamp(Real { bits: 0 }, Real { bits: R_10_0 }),
                }
            },
            None => RefusalConfig::default(),
        };
        LearningConfig {
            algorithm: read_algorithm(json),
            decay,
            safety,
            window,
            change_detection,
            reward_policy: read_policy(json),
            learning_rate,
            delayed_feedback: read_delayed(json),
            risk_sensitive,
            corruption_robust,
            conformal,
            pareto: read_pareto(json),
            context_spec,
            refusal,
            action_space,
            shared_state,
        }
    }

    /// The settings as JSON. The last three arguments are what the types' own
    /// rules make of the context, the refusal settings and the action space.
    pub fn to_json(&self, context: Json, refusal: Json, actions: Json) -> (j: Json)
        ensures
            js(j) == config_js(*self, js(context), js(refusal), js(actions)),
    {
        let mut o = empty_object();
        put(&mut o, "algorithm", Json::text(algorithm_text(self.algorithm)));
        put(&mut o, "learningRate", Json::number(self.learning_rate));
        put(&mut o, "decay", decay_json(&self.decay));
        put(&mut o, "safety", safety_json(&self.safety));
        put(&mut o, "window", window_json(&self.window));
        put(&mut o, "changeDetection", change_json(&self.change_detection));
        let mut d = empty_object();
        put(&mut d, "enabled", Json::Bool(self.delayed_feedback.enabled));
        put(&mut d, "signals", signals_json(&self.delayed_feedback.signals));
        put(&mut o, "delayedFeedback", Json::Obj(d));
        put(&mut o, "riskSensitive", risk_json(&self.risk_sensitive));
        put(&mut o, "corruptionRobust", corruption_json(&self.corruption_robust));
        put(&mut o, "conformal", conformal_json(&self.conformal));
        let mut p = empty_object();
        put(&mut p, "enabled", Json::Bool(self.pareto.enabled));
        put(&mut p, "objectives", texts_json(&self.pareto.objectives));
        put(&mut o, "pareto", Json::Obj(p));
        assert(fields(o@) == plain_fields(*self));
        match self.algorithm {
            Algorithm::EpsilonGreedy { epsilon } => put(&mut o, "epsilon", Json::number(epsilon)),
            Algorithm::Softmax { temperature } => put(
                &mut o,
                "temperature",
                Json::number(temperature),
            ),
            _ => {},
        }
        if let Some(rp) = &self.reward_policy {
            put(&mut o, "rewardPolicy", reals_by_name_json(&rp.weights));
        }
        put(&mut o, "contextSpec", context);
        put(&mut o, "refusal", refusal);
        put(&mut o, "actionSpace", actions);
        put(&mut o, "sharedState", shared_json(&self.shared_state));
        Json::Obj(o)
    }
}

pub open spec fn algorithm_valid(a: Algorithm) -> bool {
    match a {
        Algorithm::EpsilonGreedy { epsilon } => epsilon.spec_is_finite(),
        Algorithm::Softmax { temperature } => temperature.spec_is_finite(),
        _ => true,
    }
}

/// Every number is finite and within its bounds, and nothing is said that
/// reading would drop.
pub open spec fn config_valid(c: LearningConfig) -> bool {
    &&& algorithm_valid(c.algorithm)
    &&& decay_valid(c.decay)
    &&& safety_valid(c.safety)
    &&& window_valid(c.window)
    &&& change_valid(c.change_detection)
    &&& risk_valid(c.risk_sensitive)
    &&& corruption_valid(c.corruption_robust)
    &&& conformal_valid(c.conformal)
    &&& c.learning_rate.spec_is_finite()
    &&& c.learning_rate.spec_clamp(Real { bits: R_0_0001 }, Real { bits: R_0_5 }) == c.learning_rate
    &&& forall|i: int|
        0 <= i < c.delayed_feedback.signals@.len() ==> signal_valid(
            #[trigger] signal_views(c.delayed_feedback.signals@)[i],
        )
    &&& c.reward_policy matches Some(p) ==> p.weights.entries@.len() > 0 && forall|i: int|
        0 <= i < p.weights.entries@.len() ==> (
        #[trigger] p.weights.entries@[i]).1.spec_is_finite()
    &&& held_refusal(c.refusal) == c.refusal
    &&& shared_valid(c.shared_state)
}

proof fn algorithm_round_trip(c: LearningConfig, j: Js)
    requires
        algorithm_valid(c.algorithm),
        j.get("algorithm"@) == Some(Js::Str(algorithm_word(c.algorithm))),
        c.algorithm matches Algorithm::EpsilonGreedy { epsilon } ==> j.get("epsilon"@) == Some(
            real_js(epsilon),
        ),
        c.algorithm matches Algorithm::Softmax { temperature } ==> j.get("temperature"@) == Some(
            real_js(temperature),
        ),
    ensures
        algorithm_of(j) == c.algorithm,
{
    reveal_strlit("epsilonGreedy");
    reveal_strlit("ucb1");
    reveal_strlit("thompsonSampling");
    reveal_strlit("thompson");
    reveal_strlit("softmax");
    reveal_strlit("simpleWeighted");
    assert("epsilonGreedy"@.len() == 13);
    assert("ucb1"@.len() == 4);
    assert("thompsonSampling"@.len() == 16);
    assert("thompson"@.len() == 8);
    assert("softmax"@.len() == 7);
    assert("simpleWeighted"@.len() == 14);
}

/// What the written settings hold under each key.
proof fn written_fields(c: LearningConfig, context: Js, refusal: Js, actions: Js)
    ensures
        ({
            let j = config_js(c, context, refusal, actions);
            &&& j.get("algorithm"@) == Some(Js::Str(algorithm_word(c.algorithm)))
            &&& j.get("learningRate"@) == Some(real_js(c.learning_rate))
            &&& j.get("decay"@) == Some(decay_js(c.decay))
            &&& j.get("safety"@) == Some(safety_js(c.safety))
            &&& j.get("window"@) == Some(window_js(c.window))
            &&& j.get("changeDetection"@) == Some(change_js(c.change_detection))
            &&& j.get("delayedFeedback"@) == Some(delayed_js(c))
            &&& j.get("riskSensitive"@) == Some(risk_js(c.risk_sensitive))
            &&& j.get("corruptionRobust"@) == Some(corruption_js(c.corruption_robust))
            &&& j.get("conformal"@) == Some(conformal_js(c.conformal))
            &&& j.get("pareto"@) == Some(pareto_js(c))
            &&& j.get("contextSpec"@) == Some(context)
            &&& j.get("refusal"@) == Some(refusal)
            &&& j.get("actionSpace"@) == Some(actions)
            &&& j.get("sharedState"@) == Some(shared_js(c.shared_state))
            &&& j.get("rewardPolicy"@) == (match c.reward_policy {
                Some(p) => Some(Js::Obj(real_fields(p.weights.entries@))),
                None => None,
            })
            &&& c.algorithm matches Algorithm::EpsilonGreedy { epsilon } ==> j.get("epsilon"@)
                == Some(real_js(epsilon))
            &&& c.algorithm matches Algorithm::Softmax { temperature } ==> j.get("temperature"@)
                == Some(real_js(temperature))
        }),
{
    broadcast use field_behind;

    reveal_strlit("algorithm");
    reveal_strlit("learningRate");
    reveal_strlit("decay");
    reveal_strlit("safety");
    reveal_strlit("window");
    reveal_strlit("changeDetection");
    reveal_strlit("delayedFeedback");
    reveal_strlit("riskSensitive");
    reveal_strlit("corruptionRobust");
    reveal_strlit("conformal");
    reveal_strlit("pareto");
    reveal_strlit("epsilon");
    reveal_strlit("temperature");
    reveal_strlit("rewardPolicy");
    reveal_strlit("contextSpec");
    reveal_strlit("refusal");
    reveal_strlit("actionSpace");
    reveal_strlit("sharedState");
    assert("algorithm"@.len() == 9);
    assert("learningRate"@.len() == 12);
    assert("decay"@.len() == 5);
    assert("safety"@.len() == 6);
    assert("window"@.len() == 6);
    assert("changeDetection"@.len() == 15);
    assert("delayedFeedback"@.len() == 15);
    assert("riskSensitive"@.len() == 13);
    assert("corruptionRobust"@.len() == 16);
    assert("conformal"@.len() == 9);
    assert("pareto"@.len() == 6);
    assert("epsilon"@.len() == 7);
    assert("temperature"@.len() == 11);
    assert("rewardPolicy"@.len() == 12);
    assert("contextSpec"@.len() == 11);
    assert("refusal"@.len() == 7);
    assert("actionSpace"@.len() == 11);
    assert("sharedState"@.len() == 11);
    assert("algorithm"@[0] != "conformal"@[0]);
    assert("learningRate"@[0] != "rewardPolicy"@[0]);
    assert("safety"@[0] != "window"@[0]);
    assert("safety"@[0] != "pareto"@[0]);
    assert("window"@[0] != "pareto"@[0]);
    assert("changeDetection"@[0] != "delayedFeedback"@[0]);
    assert("epsilon"@[0] != "refusal"@[0]);
    assert("temperature"@[0] != "contextSpec"@[0]);
    assert("temperature"@[0] != "actionSpace"@[0]);
    assert("temperature"@[0] != "sharedState"@[0]);
    assert("contextSpec"@[0] != "actionSpace"@[0]);
    assert("contextSpec"@[0] != "sharedState"@[0]);
    assert("actionSpace"@[0] != "sharedState"@[0]);
}

/// Valid settings that are written as JSON are read back unchanged, if the
/// types' own rules read back what they write.
#[verifier::spinoff_prover]
pub proof fn config_round_trip(
    c: LearningConfig,
    context: Js,
    refusal: Js,
    actions: Js,
    parts: ParsedParts,
)
    requires
        config_valid(c),
        parts.context_spec == Some(c.context_spec),
        parts.action_space == Some(c.action_space),
        parts.refusal == Some(c.refusal),
    ensures
        config_of(config_js(c, context, refusal, actions), parts) == c.seen(),
{
    broadcast use field_behind;

    let j = config_js(c, context, refusal, actions);
    written_fields(c, context, refusal, actions);
    algorithm_round_trip(c, j);
    decay_round_trip(c.decay);
    safety_round_trip(c.safety);
    window_round_trip(c.window);
    change_round_trip(c.change_detection);
    risk_round_trip(c.risk_sensitive);
    corruption_round_trip(c.corruption_robust);
    conformal_round_trip(c.conformal);
    shared_round_trip(c.shared_state);
    signals_round_trip(signal_views(c.delayed_feedback.signals@));
    texts_round_trip(texts(c.pareto.objectives@));
    reveal_strlit("enabled");
    reveal_strlit("signals");
    reveal_strlit("objectives");
    assert("enabled"@.len() == 7);
    assert("signals"@.len() == 7);
    assert("objectives"@.len() == 10);
    assert("enabled"@[0] != "signals"@[0]);
    let d = delayed_js(c);
    assert(d.get("enabled"@) is Some && d.get("signals"@) is Some);
    let p = pareto_js(c);
    assert(p.get("enabled"@) is Some && p.get("objectives"@) is Some);
    if let Some(rp) = c.reward_policy {
        reals_by_name_round_trip(rp.weights.entries@);
        entries_make_keys(rp.weights.entries@);
    }
    let back = config_of(j, parts);
    assert(back.signals == c.seen().signals);
    assert(back.objectives == c.seen().objectives);
    assert(back.shared_state == c.seen().shared_state);
    assert(back.reward_policy == c.seen().reward_policy);
    assert(back.safety == c.seen().safety);
    assert(back.refusal == c.seen().refusal);
}

} // verus!
