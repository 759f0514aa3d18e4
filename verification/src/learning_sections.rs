//! The settings of the learning layer, and their JSON.
use crate::feature_schema::{as_size, size_of_u64};
use crate::json::{Js, Json, empty_object, field_behind, js, natural_js, no_fields, put, real_js};
use crate::number::{ONE, Real};
use crate::real_constants::{R_0_0005, R_0_002, R_0_01, R_0_02, R_0_05, R_0_1, R_0_15, R_0_25, R_0_3, R_0_49, R_0_5, R_0_8, R_0_9, R_0_95, R_0_99, R_0_999, R_1EM09, R_200_0, R_2_0, R_2_5, R_5_0, R_604800_0};
use crate::text::same;
use vstd::prelude::*;
use vstd::string::StringExecFns;

verus! {

/// How options are chosen.
#[derive(Clone, Copy, Debug, PartialEq, Eq, Structural)]
pub enum Algorithm {
    SimpleWeighted,
    EpsilonGreedy { epsilon: Real },
    Ucb1,
    ThompsonSampling,
    Softmax { temperature: Real },
}

/// How a graph's own choices are made.
#[derive(Clone, Copy, Debug, PartialEq, Eq, Structural)]
pub enum SelectionMode {
    Greedy,
    Weighted,
    EpsilonGreedy,
}

/// How a change of rewards is noticed.
#[derive(Clone, Copy, Debug, PartialEq, Eq, Structural)]
pub enum ChangeDetectionMethod {
    PageHinkley,
    ModelSurprise,
}

/// How a shared state scores options.
#[derive(Clone, Copy, Debug, PartialEq, Eq, Structural)]
pub enum SharedStateScoreKind {
    Ucb,
    LinTs,
}

/// What the options stand for: choices, or buckets over a range.
#[derive(Clone, Copy, Debug)]
pub enum ActionSpace {
    Discrete,
    Continuous { range: [Real; 2], buckets: usize },
}

/// A bucket of a range, whose midpoint is `lo + (hi - lo) / buckets * (i + 0.5)`.
#[derive(Clone, Copy, Debug)]
pub struct Bucket {
    pub lo: Real,
    pub hi: Real,
    pub buckets: usize,
    pub i: usize,
}

impl Default for ActionSpace {
    fn default() -> (a: Self)
        ensures
            a is Discrete,
    {
        ActionSpace::Discrete
    }
}

impl ActionSpace {
    /// The bucket whose midpoint an option stands for; none where the options
    /// are choices or there is no such bucket.
    pub fn bucket_midpoint(&self, i: usize) -> (r: Option<Bucket>)
        ensures
            match *self {
                ActionSpace::Discrete => r is None,
                ActionSpace::Continuous { range, buckets } => if i < buckets {
                    r == Some(Bucket { lo: range@[0], hi: range@[1], buckets, i })
                } else {
                    r is None
                },
            },
    {
        match self {
            ActionSpace::Discrete => None,
            ActionSpace::Continuous { range, buckets } => if i < *buckets {
                Some(Bucket { lo: range[0], hi: range[1], buckets: *buckets, i })
            } else {
                None
            },
        }
    }
}

/// When a decision is refused.
#[derive(Clone, Copy, Debug)]
pub struct RefusalConfig {
    pub enabled: bool,
    pub coverage: Real,
    pub max_interval_width: Real,
    pub ood_threshold: Real,
}

pub open spec fn default_refusal() -> RefusalConfig {
    RefusalConfig {
        enabled: false,
        coverage: Real { bits: R_0_95 },
        max_interval_width: Real { bits: R_0_5 },
        ood_threshold: Real { bits: R_0_8 },
    }
}

impl Default for RefusalConfig {
    fn default() -> (c: Self)
        ensures
            c == default_refusal(),
    {
        RefusalConfig {
            enabled: false,
            coverage: Real { bits: R_0_95 },
            max_interval_width: Real { bits: R_0_5 },
            ood_threshold: Real { bits: R_0_8 },
        }
    }
}

/// `n`, but no less than `least`.
pub open spec fn at_least(n: usize, least: usize) -> usize {
    if n < least {
        least
    } else {
        n
    }
}

fn no_less(n: usize, least: usize) -> (r: usize)
    ensures
        r == at_least(n, least),
{
    if n < least {
        least
    } else {
        n
    }
}

/// The low half of a 64-bit number.
pub open spec fn low_word(n: u64) -> u32 {
    (n % 0x1_0000_0000) as u32
}

pub fn to_low_word(n: u64) -> (r: u32)
    ensures
        r == low_word(n),
{
    (n % 0x1_0000_0000) as u32
}

pub open spec fn mode_of(s: Option<Seq<char>>) -> SelectionMode {
    if s == Some("weighted"@) {
        SelectionMode::Weighted
    } else if s == Some("epsilonGreedy"@) {
        SelectionMode::EpsilonGreedy
    } else {
        SelectionMode::Greedy
    }
}

fn read_mode(s: Option<&str>) -> (m: SelectionMode)
    ensures
        m == mode_of(
            match s {
                Some(t) => Some(t@),
                None => None,
            },
        ),
{
    match s {
        Some(t) => if same(t, "weighted") {
            SelectionMode::Weighted
        } else if same(t, "epsilonGreedy") {
            SelectionMode::EpsilonGreedy
        } else {
            SelectionMode::Greedy
        },
        None => SelectionMode::Greedy,
    }
}

pub open spec fn mode_word(m: SelectionMode) -> Seq<char> {
    match m {
        SelectionMode::Greedy => "greedy"@,
        SelectionMode::Weighted => "weighted"@,
        SelectionMode::EpsilonGreedy => "epsilonGreedy"@,
    }
}

fn mode_text(m: SelectionMode) -> (s: &'static str)
    ensures
        s@ == mode_word(m),
{
    match m {
        SelectionMode::Greedy => "greedy",
        SelectionMode::Weighted => "weighted",
        SelectionMode::EpsilonGreedy => "epsilonGreedy",
    }
}

pub open spec fn method_of(s: Option<Seq<char>>) -> ChangeDetectionMethod {
    if s == Some("modelSurprise"@) {
        ChangeDetectionMethod::ModelSurprise
    } else {
        ChangeDetectionMethod::PageHinkley
    }
}

fn read_method(s: Option<&str>) -> (m: ChangeDetectionMethod)
    ensures
        m == method_of(
            match s {
                Some(t) => Some(t@),
                None => None,
            },
        ),
{
    match s {
        Some(t) => if same(t, "modelSurprise") {
            ChangeDetectionMethod::ModelSurprise
        } else {
            ChangeDetectionMethod::PageHinkley
        },
        None => ChangeDetectionMethod::PageHinkley,
    }
}

pub open spec fn method_word(m: ChangeDetectionMethod) -> Seq<char> {
    match m {
        ChangeDetectionMethod::PageHinkley => "pageHinkley"@,
        ChangeDetectionMethod::ModelSurprise => "modelSurprise"@,
    }
}

fn method_text(m: ChangeDetectionMethod) -> (s: &'static str)
    ensures
        s@ == method_word(m),
{
    match m {
        ChangeDetectionMethod::PageHinkley => "pageHinkley",
        ChangeDetectionMethod::ModelSurprise => "modelSurprise",
    }
}

/// The sensitivity of a capsule's change detector where none is set.
pub fn default_capsule_adwin_delta() -> (r: Real)
    ensures
        r == (Real { bits: R_0_0005 }),
{
    Real { bits: R_0_0005 }
}

/// The sensitivity of a context's change detector where none is set.
pub fn default_context_adwin_delta() -> (r: Real)
    ensures
        r == (Real { bits: R_0_002 }),
{
    Real { bits: R_0_002 }
}

/// How fast old feedback fades.
#[derive(Clone, Copy, Debug)]
pub struct DecayConfig {
    pub enabled: bool,
    pub half_life_feedbacks: Real,
    pub half_life_seconds: Real,
}

/// What keeps learning within bounds.
#[derive(Clone, Copy, Debug)]
pub struct SafetyConfig {
    pub max_weight_delta_per_feedback: Real,
    pub min_exploration: Real,
    pub freeze_learning: bool,
    pub reward_clip: Real,
    pub trimmed_fraction: Real,
    pub snapshot_on_feedback: bool,
    pub journal_on_feedback: bool,
    pub selection_mode: SelectionMode,
    pub selection_epsilon: Real,
    pub option_state_forgetting: Real,
    pub capsule_adwin_delta: Real,
    pub context_adwin_delta: Real,
}

/// Whether only recent rewards count, and how many.
#[derive(Clone, Copy, Debug)]
pub struct WindowConfig {
    pub enabled: bool,
    pub size: usize,
}

/// When a change of rewards is noticed, and what follows.
#[derive(Clone, Copy, Debug)]
pub struct ChangeDetectionConfig {
    pub enabled: bool,
    pub threshold: Real,
    pub min_drift: Real,
    pub exploration_boost: Real,
    pub boost_duration: u32,
    pub method: ChangeDetectionMethod,
    pub surprise_k_sigma: Real,
    pub surprise_fraction_threshold: Real,
}

/// How much the worst rewards weigh.
#[derive(Clone, Copy, Debug)]
pub struct RiskSensitiveConfig {
    pub enabled: bool,
    pub alpha: Real,
    pub blend: Real,
}

/// How much corrupted feedback is allowed for.
#[derive(Clone, Copy, Debug)]
pub struct CorruptionRobustConfig {
    pub enabled: bool,
    pub budget: Real,
}

/// How prediction bands are calibrated.
#[derive(Clone, Copy, Debug)]
pub struct ConformalConfig {
    pub enabled: bool,
    pub coverage: Real,
    pub calibration_size: usize,
}

/// The settings that hold where nothing is said.
pub open spec fn default_decay() -> DecayConfig {
    DecayConfig {
        enabled: false,
        half_life_feedbacks: Real { bits: R_200_0 },
        half_life_seconds: Real { bits: R_604800_0 },
    }
}

pub fn decay_default() -> (c: DecayConfig)
    ensures
        c == default_decay(),
{
    DecayConfig {
        enabled: false,
        half_life_feedbacks: Real { bits: R_200_0 },
        half_life_seconds: Real { bits: R_604800_0 },
    }
}

/// What a section of JSON says, with defaults for what it leaves out.
pub open spec fn decay_of(d: Js) -> DecayConfig {
    DecayConfig {
        enabled: d.bool_or("enabled"@, false),
        half_life_feedbacks: d.real_or("halfLifeFeedbacks"@, Real { bits: R_200_0 }),
        half_life_seconds: d.real_or("halfLifeSeconds"@, Real { bits: R_604800_0 }),
    }
}

pub fn read_decay(d: &Json) -> (c: DecayConfig)
    ensures
        c == decay_of(js(*d)),
{
    DecayConfig {
        enabled: d.bool_or("enabled", false),
        half_life_feedbacks: d.real_or("halfLifeFeedbacks", Real { bits: R_200_0 }),
        half_life_seconds: d.real_or("halfLifeSeconds", Real { bits: R_604800_0 }),
    }
}

/// A section as JSON.
pub open spec fn decay_js(c: DecayConfig) -> Js {
    Js::Obj(
        no_fields()
            .push(("enabled"@, Js::Bool(c.enabled)))
            .push(("halfLifeFeedbacks"@, real_js(c.half_life_feedbacks)))
            .push(("halfLifeSeconds"@, real_js(c.half_life_seconds)))
    )
}

pub fn decay_json(c: &DecayConfig) -> (j: Json)
    ensures
        js(j) == decay_js(*c),
{
    let mut o = empty_object();
    put(&mut o, "enabled", Json::Bool(c.enabled));
    put(&mut o, "halfLifeFeedbacks", Json::number(c.half_life_feedbacks));
    put(&mut o, "halfLifeSeconds", Json::number(c.half_life_seconds));
    Json::Obj(o)
}

/// Every number is finite and within its bounds.
pub open spec fn decay_valid(c: DecayConfig) -> bool {
    &&& c.half_life_feedbacks.spec_is_finite()
    &&& c.half_life_seconds.spec_is_finite()
}

/// A valid section that is written as JSON is read back unchanged.
pub proof fn decay_round_trip(c: DecayConfig)
    requires
        decay_valid(c),
    ensures
        decay_of(decay_js(c)) == c,
{
    broadcast use field_behind;

    reveal_strlit("enabled");
    reveal_strlit("halfLifeFeedbacks");
    reveal_strlit("halfLifeSeconds");
    assert("enabled"@.len() == 7);
    assert("halfLifeFeedbacks"@.len() == 17);
    assert("halfLifeSeconds"@.len() == 15);
    let j = decay_js(c);
    assert(j.get("enabled"@) is Some);
    assert(j.get("halfLifeFeedbacks"@) is Some);
    assert(j.get("halfLifeSeconds"@) is Some);
}

/// The settings that hold where nothing is said.
pub open spec fn default_safety() -> SafetyConfig {
    SafetyConfig {
        max_weight_delta_per_feedback: Real { bits: R_0_15 },
        min_exploration: Real { bits: R_0_02 },
        freeze_learning: false,
        reward_clip: Real { bits: R_2_0 },
        trimmed_fraction: Real { bits: 0 },
        snapshot_on_feedback: true,
        journal_on_feedback: true,
        selection_mode: SelectionMode::Greedy,
        selection_epsilon: Real { bits: R_0_1 },
        option_state_forgetting: Real { bits: R_0_999 },
        capsule_adwin_delta: Real { bits: R_0_0005 },
        context_adwin_delta: Real { bits: R_0_002 },
    }
}

pub fn safety_default() -> (c: SafetyConfig)
    ensures
        c == default_safety(),
{
    SafetyConfig {
        max_weight_delta_per_feedback: Real { bits: R_0_15 },
        min_exploration: Real { bits: R_0_02 },
        freeze_learning: false,
        reward_clip: Real { bits: R_2_0 },
        trimmed_fraction: Real { bits: 0 },
        snapshot_on_feedback: true,
        journal_on_feedback: true,
        selection_mode: SelectionMode::Greedy,
        selection_epsilon: Real { bits: R_0_1 },
        option_state_forgetting: Real { bits: R_0_999 },
        capsule_adwin_delta: Real { bits: R_0_0005 },
        context_adwin_delta: Real { bits: R_0_002 },
    }
}

/// What a section of JSON says, with defaults for what it leaves out.
pub open spec fn safety_of(d: Js) -> SafetyConfig {
    SafetyConfig {
        max_weight_delta_per_feedback: d.real_or("maxWeightDeltaPerFeedback"@, Real { bits: R_0_15 }),
        min_exploration: d.real_or("minExploration"@, Real { bits: R_0_02 }),
        freeze_learning: d.bool_or("freezeLearning"@, false),
        reward_clip: d.real_or("rewardClip"@, Real { bits: R_2_0 }),
        trimmed_fraction: d.real_or("trimmedFraction"@, Real { bits: 0 }).spec_clamp(Real { bits: 0 }, Real { bits: R_0_49 }),
        snapshot_on_feedback: d.bool_or("snapshotOnFeedback"@, true),
        journal_on_feedback: d.bool_or("journalOnFeedback"@, true),
        selection_mode: mode_of(d.str_at("selectionMode"@)),
        selection_epsilon: d.real_or("selectionEpsilon"@, Real { bits: R_0_1 }).spec_clamp(Real { bits: 0 }, Real { bits: R_0_5 }),
        option_state_forgetting: d.real_or("optionStateForgetting"@, Real { bits: R_0_999 }).spec_clamp(Real { bits: 0 }, Real { bits: ONE }),
        capsule_adwin_delta: d.real_or("capsuleAdwinDelta"@, d.real_or("adwinDelta"@, Real { bits: R_0_0005 })).spec_clamp(Real { bits: R_1EM09 }, Real { bits: R_0_5 }),
        context_adwin_delta: d.real_or("contextAdwinDelta"@, d.real_or("adwinDelta"@, Real { bits: R_0_002 })).spec_clamp(Real { bits: R_1EM09 }, Real { bits: R_0_5 }),
    }
}

pub fn read_safety(d: &Json) -> (c: SafetyConfig)
    ensures
        c == safety_of(js(*d)),
{
    SafetyConfig {
        max_weight_delta_per_feedback: d.real_or("maxWeightDeltaPerFeedback", Real { bits: R_0_15 }),
        min_exploration: d.real_or("minExploration", Real { bits: R_0_02 }),
        freeze_learning: d.bool_or("freezeLearning", false),
        reward_clip: d.real_or("rewardClip", Real { bits: R_2_0 }),
        trimmed_fraction: d.real_or("trimmedFraction", Real { bits: 0 }).clamp(Real { bits: 0 }, Real { bits: R_0_49 }),
        snapshot_on_feedback: d.bool_or("snapshotOnFeedback", true),
        journal_on_feedback: d.bool_or("journalOnFeedback", true),
        selection_mode: read_mode(d.str_at("selectionMode")),
        selection_epsilon: d.real_or("selectionEpsilon", Real { bits: R_0_1 }).clamp(Real { bits: 0 }, Real { bits: R_0_5 }),
        option_state_forgetting: d.real_or("optionStateForgetting", Real { bits: R_0_999 }).clamp(Real { bits: 0 }, Real { bits: ONE }),
        capsule_adwin_delta: d.real_or("capsuleAdwinDelta", d.real_or("adwinDelta", Real { bits: R_0_0005 })).clamp(Real { bits: R_1EM09 }, Real { bits: R_0_5 }),
        context_adwin_delta: d.real_or("contextAdwinDelta", d.real_or("adwinDelta", Real { bits: R_0_002 })).clamp(Real { bits: R_1EM09 }, Real { bits: R_0_5 }),
    }
}

/// A section as JSON.
pub open spec fn safety_js(c: SafetyConfig) -> Js {
    Js::Obj(
        no_fields()
            .push(("maxWeightDeltaPerFeedback"@, real_js(c.max_weight_delta_per_feedback)))
            .push(("minExploration"@, real_js(c.min_exploration)))
            .push(("freezeLearning"@, Js::Bool(c.freeze_learning)))
            .push(("rewardClip"@, real_js(c.reward_clip)))
            .push(("trimmedFraction"@, real_js(c.trimmed_fraction)))
            .push(("snapshotOnFeedback"@, Js::Bool(c.snapshot_on_feedback)))
            .push(("journalOnFeedback"@, Js::Bool(c.journal_on_feedback)))
            .push(("selectionMode"@, Js::Str(mode_word(c.selection_mode))))
            .push(("selectionEpsilon"@, real_js(c.selection_epsilon)))
            .push(("optionStateForgetting"@, real_js(c.option_state_forgetting)))
            .push(("capsuleAdwinDelta"@, real_js(c.capsule_adwin_delta)))
            .push(("contextAdwinDelta"@, real_js(c.context_adwin_delta)))
    )
}

pub fn safety_json(c: &SafetyConfig) -> (j: Json)
    ensures
        js(j) == safety_js(*c),
{
    let mut o = empty_object();
    put(&mut o, "maxWeightDeltaPerFeedback", Json::number(c.max_weight_delta_per_feedback));
    put(&mut o, "minExploration", Json::number(c.min_exploration));
    put(&mut o, "freezeLearning", Json::Bool(c.freeze_learning));
    put(&mut o, "rewardClip", Json::number(c.reward_clip));
    put(&mut o, "trimmedFraction", Json::number(c.trimmed_fraction));
    put(&mut o, "snapshotOnFeedback", Json::Bool(c.snapshot_on_feedback));
    put(&mut o, "journalOnFeedback", Json::Bool(c.journal_on_feedback));
    put(&mut o, "selectionMode", Json::text(mode_text(c.selection_mode)));
    put(&mut o, "selectionEpsilon", Json::number(c.selection_epsilon));
    put(&mut o, "optionStateForgetting", Json::number(c.option_state_forgetting));
    put(&mut o, "capsuleAdwinDelta", Json::number(c.capsule_adwin_delta));
    put(&mut o, "contextAdwinDelta", Json::number(c.context_adwin_delta));
    Json::Obj(o)
}

/// Every number is finite and within its bounds.
pub open spec fn safety_valid(c: SafetyConfig) -> bool {
    &&& c.max_weight_delta_per_feedback.spec_is_finite()
    &&& c.min_exploration.spec_is_finite()
    &&& c.reward_clip.spec_is_finite()
    &&& c.trimmed_fraction.spec_is_finite()
    &&& c.trimmed_fraction.spec_clamp(Real { bits: 0 }, Real { bits: R_0_49 }) == c.trimmed_fraction
    &&& c.selection_epsilon.spec_is_finite()
    &&& c.selection_epsilon.spec_clamp(Real { bits: 0 }, Real { bits: R_0_5 }) == c.selection_epsilon
    &&& c.option_state_forgetting.spec_is_finite()
    &&& c.option_state_forgetting.spec_clamp(Real { bits: 0 }, Real { bits: ONE }) == c.option_state_forgetting
    &&& c.capsule_adwin_delta.spec_is_finite()
    &&& c.capsule_adwin_delta.spec_clamp(Real { bits: R_1EM09 }, Real { bits: R_0_5 }) == c.capsule_adwin_delta
    &&& c.context_adwin_delta.spec_is_finite()
    &&& c.context_adwin_delta.spec_clamp(Real { bits: R_1EM09 }, Real { bits: R_0_5 }) == c.context_adwin_delta
}

/// A valid section that is written as JSON is read back unchanged.
#[verifier::rlimit(40)]
pub proof fn safety_round_trip(c: SafetyConfig)
    requires
        safety_valid(c),
    ensures
        safety_of(safety_js(c)) == c,
{
    broadcast use field_behind;

    reveal_strlit("maxWeightDeltaPerFeedback");
    reveal_strlit("minExploration");
    reveal_strlit("freezeLearning");
    reveal_strlit("rewardClip");
    reveal_strlit("trimmedFraction");
    reveal_strlit("snapshotOnFeedback");
    reveal_strlit("journalOnFeedback");
    reveal_strlit("selectionMode");
    reveal_strlit("selectionEpsilon");
    reveal_strlit("optionStateForgetting");
    reveal_strlit("capsuleAdwinDelta");
    reveal_strlit("contextAdwinDelta");
    reveal_strlit("adwinDelta");
    reveal_strlit("greedy");
    reveal_strlit("weighted");
    reveal_strlit("epsilonGreedy");
    assert("maxWeightDeltaPerFeedback"@.len() == 25);
    assert("minExploration"@.len() == 14);
    assert("freezeLearning"@.len() == 14);
    assert("rewardClip"@.len() == 10);
    assert("trimmedFraction"@.len() == 15);
    assert("snapshotOnFeedback"@.len() == 18);
    assert("journalOnFeedback"@.len() == 17);
    assert("selectionMode"@.len() == 13);
    assert("selectionEpsilon"@.len() == 16);
    assert("optionStateForgetting"@.len() == 21);
    assert("capsuleAdwinDelta"@.len() == 17);
    assert("contextAdwinDelta"@.len() == 17);
    assert("adwinDelta"@.len() == 10);
    assert("minExploration"@[0] != "freezeLearning"@[0]);
    assert("rewardClip"@[0] != "adwinDelta"@[0]);
    assert("journalOnFeedback"@[0] != "capsuleAdwinDelta"@[0]);
    assert("journalOnFeedback"@[0] != "contextAdwinDelta"@[0]);
    assert("capsuleAdwinDelta"@[1] != "contextAdwinDelta"@[1]);
    assert("greedy"@.len() == 6);
    assert("weighted"@.len() == 8);
    assert("epsilonGreedy"@.len() == 13);
    let j = safety_js(c);
    assert(j.get("maxWeightDeltaPerFeedback"@) is Some);
    assert(j.get("minExploration"@) is Some);
    assert(j.get("freezeLearning"@) is Some);
    assert(j.get("rewardClip"@) is Some);
    assert(j.get("trimmedFraction"@) is Some);
    assert(j.get("snapshotOnFeedback"@) is Some);
    assert(j.get("journalOnFeedback"@) is Some);
    assert(j.get("selectionMode"@) is Some);
    assert(j.get("selectionEpsilon"@) is Some);
    assert(j.get("optionStateForgetting"@) is Some);
    assert(j.get("capsuleAdwinDelta"@) is Some);
    assert(j.get("contextAdwinDelta"@) is Some);
}

/// The settings that hold where nothing is said.
pub open spec fn default_window() -> WindowConfig {
    WindowConfig {
        enabled: false,
        size: 100,
    }
}

pub fn window_default() -> (c: WindowConfig)
    ensures
        c == default_window(),
{
    WindowConfig {
        enabled: false,
        size: 100,
    }
}

/// What a section of JSON says, with defaults for what it leaves out.
pub open spec fn window_of(d: Js) -> WindowConfig {
    WindowConfig {
        enabled: d.bool_or("enabled"@, false),
        size: at_least(size_of_u64(d.u64_or("size"@, 100)), 1),
    }
}

pub fn read_window(d: &Json) -> (c: WindowConfig)
    ensures
        c == window_of(js(*d)),
{
    WindowConfig {
        enabled: d.bool_or("enabled", false),
        size: no_less(as_size(d.u64_or("size", 100)), 1),
    }
}

/// A section as JSON.
pub open spec fn window_js(c: WindowConfig) -> Js {
    Js::Obj(
        no_fields()
            .push(("enabled"@, Js::Bool(c.enabled)))
            .push(("size"@, natural_js(c.size as u64)))
    )
}

pub fn window_json(c: &WindowConfig) -> (j: Json)
    ensures
        js(j) == window_js(*c),
{
    let mut o = empty_object();
    put(&mut o, "enabled", Json::Bool(c.enabled));
    put(&mut o, "size", Json::natural(c.size as u64));
    Json::Obj(o)
}

/// Every number is finite and within its bounds.
pub open spec fn window_valid(c: WindowConfig) -> bool {
    &&& c.size >= 1
}

/// A valid section that is written as JSON is read back unchanged.
pub proof fn window_round_trip(c: WindowConfig)
    requires
        window_valid(c),
    ensures
        window_of(window_js(c)) == c,
{
    broadcast use field_behind;

    reveal_strlit("enabled");
    reveal_strlit("size");
    assert("enabled"@.len() == 7);
    assert("size"@.len() == 4);
    let j = window_js(c);
    assert(j.get("enabled"@) is Some);
    assert(j.get("size"@) is Some);
}

/// The settings that hold where nothing is said.
pub open spec fn default_change() -> ChangeDetectionConfig {
    ChangeDetectionConfig {
        enabled: false,
        threshold: Real { bits: R_5_0 },
        min_drift: Real { bits: R_0_05 },
        exploration_boost: Real { bits: R_0_25 },
        boost_duration: 50,
        method: ChangeDetectionMethod::PageHinkley,
        surprise_k_sigma: Real { bits: R_2_5 },
        surprise_fraction_threshold: Real { bits: R_0_3 },
    }
}

pub fn change_default() -> (c: ChangeDetectionConfig)
    ensures
        c == default_change(),
{
    ChangeDetectionConfig {
        enabled: false,
        threshold: Real { bits: R_5_0 },
        min_drift: Real { bits: R_0_05 },
        exploration_boost: Real { bits: R_0_25 },
        boost_duration: 50,
        method: ChangeDetectionMethod::PageHinkley,
        surprise_k_sigma: Real { bits: R_2_5 },
        surprise_fraction_threshold: Real { bits: R_0_3 },
    }
}

/// What a section of JSON says, with defaults for what it leaves out.
pub open spec fn change_of(d: Js) -> ChangeDetectionConfig {
    ChangeDetectionConfig {
        enabled: d.bool_or("enabled"@, false),
        threshold: d.real_or("threshold"@, Real { bits: R_5_0 }),
        min_drift: d.real_or("minDrift"@, Real { bits: R_0_05 }),
        exploration_boost: d.real_or("explorationBoost"@, Real { bits: R_0_25 }),
        boost_duration: low_word(d.u64_or("boostDuration"@, 50)),
        method: method_of(d.str_at("method"@)),
        surprise_k_sigma: d.real_or("surpriseKSigma"@, Real { bits: R_2_5 }),
        surprise_fraction_threshold: d.real_or("surpriseFractionThreshold"@, Real { bits: R_0_3 }),
    }
}

pub fn read_change(d: &Json) -> (c: ChangeDetectionConfig)
    ensures
        c == change_of(js(*d)),
{
    ChangeDetectionConfig {
        enabled: d.bool_or("enabled", false),
        threshold: d.real_or("threshold", Real { bits: R_5_0 }),
        min_drift: d.real_or("minDrift", Real { bits: R_0_05 }),
        exploration_boost: d.real_or("explorationBoost", Real { bits: R_0_25 }),
        boost_duration: to_low_word(d.u64_or("boostDuration", 50)),
        method: read_method(d.str_at("method")),
        surprise_k_sigma: d.real_or("surpriseKSigma", Real { bits: R_2_5 }),
        surprise_fraction_threshold: d.real_or("surpriseFractionThreshold", Real { bits: R_0_3 }),
    }
}

/// A section as JSON.
pub open spec fn change_js(c: ChangeDetectionConfig) -> Js {
    Js::Obj(
        no_fields()
            .push(("enabled"@, Js::Bool(c.enabled)))
            .push(("threshold"@, real_js(c.threshold)))
            .push(("minDrift"@, real_js(c.min_drift)))
            .push(("explorationBoost"@, real_js(c.exploration_boost)))
            .push(("boostDuration"@, natural_js(c.boost_duration as u64)))
            .push(("method"@, Js::Str(method_word(c.method))))
            .push(("surpriseKSigma"@, real_js(c.surprise_k_sigma)))
            .push(("surpriseFractionThreshold"@, real_js(c.surprise_fraction_threshold)))
    )
}

pub fn change_json(c: &ChangeDetectionConfig) -> (j: Json)
    ensures
        js(j) == change_js(*c),
{
    let mut o = empty_object();
    put(&mut o, "enabled", Json::Bool(c.enabled));
    put(&mut o, "threshold", Json::number(c.threshold));
    put(&mut o, "minDrift", Json::number(c.min_drift));
    put(&mut o, "explorationBoost", Json::number(c.exploration_boost));
    put(&mut o, "boostDuration", Json::natural(c.boost_duration as u64));
    put(&mut o, "method", Json::text(method_text(c.method)));
    put(&mut o, "surpriseKSigma", Json::number(c.surprise_k_sigma));
    put(&mut o, "surpriseFractionThreshold", Json::number(c.surprise_fraction_threshold));
    Json::Obj(o)
}

/// Every number is finite and within its bounds.
pub open spec fn change_valid(c: ChangeDetectionConfig) -> bool {
    &&& c.threshold.spec_is_finite()
    &&& c.min_drift.spec_is_finite()
    &&& c.exploration_boost.spec_is_finite()
    &&& c.surprise_k_sigma.spec_is_finite()
    &&& c.surprise_fraction_threshold.spec_is_finite()
}

/// A valid section that is written as JSON is read back unchanged.
pub proof fn change_round_trip(c: ChangeDetectionConfig)
    requires
        change_valid(c),
    ensures
        change_of(change_js(c)) == c,
{
    broadcast use field_behind;

    reveal_strlit("enabled");
    reveal_strlit("threshold");
    reveal_strlit("minDrift");
    reveal_strlit("explorationBoost");
    reveal_strlit("boostDuration");
    reveal_strlit("method");
    reveal_strlit("surpriseKSigma");
    reveal_strlit("surpriseFractionThreshold");
    reveal_strlit("pageHinkley");
    reveal_strlit("modelSurprise");
    assert("enabled"@.len() == 7);
    assert("threshold"@.len() == 9);
    assert("minDrift"@.len() == 8);
    assert("explorationBoost"@.len() == 16);
    assert("boostDuration"@.len() == 13);
    assert("method"@.len() == 6);
    assert("surpriseKSigma"@.len() == 14);
    assert("surpriseFractionThreshold"@.len() == 25);
    assert("pageHinkley"@.len() == 11);
    assert("modelSurprise"@.len() == 13);
    let j = change_js(c);
    assert(j.get("enabled"@) is Some);
    assert(j.get("threshold"@) is Some);
    assert(j.get("minDrift"@) is Some);
    assert(j.get("explorationBoost"@) is Some);
    assert(j.get("boostDuration"@) is Some);
    assert(j.get("method"@) is Some);
    assert(j.get("surpriseKSigma"@) is Some);
    assert(j.get("surpriseFractionThreshold"@) is Some);
}

/// The settings that hold where nothing is said.
pub open spec fn default_risk() -> RiskSensitiveConfig {
    RiskSensitiveConfig {
        enabled: false,
        alpha: Real { bits: R_0_1 },
        blend: Real { bits: R_0_3 },
    }
}

pub fn risk_default() -> (c: RiskSensitiveConfig)
    ensures
        c == default_risk(),
{
    RiskSensitiveConfig {
        enabled: false,
        alpha: Real { bits: R_0_1 },
        blend: Real { bits: R_0_3 },
    }
}

/// What a section of JSON says, with defaults for what it leaves out.
pub open spec fn risk_of(d: Js) -> RiskSensitiveConfig {
    RiskSensitiveConfig {
        enabled: d.bool_or("enabled"@, false),
        alpha: d.real_or("alpha"@, Real { bits: R_0_1 }).spec_clamp(Real { bits: R_0_01 }, Real { bits: R_0_99 }),
        blend: d.real_or("blend"@, Real { bits: R_0_3 }).spec_clamp(Real { bits: 0 }, Real { bits: ONE }),
    }
}

pub fn read_risk(d: &Json) -> (c: RiskSensitiveConfig)
    ensures
        c == risk_of(js(*d)),
{
    RiskSensitiveConfig {
        enabled: d.bool_or("enabled", false),
        alpha: d.real_or("alpha", Real { bits: R_0_1 }).clamp(Real { bits: R_0_01 }, Real { bits: R_0_99 }),
        blend: d.real_or("blend", Real { bits: R_0_3 }).clamp(Real { bits: 0 }, Real { bits: ONE }),
    }
}

/// A section as JSON.
pub open spec fn risk_js(c: RiskSensitiveConfig) -> Js {
    Js::Obj(
        no_fields()
            .push(("enabled"@, Js::Bool(c.enabled)))
            .push(("alpha"@, real_js(c.alpha)))
            .push(("blend"@, real_js(c.blend)))
    )
}

pub fn risk_json(c: &RiskSensitiveConfig) -> (j: Json)
    ensures
        js(j) == risk_js(*c),
{
    let mut o = empty_object();
    put(&mut o, "enabled", Json::Bool(c.enabled));
    put(&mut o, "alpha", Json::number(c.alpha));
    put(&mut o, "blend", Json::number(c.blend));
    Json::Obj(o)
}

/// Every number is finite and within its bounds.
pub open spec fn risk_valid(c: RiskSensitiveConfig) -> bool {
    &&& c.alpha.spec_is_finite()
    &&& c.alpha.spec_clamp(Real { bits: R_0_01 }, Real { bits: R_0_99 }) == c.alpha
    &&& c.blend.spec_is_finite()
    &&& c.blend.spec_clamp(Real { bits: 0 }, Real { bits: ONE }) == c.blend
}

/// A valid section that is written as JSON is read back unchanged.
pub proof fn risk_round_trip(c: RiskSensitiveConfig)
    requires
        risk_valid(c),
    ensures
        risk_of(risk_js(c)) == c,
{
    broadcast use field_behind;

    reveal_strlit("enabled");
    reveal_strlit("alpha");
    reveal_strlit("blend");
    assert("enabled"@.len() == 7);
    assert("alpha"@.len() == 5);
    assert("blend"@.len() == 5);
    assert("alpha"@[0] != "blend"@[0]);
    let j = risk_js(c);
    assert(j.get("enabled"@) is Some);
    assert(j.get("alpha"@) is Some);
    assert(j.get("blend"@) is Some);
}

/// The settings that hold where nothing is said.
pub open spec fn default_corruption() -> CorruptionRobustConfig {
    CorruptionRobustConfig {
        enabled: false,
        budget: Real { bits: 0 },
    }
}

pub fn corruption_default() -> (c: CorruptionRobustConfig)
    ensures
        c == default_corruption(),
{
    CorruptionRobustConfig {
        enabled: false,
        budget: Real { bits: 0 },
    }
}

/// What a section of JSON says, with defaults for what it leaves out.
pub open spec fn corruption_of(d: Js) -> CorruptionRobustConfig {
    CorruptionRobustConfig {
        enabled: d.bool_or("enabled"@, false),
        budget: d.real_or("budget"@, Real { bits: 0 }).spec_max(Real { bits: 0 }),
    }
}

pub fn read_corruption(d: &Json) -> (c: CorruptionRobustConfig)
    ensures
        c == corruption_of(js(*d)),
{
    CorruptionRobustConfig {
        enabled: d.bool_or("enabled", false),
        budget: d.real_or("budget", Real { bits: 0 }).max(Real { bits: 0 }),
    }
}

/// A section as JSON.
pub open spec fn corruption_js(c: CorruptionRobustConfig) -> Js {
    Js::Obj(
        no_fields()
            .push(("enabled"@, Js::Bool(c.enabled)))
            .push(("budget"@, real_js(c.budget)))
    )
}

pub fn corruption_json(c: &CorruptionRobustConfig) -> (j: Json)
    ensures
        js(j) == corruption_js(*c),
{
    let mut o = empty_object();
    put(&mut o, "enabled", Json::Bool(c.enabled));
    put(&mut o, "budget", Json::number(c.budget));
    Json::Obj(o)
}

/// Every number is finite and within its bounds.
pub open spec fn corruption_valid(c: CorruptionRobustConfig) -> bool {
    &&& c.budget.spec_is_finite()
    &&& c.budget.spec_max(Real { bits: 0 }) == c.budget
}

/// A valid section that is written as JSON is read back unchanged.
pub proof fn corruption_round_trip(c: CorruptionRobustConfig)
    requires
        corruption_valid(c),
    ensures
        corruption_of(corruption_js(c)) == c,
{
    broadcast use field_behind;

    reveal_strlit("enabled");
    reveal_strlit("budget");
    assert("enabled"@.len() == 7);
    assert("budget"@.len() == 6);
    let j = corruption_js(c);
    assert(j.get("enabled"@) is Some);
    assert(j.get("budget"@) is Some);
}

/// The settings that hold where nothing is said.
pub open spec fn default_conformal() -> ConformalConfig {
    ConformalConfig {
        enabled: false,
        coverage: Real { bits: R_0_9 },
        calibration_size: 100,
    }
}

pub fn conformal_default() -> (c: ConformalConfig)
    ensures
        c == default_conformal(),
{
    ConformalConfig {
        enabled: false,
        coverage: Real { bits: R_0_9 },
        calibration_size: 100,
    }
}

/// What a section of JSON says, with defaults for what it leaves out.
pub open spec fn conformal_of(d: Js) -> ConformalConfig {
    ConformalConfig {
        enabled: d.bool_or("enabled"@, false),
        coverage: d.real_or("coverage"@, Real { bits: R_0_9 }).spec_clamp(Real { bits: R_0_5 }, Real { bits: R_0_999 }),
        calibration_size: at_least(size_of_u64(d.u64_or("calibrationSize"@, 100)), 10),
    }
}

pub fn read_conformal(d: &Json) -> (c: ConformalConfig)
    ensures
        c == conformal_of(js(*d)),
{
    ConformalConfig {
        enabled: d.bool_or("enabled", false),
        coverage: d.real_or("coverage", Real { bits: R_0_9 }).clamp(Real { bits: R_0_5 }, Real { bits: R_0_999 }),
        calibration_size: no_less(as_size(d.u64_or("calibrationSize", 100)), 10),
    }
}

/// A section as JSON.
pub open spec fn conformal_js(c: ConformalConfig) -> Js {
    Js::Obj(
        no_fields()
            .push(("enabled"@, Js::Bool(c.enabled)))
            .push(("coverage"@, real_js(c.coverage)))
            .push(("calibrationSize"@, natural_js(c.calibration_size as u64)))
    )
}

pub fn conformal_json(c: &ConformalConfig) -> (j: Json)
    ensures
        js(j) == conformal_js(*c),
{
    let mut o = empty_object();
    put(&mut o, "enabled", Json::Bool(c.enabled));
    put(&mut o, "coverage", Json::number(c.coverage));
    put(&mut o, "calibrationSize", Json::natural(c.calibration_size as u64));
    Json::Obj(o)
}

/// Every number is finite and within its bounds.
pub open spec fn conformal_valid(c: ConformalConfig) -> bool {
    &&& c.coverage.spec_is_finite()
    &&& c.coverage.spec_clamp(Real { bits: R_0_5 }, Real { bits: R_0_999 }) == c.coverage
    &&& c.calibration_size >= 10
}

/// A valid section that is written as JSON is read back unchanged.
pub proof fn conformal_round_trip(c: ConformalConfig)
    requires
        conformal_valid(c),
    ensures
        conformal_of(conformal_js(c)) == c,
{
    broadcast use field_behind;

    reveal_strlit("enabled");
    reveal_strlit("coverage");
    reveal_strlit("calibrationSize");
    assert("enabled"@.len() == 7);
    assert("coverage"@.len() == 8);
    assert("calibrationSize"@.len() == 15);
    let j = conformal_js(c);
    assert(j.get("enabled"@) is Some);
    assert(j.get("coverage"@) is Some);
    assert(j.get("calibrationSize"@) is Some);
}

} // verus!
