//! What is known of each option, and its JSON.
use crate::cap_calls::{sort_values, sorted_values};
use crate::conformal::sorted_length;
use crate::feature_schema::copy_reals;
use crate::json::{Js, Json, empty_object, field_behind, fields, js, natural_js, no_fields, put, real_js, reals_in_list, reals_js, reals_of, reals_round_trip};
use crate::learning_config::{read_reals_by_name, real_fields, reals_by_name, reals_by_name_json, reals_by_name_round_trip};
use crate::learning_sections::{low_word, to_low_word};
use crate::meta_bandit::Quotient;
use crate::number::{ONE, Real, cut_to, real_of_int};
use crate::real_constants::R_1EM09;
use crate::table::{Table, entries_map};
use vstd::prelude::*;
use vstd::string::StringExecFns;

verus! {

/// The statistics of an option.
#[derive(Debug)]
pub struct OptionStats {
    pub tries: u64,
    pub successes: u64,
    pub failures: u64,
    pub reward_sum: Real,
    pub reward_sq_sum: Real,
    pub last_reward: Real,
    pub last_updated: u64,
    pub effective_tries: Real,
    /// Recent rewards, oldest first.
    pub window: Vec<Real>,
    pub ph_cumsum: Real,
    pub ph_min: Real,
    pub change_boost_remaining: u32,
    pub change_points: u32,
    pub posterior_mean: Real,
    pub posterior_var: Real,
    pub signal_counts: Table<u64>,
    pub surprise_recent: u32,
    pub objective_rewards: Table<Real>,
    pub objective_counts: Table<u64>,
}

/// Statistics with what they hold as sequences and maps.
pub struct StatsView {
    pub tries: u64,
    pub successes: u64,
    pub failures: u64,
    pub reward_sum: Real,
    pub reward_sq_sum: Real,
    pub last_reward: Real,
    pub last_updated: u64,
    pub effective_tries: Real,
    pub window: Seq<Real>,
    pub ph_cumsum: Real,
    pub ph_min: Real,
    pub change_boost_remaining: u32,
    pub change_points: u32,
    pub posterior_mean: Real,
    pub posterior_var: Real,
    pub signal_counts: Map<Seq<char>, u64>,
    pub surprise_recent: u32,
    pub objective_rewards: Map<Seq<char>, Real>,
    pub objective_counts: Map<Seq<char>, u64>,
}

/// Numbers of the statistics, rounded for display.
#[derive(Clone, Copy, Debug)]
pub struct Rounded {
    pub reward_mean: Real,
    pub reward_mean_windowed: Real,
    pub reward_variance: Real,
    pub effective_tries: Real,
    pub posterior_mean: Real,
    pub posterior_var: Real,
}

// Counts by name

/// The natural numbers among the fields, by name.
pub open spec fn counts_by_name(o: Seq<(Seq<char>, Js)>) -> Map<Seq<char>, u64>
    decreases o.len(),
{
    if o.len() == 0 {
        Map::empty()
    } else {
        match o.last().1.as_u64() {
            Some(n) => counts_by_name(o.drop_last()).insert(o.last().0, n),
            None => counts_by_name(o.drop_last()),
        }
    }
}

fn read_counts(o: &Vec<(String, Json)>) -> (t: Table<u64>)
    ensures
        t@ == counts_by_name(fields(o@)),
        t.wf(),
{
    let ghost all = fields(o@);
    let mut t: Table<u64> = Table::new();
    let mut i: usize = 0;
    assert(all.take(0) == no_fields());
    while i < o.len()
        invariant
            i <= o.len(),
            all == fields(o@),
            t.wf(),
            t@ == counts_by_name(all.take(i as int)),
        decreases o.len() - i,
    {
        assert(all.take(i + 1).drop_last() == all.take(i as int));
        assert(all.take(i + 1).last() == (o@[i as int].0@, js(o@[i as int].1)));
        if let Some(n) = o[i].1.as_u64() {
            t.insert(o[i].0.clone(), n);
        }
        i = i + 1;
    }
    assert(all.take(i as int) == all);
    t
}

/// The entries of a table of counts as fields.
pub open spec fn count_fields(s: Seq<(String, u64)>) -> Seq<(Seq<char>, Js)>
    decreases s.len(),
{
    if s.len() == 0 {
        no_fields()
    } else {
        count_fields(s.drop_last()).push((s.last().0@, natural_js(s.last().1)))
    }
}

fn counts_json(t: &Table<u64>) -> (j: Json)
    ensures
        js(j) == Js::Obj(count_fields(t.entries@)),
{
    let ghost all = t.entries@;
    let mut o = empty_object();
    let mut i: usize = 0;
    assert(all.take(0) == Seq::<(String, u64)>::empty());
    while i < t.entries.len()
        invariant
            i <= t.entries.len(),
            all == t.entries@,
            fields(o@) == count_fields(all.take(i as int)),
        decreases t.entries.len() - i,
    {
        assert(all.take(i + 1).drop_last() == all.take(i as int));
        put(&mut o, t.entries[i].0.as_str(), Json::natural(t.entries[i].1));
        i = i + 1;
    }
    assert(all.take(i as int) == all);
    Json::Obj(o)
}

/// A table of counts that is written as JSON is read back unchanged.
pub proof fn counts_round_trip(s: Seq<(String, u64)>)
    ensures
        counts_by_name(count_fields(s)) == entries_map(s),
    decreases s.len(),
{
    if s.len() > 0 {
        counts_round_trip(s.drop_last());
        assert(count_fields(s).drop_last() =~= count_fields(s.drop_last()));
    }
}

// The statistics

pub open spec fn default_stats() -> StatsView {
    StatsView {
        tries: 0,
        successes: 0,
        failures: 0,
        reward_sum: Real { bits: 0 },
        reward_sq_sum: Real { bits: 0 },
        last_reward: Real { bits: 0 },
        last_updated: 0,
        effective_tries: Real { bits: 0 },
        window: Seq::empty(),
        ph_cumsum: Real { bits: 0 },
        ph_min: Real { bits: 0 },
        change_boost_remaining: 0,
        change_points: 0,
        posterior_mean: Real { bits: 0 },
        posterior_var: Real { bits: ONE },
        signal_counts: Map::empty(),
        surprise_recent: 0,
        objective_rewards: Map::empty(),
        objective_counts: Map::empty(),
    }
}

/// The numbers of a list under a key; none where there is no list.
pub open spec fn reals_at(j: Js, key: Seq<char>) -> Seq<Real> {
    match j.array_at(key) {
        Some(a) => reals_of(a),
        None => Seq::empty(),
    }
}

/// The numbers of a list under a key; none where there is no list.
pub fn read_reals_at(j: &Json, key: &str) -> (v: Vec<Real>)
    ensures
        v@ == reals_at(js(*j), key@),
{
    match j.array_at(key) {
        Some(a) => reals_in_list(a),
        None => Vec::new(),
    }
}

/// The statistics that JSON holds.
pub open spec fn stats_of_js(j: Js) -> StatsView {
    StatsView {
        tries: j.u64_or("tries"@, 0),
        successes: j.u64_or("successes"@, 0),
        failures: j.u64_or("failures"@, 0),
        reward_sum: j.real_or("rewardSum"@, Real { bits: 0 }),
        reward_sq_sum: j.real_or("rewardSqSum"@, Real { bits: 0 }),
        last_reward: j.real_or("lastReward"@, Real { bits: 0 }),
        last_updated: j.u64_or("lastUpdated"@, 0),
        effective_tries: j.real_or("effectiveTries"@, real_of_int(j.u64_or("tries"@, 0) as int)),
        window: reals_at(j, "window"@),
        ph_cumsum: j.real_or("phCumsum"@, Real { bits: 0 }),
        ph_min: j.real_or("phMin"@, Real { bits: 0 }),
        change_boost_remaining: low_word(j.u64_or("changeBoostRemaining"@, 0)),
        change_points: low_word(j.u64_or("changePoints"@, 0)),
        posterior_mean: j.real_or("posteriorMean"@, Real { bits: 0 }),
        posterior_var: j.real_or("posteriorVar"@, Real { bits: ONE }),
        signal_counts: match j.object_at("signalCounts"@) {
            Some(o) => counts_by_name(o),
            None => Map::empty(),
        },
        surprise_recent: low_word(j.u64_or("surpriseRecent"@, 0)),
        objective_rewards: match j.object_at("objectiveRewards"@) {
            Some(o) => reals_by_name(o),
            None => Map::empty(),
        },
        objective_counts: match j.object_at("objectiveCounts"@) {
            Some(o) => counts_by_name(o),
            None => Map::empty(),
        },
    }
}

/// The fields that only display the statistics.
pub open spec fn shown_fields(s: OptionStats, r: Rounded) -> Seq<(Seq<char>, Js)> {
    no_fields().push(("rewardMean"@, real_js(r.reward_mean))).push(
        ("rewardMeanWindowed"@, real_js(r.reward_mean_windowed)),
    ).push(("rewardVariance"@, real_js(r.reward_variance))).push(
        ("windowFill"@, natural_js(s.window@.len() as u64)),
    ).push(("changeBoostActive"@, Js::Bool(s.change_boost_remaining > 0)))
}

/// The statistics as JSON. `effective` is what is written of the effective
/// number of tries, and `posterior` of the posterior.
pub open spec fn stats_js(
    s: OptionStats,
    r: Rounded,
    effective: Real,
    posterior: (Real, Real),
) -> Js {
    Js::Obj(
        shown_fields(s, r).push(("tries"@, natural_js(s.tries))).push(
            ("successes"@, natural_js(s.successes)),
        ).push(("failures"@, natural_js(s.failures))).push(
            ("lastReward"@, real_js(s.last_reward)),
        ).push(("lastUpdated"@, natural_js(s.last_updated))).push(
            ("effectiveTries"@, real_js(effective)),
        ).push(("changePoints"@, natural_js(s.change_points as u64))).push(
            ("posteriorMean"@, real_js(posterior.0)),
        ).push(("posteriorVar"@, real_js(posterior.1))).push(
            ("signalCounts"@, Js::Obj(count_fields(s.signal_counts.entries@))),
        ).push(("surpriseRecent"@, natural_js(s.surprise_recent as u64))).push(
            ("objectiveRewards"@, Js::Obj(real_fields(s.objective_rewards.entries@))),
        ).push(("objectiveCounts"@, Js::Obj(count_fields(s.objective_counts.entries@)))).push(
            ("rewardSum"@, real_js(s.reward_sum)),
        ).push(("rewardSqSum"@, real_js(s.reward_sq_sum))).push(
            ("window"@, reals_js(s.window@)),
        ).push(("phCumsum"@, real_js(s.ph_cumsum))).push(("phMin"@, real_js(s.ph_min))).push(
            ("changeBoostRemaining"@, natural_js(s.change_boost_remaining as u64)),
        ),
    )
}

impl Default for OptionStats {
    fn default() -> (s: Self)
        ensures
            s.seen() == default_stats(),
            s.wf(),
    {
        OptionStats {
            tries: 0,
            successes: 0,
            failures: 0,
            reward_sum: Real { bits: 0 },
            reward_sq_sum: Real { bits: 0 },
            last_reward: Real { bits: 0 },
            last_updated: 0,
            effective_tries: Real { bits: 0 },
            window: Vec::new(),
            ph_cumsum: Real { bits: 0 },
            ph_min: Real { bits: 0 },
            change_boost_remaining: 0,
            change_points: 0,
            posterior_mean: Real { bits: 0 },
            posterior_var: Real { bits: ONE },
            signal_counts: Table::new(),
            surprise_recent: 0,
            objective_rewards: Table::new(),
            objective_counts: Table::new(),
        }
    }
}

/// A mean that the host is to compute: a quotient, or the mean of a list.
#[derive(Debug)]
pub enum Average {
    Of(Quotient),
    Over(Vec<Real>),
}

/// A mean with its list as a sequence.
pub enum AverageView {
    Of(Quotient),
    Over(Seq<Real>),
}

impl Average {
    pub open spec fn seen(self) -> AverageView {
        match self {
            Average::Of(q) => AverageView::Of(q),
            Average::Over(v) => AverageView::Over(v@),
        }
    }
}

/// The items from one place up to another.
fn part_of(v: &Vec<Real>, lo: usize, hi: usize) -> (r: Vec<Real>)
    requires
        lo <= hi <= v@.len(),
    ensures
        r@ == v@.subrange(lo as int, hi as int),
{
    let mut r: Vec<Real> = Vec::new();
    let mut i: usize = lo;
    while i < hi
        invariant
            lo <= i <= hi <= v@.len(),
            r@ == v@.subrange(lo as int, i as int),
        decreases hi - i,
    {
        r.push(v[i]);
        i = i + 1;
        assert(r@ =~= v@.subrange(lo as int, i as int));
    }
    r
}

impl OptionStats {
    pub open spec fn seen(self) -> StatsView {
        StatsView {
            tries: self.tries,
            successes: self.successes,
            failures: self.failures,
            reward_sum: self.reward_sum,
            reward_sq_sum: self.reward_sq_sum,
            last_reward: self.last_reward,
            last_updated: self.last_updated,
            effective_tries: self.effective_tries,
            window: self.window@,
            ph_cumsum: self.ph_cumsum,
            ph_min: self.ph_min,
            change_boost_remaining: self.change_boost_remaining,
            change_points: self.change_points,
            posterior_mean: self.posterior_mean,
            posterior_var: self.posterior_var,
            signal_counts: self.signal_counts@,
            surprise_recent: self.surprise_recent,
            objective_rewards: self.objective_rewards@,
            objective_counts: self.objective_counts@,
        }
    }

    /// The tables have each key once.
    pub open spec fn wf(self) -> bool {
        &&& self.signal_counts.wf()
        &&& self.objective_rewards.wf()
        &&& self.objective_counts.wf()
    }

    pub open spec fn mean_quotient(self) -> Quotient {
        if self.tries == 0 {
            Quotient::Known(Real { bits: 0 })
        } else {
            Quotient::Of(self.reward_sum, real_of_int(self.tries as int))
        }
    }

    /// The mean reward of all time.
    pub fn reward_mean(&self) -> (q: Quotient)
        ensures
            q == self.mean_quotient(),
    {
        if self.tries == 0 {
            Quotient::Known(Real::zero())
        } else {
            Quotient::Of(self.reward_sum, Real::of_u64(self.tries))
        }
    }

    /// What the mean of recent rewards is taken of.
    pub open spec fn windowed(self) -> AverageView {
        if self.window@.len() == 0 {
            AverageView::Of(self.mean_quotient())
        } else {
            AverageView::Over(self.window@)
        }
    }

    /// The mean of recent rewards; of all where none are kept.
    pub fn reward_mean_windowed(&self) -> (a: Average)
        ensures
            a.seen() == self.windowed(),
    {
        if self.window.len() == 0 {
            Average::Of(self.reward_mean())
        } else {
            Average::Over(copy_reals(&self.window))
        }
    }

    /// The recent rewards in order without `trim` of them at each end; all of
    /// them where that leaves none.
    pub open spec fn trimmed(self, frac: Real, trim: Real) -> AverageView {
        let n = self.window@.len() as int;
        let k = cut_to(trim, usize::MAX as nat) as int;
        if n == 0 || frac.at_most(Real { bits: 0 }) || n - k <= k {
            self.windowed()
        } else {
            AverageView::Over(sorted_values(self.window@).subrange(k, n - k))
        }
    }

    /// The mean of recent rewards without a fraction of them at each end. `trim`
    /// is that fraction of their number.
    pub fn reward_mean_trimmed(&self, frac: Real, trim: Real) -> (a: Average)
        ensures
            a.seen() == self.trimmed(frac, trim),
    {
        let n: usize = self.window.len();
        let k: usize = trim.to_usize();
        if n == 0 || frac.le(Real::zero()) || n < k || n - k <= k {
            return self.reward_mean_windowed();
        }
        let sorted = sort_values(&self.window);
        proof {
            sorted_length(self.window@);
        }
        Average::Over(part_of(&sorted, k, n - k))
    }

    /// The worst recent rewards: so many as `rank` says, but at least one.
    pub open spec fn lower_tail(self, rank: Real) -> AverageView {
        let n = self.window@.len() as int;
        let k = cut_to(rank, usize::MAX as nat) as int;
        if n == 0 {
            AverageView::Of(self.mean_quotient())
        } else {
            AverageView::Over(
                sorted_values(self.window@).take(
                    if k < 1 {
                        1
                    } else if k > n {
                        n
                    } else {
                        k
                    },
                ),
            )
        }
    }

    /// The mean of the worst recent rewards. `rank` is a fraction of their number,
    /// rounded up.
    pub fn reward_cvar(&self, rank: Real) -> (a: Average)
        ensures
            a.seen() == self.lower_tail(rank),
    {
        let n: usize = self.window.len();
        if n == 0 {
            return Average::Of(self.reward_mean());
        }
        let cut: usize = rank.to_usize();
        let k: usize = if cut < 1 {
            1
        } else if cut > n {
            n
        } else {
            cut
        };
        let sorted = sort_values(&self.window);
        proof {
            sorted_length(self.window@);
            assert(sorted@.subrange(0, k as int) =~= sorted@.take(k as int));
        }
        Average::Over(part_of(&sorted, 0, k))
    }

    /// The mean reward over the tries that have not faded.
    pub fn reward_mean_decayed(&self) -> (q: Quotient)
        ensures
            q == (if self.effective_tries.below(Real { bits: R_1EM09 }) {
                self.mean_quotient()
            } else {
                Quotient::Of(self.reward_sum, self.effective_tries)
            }),
    {
        if self.effective_tries.lt(Real { bits: R_1EM09 }) {
            self.reward_mean()
        } else {
            Quotient::Of(self.reward_sum, self.effective_tries)
        }
    }

    /// The mean of an objective; zero while it has not been seen.
    pub fn objective_mean(&self, name: &str) -> (q: Quotient)
        requires
            self.wf(),
        ensures
            q == (if !self.objective_counts@.contains_key(name@) || self.objective_counts@[name@]
                == 0 {
                Quotient::Known(Real { bits: 0 })
            } else {
                Quotient::Of(
                    if self.objective_rewards@.contains_key(name@) {
                        self.objective_rewards@[name@]
                    } else {
                        Real { bits: 0 }
                    },
                    real_of_int(self.objective_counts@[name@] as int),
                )
            }),
    {
        match self.objective_counts.get(name) {
            Some(n) => if *n == 0 {
                Quotient::Known(Real::zero())
            } else {
                let sum = match self.objective_rewards.get(name) {
                    Some(r) => *r,
                    None => Real::zero(),
                };
                Quotient::Of(sum, Real::of_u64(*n))
            },
            None => Quotient::Known(Real::zero()),
        }
    }

    /// Counts a value of an objective. `sum` is its reward so far and the value
    /// together.
    pub fn record_objective(&mut self, name: &str, sum: Real)
        requires
            old(self).wf(),
            old(self).objective_counts@.contains_key(name@) ==> old(self).objective_counts@[name@]
                < u64::MAX,
        ensures
            final(self).wf(),
            final(self).seen() == (StatsView {
                objective_rewards: old(self).objective_rewards@.insert(name@, sum),
                objective_counts: old(self).objective_counts@.insert(
                    name@,
                    (if old(self).objective_counts@.contains_key(name@) {
                        old(self).objective_counts@[name@] + 1
                    } else {
                        1
                    }) as u64,
                ),
                ..old(self).seen()
            }),
    {
        let n: u64 = match self.objective_counts.get(name) {
            Some(n) => *n + 1,
            None => 1,
        };
        self.objective_rewards.insert(String::from_str(name), sum);
        self.objective_counts.insert(String::from_str(name), n);
    }

    /// The statistics as JSON, with rounded numbers for display. With
    /// `faithful`, the effective number of tries is written as it is.
    pub fn to_json(&self, r: &Rounded, faithful: bool) -> (j: Json)
        ensures
            js(j) == stats_js(
                *self,
                *r,
                if faithful {
                    self.effective_tries
                } else {
                    r.effective_tries
                },
                (r.posterior_mean, r.posterior_var),
            ),
    {
        let effective = if faithful {
            self.effective_tries
        } else {
            r.effective_tries
        };
        let mut o = empty_object();
        put(&mut o, "rewardMean", Json::number(r.reward_mean));
        put(&mut o, "rewardMeanWindowed", Json::number(r.reward_mean_windowed));
        put(&mut o, "rewardVariance", Json::number(r.reward_variance));
        put(&mut o, "windowFill", Json::natural(self.window.len() as u64));
        put(&mut o, "changeBoostActive", Json::Bool(self.change_boost_remaining > 0));
        assert(fields(o@) == shown_fields(*self, *r));
        put(&mut o, "tries", Json::natural(self.tries));
        put(&mut o, "successes", Json::natural(self.successes));
        put(&mut o, "failures", Json::natural(self.failures));
        put(&mut o, "lastReward", Json::number(self.last_reward));
        put(&mut o, "lastUpdated", Json::natural(self.last_updated));
        put(&mut o, "effectiveTries", Json::number(effective));
        put(&mut o, "changePoints", Json::natural(self.change_points as u64));
        put(&mut o, "posteriorMean", Json::number(r.posterior_mean));
        put(&mut o, "posteriorVar", Json::number(r.posterior_var));
        put(&mut o, "signalCounts", counts_json(&self.signal_counts));
        put(&mut o, "surpriseRecent", Json::natural(self.surprise_recent as u64));
        put(&mut o, "objectiveRewards", reals_by_name_json(&self.objective_rewards));
        put(&mut o, "objectiveCounts", counts_json(&self.objective_counts));
        put(&mut o, "rewardSum", Json::number(self.reward_sum));
        put(&mut o, "rewardSqSum", Json::number(self.reward_sq_sum));
        put(&mut o, "window", Json::reals(&self.window));
        put(&mut o, "phCumsum", Json::number(self.ph_cumsum));
        put(&mut o, "phMin", Json::number(self.ph_min));
        put(
            &mut o,
            "changeBoostRemaining",
            Json::natural(self.change_boost_remaining as u64),
        );
        Json::Obj(o)
    }

    /// Reads statistics from JSON, with defaults for what it leaves out.
    pub fn from_json(j: &Json) -> (s: Self)
        ensures
            s.seen() == stats_of_js(js(*j)),
            s.wf(),
    {
        let tries: u64 = j.u64_or("tries", 0);
        OptionStats {
            tries,
            successes: j.u64_or("successes", 0),
            failures: j.u64_or("failures", 0),
            reward_sum: j.real_or("rewardSum", Real { bits: 0 }),
            reward_sq_sum: j.real_or("rewardSqSum", Real { bits: 0 }),
            last_reward: j.real_or("lastReward", Real { bits: 0 }),
            last_updated: j.u64_or("lastUpdated", 0),
            effective_tries: j.real_or("effectiveTries", Real::of_u64(tries)),
            window: read_reals_at(j, "window"),
            ph_cumsum: j.real_or("phCumsum", Real { bits: 0 }),
            ph_min: j.real_or("phMin", Real { bits: 0 }),
            change_boost_remaining: to_low_word(j.u64_or("changeBoostRemaining", 0)),
            change_points: to_low_word(j.u64_or("changePoints", 0)),
            posterior_mean: j.real_or("posteriorMean", Real { bits: 0 }),
            posterior_var: j.real_or("posteriorVar", Real { bits: ONE }),
            signal_counts: match j.object_at("signalCounts") {
                Some(o) => read_counts(o),
                None => Table::new(),
            },
            surprise_recent: to_low_word(j.u64_or("surpriseRecent", 0)),
            objective_rewards: match j.object_at("objectiveRewards") {
                Some(o) => read_reals_by_name(o),
                None => Table::new(),
            },
            objective_counts: match j.object_at("objectiveCounts") {
                Some(o) => read_counts(o),
                None => Table::new(),
            },
        }
    }
}

/// Every number that is written is finite.
pub open spec fn stats_valid(s: OptionStats) -> bool {
    &&& s.reward_sum.spec_is_finite()
    &&& s.reward_sq_sum.spec_is_finite()
    &&& s.last_reward.spec_is_finite()
    &&& s.effective_tries.spec_is_finite()
    &&& s.ph_cumsum.spec_is_finite()
    &&& s.ph_min.spec_is_finite()
    &&& forall|i: int| 0 <= i < s.window@.len() ==> (#[trigger] s.window@[i]).spec_is_finite()
    &&& forall|i: int|
        0 <= i < s.objective_rewards.entries@.len() ==> (
        #[trigger] s.objective_rewards.entries@[i]).1.spec_is_finite()
}

/// What the written statistics hold under each key that is read.
proof fn written_stats(s: OptionStats, r: Rounded, effective: Real, posterior: (Real, Real))
    ensures
        ({
            let j = stats_js(s, r, effective, posterior);
            &&& j.get("tries"@) == Some(natural_js(s.tries))
            &&& j.get("successes"@) == Some(natural_js(s.successes))
            &&& j.get("failures"@) == Some(natural_js(s.failures))
            &&& j.get("lastReward"@) == Some(real_js(s.last_reward))
            &&& j.get("lastUpdated"@) == Some(natural_js(s.last_updated))
            &&& j.get("effectiveTries"@) == Some(real_js(effective))
            &&& j.get("changePoints"@) == Some(natural_js(s.change_points as u64))
            &&& j.get("posteriorMean"@) == Some(real_js(posterior.0))
            &&& j.get("posteriorVar"@) == Some(real_js(posterior.1))
            &&& j.get("signalCounts"@) == Some(Js::Obj(count_fields(s.signal_counts.entries@)))
            &&& j.get("surpriseRecent"@) == Some(natural_js(s.surprise_recent as u64))
            &&& j.get("objectiveRewards"@) == Some(
                Js::Obj(real_fields(s.objective_rewards.entries@)),
            )
            &&& j.get("objectiveCounts"@) == Some(
                Js::Obj(count_fields(s.objective_counts.entries@)),
            )
            &&& j.get("rewardSum"@) == Some(real_js(s.reward_sum))
            &&& j.get("rewardSqSum"@) == Some(real_js(s.reward_sq_sum))
            &&& j.get("window"@) == Some(reals_js(s.window@))
            &&& j.get("phCumsum"@) == Some(real_js(s.ph_cumsum))
            &&& j.get("phMin"@) == Some(real_js(s.ph_min))
            &&& j.get("changeBoostRemaining"@) == Some(
                natural_js(s.change_boost_remaining as u64),
            )
        }),
{
    broadcast use field_behind;

    reveal_strlit("tries");
    reveal_strlit("successes");
    reveal_strlit("failures");
    reveal_strlit("lastReward");
    reveal_strlit("lastUpdated");
    reveal_strlit("effectiveTries");
    reveal_strlit("changePoints");
    reveal_strlit("posteriorMean");
    reveal_strlit("posteriorVar");
    reveal_strlit("signalCounts");
    reveal_strlit("surpriseRecent");
    reveal_strlit("objectiveRewards");
    reveal_strlit("objectiveCounts");
    reveal_strlit("rewardSum");
    reveal_strlit("rewardSqSum");
    reveal_strlit("window");
    reveal_strlit("phCumsum");
    reveal_strlit("phMin");
    reveal_strlit("changeBoostRemaining");
    assert("tries"@.len() == 5);
    assert("successes"@.len() == 9);
    assert("failures"@.len() == 8);
    assert("lastReward"@.len() == 10);
    assert("lastUpdated"@.len() == 11);
    assert("effectiveTries"@.len() == 14);
    assert("changePoints"@.len() == 12);
    assert("posteriorMean"@.len() == 13);
    assert("posteriorVar"@.len() == 12);
    assert("signalCounts"@.len() == 12);
    assert("surpriseRecent"@.len() == 14);
    assert("objectiveRewards"@.len() == 16);
    assert("objectiveCounts"@.len() == 15);
    assert("rewardSum"@.len() == 9);
    assert("rewardSqSum"@.len() == 11);
    assert("window"@.len() == 6);
    assert("phCumsum"@.len() == 8);
    assert("phMin"@.len() == 5);
    assert("changeBoostRemaining"@.len() == 20);
    assert("tries"@[0] != "phMin"@[0]);
    assert("successes"@[0] != "rewardSum"@[0]);
    assert("failures"@[0] != "phCumsum"@[0]);
    assert("lastUpdated"@[0] != "rewardSqSum"@[0]);
    assert("effectiveTries"@[0] != "surpriseRecent"@[0]);
    assert("changePoints"@[0] != "posteriorVar"@[0]);
    assert("changePoints"@[0] != "signalCounts"@[0]);
    assert("posteriorVar"@[0] != "signalCounts"@[0]);
}

/// Finite statistics that are written as JSON are read back, with the effective
/// tries and the posterior as they were written.
#[verifier::spinoff_prover]
pub proof fn stats_round_trip(s: OptionStats, r: Rounded, effective: Real, posterior: (Real, Real))
    requires
        stats_valid(s),
        effective.spec_is_finite(),
        posterior.0.spec_is_finite(),
        posterior.1.spec_is_finite(),
    ensures
        stats_of_js(stats_js(s, r, effective, posterior)) == (StatsView {
            effective_tries: effective,
            posterior_mean: posterior.0,
            posterior_var: posterior.1,
            ..s.seen()
        }),
{
    written_stats(s, r, effective, posterior);
    counts_round_trip(s.signal_counts.entries@);
    counts_round_trip(s.objective_counts.entries@);
    reals_by_name_round_trip(s.objective_rewards.entries@);
    reals_round_trip(s.window@);
    let back = stats_of_js(stats_js(s, r, effective, posterior));
    assert(back.window == s.window@);
    assert(back.signal_counts == s.signal_counts@);
    assert(back.change_points == s.change_points);
    assert(back.surprise_recent == s.surprise_recent);
    assert(back.change_boost_remaining == s.change_boost_remaining);
}

} // verus!
