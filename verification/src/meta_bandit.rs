//! Choosing among algorithms by how well each has done.
use crate::feature_schema::lesser;
use crate::number::{ONE, Real, cut_to};
use crate::real_constants::{R_0_05, R_0_1, R_0_999, R_1EM09, R_2_0, R_5_0};
use crate::text::same;
use vstd::prelude::*;
use vstd::string::StringExecFns;

verus! {

/// An algorithm of the portfolio.
#[derive(Clone, Copy, Debug, PartialEq, Eq, Structural)]
pub enum CandidateId {
    Thompson,
    Ucb,
    Weighted,
    EpsilonGreedy,
    Greedy,
    LinUcb,
    LinTs,
}

/// An algorithm with its parameters.
#[derive(Clone, Copy, Debug, PartialEq, Eq, Structural)]
pub enum PickedAlgorithm {
    Thompson { alpha: Real, beta: Real },
    UCB { c: Real },
    Weighted { learning_rate: Real },
    EpsilonGreedy { epsilon: Real },
}

impl CandidateId {
    /// The whole portfolio.
    pub fn all() -> (a: [CandidateId; 7])
        ensures
            a@ == seq![
                CandidateId::Thompson,
                CandidateId::Ucb,
                CandidateId::Weighted,
                CandidateId::EpsilonGreedy,
                CandidateId::Greedy,
                CandidateId::LinUcb,
                CandidateId::LinTs,
            ],
    {
        [
            CandidateId::Thompson,
            CandidateId::Ucb,
            CandidateId::Weighted,
            CandidateId::EpsilonGreedy,
            CandidateId::Greedy,
            CandidateId::LinUcb,
            CandidateId::LinTs,
        ]
    }

    /// The portfolio of contexts without features.
    pub fn discrete_only() -> (a: [CandidateId; 5])
        ensures
            a@ == seq![
                CandidateId::Thompson,
                CandidateId::Ucb,
                CandidateId::Weighted,
                CandidateId::EpsilonGreedy,
                CandidateId::Greedy,
            ],
    {
        [
            CandidateId::Thompson,
            CandidateId::Ucb,
            CandidateId::Weighted,
            CandidateId::EpsilonGreedy,
            CandidateId::Greedy,
        ]
    }

    pub open spec fn algorithm(self) -> PickedAlgorithm {
        match self {
            CandidateId::Thompson => PickedAlgorithm::Thompson { alpha: Real { bits: ONE }, beta: Real { bits: ONE } },
            CandidateId::Ucb => PickedAlgorithm::UCB { c: Real { bits: R_2_0 } },
            CandidateId::Weighted => PickedAlgorithm::Weighted { learning_rate: Real { bits: R_0_1 } },
            CandidateId::EpsilonGreedy => PickedAlgorithm::EpsilonGreedy { epsilon: Real { bits: R_0_1 } },
            CandidateId::Greedy => PickedAlgorithm::EpsilonGreedy { epsilon: Real { bits: 0 } },
            CandidateId::LinUcb => PickedAlgorithm::UCB { c: Real { bits: ONE } },
            CandidateId::LinTs => PickedAlgorithm::Thompson { alpha: Real { bits: ONE }, beta: Real { bits: ONE } },
        }
    }

    /// The algorithm with its parameters.
    pub fn to_algorithm(&self) -> (a: PickedAlgorithm)
        ensures
            a == self.algorithm(),
    {
        match self {
            CandidateId::Thompson => PickedAlgorithm::Thompson { alpha: Real { bits: ONE }, beta: Real { bits: ONE } },
            CandidateId::Ucb => PickedAlgorithm::UCB { c: Real { bits: R_2_0 } },
            CandidateId::Weighted => PickedAlgorithm::Weighted { learning_rate: Real { bits: R_0_1 } },
            CandidateId::EpsilonGreedy => PickedAlgorithm::EpsilonGreedy { epsilon: Real { bits: R_0_1 } },
            CandidateId::Greedy => PickedAlgorithm::EpsilonGreedy { epsilon: Real { bits: 0 } },
            CandidateId::LinUcb => PickedAlgorithm::UCB { c: Real { bits: ONE } },
            CandidateId::LinTs => PickedAlgorithm::Thompson { alpha: Real { bits: ONE }, beta: Real { bits: ONE } },
        }
    }

    pub open spec fn word(self) -> Seq<char> {
        match self {
            CandidateId::Thompson => "Thompson"@,
            CandidateId::Ucb => "Ucb"@,
            CandidateId::Weighted => "Weighted"@,
            CandidateId::EpsilonGreedy => "EpsilonGreedy"@,
            CandidateId::Greedy => "Greedy"@,
            CandidateId::LinUcb => "LinUcb"@,
            CandidateId::LinTs => "LinTs"@,
        }
    }

    /// The candidate that a word names.
    pub open spec fn of_word(s: Seq<char>) -> Option<CandidateId> {
        if s == "Thompson"@ {
            Some(CandidateId::Thompson)
        } else if s == "Ucb"@ {
            Some(CandidateId::Ucb)
        } else if s == "Weighted"@ {
            Some(CandidateId::Weighted)
        } else if s == "EpsilonGreedy"@ {
            Some(CandidateId::EpsilonGreedy)
        } else if s == "Greedy"@ {
            Some(CandidateId::Greedy)
        } else if s == "LinUcb"@ {
            Some(CandidateId::LinUcb)
        } else if s == "LinTs"@ {
            Some(CandidateId::LinTs)
        } else {
            None
        }
    }

    /// The candidate's name.
    pub fn as_str(&self) -> (s: &'static str)
        ensures
            s@ == self.word(),
    {
        match self {
            CandidateId::Thompson => "Thompson",
            CandidateId::Ucb => "Ucb",
            CandidateId::Weighted => "Weighted",
            CandidateId::EpsilonGreedy => "EpsilonGreedy",
            CandidateId::Greedy => "Greedy",
            CandidateId::LinUcb => "LinUcb",
            CandidateId::LinTs => "LinTs",
        }
    }

    /// The candidate with this name.
    pub fn from_str(s: &str) -> (r: Option<CandidateId>)
        ensures
            r == CandidateId::of_word(s@),
    {
        if same(s, "Thompson") {
            Some(CandidateId::Thompson)
        } else if same(s, "Ucb") {
            Some(CandidateId::Ucb)
        } else if same(s, "Weighted") {
            Some(CandidateId::Weighted)
        } else if same(s, "EpsilonGreedy") {
            Some(CandidateId::EpsilonGreedy)
        } else if same(s, "Greedy") {
            Some(CandidateId::Greedy)
        } else if same(s, "LinUcb") {
            Some(CandidateId::LinUcb)
        } else if same(s, "LinTs") {
            Some(CandidateId::LinTs)
        } else {
            None
        }
    }
}

/// A candidate is found again by its name.
pub proof fn names_are_found(c: CandidateId)
    ensures
        CandidateId::of_word(c.word()) == Some(c),
{
    reveal_strlit("Thompson");
    reveal_strlit("Ucb");
    reveal_strlit("Weighted");
    reveal_strlit("EpsilonGreedy");
    reveal_strlit("Greedy");
    reveal_strlit("LinUcb");
    reveal_strlit("LinTs");
    assert("Thompson"@.len() == 8);
    assert("Ucb"@.len() == 3);
    assert("Weighted"@.len() == 8);
    assert("EpsilonGreedy"@.len() == 13);
    assert("Greedy"@.len() == 6);
    assert("LinUcb"@.len() == 6);
    assert("LinTs"@.len() == 5);
    assert("Thompson"@[0] != "Weighted"@[0]);
    assert("Greedy"@[0] != "LinUcb"@[0]);
}

/// How often a candidate was tried and what it brought, fading with time.
#[derive(Clone, Copy, Debug, PartialEq, Eq, Structural)]
pub struct CandidateRecord {
    pub id: CandidateId,
    pub trials: Real,
    pub cumulative_reward: Real,
}

/// A number that is known, or a quotient that the host is to compute.
#[derive(Clone, Copy, Debug, PartialEq, Eq, Structural)]
pub enum Quotient {
    Known(Real),
    Of(Real, Real),
}

impl CandidateRecord {
    pub open spec fn fresh(id: CandidateId) -> CandidateRecord {
        CandidateRecord { id, trials: Real { bits: 0 }, cumulative_reward: Real { bits: 0 } }
    }

    pub fn new(id: CandidateId) -> (r: Self)
        ensures
            r == CandidateRecord::fresh(id),
    {
        CandidateRecord { id, trials: Real { bits: 0 }, cumulative_reward: Real { bits: 0 } }
    }

    /// The mean reward; zero while there are no trials.
    pub fn mean_reward(&self) -> (q: Quotient)
        ensures
            q == (if self.trials.below(Real { bits: R_1EM09 }) {
                Quotient::Known(Real { bits: 0 })
            } else {
                Quotient::Of(self.cumulative_reward, self.trials)
            }),
    {
        if self.trials.lt(Real { bits: R_1EM09 }) {
            Quotient::Known(Real { bits: 0 })
        } else {
            Quotient::Of(self.cumulative_reward, self.trials)
        }
    }
}

/// The portfolio with its records.
#[derive(Debug)]
pub struct MetaBandit {
    pub candidates: Vec<CandidateRecord>,
    pub total_rounds: u64,
    pub exploration_decay: Real,
    pub min_exploration: Real,
    pub forgetting_factor: Real,
}

/// A portfolio with its records as a sequence.
pub struct BanditView {
    pub candidates: Seq<CandidateRecord>,
    pub total_rounds: u64,
    pub exploration_decay: Real,
    pub min_exploration: Real,
    pub forgetting_factor: Real,
}

/// `b` leads over or equals `a`: a higher mean, or as high a one with no more
/// trials.
pub open spec fn leads(a: (Real, Real), b: (Real, Real)) -> bool {
    if a.0.below(b.0) {
        true
    } else if b.0.below(a.0) {
        false
    } else {
        !a.1.below(b.1)
    }
}

/// The place of the leader; the last of equals.
pub open spec fn leader(means: Seq<Real>, c: Seq<CandidateRecord>, n: int) -> int
    decreases n,
{
    if n <= 1 {
        0
    } else {
        let best = leader(means, c, n - 1);
        if leads((means[best], c[best].trials), (means[n - 1], c[n - 1].trials)) {
            n - 1
        } else {
            best
        }
    }
}

proof fn leader_in_range(means: Seq<Real>, c: Seq<CandidateRecord>, n: int)
    ensures
        n >= 1 ==> 0 <= leader(means, c, n) < n,
    decreases n,
{
    if n > 1 {
        leader_in_range(means, c, n - 1);
    }
}

/// The place of the candidate with the highest mean among those that were tried;
/// the last of equals, nothing where none was.
pub open spec fn tried_leader(means: Seq<Real>, c: Seq<CandidateRecord>, n: int) -> Option<int>
    decreases n,
{
    if n <= 0 {
        None
    } else {
        let before = tried_leader(means, c, n - 1);
        if !(Real { bits: 0 }).below(c[n - 1].trials) {
            before
        } else {
            match before {
                None => Some(n - 1),
                Some(best) => if means[n - 1].below(means[best]) {
                    Some(best)
                } else {
                    Some(n - 1)
                },
            }
        }
    }
}

/// The first record of a candidate.
pub open spec fn record_of(c: Seq<CandidateRecord>, id: CandidateId, i: int) -> int
    decreases c.len() - i,
{
    if i >= c.len() || c[i].id == id {
        i
    } else {
        record_of(c, id, i + 1)
    }
}

/// The records after fading.
pub open spec fn faded(c: Seq<CandidateRecord>, values: Seq<(Real, Real)>) -> Seq<CandidateRecord> {
    Seq::new(
        c.len(),
        |i: int|
            CandidateRecord { id: c[i].id, trials: values[i].0, cumulative_reward: values[i].1 },
    )
}

impl MetaBandit {
    pub open spec fn seen(self) -> BanditView {
        BanditView {
            candidates: self.candidates@,
            total_rounds: self.total_rounds,
            exploration_decay: self.exploration_decay,
            min_exploration: self.min_exploration,
            forgetting_factor: self.forgetting_factor,
        }
    }

    /// A fresh portfolio.
    pub open spec fn fresh(ids: Seq<CandidateId>) -> BanditView {
        BanditView {
            candidates: ids.map_values(|id: CandidateId| CandidateRecord::fresh(id)),
            total_rounds: 0,
            exploration_decay: Real { bits: R_5_0 },
            min_exploration: Real { bits: R_0_05 },
            forgetting_factor: Real { bits: R_0_999 },
        }
    }

    /// The portfolio of contexts without features.
    pub fn new() -> (m: Self)
        ensures
            m.seen() == MetaBandit::fresh(
                seq![
                    CandidateId::Thompson,
                    CandidateId::Ucb,
                    CandidateId::Weighted,
                    CandidateId::EpsilonGreedy,
                    CandidateId::Greedy,
                ],
            ),
    {
        let mut ids: Vec<CandidateId> = Vec::new();
        ids.push(CandidateId::Thompson);
        ids.push(CandidateId::Ucb);
        ids.push(CandidateId::Weighted);
        ids.push(CandidateId::EpsilonGreedy);
        ids.push(CandidateId::Greedy);
        assert(ids@ =~= seq![
            CandidateId::Thompson,
            CandidateId::Ucb,
            CandidateId::Weighted,
            CandidateId::EpsilonGreedy,
            CandidateId::Greedy,
        ]);
        MetaBandit::new_with_candidates(&ids)
    }

    pub fn new_with_candidates(candidates: &Vec<CandidateId>) -> (m: Self)
        ensures
            m.seen() == MetaBandit::fresh(candidates@),
    {
        let mut c: Vec<CandidateRecord> = Vec::new();
        let mut i: usize = 0;
        while i < candidates.len()
            invariant
                i <= candidates.len(),
                c@.len() == i,
                forall|k: int| 0 <= k < i ==> c@[k] == CandidateRecord::fresh(candidates@[k]),
            decreases candidates.len() - i,
        {
            c.push(CandidateRecord::new(candidates[i]));
            i = i + 1;
        }
        assert(c@ =~= candidates@.map_values(|id: CandidateId| CandidateRecord::fresh(id)));
        MetaBandit {
            candidates: c,
            total_rounds: 0,
            exploration_decay: Real { bits: R_5_0 },
            min_exploration: Real { bits: R_0_05 },
            forgetting_factor: Real { bits: R_0_999 },
        }
    }

    /// The probability of a random choice, given
    /// `sqrt(candidates * decay / rounds)`: no less than the floor and no more
    /// than one, and one at first.
    pub fn exploration_probability(&self, raw: Real) -> (p: Real)
        ensures
            p == (if self.total_rounds == 0 {
                Real { bits: ONE }
            } else {
                lesser(raw.spec_max(self.min_exploration), Real { bits: ONE })
            }),
    {
        if self.total_rounds == 0 {
            return Real { bits: ONE };
        }
        let p = raw.max(self.min_exploration);
        let one = Real { bits: ONE };
        if p.is_nan() || one.lt(p) {
            one
        } else {
            p
        }
    }

    /// What is chosen: a random candidate where the roll is below the probability
    /// of exploring, else the leader, or Thompson where there is none.
    pub open spec fn choice(
        self,
        roll: Real,
        p_explore: Real,
        pick: Real,
        means: Seq<Real>,
    ) -> (CandidateId, bool) {
        let n = self.candidates@.len();
        if roll.below(p_explore) {
            let i = cut_to(pick, usize::MAX as nat);
            (
                self.candidates@[if i < n {
                    i as int
                } else {
                    n - 1
                }].id,
                true,
            )
        } else if n == 0 {
            (CandidateId::Thompson, false)
        } else {
            (self.candidates@[leader(means, self.candidates@, n as int)].id, false)
        }
    }

    /// Chooses a candidate, and says whether the choice explores. `pick` is a
    /// roll times the number of candidates; `means` are their mean rewards.
    pub fn select(&self, roll: Real, p_explore: Real, pick: Real, means: &Vec<Real>) -> (r: (
        CandidateId,
        bool,
    ))
        requires
            self.candidates@.len() > 0 || !roll.below(p_explore),
            means@.len() == self.candidates@.len(),
        ensures
            r == self.choice(roll, p_explore, pick, means@),
    {
        let n: usize = self.candidates.len();
        if roll.lt(p_explore) {
            let i: usize = pick.to_usize();
            let at: usize = if i < n {
                i
            } else {
                n - 1
            };
            return (self.candidates[at].id, true);
        }
        if n == 0 {
            return (CandidateId::Thompson, false);
        }
        let mut best: usize = 0;
        let mut i: usize = 1;
        while i < n
            invariant
                1 <= i <= n,
                n == self.candidates@.len(),
                n == means@.len(),
                best == leader(means@, self.candidates@, i as int),
                best < i,
            decreases n - i,
        {
            let a = means[best];
            let b = means[i];
            let ahead = if a.lt(b) {
                true
            } else if b.lt(a) {
                false
            } else {
                !self.candidates[best].trials.lt(self.candidates[i].trials)
            };
            if ahead {
                best = i;
            }
            i = i + 1;
        }
        (self.candidates[best].id, false)
    }

    /// The record that a candidate's reward goes to.
    pub fn position(&self, id: CandidateId) -> (r: Option<usize>)
        ensures
            ({
                let at = record_of(self.candidates@, id, 0);
                match r {
                    Some(i) => i == at && i < self.candidates@.len() && self.candidates@[at].id
                        == id,
                    None => at >= self.candidates@.len(),
                }
            }),
    {
        let mut i: usize = 0;
        while i < self.candidates.len()
            invariant
                i <= self.candidates.len(),
                record_of(self.candidates@, id, 0) == record_of(self.candidates@, id, i as int),
            decreases self.candidates.len() - i,
        {
            if self.candidates[i].id == id {
                return Some(i);
            }
            i = i + 1;
        }
        None
    }

    /// Whether records fade before a reward is added.
    pub fn forgets(&self) -> (b: bool)
        ensures
            b == self.forgetting_factor.below(Real { bits: ONE }),
    {
        self.forgetting_factor.lt(Real { bits: ONE })
    }

    /// Records a round. `values` are all candidates' trials and rewards after
    /// fading; `credit` is the chosen candidate's after one more trial.
    pub fn record(&mut self, chosen: CandidateId, values: &Vec<(Real, Real)>, credit: (Real, Real))
        requires
            values@.len() == old(self).candidates@.len(),
            old(self).total_rounds < u64::MAX,
        ensures
            final(self).total_rounds == old(self).total_rounds + 1,
            final(self).exploration_decay == old(self).exploration_decay,
            final(self).min_exploration == old(self).min_exploration,
            final(self).forgetting_factor == old(self).forgetting_factor,
            ({
                let before = if old(self).forgetting_factor.below(Real { bits: ONE }) {
                    faded(old(self).candidates@, values@)
                } else {
                    old(self).candidates@
                };
                let at = record_of(old(self).candidates@, chosen, 0);
                final(self).candidates@ == (if at < before.len() {
                    before.update(
                        at,
                        CandidateRecord { id: chosen, trials: credit.0, cumulative_reward: credit.1 },
                    )
                } else {
                    before
                })
            }),
    {
        let place = self.position(chosen);
        let ghost start = self.candidates@;
        if self.forgets() {
            let mut i: usize = 0;
            while i < self.candidates.len()
                invariant
                    i <= self.candidates@.len(),
                    self.candidates@.len() == start.len(),
                    values@.len() == start.len(),
                    forall|k: int| 0 <= k < i ==> self.candidates@[k] == faded(start, values@)[k],
                    forall|k: int| i <= k < start.len() ==> self.candidates@[k] == start[k],
                    self.total_rounds == old(self).total_rounds,
                    self.exploration_decay == old(self).exploration_decay,
                    self.min_exploration == old(self).min_exploration,
                    self.forgetting_factor == old(self).forgetting_factor,
                decreases self.candidates@.len() - i,
            {
                let id = self.candidates[i].id;
                self.candidates.set(
                    i,
                    CandidateRecord { id, trials: values[i].0, cumulative_reward: values[i].1 },
                );
                i = i + 1;
            }
            assert(self.candidates@ =~= faded(start, values@));
        }
        if let Some(at) = place {
            self.candidates.set(
                at,
                CandidateRecord { id: chosen, trials: credit.0, cumulative_reward: credit.1 },
            );
        }
        self.total_rounds = self.total_rounds + 1;
    }

    /// Forgets all rounds.
    pub fn reset(&mut self)
        ensures
            final(self).candidates@ == old(self).candidates@.map_values(
                |c: CandidateRecord| CandidateRecord::fresh(c.id),
            ),
            final(self).total_rounds == 0,
            final(self).exploration_decay == old(self).exploration_decay,
            final(self).min_exploration == old(self).min_exploration,
            final(self).forgetting_factor == old(self).forgetting_factor,
    {
        let mut c: Vec<CandidateRecord> = Vec::new();
        let mut i: usize = 0;
        while i < self.candidates.len()
            invariant
                i <= self.candidates.len(),
                c@.len() == i,
                forall|k: int|
                    0 <= k < i ==> c@[k] == CandidateRecord::fresh(self.candidates@[k].id),
            decreases self.candidates.len() - i,
        {
            c.push(CandidateRecord::new(self.candidates[i].id));
            i = i + 1;
        }
        assert(c@ =~= self.candidates@.map_values(
            |c: CandidateRecord| CandidateRecord::fresh(c.id),
        ));
        self.candidates = c;
        self.total_rounds = 0;
    }

    /// The candidate with the highest mean among those that were tried.
    pub fn current_leader(&self, means: &Vec<Real>) -> (r: Option<CandidateId>)
        requires
            means@.len() == self.candidates@.len(),
        ensures
            r == (match tried_leader(
                means@,
                self.candidates@,
                self.candidates@.len() as int,
            ) {
                Some(i) => Some(self.candidates@[i].id),
                None => None,
            }),
    {
        let mut best: Option<usize> = None;
        let mut i: usize = 0;
        while i < self.candidates.len()
            invariant
                i <= self.candidates@.len(),
                means@.len() == self.candidates@.len(),
                match best {
                    Some(b) => b < i && tried_leader(means@, self.candidates@, i as int) == Some(
                        b as int,
                    ),
                    None => tried_leader(means@, self.candidates@, i as int) is None,
                },
            decreases self.candidates.len() - i,
        {
            if Real::zero().lt(self.candidates[i].trials) {
                match best {
                    None => {
                        best = Some(i);
                    },
                    Some(b) => {
                        if !means[i].lt(means[b]) {
                            best = Some(i);
                        }
                    },
                }
            }
            i = i + 1;
        }
        match best {
            Some(b) => Some(self.candidates[b].id),
            None => None,
        }
    }
}

/// Every choice is a candidate of the portfolio.
pub proof fn choices_come_from_the_portfolio(
    m: MetaBandit,
    roll: Real,
    p_explore: Real,
    pick: Real,
    means: Seq<Real>,
)
    requires
        m.candidates@.len() > 0,
    ensures
        exists|i: int|
            0 <= i < m.candidates@.len() && (#[trigger] m.candidates@[i]).id == m.choice(
                roll,
                p_explore,
                pick,
                means,
            ).0,
{
    leader_in_range(means, m.candidates@, m.candidates@.len() as int);
    let n = m.candidates@.len();
    let i = cut_to(pick, usize::MAX as nat);
    if roll.below(p_explore) {
        let at = if i < n {
            i as int
        } else {
            n - 1
        };
        assert(m.candidates@[at].id == m.choice(roll, p_explore, pick, means).0);
    } else {
        let at = leader(means, m.candidates@, n as int);
        assert(m.candidates@[at].id == m.choice(roll, p_explore, pick, means).0);
    }
}

} // verus!
