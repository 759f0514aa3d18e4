//! What the candidates of a portfolio are, and whose memories are whose.

use crate::capsule_memory::{candidate_key, forgotten, fresh_detector, key_candidate, without_candidates};
use crate::learning_memory::{BucketView, StateView, fresh_bucket};
use crate::meta_bandit::{BanditView, CandidateId, MetaBandit, names_are_found};
use crate::number::Real;
use crate::parse::{first_place, occurs_at};
use vstd::prelude::*;

verus! {

/// The candidates stand for algorithms: two of them sample beliefs that start even,
/// two go by bounds, two choose at random now and then, of which one never does, and
/// one goes by weights.
pub proof fn candidates_stand_for_algorithms(c: CandidateId)
    ensures
        c.algorithm() is Thompson <==> c == CandidateId::Thompson || c == CandidateId::LinTs,
        c.algorithm() is UCB <==> c == CandidateId::Ucb || c == CandidateId::LinUcb,
        c.algorithm() is Weighted <==> c == CandidateId::Weighted,
        c.algorithm() is EpsilonGreedy <==> c == CandidateId::EpsilonGreedy || c
            == CandidateId::Greedy,
        c.algorithm() is Thompson ==> c.algorithm()->alpha.bits == 0x3FF0_0000_0000_0000
            && c.algorithm()->beta == c.algorithm()->alpha,
        CandidateId::Ucb.algorithm()->c.bits == 0x4000_0000_0000_0000,
        CandidateId::LinUcb.algorithm()->c.bits == 0x3FF0_0000_0000_0000,
        CandidateId::Weighted.algorithm()->learning_rate.bits == 0x3FB9_9999_9999_999A,
        CandidateId::EpsilonGreedy.algorithm()->epsilon.bits == 0x3FB9_9999_9999_999A,
        CandidateId::Greedy.algorithm()->epsilon.bits == 0,
{
}

/// A fresh portfolio has seen nothing: each candidate is there in its place, without
/// trials, rewards or rounds.
pub proof fn fresh_portfolios_have_seen_nothing(ids: Seq<CandidateId>, i: int)
    requires
        0 <= i < ids.len(),
    ensures
        ({
            let m = MetaBandit::fresh(ids);
            &&& m.total_rounds == 0
            &&& m.candidates.len() == ids.len()
            &&& m.candidates[i].id == ids[i]
            &&& m.candidates[i].trials.bits == 0
            &&& m.candidates[i].cumulative_reward.bits == 0
            &&& m.exploration_decay.bits == 0x4014_0000_0000_0000
            &&& m.min_exploration.bits == 0x3FA9_9999_9999_999A
            &&& m.forgetting_factor.bits == 0x3FEF_F7CE_D916_872B
        }),
{
}

/// A portfolio that forgets its rounds keeps its candidates and its settings.
pub proof fn portfolios_forget_rounds_alone(m: BanditView, i: int)
    requires
        0 <= i < m.candidates.len(),
    ensures
        ({
            let f = forgotten(m);
            &&& f.total_rounds == 0
            &&& f.candidates.len() == m.candidates.len()
            &&& f.candidates[i].id == m.candidates[i].id
            &&& f.candidates[i].trials.bits == 0 && f.candidates[i].cumulative_reward.bits == 0
            &&& f.exploration_decay == m.exploration_decay
            &&& f.min_exploration == m.min_exploration
            &&& f.forgetting_factor == m.forgetting_factor
        }),
{
}

proof fn words_have_no_bar(c: CandidateId)
    ensures
        !c.word().contains('|'),
        c.word().len() > 0,
{
    reveal_strlit("Thompson");
    reveal_strlit("Ucb");
    reveal_strlit("Weighted");
    reveal_strlit("EpsilonGreedy");
    reveal_strlit("Greedy");
    reveal_strlit("LinUcb");
    reveal_strlit("LinTs");
}

proof fn bar_is_found(a: Seq<char>, b: Seq<char>, from: int)
    requires
        0 <= from <= a.len(),
        !a.contains('|'),
    ensures
        first_place(a + "|"@ + b, "|"@, from) == a.len(),
    decreases a.len() - from,
{
    reveal_strlit("|");
    let s = a + "|"@ + b;
    if from < a.len() {
        assert(s[from] == a[from]);
        if occurs_at(s, "|"@, from) {
            assert(s.subrange(from, from + 1)[0] == s[from]);
        }
        bar_is_found(a, b, from + 1);
    } else {
        assert(s.subrange(from, from + 1) =~= "|"@);
    }
}

/// The key of a memory tells its candidate and its context; no two memories share
/// one.
pub proof fn keys_tell_candidate_and_context(
    c: CandidateId,
    d: CandidateId,
    context: Seq<char>,
    other: Seq<char>,
)
    ensures
        key_candidate(candidate_key(c, context)) == Some(c),
        candidate_key(c, context) == candidate_key(d, other) ==> c == d && context == other,
{
    reveal_strlit("|");
    words_have_no_bar(c);
    words_have_no_bar(d);
    names_are_found(c);
    names_are_found(d);
    bar_is_found(c.word(), context, 0);
    bar_is_found(d.word(), other, 0);
    let a = candidate_key(c, context);
    let b = candidate_key(d, other);
    assert(a.take(c.word().len() as int) =~= c.word());
    assert(b.take(d.word().len() as int) =~= d.word());
    if a == b {
        assert(context =~= a.skip(c.word().len() as int + 1));
        assert(other =~= b.skip(d.word().len() as int + 1));
    }
}

/// Dropping the memories of a context drops those of every candidate for it, and
/// leaves those of other contexts as they are.
pub proof fn contexts_are_dropped_for_all_candidates(
    m: Map<Seq<char>, BucketView>,
    context: Seq<char>,
    other: Seq<char>,
    c: CandidateId,
)
    ensures
        !without_candidates(m, context).contains_key(candidate_key(c, context)),
        other != context ==> (without_candidates(m, context).contains_key(candidate_key(c, other))
            <==> m.contains_key(candidate_key(c, other))),
        other != context && m.contains_key(candidate_key(c, other)) ==> without_candidates(
            m,
            context,
        )[candidate_key(c, other)] == m[candidate_key(c, other)],
{
    keys_tell_candidate_and_context(c, CandidateId::Thompson, other, context);
    keys_tell_candidate_and_context(c, CandidateId::Ucb, other, context);
    keys_tell_candidate_and_context(c, CandidateId::Weighted, other, context);
    keys_tell_candidate_and_context(c, CandidateId::EpsilonGreedy, other, context);
    keys_tell_candidate_and_context(c, CandidateId::Greedy, other, context);
    keys_tell_candidate_and_context(c, CandidateId::LinUcb, other, context);
    keys_tell_candidate_and_context(c, CandidateId::LinTs, other, context);
}

/// Fresh memories have seen nothing, and have room for 500 residuals, of which 30 are
/// needed; a fresh detector has room for 1000 observations, and parts of five.
pub proof fn fresh_memories_are_empty(w: Seq<Real>, n: nat, s: Seq<StateView>, delta: Real, i: int)
    requires
        0 <= i < n,
    ensures
        ({
            let b = fresh_bucket(w, n, s);
            &&& b.weights == w && b.option_states == s
            &&& b.stats.len() == n && b.stats[i].tries == 0 && b.stats[i].reward_sum.bits == 0
            &&& b.stats[i].window.len() == 0
            &&& b.residuals.len() == 0 && b.max_size == 500 && b.min_samples == 30
        }),
        ({
            let d = fresh_detector(delta);
            &&& d.window.len() == 0 && d.delta == delta
            &&& d.max_size == 1000 && d.min_subwindow == 5
        }),
{
}

} // verus!
