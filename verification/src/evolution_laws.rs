//! How long an evolution goes on, and what it does with what it hears.

use crate::cap_calls::{hex_text, least};
use crate::digest::sha256;
use crate::evolution_loop::{EvolutionConfig, EvolvePaths, LoopView, ReportView, TaskView, TrialView, begun, reports_keep_the_state_whole, trial_passed, worth_placing};
use crate::graph::dec_graph;
use crate::number::Real;
use vstd::prelude::*;

verus! {

/// The machine after what it heard.
pub open spec fn heard(v: LoopView, reports: Seq<ReportView>) -> LoopView
    decreases reports.len(),
{
    if reports.len() == 0 {
        v
    } else {
        heard(v, reports.drop_last()).hear(reports.last()).0
    }
}

/// No report says that the time is up, or that there is nothing to improve.
pub open spec fn goes_well(v: LoopView, reports: Seq<ReportView>) -> bool {
    forall|i: int|
        0 <= i < reports.len() ==> {
            &&& (#[trigger] reports[i]) is Millis ==> reports[i]->Millis_0 <= v.config.budget_ms
            &&& reports[i] is Diagnosed ==> reports[i]->Diagnosed_0 != 0 || v.config.proposal_path
                is Some
        }
}

/// Nothing failed so far.
pub open spec fn nothing_failed(v: LoopView, reports: Seq<ReportView>) -> bool {
    forall|i: int|
        0 <= i < reports.len() ==> !(heard(v, reports.take(i)).hear(
            #[trigger] reports[i],
        ).1.task is Fail)
}

/// A run ends without a failure for one of three reasons: as many proposals were
/// decided on as iterations are configured, the time is up, or there is nothing
/// to improve and no proposal is given.
pub proof fn runs_end_for_a_reason(v: LoopView, r: ReportView)
    requires
        v.wf(),
        !(v.phase is Over),
    ensures
        v.hear(r).1.task is Done ==> {
            ||| v.hear(r).0.result.outcomes.len() == v.config.iterations
            ||| v.phase is Clocking && r is Millis && r->Millis_0 > v.config.budget_ms
            ||| v.phase is Diagnosing && r is Diagnosed && r->Diagnosed_0 == 0
                && v.config.proposal_path is None
        },
        v.hear(r).0.phase is Over <==> v.hear(r).1.task is Done || v.hear(r).1.task is Fail,
        v.phase is Clocking && r is Millis && r->Millis_0 > v.config.budget_ms ==> v.hear(
            r,
        ).1.task is Done,
        v.phase is Diagnosing && r is Diagnosed && r->Diagnosed_0 == 0 && v.config.proposal_path
            is None ==> v.hear(r).1.task is Done,
{
}

/// After a decision on a proposal the run goes on with the clock, unless as many
/// were decided on as iterations are configured.
pub proof fn decisions_lead_to_the_next_iteration(v: LoopView, r: ReportView)
    requires
        v.wf(),
        !(v.phase is Over),
        v.hear(r).0.result.outcomes.len() > v.result.outcomes.len(),
    ensures
        v.hear(r).0.result.outcomes.len() == v.result.outcomes.len() + 1,
        v.hear(r).0.result.outcomes.len() < v.config.iterations ==> v.hear(r).0.phase is Clocking
            && v.hear(r).1.task is Clock,
        v.hear(r).0.result.outcomes.len() == v.config.iterations ==> v.hear(r).1.task is Done,
        v.hear(r).0.result.iterations_run == v.result.iterations_run,
{
}

proof fn runs_stay_whole(v: LoopView, reports: Seq<ReportView>)
    requires
        v.wf(),
        !(v.phase is Over),
        goes_well(v, reports),
        nothing_failed(v, reports),
    ensures
        heard(v, reports).wf(),
        heard(v, reports).config == v.config,
        heard(v, reports).phase is Over ==> {
            &&& heard(v, reports).result.iterations_run == v.config.iterations
            &&& heard(v, reports).result.outcomes.len() == v.config.iterations
            &&& heard(v, reports).result.proposals_received == v.config.iterations
        },
    decreases reports.len(),
{
    if reports.len() > 0 {
        let front = reports.drop_last();
        assert forall|i: int| 0 <= i < front.len() implies {
            &&& (#[trigger] front[i]) is Millis ==> front[i]->Millis_0 <= v.config.budget_ms
            &&& front[i] is Diagnosed ==> front[i]->Diagnosed_0 != 0 || v.config.proposal_path
                is Some
        } by {
            assert(front[i] == reports[i]);
        }
        assert forall|i: int| 0 <= i < front.len() implies !(heard(v, front.take(i)).hear(
            #[trigger] front[i],
        ).1.task is Fail) by {
            assert(front[i] == reports[i]);
            assert(front.take(i) =~= reports.take(i));
        }
        runs_stay_whole(v, front);
        let b = heard(v, front);
        let r = reports[reports.len() - 1];
        assert(reports.take(reports.len() - 1) =~= front);
        reports_keep_the_state_whole(b, r);
        if !(b.phase is Over) {
            runs_end_for_a_reason(b, r);
            if b.hear(r).0.phase is Over {
                assert(b.hear(r).1.task is Done);
                assert(b.hear(r).0.result.outcomes.len() == v.config.iterations);
            }
        }
    }
}

/// A run that is over, in which nothing failed, the time was never up and there
/// was always something to improve, has run every iteration that is configured,
/// with a proposal received and decided on in each.
pub proof fn runs_use_every_iteration(v: LoopView, reports: Seq<ReportView>)
    requires
        v.wf(),
        !(v.phase is Over),
        goes_well(v, reports),
        nothing_failed(v, reports),
        heard(v, reports).phase is Over,
    ensures
        heard(v, reports).result.iterations_run == v.config.iterations,
        heard(v, reports).result.proposals_received == v.config.iterations,
        heard(v, reports).result.proposals_accepted + heard(v, reports).result.proposals_rejected
            == v.config.iterations,
{
    runs_stay_whole(v, reports);
}

/// An iteration goes from the clock to the program, the diagnosis, the proposal
/// and its text, each step with what the one before gave; it counts as begun when
/// the time is not up, and the proposal as received when it is there.
pub proof fn iterations_go_in_order(v: LoopView, ms: u64, data: Seq<u8>, n: int, text: Seq<char>)
    requires
        v.wf(),
    ensures
        v.phase is Clocking && ms <= v.config.budget_ms ==> {
            let (w, t) = v.hear(ReportView::Millis(ms));
            &&& w.phase is Loading
            &&& t.task == TaskView::Load(v.paths.lyc_path@)
            &&& w.result.iterations_run == v.result.iterations_run + 1
        },
        v.phase is Loading && dec_graph(data) is Ok ==> {
            let (w, t) = v.hear(ReportView::Loaded(Ok(data)));
            &&& w.phase is Diagnosing
            &&& t.task == TaskView::Diagnose(dec_graph(data)->Ok_0)
            &&& w.before_hash == hex_text(sha256(data))
        },
        v.phase is Loading && dec_graph(data) is Err ==> v.hear(
            ReportView::Loaded(Ok(data)),
        ).1.task == TaskView::Fail(dec_graph(data)->Err_0),
        v.phase is Diagnosing && (n > 0 || v.config.proposal_path is Some) ==> {
            let (w, t) = v.hear(ReportView::Diagnosed(n));
            &&& w.phase is Proposing
            &&& v.config.proposal_path is Some ==> t.task == TaskView::ReadProposal(
                v.config.proposal_path->Some_0@,
            )
            &&& v.config.proposal_path is None ==> t.task == TaskView::AskAgent(
                v.config.agent_command->Some_0@,
            )
        },
        v.phase is Proposing ==> {
            let (w, t) = v.hear(ReportView::Proposed(Ok(text)));
            &&& w.phase is Parsing
            &&& t.task == TaskView::Parse(text)
            &&& w.result.proposals_received == v.result.proposals_received + 1
        },
{
}

/// A proposal is tried on a copy once it is read, outside a dry run only after a
/// snapshot; one that cannot be read is turned down.
pub proof fn proposals_are_tried(v: LoopView, name: Seq<char>, target: u32, e: Seq<char>)
    requires
        v.wf(),
    ensures
        v.phase is Parsing ==> {
            let (w, t) = v.hear(ReportView::Parsed(Ok((name, target))));
            &&& w.proposal_name == name && w.target == target
            &&& v.config.dry_run ==> t.task is Try && w.phase is Trying
            &&& !v.config.dry_run ==> t.task is Snapshot && w.phase is Snapping
        },
        v.phase is Parsing ==> v.hear(ReportView::Parsed(Err(e))).0.result.proposals_rejected
            == v.result.proposals_rejected + 1,
        v.phase is Snapping ==> v.hear(ReportView::Snapshot(Ok(()))).1.task is Try,
        v.phase is Snapping ==> v.hear(ReportView::Snapshot(Err(e))).1.task == TaskView::Fail(e),
{
}

/// A measured trial decides: what is worth placing is fetched, and everything else
/// is turned down, with the copy removed and the program as it was.
pub proof fn trials_decide(v: LoopView, t: TrialView)
    requires
        v.wf(),
        v.phase is Trying,
    ensures
        worth_placing(v.config.min_improvement, t) ==> {
            let (w, x) = v.hear(ReportView::Measured(t));
            &&& x.task is ReadCandidate && w.phase is Fetching
            &&& w.trial == Some(t)
            &&& w.result == v.result
        },
        !worth_placing(v.config.min_improvement, t) ==> {
            let (w, x) = v.hear(ReportView::Measured(t));
            &&& w.result.proposals_rejected == v.result.proposals_rejected + 1
            &&& w.result.proposals_accepted == v.result.proposals_accepted
            &&& x.remove_copy
            &&& !w.result.outcomes.last().accepted
            &&& w.result.outcomes.last().before_hash == v.before_hash
            &&& w.result.outcomes.last().after_hash is None
            &&& w.result.outcomes.last().target_strategy == v.target
            &&& w.result.outcomes.last().proposal_name == v.proposal_name
            &&& !t.accepted ==> w.result.outcomes.last().reason == t.reason
                && w.result.outcomes.last().before_score == Some(t.before)
                && w.result.outcomes.last().after_score == Some(t.after)
        },
{
}

/// What was fetched is put in place, and accepted where the same then stands there;
/// a dry run only says so. Where something else stands there, the run fails.
pub proof fn winners_are_placed(v: LoopView, data: Seq<u8>)
    requires
        v.wf(),
        trial_passed(v),
    ensures
        v.phase is Fetching && !v.config.dry_run ==> {
            let (w, x) = v.hear(ReportView::Candidate(Ok(data)));
            &&& x.task is Place && w.phase is Placing
            &&& w.after_hash == hex_text(sha256(data))
        },
        v.phase is Fetching && v.config.dry_run ==> {
            let (w, x) = v.hear(ReportView::Candidate(Ok(data)));
            &&& w.result.proposals_accepted == v.result.proposals_accepted + 1
            &&& x.remove_copy
        },
        v.phase is Placing && hex_text(sha256(data)) == v.after_hash ==> {
            let w = v.hear(ReportView::Placed(data)).0;
            let o = w.result.outcomes.last();
            &&& w.result.proposals_accepted == v.result.proposals_accepted + 1
            &&& w.result.proposals_rejected == v.result.proposals_rejected
            &&& o.accepted
            &&& o.before_hash == v.before_hash
            &&& o.after_hash == Some(v.after_hash)
            &&& o.before_score == Some(v.trial->Some_0.before)
            &&& o.after_score == Some(v.trial->Some_0.after)
            &&& o.target_strategy == v.target
            &&& o.proposal_name == v.proposal_name
        },
        v.phase is Placing && hex_text(sha256(data)) != v.after_hash ==> v.hear(
            ReportView::Placed(data),
        ).1.task is Fail,
{
}

/// Each decision is counted once, on the side where it belongs.
pub proof fn decisions_are_counted(v: LoopView, r: ReportView)
    requires
        v.wf(),
    ensures
        ({
            let w = v.hear(r).0.result;
            let old_len = v.result.outcomes.len();
            &&& w.outcomes.len() == old_len || w.outcomes.len() == old_len + 1
            &&& w.outcomes.take(old_len as int) == v.result.outcomes
            &&& w.outcomes.len() == old_len ==> w.proposals_accepted
                == v.result.proposals_accepted && w.proposals_rejected
                == v.result.proposals_rejected
            &&& w.outcomes.len() > old_len && w.outcomes.last().accepted ==> w.proposals_accepted
                == v.result.proposals_accepted + 1 && w.proposals_rejected
                == v.result.proposals_rejected
            &&& w.outcomes.len() > old_len && !w.outcomes.last().accepted
                ==> w.proposals_accepted == v.result.proposals_accepted && w.proposals_rejected
                == v.result.proposals_rejected + 1
        }),
{
    let w = v.hear(r).0.result;
    assert(w.outcomes.take(v.result.outcomes.len() as int) =~= v.result.outcomes);
}

/// A run outside a dry run waits for its lock, fails where it is taken, and gives
/// it back when it is done.
pub proof fn locks_are_held_for_the_run(v: LoopView, r: ReportView)
    requires
        v.wf(),
        !(v.phase is Over),
    ensures
        v.phase is Locking && r == ReportView::Locked(false) ==> v.hear(r).1.task is Fail,
        v.phase is Locking && r == ReportView::Locked(true) && v.result.outcomes.len()
            < v.config.iterations ==> v.hear(r).1.task is Clock,
        v.hear(r).1.task is Done && !v.config.dry_run ==> v.hear(r).1.unlock,
        v.hear(r).1.unlock ==> v.hear(r).1.task is Done,
{
}

/// A run begins with nothing counted: without an agent and a proposal it only
/// tells the brief, a dry run begins with the clock, and every other run with its
/// lock, which lies beside the program.
pub proof fn runs_begin_with_nothing(config: EvolutionConfig, paths: EvolvePaths)
    ensures
        ({
            let (v, t) = begun(config, paths);
            let alone = config.agent_command is None && config.proposal_path is None;
            &&& v.config == config && v.paths == paths
            &&& v.result.iterations_run == 0 && v.result.proposals_received == 0
            &&& v.result.outcomes.len() == 0
            &&& alone ==> t.task is BriefOnly && v.phase is Over
            &&& !alone && !config.dry_run ==> t.task == TaskView::Lock(
                paths.base@ + (if paths.is_capsule {
                    "/.evolve.lock"@
                } else {
                    ".evolve.lock"@
                }),
            ) && v.phase is Locking
            &&& !alone && config.dry_run && config.iterations > 0 ==> t.task is Clock && v.phase
                is Clocking
        }),
{
}

/// A trial passes where the host accepts it, what runs now could be measured, the
/// candidate too, and the gain is no less than the least that is asked for, if any is.
/// Of a trial that does not pass for want of a score, the other score is kept.
pub proof fn trials_pass_by_their_scores(v: LoopView, t: TrialView)
    requires
        v.wf(),
        v.phase is Trying,
    ensures
        ({
            let zero = Real { bits: 0 };
            let least = v.config.min_improvement;
            let based = !t.before.at_most(zero) && !(Real { bits: 0x7FEF_FFFF_FFFF_FFFF }).at_most(
                t.before,
            );
            let (w, x) = v.hear(ReportView::Measured(t));
            &&& x.task is ReadCandidate <==> t.accepted && based && !t.after.at_most(zero) && !(
            zero.below(least) && t.improvement.below(least))
            &&& t.accepted && !based ==> w.result.outcomes.last().before_score is None
                && w.result.outcomes.last().after_score == Some(t.after)
            &&& t.accepted && based && t.after.at_most(zero)
                ==> w.result.outcomes.last().before_score == Some(t.before)
                && w.result.outcomes.last().after_score is None
        }),
{
}

} // verus!
