//! What became of a run of the evolution loop, as text.
use crate::evolution_loop::{EvolutionOutcome, EvolutionResult, OutcomeView, ResultView};
use crate::inspect::{escape_quotes, quote_escaped};
use crate::strings::{cat4, join, joined, lines, words};
use crate::text::{dec, dec_nat, push_u64};
use crate::values::texts;
use vstd::prelude::*;
use vstd::string::StringExecFns;

verus! {

/// One outcome as a line of JSON.
pub open spec fn outcome_line(o: OutcomeView) -> Seq<char> {
    "    {\"accepted\":"@ + (if o.accepted {
        "true"@
    } else {
        "false"@
    }) + ",\"reason\":\""@ + quote_escaped(o.reason) + "\",\"proposal\":\""@ + quote_escaped(
        o.proposal_name,
    ) + "\",\"target\":"@ + dec_nat(o.target_strategy as nat) + ",\"before_hash\":\""@
        + o.before_hash + "\"}"@
}

fn write_outcome(o: &EvolutionOutcome) -> (s: String)
    ensures
        s@ == outcome_line(o.seen()),
{
    let mut s = String::from_str("    {\"accepted\":");
    s.append(
        if o.accepted {
            "true"
        } else {
            "false"
        },
    );
    s.append(",\"reason\":\"");
    s.append(escape_quotes(o.reason.as_str()).as_str());
    s.append("\",\"proposal\":\"");
    s.append(escape_quotes(o.proposal_name.as_str()).as_str());
    s.append("\",\"target\":");
    push_u64(&mut s, o.target_strategy as u64);
    s.append(",\"before_hash\":\"");
    s.append(o.before_hash.as_str());
    s.append("\"}");
    s
}

/// The result as JSON, an outcome on each line.
pub open spec fn result_text(r: ResultView) -> Seq<char> {
    "{\n  \"iterations\": "@ + dec(r.iterations_run) + ",\n  \"proposals_received\": "@ + dec(
        r.proposals_received,
    ) + ",\n  \"proposals_accepted\": "@ + dec(r.proposals_accepted)
        + ",\n  \"proposals_rejected\": "@ + dec(r.proposals_rejected) + ",\n  \"outcomes\": [\n"@
        + joined(r.outcomes.map_values(|o: OutcomeView| outcome_line(o)), ",\n"@) + "\n  ]\n}"@
}

/// The result as JSON.
pub fn result_json(r: &EvolutionResult) -> (s: String)
    ensures
        s@ == result_text(r.seen()),
{
    let mut lines: Vec<String> = Vec::new();
    let mut i: usize = 0;
    while i < r.outcomes.len()
        invariant
            i <= r.outcomes@.len(),
            lines@.len() == i,
            forall|k: int|
                0 <= k < i ==> (#[trigger] lines@[k])@ == outcome_line(r.outcomes@[k].seen()),
        decreases r.outcomes@.len() - i,
    {
        lines.push(write_outcome(&r.outcomes[i]));
        i = i + 1;
    }
    assert(texts(lines@) =~= r.seen().outcomes.map_values(|o: OutcomeView| outcome_line(o)));
    let mut s = String::from_str("{\n  \"iterations\": ");
    push_u64(&mut s, r.iterations_run as u64);
    s.append(",\n  \"proposals_received\": ");
    push_u64(&mut s, r.proposals_received as u64);
    s.append(",\n  \"proposals_accepted\": ");
    push_u64(&mut s, r.proposals_accepted as u64);
    s.append(",\n  \"proposals_rejected\": ");
    push_u64(&mut s, r.proposals_rejected as u64);
    s.append(",\n  \"outcomes\": [\n");
    s.append(join(&lines, ",\n").as_str());
    s.append("\n  ]\n}");
    s
}

/// One outcome as a line for people.
pub open spec fn outcome_words(o: OutcomeView) -> Seq<char> {
    (if o.accepted {
        "  [ACCEPTED] "@
    } else {
        "  [REJECTED] "@
    }) + o.proposal_name + " — "@ + o.reason
}

/// The result in lines for people: a summary, and a line for each outcome.
pub open spec fn result_words(r: ResultView) -> Seq<Seq<char>> {
    seq![
        "evolution complete: "@ + dec(r.iterations_run) + " iteration(s), "@ + dec(
            r.proposals_accepted,
        ) + " accepted, "@ + dec(r.proposals_rejected) + " rejected"@,
    ] + r.outcomes.map_values(|o: OutcomeView| outcome_words(o))
}

/// The result in lines for people.
pub fn result_lines(r: &EvolutionResult) -> (v: Vec<String>)
    ensures
        texts(v@) == result_words(r.seen()),
{
    let mut head = String::from_str("evolution complete: ");
    push_u64(&mut head, r.iterations_run as u64);
    head.append(" iteration(s), ");
    push_u64(&mut head, r.proposals_accepted as u64);
    head.append(" accepted, ");
    push_u64(&mut head, r.proposals_rejected as u64);
    head.append(" rejected");
    let ghost words = result_words(r.seen());
    let mut v: Vec<String> = Vec::new();
    v.push(head);
    let mut i: usize = 0;
    while i < r.outcomes.len()
        invariant
            i <= r.outcomes@.len(),
            words == result_words(r.seen()),
            v@.len() == i + 1,
            forall|k: int| 0 <= k < i + 1 ==> (#[trigger] v@[k])@ == words[k],
        decreases r.outcomes@.len() - i,
    {
        let o = &r.outcomes[i];
        assert(words[i + 1] == outcome_words(o.seen()));
        v.push(
            cat4(
                if o.accepted {
                    "  [ACCEPTED] "
                } else {
                    "  [REJECTED] "
                },
                o.proposal_name.as_str(),
                " — ",
                o.reason.as_str(),
            ),
        );
        i = i + 1;
    }
    assert(texts(v@) =~= words);
    v
}

} // verus!
