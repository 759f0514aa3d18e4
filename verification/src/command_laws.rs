//! What the arguments of the program ask for.

use crate::commands::{EvolveView, arg_at, default_evolve, evolve_from, number_in, size_in};
use vstd::prelude::*;

verus! {

/// The flags of an evolution that take the argument behind them.
pub open spec fn takes_value(a: Seq<char>) -> bool {
    a == "--agent-command"@ || a == "--proposal"@ || a == "--policy"@ || a == "--iterations"@ || a
        == "--budget-ms"@ || a == "--min-improvement"@
}

/// Arguments without a flag that lacks its value.
pub open spec fn whole(args: Seq<Seq<char>>, i: int) -> bool
    decreases if i < args.len() { args.len() - i } else { 0 },
{
    if i >= args.len() {
        i == args.len()
    } else {
        whole(
            args,
            i + (if takes_value(args[i]) {
                2int
            } else {
                1
            }),
        )
    }
}

proof fn evolve_goes_on(args: Seq<Seq<char>>, tail: Seq<Seq<char>>, i: int, f: EvolveView)
    requires
        0 <= i <= args.len(),
        whole(args, i),
    ensures
        evolve_from(args + tail, i, f) == evolve_from(
            args + tail,
            args.len() as int,
            evolve_from(args, i, f),
        ),
    decreases args.len() - i,
{
    let all = args + tail;
    if i < args.len() {
        assert(all[i] == args[i]);
        let a = args[i];
        if takes_value(a) {
            assert(i + 1 < args.len()) by {
                if i + 1 >= args.len() {
                    assert(!whole(args, i + 2));
                }
            }
            assert(all[i + 1] == args[i + 1]);
            let v = arg_at(args, i + 1);
            assert(arg_at(all, i + 1) == v);
            if a == "--agent-command"@ {
                evolve_goes_on(args, tail, i + 2, EvolveView { agent_command: v, ..f });
            } else if a == "--proposal"@ {
                evolve_goes_on(args, tail, i + 2, EvolveView { proposal_path: v, ..f });
            } else if a == "--policy"@ {
                evolve_goes_on(args, tail, i + 2, EvolveView { policy_path: v, ..f });
            } else if a == "--no-agent"@ {
                assert(false) by {
                    words_differ();
                }
            } else if a == "--iterations"@ {
                evolve_goes_on(args, tail, i + 2, EvolveView { iterations: size_in(v, 1), ..f });
            } else if a == "--budget-ms"@ {
                evolve_goes_on(args, tail, i + 2, EvolveView { budget_ms: number_in(v, 60000), ..f });
            } else {
                evolve_goes_on(args, tail, i + 2, EvolveView { min_improvement: v, ..f });
            }
        } else if a == "--no-agent"@ {
            evolve_goes_on(args, tail, i + 1, EvolveView { no_agent: true, ..f });
        } else if a == "--dry-run"@ {
            evolve_goes_on(args, tail, i + 1, EvolveView { dry_run: true, ..f });
        } else if a == "--json"@ {
            evolve_goes_on(args, tail, i + 1, EvolveView { json_output: true, ..f });
        } else {
            evolve_goes_on(args, tail, i + 1, f);
        }
    }
}

proof fn words_differ()
    ensures
        "--agent-command"@.len() == 15,
        "--proposal"@.len() == 10,
        "--policy"@.len() == 8,
        "--no-agent"@.len() == 10,
        "--iterations"@.len() == 12,
        "--budget-ms"@.len() == 11,
        "--min-improvement"@.len() == 17,
        "--dry-run"@.len() == 9,
        "--json"@.len() == 6,
        "--proposal"@ != "--no-agent"@,
{
    reveal_strlit("--agent-command");
    reveal_strlit("--proposal");
    reveal_strlit("--policy");
    reveal_strlit("--no-agent");
    reveal_strlit("--iterations");
    reveal_strlit("--budget-ms");
    reveal_strlit("--min-improvement");
    reveal_strlit("--dry-run");
    reveal_strlit("--json");
    assert("--proposal"@[2] == 'p');
    assert("--no-agent"@[2] == 'n');
}

/// A flag behind other arguments sets what it names and nothing else; one that was
/// given before is overruled.
pub proof fn later_flags_overrule(args: Seq<Seq<char>>, v: Seq<char>, f: EvolveView)
    requires
        whole(args, 0),
    ensures
        ({
            let before = evolve_from(args, 0, f);
            &&& evolve_from(args + seq!["--agent-command"@, v], 0, f) == (EvolveView {
                agent_command: Some(v),
                ..before
            })
            &&& evolve_from(args + seq!["--proposal"@, v], 0, f) == (EvolveView {
                proposal_path: Some(v),
                ..before
            })
            &&& evolve_from(args + seq!["--policy"@, v], 0, f) == (EvolveView {
                policy_path: Some(v),
                ..before
            })
            &&& evolve_from(args + seq!["--min-improvement"@, v], 0, f) == (EvolveView {
                min_improvement: Some(v),
                ..before
            })
            &&& evolve_from(args + seq!["--iterations"@, v], 0, f) == (EvolveView {
                iterations: size_in(Some(v), 1),
                ..before
            })
            &&& evolve_from(args + seq!["--budget-ms"@, v], 0, f) == (EvolveView {
                budget_ms: number_in(Some(v), 60000),
                ..before
            })
            &&& evolve_from(args + seq!["--no-agent"@], 0, f) == (EvolveView {
                no_agent: true,
                ..before
            })
            &&& evolve_from(args + seq!["--dry-run"@], 0, f) == (EvolveView {
                dry_run: true,
                ..before
            })
            &&& evolve_from(args + seq!["--json"@], 0, f) == (EvolveView {
                json_output: true,
                ..before
            })
        }),
{
    one_flag_is_read(args, "--agent-command"@, v, f);
    one_flag_is_read(args, "--proposal"@, v, f);
    one_flag_is_read(args, "--policy"@, v, f);
    one_flag_is_read(args, "--min-improvement"@, v, f);
    one_flag_is_read(args, "--iterations"@, v, f);
    one_flag_is_read(args, "--budget-ms"@, v, f);
    one_switch_is_read(args, "--no-agent"@, f);
    one_switch_is_read(args, "--dry-run"@, f);
    one_switch_is_read(args, "--json"@, f);
    words_differ();
}

/// What a flag with a value does on its own.
spec fn flagged(a: Seq<char>, v: Seq<char>, f: EvolveView) -> EvolveView {
    if a == "--agent-command"@ {
        EvolveView { agent_command: Some(v), ..f }
    } else if a == "--proposal"@ {
        EvolveView { proposal_path: Some(v), ..f }
    } else if a == "--policy"@ {
        EvolveView { policy_path: Some(v), ..f }
    } else if a == "--iterations"@ {
        EvolveView { iterations: size_in(Some(v), 1), ..f }
    } else if a == "--budget-ms"@ {
        EvolveView { budget_ms: number_in(Some(v), 60000), ..f }
    } else {
        EvolveView { min_improvement: Some(v), ..f }
    }
}

proof fn one_flag_is_read(args: Seq<Seq<char>>, a: Seq<char>, v: Seq<char>, f: EvolveView)
    requires
        whole(args, 0),
        takes_value(a),
    ensures
        evolve_from(args + seq![a, v], 0, f) == flagged(a, v, evolve_from(args, 0, f)),
{
    words_differ();
    evolve_goes_on(args, seq![a, v], 0, f);
    let all = args + seq![a, v];
    let n = args.len() as int;
    assert(all[n] == a && all[n + 1] == v);
    assert(arg_at(all, n + 1) == Some(v));
    let g = evolve_from(args, 0, f);
    assert(evolve_from(all, n + 2, flagged(a, v, g)) == flagged(a, v, g));
}

proof fn one_switch_is_read(args: Seq<Seq<char>>, a: Seq<char>, f: EvolveView)
    requires
        whole(args, 0),
        a == "--no-agent"@ || a == "--dry-run"@ || a == "--json"@,
    ensures
        ({
            let g = evolve_from(args, 0, f);
            evolve_from(args + seq![a], 0, f) == (EvolveView {
                no_agent: g.no_agent || a == "--no-agent"@,
                dry_run: g.dry_run || a == "--dry-run"@,
                json_output: g.json_output || a == "--json"@,
                ..g
            })
        }),
{
    words_differ();
    evolve_goes_on(args, seq![a], 0, f);
    let all = args + seq![a];
    let n = args.len() as int;
    assert(all[n] == a);
    let g = evolve_from(args, 0, f);
    let h = EvolveView {
        no_agent: g.no_agent || a == "--no-agent"@,
        dry_run: g.dry_run || a == "--dry-run"@,
        json_output: g.json_output || a == "--json"@,
        ..g
    };
    assert(evolve_from(all, n + 1, h) == h);
    if a == "--no-agent"@ {
        assert(h == (EvolveView { no_agent: true, ..g }));
    } else if a == "--dry-run"@ {
        assert(h == (EvolveView { dry_run: true, ..g }));
    } else {
        assert(h == (EvolveView { json_output: true, ..g }));
    }
}

/// An evolution runs once and for a minute unless it is told otherwise, and a number
/// that cannot be read counts as that.
pub proof fn evolutions_run_once_by_default(v: Seq<char>)
    ensures
        default_evolve().iterations == 1,
        default_evolve().budget_ms == 60000,
        !default_evolve().dry_run && !default_evolve().no_agent,
        crate::parse::natural(v) is None ==> size_in(Some(v), 1) == 1 && number_in(Some(v), 60000)
            == 60000,
        crate::parse::natural(v) is Some && crate::parse::natural(v)->Some_0 <= u32::MAX
            && crate::parse::natural(v)->Some_0 >= 0 ==> size_in(Some(v), 1)
            == crate::parse::natural(v)->Some_0 && number_in(Some(v), 60000)
            == crate::parse::natural(v)->Some_0,
{
}

} // verus!
