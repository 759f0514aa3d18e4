use lycan::commands::{
    command, deny_all, evolve_args, feedback_args, serve_args, serve_check, Command, RewardArg,
};
use lycan::ephemeris::{
    covers, order_rows, parse_horizons_vector_result, pick_state, read_ephemeris, state_rows,
    settle_readings, Pick, Reading,
};
use lycan::evolution_loop::{
    journal_event, note_value, run_evolution, timestamp_str, BaseFacts, Evolution,
    EvolutionConfig, EvolvePaths, Note, Placed, Report, Task, Trial, Tried, Turn,
};
use lycan::evolution_report::{result_json, result_lines};
use lycan::graph::NeuralGraph;
use lycan::json_text::parse_json_text;
use lycan::number::Real;

fn num(x: f64) -> Real {
    Real { bits: x.to_bits() }
}

fn value(r: Real) -> f64 {
    f64::from_bits(r.bits)
}

fn config(dry_run: bool) -> EvolutionConfig {
    EvolutionConfig {
        iterations: 1,
        budget_ms: 1000,
        min_improvement: num(0.05),
        dry_run,
        agent_command: None,
        proposal_path: Some("p.json".to_string()),
        json_output: false,
        policy: None,
    }
}

fn paths() -> EvolvePaths {
    let facts = BaseFacts { is_dir: false, has_program: false, exists: true };
    EvolvePaths::from_path("prog.lyc", facts).unwrap()
}

fn trial(before: f64, after: f64) -> Trial {
    let improvement = (before - after) / before;
    Trial {
        accepted: true,
        reason: "fine".to_string(),
        before: num(before),
        after: num(after),
        improvement: num(improvement),
        before_text: format!("{before:.3}"),
        after_text: format!("{after:.3}"),
        percent_text: format!("{:.1}", improvement * 100.0),
        threshold_text: "5.0".to_string(),
        improvement_text: format!("{improvement:.3}"),
    }
}

/// Runs the loop, with a trial that measures these times.
fn evolve(dry_run: bool, before: f64, after: f64) -> (Evolution, Vec<String>, Vec<String>, bool) {
    let old = NeuralGraph::new().to_bytes();
    let mut new_graph = NeuralGraph::new();
    new_graph.intern_string("new");
    let new = new_graph.to_bytes();
    let (mut e, mut turn): (Evolution, Turn) = run_evolution(config(dry_run), paths());
    let (mut events, mut says, mut placed) = (Vec::new(), Vec::new(), false);
    for _ in 0..50 {
        events.extend(turn.notes.iter().map(|n| n.event.to_string()));
        says.extend(turn.says.clone());
        let report = match turn.task {
            Task::Done => return (e, events, says, placed),
            Task::Fail(m) => panic!("failed: {m}"),
            Task::Lock(p) => {
                assert_eq!(p, "prog.lyc.evolve.lock");
                Report::Locked(true)
            }
            Task::Clock => Report::Millis(5),
            Task::Load(_) => Report::Loaded(Ok(old.clone())),
            Task::Diagnose(_) => Report::Diagnosed(0),
            Task::ReadProposal(p) => {
                assert_eq!(p, "p.json");
                Report::Proposed(Ok("text".to_string()))
            }
            Task::Parse(_) => Report::Parsed(Ok(("faster".to_string(), 3))),
            Task::Snapshot => Report::Snapshot(Ok(())),
            Task::Try => Report::Tried(Tried::Measured(trial(before, after))),
            Task::ReadCandidate => Report::Candidate(Ok(new.clone())),
            Task::Place => {
                placed = true;
                Report::Placed(Placed::Bytes(new.clone()))
            }
            other => panic!("unexpected {other:?}"),
        };
        turn = e.hear(report);
    }
    panic!("the loop did not end");
}

#[test]
fn winners_are_put_in_place() {
    let (e, events, says, placed) = evolve(false, 2.0, 1.0);
    assert!(placed);
    assert_eq!(e.result.proposals_accepted, 1);
    assert_eq!(e.result.proposals_rejected, 0);
    assert_eq!(e.result.outcomes[0].proposal_name, "faster");
    assert_eq!(e.result.outcomes[0].target_strategy, 3);
    assert!(e.result.outcomes[0].accepted);
    assert_eq!(
        events,
        vec![
            "EvolutionStarted",
            "BriefGenerated",
            "ProposalReceived",
            "ProposalAccepted",
            "EvolutionCompleted"
        ]
    );
    assert!(says.iter().any(|s| s.starts_with("iteration 1: accepted")), "{says:?}");
}

#[test]
fn dry_runs_place_nothing() {
    let (e, events, says, placed) = evolve(true, 2.0, 1.0);
    assert!(!placed);
    assert!(events.is_empty());
    assert_eq!(e.result.proposals_accepted, 1);
    assert!(says.iter().any(|s| s.contains("WOULD_ACCEPT")), "{says:?}");
}

#[test]
fn small_gains_are_rejected() {
    let (e, events, _, placed) = evolve(false, 2.0, 1.99);
    assert!(!placed);
    assert_eq!(e.result.proposals_rejected, 1);
    assert!(e.result.outcomes[0].reason.contains("below threshold"));
    assert!(events.contains(&"ProposalRejected".to_string()));
    let (e, _, _, _) = evolve(false, 0.0, 1.0);
    assert!(e.result.outcomes[0].reason.starts_with("no_baseline"));
    let (e, _, _, _) = evolve(false, 1.0, 0.0);
    assert!(e.result.outcomes[0].reason.starts_with("no_candidate_score"));
}

#[test]
fn a_wrong_report_changes_nothing() {
    let (mut e, turn) = run_evolution(config(false), paths());
    assert!(matches!(turn.task, Task::Lock(_)));
    let waiting = e.hear(Report::Millis(1));
    assert!(matches!(waiting.task, Task::Wait));
    assert!(matches!(e.hear(Report::Locked(true)).task, Task::Clock));
}

#[test]
fn locked_programs_are_left_alone() {
    let (mut e, _) = run_evolution(config(false), paths());
    match e.hear(Report::Locked(false)).task {
        Task::Fail(m) => assert!(m.starts_with("evolution lock exists: prog.lyc.evolve.lock")),
        other => panic!("unexpected {other:?}"),
    }
}

#[test]
fn capsules_keep_their_files_inside() {
    let facts = BaseFacts { is_dir: true, has_program: true, exists: true };
    let p = EvolvePaths::from_path("cap/", facts).unwrap();
    assert_eq!(p.lyc_path, "cap/program.lyc");
    assert_eq!(p.lock_path(), "cap/.evolve.lock");
    assert_eq!(p.journal_path(), "cap/evolution.jsonl");
    assert_eq!(p.snapshots_dir(), "cap/snapshots");
    let bare = BaseFacts { is_dir: true, has_program: false, exists: true };
    assert!(EvolvePaths::from_path("cap", bare).unwrap_err().contains("has no program.lyc"));
    let gone = BaseFacts { is_dir: false, has_program: false, exists: false };
    assert_eq!(
        EvolvePaths::from_path("x", gone).unwrap_err(),
        "path does not exist: x"
    );
    assert_eq!(paths().journal_path(), "prog.lyc.evolution.jsonl");
}

#[test]
fn journal_lines_hold_numbers_and_texts() {
    assert_eq!(timestamp_str(0), "19700101_000000");
    assert_eq!(timestamp_str(86400 * 31 + 3661), "19700202_010101");
    let note = Note {
        event: "E",
        fields: vec![
            ("n".to_string(), "12".to_string()),
            ("x".to_string(), "0.5".to_string()),
            ("b".to_string(), "true".to_string()),
            ("s".to_string(), "text".to_string()),
        ],
    };
    let reals = note.fields.iter().map(|f| f.1.parse::<f64>().ok().map(num)).collect();
    let j = journal_event(&note, 0, &reals);
    assert_eq!(j.str_at("event"), Some("E"));
    assert_eq!(j.str_at("timestamp"), Some("19700101_000000"));
    assert_eq!(j.get("n").and_then(|v| v.as_u64()), Some(12));
    assert_eq!(j.real_at("x").map(value), Some(0.5));
    assert_eq!(j.get("b").and_then(|v| v.as_bool()), Some(true));
    assert_eq!(j.str_at("s"), Some("text"));
    assert_eq!(note_value("-3", Some(num(-3.0))).as_i64(), Some(-3));
}

fn numbers(readings: &Vec<Reading>, with_cause: bool) -> Result<Vec<Real>, String> {
    let parsed: Vec<Result<Real, String>> = readings
        .iter()
        .map(|r| match r {
            Reading::Number { token, .. } => {
                token.parse::<f64>().map(num).map_err(|e| e.to_string())
            }
            Reading::Fault(_) => Ok(num(0.0)),
        })
        .collect();
    settle_readings(readings, &parsed, with_cause)
}

#[test]
fn ephemerides_are_read_and_looked_up() {
    let table = "# a table\nBODY mars\nEPOCH ignored\n2 1 1 1 0 0 0\n0 0 0 0 0 0 0\n";
    let read = read_ephemeris(table, "t.txt");
    assert_eq!(read.body, Some("mars".to_string()));
    let flat = numbers(&read.readings, false).unwrap();
    let rows = order_rows("t.txt", &read.body, "mars", state_rows(&flat)).unwrap();
    assert_eq!(value(rows[0].0), 0.0);
    assert_eq!(value(rows[1].0), 2.0);
    assert!(covers(&rows, num(1.0)));
    assert!(!covers(&rows, num(2.5)));
    assert!(!covers(&rows, num(-0.5)));
    assert!(matches!(pick_state(&rows, &vec![num(-1.0), num(1.0)], num(1.0)), Pick::Between(0)));
    assert!(matches!(pick_state(&rows, &vec![num(-2.0), num(-0.0)], num(2.0)), Pick::Row(1)));
    assert_eq!(
        order_rows("t.txt", &read.body, "venus", state_rows(&flat)).unwrap_err(),
        "ephemeris body mismatch: file has mars, requested venus"
    );
    assert_eq!(
        order_rows("t.txt", &None, "mars", vec![]).unwrap_err(),
        "ephemeris 't.txt' contains no state rows"
    );
}

#[test]
fn faults_of_an_ephemeris_are_told() {
    let wrong = |t: &str| numbers(&read_ephemeris(t, "t.txt").readings, false).unwrap_err();
    assert_eq!(wrong("1 2 3"), "invalid ephemeris row 1 in 't.txt'");
    assert_eq!(wrong("\nBODY"), "invalid ephemeris BODY line 2 in 't.txt'");
    assert_eq!(wrong("1 2 3 4 5 6 7x"), "invalid ephemeris number '7x' on line 1");
    assert_eq!(wrong("1 2 3 4 5 6 inf"), "non-finite ephemeris number on line 1");
}

#[test]
fn horizons_vectors_are_read() {
    let answer = "head\n$$SOE\n2459000.5 = A.D. 2020\n X = 1.0E+00 Y =-2.5E-01 Z = 3\n \
                  VX= 4 VY= 5 VZ= 6\n$$EOE\n9 = after\n";
    let found = numbers(&parse_horizons_vector_result(answer, "n"), true).unwrap();
    let found: Vec<f64> = found.into_iter().map(value).collect();
    assert_eq!(found, vec![2459000.5, 1.0, -0.25, 3.0, 4.0, 5.0, 6.0]);
    let wrong = |t: &str| numbers(&parse_horizons_vector_result(t, "n"), true).unwrap_err();
    assert_eq!(wrong("no table"), "n Horizons result contained no vector rows");
    assert_eq!(wrong("$$SOE\n1 = x"), "n Horizons vector missing position line");
    assert_eq!(wrong("$$SOE\n1 = x\nX = 1"), "n Horizons vector missing velocity line");
    assert_eq!(wrong("$$SOE\n1 = x\nX = 1\nVX= 1"), "n Horizons row missing Y =");
}

fn args(line: &str) -> Vec<String> {
    line.split_whitespace().map(|s| s.to_string()).collect()
}

#[test]
fn command_lines_are_understood() {
    let c = |line: &str| command(&args(line));
    assert_eq!(c("lycan"), Command::Repl);
    assert_eq!(c("lycan -h"), Command::Usage);
    assert_eq!(c("lycan capabilities"), Command::Capabilities);
    assert_eq!(c("lycan a.lyc"), Command::Run);
    assert_eq!(c("lycan stats a.lyc"), Command::Stats);
    assert_eq!(c("lycan bogus a.lyc"), Command::Unknown);
    assert_eq!(c("lycan serve --dev-mode"), Command::Serve);
    assert_eq!(c("lycan evolve p --no-agent"), Command::Evolve);
    assert_eq!(c("lycan feedback a.lyc 1 --option 0"), Command::Feedback);
    assert_eq!(c("lycan transfer-weights a b"), Command::TransferWeights);
    assert_eq!(c("lycan capsule run d"), Command::CapsuleRun);
    assert_eq!(c("lycan decide a.lyc --input i.json"), Command::DecideWithInput);
    assert_eq!(c("lycan capsule create a b c"), Command::CapsuleCreate);
}

#[test]
fn evolve_flags_exclude_each_other() {
    assert_eq!(
        evolve_args(&args("p")).unwrap_err(),
        "evolve requires exactly one of: --agent-command, --proposal, --no-agent"
    );
    assert_eq!(
        evolve_args(&args("p --no-agent --proposal x")).unwrap_err(),
        "evolve modes are mutually exclusive: --agent-command, --proposal, --no-agent"
    );
    let f = evolve_args(&args("p --proposal x --iterations 4 --budget-ms zz --dry-run")).unwrap();
    assert_eq!(f.proposal_path, Some("x".to_string()));
    assert_eq!(f.iterations, 4);
    assert_eq!(f.budget_ms, 60000);
    assert!(f.dry_run);
    assert!(!f.json_output);
}

#[test]
fn feedback_flags_are_read() {
    let f = feedback_args(&args("a.lyc 3 --option 2 --reward 0.5"));
    assert_eq!(f.option, Some(2));
    assert!(matches!(&f.reward, RewardArg::Text(s) if s == "0.5"));
    let s = feedback_args(&args("a.lyc 3 --option x --success false"));
    assert_eq!(s.option, Some(0));
    assert!(matches!(s.reward, RewardArg::Known(r) if value(r) == -1.0));
    assert_eq!(feedback_args(&args("a.lyc 3 --reward 1")).option, None);
}

#[test]
fn servers_need_a_key_or_development() {
    let flags = |line: &str, key: Option<&str>| serve_args(&args(line), key.map(|s| s.to_string()));
    assert_eq!(serve_check(&flags("", None)), (false, false, false));
    assert_eq!(serve_check(&flags("--dev-mode", None)), (true, true, false));
    assert_eq!(serve_check(&flags("--dev-mode --addr 0.0.0.0:1", None)), (true, true, true));
    assert_eq!(serve_check(&flags("", Some("k"))), (true, false, false));
    let f = flags("--admin-key z --store s", Some("k"));
    assert_eq!(f.admin_key, Some("z".to_string()));
    assert_eq!(f.store_path, "s");
    assert_eq!(f.addr, "127.0.0.1:8787");
    assert!(!deny_all().allow_stdout);
}

#[test]
fn results_are_told() {
    let (mut e, _, _, _) = evolve(false, 2.0, 1.0);
    e.result.outcomes[0].reason = "a \"good\" one".to_string();
    e.result.outcomes[0].before_hash = "ab".to_string();
    assert_eq!(
        result_json(&e.result),
        "{\n  \"iterations\": 1,\n  \"proposals_received\": 1,\n  \"proposals_accepted\": 1,\n  \
         \"proposals_rejected\": 0,\n  \"outcomes\": [\n    {\"accepted\":true,\"reason\":\
         \"a \\\"good\\\" one\",\"proposal\":\"faster\",\"target\":3,\"before_hash\":\"ab\"}\n  ]\n}"
    );
    assert!(parse_json_text(&result_json(&e.result)).is_ok());
    assert_eq!(
        result_lines(&e.result),
        vec![
            "evolution complete: 1 iteration(s), 1 accepted, 0 rejected".to_string(),
            "  [ACCEPTED] faster \u{2014} a \"good\" one".to_string(),
        ]
    );
}
