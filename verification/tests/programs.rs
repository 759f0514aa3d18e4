use lycan::ast::{Node, OpKind, Param, PipeKind, Program, Type};
use lycan::binary::{decode, decode_node, encode, encode_node, is_complete, Fault};
use lycan::cap_calls::{execute, Step};
use lycan::cap_value::CapValue;
use lycan::context::{ExecutionContext, ExecutionPolicy, SelectionMode};
use lycan::graph::{
    decode_node as decode_graph_node, encode_node as encode_graph_node, op_byte, opcode_from_byte,
};
use lycan::graph::{Contract, ImmValue, NeuralGraph, OpCode, Operand, WeightKind};
use lycan::graph_compiler::GraphCompiler;
use lycan::graph_executor::{Action, Event, GraphExecutor, Numeric, Query};
use lycan::inspect::{count_live, inspect_json};
use lycan::json_text::parse_json_text;
use lycan::message::Piece;
use lycan::number::Real;
use lycan::ops::FloatOp;
use lycan::program_edits::{
    check_feedback, decisions_report, dump_text, find_count_place, find_teacher, give_feedback,
    teach, RewardNumbers,
};
use lycan::reports::{capabilities_used_by_graph, learn_report, op_name, strategy_nodes};
use lycan::run_model::OptionStats;
use lycan::source_text::node_to_source;
use lycan::stats_report::{align_left, align_right, count_nodes, hottest, say_branches};
use lycan::values::GVal;

fn num(x: f64) -> Real {
    Real { bits: x.to_bits() }
}

fn value(r: Real) -> f64 {
    f64::from_bits(r.bits)
}

fn text(pieces: &[Piece]) -> String {
    let mut s = String::new();
    for p in pieces {
        match p {
            Piece::Text(t) => s.push_str(t),
            Piece::Number(r) => s.push_str(&value(*r).to_string()),
            Piece::Fixed(r, digits) => {
                s.push_str(&format!("{:.1$}", value(*r), *digits as usize));
            }
            Piece::Ratio(a, b, c, digits) => {
                let x = value(*a) / value(*b) * value(*c);
                s.push_str(&format!("{:.1$}", x, *digits as usize));
            }
        }
    }
    s
}

fn whole(n: i64) -> Node {
    Node::Int(n)
}

fn id(s: &str) -> Node {
    Node::Ident(s.to_string())
}

fn op(op: OpKind, args: Vec<Node>) -> Node {
    Node::Op { op, args }
}

fn bind(name: &str, v: Node) -> Node {
    Node::Bind { name: name.to_string(), mutable: true, ty: None, value: Box::new(v) }
}

fn assign(name: &str, v: Node) -> Node {
    Node::Assign { name: name.to_string(), value: Box::new(v) }
}

fn builtin(name: &str, args: Vec<Node>) -> Node {
    Node::Builtin { name: name.to_string(), args }
}

fn function(name: &str, params: &[&str], body: Vec<Node>) -> Node {
    Node::Fn {
        name: Some(name.to_string()),
        params: params.iter().map(|p| Param { name: p.to_string(), ty: None }).collect(),
        ret: None,
        body,
        stateful: false,
    }
}

fn compile(nodes: Vec<Node>) -> NeuralGraph {
    GraphCompiler::new().compile(&Program { nodes })
}

fn compute(op: FloatOp, a: f64, b: f64) -> f64 {
    match op {
        FloatOp::Add => a + b,
        FloatOp::Sub => a - b,
        FloatOp::Mul => a * b,
        FloatOp::Div => a / b,
        FloatOp::Rem => a % b,
        FloatOp::Floor => a.floor(),
        FloatOp::Sin => a.sin(),
        FloatOp::Cos => a.cos(),
        FloatOp::Round => a.round(),
        FloatOp::Sqrt => a.sqrt(),
        FloatOp::Ln => a.ln(),
        FloatOp::Exp => a.exp(),
        FloatOp::Atan2 => a.atan2(b),
    }
}

fn answer(q: Query, ctx: Option<&ExecutionContext>) -> Event {
    match q {
        Query::Compute(op, a, b) => Event::Number(num(compute(op, value(a), value(b)))),
        Query::Texts(v) => Event::Texts(v.iter().map(|r| value(*r).to_string()).collect()),
        Query::ParseReal(s) => Event::Parsed(s.parse::<f64>().ok().map(num)),
        Query::Print(_) => Event::Go,
        Query::ReadLine => Event::Line(Ok("a line \n".to_string())),
        Query::Now => Event::Time(0),
        Query::Draw(w) => {
            let sum: f64 = w.iter().map(|r| value(*r)).sum();
            let mut running: Vec<Real> = Vec::new();
            let mut c = 0.0;
            for r in &w {
                c += value(*r);
                running.push(num(c));
            }
            Event::Drawn { sum: num(sum), running, roll: num(0.0) }
        }
        Query::Roll(_) => Event::Rolled { roll: num(0.99), pick: num(0.0) },
        Query::Odds(tries, roll) => Event::Odds {
            roll: num(roll as f64 / 100.0),
            chance: num(0.3 / (1.0 + tries as f64 / 5.0)),
        },
        Query::Numbers(v) => Event::Numbers(
            v.iter()
                .map(|n| match n {
                    Numeric::Number(x) => *x,
                    Numeric::Parts(p) => {
                        num(p.iter().filter_map(|t| t.parse::<f64>().ok()).sum::<f64>())
                    }
                })
                .collect(),
        ),
        Query::Distances(v, m) => {
            Event::Numbers(v.iter().map(|x| num((value(*x) - value(m)).abs())).collect())
        }
        Query::Averages(stats) => Event::Numbers(
            stats.iter().map(|s| num(s.total_ns as f64 / s.tries as f64)).collect(),
        ),
        Query::Moves { weights, times, fastest, range } => Event::Moved {
            raised: weights
                .iter()
                .zip(&times)
                .map(|(w, t)| {
                    let score = 1.0 - 2.0 * (value(*t) - value(fastest)) / value(range);
                    num(value(*w) + score * 0.08)
                })
                .collect(),
            lowered: weights.iter().map(|w| num(value(*w) - 0.2)).collect(),
        },
        Query::Reward(w, reward) => {
            let d = value(reward) * 0.05;
            let others = w.len() as f64 - 1.0;
            Event::Moved {
                raised: w.iter().map(|x| num(value(*x) + d)).collect(),
                lowered: w.iter().map(|x| num(value(*x) - d / others)).collect(),
            }
        }
        Query::Shares(w) => {
            let sum: f64 = w.iter().map(|r| value(*r)).sum();
            Event::Shares {
                sum: num(sum),
                shares: w.iter().map(|x| num(value(*x) / sum)).collect(),
            }
        }
        Query::Capability(name, args) => {
            Event::Capability(match execute(&name, &args, ctx) {
                Ok(Step::Done(v)) => Ok(v),
                Ok(other) => Err(format!("unexpected {other:?}")),
                Err(e) => Err(e),
            })
        }
    }
}

struct Done {
    result: Result<GVal, String>,
    lines: Vec<String>,
    graph: NeuralGraph,
}

/// Runs a graph; `own` answers first, and the plain answers stand for the rest.
fn run_with(
    graph: NeuralGraph,
    ctx: Option<&ExecutionContext>,
    own: &mut dyn FnMut(&Query) -> Option<Event>,
) -> Done {
    let mut machine = match ctx {
        Some(c) => GraphExecutor::new_with_context(graph, c),
        None => GraphExecutor::new(graph),
    };
    machine.start();
    let mut action = machine.action();
    let result = loop {
        let event = match action {
            Action::Continue => Event::Go,
            Action::Ask(q) => match own(&q) {
                Some(e) => e,
                None => answer(q, ctx),
            },
            Action::Finished(Ok(v)) => break Ok(v),
            Action::Finished(Err(e)) => break Err(e.message()),
            Action::Panic => break Err("stopped".to_string()),
        };
        action = machine.step(event);
    };
    let lines = machine.stdout_buffer.clone();
    Done { result, lines, graph: machine.into_graph() }
}

fn run(graph: NeuralGraph, ctx: Option<&ExecutionContext>) -> Done {
    run_with(graph, ctx, &mut |_| None)
}

/// Readings of a clock on which each option takes as long as told.
fn clock_of(spans: &'static [u128]) -> impl FnMut(&Query) -> Option<Event> {
    let mut at: usize = 0;
    let mut now: u128 = 0;
    move |q| match q {
        Query::Now => {
            if at % 2 == 1 {
                now += spans[at / 2];
            }
            at += 1;
            Some(Event::Time(now))
        }
        _ => None,
    }
}

fn result(nodes: Vec<Node>) -> Result<GVal, String> {
    run(compile(nodes), None).result
}

#[test]
fn loops_and_assignments_run() {
    let r = result(vec![
        bind("total", whole(0)),
        bind("i", whole(1)),
        Node::While {
            cond: Box::new(op(OpKind::Lte, vec![id("i"), whole(10)])),
            body: vec![
                assign("total", op(OpKind::Add, vec![id("total"), id("i")])),
                assign("i", op(OpKind::Add, vec![id("i"), whole(1)])),
            ],
        },
        id("total"),
    ]);
    assert!(matches!(r, Ok(GVal::Int(55))), "{r:?}");
}

#[test]
fn functions_recurse() {
    let fib = function(
        "fib",
        &["n"],
        vec![Node::If {
            cond: Box::new(op(OpKind::Lt, vec![id("n"), whole(2)])),
            then_branch: Box::new(id("n")),
            else_branch: Some(Box::new(op(
                OpKind::Add,
                vec![
                    Node::Call {
                        callee: Box::new(id("fib")),
                        args: vec![op(OpKind::Sub, vec![id("n"), whole(1)])],
                    },
                    Node::Call {
                        callee: Box::new(id("fib")),
                        args: vec![op(OpKind::Sub, vec![id("n"), whole(2)])],
                    },
                ],
            ))),
        }],
    );
    let r = result(vec![
        fib,
        Node::Call { callee: Box::new(id("fib")), args: vec![whole(12)] },
    ]);
    assert!(matches!(r, Ok(GVal::Int(144))), "{r:?}");
}

#[test]
fn lists_are_filtered_mapped_and_reduced() {
    let even = function(
        "even",
        &["x"],
        vec![op(OpKind::Eq, vec![op(OpKind::Mod, vec![id("x"), whole(2)]), whole(0)])],
    );
    let square = function("square", &["x"], vec![op(OpKind::Mul, vec![id("x"), id("x")])]);
    let add = function("add", &["a", "b"], vec![op(OpKind::Add, vec![id("a"), id("b")])]);
    let pipe = |kind: PipeKind, data: Node, f: &str, init: Option<Node>| Node::Pipe {
        kind,
        data: Box::new(data),
        func: Box::new(id(f)),
        init: init.map(Box::new),
    };
    let range = Node::Range { start: Box::new(whole(1)), end: Box::new(whole(6)) };
    let evens = pipe(PipeKind::Filter, range, "even", None);
    let squares = pipe(PipeKind::MapEach, evens, "square", None);
    let r = result(vec![
        even,
        square,
        add,
        pipe(PipeKind::Reduce, squares, "add", Some(whole(0))),
    ]);
    assert!(matches!(r, Ok(GVal::Int(20))), "{r:?}");
}

#[test]
fn texts_are_printed_in_order() {
    let done = run(
        compile(vec![
            builtin("p", vec![Node::Str("x =".to_string()), Node::Float(num(1.5))]),
            builtin("p", vec![Node::Array(vec![whole(1), Node::Bool(true), Node::Null])]),
        ]),
        None,
    );
    assert!(done.result.is_ok());
    assert_eq!(done.lines, vec!["x = 1.5".to_string(), "(A 1 true null)".to_string()]);
}

#[test]
fn output_is_denied_by_policy() {
    let mut policy = ExecutionPolicy::default();
    policy.allow_stdout = false;
    policy.allow_stdin = false;
    let ctx = ExecutionContext::with_policy(policy);
    let said = run(compile(vec![builtin("p", vec![whole(1)])]), Some(&ctx));
    assert!(said.result.unwrap_err().contains("effect=stdout denied by policy"));
    assert!(said.lines.is_empty());
    let read = run(compile(vec![builtin("r", vec![])]), Some(&ctx));
    assert_eq!(
        read.result.unwrap_err(),
        "capability=readline effect=stdin denied by policy"
    );
    let free = run(compile(vec![builtin("r", vec![])]), None);
    assert!(matches!(free.result, Ok(GVal::Str(s)) if s == "a line"));
}

#[test]
fn capabilities_are_called_from_programs() {
    let g = compile(vec![builtin(
        "cap",
        vec![
            Node::Str("json.get".to_string()),
            Node::Str("{\"a\": [4, 5]}".to_string()),
            Node::Str("a.1".to_string()),
        ],
    )]);
    assert_eq!(capabilities_used_by_graph(&g), vec!["json.get".to_string()]);
    let done = run(g, None);
    assert!(matches!(done.result, Ok(GVal::Int(5))), "{:?}", done.result);
}

#[test]
fn failures_are_told() {
    let sum = result(vec![op(OpKind::Sub, vec![Node::Str("a".to_string()), whole(1)])]);
    assert!(sum.is_err());
    let div = result(vec![op(OpKind::Div, vec![whole(1), whole(0)])]);
    assert!(div.is_err());
    let parse = result(vec![builtin("num", vec![Node::Str("zz".to_string())])]);
    assert_eq!(parse.unwrap_err(), "cannot parse 'zz' as number");
}

#[test]
fn strategies_learn_which_option_was_tried() {
    let mut g = compile(vec![Node::Strategy { options: vec![whole(7), whole(8)] }]);
    let at = strategy_nodes(&g);
    assert_eq!(at.len(), 1);
    g.nodes[at[0] as usize].contract = Contract::Unchecked;
    let done = run(g, None);
    assert!(matches!(done.result, Ok(GVal::Int(8))), "{:?}", done.result);
    let node = &done.graph.nodes[at[0] as usize];
    assert_eq!(node.activation_count, 1);
    assert_eq!(value(node.bias), 1.0);
    assert_eq!(count_nodes(&done.graph).branches, 1);
    let report = text(&decisions_report(&done.graph, "say \"7\""));
    let parsed = parse_json_text(&report).unwrap();
    assert_eq!(parsed.get("chosen_option").and_then(|v| v.as_u64()), Some(1));
    assert_eq!(parsed.str_at("result"), Some("say \"7\""));
}

#[test]
fn agreeing_options_outvote_the_others() {
    let mut g = compile(vec![Node::Strategy { options: vec![whole(1), whole(2), whole(2)] }]);
    let at = strategy_nodes(&g)[0] as usize;
    g.nodes[at].contract = Contract::SameOutput;
    let done = run(g, None);
    assert!(matches!(done.result, Ok(GVal::Int(2))), "{:?}", done.result);
    assert_eq!(value(done.graph.nodes[at].bias), 1.0);
    assert_eq!(done.graph.journal.len(), 1);
}

#[test]
fn no_majority_teaches_nothing() {
    let mut g = compile(vec![Node::Strategy { options: vec![whole(1), whole(2), whole(3)] }]);
    let at = strategy_nodes(&g)[0] as usize;
    g.nodes[at].contract = Contract::SameOutput;
    g.nodes[at].weights = vec![num(0.2), num(0.5), num(0.3)];
    let done = run(g, None);
    assert!(done.result.is_ok());
    assert_eq!(done.graph.nodes[at].weights, vec![num(0.2), num(0.5), num(0.3)]);
    assert!(done.graph.journal.is_empty());
}

fn close(found: &[Real], wanted: &[f64]) {
    assert_eq!(found.len(), wanted.len());
    for (f, w) in found.iter().zip(wanted) {
        assert!((value(*f) - w).abs() < 1e-12, "{} is not {}", value(*f), w);
    }
}

#[test]
fn votes_move_weights_by_agreement_and_time() {
    let mut g = compile(vec![Node::Strategy { options: vec![whole(1), whole(2), whole(2)] }]);
    let at = strategy_nodes(&g)[0] as usize;
    g.nodes[at].contract = Contract::SameOutput;
    g.nodes[at].weights = vec![num(0.5), num(0.25), num(0.25)];
    let mut clock = clock_of(&[30, 10, 20]);
    let done = run_with(g, None, &mut clock);
    assert!(matches!(done.result, Ok(GVal::Int(2))), "{:?}", done.result);
    close(&done.graph.nodes[at].weights, &[0.3 / 0.88, 0.33 / 0.88, 0.25 / 0.88]);
    assert_eq!(value(done.graph.nodes[at].bias), 1.0);
    assert_eq!(done.graph.journal.len(), 1);
}

#[test]
fn unanimous_votes_at_even_times_move_nothing() {
    let mut g = compile(vec![Node::Strategy { options: vec![whole(2), whole(2)] }]);
    let at = strategy_nodes(&g)[0] as usize;
    g.nodes[at].contract = Contract::SameOutput;
    g.nodes[at].weights = vec![num(0.25), num(0.75)];
    let mut clock = clock_of(&[20, 20]);
    let done = run_with(g, None, &mut clock);
    assert_eq!(done.graph.nodes[at].weights, vec![num(0.25), num(0.75)]);
    assert_eq!(value(done.graph.nodes[at].bias), 1.0);
}

#[test]
fn moved_weights_stay_within_their_limits() {
    let mut g = compile(vec![Node::Strategy { options: vec![whole(1), whole(2), whole(2)] }]);
    let at = strategy_nodes(&g)[0] as usize;
    g.nodes[at].contract = Contract::SameOutput;
    g.nodes[at].weights = vec![num(0.1), num(0.98), num(0.5)];
    let mut clock = clock_of(&[30, 10, 20]);
    let done = run_with(g, None, &mut |q| match q {
        Query::Shares(w) => {
            close(w, &[0.01, 0.99, 0.5]);
            Some(Event::Shares { sum: num(0.0), shares: vec![num(7.0); 3] })
        }
        other => clock(other),
    });
    close(&done.graph.nodes[at].weights, &[0.01, 0.99, 0.5]);
}

#[test]
fn votes_with_too_few_times_stop() {
    let mut g = compile(vec![Node::Strategy { options: vec![whole(2), whole(2)] }]);
    let at = strategy_nodes(&g)[0] as usize;
    g.nodes[at].contract = Contract::SameOutput;
    g.nodes[at].weights = vec![num(0.3), num(0.3), num(0.4)];
    let mut clock = clock_of(&[10, 20]);
    assert_eq!(run_with(g, None, &mut clock).result.unwrap_err(), "stopped");
}

#[test]
fn results_near_the_median_agree() {
    let options = vec![Node::Float(num(1.0)), Node::Float(num(5.0)), Node::Float(num(1.0005))];
    let mut g = compile(vec![Node::Strategy { options }]);
    let at = strategy_nodes(&g)[0] as usize;
    g.nodes[at].contract = Contract::WithinTolerance;
    g.nodes[at].weights = vec![num(0.3), num(0.4), num(0.3), num(0.001)];
    let mut median = None;
    let done = run_with(g, None, &mut |q| {
        if let Query::Distances(_, m) = q {
            median = Some(value(*m));
        }
        None
    });
    assert_eq!(median, Some(1.0005));
    assert!(matches!(done.result, Ok(GVal::Float(x)) if value(x) == 1.0), "{:?}", done.result);
    close(&done.graph.nodes[at].weights, &[0.375, 0.25, 0.375, 0.001]);
}

#[test]
fn a_distance_equal_to_the_tolerance_agrees() {
    let options = vec![whole(1), whole(2), whole(4)];
    let mut g = compile(vec![Node::Strategy { options }]);
    let at = strategy_nodes(&g)[0] as usize;
    g.nodes[at].contract = Contract::WithinTolerance;
    g.nodes[at].weights = vec![num(0.6), num(0.2), num(0.2), num(1.0)];
    let done = run(g, None);
    assert!(matches!(done.result, Ok(GVal::Int(1))), "{:?}", done.result);
    close(&done.graph.nodes[at].weights, &[0.6 / 0.81, 0.2 / 0.81, 0.01 / 0.81, 1.0]);
}

#[test]
fn texts_vote_by_the_numbers_between_their_commas() {
    let options = ["1, 2", "3", "x"].iter().map(|s| Node::Str(s.to_string())).collect();
    let mut g = compile(vec![Node::Strategy { options }]);
    let at = strategy_nodes(&g)[0] as usize;
    g.nodes[at].contract = Contract::WithinTolerance;
    g.nodes[at].weights = vec![num(0.2), num(0.3), num(0.5), num(0.5)];
    let done = run_with(g, None, &mut |q| {
        if let Query::Numbers(v) = q {
            assert!(matches!(&v[0], Numeric::Parts(p) if p[..] == ["1", "2"]));
        }
        None
    });
    assert!(matches!(&done.result, Ok(GVal::Str(s)) if s == "3"), "{:?}", done.result);
}

/// A strategy of two options that both were tried once, for so many nanoseconds.
fn tried_twice(first: u128, second: u128) -> (GraphExecutor, usize) {
    let mut g = compile(vec![Node::Strategy { options: vec![whole(1), whole(2)] }]);
    let at = strategy_nodes(&g)[0];
    g.nodes[at as usize].contract = Contract::Unchecked;
    g.nodes[at as usize].weights = vec![num(0.5), num(0.5)];
    let mut machine = GraphExecutor::new(g);
    machine.start();
    machine.strategy_stats = vec![(
        at,
        vec![
            OptionStats { tries: 1, total_ns: first, correct: 1 },
            OptionStats { tries: 1, total_ns: second, correct: 1 },
        ],
    )];
    (machine, at as usize)
}

fn finish(mut machine: GraphExecutor) -> NeuralGraph {
    let mut action = machine.action();
    loop {
        let event = match action {
            Action::Continue => Event::Go,
            Action::Ask(q) => answer(q, None),
            Action::Finished(_) => return machine.into_graph(),
            Action::Panic => panic!("stopped"),
        };
        action = machine.step(event);
    }
}

#[test]
fn weights_follow_average_times() {
    let (machine, at) = tried_twice(100, 300);
    let g = finish(machine);
    close(&g.nodes[at].weights, &[0.58, 0.42]);
    assert_eq!(g.journal.len(), 1);
}

#[test]
fn even_average_times_teach_nothing() {
    let (machine, at) = tried_twice(150, 300);
    let g = finish(machine);
    close(&g.nodes[at].weights, &[0.5, 0.5]);
    assert!(g.journal.is_empty());
}

#[test]
fn strategies_explore_below_their_chance() {
    for (roll, chance, wanted) in [(0.2, 0.3, 1), (0.3, 0.3, 0), (0.01, 0.0, 1), (0.02, 0.0, 0)] {
        let mut g = compile(vec![Node::Strategy { options: vec![whole(0), whole(1)] }]);
        let at = strategy_nodes(&g)[0] as usize;
        g.nodes[at].contract = Contract::Unchecked;
        g.nodes[at].weights = vec![num(0.9), num(0.1)];
        let done = run_with(g, None, &mut |q| match q {
            Query::Odds(tries, spot) => {
                assert_eq!((*tries, *spot), (0, 20));
                Some(Event::Odds { roll: num(roll), chance: num(chance) })
            }
            _ => None,
        });
        assert!(matches!(done.result, Ok(GVal::Int(n)) if n == wanted), "{:?}", done.result);
    }
}

#[test]
fn choices_explore_below_their_epsilon() {
    let mut ctx = ExecutionContext::unrestricted();
    ctx.selection_mode = SelectionMode::EpsilonGreedy;
    ctx.selection_epsilon = num(0.5);
    for (roll, pick, wanted) in [(0.4, 1.7, 2), (0.4, 2.9, 3), (0.4, 9.0, 3), (0.5, 1.7, 1)] {
        let mut g = compile(vec![Node::Choice { options: vec![whole(1), whole(2), whole(3)] }]);
        let at = strategy_nodes(&g)[0] as usize;
        g.nodes[at].weights = vec![num(0.8), num(0.1), num(0.1)];
        let done = run_with(g, Some(&ctx), &mut |q| match q {
            Query::Roll(n) => {
                assert_eq!(*n, 3);
                Some(Event::Rolled { roll: num(roll), pick: num(pick) })
            }
            _ => None,
        });
        assert!(matches!(done.result, Ok(GVal::Int(n)) if n == wanted), "{:?}", done.result);
    }
}

#[test]
fn choices_are_drawn_by_running_sums() {
    let mut ctx = ExecutionContext::unrestricted();
    ctx.selection_mode = SelectionMode::Weighted;
    for (sum, roll, wanted) in [(1.0, 0.1, 1), (1.0, 0.2, 2), (1.0, 1.0, 2), (0.0, 0.9, 1)] {
        let mut g = compile(vec![Node::Choice { options: vec![whole(1), whole(2)] }]);
        let at = strategy_nodes(&g)[0] as usize;
        g.nodes[at].weights = vec![num(0.2), num(0.8)];
        let done = run_with(g, Some(&ctx), &mut |q| match q {
            Query::Draw(_) => Some(Event::Drawn {
                sum: num(sum),
                running: vec![num(0.2), num(1.0)],
                roll: num(roll),
            }),
            _ => None,
        });
        assert!(matches!(done.result, Ok(GVal::Int(n)) if n == wanted), "{:?}", done.result);
    }
}

#[test]
fn rewards_raise_the_chosen_option() {
    let choice = Node::Choice { options: vec![whole(1), whole(2), whole(3)] };
    let reward = Node::Float(num(0.4));
    let mut g = compile(vec![Node::Feedback { target: Box::new(choice), reward: Box::new(reward) }]);
    let at = strategy_nodes(&g)[0] as usize;
    g.nodes[at].weights = vec![num(0.2), num(0.5), num(0.3)];
    g.nodes[at].bias = num(1.0);
    let done = run(g, None);
    assert!(done.result.is_ok());
    close(&done.graph.nodes[at].weights, &[0.19, 0.52, 0.29]);
    assert_eq!(done.graph.journal.len(), 1);
}

#[test]
fn runs_keep_the_text_of_programs() {
    let g = compile(vec![bind("x", whole(1)), builtin("p", vec![id("x")])]);
    let ops: Vec<OpCode> = g.nodes.iter().map(|n| n.op).collect();
    let done = run(g, None);
    assert!(done.graph.nodes.iter().map(|n| n.op).eq(ops.into_iter()));
    assert!(done.graph.nodes.iter().any(|n| n.activation_count > 0));
}

#[test]
fn choices_follow_the_selection_mode() {
    let mut g = compile(vec![Node::Choice { options: vec![whole(1), whole(2)] }]);
    let at = strategy_nodes(&g)[0] as usize;
    g.nodes[at].weights = vec![num(0.2), num(0.8)];
    let greedy = run(g, None);
    assert!(matches!(greedy.result, Ok(GVal::Int(2))), "{:?}", greedy.result);
    let mut ctx = ExecutionContext::unrestricted();
    ctx.selection_mode = SelectionMode::Weighted;
    let drawn = run(greedy.graph, Some(&ctx));
    assert!(matches!(drawn.result, Ok(GVal::Int(1))), "{:?}", drawn.result);
}

fn sample() -> Program {
    Program {
        nodes: vec![
            bind("x", Node::Float(num(2.5))),
            function("f", &["a"], vec![Node::Return(Box::new(id("a")))]),
            Node::If {
                cond: Box::new(Node::Bool(true)),
                then_branch: Box::new(Node::Str("h\u{e9}".to_string())),
                else_branch: None,
            },
            Node::Index { object: Box::new(Node::Array(vec![whole(-3)])), index: Box::new(whole(0)) },
            Node::Bind {
                name: "t".to_string(),
                mutable: false,
                ty: Some(Type::Array(Box::new(Type::Int))),
                value: Box::new(Node::Null),
            },
        ],
    }
}

fn source(p: &Program) -> Vec<String> {
    p.nodes.iter().map(|n| text(&node_to_source(n))).collect()
}

#[test]
fn programs_survive_being_encoded() {
    let p = sample();
    let data = encode(&p);
    assert_eq!(&data[..7], b"LYCAN\x00\x01");
    assert!(is_complete(&data));
    assert!(!is_complete(&data[..data.len() - 1]));
    let back = decode(&data).unwrap();
    assert_eq!(source(&back), source(&p));
    assert_eq!(encode(&back), data);
}

#[test]
fn programs_that_cannot_be_decoded() {
    let wrong = |d: &[u8]| decode(d).unwrap_err().message();
    assert_eq!(wrong(b"LYCAX\x00\x01\x00\x00\x00\x00"), "invalid .lyc file: bad magic");
    assert_eq!(wrong(b"LYCAN\x00\x09\x00\x00\x00\x00"), "unsupported .lyc version 9");
    assert_eq!(wrong(b"LYCAN\x00\x01\x01\x00\x00\x00\xEE"), "unknown node tag 0xEE");
}

#[test]
fn nodes_are_written_one_behind_the_other() {
    let body = |nodes: Vec<Node>| encode(&Program { nodes })[11..].to_vec();
    let a = || bind("x", whole(1));
    let b = || builtin("p", vec![id("x")]);
    let mut apart = body(vec![a()]);
    apart.extend(body(vec![b()]));
    assert_eq!(body(vec![a(), b()]), apart);
    let back = decode(&encode(&Program { nodes: vec![a(), b()] })).unwrap();
    assert_eq!(source(&back), source(&Program { nodes: vec![a(), b()] }));
}

#[test]
fn operations_are_read_from_their_own_bytes() {
    let mut g = NeuralGraph::new();
    g.add_node(OpCode::Halt, vec![]);
    let data = g.to_bytes();
    let mut known = 0;
    for b in 0..=255u8 {
        let mut d = data.clone();
        d[33] = b;
        match NeuralGraph::from_bytes(&d) {
            Ok(back) => {
                known += 1;
                assert_eq!(back.to_bytes()[33], b);
            }
            Err(e) => assert_eq!(e, format!("unknown opcode 0x{b:02X}")),
        }
    }
    assert_eq!(known, 67);
}

#[test]
fn graphs_survive_being_written() {
    let mut g = compile(vec![Node::Strategy { options: vec![whole(1), Node::Float(num(0.5))] }]);
    g.state = vec![num(1.0), num(-2.5)];
    let data = g.to_bytes();
    assert_eq!(&data[..4], b"LYCN");
    let back = NeuralGraph::from_bytes(&data).unwrap();
    assert_eq!(back.nodes.len(), g.nodes.len());
    assert_eq!(back.state, g.state);
    assert_eq!(back.to_bytes(), data);
    assert_eq!(
        NeuralGraph::from_bytes(b"nothing here at all....").unwrap_err(),
        "invalid .lyc file: bad magic"
    );
}

#[test]
fn interned_strings_are_found() {
    let mut g = NeuralGraph::new();
    let a = g.intern_string("one");
    let b = g.intern_string("two");
    assert_ne!(a, b);
    assert_eq!(g.get_string(a), "one");
    assert_eq!(g.get_string(b), "two");
}

#[test]
fn feedback_changes_one_node() {
    let mut g = compile(vec![Node::Choice { options: vec![whole(1), whole(2)] }, whole(3)]);
    let at = strategy_nodes(&g)[0];
    assert_eq!(check_feedback(&g, at, 1), Ok(2));
    assert!(check_feedback(&g, at, 2).unwrap_err().contains("out of range"));
    assert!(check_feedback(&g, 999, 0).unwrap_err().contains("does not exist"));
    let place = find_count_place(&g, at, 1);
    let before = g.nodes.len();
    g.nodes[at as usize].weights = vec![num(0.5), num(0.97)];
    let numbers = RewardNumbers {
        reward: num(1.0),
        raised: vec![num(0.55), num(1.02)],
        lowered: vec![num(0.45), num(0.92)],
        sum: num(0.45 + 0.99),
        shares: vec![num(0.25), num(0.75)],
        tries: num(1.0),
        right: num(1.0),
    };
    give_feedback(&mut g, at, 1, numbers);
    assert_eq!(g.nodes.len(), before);
    assert_eq!(g.nodes[at as usize].weights, vec![num(0.25), num(0.75)]);
    let unscaled = RewardNumbers {
        reward: num(-1.0),
        raised: vec![num(0.0), num(1.02)],
        lowered: vec![num(-0.3), num(0.92)],
        sum: num(0.0),
        shares: vec![num(7.0), num(7.0)],
        tries: num(2.0),
        right: num(9.0),
    };
    let mut h = g.clone();
    give_feedback(&mut h, at, 1, unscaled);
    assert_eq!(h.nodes[at as usize].weights, vec![num(0.01), num(0.99)]);
    assert_eq!(g.journal.len(), 1);
    if let Some(p) = place {
        assert_eq!(g.state[p], num(1.0));
        assert_eq!(g.state[p + 2], num(1.0));
        assert_eq!((h.state[p], h.state[p + 2]), (num(2.0), num(1.0)));
    }
}

#[test]
fn weights_are_taken_from_a_teacher() {
    let mut source = compile(vec![Node::Choice { options: vec![whole(1), whole(2)] }]);
    let mut target = compile(vec![Node::Choice { options: vec![whole(3), whole(4)] }]);
    let from = strategy_nodes(&source)[0] as usize;
    let to = strategy_nodes(&target)[0] as usize;
    assert_eq!(find_teacher(&source, &target.nodes[to]), None);
    source.nodes[from].activation_count = 5;
    assert_eq!(find_teacher(&source, &target.nodes[to]), Some(from));
    teach(&mut target, to, vec![num(0.9), num(0.1)], num(1.0));
    assert_eq!(target.nodes[to].weights, vec![num(0.9), num(0.1)]);
    assert_eq!(value(target.nodes[to].bias), 1.0);
}

#[test]
fn bytes_are_dumped() {
    let line = dump_text("00000010", b"AB\x00");
    assert!(line.starts_with("00000010  41 42 00 "), "{line}");
    assert!(line.contains("|AB.|"), "{line}");
}

#[test]
fn inspection_is_json() {
    let g = compile(vec![builtin("p", vec![Node::Str("q\"q".to_string())])]);
    assert!(count_live(&g) > 0);
    let j = parse_json_text(&text(&inspect_json(&g))).unwrap();
    assert!(j.as_object().is_some());
}

#[test]
fn reports_name_winners() {
    let mut g = compile(vec![Node::Strategy { options: vec![whole(1), whole(2)] }]);
    let at = strategy_nodes(&g)[0] as usize;
    g.nodes[at].state_slot = Some(0);
    g.state = [4.0, 400.0, 4.0, 4.0, 100.0, 4.0].iter().map(|x| num(*x)).collect();
    let times = vec![vec![num(100.0), num(25.0)]];
    let said = text(&learn_report(&g, &times).unwrap());
    assert!(said.contains("winner: option 1"), "{said}");
    assert!(said.contains("4.0x faster than option 0"), "{said}");
    assert!(said.contains(&format!("Strategy #{at:04} (")), "{said}");
    let none = compile(vec![whole(1)]);
    assert!(learn_report(&none, &vec![]).is_none());
}

#[test]
fn reports_name_the_listed_number() {
    let mut g = compile(vec![
        Node::Choice { options: vec![whole(1), whole(2)] },
        Node::Strategy { options: vec![whole(3), whole(4)] },
    ]);
    let at = strategy_nodes(&g);
    let (first, second) = (at[0], at[1]);
    // The first decision lists the second's number, whose node lists the first's.
    g.nodes[first as usize].id = second;
    g.nodes[second as usize].id = first;
    g.nodes[first as usize].state_slot = None;
    g.nodes[second as usize].state_slot = None;
    let said = text(&learn_report(&g, &vec![vec![], vec![]]).unwrap());
    assert!(said.contains(&format!("Strategy #{second:04} (")), "{said}");
    assert!(said.contains(&format!("AdaptiveChoice #{first:04} (")), "{said}");
}

#[test]
fn weights_of_branches_only_observe() {
    let program = || {
        compile(vec![Node::If {
            cond: Box::new(Node::Bool(false)),
            then_branch: Box::new(whole(1)),
            else_branch: Some(Box::new(whole(2))),
        }])
    };
    let mut g = program();
    let at = g.nodes.iter().position(|n| n.op == OpCode::Branch).unwrap();
    g.nodes[at].weights = vec![num(0.99), num(0.01)];
    assert!(matches!(run(g, None).result, Ok(GVal::Int(2))));
    assert!(matches!(run(program(), None).result, Ok(GVal::Int(2))));
}

#[test]
fn statistics_name_hot_nodes() {
    let mut g = compile(vec![Node::Choice { options: vec![whole(1), whole(2)] }]);
    g.nodes[0].activation_count = 3;
    g.nodes[1].activation_count = 9;
    assert_eq!(hottest(&g)[0], 1);
    let mut out = Vec::new();
    say_branches(&mut out, &g);
    assert!(text(&out).contains("w["), "{}", text(&out));
    assert_eq!(count_nodes(&g).fired, 12);
    assert_eq!(align_left("ab", 4), "ab  ");
    assert_eq!(align_right("ab", 4), "  ab");
    assert_eq!(op_name(OpCode::MapEach), "Map");
}

#[test]
fn nodes_are_made_by_hand() {
    let mut g = NeuralGraph::new();
    let a = g.add_node(OpCode::ConstInt, vec![Operand::Immediate(ImmValue::Int(2))]);
    let b = g.add_node(OpCode::ConstInt, vec![Operand::Immediate(ImmValue::Int(3))]);
    let c = g.add_node(OpCode::Add, vec![Operand::NodeRef(a), Operand::NodeRef(b)]);
    g.add_edge(a, c, num(1.0));
    g.entry = c;
    assert_eq!(g.nodes[c as usize].weight_kind, WeightKind::Observational);
    assert!(matches!(run(g, None).result, Ok(GVal::Int(5))));
}

#[test]
fn unrelated_answers_change_nothing() {
    let g = compile(vec![builtin("sqrt", vec![Node::Float(num(9.0))])]);
    let mut machine = GraphExecutor::new(g);
    machine.start();
    let mut asked = false;
    for _ in 0..100 {
        match machine.action() {
            Action::Ask(Query::Compute(FloatOp::Sqrt, a, _)) => {
                asked = true;
                assert_eq!(value(a), 9.0);
                machine.step(Event::Time(5));
                assert!(matches!(machine.action(), Action::Ask(Query::Compute(..))));
                machine.step(Event::Number(num(3.0)));
            }
            Action::Ask(q) => {
                machine.step(answer(q, None));
            }
            Action::Finished(r) => {
                assert!(matches!(r, Ok(GVal::Float(x)) if value(x) == 3.0));
                assert!(asked);
                return;
            }
            _ => {
                machine.step(Event::Go);
            }
        }
    }
    panic!("the run did not end");
}

#[test]
fn inputs_reach_programs() {
    let doc = parse_json_text("{\"k\": 12}").unwrap();
    let ctx = ExecutionContext::with_input(CapValue::from_json(&doc));
    let g = compile(vec![builtin(
        "cap",
        vec![Node::Str("runtime.inputGet".to_string()), Node::Str("k".to_string())],
    )]);
    assert!(matches!(run(g, Some(&ctx)).result, Ok(GVal::Int(12))));
}

#[test]
fn nodes_are_read_back_wherever_they_stand() {
    let node = bind("x", op(OpKind::Add, vec![whole(1), Node::Float(num(2.5))]));
    let mut data = vec![9, 9, 9];
    encode_node(&mut data, &node);
    let end = data.len();
    data.extend([7, 7]);
    let mut at = 3;
    let back = decode_node(&data, &mut at).unwrap();
    assert_eq!(at, end);
    assert_eq!(text(&node_to_source(&back)), text(&node_to_source(&node)));
    let mut cut = 3;
    assert!(matches!(decode_node(&data[..end - 1], &mut cut), Err(Fault::Cut)));
    let mut bad = 0;
    assert!(matches!(decode_node(&[0xFE], &mut bad), Err(Fault::Failed(_))));
}

#[test]
fn operations_have_bytes_of_their_own() {
    for b in 0..=255u8 {
        match opcode_from_byte(b) {
            Ok(op) => assert_eq!(op_byte(op), b),
            Err(e) => assert_eq!(e, format!("unknown opcode 0x{b:02X}")),
        }
    }
    assert_eq!(opcode_from_byte(0x10), Ok(OpCode::Add));
    assert_eq!(opcode_from_byte(0x00).unwrap_err(), "unknown opcode 0x00");
}

#[test]
fn graph_nodes_are_read_back_wherever_they_stand() {
    let g = compile(vec![Node::Choice { options: vec![whole(1), whole(2)] }]);
    let n = &g.nodes[strategy_nodes(&g)[0] as usize];
    let mut data = vec![5];
    encode_graph_node(&mut data, n);
    let end = data.len();
    data.push(6);
    let mut at = 1;
    let back = decode_graph_node(&data, &mut at).unwrap();
    assert_eq!(at, end);
    assert_eq!(back.op, n.op);
    assert_eq!(back.operands, n.operands);
    assert_eq!(back.weights, n.weights);
}
