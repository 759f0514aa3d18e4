//! What the command line asks for.
use crate::context::ExecutionPolicy;
use crate::number::{ONE, Real};
use crate::parse::{natural, parse_u64};
use crate::real_constants::R_M1_0;
use crate::strings::{begins, starts_with};
use crate::text::same;
use crate::values::texts;
use vstd::prelude::*;
use vstd::string::StringExecFns;

verus! {

/// What is to be done. Numbers are places among the arguments.
#[derive(Clone, Copy, Debug, PartialEq, Eq, Structural)]
pub enum Command {
    Serve,
    Evolve,
    Feedback,
    Repl,
    Usage,
    Capabilities,
    Run,
    Compile,
    Explain,
    Inspect,
    Dump,
    Stats,
    LearnReport,
    ImproveReport,
    Decide,
    DecideWithInput,
    /// A command that is not known, which is said before the usage is shown.
    Unknown,
    TransferWeights,
    CapsuleVerify,
    CapsuleInspect,
    CapsuleRun,
    CapsuleImprove,
    CapsuleApplyProposal,
    /// With an intent, if there is a sixth argument.
    CapsuleCreate,
}

/// The command of one argument behind the program's name.
pub open spec fn command_of_one(a: Seq<char>) -> Command {
    if a == "--help"@ || a == "-h"@ {
        Command::Usage
    } else if a == "capabilities"@ {
        Command::Capabilities
    } else {
        Command::Run
    }
}

/// The command of two arguments.
pub open spec fn command_of_two(a: Seq<char>) -> Command {
    if a == "compile"@ {
        Command::Compile
    } else if a == "explain"@ {
        Command::Explain
    } else if a == "inspect"@ {
        Command::Inspect
    } else if a == "dump"@ {
        Command::Dump
    } else if a == "stats"@ {
        Command::Stats
    } else if a == "learn-report"@ || a == "decision-report"@ {
        Command::LearnReport
    } else if a == "improve-report"@ {
        Command::ImproveReport
    } else if a == "decide"@ {
        Command::Decide
    } else {
        Command::Unknown
    }
}

/// The command of three arguments.
pub open spec fn command_of_three(a: Seq<char>, b: Seq<char>) -> Command {
    if a == "transfer-weights"@ {
        Command::TransferWeights
    } else if a != "capsule"@ {
        Command::Usage
    } else if b == "verify"@ {
        Command::CapsuleVerify
    } else if b == "inspect"@ {
        Command::CapsuleInspect
    } else if b == "run"@ {
        Command::CapsuleRun
    } else if b == "improve"@ {
        Command::CapsuleImprove
    } else {
        Command::Usage
    }
}

/// The command that the arguments ask for; the first is the program's name.
pub open spec fn command_for(args: Seq<Seq<char>>) -> Command {
    let n = args.len();
    if n >= 2 && args[1] == "serve"@ {
        Command::Serve
    } else if n >= 3 && args[1] == "evolve"@ {
        Command::Evolve
    } else if n >= 5 && args[1] == "feedback"@ {
        Command::Feedback
    } else if n == 1 {
        Command::Repl
    } else if n == 2 {
        command_of_one(args[1])
    } else if n == 3 {
        command_of_two(args[1])
    } else if n == 4 {
        command_of_three(args[1], args[2])
    } else if n == 5 {
        if args[1] == "capsule"@ && args[2] == "apply-proposal"@ {
            Command::CapsuleApplyProposal
        } else if args[1] == "capsule"@ && args[2] == "create"@ {
            Command::CapsuleCreate
        } else if args[1] == "decide"@ && args[3] == "--input"@ {
            Command::DecideWithInput
        } else {
            Command::Usage
        }
    } else if n >= 6 && args[1] == "capsule"@ && args[2] == "create"@ {
        Command::CapsuleCreate
    } else {
        Command::Usage
    }
}

fn one(a: &str) -> (c: Command)
    ensures
        c == command_of_one(a@),
{
    if same(a, "--help") || same(a, "-h") {
        Command::Usage
    } else if same(a, "capabilities") {
        Command::Capabilities
    } else {
        Command::Run
    }
}

fn two(a: &str) -> (c: Command)
    ensures
        c == command_of_two(a@),
{
    if same(a, "compile") {
        Command::Compile
    } else if same(a, "explain") {
        Command::Explain
    } else if same(a, "inspect") {
        Command::Inspect
    } else if same(a, "dump") {
        Command::Dump
    } else if same(a, "stats") {
        Command::Stats
    } else if same(a, "learn-report") || same(a, "decision-report") {
        Command::LearnReport
    } else if same(a, "improve-report") {
        Command::ImproveReport
    } else if same(a, "decide") {
        Command::Decide
    } else {
        Command::Unknown
    }
}

fn three(a: &str, b: &str) -> (c: Command)
    ensures
        c == command_of_three(a@, b@),
{
    if same(a, "transfer-weights") {
        Command::TransferWeights
    } else if !same(a, "capsule") {
        Command::Usage
    } else if same(b, "verify") {
        Command::CapsuleVerify
    } else if same(b, "inspect") {
        Command::CapsuleInspect
    } else if same(b, "run") {
        Command::CapsuleRun
    } else if same(b, "improve") {
        Command::CapsuleImprove
    } else {
        Command::Usage
    }
}

/// The command that the arguments ask for; the first is the program's name.
pub fn command(args: &Vec<String>) -> (c: Command)
    ensures
        c == command_for(texts(args@)),
{
    let n: usize = args.len();
    assert(texts(args@).len() == n);
    if n < 2 {
        return if n == 1 {
            Command::Repl
        } else {
            Command::Usage
        };
    }
    let a = args[1].as_str();
    assert(texts(args@)[1] == a@);
    if same(a, "serve") {
        return Command::Serve;
    }
    if n == 2 {
        return one(a);
    }
    let b = args[2].as_str();
    assert(texts(args@)[2] == b@);
    if same(a, "evolve") {
        return Command::Evolve;
    }
    if n == 3 {
        return two(a);
    }
    if n == 4 {
        return three(a, b);
    }
    if same(a, "feedback") {
        return Command::Feedback;
    }
    if n == 5 {
        assert(texts(args@)[3] == args@[3]@);
        return if same(a, "capsule") && same(b, "apply-proposal") {
            Command::CapsuleApplyProposal
        } else if same(a, "capsule") && same(b, "create") {
            Command::CapsuleCreate
        } else if same(a, "decide") && same(args[3].as_str(), "--input") {
            Command::DecideWithInput
        } else {
            Command::Usage
        };
    }
    if same(a, "capsule") && same(b, "create") {
        Command::CapsuleCreate
    } else {
        Command::Usage
    }
}

// Evolving

/// The flags of the evolution loop.
#[derive(Debug)]
pub struct EvolveFlags {
    pub agent_command: Option<String>,
    pub proposal_path: Option<String>,
    pub policy_path: Option<String>,
    pub no_agent: bool,
    pub iterations: usize,
    pub budget_ms: u64,
    /// The text of the least improvement; the default where there is none or it
    /// is no number.
    pub min_improvement: Option<String>,
    pub dry_run: bool,
    pub json_output: bool,
}

/// The flags with their texts as sequences.
pub struct EvolveView {
    pub agent_command: Option<Seq<char>>,
    pub proposal_path: Option<Seq<char>>,
    pub policy_path: Option<Seq<char>>,
    pub no_agent: bool,
    pub iterations: usize,
    pub budget_ms: u64,
    pub min_improvement: Option<Seq<char>>,
    pub dry_run: bool,
    pub json_output: bool,
}

pub open spec fn maybe_text(o: Option<String>) -> Option<Seq<char>> {
    match o {
        Some(s) => Some(s@),
        None => None,
    }
}

impl EvolveFlags {
    pub open spec fn seen(self) -> EvolveView {
        EvolveView {
            agent_command: maybe_text(self.agent_command),
            proposal_path: maybe_text(self.proposal_path),
            policy_path: maybe_text(self.policy_path),
            no_agent: self.no_agent,
            iterations: self.iterations,
            budget_ms: self.budget_ms,
            min_improvement: maybe_text(self.min_improvement),
            dry_run: self.dry_run,
            json_output: self.json_output,
        }
    }
}

/// The argument at a place, if there is one.
pub open spec fn arg_at(args: Seq<Seq<char>>, i: int) -> Option<Seq<char>> {
    if 0 <= i < args.len() {
        Some(args[i])
    } else {
        None
    }
}

fn arg(args: &Vec<String>, i: usize) -> (r: Option<String>)
    ensures
        maybe_text(r) == arg_at(texts(args@), i as int),
{
    if i < args.len() {
        assert(texts(args@)[i as int] == args@[i as int]@);
        Some(args[i].clone())
    } else {
        None
    }
}

/// A size in an argument, or a fallback.
pub open spec fn size_in(a: Option<Seq<char>>, d: usize) -> usize {
    match a {
        Some(s) => match natural(s) {
            Some(n) => if 0 <= n <= usize::MAX {
                n as usize
            } else {
                d
            },
            None => d,
        },
        None => d,
    }
}

fn read_size(a: &Option<String>, d: usize) -> (n: usize)
    ensures
        n == size_in(maybe_text(*a), d),
{
    match a {
        Some(s) => match parse_u64(s.as_str()) {
            Some(n) => if n <= usize::MAX as u64 {
                n as usize
            } else {
                d
            },
            None => d,
        },
        None => d,
    }
}

/// A 64-bit number in an argument, or a fallback.
pub open spec fn number_in(a: Option<Seq<char>>, d: u64) -> u64 {
    match a {
        Some(s) => match natural(s) {
            Some(n) => if 0 <= n <= u64::MAX {
                n as u64
            } else {
                d
            },
            None => d,
        },
        None => d,
    }
}

fn read_number(a: &Option<String>, d: u64) -> (n: u64)
    ensures
        n == number_in(maybe_text(*a), d),
{
    match a {
        Some(s) => match parse_u64(s.as_str()) {
            Some(n) => n,
            None => d,
        },
        None => d,
    }
}

/// The flags from place `i` on, over those before it. A flag with a value takes
/// the argument behind it.
pub open spec fn evolve_from(args: Seq<Seq<char>>, i: int, f: EvolveView) -> EvolveView
    decreases if i < args.len() { args.len() - i } else { 0 },
{
    if i >= args.len() || i < 0 {
        f
    } else {
        let a = args[i];
        let v = arg_at(args, i + 1);
        if a == "--agent-command"@ {
            evolve_from(args, i + 2, EvolveView { agent_command: v, ..f })
        } else if a == "--proposal"@ {
            evolve_from(args, i + 2, EvolveView { proposal_path: v, ..f })
        } else if a == "--policy"@ {
            evolve_from(args, i + 2, EvolveView { policy_path: v, ..f })
        } else if a == "--no-agent"@ {
            evolve_from(args, i + 1, EvolveView { no_agent: true, ..f })
        } else if a == "--iterations"@ {
            evolve_from(args, i + 2, EvolveView { iterations: size_in(v, 1), ..f })
        } else if a == "--budget-ms"@ {
            evolve_from(args, i + 2, EvolveView { budget_ms: number_in(v, 60000), ..f })
        } else if a == "--min-improvement"@ {
            evolve_from(args, i + 2, EvolveView { min_improvement: v, ..f })
        } else if a == "--dry-run"@ {
            evolve_from(args, i + 1, EvolveView { dry_run: true, ..f })
        } else if a == "--json"@ {
            evolve_from(args, i + 1, EvolveView { json_output: true, ..f })
        } else {
            evolve_from(args, i + 1, f)
        }
    }
}

pub open spec fn default_evolve() -> EvolveView {
    EvolveView {
        agent_command: None,
        proposal_path: None,
        policy_path: None,
        no_agent: false,
        iterations: 1,
        budget_ms: 60000,
        min_improvement: None,
        dry_run: false,
        json_output: false,
    }
}

/// How many of the modes are asked for.
pub open spec fn mode_count(f: EvolveView) -> int {
    (if f.agent_command is Some {
        1int
    } else {
        0
    }) + (if f.proposal_path is Some {
        1int
    } else {
        0
    }) + (if f.no_agent {
        1int
    } else {
        0
    })
}

/// Reads the flags of the evolution loop; the first argument is the path.
/// Exactly one mode must be asked for.
pub fn evolve_args(args: &Vec<String>) -> (r: Result<EvolveFlags, &'static str>)
    ensures
        ({
            let f = evolve_from(texts(args@), 1, default_evolve());
            if mode_count(f) == 0 {
                r is Err && r->Err_0@
                    == "evolve requires exactly one of: --agent-command, --proposal, --no-agent"@
            } else if mode_count(f) > 1 {
                r is Err && r->Err_0@
                    == "evolve modes are mutually exclusive: --agent-command, --proposal, --no-agent"@
            } else {
                r is Ok && r->Ok_0.seen() == f
            }
        }),
{
    let ghost all = texts(args@);
    let ghost total = evolve_from(all, 1, default_evolve());
    let mut f = EvolveFlags {
        agent_command: None,
        proposal_path: None,
        policy_path: None,
        no_agent: false,
        iterations: 1,
        budget_ms: 60000,
        min_improvement: None,
        dry_run: false,
        json_output: false,
    };
    let mut i: usize = 1;
    while i < args.len()
        invariant
            all == texts(args@),
            all.len() == args@.len(),
            i >= 1,
            evolve_from(all, i as int, f.seen()) == total,
            total == evolve_from(texts(args@), 1, default_evolve()),
        decreases args.len() - i,
    {
        assert(all[i as int] == args@[i as int]@);
        let a = args[i].as_str();
        let v = arg(args, i + 1);
        let mut with_value = true;
        if same(a, "--agent-command") {
            f.agent_command = v;
        } else if same(a, "--proposal") {
            f.proposal_path = v;
        } else if same(a, "--policy") {
            f.policy_path = v;
        } else if same(a, "--no-agent") {
            f.no_agent = true;
            with_value = false;
        } else if same(a, "--iterations") {
            f.iterations = read_size(&v, 1);
        } else if same(a, "--budget-ms") {
            f.budget_ms = read_number(&v, 60000);
        } else if same(a, "--min-improvement") {
            f.min_improvement = v;
        } else if same(a, "--dry-run") {
            f.dry_run = true;
            with_value = false;
        } else if same(a, "--json") {
            f.json_output = true;
            with_value = false;
        } else {
            with_value = false;
        }
        i = i + 1;
        proof {
            if i >= args.len() {
                assert(evolve_from(all, i as int, f.seen()) == f.seen());
                assert(evolve_from(all, i + 1, f.seen()) == f.seen());
            }
        }
        if with_value && i < args.len() {
            i = i + 1;
        }
    }
    let agent = f.agent_command.is_some();
    let proposal = f.proposal_path.is_some();
    if !agent && !proposal && !f.no_agent {
        return Err("evolve requires exactly one of: --agent-command, --proposal, --no-agent");
    }
    if (agent && proposal) || (agent && f.no_agent) || (proposal && f.no_agent) {
        return Err(
            "evolve modes are mutually exclusive: --agent-command, --proposal, --no-agent",
        );
    }
    Ok(f)
}

/// A policy that allows nothing.
pub fn deny_all() -> (p: ExecutionPolicy)
    ensures
        !p.allow_stdout && !p.allow_stdin && !p.allow_file_read && !p.allow_file_write
            && !p.allow_network && p.deny_private_networks,
        p.file_root is None,
        p.allowed_hosts@.len() == 0,
{
    ExecutionPolicy {
        allow_stdout: false,
        allow_stdin: false,
        allow_file_read: false,
        allow_file_write: false,
        allow_network: false,
        file_root: None,
        allowed_hosts: Vec::new(),
        deny_private_networks: true,
    }
}

// Feedback

/// The reward that feedback gives: known, or a text that the host reads, zero
/// where it is no number.
#[derive(Debug)]
pub enum RewardArg {
    Known(Real),
    Text(String),
}

pub enum RewardView {
    Known(Real),
    Text(Seq<char>),
}

/// The flags of feedback.
#[derive(Debug)]
pub struct FeedbackFlags {
    pub option: Option<usize>,
    pub reward: RewardArg,
}

pub struct FeedbackView {
    pub option: Option<usize>,
    pub reward: RewardView,
}

impl FeedbackFlags {
    pub open spec fn seen(self) -> FeedbackView {
        FeedbackView {
            option: self.option,
            reward: match self.reward {
                RewardArg::Known(r) => RewardView::Known(r),
                RewardArg::Text(s) => RewardView::Text(s@),
            },
        }
    }
}

/// The flags from place `i` on, over those before it.
pub open spec fn feedback_from(args: Seq<Seq<char>>, i: int, f: FeedbackView) -> FeedbackView
    decreases if i < args.len() { args.len() - i } else { 0 },
{
    if i >= args.len() || i < 0 {
        f
    } else {
        let a = args[i];
        let v = arg_at(args, i + 1);
        if a == "--option"@ {
            feedback_from(args, i + 2, FeedbackView { option: Some(size_in(v, 0)), ..f })
        } else if a == "--reward"@ {
            feedback_from(
                args,
                i + 2,
                FeedbackView {
                    reward: match v {
                        Some(s) => RewardView::Text(s),
                        None => RewardView::Known(Real { bits: 0 }),
                    },
                    ..f
                },
            )
        } else if a == "--success"@ {
            feedback_from(
                args,
                i + 2,
                FeedbackView {
                    reward: RewardView::Known(
                        if v is None || v->Some_0 == "true"@ {
                            Real { bits: ONE }
                        } else {
                            Real { bits: R_M1_0 }
                        },
                    ),
                    ..f
                },
            )
        } else {
            feedback_from(args, i + 1, f)
        }
    }
}

/// Reads the flags of feedback, behind the path and the node.
pub fn feedback_args(args: &Vec<String>) -> (f: FeedbackFlags)
    ensures
        f.seen() == feedback_from(
            texts(args@),
            2,
            FeedbackView { option: None, reward: RewardView::Known(Real { bits: 0 }) },
        ),
{
    let ghost all = texts(args@);
    let mut f = FeedbackFlags { option: None, reward: RewardArg::Known(Real { bits: 0 }) };
    let ghost total = feedback_from(all, 2, f.seen());
    let mut i: usize = 2;
    while i < args.len()
        invariant
            all == texts(args@),
            all.len() == args@.len(),
            feedback_from(all, i as int, f.seen()) == total,
        decreases args.len() - i,
    {
        assert(all[i as int] == args@[i as int]@);
        let a = args[i].as_str();
        let v = arg(args, i + 1);
        let mut with_value = true;
        if same(a, "--option") {
            f.option = Some(read_size(&v, 0));
        } else if same(a, "--reward") {
            f.reward = match v {
                Some(s) => RewardArg::Text(s),
                None => RewardArg::Known(Real { bits: 0 }),
            };
        } else if same(a, "--success") {
            let yes = match &v {
                Some(s) => same(s.as_str(), "true"),
                None => true,
            };
            f.reward = RewardArg::Known(
                if yes {
                    Real { bits: ONE }
                } else {
                    Real { bits: R_M1_0 }
                },
            );
        } else {
            with_value = false;
        }
        i = i + 1;
        proof {
            if i >= args.len() {
                assert(feedback_from(all, i as int, f.seen()) == f.seen());
                assert(feedback_from(all, i + 1, f.seen()) == f.seen());
            }
        }
        if with_value && i < args.len() {
            i = i + 1;
        }
    }
    f
}

// Serving

/// The flags of the server.
#[derive(Debug)]
pub struct ServeFlags {
    pub addr: String,
    pub store_path: String,
    pub admin_key: Option<String>,
    pub dev_mode: bool,
}

pub struct ServeView {
    pub addr: Seq<char>,
    pub store_path: Seq<char>,
    pub admin_key: Option<Seq<char>>,
    pub dev_mode: bool,
}

impl ServeFlags {
    pub open spec fn seen(self) -> ServeView {
        ServeView {
            addr: self.addr@,
            store_path: self.store_path@,
            admin_key: maybe_text(self.admin_key),
            dev_mode: self.dev_mode,
        }
    }
}

/// The flags from place `i` on, over those before it. A flag without its value
/// changes nothing.
pub open spec fn serve_from(args: Seq<Seq<char>>, i: int, f: ServeView) -> ServeView
    decreases if i < args.len() { args.len() - i } else { 0 },
{
    if i >= args.len() || i < 0 {
        f
    } else {
        let a = args[i];
        let v = arg_at(args, i + 1);
        if a == "--addr"@ {
            serve_from(args, i + 2, ServeView { addr: if v is Some { v->Some_0 } else { f.addr }, ..f })
        } else if a == "--store"@ {
            serve_from(
                args,
                i + 2,
                ServeView { store_path: if v is Some { v->Some_0 } else { f.store_path }, ..f },
            )
        } else if a == "--admin-key"@ {
            serve_from(
                args,
                i + 2,
                ServeView { admin_key: if v is Some { v } else { f.admin_key }, ..f },
            )
        } else if a == "--dev-mode"@ {
            serve_from(args, i + 1, ServeView { dev_mode: true, ..f })
        } else {
            serve_from(args, i + 1, f)
        }
    }
}

/// Reads the flags of the server. `key` is the administrator's key that the
/// environment gives.
pub fn serve_args(args: &Vec<String>, key: Option<String>) -> (f: ServeFlags)
    ensures
        f.seen() == serve_from(
            texts(args@),
            0,
            ServeView {
                addr: "127.0.0.1:8787"@,
                store_path: "./lycan-store"@,
                admin_key: maybe_text(key),
                dev_mode: false,
            },
        ),
{
    let ghost all = texts(args@);
    let mut f = ServeFlags {
        addr: String::from_str("127.0.0.1:8787"),
        store_path: String::from_str("./lycan-store"),
        admin_key: key,
        dev_mode: false,
    };
    let ghost total = serve_from(all, 0, f.seen());
    let mut i: usize = 0;
    while i < args.len()
        invariant
            all == texts(args@),
            all.len() == args@.len(),
            serve_from(all, i as int, f.seen()) == total,
        decreases args.len() - i,
    {
        assert(all[i as int] == args@[i as int]@);
        let a = args[i].as_str();
        let v = arg(args, i + 1);
        let mut with_value = true;
        if same(a, "--addr") {
            if let Some(s) = v {
                f.addr = s;
            }
        } else if same(a, "--store") {
            if let Some(s) = v {
                f.store_path = s;
            }
        } else if same(a, "--admin-key") {
            if v.is_some() {
                f.admin_key = v;
            }
        } else if same(a, "--dev-mode") {
            f.dev_mode = true;
            with_value = false;
        } else {
            with_value = false;
        }
        i = i + 1;
        proof {
            if i >= args.len() {
                assert(serve_from(all, i as int, f.seen()) == f.seen());
                assert(serve_from(all, i + 1, f.seen()) == f.seen());
            }
        }
        if with_value && i < args.len() {
            i = i + 1;
        }
    }
    f
}

/// Whether the server may start: with a key, or without one in development.
pub open spec fn may_serve(f: ServeView) -> bool {
    f.admin_key is Some || f.dev_mode
}

/// Whether the server may start, and what it must warn of: that it asks for no
/// key, and that it does so on an address that others may reach.
pub fn serve_check(f: &ServeFlags) -> (r: (bool, bool, bool))
    ensures
        r.0 == may_serve(f.seen()),
        r.1 == (f.dev_mode && f.admin_key is None),
        r.2 == (r.1 && !begins(f.addr@, "127.0.0.1"@) && !begins(f.addr@, "localhost"@)),
{
    let open = f.dev_mode && f.admin_key.is_none();
    let far = open && !starts_with(f.addr.as_str(), "127.0.0.1") && !starts_with(
        f.addr.as_str(),
        "localhost",
    );
    (f.admin_key.is_some() || f.dev_mode, open, far)
}

/// A server that asks for no key starts only in development.
pub proof fn keyless_servers_are_for_development(f: ServeView)
    requires
        may_serve(f),
        f.admin_key is None,
    ensures
        f.dev_mode,
{
}

} // verus!
