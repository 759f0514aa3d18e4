//! The loop that improves a program by proposals: diagnose, ask for a proposal,
//! try it on a copy, and put the copy in place only where it wins.
//!
//! The loop decides; the host reads, writes, asks and measures. Each event that
//! the host reports is answered by a turn: what to note, what to say, and what
//! to do next.
use crate::cap_calls::hex_text;
use crate::context::ExecutionPolicy;
use crate::digest::{sha256, sha256_hex};
use crate::graph::{GraphView, NeuralGraph, Parsed, dec_graph};
use crate::json::{Js, Json, Number, fields, fields_push, js, real_js};
use crate::number::Real;
use crate::parse::{chars_of, parse_i64, signed_value, text_of};
use crate::strings::{cat2, cat3, cat4, cat5, char_count};
use crate::text::{dec_nat, same, u64_text};
use crate::values::texts;
use vstd::prelude::*;
use vstd::string::StringExecFns;

verus! {

/// What the loop is to do.
#[derive(Debug)]
pub struct EvolutionConfig {
    pub iterations: usize,
    pub budget_ms: u64,
    pub min_improvement: Real,
    pub dry_run: bool,
    pub agent_command: Option<String>,
    pub proposal_path: Option<String>,
    pub json_output: bool,
    pub policy: Option<ExecutionPolicy>,
}

/// What became of one proposal.
#[derive(Debug)]
pub struct EvolutionOutcome {
    pub accepted: bool,
    pub reason: String,
    pub before_score: Option<Real>,
    pub after_score: Option<Real>,
    pub before_hash: String,
    pub after_hash: Option<String>,
    pub target_strategy: u32,
    pub proposal_name: String,
}

/// What became of the whole run.
#[derive(Debug)]
pub struct EvolutionResult {
    pub iterations_run: usize,
    pub proposals_received: usize,
    pub proposals_accepted: usize,
    pub proposals_rejected: usize,
    pub outcomes: Vec<EvolutionOutcome>,
}

/// An optional text as a sequence.
pub open spec fn opt_text(o: Option<String>) -> Option<Seq<char>> {
    match o {
        Some(s) => Some(s@),
        None => None,
    }
}

/// An outcome with its texts as sequences.
pub struct OutcomeView {
    pub accepted: bool,
    pub reason: Seq<char>,
    pub before_score: Option<Real>,
    pub after_score: Option<Real>,
    pub before_hash: Seq<char>,
    pub after_hash: Option<Seq<char>>,
    pub target_strategy: u32,
    pub proposal_name: Seq<char>,
}

impl EvolutionOutcome {
    pub open spec fn seen(self) -> OutcomeView {
        OutcomeView {
            accepted: self.accepted,
            reason: self.reason@,
            before_score: self.before_score,
            after_score: self.after_score,
            before_hash: self.before_hash@,
            after_hash: opt_text(self.after_hash),
            target_strategy: self.target_strategy,
            proposal_name: self.proposal_name@,
        }
    }
}

/// A result with its lists as sequences.
pub struct ResultView {
    pub iterations_run: int,
    pub proposals_received: int,
    pub proposals_accepted: int,
    pub proposals_rejected: int,
    pub outcomes: Seq<OutcomeView>,
}

impl EvolutionResult {
    pub open spec fn seen(self) -> ResultView {
        ResultView {
            iterations_run: self.iterations_run as int,
            proposals_received: self.proposals_received as int,
            proposals_accepted: self.proposals_accepted as int,
            proposals_rejected: self.proposals_rejected as int,
            outcomes: self.outcomes@.map_values(|o: EvolutionOutcome| o.seen()),
        }
    }
}

// Paths and names

/// The files of a run.
#[derive(Debug)]
pub struct EvolvePaths {
    /// The program.
    pub lyc_path: String,
    /// The program or the capsule's directory.
    pub base: String,
    pub is_capsule: bool,
}

/// What the file system says of a path.
#[derive(Clone, Copy, Debug)]
pub struct BaseFacts {
    pub is_dir: bool,
    pub has_program: bool,
    pub exists: bool,
}

/// `s` without the slashes at its end.
pub open spec fn without_slashes(s: Seq<char>) -> Seq<char>
    decreases s.len(),
{
    if s.len() > 0 && s.last() == '/' {
        without_slashes(s.drop_last())
    } else {
        s
    }
}

/// The path without the slashes at its end.
pub fn strip_slashes(path: &str) -> (r: String)
    ensures
        r@ == without_slashes(path@),
{
    let v = chars_of(path);
    let mut n: usize = v.len();
    assert(v@.take(n as int) == v@);
    while n > 0 && v[n - 1] == '/'
        invariant
            n <= v.len(),
            without_slashes(v@) == without_slashes(v@.take(n as int)),
        decreases n,
    {
        assert(v@.take(n as int).drop_last() == v@.take(n - 1));
        n = n - 1;
    }
    proof {
        if n > 0 {
            assert(v@.take(n as int).last() == v@[n - 1]);
        }
        assert(v@.subrange(0, n as int) == v@.take(n as int));
    }
    text_of(&v, 0, n)
}

impl EvolvePaths {
    pub open spec fn program(base: Seq<char>) -> Seq<char> {
        without_slashes(base) + "/program.lyc"@
    }

    /// Where the program of a path lies: in a capsule's directory, or at the
    /// path itself.
    pub fn from_path(path: &str, facts: BaseFacts) -> (r: Result<Self, String>)
        ensures
            facts.is_dir && facts.has_program ==> r is Ok && r->Ok_0.is_capsule && r->Ok_0.lyc_path@
                == EvolvePaths::program(path@) && r->Ok_0.base@ == without_slashes(path@),
            facts.is_dir && !facts.has_program ==> r is Err && r->Err_0@ == "capsule directory "@
                + path@ + " has no program.lyc"@,
            !facts.is_dir && facts.exists ==> r is Ok && !r->Ok_0.is_capsule && r->Ok_0.lyc_path@
                == path@ && r->Ok_0.base@ == path@,
            !facts.is_dir && !facts.exists ==> r is Err && r->Err_0@ == "path does not exist: "@
                + path@,
    {
        if facts.is_dir {
            if !facts.has_program {
                return Err(cat3("capsule directory ", path, " has no program.lyc"));
            }
            let base = strip_slashes(path);
            Ok(
                EvolvePaths {
                    lyc_path: cat2(base.as_str(), "/program.lyc"),
                    base,
                    is_capsule: true,
                },
            )
        } else if facts.exists {
            Ok(
                EvolvePaths {
                    lyc_path: String::from_str(path),
                    base: String::from_str(path),
                    is_capsule: false,
                },
            )
        } else {
            Err(cat2("path does not exist: ", path))
        }
    }

    /// A file beside the program: inside a capsule's directory, or behind the
    /// program's own name.
    pub open spec fn beside(self, name: Seq<char>) -> Seq<char> {
        if self.is_capsule {
            self.base@ + "/"@ + name
        } else {
            self.base@ + "."@ + name
        }
    }

    fn name_beside(&self, name: &str) -> (r: String)
        ensures
            r@ == self.beside(name@),
    {
        if self.is_capsule {
            cat3(self.base.as_str(), "/", name)
        } else {
            cat3(self.base.as_str(), ".", name)
        }
    }

    pub fn lock_path(&self) -> (r: String)
        ensures
            r@ == (if self.is_capsule {
                self.base@ + "/.evolve.lock"@
            } else {
                self.base@ + ".evolve.lock"@
            }),
    {
        if self.is_capsule {
            cat2(self.base.as_str(), "/.evolve.lock")
        } else {
            cat2(self.base.as_str(), ".evolve.lock")
        }
    }

    pub fn journal_path(&self) -> (r: String)
        ensures
            r@ == self.beside("evolution.jsonl"@),
    {
        self.name_beside("evolution.jsonl")
    }

    pub fn snapshots_dir(&self) -> (r: String)
        ensures
            r@ == self.beside("snapshots"@),
    {
        self.name_beside("snapshots")
    }
}

/// The digits of `n`, with zeros in front up to a width.
pub open spec fn zero_padded(n: nat, width: nat) -> Seq<char> {
    let d = dec_nat(n);
    if d.len() >= width {
        d
    } else {
        Seq::new((width - d.len()) as nat, |i: int| '0') + d
    }
}

pub fn push_padded(s: &mut String, n: u64, width: usize)
    ensures
        final(s)@ == old(s)@ + zero_padded(n as nat, width as nat),
{
    let ghost before = s@;
    let d = u64_text(n);
    let have: usize = char_count(d.as_str());
    if have < width {
        let mut k: usize = 0;
        let ghost zeros = |m: nat| Seq::new(m, |i: int| '0');
        assert(before + zeros(0) =~= before);
        while k < width - have
            invariant
                k <= width - have,
                have < width,
                zeros == (|m: nat| Seq::new(m, |i: int| '0')),
                s@ == before + zeros(k as nat),
            decreases width - have - k,
        {
            s.push('0');
            k = k + 1;
            assert(before + zeros(k as nat) =~= (before + zeros((k - 1) as nat)).push('0'));
        }
        s.append(d.as_str());
        assert(s@ =~= before + zero_padded(n as nat, width as nat));
    } else {
        s.append(d.as_str());
    }
}

/// A name for a moment, from the seconds since the epoch, with years of 365 days
/// and months of 30.
pub open spec fn stamp(secs: int) -> Seq<char> {
    let days = secs / 86400;
    let doy = days % 365;
    zero_padded((1970 + days / 365) as nat, 4) + zero_padded((doy / 30 + 1) as nat, 2) + zero_padded(
        (doy % 30 + 1) as nat,
        2,
    ) + "_"@ + zero_padded(((secs / 3600) % 24) as nat, 2) + zero_padded(((secs / 60) % 60) as nat, 2)
        + zero_padded((secs % 60) as nat, 2)
}

/// A name for a moment, from the seconds since the epoch.
pub fn timestamp_str(secs: u64) -> (s: String)
    ensures
        s@ == stamp(secs as int),
{
    let days: u64 = secs / 86400;
    let doy: u64 = days % 365;
    let mut s = String::new();
    push_padded(&mut s, 1970 + days / 365, 4);
    push_padded(&mut s, doy / 30 + 1, 2);
    push_padded(&mut s, doy % 30 + 1, 2);
    s.append("_");
    push_padded(&mut s, (secs / 3600) % 24, 2);
    push_padded(&mut s, (secs / 60) % 60, 2);
    push_padded(&mut s, secs % 60, 2);
    assert(Seq::<char>::empty() + zero_padded((1970 + days / 365) as nat, 4) =~= zero_padded(
        (1970 + days / 365) as nat,
        4,
    ));
    s
}

/// What a noted text stands for: an integer, a real, a truth value, or itself.
pub open spec fn noted(text: Seq<char>, as_real: Option<Real>) -> Js {
    match as_real {
        Some(n) => match signed_value(text) {
            Some(i) => if 0 <= i <= i64::MAX {
                Js::Num(Number::Natural(i as u64))
            } else if i64::MIN <= i < 0 {
                Js::Num(Number::Negative(i as i64))
            } else {
                real_js(n)
            },
            None => real_js(n),
        },
        None => if text == "true"@ {
            Js::Bool(true)
        } else if text == "false"@ {
            Js::Bool(false)
        } else {
            Js::Str(text)
        },
    }
}

/// What a noted text stands for, given the real that it can be read as.
pub fn note_value(text: &str, as_real: Option<Real>) -> (j: Json)
    ensures
        js(j) == noted(text@, as_real),
{
    match as_real {
        Some(n) => match parse_i64(text) {
            Some(i) => Json::Num(
                if i >= 0 {
                    Number::Natural(i as u64)
                } else {
                    Number::Negative(i)
                },
            ),
            None => Json::number(n),
        },
        None => if same(text, "true") {
            Json::Bool(true)
        } else if same(text, "false") {
            Json::Bool(false)
        } else {
            Json::text(text)
        },
    }
}

/// A line of the journal: its event, its moment, and its fields.
pub open spec fn note_fields(
    event: Seq<char>,
    moment: Seq<char>,
    notes: Seq<(String, String)>,
    reals: Seq<Option<Real>>,
) -> Seq<(Seq<char>, Js)>
    decreases notes.len(),
{
    if notes.len() == 0 {
        seq![("event"@, Js::Str(event)), ("timestamp"@, Js::Str(moment))]
    } else {
        note_fields(event, moment, notes.drop_last(), reals).push(
            (notes.last().0@, noted(notes.last().1@, reals[notes.len() - 1])),
        )
    }
}

/// Builds a line of the journal. `reals` says which real each text can be read
/// as.
pub fn journal_event(note: &Note, secs: u64, reals: &Vec<Option<Real>>) -> (j: Json)
    requires
        reals@.len() == note.fields@.len(),
    ensures
        js(j) == Js::Obj(note_fields(note.event@, stamp(secs as int), note.fields@, reals@)),
{
    let mut o: Vec<(String, Json)> = Vec::new();
    o.push((String::from_str("event"), Json::text(note.event)));
    o.push((String::from_str("timestamp"), Json::Str(timestamp_str(secs))));
    let ghost event = note.event@;
    let ghost moment = stamp(secs as int);
    let mut i: usize = 0;
    proof {
        assert(note.fields@.take(0) == Seq::<(String, String)>::empty());
        assert(fields(o@) =~= seq![
            ("event"@, Js::Str(event)),
            ("timestamp"@, Js::Str(moment)),
        ]);
    }
    while i < note.fields.len()
        invariant
            i <= note.fields.len(),
            reals@.len() == note.fields@.len(),
            fields(o@) == note_fields(event, moment, note.fields@.take(i as int), reals@),
        decreases note.fields.len() - i,
    {
        let ghost so_far = o@;
        assert(note.fields@.take(i + 1).drop_last() == note.fields@.take(i as int));
        let v = note_value(note.fields[i].1.as_str(), reals[i]);
        o.push((note.fields[i].0.clone(), v));
        proof {
            fields_push(so_far, o@.last());
        }
        i = i + 1;
    }
    assert(note.fields@.take(i as int) == note.fields@);
    Json::Obj(o)
}

// The machine

/// A line for the journal.
#[derive(Debug)]
pub struct Note {
    pub event: &'static str,
    pub fields: Vec<(String, String)>,
}

/// A line with its texts as sequences.
pub struct NoteView {
    pub event: Seq<char>,
    pub fields: Seq<(Seq<char>, Seq<char>)>,
}

impl Note {
    pub open spec fn seen(self) -> NoteView {
        NoteView {
            event: self.event@,
            fields: self.fields@.map_values(|f: (String, String)| (f.0@, f.1@)),
        }
    }
}

/// What a trial of a proposal measured, with the texts of the numbers: the
/// times in milliseconds, the improvement in percent, the threshold in percent
/// and the improvement itself.
#[derive(Debug)]
pub struct Trial {
    pub accepted: bool,
    pub reason: String,
    pub before: Real,
    pub after: Real,
    pub improvement: Real,
    pub before_text: String,
    pub after_text: String,
    pub percent_text: String,
    pub threshold_text: String,
    pub improvement_text: String,
}

/// A trial with its texts as sequences.
pub struct TrialView {
    pub accepted: bool,
    pub reason: Seq<char>,
    pub before: Real,
    pub after: Real,
    pub improvement: Real,
    pub before_text: Seq<char>,
    pub after_text: Seq<char>,
    pub percent_text: Seq<char>,
    pub threshold_text: Seq<char>,
    pub improvement_text: Seq<char>,
}

impl Trial {
    pub open spec fn seen(self) -> TrialView {
        TrialView {
            accepted: self.accepted,
            reason: self.reason@,
            before: self.before,
            after: self.after,
            improvement: self.improvement,
            before_text: self.before_text@,
            after_text: self.after_text@,
            percent_text: self.percent_text@,
            threshold_text: self.threshold_text@,
            improvement_text: self.improvement_text@,
        }
    }
}

/// How trying a proposal on a copy went.
#[derive(Debug)]
pub enum Tried {
    /// The copy could not be written.
    Unwritten(String),
    Failed(String),
    Measured(Trial),
}

/// How putting a copy in place went: what then stands there, or at what it
/// failed.
#[derive(Debug)]
pub enum Placed {
    Unwritten(String),
    Unread(String),
    Bytes(Vec<u8>),
}

/// What the host reports.
#[derive(Debug)]
pub enum Report {
    Locked(bool),
    Millis(u64),
    Loaded(Result<Vec<u8>, String>),
    /// How many weaknesses were found.
    Diagnosed(usize),
    Proposed(Result<String, String>),
    Parsed(Result<(String, u32), String>),
    Snapshot(Result<(), String>),
    Tried(Tried),
    Candidate(Result<Vec<u8>, String>),
    Placed(Placed),
}

/// What the host is to do next.
#[derive(Debug)]
pub enum Task {
    /// Print the brief; the run is over.
    BriefOnly,
    Lock(String),
    Clock,
    Load(String),
    Diagnose(NeuralGraph),
    ReadProposal(String),
    AskAgent(String),
    Parse(String),
    Snapshot,
    /// Write a copy and try the proposal on it.
    Try,
    ReadCandidate,
    /// Put the copy in place and read back what then stands there.
    Place,
    /// Nothing; the report does not fit.
    Wait,
    Done,
    Fail(String),
}

/// A task with what it holds as sequences.
pub enum TaskView {
    BriefOnly,
    Lock(Seq<char>),
    Clock,
    Load(Seq<char>),
    Diagnose(GraphView),
    ReadProposal(Seq<char>),
    AskAgent(Seq<char>),
    Parse(Seq<char>),
    Snapshot,
    Try,
    ReadCandidate,
    Place,
    Wait,
    Done,
    Fail(Seq<char>),
}

impl Task {
    pub open spec fn seen(self) -> TaskView {
        match self {
            Task::BriefOnly => TaskView::BriefOnly,
            Task::Lock(p) => TaskView::Lock(p@),
            Task::Clock => TaskView::Clock,
            Task::Load(p) => TaskView::Load(p@),
            Task::Diagnose(g) => TaskView::Diagnose(g@),
            Task::ReadProposal(p) => TaskView::ReadProposal(p@),
            Task::AskAgent(c) => TaskView::AskAgent(c@),
            Task::Parse(t) => TaskView::Parse(t@),
            Task::Snapshot => TaskView::Snapshot,
            Task::Try => TaskView::Try,
            Task::ReadCandidate => TaskView::ReadCandidate,
            Task::Place => TaskView::Place,
            Task::Wait => TaskView::Wait,
            Task::Done => TaskView::Done,
            Task::Fail(e) => TaskView::Fail(e@),
        }
    }
}

/// What the loop answers: lines for the journal, lines to say, whether the copy
/// is to be removed and the lock released, and the next task.
#[derive(Debug)]
pub struct Turn {
    pub notes: Vec<Note>,
    pub says: Vec<String>,
    pub remove_copy: bool,
    pub unlock: bool,
    pub task: Task,
}

/// A turn with what it holds as sequences.
pub struct TurnView {
    pub notes: Seq<NoteView>,
    pub says: Seq<Seq<char>>,
    pub remove_copy: bool,
    pub unlock: bool,
    pub task: TaskView,
}

impl Turn {
    pub open spec fn seen(self) -> TurnView {
        TurnView {
            notes: self.notes@.map_values(|n: Note| n.seen()),
            says: texts(self.says@),
            remove_copy: self.remove_copy,
            unlock: self.unlock,
            task: self.task.seen(),
        }
    }
}

/// What the loop waits for.
#[derive(Clone, Copy, Debug, PartialEq, Eq, Structural)]
pub enum Phase {
    Locking,
    Clocking,
    Loading,
    Diagnosing,
    Proposing,
    Parsing,
    Snapping,
    Trying,
    Fetching,
    Placing,
    Over,
}

/// The state of the loop.
#[derive(Debug)]
pub struct Evolution {
    pub config: EvolutionConfig,
    pub paths: EvolvePaths,
    pub result: EvolutionResult,
    pub iteration: usize,
    pub phase: Phase,
    pub before_hash: String,
    pub proposal_name: String,
    pub target: u32,
    pub trial: Option<Trial>,
    pub after_hash: String,
}

/// The state with what it holds as sequences.
pub struct LoopView {
    pub config: EvolutionConfig,
    pub paths: EvolvePaths,
    pub result: ResultView,
    pub iteration: int,
    pub phase: Phase,
    pub before_hash: Seq<char>,
    pub proposal_name: Seq<char>,
    pub target: u32,
    pub trial: Option<TrialView>,
    pub after_hash: Seq<char>,
}

impl View for Evolution {
    type V = LoopView;

    open spec fn view(&self) -> LoopView {
        LoopView {
            config: self.config,
            paths: self.paths,
            result: self.result.seen(),
            iteration: self.iteration as int,
            phase: self.phase,
            before_hash: self.before_hash@,
            proposal_name: self.proposal_name@,
            target: self.target,
            trial: match self.trial {
                Some(t) => Some(t.seen()),
                None => None,
            },
            after_hash: self.after_hash@,
        }
    }
}

/// A report with what it holds as sequences.
pub enum ReportView {
    Locked(bool),
    Millis(u64),
    Loaded(Result<Seq<u8>, Seq<char>>),
    Diagnosed(int),
    Proposed(Result<Seq<char>, Seq<char>>),
    Parsed(Result<(Seq<char>, u32), Seq<char>>),
    Snapshot(Result<(), Seq<char>>),
    Unwritten(Seq<char>),
    Failed(Seq<char>),
    Measured(TrialView),
    Candidate(Result<Seq<u8>, Seq<char>>),
    NotPlaced(Seq<char>),
    NotVerified(Seq<char>),
    Placed(Seq<u8>),
}

impl Report {
    pub open spec fn seen(self) -> ReportView {
        match self {
            Report::Locked(b) => ReportView::Locked(b),
            Report::Millis(n) => ReportView::Millis(n),
            Report::Loaded(Ok(d)) => ReportView::Loaded(Ok(d@)),
            Report::Loaded(Err(e)) => ReportView::Loaded(Err(e@)),
            Report::Diagnosed(n) => ReportView::Diagnosed(n as int),
            Report::Proposed(Ok(t)) => ReportView::Proposed(Ok(t@)),
            Report::Proposed(Err(e)) => ReportView::Proposed(Err(e@)),
            Report::Parsed(Ok((n, t))) => ReportView::Parsed(Ok((n@, t))),
            Report::Parsed(Err(e)) => ReportView::Parsed(Err(e@)),
            Report::Snapshot(Ok(())) => ReportView::Snapshot(Ok(())),
            Report::Snapshot(Err(e)) => ReportView::Snapshot(Err(e@)),
            Report::Tried(Tried::Unwritten(e)) => ReportView::Unwritten(e@),
            Report::Tried(Tried::Failed(e)) => ReportView::Failed(e@),
            Report::Tried(Tried::Measured(t)) => ReportView::Measured(t.seen()),
            Report::Candidate(Ok(d)) => ReportView::Candidate(Ok(d@)),
            Report::Candidate(Err(e)) => ReportView::Candidate(Err(e@)),
            Report::Placed(Placed::Unwritten(e)) => ReportView::NotPlaced(e@),
            Report::Placed(Placed::Unread(e)) => ReportView::NotVerified(e@),
            Report::Placed(Placed::Bytes(d)) => ReportView::Placed(d@),
        }
    }
}

pub open spec fn turn_of(notes: Seq<NoteView>, says: Seq<Seq<char>>, task: TaskView) -> TurnView {
    TurnView { notes, says, remove_copy: false, unlock: false, task }
}

/// The greatest finite real.
pub const GREATEST: u64 = 0x7FEF_FFFF_FFFF_FFFF;

impl LoopView {
    /// A note, unless the run is dry.
    pub open spec fn noting(
        self,
        event: Seq<char>,
        fields: Seq<(Seq<char>, Seq<char>)>,
    ) -> Seq<NoteView> {
        if self.config.dry_run {
            Seq::empty()
        } else {
            seq![NoteView { event, fields }]
        }
    }

    pub open spec fn iter_text(self) -> Seq<char> {
        dec_nat(self.iteration as nat)
    }

    /// `iteration n: ` and what is told of it.
    pub open spec fn telling(self, told: Seq<char>) -> Seq<char> {
        "iteration "@ + dec_nat((self.iteration + 1) as nat) + ": "@ + told
    }

    /// The end of the run.
    pub open spec fn ended(self, notes: Seq<NoteView>, says: Seq<Seq<char>>, remove_copy: bool) -> (
        LoopView,
        TurnView,
    ) {
        let last = self.noting(
            "EvolutionCompleted"@,
            seq![
                ("iterations"@, dec_nat(self.result.iterations_run as nat)),
                ("accepted"@, dec_nat(self.result.proposals_accepted as nat)),
                ("rejected"@, dec_nat(self.result.proposals_rejected as nat)),
            ],
        );
        (
            LoopView { phase: Phase::Over, ..self },
            TurnView {
                notes: notes + last,
                says,
                remove_copy,
                unlock: !self.config.dry_run,
                task: TaskView::Done,
            },
        )
    }

    /// The head of the loop: the next iteration, or the end.
    pub open spec fn at_head(self, notes: Seq<NoteView>, says: Seq<Seq<char>>, remove_copy: bool)
        -> (LoopView, TurnView) {
        if self.iteration < self.config.iterations {
            (
                LoopView { phase: Phase::Clocking, ..self },
                TurnView { notes, says, remove_copy, unlock: false, task: TaskView::Clock },
            )
        } else {
            self.ended(notes, says, remove_copy)
        }
    }

    /// The next iteration after an outcome.
    pub open spec fn with_outcome(
        self,
        o: OutcomeView,
        notes: Seq<NoteView>,
        says: Seq<Seq<char>>,
        remove_copy: bool,
    ) -> (LoopView, TurnView) {
        let r = self.result;
        let counted = ResultView {
            proposals_accepted: r.proposals_accepted + (if o.accepted {
                1int
            } else {
                0
            }),
            proposals_rejected: r.proposals_rejected + (if o.accepted {
                0int
            } else {
                1
            }),
            outcomes: r.outcomes.push(o),
            ..r
        };
        LoopView { result: counted, iteration: self.iteration + 1, ..self }.at_head(
            notes,
            says,
            remove_copy,
        )
    }

    pub open spec fn failed(self, e: Seq<char>, remove_copy: bool) -> (LoopView, TurnView) {
        (
            LoopView { phase: Phase::Over, ..self },
            TurnView {
                notes: Seq::empty(),
                says: Seq::empty(),
                remove_copy,
                unlock: false,
                task: TaskView::Fail(e),
            },
        )
    }

    pub open spec fn clocked(self, ms: u64) -> (LoopView, TurnView) {
        if ms > self.config.budget_ms {
            self.ended(
                Seq::empty(),
                seq![
                    "budget of "@ + dec_nat(self.config.budget_ms as nat) + "ms expired after "@
                        + self.iter_text() + " iterations"@,
                ],
                false,
            )
        } else {
            (
                LoopView {
                    phase: Phase::Loading,
                    result: ResultView {
                        iterations_run: self.result.iterations_run + 1,
                        ..self.result
                    },
                    ..self
                },
                turn_of(Seq::empty(), Seq::empty(), TaskView::Load(self.paths.lyc_path@)),
            )
        }
    }

    pub open spec fn loaded(self, r: Result<Seq<u8>, Seq<char>>) -> (LoopView, TurnView) {
        match r {
            Err(e) => self.failed("cannot read "@ + self.paths.lyc_path@ + ": "@ + e, false),
            Ok(data) => match dec_graph(data) {
                Err(e) => self.failed(e, false),
                Ok(g) => {
                    let hash = hex_text(sha256(data));
                    (
                        LoopView { phase: Phase::Diagnosing, before_hash: hash, ..self },
                        turn_of(
                            self.noting(
                                "EvolutionStarted"@,
                                seq![("iteration"@, self.iter_text()), ("hash_before"@, hash)],
                            ),
                            Seq::empty(),
                            TaskView::Diagnose(g),
                        ),
                    )
                },
            },
        }
    }

    pub open spec fn diagnosed(self, n: int) -> (LoopView, TurnView) {
        if n == 0 && self.config.proposal_path is None {
            self.ended(
                self.noting(
                    "EvolutionCompleted"@,
                    seq![("iteration"@, self.iter_text()), ("reason"@, "no_weaknesses"@)],
                ),
                seq![self.telling("no weaknesses detected — stopping"@)],
                false,
            )
        } else {
            (
                LoopView { phase: Phase::Proposing, ..self },
                turn_of(
                    self.noting(
                        "BriefGenerated"@,
                        seq![
                            ("iteration"@, self.iter_text()),
                            ("weaknesses"@, dec_nat(n as nat)),
                        ],
                    ),
                    Seq::empty(),
                    match self.config.proposal_path {
                        Some(p) => TaskView::ReadProposal(p@),
                        None => TaskView::AskAgent(self.config.agent_command->Some_0@),
                    },
                ),
            )
        }
    }

    pub open spec fn proposed(self, r: Result<Seq<char>, Seq<char>>) -> (LoopView, TurnView) {
        match r {
            Err(e) => self.failed(
                match self.config.proposal_path {
                    Some(p) => "cannot read proposal "@ + p@ + ": "@ + e,
                    None => e,
                },
                false,
            ),
            Ok(text) => (
                LoopView {
                    phase: Phase::Parsing,
                    result: ResultView {
                        proposals_received: self.result.proposals_received + 1,
                        ..self.result
                    },
                    ..self
                },
                turn_of(Seq::empty(), Seq::empty(), TaskView::Parse(text)),
            ),
        }
    }

    pub open spec fn parsed(self, r: Result<(Seq<char>, u32), Seq<char>>) -> (LoopView, TurnView) {
        match r {
            Err(e) => {
                let reason = "invalid proposal JSON: "@ + e;
                self.with_outcome(
                    OutcomeView {
                        accepted: false,
                        reason,
                        before_score: None,
                        after_score: None,
                        before_hash: self.before_hash,
                        after_hash: None,
                        target_strategy: 0,
                        proposal_name: Seq::empty(),
                    },
                    self.noting(
                        "ProposalRejected"@,
                        seq![
                            ("iteration"@, self.iter_text()),
                            ("reason"@, reason),
                            ("hash_before"@, self.before_hash),
                        ],
                    ),
                    seq![self.telling("rejected — "@ + reason)],
                    false,
                )
            },
            Ok((name, target)) => (
                LoopView {
                    phase: if self.config.dry_run {
                        Phase::Trying
                    } else {
                        Phase::Snapping
                    },
                    proposal_name: name,
                    target,
                    ..self
                },
                turn_of(
                    self.noting(
                        "ProposalReceived"@,
                        seq![
                            ("iteration"@, self.iter_text()),
                            ("name"@, name),
                            ("target"@, dec_nat(target as nat)),
                        ],
                    ),
                    Seq::empty(),
                    if self.config.dry_run {
                        TaskView::Try
                    } else {
                        TaskView::Snapshot
                    },
                ),
            ),
        }
    }

    pub open spec fn snapped(self, r: Result<(), Seq<char>>) -> (LoopView, TurnView) {
        match r {
            Err(e) => self.failed(e, false),
            Ok(_) => (
                LoopView { phase: Phase::Trying, ..self },
                turn_of(Seq::empty(), Seq::empty(), TaskView::Try),
            ),
        }
    }

    /// An outcome that rejects the proposal.
    pub open spec fn rejection(
        self,
        reason: Seq<char>,
        before: Option<Real>,
        after: Option<Real>,
    ) -> OutcomeView {
        OutcomeView {
            accepted: false,
            reason,
            before_score: before,
            after_score: after,
            before_hash: self.before_hash,
            after_hash: None,
            target_strategy: self.target,
            proposal_name: self.proposal_name,
        }
    }

    /// The fields that every note on a rejection begins with.
    pub open spec fn rejection_fields(self, reason: Seq<char>) -> Seq<(Seq<char>, Seq<char>)> {
        seq![
            ("iteration"@, self.iter_text()),
            ("name"@, self.proposal_name),
            ("reason"@, reason),
        ]
    }

    /// The proposal is rejected after its trial.
    pub open spec fn turned_down(
        self,
        reason: Seq<char>,
        before: Option<Real>,
        after: Option<Real>,
        times: Seq<(Seq<char>, Seq<char>)>,
    ) -> (LoopView, TurnView) {
        self.with_outcome(
            self.rejection(reason, before, after),
            self.noting(
                "ProposalRejected"@,
                (self.rejection_fields(reason) + times).push(("hash_before"@, self.before_hash)),
            ),
            seq![
                self.telling(
                    (if self.config.dry_run {
                        "WOULD_REJECT"@
                    } else {
                        "rejected"@
                    }) + " — "@ + reason,
                ),
            ],
            true,
        )
    }

    /// Why a measured trial does not pass, with the scores that are kept and the
    /// times that are noted; nothing where it passes.
    pub open spec fn gate(self, t: TrialView) -> Option<
        (Seq<char>, Option<Real>, Option<Real>, Seq<(Seq<char>, Seq<char>)>),
    > {
        let zero = Real { bits: 0 };
        if !t.accepted {
            Some(
                (
                    t.reason,
                    Some(t.before),
                    Some(t.after),
                    seq![("before_ms"@, t.before_text), ("after_ms"@, t.after_text)],
                ),
            )
        } else if t.before.at_most(zero) || (Real { bits: GREATEST }).at_most(t.before) {
            Some(
                (
                    "no_baseline: cannot measure current strategy performance"@,
                    None,
                    Some(t.after),
                    Seq::empty(),
                ),
            )
        } else if t.after.at_most(zero) {
            Some(
                (
                    "no_candidate_score: cannot measure candidate performance"@,
                    Some(t.before),
                    None,
                    Seq::empty(),
                ),
            )
        } else if zero.below(self.config.min_improvement) && t.improvement.below(
            self.config.min_improvement,
        ) {
            Some(
                (
                    "improvement "@ + t.percent_text + "% below threshold "@ + t.threshold_text
                        + "% ("@ + t.before_text + "ms → "@ + t.after_text + "ms)"@,
                    Some(t.before),
                    Some(t.after),
                    Seq::empty(),
                ),
            )
        } else {
            None
        }
    }

    pub open spec fn measured(self, t: TrialView) -> (LoopView, TurnView) {
        match self.gate(t) {
            Some((reason, before, after, times)) => self.turned_down(reason, before, after, times),
            None => (
                LoopView { phase: Phase::Fetching, trial: Some(t), ..self },
                turn_of(Seq::empty(), Seq::empty(), TaskView::ReadCandidate),
            ),
        }
    }

    /// `x% improvement (a ms → b ms)`.
    pub open spec fn gain(t: TrialView) -> Seq<char> {
        t.percent_text + "% improvement ("@ + t.before_text + "ms → "@ + t.after_text + "ms)"@
    }

    pub open spec fn acceptance(self, t: TrialView, hash: Seq<char>) -> OutcomeView {
        OutcomeView {
            accepted: true,
            reason: "accepted: "@ + LoopView::gain(t),
            before_score: Some(t.before),
            after_score: Some(t.after),
            before_hash: self.before_hash,
            after_hash: Some(hash),
            target_strategy: self.target,
            proposal_name: self.proposal_name,
        }
    }

    pub open spec fn fetched(self, r: Result<Seq<u8>, Seq<char>>) -> (LoopView, TurnView) {
        let t = self.trial->Some_0;
        match r {
            Err(e) => {
                let reason = "cannot read candidate after graft: "@ + e;
                self.with_outcome(
                    self.rejection(reason, Some(t.before), Some(t.after)),
                    self.noting("ProposalRejected"@, self.rejection_fields(reason)),
                    Seq::empty(),
                    true,
                )
            },
            Ok(data) => {
                let hash = hex_text(sha256(data));
                if self.config.dry_run {
                    self.with_outcome(
                        self.acceptance(t, hash),
                        Seq::empty(),
                        seq![self.telling("WOULD_ACCEPT — "@ + LoopView::gain(t))],
                        true,
                    )
                } else {
                    (
                        LoopView { phase: Phase::Placing, after_hash: hash, ..self },
                        turn_of(Seq::empty(), Seq::empty(), TaskView::Place),
                    )
                }
            },
        }
    }

    pub open spec fn placed(self, data: Seq<u8>) -> (LoopView, TurnView) {
        let t = self.trial->Some_0;
        if hex_text(sha256(data)) != self.after_hash {
            self.failed("CRITICAL: promotion hash mismatch"@, false)
        } else {
            self.with_outcome(
                self.acceptance(t, self.after_hash),
                self.noting(
                    "ProposalAccepted"@,
                    seq![
                        ("iteration"@, self.iter_text()),
                        ("name"@, self.proposal_name),
                        ("target"@, dec_nat(self.target as nat)),
                        ("before_ms"@, t.before_text),
                        ("after_ms"@, t.after_text),
                        ("improvement"@, t.improvement_text),
                        ("hash_before"@, self.before_hash),
                        ("hash_after"@, self.after_hash),
                    ],
                ),
                seq![self.telling("accepted — "@ + LoopView::gain(t))],
                false,
            )
        }
    }

    /// The state and the turn after a report. One that does not fit the phase
    /// changes nothing.
    pub open spec fn hear(self, r: ReportView) -> (LoopView, TurnView) {
        match (self.phase, r) {
            (Phase::Locking, ReportView::Locked(ok)) => if ok {
                self.at_head(Seq::empty(), Seq::empty(), false)
            } else {
                self.failed(
                    "evolution lock exists: "@ + lock_name(self.paths)
                        + " — another evolution may be running"@,
                    false,
                )
            },
            (Phase::Clocking, ReportView::Millis(ms)) => self.clocked(ms),
            (Phase::Loading, ReportView::Loaded(d)) => self.loaded(d),
            (Phase::Diagnosing, ReportView::Diagnosed(n)) => self.diagnosed(n),
            (Phase::Proposing, ReportView::Proposed(p)) => self.proposed(p),
            (Phase::Parsing, ReportView::Parsed(p)) => self.parsed(p),
            (Phase::Snapping, ReportView::Snapshot(s)) => self.snapped(s),
            (Phase::Trying, ReportView::Unwritten(e)) => self.failed(
                "cannot write candidate: "@ + e,
                false,
            ),
            (Phase::Trying, ReportView::Failed(e)) => self.turned_down(
                "apply error: "@ + e,
                None,
                None,
                Seq::empty(),
            ),
            (Phase::Trying, ReportView::Measured(t)) => self.measured(t),
            (Phase::Fetching, ReportView::Candidate(c)) => self.fetched(c),
            (Phase::Placing, ReportView::NotPlaced(e)) => self.failed(
                "CRITICAL: cannot promote candidate: "@ + e,
                true,
            ),
            (Phase::Placing, ReportView::NotVerified(e)) => self.failed(
                "CRITICAL: cannot verify promotion: "@ + e,
                false,
            ),
            (Phase::Placing, ReportView::Placed(d)) => self.placed(d),
            _ => (self, turn_of(Seq::empty(), Seq::empty(), TaskView::Wait)),
        }
    }

    /// What every state keeps: the counts fit, every outcome is counted once,
    /// and what a phase needs is there.
    pub open spec fn wf(self) -> bool {
        let r = self.result;
        let inside = !(self.phase is Locking || self.phase is Clocking || self.phase is Over);
        let asked = self.phase is Parsing || self.phase is Snapping || self.phase is Trying
            || self.phase is Fetching || self.phase is Placing;
        &&& 0 <= r.proposals_accepted
        &&& 0 <= r.proposals_rejected
        &&& 0 <= self.iteration <= self.config.iterations
        &&& r.outcomes.len() == r.proposals_accepted + r.proposals_rejected
        &&& !(self.phase is Over) ==> {
            &&& r.proposals_received == r.outcomes.len() + (if asked {
                1int
            } else {
                0
            })
            &&& self.iteration == r.outcomes.len()
            &&& r.iterations_run == self.iteration + (if inside {
                1int
            } else {
                0
            })
            &&& inside || self.phase is Clocking ==> self.iteration < self.config.iterations
            &&& self.config.agent_command is Some || self.config.proposal_path is Some
        }
        &&& r.outcomes.len() <= r.proposals_received <= r.iterations_run <= self.config.iterations
        &&& self.phase is Fetching || self.phase is Placing ==> self.trial is Some
        &&& self.phase is Placing || self.phase is Snapping || self.phase is Locking
            ==> !self.config.dry_run
    }
}

pub open spec fn lock_name(paths: EvolvePaths) -> Seq<char> {
    if paths.is_capsule {
        paths.base@ + "/.evolve.lock"@
    } else {
        paths.base@ + ".evolve.lock"@
    }
}

/// Fields with their texts as sequences.
pub open spec fn field_texts(s: Seq<(String, String)>) -> Seq<(Seq<char>, Seq<char>)> {
    s.map_values(|f: (String, String)| (f.0@, f.1@))
}

pub open spec fn note_views(s: Seq<Note>) -> Seq<NoteView> {
    s.map_values(|n: Note| n.seen())
}

/// The times of a trial as fields.
pub open spec fn times_fields(times: Option<(String, String)>) -> Seq<(Seq<char>, Seq<char>)> {
    match times {
        Some(p) => seq![("before_ms"@, p.0@), ("after_ms"@, p.1@)],
        None => Seq::empty(),
    }
}

fn add_field(f: &mut Vec<(String, String)>, key: &str, value: &str)
    ensures
        field_texts(final(f)@) == field_texts(old(f)@).push((key@, value@)),
{
    let ghost before = f@;
    f.push((String::from_str(key), String::from_str(value)));
    assert(field_texts(f@) =~= field_texts(before).push((key@, value@)));
}

fn no_fields() -> (f: Vec<(String, String)>)
    ensures
        field_texts(f@) == Seq::<(Seq<char>, Seq<char>)>::empty(),
{
    let f: Vec<(String, String)> = Vec::new();
    assert(field_texts(f@) =~= Seq::<(Seq<char>, Seq<char>)>::empty());
    f
}

fn no_notes() -> (n: Vec<Note>)
    ensures
        note_views(n@) == Seq::<NoteView>::empty(),
{
    let n: Vec<Note> = Vec::new();
    assert(note_views(n@) =~= Seq::<NoteView>::empty());
    n
}

fn no_words() -> (w: Vec<String>)
    ensures
        texts(w@) == Seq::<Seq<char>>::empty(),
{
    let w: Vec<String> = Vec::new();
    assert(texts(w@) =~= Seq::<Seq<char>>::empty());
    w
}

fn one_word(s: String) -> (w: Vec<String>)
    ensures
        texts(w@) == seq![s@],
{
    let mut w: Vec<String> = Vec::new();
    w.push(s);
    assert(texts(w@) =~= seq![s@]);
    w
}

fn plain_turn(notes: Vec<Note>, task: Task) -> (t: Turn)
    ensures
        t.seen() == turn_of(note_views(notes@), Seq::empty(), task.seen()),
{
    Turn { notes, says: no_words(), remove_copy: false, unlock: false, task }
}

impl Evolution {
    /// A note, unless the run is dry.
    fn noting(&self, event: &'static str, fields: Vec<(String, String)>) -> (r: Vec<Note>)
        ensures
            note_views(r@) == self@.noting(event@, field_texts(fields@)),
    {
        let mut r: Vec<Note> = Vec::new();
        let ghost f = field_texts(fields@);
        if !self.config.dry_run {
            r.push(Note { event, fields });
        }
        assert(note_views(r@) =~= self@.noting(event@, f));
        r
    }

    fn iter_text(&self) -> (s: String)
        ensures
            s@ == self@.iter_text(),
    {
        u64_text(self.iteration as u64)
    }

    fn telling(&self, told: &str) -> (s: String)
        requires
            self.iteration < usize::MAX,
        ensures
            s@ == self@.telling(told@),
    {
        let n = u64_text((self.iteration + 1) as u64);
        cat4("iteration ", n.as_str(), ": ", told)
    }

    fn ended(&mut self, notes: Vec<Note>, says: Vec<String>, remove_copy: bool) -> (t: Turn)
        requires
            old(self)@.wf(),
        ensures
            (final(self)@, t.seen()) == old(self)@.ended(note_views(notes@), texts(says@), remove_copy),
            final(self)@.wf(),
    {
        let mut f = no_fields();
        add_field(&mut f, "iterations", u64_text(self.result.iterations_run as u64).as_str());
        add_field(&mut f, "accepted", u64_text(self.result.proposals_accepted as u64).as_str());
        add_field(&mut f, "rejected", u64_text(self.result.proposals_rejected as u64).as_str());
        proof {
            assert(field_texts(f@) =~= seq![
                ("iterations"@, dec_nat(self@.result.iterations_run as nat)),
                ("accepted"@, dec_nat(self@.result.proposals_accepted as nat)),
                ("rejected"@, dec_nat(self@.result.proposals_rejected as nat)),
            ]);
        }
        let ghost first = note_views(notes@);
        let mut all = notes;
        let mut last = self.noting("EvolutionCompleted", f);
        let ghost last_views = note_views(last@);
        all.append(&mut last);
        assert(note_views(all@) =~= first + last_views);
        let unlock = !self.config.dry_run;
        self.phase = Phase::Over;
        Turn { notes: all, says, remove_copy, unlock, task: Task::Done }
    }

    fn at_head(&mut self, notes: Vec<Note>, says: Vec<String>, remove_copy: bool) -> (t: Turn)
        requires
            (LoopView { phase: Phase::Clocking, ..old(self)@ }).wf() || (old(self)@.iteration
                == old(self)@.config.iterations && (LoopView {
                phase: Phase::Over,
                ..old(self)@
            }).wf()),
        ensures
            (final(self)@, t.seen()) == old(self)@.at_head(
                note_views(notes@),
                texts(says@),
                remove_copy,
            ),
            final(self)@.wf(),
    {
        if self.iteration < self.config.iterations {
            self.phase = Phase::Clocking;
            Turn { notes, says, remove_copy, unlock: false, task: Task::Clock }
        } else {
            self.phase = Phase::Over;
            self.ended(notes, says, remove_copy)
        }
    }

    fn with_outcome(
        &mut self,
        o: EvolutionOutcome,
        notes: Vec<Note>,
        says: Vec<String>,
        remove_copy: bool,
    ) -> (t: Turn)
        requires
            old(self)@.wf(),
            old(self)@.phase is Parsing || old(self)@.phase is Trying || old(self)@.phase is Fetching
                || old(self)@.phase is Placing,
        ensures
            (final(self)@, t.seen()) == old(self)@.with_outcome(
                o.seen(),
                note_views(notes@),
                texts(says@),
                remove_copy,
            ),
            final(self)@.wf(),
    {
        let ghost before = self@;
        let ghost kept = self.result.outcomes@;
        let ghost shown = o.seen();
        if o.accepted {
            self.result.proposals_accepted = self.result.proposals_accepted + 1;
        } else {
            self.result.proposals_rejected = self.result.proposals_rejected + 1;
        }
        self.result.outcomes.push(o);
        self.iteration = self.iteration + 1;
        proof {
            assert(self.result.seen().outcomes =~= before.result.outcomes.push(shown));
        }
        self.at_head(notes, says, remove_copy)
    }

    fn failed(&mut self, e: String, remove_copy: bool) -> (t: Turn)
        requires
            old(self)@.wf(),
        ensures
            (final(self)@, t.seen()) == old(self)@.failed(e@, remove_copy),
            final(self)@.wf(),
    {
        self.phase = Phase::Over;
        Turn { notes: no_notes(), says: no_words(), remove_copy, unlock: false, task: Task::Fail(e) }
    }

    fn clocked(&mut self, ms: u64) -> (t: Turn)
        requires
            old(self)@.wf(),
            old(self)@.phase is Clocking,
        ensures
            (final(self)@, t.seen()) == old(self)@.clocked(ms),
            final(self)@.wf(),
    {
        if ms > self.config.budget_ms {
            let told = cat5(
                "budget of ",
                u64_text(self.config.budget_ms).as_str(),
                "ms expired after ",
                self.iter_text().as_str(),
                " iterations",
            );
            self.ended(no_notes(), one_word(told), false)
        } else {
            self.result.iterations_run = self.result.iterations_run + 1;
            self.phase = Phase::Loading;
            let path = self.paths.lyc_path.clone();
            plain_turn(no_notes(), Task::Load(path))
        }
    }

    fn loaded(&mut self, r: Result<Vec<u8>, String>) -> (t: Turn)
        requires
            old(self)@.wf(),
            old(self)@.phase is Loading,
        ensures
            (final(self)@, t.seen()) == old(self)@.loaded(
                match r {
                    Ok(d) => Ok(d@),
                    Err(e) => Err(e@),
                },
            ),
            final(self)@.wf(),
    {
        match r {
            Err(e) => {
                let told = cat4("cannot read ", self.paths.lyc_path.as_str(), ": ", e.as_str());
                self.failed(told, false)
            },
            Ok(data) => match NeuralGraph::from_bytes(data.as_slice()) {
                Err(e) => self.failed(e, false),
                Ok(g) => {
                    let hash = sha256_hex(data.as_slice());
                    let mut f = no_fields();
                    add_field(&mut f, "iteration", self.iter_text().as_str());
                    add_field(&mut f, "hash_before", hash.as_str());
                    assert(field_texts(f@) =~= seq![
                        ("iteration"@, self@.iter_text()),
                        ("hash_before"@, hash@),
                    ]);
                    let notes = self.noting("EvolutionStarted", f);
                    self.before_hash = hash;
                    self.phase = Phase::Diagnosing;
                    plain_turn(notes, Task::Diagnose(g))
                },
            },
        }
    }

    fn diagnosed(&mut self, n: usize) -> (t: Turn)
        requires
            old(self)@.wf(),
            old(self)@.phase is Diagnosing,
        ensures
            (final(self)@, t.seen()) == old(self)@.diagnosed(n as int),
            final(self)@.wf(),
    {
        let mut f = no_fields();
        add_field(&mut f, "iteration", self.iter_text().as_str());
        if n == 0 && self.config.proposal_path.is_none() {
            add_field(&mut f, "reason", "no_weaknesses");
            assert(field_texts(f@) =~= seq![
                ("iteration"@, self@.iter_text()),
                ("reason"@, "no_weaknesses"@),
            ]);
            let notes = self.noting("EvolutionCompleted", f);
            let told = self.telling("no weaknesses detected — stopping");
            return self.ended(notes, one_word(told), false);
        }
        add_field(&mut f, "weaknesses", u64_text(n as u64).as_str());
        assert(field_texts(f@) =~= seq![
            ("iteration"@, self@.iter_text()),
            ("weaknesses"@, dec_nat(n as nat)),
        ]);
        let notes = self.noting("BriefGenerated", f);
        let task = match &self.config.proposal_path {
            Some(p) => Task::ReadProposal(p.clone()),
            None => match &self.config.agent_command {
                Some(c) => Task::AskAgent(c.clone()),
                None => Task::Wait,
            },
        };
        self.phase = Phase::Proposing;
        plain_turn(notes, task)
    }

    fn proposed(&mut self, r: Result<String, String>) -> (t: Turn)
        requires
            old(self)@.wf(),
            old(self)@.phase is Proposing,
        ensures
            (final(self)@, t.seen()) == old(self)@.proposed(
                match r {
                    Ok(d) => Ok(d@),
                    Err(e) => Err(e@),
                },
            ),
            final(self)@.wf(),
    {
        match r {
            Err(e) => {
                let told = match &self.config.proposal_path {
                    Some(p) => cat4("cannot read proposal ", p.as_str(), ": ", e.as_str()),
                    None => e,
                };
                self.failed(told, false)
            },
            Ok(text) => {
                self.result.proposals_received = self.result.proposals_received + 1;
                self.phase = Phase::Parsing;
                plain_turn(no_notes(), Task::Parse(text))
            },
        }
    }

    fn parsed(&mut self, r: Result<(String, u32), String>) -> (t: Turn)
        requires
            old(self)@.wf(),
            old(self)@.phase is Parsing,
        ensures
            (final(self)@, t.seen()) == old(self)@.parsed(
                match r {
                    Ok((n, g)) => Ok((n@, g)),
                    Err(e) => Err(e@),
                },
            ),
            final(self)@.wf(),
    {
        let mut f = no_fields();
        add_field(&mut f, "iteration", self.iter_text().as_str());
        match r {
            Err(e) => {
                let reason = cat2("invalid proposal JSON: ", e.as_str());
                add_field(&mut f, "reason", reason.as_str());
                add_field(&mut f, "hash_before", self.before_hash.as_str());
                assert(field_texts(f@) =~= seq![
                    ("iteration"@, self@.iter_text()),
                    ("reason"@, reason@),
                    ("hash_before"@, self@.before_hash),
                ]);
                let notes = self.noting("ProposalRejected", f);
                let told = self.telling(cat2("rejected — ", reason.as_str()).as_str());
                let o = EvolutionOutcome {
                    accepted: false,
                    reason,
                    before_score: None,
                    after_score: None,
                    before_hash: self.before_hash.clone(),
                    after_hash: None,
                    target_strategy: 0,
                    proposal_name: String::new(),
                };
                self.with_outcome(o, notes, one_word(told), false)
            },
            Ok((name, target)) => {
                add_field(&mut f, "name", name.as_str());
                add_field(&mut f, "target", u64_text(target as u64).as_str());
                assert(field_texts(f@) =~= seq![
                    ("iteration"@, self@.iter_text()),
                    ("name"@, name@),
                    ("target"@, dec_nat(target as nat)),
                ]);
                let notes = self.noting("ProposalReceived", f);
                self.proposal_name = name;
                self.target = target;
                if self.config.dry_run {
                    self.phase = Phase::Trying;
                    plain_turn(notes, Task::Try)
                } else {
                    self.phase = Phase::Snapping;
                    plain_turn(notes, Task::Snapshot)
                }
            },
        }
    }

    fn rejection(&self, reason: String, before: Option<Real>, after: Option<Real>) -> (o:
        EvolutionOutcome)
        ensures
            o.seen() == self@.rejection(reason@, before, after),
    {
        EvolutionOutcome {
            accepted: false,
            reason,
            before_score: before,
            after_score: after,
            before_hash: self.before_hash.clone(),
            after_hash: None,
            target_strategy: self.target,
            proposal_name: self.proposal_name.clone(),
        }
    }

    fn rejection_fields(&self, reason: &str) -> (f: Vec<(String, String)>)
        ensures
            field_texts(f@) == self@.rejection_fields(reason@),
    {
        let mut f = no_fields();
        add_field(&mut f, "iteration", self.iter_text().as_str());
        add_field(&mut f, "name", self.proposal_name.as_str());
        add_field(&mut f, "reason", reason);
        assert(field_texts(f@) =~= self@.rejection_fields(reason@));
        f
    }

    fn turned_down(
        &mut self,
        reason: String,
        before: Option<Real>,
        after: Option<Real>,
        times: Option<(String, String)>,
    ) -> (t: Turn)
        requires
            old(self)@.wf(),
            old(self)@.phase is Trying,
        ensures
            (final(self)@, t.seen()) == old(self)@.turned_down(
                reason@,
                before,
                after,
                times_fields(times),
            ),
            final(self)@.wf(),
    {
        let mut f = self.rejection_fields(reason.as_str());
        let ghost head = field_texts(f@);
        let ghost mid = times_fields(times);
        if let Some(p) = &times {
            add_field(&mut f, "before_ms", p.0.as_str());
            add_field(&mut f, "after_ms", p.1.as_str());
        }
        assert(field_texts(f@) =~= head + mid);
        add_field(&mut f, "hash_before", self.before_hash.as_str());
        let notes = self.noting("ProposalRejected", f);
        let tag = if self.config.dry_run {
            "WOULD_REJECT"
        } else {
            "rejected"
        };
        let told = self.telling(cat3(tag, " — ", reason.as_str()).as_str());
        let o = self.rejection(reason, before, after);
        self.with_outcome(o, notes, one_word(told), true)
    }

    fn measured(&mut self, t: Trial) -> (r: Turn)
        requires
            old(self)@.wf(),
            old(self)@.phase is Trying,
        ensures
            (final(self)@, r.seen()) == old(self)@.measured(t.seen()),
            final(self)@.wf(),
    {
        let zero = Real::zero();
        if !t.accepted {
            return self.turned_down(
                t.reason,
                Some(t.before),
                Some(t.after),
                Some((t.before_text, t.after_text)),
            );
        }
        if t.before.le(zero) || (Real { bits: GREATEST }).le(t.before) {
            let reason = String::from_str(
                "no_baseline: cannot measure current strategy performance",
            );
            return self.turned_down(reason, None, Some(t.after), None);
        }
        if t.after.le(zero) {
            let reason = String::from_str(
                "no_candidate_score: cannot measure candidate performance",
            );
            return self.turned_down(reason, Some(t.before), None, None);
        }
        if zero.lt(self.config.min_improvement) && t.improvement.lt(self.config.min_improvement) {
            let mut reason = cat5(
                "improvement ",
                t.percent_text.as_str(),
                "% below threshold ",
                t.threshold_text.as_str(),
                "% (",
            );
            reason.append(t.before_text.as_str());
            reason.append("ms → ");
            reason.append(t.after_text.as_str());
            reason.append("ms)");
            return self.turned_down(reason, Some(t.before), Some(t.after), None);
        }
        self.trial = Some(t);
        self.phase = Phase::Fetching;
        plain_turn(no_notes(), Task::ReadCandidate)
    }

    fn gain(t: &Trial) -> (s: String)
        ensures
            s@ == LoopView::gain(t.seen()),
    {
        let mut s = cat4(
            t.percent_text.as_str(),
            "% improvement (",
            t.before_text.as_str(),
            "ms → ",
        );
        s.append(t.after_text.as_str());
        s.append("ms)");
        s
    }

    fn acceptance(&self, t: &Trial, hash: String) -> (o: EvolutionOutcome)
        ensures
            o.seen() == self@.acceptance(t.seen(), hash@),
    {
        EvolutionOutcome {
            accepted: true,
            reason: cat2("accepted: ", Evolution::gain(t).as_str()),
            before_score: Some(t.before),
            after_score: Some(t.after),
            before_hash: self.before_hash.clone(),
            after_hash: Some(hash),
            target_strategy: self.target,
            proposal_name: self.proposal_name.clone(),
        }
    }

    fn fetched(&mut self, r: Result<Vec<u8>, String>) -> (turn: Turn)
        requires
            old(self)@.wf(),
            old(self)@.phase is Fetching,
        ensures
            (final(self)@, turn.seen()) == old(self)@.fetched(
                match r {
                    Ok(d) => Ok(d@),
                    Err(e) => Err(e@),
                },
            ),
            final(self)@.wf(),
    {
        match r {
            Err(e) => {
                let reason = cat2("cannot read candidate after graft: ", e.as_str());
                let f = self.rejection_fields(reason.as_str());
                let notes = self.noting("ProposalRejected", f);
                let (before, after) = match &self.trial {
                    Some(t) => (Some(t.before), Some(t.after)),
                    None => (None, None),
                };
                let o = self.rejection(reason, before, after);
                self.with_outcome(o, notes, no_words(), true)
            },
            Ok(data) => {
                let hash = sha256_hex(data.as_slice());
                if self.config.dry_run {
                    match &self.trial {
                        Some(t) => {
                            let told = self.telling(
                                cat2("WOULD_ACCEPT — ", Evolution::gain(t).as_str()).as_str(),
                            );
                            let o = self.acceptance(t, hash);
                            self.with_outcome(o, no_notes(), one_word(told), true)
                        },
                        None => plain_turn(no_notes(), Task::Wait),
                    }
                } else {
                    self.after_hash = hash;
                    self.phase = Phase::Placing;
                    plain_turn(no_notes(), Task::Place)
                }
            },
        }
    }

    fn placed(&mut self, data: Vec<u8>) -> (turn: Turn)
        requires
            old(self)@.wf(),
            old(self)@.phase is Placing,
        ensures
            (final(self)@, turn.seen()) == old(self)@.placed(data@),
            final(self)@.wf(),
    {
        let there = sha256_hex(data.as_slice());
        if !same(there.as_str(), self.after_hash.as_str()) {
            return self.failed(String::from_str("CRITICAL: promotion hash mismatch"), false);
        }
        match &self.trial {
            Some(t) => {
                let mut f = no_fields();
                add_field(&mut f, "iteration", self.iter_text().as_str());
                add_field(&mut f, "name", self.proposal_name.as_str());
                add_field(&mut f, "target", u64_text(self.target as u64).as_str());
                add_field(&mut f, "before_ms", t.before_text.as_str());
                add_field(&mut f, "after_ms", t.after_text.as_str());
                add_field(&mut f, "improvement", t.improvement_text.as_str());
                add_field(&mut f, "hash_before", self.before_hash.as_str());
                add_field(&mut f, "hash_after", self.after_hash.as_str());
                assert(field_texts(f@) =~= seq![
                    ("iteration"@, self@.iter_text()),
                    ("name"@, self@.proposal_name),
                    ("target"@, dec_nat(self@.target as nat)),
                    ("before_ms"@, t.before_text@),
                    ("after_ms"@, t.after_text@),
                    ("improvement"@, t.improvement_text@),
                    ("hash_before"@, self@.before_hash),
                    ("hash_after"@, self@.after_hash),
                ]);
                let notes = self.noting("ProposalAccepted", f);
                let told = self.telling(cat2("accepted — ", Evolution::gain(t).as_str()).as_str());
                let hash = self.after_hash.clone();
                let o = self.acceptance(t, hash);
                self.with_outcome(o, notes, one_word(told), false)
            },
            None => plain_turn(no_notes(), Task::Wait),
        }
    }

    /// Takes a report of the host and answers with a turn. A report that does
    /// not fit what the loop waits for changes nothing.
    pub fn hear(&mut self, report: Report) -> (t: Turn)
        requires
            old(self)@.wf(),
        ensures
            (final(self)@, t.seen()) == old(self)@.hear(report.seen()),
            final(self)@.wf(),
    {
        match (self.phase, report) {
            (Phase::Locking, Report::Locked(ok)) => if ok {
                self.at_head(no_notes(), no_words(), false)
            } else {
                let told = cat3(
                    "evolution lock exists: ",
                    self.paths.lock_path().as_str(),
                    " — another evolution may be running",
                );
                self.failed(told, false)
            },
            (Phase::Clocking, Report::Millis(ms)) => self.clocked(ms),
            (Phase::Loading, Report::Loaded(d)) => self.loaded(d),
            (Phase::Diagnosing, Report::Diagnosed(n)) => self.diagnosed(n),
            (Phase::Proposing, Report::Proposed(p)) => self.proposed(p),
            (Phase::Parsing, Report::Parsed(p)) => self.parsed(p),
            (Phase::Snapping, Report::Snapshot(s)) => match s {
                Err(e) => self.failed(e, false),
                Ok(_) => {
                    self.phase = Phase::Trying;
                    plain_turn(no_notes(), Task::Try)
                },
            },
            (Phase::Trying, Report::Tried(Tried::Unwritten(e))) => {
                let told = cat2("cannot write candidate: ", e.as_str());
                self.failed(told, false)
            },
            (Phase::Trying, Report::Tried(Tried::Failed(e))) => {
                let told = cat2("apply error: ", e.as_str());
                self.turned_down(told, None, None, None)
            },
            (Phase::Trying, Report::Tried(Tried::Measured(t))) => self.measured(t),
            (Phase::Fetching, Report::Candidate(c)) => self.fetched(c),
            (Phase::Placing, Report::Placed(Placed::Unwritten(e))) => {
                let told = cat2("CRITICAL: cannot promote candidate: ", e.as_str());
                self.failed(told, true)
            },
            (Phase::Placing, Report::Placed(Placed::Unread(e))) => {
                let told = cat2("CRITICAL: cannot verify promotion: ", e.as_str());
                self.failed(told, false)
            },
            (Phase::Placing, Report::Placed(Placed::Bytes(d))) => self.placed(d),
            _ => plain_turn(no_notes(), Task::Wait),
        }
    }
}

/// The state before anything has happened.
pub open spec fn fresh_loop(config: EvolutionConfig, paths: EvolvePaths, phase: Phase) -> LoopView {
    LoopView {
        config,
        paths,
        result: ResultView {
            iterations_run: 0,
            proposals_received: 0,
            proposals_accepted: 0,
            proposals_rejected: 0,
            outcomes: Seq::empty(),
        },
        iteration: 0,
        phase,
        before_hash: Seq::empty(),
        proposal_name: Seq::empty(),
        target: 0,
        trial: None,
        after_hash: Seq::empty(),
    }
}

/// How a run begins: without an agent and a proposal only a brief is printed;
/// else the program is locked, unless the run is dry.
pub open spec fn begun(config: EvolutionConfig, paths: EvolvePaths) -> (LoopView, TurnView) {
    if config.agent_command is None && config.proposal_path is None {
        (
            fresh_loop(config, paths, Phase::Over),
            turn_of(Seq::empty(), Seq::empty(), TaskView::BriefOnly),
        )
    } else if config.dry_run {
        fresh_loop(config, paths, Phase::Clocking).at_head(Seq::empty(), Seq::empty(), false)
    } else {
        (
            fresh_loop(config, paths, Phase::Locking),
            turn_of(Seq::empty(), Seq::empty(), TaskView::Lock(lock_name(paths))),
        )
    }
}

/// Begins a run of the loop.
pub fn run_evolution(config: EvolutionConfig, paths: EvolvePaths) -> (r: (Evolution, Turn))
    ensures
        (r.0@, r.1.seen()) == begun(config, paths),
        r.0@.wf(),
{
    let alone = config.agent_command.is_none() && config.proposal_path.is_none();
    let dry = config.dry_run;
    let outcomes: Vec<EvolutionOutcome> = Vec::new();
    let result = EvolutionResult {
        iterations_run: 0,
        proposals_received: 0,
        proposals_accepted: 0,
        proposals_rejected: 0,
        outcomes,
    };
    let mut e = Evolution {
        config,
        paths,
        result,
        iteration: 0,
        phase: if alone {
            Phase::Over
        } else if dry {
            Phase::Clocking
        } else {
            Phase::Locking
        },
        before_hash: String::new(),
        proposal_name: String::new(),
        target: 0,
        trial: None,
        after_hash: String::new(),
    };
    assert(e.result.seen().outcomes =~= Seq::<OutcomeView>::empty());
    if alone {
        return (e, plain_turn(no_notes(), Task::BriefOnly));
    }
    if dry {
        let t = e.at_head(no_notes(), no_words(), false);
        return (e, t);
    }
    let lock = e.paths.lock_path();
    (e, plain_turn(no_notes(), Task::Lock(lock)))
}

/// The numbers of the finished run add up: every accepted or rejected proposal
/// is one that was received, and no more are received than iterations begun.
pub proof fn counts_add_up(v: LoopView)
    requires
        v.wf(),
    ensures
        v.result.proposals_accepted + v.result.proposals_rejected == v.result.outcomes.len(),
        v.result.outcomes.len() <= v.result.proposals_received,
        v.result.proposals_received <= v.result.iterations_run,
        v.result.iterations_run <= v.config.iterations,
{
}

/// Whatever the host reports, a state that is well formed stays so.
pub proof fn reports_keep_the_state_whole(v: LoopView, r: ReportView)
    requires
        v.wf(),
    ensures
        v.hear(r).0.wf(),
        v.hear(r).0.config == v.config,
        v.hear(r).0.paths == v.paths,
{
}

/// A dry run changes nothing: it neither notes, locks, snapshots nor puts a copy
/// in place.
pub proof fn dry_runs_change_nothing(v: LoopView, r: ReportView)
    requires
        v.wf(),
        v.config.dry_run,
    ensures
        v.hear(r).1.notes.len() == 0,
        !v.hear(r).1.unlock,
        !(v.hear(r).1.task is Lock),
        !(v.hear(r).1.task is Snapshot),
        !(v.hear(r).1.task is Place),
{
}

/// A trial that went well enough: it was accepted, both times are known, and the
/// threshold, where there is one, is met.
pub open spec fn worth_placing(min_improvement: Real, t: TrialView) -> bool {
    let zero = Real { bits: 0 };
    &&& t.accepted
    &&& !t.before.at_most(zero)
    &&& !(Real { bits: GREATEST }).at_most(t.before)
    &&& !t.after.at_most(zero)
    &&& !(zero.below(min_improvement) && t.improvement.below(min_improvement))
}

/// The trial that is kept passed every gate.
pub open spec fn trial_passed(v: LoopView) -> bool {
    v.phase is Fetching || v.phase is Placing ==> v.trial is Some && worth_placing(
        v.config.min_improvement,
        v.trial->Some_0,
    )
}

/// Only what passed every gate is put in place or counted as accepted, and the
/// program itself is never touched before that.
pub proof fn only_winners_are_placed(v: LoopView, r: ReportView)
    requires
        v.wf(),
        trial_passed(v),
    ensures
        trial_passed(v.hear(r).0),
        v.hear(r).1.task is Place ==> worth_placing(
            v.config.min_improvement,
            v.hear(r).0.trial->Some_0,
        ),
        v.hear(r).0.result.proposals_accepted > v.result.proposals_accepted ==> worth_placing(
            v.config.min_improvement,
            v.trial->Some_0,
        ),
{
}

/// A run is never said to have placed a copy that differs from the one tried: an
/// acceptance outside a dry run has the digest of what then stands there.
pub proof fn acceptance_is_verified(v: LoopView, r: ReportView)
    requires
        v.wf(),
        !v.config.dry_run,
        v.hear(r).0.result.proposals_accepted > v.result.proposals_accepted,
    ensures
        r is Placed,
        hex_text(sha256(r->Placed_0)) == v.after_hash,
        v.hear(r).0.result.outcomes.last().after_hash == Some(v.after_hash),
{
}

} // verus!
