//! The neural graph: the program as nodes, weighted edges, strings and state,
//! and its binary form.
use crate::bytes::{cat_assoc, copy_range, le32, le64, lenient_u32, lenient_u64, lenient_u8, read_i64, read_u32, read_u64, read_u8, write_bytes, write_i64, write_u32, write_u64};
use crate::number::Real;
use crate::text::{dec, dec_nat, hex_byte_upper, labelled, labelled_hex, lossy, lossy_text, push_u64};
use vstd::prelude::*;
use vstd::string::StringExecFns;
use vstd::utf8::*;

verus! {

/// What a node computes.
#[derive(Clone, Copy, Debug, PartialEq, Eq, Structural)]
pub enum OpCode {
    ConstInt,
    ConstFloat,
    ConstStr,
    ConstBool,
    ConstNull,
    LoadVar,
    StoreVar,
    Add,
    Sub,
    Mul,
    Div,
    Mod,
    Neg,
    Eq,
    Neq,
    Lt,
    Gt,
    Lte,
    Gte,
    And,
    Or,
    Not,
    Branch,
    Merge,
    Loop,
    Sequence,
    ForEach,
    Repeat,
    AdaptiveChoice,
    Guard,
    Define,
    Call,
    Return,
    Lambda,
    Array,
    Index,
    Range,
    Length,
    Chars,
    Print,
    ReadLine,
    ParseNum,
    Split,
    ToString,
    Sin,
    Cos,
    Abs,
    Floor,
    Round,
    Sqrt,
    Ln,
    Exp,
    Atan2,
    Adapt,
    Weight,
    Predict,
    Feedback,
    Spawn,
    Prune,
    Strategy,
    Pipe,
    Filter,
    MapEach,
    Reduce,
    Capability,
    Noop,
    Halt,
}

/// Correctness contract of a strategy node.
#[derive(Clone, Copy, Debug, PartialEq, Eq, Structural)]
pub enum Contract {
    /// Any output is accepted.
    Unchecked,
    /// All options must give the same output.
    SameOutput,
    /// The output must satisfy a validator.
    Validated,
    /// Numeric results must agree within a tolerance, which stands in the
    /// last weight slot.
    WithinTolerance,
}

/// What a node's weights mean.
#[derive(Clone, Copy, Debug, PartialEq, Eq, Structural)]
pub enum WeightKind {
    /// They record hot paths; the condition decides.
    Observational,
    /// They decide.
    Adaptive,
    /// They record likely runtime types.
    TypeHint,
    /// They choose between strategy alternatives.
    Strategy,
    /// They hold decision confidence.
    Decision,
}

/// What a decision optimises for.
#[derive(Clone, Copy, Debug, PartialEq, Eq, Structural)]
pub enum Objective {
    General,
    Speed,
    Accuracy,
    Reliability,
    Cost,
    Risk,
    Confidence,
    Reward,
    MultiObjective,
}

/// The kinds of change that the journal records.
#[derive(Clone, Copy, Debug, PartialEq, Eq, Structural)]
pub enum MutationKind {
    WeightUpdate,
    TypeSpecialized,
    ConstantFolded,
    PathPruned,
    GuardInserted,
    NodeSpawned,
    FeedbackReceived,
    EvolutionStarted,
    ProposalAccepted,
    ProposalRejected,
    EvolutionCompleted,
}

/// An inline constant.
#[derive(Clone, Copy, Debug, PartialEq, Eq, Structural)]
pub enum ImmValue {
    Int(i64),
    Float(Real),
    Bool(bool),
    Null,
}

/// What a node takes as input.
#[derive(Clone, Copy, Debug, PartialEq, Eq, Structural)]
pub enum Operand {
    NodeRef(u32),
    Immediate(ImmValue),
    StateRef(u32),
    StringRef(u32),
    VarSlot(u32),
}

/// A journal entry: what changed, in which run, and why.
#[derive(Clone, Copy, Debug, PartialEq, Eq, Structural)]
pub struct JournalEntry {
    pub run_number: u64,
    pub node_id: u32,
    pub mutation: MutationKind,
    /// Index into the string table.
    pub reason: u32,
}

/// A weighted connection between nodes.
#[derive(Clone, Copy, Debug, PartialEq, Eq, Structural)]
pub struct Edge {
    pub from: u32,
    pub to: u32,
    pub weight: Real,
    pub gate: Option<u32>,
}

#[derive(Clone, Copy, Debug, PartialEq, Eq, Structural)]
pub struct GraphHeader {
    pub version: u8,
    pub node_count: u32,
    pub edge_count: u32,
    pub state_size: u32,
    pub string_count: u32,
    pub flags: u32,
}

/// A computation node.
#[derive(Clone, Debug)]
pub struct GraphNode {
    pub id: u32,
    pub op: OpCode,
    pub operands: Vec<Operand>,
    pub weights: Vec<Real>,
    /// Type specialisation hint, or the option a decision chose last.
    pub bias: Real,
    pub activation_count: u64,
    pub state_slot: Option<u32>,
    pub weight_kind: WeightKind,
    /// Index into the string table.
    pub annotation: Option<u32>,
    pub contract: Contract,
    pub objective: Objective,
}

/// A node with its lists as sequences.
#[verifier::ext_equal]
pub struct NodeView {
    pub id: u32,
    pub op: OpCode,
    pub operands: Seq<Operand>,
    pub weights: Seq<Real>,
    pub bias: Real,
    pub activation_count: u64,
    pub state_slot: Option<u32>,
    pub weight_kind: WeightKind,
    pub annotation: Option<u32>,
    pub contract: Contract,
    pub objective: Objective,
}

impl View for GraphNode {
    type V = NodeView;

    open spec fn view(&self) -> NodeView {
        NodeView {
            id: self.id,
            op: self.op,
            operands: self.operands@,
            weights: self.weights@,
            bias: self.bias,
            activation_count: self.activation_count,
            state_slot: self.state_slot,
            weight_kind: self.weight_kind,
            annotation: self.annotation,
            contract: self.contract,
            objective: self.objective,
        }
    }
}

/// A program: its graph, its strings and its learned state.
#[derive(Clone, Debug)]
pub struct NeuralGraph {
    pub header: GraphHeader,
    pub nodes: Vec<GraphNode>,
    pub edges: Vec<Edge>,
    pub string_table: Vec<Vec<u8>>,
    pub state: Vec<Real>,
    pub entry: u32,
    pub journal: Vec<JournalEntry>,
}

/// A graph with its lists as sequences.
#[verifier::ext_equal]
pub struct GraphView {
    pub header: GraphHeader,
    pub nodes: Seq<NodeView>,
    pub edges: Seq<Edge>,
    pub string_table: Seq<Seq<u8>>,
    pub state: Seq<Real>,
    pub entry: u32,
    pub journal: Seq<JournalEntry>,
}

pub open spec fn node_views(nodes: Seq<GraphNode>) -> Seq<NodeView> {
    nodes.map_values(|n: GraphNode| n@)
}

pub open spec fn string_views(table: Seq<Vec<u8>>) -> Seq<Seq<u8>> {
    table.map_values(|s: Vec<u8>| s@)
}

impl View for NeuralGraph {
    type V = GraphView;

    open spec fn view(&self) -> GraphView {
        GraphView {
            header: self.header,
            nodes: node_views(self.nodes@),
            edges: self.edges@,
            string_table: string_views(self.string_table@),
            state: self.state@,
            entry: self.entry,
            journal: self.journal@,
        }
    }
}

pub const FORMAT_VERSION: u8 = 5;

/// The four bytes that every graph file starts with.
pub open spec fn magic() -> Seq<u8> {
    seq![0x4Cu8, 0x59u8, 0x43u8, 0x4Eu8]
}

// ---- Codes ----

/// The byte that stands for an operation.
pub open spec fn op_code(op: OpCode) -> u8 {
    match op {
        OpCode::ConstInt => 0x01,
        OpCode::ConstFloat => 0x02,
        OpCode::ConstStr => 0x03,
        OpCode::ConstBool => 0x04,
        OpCode::ConstNull => 0x05,
        OpCode::LoadVar => 0x06,
        OpCode::StoreVar => 0x07,
        OpCode::Add => 0x10,
        OpCode::Sub => 0x11,
        OpCode::Mul => 0x12,
        OpCode::Div => 0x13,
        OpCode::Mod => 0x14,
        OpCode::Neg => 0x15,
        OpCode::Eq => 0x20,
        OpCode::Neq => 0x21,
        OpCode::Lt => 0x22,
        OpCode::Gt => 0x23,
        OpCode::Lte => 0x24,
        OpCode::Gte => 0x25,
        OpCode::And => 0x30,
        OpCode::Or => 0x31,
        OpCode::Not => 0x32,
        OpCode::Branch => 0x40,
        OpCode::Merge => 0x41,
        OpCode::Loop => 0x42,
        OpCode::Sequence => 0x43,
        OpCode::ForEach => 0x46,
        OpCode::Repeat => 0x47,
        OpCode::AdaptiveChoice => 0x44,
        OpCode::Guard => 0x45,
        OpCode::Define => 0x50,
        OpCode::Call => 0x51,
        OpCode::Return => 0x52,
        OpCode::Lambda => 0x53,
        OpCode::Array => 0x60,
        OpCode::Index => 0x61,
        OpCode::Range => 0x62,
        OpCode::Length => 0x63,
        OpCode::Chars => 0x64,
        OpCode::Print => 0x70,
        OpCode::ReadLine => 0x71,
        OpCode::ParseNum => 0x72,
        OpCode::Split => 0x73,
        OpCode::ToString => 0x74,
        OpCode::Sin => 0x75,
        OpCode::Cos => 0x76,
        OpCode::Abs => 0x77,
        OpCode::Floor => 0x78,
        OpCode::Round => 0x79,
        OpCode::Sqrt => 0x7A,
        OpCode::Ln => 0x7B,
        OpCode::Exp => 0x7C,
        OpCode::Atan2 => 0x7D,
        OpCode::Adapt => 0x80,
        OpCode::Weight => 0x81,
        OpCode::Predict => 0x82,
        OpCode::Feedback => 0x83,
        OpCode::Spawn => 0x84,
        OpCode::Prune => 0x85,
        OpCode::Strategy => 0x86,
        OpCode::Pipe => 0x90,
        OpCode::Filter => 0x91,
        OpCode::MapEach => 0x92,
        OpCode::Reduce => 0x93,
        OpCode::Capability => 0xA0,
        OpCode::Noop => 0xFE,
        OpCode::Halt => 0xFF,
    }
}

/// The operation that a byte stands for, if it stands for one.
pub open spec fn op_of(b: u8) -> Option<OpCode> {
    if b == 0x01 {
        Some(OpCode::ConstInt)
    } else if b == 0x02 {
        Some(OpCode::ConstFloat)
    } else if b == 0x03 {
        Some(OpCode::ConstStr)
    } else if b == 0x04 {
        Some(OpCode::ConstBool)
    } else if b == 0x05 {
        Some(OpCode::ConstNull)
    } else if b == 0x06 {
        Some(OpCode::LoadVar)
    } else if b == 0x07 {
        Some(OpCode::StoreVar)
    } else if b == 0x10 {
        Some(OpCode::Add)
    } else if b == 0x11 {
        Some(OpCode::Sub)
    } else if b == 0x12 {
        Some(OpCode::Mul)
    } else if b == 0x13 {
        Some(OpCode::Div)
    } else if b == 0x14 {
        Some(OpCode::Mod)
    } else if b == 0x15 {
        Some(OpCode::Neg)
    } else if b == 0x20 {
        Some(OpCode::Eq)
    } else if b == 0x21 {
        Some(OpCode::Neq)
    } else if b == 0x22 {
        Some(OpCode::Lt)
    } else if b == 0x23 {
        Some(OpCode::Gt)
    } else if b == 0x24 {
        Some(OpCode::Lte)
    } else if b == 0x25 {
        Some(OpCode::Gte)
    } else if b == 0x30 {
        Some(OpCode::And)
    } else if b == 0x31 {
        Some(OpCode::Or)
    } else if b == 0x32 {
        Some(OpCode::Not)
    } else if b == 0x40 {
        Some(OpCode::Branch)
    } else if b == 0x41 {
        Some(OpCode::Merge)
    } else if b == 0x42 {
        Some(OpCode::Loop)
    } else if b == 0x43 {
        Some(OpCode::Sequence)
    } else if b == 0x46 {
        Some(OpCode::ForEach)
    } else if b == 0x47 {
        Some(OpCode::Repeat)
    } else if b == 0x44 {
        Some(OpCode::AdaptiveChoice)
    } else if b == 0x45 {
        Some(OpCode::Guard)
    } else if b == 0x50 {
        Some(OpCode::Define)
    } else if b == 0x51 {
        Some(OpCode::Call)
    } else if b == 0x52 {
        Some(OpCode::Return)
    } else if b == 0x53 {
        Some(OpCode::Lambda)
    } else if b == 0x60 {
        Some(OpCode::Array)
    } else if b == 0x61 {
        Some(OpCode::Index)
    } else if b == 0x62 {
        Some(OpCode::Range)
    } else if b == 0x63 {
        Some(OpCode::Length)
    } else if b == 0x64 {
        Some(OpCode::Chars)
    } else if b == 0x70 {
        Some(OpCode::Print)
    } else if b == 0x71 {
        Some(OpCode::ReadLine)
    } else if b == 0x72 {
        Some(OpCode::ParseNum)
    } else if b == 0x73 {
        Some(OpCode::Split)
    } else if b == 0x74 {
        Some(OpCode::ToString)
    } else if b == 0x75 {
        Some(OpCode::Sin)
    } else if b == 0x76 {
        Some(OpCode::Cos)
    } else if b == 0x77 {
        Some(OpCode::Abs)
    } else if b == 0x78 {
        Some(OpCode::Floor)
    } else if b == 0x79 {
        Some(OpCode::Round)
    } else if b == 0x7A {
        Some(OpCode::Sqrt)
    } else if b == 0x7B {
        Some(OpCode::Ln)
    } else if b == 0x7C {
        Some(OpCode::Exp)
    } else if b == 0x7D {
        Some(OpCode::Atan2)
    } else if b == 0x80 {
        Some(OpCode::Adapt)
    } else if b == 0x81 {
        Some(OpCode::Weight)
    } else if b == 0x82 {
        Some(OpCode::Predict)
    } else if b == 0x83 {
        Some(OpCode::Feedback)
    } else if b == 0x84 {
        Some(OpCode::Spawn)
    } else if b == 0x85 {
        Some(OpCode::Prune)
    } else if b == 0x86 {
        Some(OpCode::Strategy)
    } else if b == 0x90 {
        Some(OpCode::Pipe)
    } else if b == 0x91 {
        Some(OpCode::Filter)
    } else if b == 0x92 {
        Some(OpCode::MapEach)
    } else if b == 0x93 {
        Some(OpCode::Reduce)
    } else if b == 0xA0 {
        Some(OpCode::Capability)
    } else if b == 0xFE {
        Some(OpCode::Noop)
    } else if b == 0xFF {
        Some(OpCode::Halt)
    } else {
        None
    }
}

pub open spec fn weight_kind_code(k: WeightKind) -> u8 {
    match k {
        WeightKind::Observational => 0,
        WeightKind::Adaptive => 1,
        WeightKind::TypeHint => 2,
        WeightKind::Strategy => 3,
        WeightKind::Decision => 4,
    }
}

/// Any other byte, also that of `Decision`, stands for `Observational`.
pub open spec fn weight_kind_of(b: u8) -> WeightKind {
    if b == 1 {
        WeightKind::Adaptive
    } else if b == 2 {
        WeightKind::TypeHint
    } else if b == 3 {
        WeightKind::Strategy
    } else {
        WeightKind::Observational
    }
}

pub open spec fn contract_code(c: Contract) -> u8 {
    match c {
        Contract::Unchecked => 0,
        Contract::SameOutput => 1,
        Contract::Validated => 2,
        Contract::WithinTolerance => 3,
    }
}

pub open spec fn contract_of(b: u8) -> Contract {
    if b == 1 {
        Contract::SameOutput
    } else if b == 2 {
        Contract::Validated
    } else if b == 3 {
        Contract::WithinTolerance
    } else {
        Contract::Unchecked
    }
}

pub open spec fn objective_code(o: Objective) -> u8 {
    match o {
        Objective::General => 0,
        Objective::Speed => 1,
        Objective::Accuracy => 2,
        Objective::Reliability => 3,
        Objective::Cost => 4,
        Objective::Risk => 5,
        Objective::Confidence => 6,
        Objective::Reward => 7,
        Objective::MultiObjective => 8,
    }
}

pub open spec fn objective_of(b: u8) -> Objective {
    if b == 1 {
        Objective::Speed
    } else if b == 2 {
        Objective::Accuracy
    } else if b == 3 {
        Objective::Reliability
    } else if b == 4 {
        Objective::Cost
    } else if b == 5 {
        Objective::Risk
    } else if b == 6 {
        Objective::Confidence
    } else if b == 7 {
        Objective::Reward
    } else if b == 8 {
        Objective::MultiObjective
    } else {
        Objective::General
    }
}

pub open spec fn mutation_code(m: MutationKind) -> u8 {
    match m {
        MutationKind::WeightUpdate => 0,
        MutationKind::TypeSpecialized => 1,
        MutationKind::ConstantFolded => 2,
        MutationKind::PathPruned => 3,
        MutationKind::GuardInserted => 4,
        MutationKind::NodeSpawned => 5,
        MutationKind::FeedbackReceived => 6,
        MutationKind::EvolutionStarted => 7,
        MutationKind::ProposalAccepted => 8,
        MutationKind::ProposalRejected => 9,
        MutationKind::EvolutionCompleted => 10,
    }
}

pub open spec fn mutation_of(b: u8) -> MutationKind {
    if b == 1 {
        MutationKind::TypeSpecialized
    } else if b == 2 {
        MutationKind::ConstantFolded
    } else if b == 3 {
        MutationKind::PathPruned
    } else if b == 4 {
        MutationKind::GuardInserted
    } else if b == 5 {
        MutationKind::NodeSpawned
    } else if b == 6 {
        MutationKind::FeedbackReceived
    } else if b == 7 {
        MutationKind::EvolutionStarted
    } else if b == 8 {
        MutationKind::ProposalAccepted
    } else if b == 9 {
        MutationKind::ProposalRejected
    } else if b == 10 {
        MutationKind::EvolutionCompleted
    } else {
        MutationKind::WeightUpdate
    }
}

/// Every operation is read back from its own byte.
pub proof fn op_code_round_trip(op: OpCode)
    ensures
        op_of(op_code(op)) == Some(op),
{
}

/// A byte is read as an operation exactly where it is that operation's byte; one
/// that is no operation's byte is not read.
pub proof fn op_codes_are_exact(b: u8, op: OpCode)
    ensures
        op_of(b) == Some(op) <==> op_code(op) == b,
        op_of(b) is None <==> forall|o: OpCode| #[trigger] op_code(o) != b,
{
    op_code_round_trip(op);
    if let Some(o) = op_of(b) {
        assert(op_code(o) == b);
    } else {
        assert forall|o: OpCode| #[trigger] op_code(o) != b by {
            op_code_round_trip(o);
        }
    }
}

/// The byte of an operation.
pub fn op_byte(op: OpCode) -> (b: u8)
    ensures
        b == op_code(op),
{
    match op {
        OpCode::ConstInt => 0x01,
        OpCode::ConstFloat => 0x02,
        OpCode::ConstStr => 0x03,
        OpCode::ConstBool => 0x04,
        OpCode::ConstNull => 0x05,
        OpCode::LoadVar => 0x06,
        OpCode::StoreVar => 0x07,
        OpCode::Add => 0x10,
        OpCode::Sub => 0x11,
        OpCode::Mul => 0x12,
        OpCode::Div => 0x13,
        OpCode::Mod => 0x14,
        OpCode::Neg => 0x15,
        OpCode::Eq => 0x20,
        OpCode::Neq => 0x21,
        OpCode::Lt => 0x22,
        OpCode::Gt => 0x23,
        OpCode::Lte => 0x24,
        OpCode::Gte => 0x25,
        OpCode::And => 0x30,
        OpCode::Or => 0x31,
        OpCode::Not => 0x32,
        OpCode::Branch => 0x40,
        OpCode::Merge => 0x41,
        OpCode::Loop => 0x42,
        OpCode::Sequence => 0x43,
        OpCode::ForEach => 0x46,
        OpCode::Repeat => 0x47,
        OpCode::AdaptiveChoice => 0x44,
        OpCode::Guard => 0x45,
        OpCode::Define => 0x50,
        OpCode::Call => 0x51,
        OpCode::Return => 0x52,
        OpCode::Lambda => 0x53,
        OpCode::Array => 0x60,
        OpCode::Index => 0x61,
        OpCode::Range => 0x62,
        OpCode::Length => 0x63,
        OpCode::Chars => 0x64,
        OpCode::Print => 0x70,
        OpCode::ReadLine => 0x71,
        OpCode::ParseNum => 0x72,
        OpCode::Split => 0x73,
        OpCode::ToString => 0x74,
        OpCode::Sin => 0x75,
        OpCode::Cos => 0x76,
        OpCode::Abs => 0x77,
        OpCode::Floor => 0x78,
        OpCode::Round => 0x79,
        OpCode::Sqrt => 0x7A,
        OpCode::Ln => 0x7B,
        OpCode::Exp => 0x7C,
        OpCode::Atan2 => 0x7D,
        OpCode::Adapt => 0x80,
        OpCode::Weight => 0x81,
        OpCode::Predict => 0x82,
        OpCode::Feedback => 0x83,
        OpCode::Spawn => 0x84,
        OpCode::Prune => 0x85,
        OpCode::Strategy => 0x86,
        OpCode::Pipe => 0x90,
        OpCode::Filter => 0x91,
        OpCode::MapEach => 0x92,
        OpCode::Reduce => 0x93,
        OpCode::Capability => 0xA0,
        OpCode::Noop => 0xFE,
        OpCode::Halt => 0xFF,
    }
}

/// The operation of a byte.
pub fn opcode_from_byte(b: u8) -> (r: Result<OpCode, String>)
    ensures
        match op_of(b) {
            Some(op) => r == Ok::<OpCode, String>(op),
            None => r is Err && r->Err_0@ == "unknown opcode 0x"@ + hex_byte_upper(b),
        },
{
    match b {
        0x01 => Ok(OpCode::ConstInt),
        0x02 => Ok(OpCode::ConstFloat),
        0x03 => Ok(OpCode::ConstStr),
        0x04 => Ok(OpCode::ConstBool),
        0x05 => Ok(OpCode::ConstNull),
        0x06 => Ok(OpCode::LoadVar),
        0x07 => Ok(OpCode::StoreVar),
        0x10 => Ok(OpCode::Add),
        0x11 => Ok(OpCode::Sub),
        0x12 => Ok(OpCode::Mul),
        0x13 => Ok(OpCode::Div),
        0x14 => Ok(OpCode::Mod),
        0x15 => Ok(OpCode::Neg),
        0x20 => Ok(OpCode::Eq),
        0x21 => Ok(OpCode::Neq),
        0x22 => Ok(OpCode::Lt),
        0x23 => Ok(OpCode::Gt),
        0x24 => Ok(OpCode::Lte),
        0x25 => Ok(OpCode::Gte),
        0x30 => Ok(OpCode::And),
        0x31 => Ok(OpCode::Or),
        0x32 => Ok(OpCode::Not),
        0x40 => Ok(OpCode::Branch),
        0x41 => Ok(OpCode::Merge),
        0x42 => Ok(OpCode::Loop),
        0x43 => Ok(OpCode::Sequence),
        0x46 => Ok(OpCode::ForEach),
        0x47 => Ok(OpCode::Repeat),
        0x44 => Ok(OpCode::AdaptiveChoice),
        0x45 => Ok(OpCode::Guard),
        0x50 => Ok(OpCode::Define),
        0x51 => Ok(OpCode::Call),
        0x52 => Ok(OpCode::Return),
        0x53 => Ok(OpCode::Lambda),
        0x60 => Ok(OpCode::Array),
        0x61 => Ok(OpCode::Index),
        0x62 => Ok(OpCode::Range),
        0x63 => Ok(OpCode::Length),
        0x64 => Ok(OpCode::Chars),
        0x70 => Ok(OpCode::Print),
        0x71 => Ok(OpCode::ReadLine),
        0x72 => Ok(OpCode::ParseNum),
        0x73 => Ok(OpCode::Split),
        0x74 => Ok(OpCode::ToString),
        0x75 => Ok(OpCode::Sin),
        0x76 => Ok(OpCode::Cos),
        0x77 => Ok(OpCode::Abs),
        0x78 => Ok(OpCode::Floor),
        0x79 => Ok(OpCode::Round),
        0x7A => Ok(OpCode::Sqrt),
        0x7B => Ok(OpCode::Ln),
        0x7C => Ok(OpCode::Exp),
        0x7D => Ok(OpCode::Atan2),
        0x80 => Ok(OpCode::Adapt),
        0x81 => Ok(OpCode::Weight),
        0x82 => Ok(OpCode::Predict),
        0x83 => Ok(OpCode::Feedback),
        0x84 => Ok(OpCode::Spawn),
        0x85 => Ok(OpCode::Prune),
        0x86 => Ok(OpCode::Strategy),
        0x90 => Ok(OpCode::Pipe),
        0x91 => Ok(OpCode::Filter),
        0x92 => Ok(OpCode::MapEach),
        0x93 => Ok(OpCode::Reduce),
        0xA0 => Ok(OpCode::Capability),
        0xFE => Ok(OpCode::Noop),
        0xFF => Ok(OpCode::Halt),
        _ => Err(labelled_hex("unknown opcode 0x", b)),
    }
}

fn weight_kind_byte(k: WeightKind) -> (b: u8)
    ensures
        b == weight_kind_code(k),
{
    match k {
        WeightKind::Observational => 0,
        WeightKind::Adaptive => 1,
        WeightKind::TypeHint => 2,
        WeightKind::Strategy => 3,
        WeightKind::Decision => 4,
    }
}

fn weight_kind_from(b: u8) -> (k: WeightKind)
    ensures
        k == weight_kind_of(b),
{
    match b {
        1 => WeightKind::Adaptive,
        2 => WeightKind::TypeHint,
        3 => WeightKind::Strategy,
        _ => WeightKind::Observational,
    }
}

fn contract_byte(c: Contract) -> (b: u8)
    ensures
        b == contract_code(c),
{
    match c {
        Contract::Unchecked => 0,
        Contract::SameOutput => 1,
        Contract::Validated => 2,
        Contract::WithinTolerance => 3,
    }
}

fn contract_from(b: u8) -> (c: Contract)
    ensures
        c == contract_of(b),
{
    match b {
        1 => Contract::SameOutput,
        2 => Contract::Validated,
        3 => Contract::WithinTolerance,
        _ => Contract::Unchecked,
    }
}

fn objective_byte(o: Objective) -> (b: u8)
    ensures
        b == objective_code(o),
{
    match o {
        Objective::General => 0,
        Objective::Speed => 1,
        Objective::Accuracy => 2,
        Objective::Reliability => 3,
        Objective::Cost => 4,
        Objective::Risk => 5,
        Objective::Confidence => 6,
        Objective::Reward => 7,
        Objective::MultiObjective => 8,
    }
}

fn objective_from(b: u8) -> (o: Objective)
    ensures
        o == objective_of(b),
{
    match b {
        1 => Objective::Speed,
        2 => Objective::Accuracy,
        3 => Objective::Reliability,
        4 => Objective::Cost,
        5 => Objective::Risk,
        6 => Objective::Confidence,
        7 => Objective::Reward,
        8 => Objective::MultiObjective,
        _ => Objective::General,
    }
}

fn mutation_byte(m: MutationKind) -> (b: u8)
    ensures
        b == mutation_code(m),
{
    match m {
        MutationKind::WeightUpdate => 0,
        MutationKind::TypeSpecialized => 1,
        MutationKind::ConstantFolded => 2,
        MutationKind::PathPruned => 3,
        MutationKind::GuardInserted => 4,
        MutationKind::NodeSpawned => 5,
        MutationKind::FeedbackReceived => 6,
        MutationKind::EvolutionStarted => 7,
        MutationKind::ProposalAccepted => 8,
        MutationKind::ProposalRejected => 9,
        MutationKind::EvolutionCompleted => 10,
    }
}

fn mutation_from(b: u8) -> (m: MutationKind)
    ensures
        m == mutation_of(b),
{
    match b {
        1 => MutationKind::TypeSpecialized,
        2 => MutationKind::ConstantFolded,
        3 => MutationKind::PathPruned,
        4 => MutationKind::GuardInserted,
        5 => MutationKind::NodeSpawned,
        6 => MutationKind::FeedbackReceived,
        7 => MutationKind::EvolutionStarted,
        8 => MutationKind::ProposalAccepted,
        9 => MutationKind::ProposalRejected,
        10 => MutationKind::EvolutionCompleted,
        _ => MutationKind::WeightUpdate,
    }
}

// ---- The binary form ----

/// An optional number: a flag byte, then the number where there is one.
pub open spec fn enc_opt(v: Option<u32>) -> Seq<u8> {
    match v {
        Some(n) => seq![1u8] + le32(n),
        None => seq![0u8],
    }
}

pub open spec fn enc_operand(op: Operand) -> Seq<u8> {
    match op {
        Operand::NodeRef(id) => seq![0x01u8] + le32(id),
        Operand::Immediate(ImmValue::Int(n)) => seq![0x10u8] + le64(n as u64),
        Operand::Immediate(ImmValue::Float(f)) => seq![0x11u8] + le64(f.bits),
        Operand::Immediate(ImmValue::Bool(b)) => seq![
            0x12u8,
            if b {
                1u8
            } else {
                0u8
            },
        ],
        Operand::Immediate(ImmValue::Null) => seq![0x13u8],
        Operand::StateRef(idx) => seq![0x20u8] + le32(idx),
        Operand::StringRef(idx) => seq![0x30u8] + le32(idx),
        Operand::VarSlot(slot) => seq![0x40u8] + le32(slot),
    }
}

/// The encodings of the items of `s`, one after the other.
pub open spec fn enc_list<T>(s: Seq<T>, enc: spec_fn(T) -> Seq<u8>) -> Seq<u8>
    decreases s.len(),
{
    if s.len() == 0 {
        Seq::empty()
    } else {
        enc_list(s.drop_last(), enc) + enc(s.last())
    }
}

pub open spec fn enc_operands(s: Seq<Operand>) -> Seq<u8> {
    enc_list(s, |o: Operand| enc_operand(o))
}

pub open spec fn enc_reals(s: Seq<Real>) -> Seq<u8> {
    enc_list(s, |w: Real| le64(w.bits))
}

pub open spec fn enc_string(s: Seq<u8>) -> Seq<u8> {
    le32(s.len() as u32) + s
}

pub open spec fn enc_strings(s: Seq<Seq<u8>>) -> Seq<u8> {
    enc_list(s, |x: Seq<u8>| enc_string(x))
}

pub open spec fn enc_node(n: NodeView) -> Seq<u8> {
    le32(n.id) + seq![op_code(n.op)] + le32(n.operands.len() as u32) + enc_operands(n.operands)
        + le32(n.weights.len() as u32) + enc_reals(n.weights) + le64(n.bias.bits) + le64(
        n.activation_count,
    ) + enc_opt(n.state_slot) + seq![weight_kind_code(n.weight_kind)] + enc_opt(n.annotation)
        + seq![contract_code(n.contract)] + seq![objective_code(n.objective)]
}

pub open spec fn enc_nodes(s: Seq<NodeView>) -> Seq<u8> {
    enc_list(s, |n: NodeView| enc_node(n))
}

pub open spec fn enc_edge(e: Edge) -> Seq<u8> {
    le32(e.from) + le32(e.to) + le64(e.weight.bits) + enc_opt(e.gate)
}

pub open spec fn enc_edges(s: Seq<Edge>) -> Seq<u8> {
    enc_list(s, |e: Edge| enc_edge(e))
}

pub open spec fn enc_entry(e: JournalEntry) -> Seq<u8> {
    le64(e.run_number) + le32(e.node_id) + seq![mutation_code(e.mutation)] + le32(e.reason)
}

pub open spec fn enc_journal(s: Seq<JournalEntry>) -> Seq<u8> {
    enc_list(s, |e: JournalEntry| enc_entry(e))
}

/// The fixed part in front of the tables.
pub open spec fn enc_head(g: GraphView) -> Seq<u8> {
    magic() + seq![g.header.version] + le32(g.nodes.len() as u32) + le32(g.edges.len() as u32)
        + le32(g.state.len() as u32) + le32(g.string_table.len() as u32) + le32(g.header.flags)
        + le32(g.entry)
}

/// The whole file: head, strings, nodes, edges, state, journal.
pub open spec fn enc_graph(g: GraphView) -> Seq<u8> {
    enc_head(g) + enc_strings(g.string_table) + enc_nodes(g.nodes) + enc_edges(g.edges) + le32(
        g.state.len() as u32,
    ) + enc_reals(g.state) + le32(g.journal.len() as u32) + enc_journal(g.journal)
}

proof fn enc_list_push<T>(s: Seq<T>, i: int, enc: spec_fn(T) -> Seq<u8>)
    requires
        0 <= i < s.len(),
    ensures
        enc_list(s.take(i + 1), enc) == enc_list(s.take(i), enc) + enc(s[i]),
{
    assert(s.take(i + 1).drop_last() == s.take(i));
}

// ---- Reading the binary form ----

/// What reading one item gives: the item and where the next one starts, or
/// the message of the failure.
pub type Parsed<T> = Result<(T, int), Seq<char>>;

pub open spec fn dec_opt(d: Seq<u8>, p: int) -> (Option<u32>, int) {
    let (flag, p1) = lenient_u8(d, p);
    if flag != 0 {
        let (v, p2) = lenient_u32(d, p1);
        (Some(v), p2)
    } else {
        (None, p1)
    }
}

pub open spec fn dec_operand(d: Seq<u8>, p: int) -> Parsed<Operand> {
    let (tag, p1) = lenient_u8(d, p);
    let w = lenient_u32(d, p1);
    let x = lenient_u64(d, p1);
    let b = lenient_u8(d, p1);
    if tag == 0x01 {
        Ok((Operand::NodeRef(w.0), w.1))
    } else if tag == 0x10 {
        Ok((Operand::Immediate(ImmValue::Int(x.0 as i64)), x.1))
    } else if tag == 0x11 {
        Ok((Operand::Immediate(ImmValue::Float(Real { bits: x.0 })), x.1))
    } else if tag == 0x12 {
        Ok((Operand::Immediate(ImmValue::Bool(b.0 != 0)), b.1))
    } else if tag == 0x13 {
        Ok((Operand::Immediate(ImmValue::Null), p1))
    } else if tag == 0x20 {
        Ok((Operand::StateRef(w.0), w.1))
    } else if tag == 0x30 {
        Ok((Operand::StringRef(w.0), w.1))
    } else if tag == 0x40 {
        Ok((Operand::VarSlot(w.0), w.1))
    } else {
        Err("unknown operand tag 0x"@ + hex_byte_upper(tag))
    }
}

/// `n` items read one after the other from `p` on; the first failure ends it.
pub open spec fn dec_list<T>(
    d: Seq<u8>,
    p: int,
    n: nat,
    dec: spec_fn(Seq<u8>, int) -> Parsed<T>,
) -> Parsed<Seq<T>>
    decreases n,
{
    if n == 0 {
        Ok((Seq::empty(), p))
    } else {
        match dec_list(d, p, (n - 1) as nat, dec) {
            Err(e) => Err(e),
            Ok((items, q)) => match dec(d, q) {
                Err(e) => Err(e),
                Ok((item, r)) => Ok((items.push(item), r)),
            },
        }
    }
}

pub open spec fn dec_operands(d: Seq<u8>, p: int, n: nat) -> Parsed<Seq<Operand>> {
    dec_list(d, p, n, |d: Seq<u8>, p: int| dec_operand(d, p))
}

pub open spec fn dec_real(d: Seq<u8>, p: int) -> Parsed<Real> {
    Ok((Real { bits: lenient_u64(d, p).0 }, lenient_u64(d, p).1))
}

pub open spec fn dec_reals(d: Seq<u8>, p: int, n: nat) -> Parsed<Seq<Real>> {
    dec_list(d, p, n, |d: Seq<u8>, p: int| dec_real(d, p))
}

pub open spec fn dec_string(d: Seq<u8>, p: int) -> Parsed<Seq<u8>> {
    let (len, q) = lenient_u32(d, p);
    if q + len > d.len() {
        Err("string table overflow at pos "@ + dec_nat(q as nat) + ", len "@ + dec_nat(len as nat))
    } else {
        Ok((d.subrange(q, q + len), q + len))
    }
}

pub open spec fn dec_strings(d: Seq<u8>, p: int, n: nat) -> Parsed<Seq<Seq<u8>>> {
    dec_list(d, p, n, |d: Seq<u8>, p: int| dec_string(d, p))
}

/// The part of a node behind its operands and weights.
pub open spec fn dec_node_tail(
    d: Seq<u8>,
    p: int,
    id: u32,
    op: OpCode,
    operands: Seq<Operand>,
    weights: Seq<Real>,
) -> (NodeView, int) {
    let (bias, p1) = lenient_u64(d, p);
    let (activation_count, p2) = lenient_u64(d, p1);
    let (state_slot, p3) = dec_opt(d, p2);
    let (kind, p4) = lenient_u8(d, p3);
    let (annotation, p5) = dec_opt(d, p4);
    let (contract, p6) = lenient_u8(d, p5);
    let (objective, p7) = lenient_u8(d, p6);
    (
        NodeView {
            id,
            op,
            operands,
            weights,
            bias: Real { bits: bias },
            activation_count,
            state_slot,
            weight_kind: weight_kind_of(kind),
            annotation,
            contract: contract_of(contract),
            objective: objective_of(objective),
        },
        p7,
    )
}

pub open spec fn dec_node(d: Seq<u8>, p: int) -> Parsed<NodeView> {
    let (id, p1) = lenient_u32(d, p);
    let (code, p2) = lenient_u8(d, p1);
    match op_of(code) {
        None => Err("unknown opcode 0x"@ + hex_byte_upper(code)),
        Some(op) => {
            let (operand_count, p3) = lenient_u32(d, p2);
            match dec_operands(d, p3, operand_count as nat) {
                Err(e) => Err(e),
                Ok((operands, p4)) => {
                    let (weight_count, p5) = lenient_u32(d, p4);
                    match dec_reals(d, p5, weight_count as nat) {
                        Err(e) => Err(e),
                        Ok((weights, p6)) => Ok(dec_node_tail(d, p6, id, op, operands, weights)),
                    }
                },
            }
        },
    }
}

pub open spec fn dec_nodes(d: Seq<u8>, p: int, n: nat) -> Parsed<Seq<NodeView>> {
    dec_list(d, p, n, |d: Seq<u8>, p: int| dec_node(d, p))
}

pub open spec fn dec_edge(d: Seq<u8>, p: int) -> Parsed<Edge> {
    let (from, p1) = lenient_u32(d, p);
    let (to, p2) = lenient_u32(d, p1);
    let (weight, p3) = lenient_u64(d, p2);
    let (gate, p4) = dec_opt(d, p3);
    Ok((Edge { from, to, weight: Real { bits: weight }, gate }, p4))
}

pub open spec fn dec_edges(d: Seq<u8>, p: int, n: nat) -> Parsed<Seq<Edge>> {
    dec_list(d, p, n, |d: Seq<u8>, p: int| dec_edge(d, p))
}

pub open spec fn dec_entry(d: Seq<u8>, p: int) -> (JournalEntry, int) {
    let (run_number, p1) = lenient_u64(d, p);
    let (node_id, p2) = lenient_u32(d, p1);
    let (mutation, p3) = lenient_u8(d, p2);
    let (reason, p4) = lenient_u32(d, p3);
    (JournalEntry { run_number, node_id, mutation: mutation_of(mutation), reason }, p4)
}

/// At most `n` journal entries; the end of the buffer ends the list.
pub open spec fn dec_journal(d: Seq<u8>, p: int, n: nat) -> (Seq<JournalEntry>, int)
    decreases n,
{
    if n == 0 {
        (Seq::empty(), p)
    } else {
        let (items, q) = dec_journal(d, p, (n - 1) as nat);
        if q >= d.len() {
            (items, q)
        } else {
            let (e, r) = dec_entry(d, q);
            (items.push(e), r)
        }
    }
}

/// A count that may be missing at the end of the buffer.
pub open spec fn dec_count(d: Seq<u8>, p: int) -> (u32, int) {
    if p < d.len() {
        lenient_u32(d, p)
    } else {
        (0u32, p)
    }
}

/// State and journal, both of which an old file may lack.
pub open spec fn dec_trailer(
    d: Seq<u8>,
    p: int,
    header: GraphHeader,
    entry: u32,
    string_table: Seq<Seq<u8>>,
    nodes: Seq<NodeView>,
    edges: Seq<Edge>,
) -> Result<GraphView, Seq<char>> {
    let (state_len, p1) = dec_count(d, p);
    match dec_reals(d, p1, state_len as nat) {
        Err(e) => Err(e),
        Ok((state, p2)) => {
            let (journal_len, p3) = dec_count(d, p2);
            let journal = dec_journal(d, p3, journal_len as nat).0;
            Ok(GraphView { header, nodes, edges, string_table, state, entry, journal })
        },
    }
}

/// What a file holds, or the message of why it cannot be read.
pub open spec fn dec_graph(d: Seq<u8>) -> Result<GraphView, Seq<char>> {
    if d.len() < 5 || d.subrange(0, 4) != magic() {
        Err("invalid .lyc file: bad magic"@)
    } else if d[4] != FORMAT_VERSION {
        Err("unsupported version "@ + dec_nat(d[4] as nat))
    } else {
        let (header, entry, p) = dec_header(d, 5);
        dec_tables(d, p, header, entry)
    }
}

/// The six numbers behind the version.
pub open spec fn dec_header(d: Seq<u8>, p: int) -> (GraphHeader, u32, int) {
    let (node_count, p1) = lenient_u32(d, p);
    let (edge_count, p2) = lenient_u32(d, p1);
    let (state_size, p3) = lenient_u32(d, p2);
    let (string_count, p4) = lenient_u32(d, p3);
    let (flags, p5) = lenient_u32(d, p4);
    let (entry, p6) = lenient_u32(d, p5);
    (
        GraphHeader {
            version: FORMAT_VERSION,
            node_count,
            edge_count,
            state_size,
            string_count,
            flags,
        },
        entry,
        p6,
    )
}

/// The tables, in the sizes that the header gives.
pub open spec fn dec_tables(d: Seq<u8>, p: int, header: GraphHeader, entry: u32) -> Result<
    GraphView,
    Seq<char>,
> {
    match dec_strings(d, p, header.string_count as nat) {
        Err(e) => Err(e),
        Ok((strings, p7)) => match dec_nodes(d, p7, header.node_count as nat) {
            Err(e) => Err(e),
            Ok((nodes, p8)) => match dec_edges(d, p8, header.edge_count as nat) {
                Err(e) => Err(e),
                Ok((edges, p9)) => dec_trailer(d, p9, header, entry, strings, nodes, edges),
            },
        },
    }
}

/// A list that fails at some item fails as a whole, with the same message.
proof fn dec_list_fails<T>(
    d: Seq<u8>,
    p: int,
    i: nat,
    n: nat,
    dec: spec_fn(Seq<u8>, int) -> Parsed<T>,
)
    requires
        i <= n,
        dec_list(d, p, i, dec) is Err,
    ensures
        dec_list(d, p, n, dec) == Err::<(Seq<T>, int), Seq<char>>(dec_list(d, p, i, dec)->Err_0),
    decreases n,
{
    if i < n {
        dec_list_fails(d, p, i, (n - 1) as nat, dec);
    }
}

fn write_opt(buf: &mut Vec<u8>, v: Option<u32>)
    ensures
        final(buf)@ == old(buf)@ + enc_opt(v),
{
    match v {
        Some(n) => {
            buf.push(1);
            write_u32(buf, n);
        },
        None => buf.push(0),
    }
}

fn read_opt(data: &[u8], pos: &mut usize) -> (v: Option<u32>)
    requires
        *old(pos) <= data.len(),
    ensures
        (v, *final(pos) as int) == dec_opt(data@, *old(pos) as int),
        *final(pos) <= data.len(),
{
    if read_u8(data, pos) != 0 {
        Some(read_u32(data, pos))
    } else {
        None
    }
}

fn read_real(data: &[u8], pos: &mut usize) -> (v: Real)
    requires
        *old(pos) <= data.len(),
    ensures
        dec_real(data@, *old(pos) as int) == Ok::<(Real, int), Seq<char>>((v, *final(pos) as int)),
        *final(pos) <= data.len(),
{
    Real { bits: read_u64(data, pos) }
}

fn encode_operand(buf: &mut Vec<u8>, op: &Operand)
    ensures
        final(buf)@ == old(buf)@ + enc_operand(*op),
{
    match op {
        Operand::NodeRef(id) => {
            buf.push(0x01);
            write_u32(buf, *id);
        },
        Operand::Immediate(ImmValue::Int(n)) => {
            buf.push(0x10);
            write_i64(buf, *n);
        },
        Operand::Immediate(ImmValue::Float(f)) => {
            buf.push(0x11);
            write_u64(buf, f.bits);
        },
        Operand::Immediate(ImmValue::Bool(b)) => {
            buf.push(0x12);
            buf.push(
                if *b {
                    1
                } else {
                    0
                },
            );
        },
        Operand::Immediate(ImmValue::Null) => {
            buf.push(0x13);
        },
        Operand::StateRef(idx) => {
            buf.push(0x20);
            write_u32(buf, *idx);
        },
        Operand::StringRef(idx) => {
            buf.push(0x30);
            write_u32(buf, *idx);
        },
        Operand::VarSlot(slot) => {
            buf.push(0x40);
            write_u32(buf, *slot);
        },
    }
}

fn decode_operand(data: &[u8], pos: &mut usize) -> (r: Result<Operand, String>)
    requires
        *old(pos) <= data.len(),
    ensures
        *final(pos) <= data.len(),
        match dec_operand(data@, *old(pos) as int) {
            Ok((op, p)) => r == Ok::<Operand, String>(op) && *final(pos) == p,
            Err(e) => r is Err && r->Err_0@ == e,
        },
{
    let tag: u8 = read_u8(data, pos);
    match tag {
        0x01 => Ok(Operand::NodeRef(read_u32(data, pos))),
        0x10 => Ok(Operand::Immediate(ImmValue::Int(read_i64(data, pos)))),
        0x11 => Ok(Operand::Immediate(ImmValue::Float(read_real(data, pos)))),
        0x12 => Ok(Operand::Immediate(ImmValue::Bool(read_u8(data, pos) != 0))),
        0x13 => Ok(Operand::Immediate(ImmValue::Null)),
        0x20 => Ok(Operand::StateRef(read_u32(data, pos))),
        0x30 => Ok(Operand::StringRef(read_u32(data, pos))),
        0x40 => Ok(Operand::VarSlot(read_u32(data, pos))),
        _ => Err(labelled_hex("unknown operand tag 0x", tag)),
    }
}

fn encode_reals(buf: &mut Vec<u8>, reals: &Vec<Real>)
    ensures
        final(buf)@ == old(buf)@ + enc_reals(reals@),
{
    let ghost before = buf@;
    let ghost enc = |w: Real| le64(w.bits);
    let mut i: usize = 0;
    assert(reals@.take(0) == Seq::<Real>::empty());
    while i < reals.len()
        invariant
            i <= reals.len(),
            enc == (|w: Real| le64(w.bits)),
            buf@ == before + enc_list(reals@.take(i as int), enc),
        decreases reals.len() - i,
    {
        write_u64(buf, reals[i].bits);
        proof {
            enc_list_push(reals@, i as int, enc);
        }
        i = i + 1;
    }
    assert(reals@.take(i as int) == reals@);
}

/// Appends the bytes of a node.
pub fn encode_node(buf: &mut Vec<u8>, node: &GraphNode)
    ensures
        final(buf)@ == old(buf)@ + enc_node(node@),
{
    let ghost start = buf@;
    let ghost v = node@;
    write_u32(buf, node.id);
    buf.push(op_byte(node.op));
    let ghost a2 = le32(v.id) + seq![op_code(v.op)];
    assert(buf@ == start + a2);
    write_u32(buf, node.operands.len() as u32);
    let ghost a3 = a2 + le32(v.operands.len() as u32);
    proof {
        cat_assoc(start, a2, le32(v.operands.len() as u32));
    }
    let ghost before = buf@;
    let ghost enc = |o: Operand| enc_operand(o);
    let mut i: usize = 0;
    assert(node.operands@.take(0) == Seq::<Operand>::empty());
    assert(buf@ == before + enc_list(node.operands@.take(0), enc));
    while i < node.operands.len()
        invariant
            i <= node.operands.len(),
            enc == (|o: Operand| enc_operand(o)),
            buf@ == before + enc_list(node.operands@.take(i as int), enc),
        decreases node.operands.len() - i,
    {
        encode_operand(buf, &node.operands[i]);
        proof {
            enc_list_push(node.operands@, i as int, enc);
            cat_assoc(
                before,
                enc_list(node.operands@.take(i as int), enc),
                enc_operand(node.operands@[i as int]),
            );
        }
        i = i + 1;
    }
    assert(node.operands@.take(i as int) == node.operands@);
    let ghost a4 = a3 + enc_operands(v.operands);
    proof {
        cat_assoc(start, a3, enc_operands(v.operands));
    }
    write_u32(buf, node.weights.len() as u32);
    let ghost a5 = a4 + le32(v.weights.len() as u32);
    proof {
        cat_assoc(start, a4, le32(v.weights.len() as u32));
    }
    encode_reals(buf, &node.weights);
    let ghost a6 = a5 + enc_reals(v.weights);
    proof {
        cat_assoc(start, a5, enc_reals(v.weights));
    }
    encode_node_tail(buf, node, Ghost(start), Ghost(a6));
}

fn encode_node_tail(
    buf: &mut Vec<u8>,
    node: &GraphNode,
    Ghost(start): Ghost<Seq<u8>>,
    Ghost(a6): Ghost<Seq<u8>>,
)
    requires
        old(buf)@ == start + a6,
    ensures
        final(buf)@ == start + (a6 + le64(node.bias.bits) + le64(node.activation_count) + enc_opt(
            node.state_slot,
        ) + seq![weight_kind_code(node.weight_kind)] + enc_opt(node.annotation) + seq![
            contract_code(node.contract),
        ] + seq![objective_code(node.objective)]),
{
    write_u64(buf, node.bias.bits);
    let ghost a7 = a6 + le64(node.bias.bits);
    proof {
        cat_assoc(start, a6, le64(node.bias.bits));
    }
    write_u64(buf, node.activation_count);
    let ghost a8 = a7 + le64(node.activation_count);
    proof {
        cat_assoc(start, a7, le64(node.activation_count));
    }
    write_opt(buf, node.state_slot);
    let ghost a9 = a8 + enc_opt(node.state_slot);
    proof {
        cat_assoc(start, a8, enc_opt(node.state_slot));
    }
    buf.push(weight_kind_byte(node.weight_kind));
    let ghost a10 = a9 + seq![weight_kind_code(node.weight_kind)];
    assert(buf@ == start + a10);
    write_opt(buf, node.annotation);
    let ghost a11 = a10 + enc_opt(node.annotation);
    proof {
        cat_assoc(start, a10, enc_opt(node.annotation));
    }
    buf.push(contract_byte(node.contract));
    let ghost a12 = a11 + seq![contract_code(node.contract)];
    assert(buf@ == start + a12);
    buf.push(objective_byte(node.objective));
    assert(buf@ == start + (a12 + seq![objective_code(node.objective)]));
}

fn encode_edge(buf: &mut Vec<u8>, edge: &Edge)
    ensures
        final(buf)@ == old(buf)@ + enc_edge(*edge),
{
    write_u32(buf, edge.from);
    write_u32(buf, edge.to);
    write_u64(buf, edge.weight.bits);
    write_opt(buf, edge.gate);
}

fn encode_entry(buf: &mut Vec<u8>, e: &JournalEntry)
    ensures
        final(buf)@ == old(buf)@ + enc_entry(*e),
{
    write_u64(buf, e.run_number);
    write_u32(buf, e.node_id);
    buf.push(mutation_byte(e.mutation));
    write_u32(buf, e.reason);
}

fn decode_reals(data: &[u8], pos: &mut usize, n: usize) -> (v: Vec<Real>)
    requires
        *old(pos) <= data.len(),
    ensures
        dec_reals(data@, *old(pos) as int, n as nat) == Ok::<(Seq<Real>, int), Seq<char>>(
            (v@, *final(pos) as int),
        ),
        *final(pos) <= data.len(),
{
    let ghost start = *pos as int;
    let ghost dec = |d: Seq<u8>, p: int| dec_real(d, p);
    let mut v: Vec<Real> = Vec::new();
    let mut i: usize = 0;
    while i < n
        invariant
            i <= n,
            *pos <= data.len(),
            dec == (|d: Seq<u8>, p: int| dec_real(d, p)),
            dec_list(data@, start, i as nat, dec) == Ok::<(Seq<Real>, int), Seq<char>>(
                (v@, *pos as int),
            ),
        decreases n - i,
    {
        let w = read_real(data, pos);
        v.push(w);
        i = i + 1;
    }
    v
}

/// Reads one node, and moves behind it.
pub fn decode_node(data: &[u8], pos: &mut usize) -> (r: Result<GraphNode, String>)
    requires
        *old(pos) <= data.len(),
    ensures
        *final(pos) <= data.len(),
        match dec_node(data@, *old(pos) as int) {
            Ok((n, p)) => r is Ok && r->Ok_0@ == n && *final(pos) == p,
            Err(e) => r is Err && r->Err_0@ == e,
        },
{
    let id: u32 = read_u32(data, pos);
    let code: u8 = read_u8(data, pos);
    let op = match opcode_from_byte(code) {
        Ok(op) => op,
        Err(e) => {
            return Err(e);
        },
    };
    let operand_count: usize = read_u32(data, pos) as usize;
    let ghost start = *pos as int;
    let ghost dec = |d: Seq<u8>, p: int| dec_operand(d, p);
    let mut operands: Vec<Operand> = Vec::new();
    let mut i: usize = 0;
    while i < operand_count
        invariant
            i <= operand_count,
            *pos <= data.len(),
            dec == (|d: Seq<u8>, p: int| dec_operand(d, p)),
            dec_list(data@, start, i as nat, dec) == Ok::<(Seq<Operand>, int), Seq<char>>(
                (operands@, *pos as int),
            ),
            match dec_node(data@, *old(pos) as int) {
                Ok(_) => dec_list(data@, start, operand_count as nat, dec) is Ok,
                Err(e) => dec_list(data@, start, operand_count as nat, dec) is Err ==> dec_list(
                    data@,
                    start,
                    operand_count as nat,
                    dec,
                )->Err_0 == e,
            },
        decreases operand_count - i,
    {
        match decode_operand(data, pos) {
            Ok(op) => operands.push(op),
            Err(e) => {
                proof {
                    dec_list_fails(data@, start, (i + 1) as nat, operand_count as nat, dec);
                }
                return Err(e);
            },
        }
        i = i + 1;
    }
    let weight_count: usize = read_u32(data, pos) as usize;
    let weights = decode_reals(data, pos, weight_count);
    let bias = read_real(data, pos);
    let activation_count: u64 = read_u64(data, pos);
    let state_slot = read_opt(data, pos);
    let weight_kind = weight_kind_from(read_u8(data, pos));
    let annotation = read_opt(data, pos);
    let contract = contract_from(read_u8(data, pos));
    let objective = objective_from(read_u8(data, pos));
    Ok(
        GraphNode {
            id,
            op,
            operands,
            weights,
            bias,
            activation_count,
            state_slot,
            weight_kind,
            annotation,
            contract,
            objective,
        },
    )
}

fn decode_strings(data: &[u8], pos: &mut usize, n: u32) -> (r: Result<Vec<Vec<u8>>, String>)
    requires
        *old(pos) <= data.len(),
    ensures
        *final(pos) <= data.len(),
        match dec_strings(data@, *old(pos) as int, n as nat) {
            Ok((s, p)) => r is Ok && string_views(r->Ok_0@) == s && *final(pos) == p,
            Err(e) => r is Err && r->Err_0@ == e,
        },
{
    let ghost start = *pos as int;
    let ghost dec = |d: Seq<u8>, p: int| dec_string(d, p);
    let mut table: Vec<Vec<u8>> = Vec::new();
    let mut i: u32 = 0;
    assert(string_views(table@) == Seq::<Seq<u8>>::empty());
    while i < n
        invariant
            i <= n,
            *pos <= data.len(),
            start == *old(pos),
            dec == (|d: Seq<u8>, p: int| dec_string(d, p)),
            dec_list(data@, start, i as nat, dec) == Ok::<(Seq<Seq<u8>>, int), Seq<char>>(
                (string_views(table@), *pos as int),
            ),
        decreases n - i,
    {
        let len: usize = read_u32(data, pos) as usize;
        if len > data.len() - *pos {
            let mut msg = labelled("string table overflow at pos ", *pos as u64);
            msg.append(", len ");
            push_u64(&mut msg, len as u64);
            proof {
                dec_list_fails(data@, start, (i + 1) as nat, n as nat, dec);
            }
            return Err(msg);
        }
        let s = copy_range(data, *pos, len);
        let ghost before = table@;
        table.push(s);
        *pos = *pos + len;
        i = i + 1;
        assert(string_views(table@) == string_views(before).push(s@));
    }
    Ok(table)
}

fn decode_nodes(data: &[u8], pos: &mut usize, n: u32) -> (r: Result<Vec<GraphNode>, String>)
    requires
        *old(pos) <= data.len(),
    ensures
        *final(pos) <= data.len(),
        match dec_nodes(data@, *old(pos) as int, n as nat) {
            Ok((s, p)) => r is Ok && node_views(r->Ok_0@) == s && *final(pos) == p,
            Err(e) => r is Err && r->Err_0@ == e,
        },
{
    let ghost start = *pos as int;
    let ghost dec = |d: Seq<u8>, p: int| dec_node(d, p);
    let mut nodes: Vec<GraphNode> = Vec::new();
    let mut i: u32 = 0;
    assert(node_views(nodes@) == Seq::<NodeView>::empty());
    while i < n
        invariant
            i <= n,
            *pos <= data.len(),
            start == *old(pos),
            dec == (|d: Seq<u8>, p: int| dec_node(d, p)),
            dec_list(data@, start, i as nat, dec) == Ok::<(Seq<NodeView>, int), Seq<char>>(
                (node_views(nodes@), *pos as int),
            ),
        decreases n - i,
    {
        match decode_node(data, pos) {
            Ok(node) => {
                let ghost before = nodes@;
                nodes.push(node);
                assert(node_views(nodes@) == node_views(before).push(node@));
            },
            Err(e) => {
                proof {
                    dec_list_fails(data@, start, (i + 1) as nat, n as nat, dec);
                }
                return Err(e);
            },
        }
        i = i + 1;
    }
    Ok(nodes)
}

fn decode_edges(data: &[u8], pos: &mut usize, n: u32) -> (edges: Vec<Edge>)
    requires
        *old(pos) <= data.len(),
    ensures
        *final(pos) <= data.len(),
        dec_edges(data@, *old(pos) as int, n as nat) == Ok::<(Seq<Edge>, int), Seq<char>>(
            (edges@, *final(pos) as int),
        ),
{
    let ghost start = *pos as int;
    let ghost dec = |d: Seq<u8>, p: int| dec_edge(d, p);
    let mut edges: Vec<Edge> = Vec::new();
    let mut i: u32 = 0;
    while i < n
        invariant
            i <= n,
            *pos <= data.len(),
            dec == (|d: Seq<u8>, p: int| dec_edge(d, p)),
            dec_list(data@, start, i as nat, dec) == Ok::<(Seq<Edge>, int), Seq<char>>(
                (edges@, *pos as int),
            ),
        decreases n - i,
    {
        let from: u32 = read_u32(data, pos);
        let to: u32 = read_u32(data, pos);
        let weight = read_real(data, pos);
        let gate = read_opt(data, pos);
        edges.push(Edge { from, to, weight, gate });
        i = i + 1;
    }
    edges
}

proof fn dec_journal_stays(d: Seq<u8>, p: int, i: nat, n: nat)
    requires
        i <= n,
        dec_journal(d, p, i).1 >= d.len(),
    ensures
        dec_journal(d, p, n) == dec_journal(d, p, i),
    decreases n,
{
    if i < n {
        dec_journal_stays(d, p, i, (n - 1) as nat);
    }
}

fn decode_journal(data: &[u8], pos: &mut usize, n: u32) -> (journal: Vec<JournalEntry>)
    requires
        *old(pos) <= data.len(),
    ensures
        *final(pos) <= data.len(),
        dec_journal(data@, *old(pos) as int, n as nat) == (journal@, *final(pos) as int),
{
    let ghost start = *pos as int;
    let mut journal: Vec<JournalEntry> = Vec::new();
    let mut i: u32 = 0;
    while i < n
        invariant
            i <= n,
            *pos <= data.len(),
            start == *old(pos),
            dec_journal(data@, start, i as nat) == (journal@, *pos as int),
        decreases n - i,
    {
        if *pos >= data.len() {
            proof {
                dec_journal_stays(data@, start, i as nat, n as nat);
            }
            return journal;
        }
        let run_number: u64 = read_u64(data, pos);
        let node_id: u32 = read_u32(data, pos);
        let mutation = mutation_from(read_u8(data, pos));
        let reason: u32 = read_u32(data, pos);
        journal.push(JournalEntry { run_number, node_id, mutation, reason });
        i = i + 1;
    }
    journal
}

fn read_count(data: &[u8], pos: &mut usize) -> (n: u32)
    requires
        *old(pos) <= data.len(),
    ensures
        *final(pos) <= data.len(),
        (n, *final(pos) as int) == dec_count(data@, *old(pos) as int),
{
    if *pos < data.len() {
        read_u32(data, pos)
    } else {
        0
    }
}

fn decode_trailer(
    data: &[u8],
    pos: &mut usize,
    header: GraphHeader,
    entry: u32,
    string_table: Vec<Vec<u8>>,
    nodes: Vec<GraphNode>,
    edges: Vec<Edge>,
) -> (g: NeuralGraph)
    requires
        *old(pos) <= data.len(),
    ensures
        Ok::<GraphView, Seq<char>>(g@) == dec_trailer(
            data@,
            *old(pos) as int,
            header,
            entry,
            string_views(string_table@),
            node_views(nodes@),
            edges@,
        ),
{
    let state_len: usize = read_count(data, pos) as usize;
    let state = decode_reals(data, pos, state_len);
    let journal_len: u32 = read_count(data, pos);
    let journal = decode_journal(data, pos, journal_len);
    NeuralGraph { header, nodes, edges, string_table, state, entry, journal }
}

fn decode_header(data: &[u8], pos: &mut usize) -> (r: (GraphHeader, u32))
    requires
        *old(pos) <= data.len(),
    ensures
        *final(pos) <= data.len(),
        (r.0, r.1, *final(pos) as int) == dec_header(data@, *old(pos) as int),
{
    let node_count: u32 = read_u32(data, pos);
    let edge_count: u32 = read_u32(data, pos);
    let state_size: u32 = read_u32(data, pos);
    let string_count: u32 = read_u32(data, pos);
    let flags: u32 = read_u32(data, pos);
    let entry: u32 = read_u32(data, pos);
    (
        GraphHeader {
            version: FORMAT_VERSION,
            node_count,
            edge_count,
            state_size,
            string_count,
            flags,
        },
        entry,
    )
}

fn decode_tables(data: &[u8], pos: &mut usize, header: GraphHeader, entry: u32) -> (r: Result<
    NeuralGraph,
    String,
>)
    requires
        *old(pos) <= data.len(),
    ensures
        match dec_tables(data@, *old(pos) as int, header, entry) {
            Ok(g) => r is Ok && r->Ok_0@ == g,
            Err(e) => r is Err && r->Err_0@ == e,
        },
{
    let string_table = match decode_strings(data, pos, header.string_count) {
        Ok(t) => t,
        Err(e) => {
            return Err(e);
        },
    };
    let nodes = match decode_nodes(data, pos, header.node_count) {
        Ok(n) => n,
        Err(e) => {
            return Err(e);
        },
    };
    let edges = decode_edges(data, pos, header.edge_count);
    Ok(decode_trailer(data, pos, header, entry, string_table, nodes, edges))
}

impl NeuralGraph {
    /// The empty graph.
    pub fn new() -> (g: Self)
        ensures
            g@ == (GraphView {
                header: GraphHeader {
                    version: FORMAT_VERSION,
                    node_count: 0,
                    edge_count: 0,
                    state_size: 0,
                    string_count: 0,
                    flags: 0,
                },
                nodes: Seq::empty(),
                edges: Seq::empty(),
                string_table: Seq::empty(),
                state: Seq::empty(),
                entry: 0,
                journal: Seq::empty(),
            }),
    {
        NeuralGraph {
            header: GraphHeader {
                version: FORMAT_VERSION,
                node_count: 0,
                edge_count: 0,
                state_size: 0,
                string_count: 0,
                flags: 0,
            },
            nodes: Vec::new(),
            edges: Vec::new(),
            string_table: Vec::new(),
            state: Vec::new(),
            entry: 0,
            journal: Vec::new(),
        }
    }

    /// Adds a string to the table and returns its index.
    pub fn intern_string(&mut self, s: &str) -> (idx: u32)
        ensures
            idx == old(self)@.string_table.len() as u32,
            final(self)@ == old(self)@.with_string(encode_utf8(s@)),
    {
        let idx: u32 = self.string_table.len() as u32;
        let mut copy: Vec<u8> = Vec::new();
        write_bytes(&mut copy, s.as_bytes());
        let ghost before = self.string_table@;
        self.string_table.push(copy);
        self.header.string_count = self.string_table.len() as u32;
        assert(string_views(self.string_table@) == string_views(before).push(copy@));
        idx
    }

    /// Adds a node without weights and returns its id.
    pub fn add_node(&mut self, op: OpCode, operands: Vec<Operand>) -> (id: u32)
        ensures
            id == old(self)@.nodes.len() as u32,
            final(self)@ == old(self)@.with_node(op, operands@),
    {
        let id: u32 = self.nodes.len() as u32;
        let node = GraphNode {
            id,
            op,
            operands,
            weights: Vec::new(),
            bias: Real { bits: 0 },
            activation_count: 0,
            state_slot: None,
            weight_kind: WeightKind::Observational,
            annotation: None,
            contract: Contract::Unchecked,
            objective: Objective::General,
        };
        let ghost before = self.nodes@;
        self.nodes.push(node);
        self.header.node_count = self.nodes.len() as u32;
        assert(node_views(self.nodes@) == node_views(before).push(node@));
        id
    }

    /// Adds an ungated edge.
    pub fn add_edge(&mut self, from: u32, to: u32, weight: Real)
        ensures
            final(self)@ == old(self)@.with_edge(from, to, weight),
    {
        self.edges.push(Edge { from, to, weight, gate: None });
        self.header.edge_count = self.edges.len() as u32;
    }

    /// The binary form.
    pub fn to_bytes(&self) -> (buf: Vec<u8>)
        ensures
            buf@ == enc_graph(self@),
    {
        let mut buf: Vec<u8> = Vec::new();
        buf.push(0x4C);
        buf.push(0x59);
        buf.push(0x43);
        buf.push(0x4E);
        buf.push(self.header.version);
        write_u32(&mut buf, self.nodes.len() as u32);
        write_u32(&mut buf, self.edges.len() as u32);
        write_u32(&mut buf, self.state.len() as u32);
        write_u32(&mut buf, self.string_table.len() as u32);
        write_u32(&mut buf, self.header.flags);
        write_u32(&mut buf, self.entry);
        assert(buf@ == enc_head(self@));
        self.encode_strings(&mut buf);
        self.encode_nodes(&mut buf);
        self.encode_edges(&mut buf);
        write_u32(&mut buf, self.state.len() as u32);
        encode_reals(&mut buf, &self.state);
        write_u32(&mut buf, self.journal.len() as u32);
        self.encode_journal(&mut buf);
        buf
    }

    fn encode_strings(&self, buf: &mut Vec<u8>)
        ensures
            final(buf)@ == old(buf)@ + enc_strings(self@.string_table),
    {
        let ghost before = buf@;
        let ghost enc = |x: Seq<u8>| enc_string(x);
        let ghost all = self@.string_table;
        let mut i: usize = 0;
        assert(all.take(0) == Seq::<Seq<u8>>::empty());
        while i < self.string_table.len()
            invariant
                i <= self.string_table.len(),
                all == string_views(self.string_table@),
                enc == (|x: Seq<u8>| enc_string(x)),
                buf@ == before + enc_list(all.take(i as int), enc),
            decreases self.string_table.len() - i,
        {
            write_u32(buf, self.string_table[i].len() as u32);
            write_bytes(buf, self.string_table[i].as_slice());
            proof {
                enc_list_push(all, i as int, enc);
            }
            i = i + 1;
        }
        assert(all.take(i as int) == all);
    }

    fn encode_nodes(&self, buf: &mut Vec<u8>)
        ensures
            final(buf)@ == old(buf)@ + enc_nodes(self@.nodes),
    {
        let ghost before = buf@;
        let ghost enc = |n: NodeView| enc_node(n);
        let ghost all = self@.nodes;
        let mut i: usize = 0;
        assert(all.take(0) == Seq::<NodeView>::empty());
        while i < self.nodes.len()
            invariant
                i <= self.nodes.len(),
                all == node_views(self.nodes@),
                enc == (|n: NodeView| enc_node(n)),
                buf@ == before + enc_list(all.take(i as int), enc),
            decreases self.nodes.len() - i,
        {
            encode_node(buf, &self.nodes[i]);
            proof {
                enc_list_push(all, i as int, enc);
            }
            i = i + 1;
        }
        assert(all.take(i as int) == all);
    }

    fn encode_edges(&self, buf: &mut Vec<u8>)
        ensures
            final(buf)@ == old(buf)@ + enc_edges(self@.edges),
    {
        let ghost before = buf@;
        let ghost enc = |e: Edge| enc_edge(e);
        let mut i: usize = 0;
        assert(self.edges@.take(0) == Seq::<Edge>::empty());
        while i < self.edges.len()
            invariant
                i <= self.edges.len(),
                enc == (|e: Edge| enc_edge(e)),
                buf@ == before + enc_list(self.edges@.take(i as int), enc),
            decreases self.edges.len() - i,
        {
            encode_edge(buf, &self.edges[i]);
            proof {
                enc_list_push(self.edges@, i as int, enc);
            }
            i = i + 1;
        }
        assert(self.edges@.take(i as int) == self.edges@);
    }

    fn encode_journal(&self, buf: &mut Vec<u8>)
        ensures
            final(buf)@ == old(buf)@ + enc_journal(self@.journal),
    {
        let ghost before = buf@;
        let ghost enc = |e: JournalEntry| enc_entry(e);
        let mut i: usize = 0;
        assert(self.journal@.take(0) == Seq::<JournalEntry>::empty());
        while i < self.journal.len()
            invariant
                i <= self.journal.len(),
                enc == (|e: JournalEntry| enc_entry(e)),
                buf@ == before + enc_list(self.journal@.take(i as int), enc),
            decreases self.journal.len() - i,
        {
            encode_entry(buf, &self.journal[i]);
            proof {
                enc_list_push(self.journal@, i as int, enc);
            }
            i = i + 1;
        }
        assert(self.journal@.take(i as int) == self.journal@);
    }

    /// Reads the binary form back.
    pub fn from_bytes(data: &[u8]) -> (r: Result<Self, String>)
        ensures
            match dec_graph(data@) {
                Ok(g) => r is Ok && r->Ok_0@ == g,
                Err(e) => r is Err && r->Err_0@ == e,
            },
    {
        if data.len() < 5 || data[0] != 0x4C || data[1] != 0x59 || data[2] != 0x43 || data[3]
            != 0x4E {
            proof {
                if data@.len() >= 5 {
                    let s = data@.subrange(0, 4);
                    assert(s[0] == data@[0] && s[1] == data@[1] && s[2] == data@[2] && s[3]
                        == data@[3]);
                    assert(magic()[0] == 0x4C && magic()[1] == 0x59 && magic()[2] == 0x43
                        && magic()[3] == 0x4E);
                }
            }
            return Err(String::from_str("invalid .lyc file: bad magic"));
        }
        assert(data@.subrange(0, 4) == magic());
        let mut pos: usize = 4;
        let version: u8 = read_u8(data, &mut pos);
        if version != FORMAT_VERSION {
            return Err(labelled("unsupported version ", version as u64));
        }
        let (header, entry) = decode_header(data, &mut pos);
        decode_tables(data, &mut pos, header, entry)
    }

    /// The string at an index, or the empty string.
    pub fn get_string(&self, idx: u32) -> (s: String)
        ensures
            s@ == self@.string_at(idx),
    {
        if (idx as usize) < self.string_table.len() {
            lossy(self.string_table[idx as usize].as_slice())
        } else {
            String::new()
        }
    }
}

impl GraphView {
    /// The graph with one more string.
    pub open spec fn with_string(self, s: Seq<u8>) -> GraphView {
        GraphView {
            header: GraphHeader {
                string_count: (self.string_table.len() + 1) as u32,
                ..self.header
            },
            string_table: self.string_table.push(s),
            ..self
        }
    }

    /// The graph with one more plain node.
    pub open spec fn with_node(self, op: OpCode, operands: Seq<Operand>) -> GraphView {
        GraphView {
            header: GraphHeader { node_count: (self.nodes.len() + 1) as u32, ..self.header },
            nodes: self.nodes.push(plain_node(self.nodes.len() as u32, op, operands)),
            ..self
        }
    }

    /// The graph with one more ungated edge.
    pub open spec fn with_edge(self, from: u32, to: u32, weight: Real) -> GraphView {
        GraphView {
            header: GraphHeader { edge_count: (self.edges.len() + 1) as u32, ..self.header },
            edges: self.edges.push(Edge { from, to, weight, gate: None }),
            ..self
        }
    }

    /// The text of a string of the table; empty where there is none.
    pub open spec fn string_at(self, idx: u32) -> Seq<char> {
        if idx < self.string_table.len() {
            lossy_text(self.string_table[idx as int])
        } else {
            Seq::empty()
        }
    }
}

/// A node as `add_node` makes it.
pub open spec fn plain_node(id: u32, op: OpCode, operands: Seq<Operand>) -> NodeView {
    NodeView {
        id,
        op,
        operands,
        weights: Seq::empty(),
        bias: Real { bits: 0 },
        activation_count: 0,
        state_slot: None,
        weight_kind: WeightKind::Observational,
        annotation: None,
        contract: Contract::Unchecked,
        objective: Objective::General,
    }
}

} // verus!
