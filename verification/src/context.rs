//! What a run may do and what it is given.
use crate::cap_value::CapValue;
use crate::json::Json;
use crate::number::Real;
use crate::table::Table;
use vstd::prelude::*;

verus! {

/// What a program is allowed to do at runtime.
#[derive(Clone, Debug)]
pub struct ExecutionPolicy {
    pub allow_stdout: bool,
    pub allow_stdin: bool,
    pub allow_file_read: bool,
    pub allow_file_write: bool,
    pub allow_network: bool,
    /// Root directory of the file capabilities.
    pub file_root: Option<String>,
    /// Hosts that may be reached; none where the list is empty.
    pub allowed_hosts: Vec<String>,
    /// Whether local and private addresses are out of reach.
    pub deny_private_networks: bool,
}

impl Default for ExecutionPolicy {
    fn default() -> (p: Self)
        ensures
            p.allow_stdout && p.allow_stdin && p.allow_file_read && p.allow_file_write
                && p.allow_network && p.deny_private_networks,
            p.file_root is None,
            p.allowed_hosts@.len() == 0,
    {
        ExecutionPolicy {
            allow_stdout: true,
            allow_stdin: true,
            allow_file_read: true,
            allow_file_write: true,
            allow_network: true,
            file_root: None,
            allowed_hosts: Vec::new(),
            deny_private_networks: true,
        }
    }
}

/// How an adaptive choice picks among its options.
#[derive(Clone, Copy, Debug, PartialEq, Eq, Structural)]
pub enum SelectionMode {
    Greedy,
    Weighted,
    EpsilonGreedy,
}

/// The bits of 0.1.
pub const DEFAULT_EPSILON: u64 = 0x3FB9_9999_9999_999A;

/// The boundary of a run.
#[derive(Debug)]
pub struct ExecutionContext {
    pub policy: Option<ExecutionPolicy>,
    pub input: Option<CapValue>,
    pub working_dir: Option<String>,
    pub selection_mode: SelectionMode,
    pub selection_epsilon: Real,
    /// Values published during the run, by name; nowhere where there is no
    /// buffer.
    pub published: Option<Table<Json>>,
}

/// An empty buffer of published values.
pub fn new_published_buffer() -> (t: Table<Json>)
    ensures
        t@ == Map::<Seq<char>, Json>::empty(),
        t.wf(),
        t.sorted(),
{
    Table::new()
}

impl ExecutionContext {
    /// A greedy context with this policy and input.
    pub open spec fn plain(self, policy: Option<ExecutionPolicy>, input: Option<CapValue>) -> bool {
        &&& self.policy == policy
        &&& self.input == input
        &&& self.working_dir is None
        &&& self.selection_mode == SelectionMode::Greedy
        &&& self.selection_epsilon.bits == DEFAULT_EPSILON
        &&& self.published is None
    }

    /// The published values have names in order, each once.
    pub open spec fn wf(self) -> bool {
        self.published matches Some(t) ==> t.wf() && t.sorted()
    }

    /// Keeps a published value; the latest of a name counts. Without a buffer
    /// nothing is kept.
    pub fn publish(&mut self, name: String, value: Json)
        requires
            old(self).wf(),
        ensures
            final(self).wf(),
            match old(self).published {
                Some(t) => final(self).published is Some && final(self).published->Some_0@
                    == t@.insert(name@, value),
                None => final(self).published is None,
            },
            final(self).policy == old(self).policy,
            final(self).input == old(self).input,
            final(self).working_dir == old(self).working_dir,
            final(self).selection_mode == old(self).selection_mode,
            final(self).selection_epsilon == old(self).selection_epsilon,
    {
        let mut kept: Option<Table<Json>> = None;
        std::mem::swap(&mut kept, &mut self.published);
        if let Some(mut t) = kept {
            t.insert_sorted(name, value);
            self.published = Some(t);
        }
    }

    fn of(policy: Option<ExecutionPolicy>, input: Option<CapValue>) -> (c: Self)
        ensures
            c.plain(policy, input),
    {
        ExecutionContext {
            policy,
            input,
            working_dir: None,
            selection_mode: SelectionMode::Greedy,
            selection_epsilon: Real { bits: DEFAULT_EPSILON },
            published: None,
        }
    }

    /// No policy and no input.
    pub fn unrestricted() -> (c: Self)
        ensures
            c.plain(None, None),
    {
        ExecutionContext::of(None, None)
    }

    pub fn with_policy(policy: ExecutionPolicy) -> (c: Self)
        ensures
            c.plain(Some(policy), None),
    {
        ExecutionContext::of(Some(policy), None)
    }

    pub fn with_input(input: CapValue) -> (c: Self)
        ensures
            c.plain(None, Some(input)),
    {
        ExecutionContext::of(None, Some(input))
    }

    pub fn full(policy: ExecutionPolicy, input: CapValue) -> (c: Self)
        ensures
            c.plain(Some(policy), Some(input)),
    {
        ExecutionContext::of(Some(policy), Some(input))
    }
}

} // verus!
