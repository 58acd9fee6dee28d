//! The core of a process-manager daemon: the data that the daemon and its
//! clients exchange, the framing of messages, the splitting of process output
//! into log lines, the routing of notifications, and the bookkeeping of
//! connections, processes and the stored configuration.
//!
//! Nothing here waits or touches the outside world. Where the daemon alternates
//! between waiting and deciding, the deciding half stands here as a function
//! from what happened to what is to be done next.
pub mod proto;
pub mod logger;
pub mod duplex;
pub mod connection;
pub mod config;
pub mod formats;
pub mod paths;
pub mod daemon;

use vstd::prelude::*;

verus! {

/// Name of the local socket that the daemon listens on.
pub const DAEMON_SOCKET_NAME: &'static str = "rm2daemon.sock";

pub type ProcID = u32;

#[derive(Debug, Clone, Copy, PartialEq, Eq)]
pub struct CircuitBreakerOptions {}

#[derive(Debug, Clone, Copy, PartialEq, Eq)]
pub struct ProcessOptions {
    pub save_logs: bool,
    /// The circuit breaker is not used where this is `None`.
    pub circuit_breaker: Option<CircuitBreakerOptions>,
}

#[derive(Debug, Clone, PartialEq, Eq)]
pub struct ProcessConfig {
    /// Path of the executable.
    pub path: String,
    pub args: Vec<String>,
    pub groups: Vec<String>,
    pub options: ProcessOptions,
}

#[derive(Debug, Clone, PartialEq, Eq)]
pub struct Process {
    pub id: ProcID,
    pub config: ProcessConfig,
}

#[derive(Debug, Clone, Copy, PartialEq, Eq)]
pub enum Status {
    Starting,
    Running { pid: u32 },
    Stopped,
    Crashed { code: Option<i32> },
}

#[derive(Debug, Clone, Copy, PartialEq, Eq)]
pub enum CircuitBreakerState {
    Open,
    HalfOpen,
    Closed,
}

/// Runtime state of a process.
#[derive(Debug, Clone, Copy, PartialEq, Eq)]
pub struct ProcessState {
    pub status: Status,
    /// `None` where the process opted out of the circuit breaker.
    pub circuit_breaker_state: Option<CircuitBreakerState>,
}

impl Process {
    /// The groups that the process belongs to, as sequences of characters.
    pub open spec fn groups(self) -> Seq<Seq<char>> {
        self.config.groups@.map_values(|g: String| g@)
    }
}

/// Defines how to select processes from the pool.
#[derive(Debug, Clone, PartialEq, Eq)]
pub enum Selector {
    All,
    Group(String),
    Particular { id: ProcID },
}

impl Selector {
    /// `All` selects every process, `Group` the members of the group,
    /// `Particular` the process with that id.
    pub open spec fn spec_selects(self, process: Process) -> bool {
        match self {
            Selector::All => true,
            Selector::Group(group) => process.groups().contains(group@),
            Selector::Particular { id } => process.id == id,
        }
    }

    /// Whether `process` is among the processes that the selector stands for.
    pub fn selects(&self, process: &Process) -> (r: bool)
        ensures
            r == self.spec_selects(*process),
    {
        match self {
            Selector::All => true,
            Selector::Group(group) => {
                let groups = &process.config.groups;
                let mut i: usize = 0;
                while i < groups.len()
                    invariant
                        i <= groups.len(),
                        groups == process.config.groups,
                        *self == Selector::Group(*group),
                        forall|j: int| 0 <= j < i ==> process.groups()[j] != group@,
                    decreases groups.len() - i,
                {
                    if groups[i].eq(group) {
                        assert(process.groups()[i as int] == group@);
                        return true;
                    }
                    i += 1;
                }
                false
            },
            Selector::Particular { id } => process.id == *id,
        }
    }
}

/// `std::io::Error`, of which nothing is claimed: it is only carried through.
#[verifier::external_type_specification]
#[verifier::external_body]
pub struct ExIoError(std::io::Error);

/// A wire format, known by the errors that its two directions can end in.
pub trait BytesFormat {
    type SerError;

    type DeError;
}

/// `All` selects every process, without a condition.
pub proof fn law_all_selects_every_process(process: Process, selected: bool)
    requires
        call_ensures(Selector::selects, (&Selector::All, &process), selected),
    ensures
        selected,
{
}

/// A process is selected by its id exactly where the id is its own.
pub proof fn law_particular_selects_its_id(id: ProcID, process: Process, selected: bool)
    requires
        call_ensures(Selector::selects, (&Selector::Particular { id }, &process), selected),
    ensures
        selected <==> id == process.id,
{
}

/// A process is selected by a group exactly where one of its groups, whichever
/// it is, has that name.
pub proof fn law_group_selects_its_members(group: String, process: Process, selected: bool)
    requires
        call_ensures(Selector::selects, (&Selector::Group(group), &process), selected),
    ensures
        selected <==> exists|i: int|
            0 <= i < process.config.groups@.len() && (#[trigger] process.config.groups@[i])@
                == group@,
{
    let groups = process.config.groups@;
    if selected {
        let i = process.groups().index_of(group@);
        assert(groups[i]@ == group@);
    }
    if exists|i: int| 0 <= i < groups.len() && (#[trigger] groups[i])@ == group@ {
        let i = choose|i: int| 0 <= i < groups.len() && (#[trigger] groups[i])@ == group@;
        assert(process.groups()[i] == group@);
    }
}

/// Whether a process is selected depends on its id and on its groups alone:
/// neither the path nor the arguments nor the options have an effect, and what
/// any selector selects is selected by `All`.
pub proof fn law_selection_depends_on_id_and_groups(
    selector: Selector,
    process1: Process,
    process2: Process,
    selected1: bool,
    selected2: bool,
    selected_by_all: bool,
)
    requires
        call_ensures(Selector::selects, (&selector, &process1), selected1),
        call_ensures(Selector::selects, (&selector, &process2), selected2),
        call_ensures(Selector::selects, (&Selector::All, &process1), selected_by_all),
        process1.id == process2.id,
        process1.config.groups.deep_view() == process2.config.groups.deep_view(),
    ensures
        selected1 == selected2,
        selected1 ==> selected_by_all,
{
    let groups1 = process1.config.groups;
    let groups2 = process2.config.groups;
    assert(process1.groups() =~= process2.groups()) by {
        assert(groups1.deep_view().len() == groups1@.len());
        assert(groups2.deep_view().len() == groups2@.len());
        assert forall|i: int| 0 <= i < groups1@.len() implies groups1@[i]@ == groups2@[i]@ by {
            assert(groups1.deep_view()[i] == groups1@[i]@);
            assert(groups2.deep_view()[i] == groups2@[i]@);
        }
    }
}

} // verus!
