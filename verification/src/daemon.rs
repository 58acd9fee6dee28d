//! The processes that the daemon runs.
use crate::{CircuitBreakerState, Process, ProcessConfig, ProcessState, ProcID, Status};
use std::collections::HashMap;
use vstd::prelude::*;

verus! {

/// What a standard stream of a process is connected to.
#[derive(Debug, Clone, Copy, PartialEq, Eq)]
pub enum StreamMode {
    Null,
    Piped,
}

/// How a process is started.
#[derive(Debug, PartialEq, Eq)]
pub struct Launch {
    pub program: String,
    pub current_dir: String,
    pub args: Vec<String>,
    pub stdin: StreamMode,
    pub stdout: StreamMode,
    pub stderr: StreamMode,
}

impl Launch {
    /// This is how the process of `config` is started: in the directory of its
    /// executable, without input and with both outputs captured.
    pub open spec fn starts(self, config: ProcessConfig) -> bool {
        &&& self.program@ == config.path@
        &&& crate::paths::is_parent(config.path@, self.current_dir@)
        &&& crate::paths::is_portable(config.path@) ==> self.current_dir@
            == crate::paths::unix_parent(config.path@)
        &&& self.args@ == config.args@
        &&& self.stdin == StreamMode::Null
        &&& self.stdout == StreamMode::Piped
        &&& self.stderr == StreamMode::Piped
    }
}

/// A process that was started, as `Runtime` gives access to it.
#[derive(Debug, PartialEq, Eq)]
pub struct DaemonProcess<Runtime> {
    pub runtime: Runtime,
    pub state: ProcessState,
}

/// The daemon's processes by id.
pub struct Daemon<Runtime> {
    pub processes: HashMap<ProcID, DaemonProcess<Runtime>>,
}

impl<Runtime> DaemonProcess<Runtime> {
    /// A process that was just started.
    pub fn starting(runtime: Runtime) -> (r: Self)
        ensures
            r.runtime == runtime,
            r.state.status == Status::Starting,
            r.state.circuit_breaker_state == None::<CircuitBreakerState>,
    {
        DaemonProcess {
            runtime,
            state: ProcessState { status: Status::Starting, circuit_breaker_state: None },
        }
    }
}

/// No later one of `configs` has the id of the one at `i`.
pub open spec fn is_last(configs: Seq<Process>, i: int) -> bool {
    forall|j: int| i < j < configs.len() ==> (#[trigger] configs[j]).id != configs[i].id
}

impl<Runtime> Daemon<Runtime> {
    /// How the process of `config` is started.
    pub fn run_process(config: &ProcessConfig) -> (r: Launch)
        ensures
            r.starts(*config),
    {
        let parent_dir = crate::paths::parent_dir(&config.path);
        let args = config.args.clone();
        assert(args@ =~= config.args@);
        Launch {
            program: config.path.clone(),
            current_dir: parent_dir,
            args,
            stdin: StreamMode::Null,
            stdout: StreamMode::Piped,
            stderr: StreamMode::Piped,
        }
    }

    /// How the processes of `configs` are started, one after the other.
    pub fn launches(configs: &Vec<Process>) -> (r: Vec<Launch>)
        ensures
            r@.len() == configs@.len(),
            forall|i: int|
                0 <= i < configs@.len() ==> (#[trigger] r@[i]).starts(configs@[i].config),
    {
        let mut launches: Vec<Launch> = Vec::new();
        let mut i: usize = 0;
        while i < configs.len()
            invariant
                i <= configs@.len(),
                launches@.len() == i,
                forall|j: int| 0 <= j < i ==> (#[trigger] launches@[j]).starts(configs@[j].config),
            decreases configs@.len() - i,
        {
            launches.push(Self::run_process(&configs[i].config));
            i += 1;
        }
        launches
    }

    /// The daemon that has started `configs`, where `runtimes` are the processes
    /// that came of them. Of several with one id, the last one is kept.
    pub fn new(configs: &Vec<Process>, runtimes: Vec<Runtime>) -> (r: Self)
        requires
            runtimes@.len() == configs@.len(),
        ensures
            forall|id: ProcID| #[trigger]
                r.processes@.contains_key(id) <==> exists|i: int|
                    0 <= i < configs@.len() && (#[trigger] configs@[i]).id == id,
            forall|i: int|
                0 <= i < configs@.len() && #[trigger] is_last(configs@, i) ==> {
                    let process = r.processes@[configs@[i].id];
                    &&& process.runtime == runtimes@[i]
                    &&& process.state.status == Status::Starting
                    &&& process.state.circuit_breaker_state == None::<CircuitBreakerState>
                },
    {
        broadcast use vstd::std_specs::hash::group_hash_axioms;

        let mut processes: HashMap<ProcID, DaemonProcess<Runtime>> = HashMap::new();
        let mut index: usize = 0;
        for runtime in it: runtimes
            invariant
                index == it.index(),
                index <= configs.len(),
                it.seq() == runtimes@,
                runtimes@.len() == configs@.len(),
                forall|id: ProcID| #[trigger]
                    processes@.contains_key(id) <==> exists|i: int|
                        0 <= i < index && (#[trigger] configs@[i]).id == id,
                forall|i: int|
                    0 <= i < index && #[trigger] is_last(configs@.take(index as int), i) ==> {
                        let process = processes@[configs@[i].id];
                        &&& process.runtime == runtimes@[i]
                        &&& process.state.status == Status::Starting
                        &&& process.state.circuit_breaker_state == None::<CircuitBreakerState>
                    },
        {
            let id = configs[index].id;
            processes.insert(id, DaemonProcess::starting(runtime));
            proof {
                let seen = configs@.take(index as int);
                let seen_now = configs@.take(index + 1);
                assert forall|i: int| 0 <= i < index && #[trigger] is_last(seen_now, i) implies {
                    &&& is_last(seen, i)
                    &&& configs@[i].id != id
                } by {
                    assert(seen_now[index as int].id == id);
                    assert forall|j: int| i < j < seen.len() implies (#[trigger] seen[j]).id
                        != seen[i].id by {
                        assert(seen[j] == seen_now[j]);
                    }
                }
            }
            index += 1;
        }
        assert(configs@.take(index as int) =~= configs@);
        Daemon { processes }
    }
}

/// Whether a launch is that of a configuration depends on the path and the
/// arguments alone: on every path, groups and options have no effect.
pub proof fn law_groups_and_options_have_no_effect(
    config1: ProcessConfig,
    config2: ProcessConfig,
    launch: Launch,
)
    requires
        config1.path@ == config2.path@,
        config1.args@ == config2.args@,
    ensures
        launch.starts(config1) <==> launch.starts(config2),
{
}

/// Two configurations with the same path and the same arguments are started by
/// the same program with the same arguments and streams, whatever their groups
/// and options. The working directory is the same, too, where the platforms'
/// conventions agree on the parent of the path, as they do on a portable one.
pub proof fn law_path_and_args_determine_launch(
    config1: ProcessConfig,
    config2: ProcessConfig,
    launch1: Launch,
    launch2: Launch,
)
    requires
        launch1.starts(config1),
        launch2.starts(config2),
        config1.path@ == config2.path@,
        config1.args.deep_view() == config2.args.deep_view(),
    ensures
        launch1.program@ == launch2.program@,
        launch1.args.deep_view() == launch2.args.deep_view(),
        launch1.stdin == launch2.stdin,
        launch1.stdout == launch2.stdout,
        launch1.stderr == launch2.stderr,
        crate::paths::has_one_parent(config1.path@) ==> launch1.current_dir@
            == launch2.current_dir@,
        crate::paths::is_portable(config1.path@) ==> launch1.current_dir@ == launch2.current_dir@,
{
}

/// Every id has a last configuration, so each process of the daemon is
/// determined by the configurations and what came of them.
pub proof fn law_every_id_has_a_last(configs: Seq<Process>, i: int) -> (last: int)
    requires
        0 <= i < configs.len(),
    ensures
        i <= last < configs.len(),
        configs[last].id == configs[i].id,
        is_last(configs, last),
    decreases configs.len() - i,
{
    if is_last(configs, i) {
        i
    } else {
        let j = choose|j: int| i < j < configs.len() && (#[trigger] configs[j]).id == configs[i].id;
        law_every_id_has_a_last(configs, j)
    }
}

/// Where no two configurations share an id, none displaces another.
pub proof fn law_distinct_ids_are_all_kept(configs: Seq<Process>, i: int)
    requires
        forall|j: int, k: int|
            0 <= j < k < configs.len() ==> (#[trigger] configs[j]).id != (
            #[trigger] configs[k]).id,
        0 <= i < configs.len(),
    ensures
        is_last(configs, i),
{
}

/// A process is started with its own program and exactly its own arguments: as
/// many as are configured, each in its place, whatever their number.
pub proof fn law_launch_has_every_argument<Runtime>(config: ProcessConfig, launch: Launch)
    requires
        call_ensures(Daemon::<Runtime>::run_process, (&config,), launch),
    ensures
        launch.program@ == config.path@,
        launch.args@.len() == config.args@.len(),
        forall|i: int|
            0 <= i < config.args@.len() ==> (#[trigger] launch.args@[i])@ == config.args@[i]@,
{
}

/// Configurations that differ in their path or in any argument are never started
/// by one and the same launch.
pub proof fn law_different_commands_are_launched_differently<Runtime>(
    config1: ProcessConfig,
    config2: ProcessConfig,
    launch: Launch,
)
    requires
        call_ensures(Daemon::<Runtime>::run_process, (&config1,), launch),
        call_ensures(Daemon::<Runtime>::run_process, (&config2,), launch),
    ensures
        config1.path@ == config2.path@,
        config1.args@.len() == config2.args@.len(),
        forall|i: int|
            0 <= i < config1.args@.len() ==> (#[trigger] config1.args@[i])@ == config2.args@[i]@,
{
}

/// No process is given input, and both outputs of every process are captured.
pub proof fn law_launch_captures_both_outputs<Runtime>(config: ProcessConfig, launch: Launch)
    requires
        call_ensures(Daemon::<Runtime>::run_process, (&config,), launch),
    ensures
        launch.stdin == StreamMode::Null,
        launch.stdout == StreamMode::Piped,
        launch.stderr == StreamMode::Piped,
{
}

/// A process is started in the directory of its executable, also where that is
/// the root or, for a bare name, the empty path.
pub proof fn law_process_starts_in_its_directory<Runtime>(
    config: ProcessConfig,
    dir: Seq<char>,
    gap: Seq<char>,
    name: Seq<char>,
    launch: Launch,
)
    requires
        call_ensures(Daemon::<Runtime>::run_process, (&config,), launch),
        crate::paths::is_plain(config.path@),
        crate::paths::is_gap(gap),
        gap.last() == '/',
        crate::paths::is_entry(name),
        ({
            ||| config.path@ == dir + gap + name && crate::paths::is_trim(dir)
            ||| config.path@ == gap + name && dir == seq!['/']
            ||| config.path@ == name && dir.len() == 0
        }),
    ensures
        launch.current_dir@ == dir,
{
    crate::paths::lemma_top_level_entry(gap, name);
    if config.path@ == dir + gap + name && crate::paths::is_trim(dir) {
        crate::paths::lemma_entry(dir, gap, name);
    }
    assert(crate::paths::is_portable(config.path@));
}

/// The processes are started one for one and in order, each with its own program,
/// its own arguments and captured outputs.
pub proof fn law_every_process_is_launched_in_order<Runtime>(
    configs: Vec<Process>,
    launches: Vec<Launch>,
    i: int,
)
    requires
        call_ensures(Daemon::<Runtime>::launches, (&configs,), launches),
        0 <= i < configs@.len(),
    ensures
        launches@.len() == configs@.len(),
        launches@[i].program@ == configs@[i].config.path@,
        launches@[i].args@.len() == configs@[i].config.args@.len(),
        forall|j: int|
            0 <= j < configs@[i].config.args@.len() ==> (#[trigger] launches@[i].args@[j])@
                == configs@[i].config.args@[j]@,
        launches@[i].stdin == StreamMode::Null,
        launches@[i].stdout == StreamMode::Piped,
        launches@[i].stderr == StreamMode::Piped,
{
    assert(launches@[i].starts(configs@[i].config));
}

/// A process of a list is started just as it would be alone, in the same
/// directory where all platforms read its path alike.
pub proof fn law_list_launches_as_one_by_one<Runtime>(
    configs: Vec<Process>,
    launches: Vec<Launch>,
    i: int,
    alone: Launch,
)
    requires
        call_ensures(Daemon::<Runtime>::launches, (&configs,), launches),
        0 <= i < configs@.len(),
        call_ensures(Daemon::<Runtime>::run_process, (&configs@[i].config,), alone),
    ensures
        launches@[i].program@ == alone.program@,
        launches@[i].args.deep_view() == alone.args.deep_view(),
        crate::paths::is_plain(configs@[i].config.path@) ==> launches@[i].current_dir@
            == alone.current_dir@,
        launches@[i].stdin == alone.stdin,
        launches@[i].stdout == alone.stdout,
        launches@[i].stderr == alone.stderr,
{
    assert(launches@[i].starts(configs@[i].config));
    assert(crate::paths::is_plain(configs@[i].config.path@) ==> crate::paths::is_portable(
        configs@[i].config.path@,
    ));
}

/// Under each id that is configured the daemon has what came of the last
/// configuration with that id, and it is starting.
pub proof fn law_daemon_keeps_the_last_of_each_id<Runtime>(
    configs: Vec<Process>,
    runtimes: Vec<Runtime>,
    daemon: Daemon<Runtime>,
    i: int,
)
    requires
        call_ensures(Daemon::<Runtime>::new, (&configs, runtimes), daemon),
        0 <= i < configs@.len(),
        forall|j: int| i < j < configs@.len() ==> (#[trigger] configs@[j]).id != configs@[i].id,
    ensures
        daemon.processes@.contains_key(configs@[i].id),
        daemon.processes@[configs@[i].id].runtime == runtimes@[i],
        daemon.processes@[configs@[i].id].state == (ProcessState {
            status: Status::Starting,
            circuit_breaker_state: None,
        }),
{
    assert(is_last(configs@, i));
}

/// The daemon has no process under an id that is not configured.
pub proof fn law_daemon_has_no_other_process<Runtime>(
    configs: Vec<Process>,
    runtimes: Vec<Runtime>,
    daemon: Daemon<Runtime>,
    id: ProcID,
)
    requires
        call_ensures(Daemon::<Runtime>::new, (&configs, runtimes), daemon),
        forall|j: int| 0 <= j < configs@.len() ==> (#[trigger] configs@[j]).id != id,
    ensures
        !daemon.processes@.contains_key(id),
{
}

/// A process that was just started is what came of it, is starting, and has no
/// circuit breaker.
pub proof fn law_started_process_is_starting<Runtime>(
    runtime: Runtime,
    process: DaemonProcess<Runtime>,
)
    requires
        call_ensures(DaemonProcess::<Runtime>::starting, (runtime,), process),
    ensures
        process.runtime == runtime,
        process.state == (ProcessState {
            status: Status::Starting,
            circuit_breaker_state: None,
        }),
{
}

/// On every path, a process is started in what is left of the path without its
/// final component, whether it is started alone or as one of a list.
pub proof fn law_working_directory_is_the_parent<Runtime>(
    configs: Vec<Process>,
    launches: Vec<Launch>,
    i: int,
    config: ProcessConfig,
    alone: Launch,
)
    requires
        call_ensures(Daemon::<Runtime>::launches, (&configs,), launches),
        0 <= i < configs@.len(),
        call_ensures(Daemon::<Runtime>::run_process, (&config,), alone),
    ensures
        crate::paths::is_parent(configs@[i].config.path@, launches@[i].current_dir@),
        crate::paths::is_parent(config.path@, alone.current_dir@),
        alone.current_dir@ == config.path@.take(alone.current_dir@.len() as int),
{
    assert(launches@[i].starts(configs@[i].config));
    assert(alone.current_dir@ =~= config.path@.take(alone.current_dir@.len() as int));
}

} // verus!
