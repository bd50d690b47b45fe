//! The supervisor of the server process: at most one process at a time, with
//! the log streamer and the sampler that belong to it.
//!
//! The supervisor decides; it launches and terminates nothing itself. A
//! caller asks `launch_command` what to launch, launches it, and tells
//! `start` how that went; it terminates the process of `process` and tells
//! `stop` how that went.

use crate::commands::java::{JavaInfo, JavaInfoView};
use crate::console::{command_line, ConsoleManager, ConsoleMessageView, LogStream};
use crate::error::{SupervisorError, SupervisorErrorView};
use crate::monitoring::{PerformanceMetrics, PerformanceMonitor, DEFAULT_TPS};
use crate::text::{decimal, decimal_text};
use crate::{ServerConfig, ServerConfigView};
use vstd::prelude::*;
use vstd::string::*;

verus! {

/// The spawned process as the supervisor sees it: its id, and which of its
/// three streams were captured.
#[derive(Debug, Clone, Copy, PartialEq, Eq, Structural)]
pub struct ProcessHandle {
    pub pid: u32,
    pub stdin_open: bool,
    pub stdout_open: bool,
    pub stderr_open: bool,
}

/// A snapshot of the supervised server. Tick rate in thousandths of a tick
/// per second, memory in bytes, processor load in thousandths of a percent.
#[derive(Debug, Clone, Copy, PartialEq, Eq, Structural)]
pub struct ServerStatus {
    pub is_running: bool,
    pub players_online: u32,
    pub tps: u32,
    pub memory_usage: u64,
    pub cpu_usage: u32,
}

/// What to launch: the runtime's executable, its arguments, and the directory
/// to launch it in.
#[derive(Debug)]
pub struct LaunchCommand {
    pub program: String,
    pub args: Vec<String>,
    pub working_dir: String,
}

/// What a `LaunchCommand` is, with text as character sequences.
pub struct LaunchCommandView {
    pub program: Seq<char>,
    pub args: Seq<Seq<char>>,
    pub working_dir: Seq<char>,
}

impl View for LaunchCommand {
    type V = LaunchCommandView;

    open spec fn view(&self) -> LaunchCommandView {
        LaunchCommandView {
            program: self.program@,
            args: Seq::new(self.args@.len(), |i: int| self.args@[i]@),
            working_dir: self.working_dir@,
        }
    }
}

/// The snapshot of a server whose process is present or not, given the
/// sampler's latest sample. Without a sample the snapshot shows the defaults:
/// no players, 20 ticks per second, no load. The defaults say "unknown", not
/// "measured".
pub open spec fn status_of(running: bool, latest: Option<PerformanceMetrics>) -> ServerStatus {
    match latest {
        Some(m) => ServerStatus {
            is_running: running,
            players_online: m.player_count,
            tps: m.tps,
            memory_usage: m.memory_usage,
            cpu_usage: m.cpu_usage,
        },
        None => ServerStatus {
            is_running: running,
            players_online: 0,
            tps: DEFAULT_TPS,
            memory_usage: 0,
            cpu_usage: 0,
        },
    }
}

/// `i` is the first place of `runtimes` that holds a valid runtime.
pub open spec fn is_first_valid(runtimes: Seq<JavaInfoView>, i: int) -> bool {
    &&& 0 <= i < runtimes.len()
    &&& runtimes[i].is_valid
    &&& forall|j: int| 0 <= j < i ==> !runtimes[j].is_valid
}

/// Whether `runtimes` holds a valid runtime.
pub open spec fn has_valid(runtimes: Seq<JavaInfoView>) -> bool {
    exists|i: int| 0 <= i < runtimes.len() && runtimes[i].is_valid
}

/// The arguments of the launch: the memory bounds, the archive to run, and
/// the switch that keeps the server from opening a window.
pub open spec fn launch_args(config: ServerConfigView, jar_path: Seq<char>) -> Seq<Seq<char>> {
    seq![
        "-Xms"@ + decimal(config.memory.min_mb as nat) + "M"@,
        "-Xmx"@ + decimal(config.memory.max_mb as nat) + "M"@,
        "-jar"@,
        jar_path,
        "nogui"@,
    ]
}

/// The handle after a start that was told `spawned`: a supervisor without a
/// process adopts the process that was spawned; in every other case the
/// handle stays what it was.
pub open spec fn handle_after_start(
    handle: Option<ProcessHandle>,
    spawned: Result<ProcessHandle, Seq<char>>,
) -> Option<ProcessHandle> {
    match (handle, spawned) {
        (None, Ok(p)) => Some(p),
        _ => handle,
    }
}

/// The result of a start that was told `spawned`.
pub open spec fn result_of_start(
    handle: Option<ProcessHandle>,
    spawned: Result<ProcessHandle, Seq<char>>,
) -> Result<(), SupervisorErrorView> {
    match (handle, spawned) {
        (Some(_), _) => Err(SupervisorErrorView::AlreadyRunning),
        (None, Ok(_)) => Ok(()),
        (None, Err(cause)) => Err(SupervisorErrorView::ProcessSpawnFailed(cause)),
    }
}

/// The handle after a stop that was told `killed`: the handle of a process
/// that was terminated is released; in every other case the handle stays
/// what it was.
pub open spec fn handle_after_stop(handle: Option<ProcessHandle>, killed: Result<(), Seq<char>>)
    -> Option<ProcessHandle> {
    match (handle, killed) {
        (Some(_), Ok(_)) => None,
        _ => handle,
    }
}

/// The result of a stop that was told `killed`.
pub open spec fn result_of_stop(handle: Option<ProcessHandle>, killed: Result<(), Seq<char>>)
    -> Result<(), SupervisorErrorView> {
    match (handle, killed) {
        (None, _) => Err(SupervisorErrorView::NotRunning),
        (Some(_), Ok(_)) => Ok(()),
        (Some(_), Err(cause)) => Err(SupervisorErrorView::ProcessKillFailed(cause)),
    }
}

/// The view of what the launch or the termination of a process came to.
pub open spec fn outcome_view<T>(outcome: Result<T, String>) -> Result<T, Seq<char>> {
    match outcome {
        Ok(v) => Ok(v),
        Err(cause) => Err(cause@),
    }
}

/// The view of what a control operation returned.
pub open spec fn result_view(r: Result<(), SupervisorError>) -> Result<(), SupervisorErrorView> {
    match r {
        Ok(_) => Ok(()),
        Err(e) => Err(e@),
    }
}

/// The supervisor: the configuration of the server, the handle of its
/// process while there is one, the log streamer and the sampler.
#[derive(Debug)]
pub struct MinecraftServer {
    config: ServerConfig,
    process: Option<ProcessHandle>,
    console: ConsoleManager,
    monitor: PerformanceMonitor,
}

impl MinecraftServer {
    /// The handle of the supervised process, if there is one.
    pub closed spec fn handle(&self) -> Option<ProcessHandle> {
        self.process
    }

    /// The configuration that the supervisor was made with.
    pub closed spec fn config(&self) -> ServerConfigView {
        self.config@
    }

    /// The log streamer of the supervised process.
    pub closed spec fn streamer(&self) -> ConsoleManager {
        self.console
    }

    /// The sampler of the supervised process.
    pub closed spec fn sampler(&self) -> PerformanceMonitor {
        self.monitor
    }

    /// The log streamer and the sampler are well-formed.
    pub open spec fn wf(&self) -> bool {
        &&& self.streamer().wf()
        &&& self.sampler().wf()
    }

    /// A supervisor without a process; nothing is streamed or sampled.
    pub fn new(config: ServerConfig) -> (s: MinecraftServer)
        ensures
            s.wf(),
            s.handle() is None,
            s.config() == config@,
            !s.sampler().running(),
            s.sampler().history() == Seq::<PerformanceMetrics>::empty(),
            !s.streamer().active(LogStream::Stdout),
            !s.streamer().active(LogStream::Stderr),
            s.streamer().log() == Seq::<ConsoleMessageView>::empty(),
            s.streamer().channel() == Seq::<ConsoleMessageView>::empty(),
    {
        MinecraftServer {
            config,
            process: None,
            console: ConsoleManager::new(),
            monitor: PerformanceMonitor::new(0),
        }
    }

    /// The configuration that the supervisor was made with.
    pub fn server_config(&self) -> (c: &ServerConfig)
        ensures
            c@ == self.config(),
    {
        &self.config
    }

    /// The handle of the supervised process, if there is one.
    pub fn process(&self) -> (p: Option<ProcessHandle>)
        ensures
            p == self.handle(),
    {
        self.process
    }

    /// The log streamer, to read from.
    pub fn console(&self) -> (c: &ConsoleManager)
        ensures
            *c == self.streamer(),
    {
        &self.console
    }

    /// The log streamer, to feed and to drain. Handle, configuration and
    /// sampler are out of reach through it.
    pub fn console_mut(&mut self) -> (c: &mut ConsoleManager)
        ensures
            *c == old(self).streamer(),
            final(self).streamer() == *final(c),
            final(self).sampler() == old(self).sampler(),
            final(self).handle() == old(self).handle(),
            final(self).config() == old(self).config(),
    {
        &mut self.console
    }

    /// The sampler, to read from.
    pub fn monitor(&self) -> (m: &PerformanceMonitor)
        ensures
            *m == self.sampler(),
    {
        &self.monitor
    }

    /// The sampler, to tick. Handle, configuration and log streamer are out
    /// of reach through it.
    pub fn monitor_mut(&mut self) -> (m: &mut PerformanceMonitor)
        ensures
            *m == old(self).sampler(),
            final(self).sampler() == *final(m),
            final(self).streamer() == old(self).streamer(),
            final(self).handle() == old(self).handle(),
            final(self).config() == old(self).config(),
    {
        &mut self.monitor
    }

    /// Whether a process handle exists.
    pub fn is_running(&self) -> (b: bool)
        ensures
            b == (self.handle() is Some),
    {
        self.process.is_some()
    }

    /// Resolves what a start has to launch. `runtimes` is what the discovery
    /// of runtimes found, `jar_path` the path of the server archive, and
    /// `jar_present` whether a file is there.
    ///
    /// Fails with `AlreadyRunning` if a process handle exists; else with
    /// `RuntimeNotFound` if `runtimes` holds no valid runtime; else with
    /// `ProcessSpawnFailed` if the archive is missing. Otherwise the command
    /// runs the first valid runtime with `launch_args`, in the server's
    /// directory.
    pub fn launch_command(&self, runtimes: &Vec<JavaInfo>, jar_path: String, jar_present: bool) -> (r:
        Result<LaunchCommand, SupervisorError>)
        ensures
            match r {
                Ok(cmd) => {
                    &&& self.handle() is None
                    &&& jar_present
                    &&& exists|i: int|
                        is_first_valid(Seq::new(runtimes@.len(), |k: int| runtimes@[k]@), i)
                            && cmd@.program == runtimes@[i]@.path
                    &&& cmd@.args == launch_args(self.config(), jar_path@)
                    &&& cmd@.working_dir == self.config().path
                },
                Err(e) => if self.handle() is Some {
                    e@ == SupervisorErrorView::AlreadyRunning
                } else if !has_valid(Seq::new(runtimes@.len(), |k: int| runtimes@[k]@)) {
                    e@ == SupervisorErrorView::RuntimeNotFound
                } else {
                    !jar_present && e@ == SupervisorErrorView::ProcessSpawnFailed(
                        "Server jar not found"@,
                    )
                },
            },
    {
        let ghost found = Seq::new(runtimes@.len(), |k: int| runtimes@[k]@);
        if self.process.is_some() {
            return Err(SupervisorError::AlreadyRunning);
        }
        let mut i: usize = 0;
        while i < runtimes.len() && !runtimes[i].is_valid
            invariant
                i <= runtimes@.len(),
                found == Seq::new(runtimes@.len(), |k: int| runtimes@[k]@),
                forall|j: int| 0 <= j < i ==> !found[j].is_valid,
            decreases runtimes.len() - i,
        {
            i = i + 1;
        }
        if i >= runtimes.len() {
            return Err(SupervisorError::RuntimeNotFound);
        }
        assert(is_first_valid(found, i as int));
        if !jar_present {
            return Err(SupervisorError::ProcessSpawnFailed(String::from_str("Server jar not found")));
        }
        let mut min = String::from_str("-Xms").concat(
            decimal_text(self.config.memory.min_mb as u64).as_str(),
        );
        min.append("M");
        let mut max = String::from_str("-Xmx").concat(
            decimal_text(self.config.memory.max_mb as u64).as_str(),
        );
        max.append("M");
        let mut args: Vec<String> = Vec::new();
        args.push(min);
        args.push(max);
        args.push(String::from_str("-jar"));
        args.push(jar_path);
        args.push(String::from_str("nogui"));
        let cmd = LaunchCommand {
            program: runtimes[i].path.clone(),
            args,
            working_dir: self.config.path.clone(),
        };
        assert(cmd@.args =~= launch_args(self.config(), jar_path@));
        Ok(cmd)
    }

    /// Completes a start. `spawned` is what the launch came to: the handle of
    /// the new process, or the cause of the failure.
    ///
    /// Fails with `AlreadyRunning` if a process handle exists, and with
    /// `ProcessSpawnFailed` if the launch failed; then nothing changes.
    /// Otherwise the supervisor adopts the handle, a fresh sampler for the new
    /// process id is running, and the streams that the handle has are
    /// drained; the log that was gathered before stays.
    pub fn start(&mut self, spawned: Result<ProcessHandle, String>) -> (r: Result<
        (),
        SupervisorError,
    >)
        requires
            old(self).wf(),
        ensures
            final(self).wf(),
            final(self).config() == old(self).config(),
            result_view(r) == result_of_start(old(self).handle(), outcome_view(spawned)),
            final(self).handle() == handle_after_start(old(self).handle(), outcome_view(spawned)),
            r is Err ==> *final(self) == *old(self),
            r is Ok ==> {
                &&& spawned matches Ok(p)
                &&& final(self).sampler().running()
                &&& final(self).sampler().pid() == p.pid
                &&& final(self).sampler().history() == Seq::<PerformanceMetrics>::empty()
                &&& final(self).streamer().active(LogStream::Stdout) == p.stdout_open
                &&& final(self).streamer().active(LogStream::Stderr) == p.stderr_open
                &&& final(self).streamer().log() == old(self).streamer().log()
                &&& final(self).streamer().channel() == old(self).streamer().channel()
            },
    {
        if self.process.is_some() {
            return Err(SupervisorError::AlreadyRunning);
        }
        match spawned {
            Err(cause) => Err(SupervisorError::ProcessSpawnFailed(cause)),
            Ok(p) => {
                self.process = Some(p);
                self.monitor = PerformanceMonitor::new(p.pid);
                let _ = self.monitor.start();
                let _ = self.console.start_logging(Some(p));
                Ok(())
            },
        }
    }

    /// Completes a stop. `killed` is what the termination of the process of
    /// `process` came to: done, or the cause of the failure.
    ///
    /// Fails with `NotRunning` if no process handle exists, and with
    /// `ProcessKillFailed` if the termination failed; then nothing changes,
    /// so the stop can be tried again. Otherwise the handle is released, the
    /// sampler is stopped and no stream is drained; history and log stay.
    pub fn stop(&mut self, killed: Result<(), String>) -> (r: Result<(), SupervisorError>)
        requires
            old(self).wf(),
        ensures
            final(self).wf(),
            final(self).config() == old(self).config(),
            result_view(r) == result_of_stop(old(self).handle(), outcome_view(killed)),
            final(self).handle() == handle_after_stop(old(self).handle(), outcome_view(killed)),
            r is Err ==> *final(self) == *old(self),
            r is Ok ==> {
                &&& !final(self).sampler().running()
                &&& final(self).sampler().pid() == old(self).sampler().pid()
                &&& final(self).sampler().history() == old(self).sampler().history()
                &&& !final(self).streamer().active(LogStream::Stdout)
                &&& !final(self).streamer().active(LogStream::Stderr)
                &&& final(self).streamer().log() == old(self).streamer().log()
                &&& final(self).streamer().channel() == old(self).streamer().channel()
            },
    {
        if self.process.is_none() {
            return Err(SupervisorError::NotRunning);
        }
        match killed {
            Err(cause) => Err(SupervisorError::ProcessKillFailed(cause)),
            Ok(_) => {
                self.process = None;
                self.monitor.stop();
                self.console.stop_logging();
                Ok(())
            },
        }
    }

    /// A stop and then a start. `killed` is what the termination of the old
    /// process came to; `respawned` is what the launch that followed came to,
    /// and is looked at only if the stop succeeded. Between the two the
    /// process is absent.
    ///
    /// A restart that fails at the stop changes nothing. One that stops and
    /// then fails at the launch leaves what a stop leaves: no handle, the
    /// sampler stopped with its history, no stream drained. One that succeeds
    /// leaves what a start leaves: the new handle, a fresh running sampler
    /// for the new process id, and the streams of the new handle drained.
    /// The gathered log and the channel stay in every case.
    pub fn restart(&mut self, killed: Result<(), String>, respawned: Result<ProcessHandle, String>) -> (r:
        Result<(), SupervisorError>)
        requires
            old(self).wf(),
        ensures
            final(self).wf(),
            final(self).config() == old(self).config(),
            result_view(r) == match result_of_stop(old(self).handle(), outcome_view(killed)) {
                Err(e) => Err(e),
                Ok(_) => result_of_start(None, outcome_view(respawned)),
            },
            final(self).handle() == match result_of_stop(old(self).handle(), outcome_view(killed)) {
                Err(_) => old(self).handle(),
                Ok(_) => handle_after_start(None, outcome_view(respawned)),
            },
            final(self).streamer().log() == old(self).streamer().log(),
            final(self).streamer().channel() == old(self).streamer().channel(),
            result_of_stop(old(self).handle(), outcome_view(killed)) is Err ==> *final(self) == *old(
                self,
            ),
            result_of_stop(old(self).handle(), outcome_view(killed)) is Ok && r is Err ==> {
                &&& !final(self).sampler().running()
                &&& final(self).sampler().pid() == old(self).sampler().pid()
                &&& final(self).sampler().history() == old(self).sampler().history()
                &&& !final(self).streamer().active(LogStream::Stdout)
                &&& !final(self).streamer().active(LogStream::Stderr)
            },
            r is Ok ==> {
                &&& respawned matches Ok(p)
                &&& final(self).sampler().running()
                &&& final(self).sampler().pid() == p.pid
                &&& final(self).sampler().history() == Seq::<PerformanceMetrics>::empty()
                &&& final(self).streamer().active(LogStream::Stdout) == p.stdout_open
                &&& final(self).streamer().active(LogStream::Stderr) == p.stderr_open
            },
    {
        match self.stop(killed) {
            Err(e) => Err(e),
            Ok(_) => self.start(respawned),
        }
    }

    /// What has to be written to the process to send it the command `text`:
    /// the text and a line terminator. Fails with `StdinUnavailable` if there
    /// is no process or its input stream is closed.
    pub fn send_command(&self, text: &str) -> (r: Result<String, SupervisorError>)
        ensures
            match r {
                Ok(line) => {
                    &&& self.handle() matches Some(p) && p.stdin_open
                    &&& line@ == command_line(text@)
                },
                Err(e) => {
                    &&& !(self.handle() matches Some(p) && p.stdin_open)
                    &&& e@ == SupervisorErrorView::StdinUnavailable
                },
            },
    {
        self.console.send_command(self.process, text)
    }

    /// A snapshot: whether a process handle exists, and the latest sample of
    /// the sampler, or the defaults while nothing was sampled.
    pub fn get_status(&self) -> (s: ServerStatus)
        ensures
            s.is_running == (self.handle() is Some),
            s == status_of(
                self.handle() is Some,
                if self.sampler().history().len() == 0 {
                    None
                } else {
                    Some(self.sampler().history().last())
                },
            ),
    {
        let running = self.process.is_some();
        match self.monitor.get_current_metrics() {
            Some(m) => ServerStatus {
                is_running: running,
                players_online: m.player_count,
                tps: m.tps,
                memory_usage: m.memory_usage,
                cpu_usage: m.cpu_usage,
            },
            None => ServerStatus {
                is_running: running,
                players_online: 0,
                tps: DEFAULT_TPS,
                memory_usage: 0,
                cpu_usage: 0,
            },
        }
    }
}

/// One control call, with what the caller tells it.
pub enum ControlCall {
    /// A start, with what the launch came to.
    Start(Result<ProcessHandle, Seq<char>>),
    /// A stop, with what the termination came to.
    Stop(Result<(), Seq<char>>),
}

/// The handle after one control call.
pub open spec fn handle_after_call(handle: Option<ProcessHandle>, call: ControlCall) -> Option<
    ProcessHandle,
> {
    match call {
        ControlCall::Start(spawned) => handle_after_start(handle, spawned),
        ControlCall::Stop(killed) => handle_after_stop(handle, killed),
    }
}

/// The handle after the control calls `calls`, first to last.
pub open spec fn handle_after(handle: Option<ProcessHandle>, calls: Seq<ControlCall>) -> Option<
    ProcessHandle,
>
    decreases calls.len(),
{
    if calls.len() == 0 {
        handle
    } else {
        handle_after_call(handle_after(handle, calls.drop_last()), calls.last())
    }
}

/// How many of the control calls `calls` adopted the handle of a process.
pub open spec fn adopted(handle: Option<ProcessHandle>, calls: Seq<ControlCall>) -> nat
    decreases calls.len(),
{
    if calls.len() == 0 {
        0
    } else {
        let n = adopted(handle, calls.drop_last());
        match calls.last() {
            ControlCall::Start(spawned) => if result_of_start(
                handle_after(handle, calls.drop_last()),
                spawned,
            ) is Ok {
                n + 1
            } else {
                n
            },
            ControlCall::Stop(_) => n,
        }
    }
}

/// How many of the control calls `calls` released the handle of a process.
pub open spec fn released(handle: Option<ProcessHandle>, calls: Seq<ControlCall>) -> nat
    decreases calls.len(),
{
    if calls.len() == 0 {
        0
    } else {
        let n = released(handle, calls.drop_last());
        match calls.last() {
            ControlCall::Start(_) => n,
            ControlCall::Stop(killed) => if result_of_stop(
                handle_after(handle, calls.drop_last()),
                killed,
            ) is Ok {
                n + 1
            } else {
                n
            },
        }
    }
}

/// Whatever control calls a supervisor without a process receives, the handles
/// that it adopted and has not released are one if it holds a handle and none
/// if it does not: there is never more than one process handle.
pub proof fn lemma_single_instance(calls: Seq<ControlCall>)
    ensures
        released(None, calls) <= adopted(None, calls) <= released(None, calls) + 1,
        handle_after(None, calls) is Some <==> adopted(None, calls) == released(None, calls) + 1,
        handle_after(None, calls) is None <==> adopted(None, calls) == released(None, calls),
    decreases calls.len(),
{
    if calls.len() > 0 {
        lemma_single_instance(calls.drop_last());
    }
}

/// The snapshot says that the server is running exactly if a handle exists,
/// after any control calls and with any sample.
pub proof fn lemma_status_matches_handle(
    handle: Option<ProcessHandle>,
    calls: Seq<ControlCall>,
    latest: Option<PerformanceMetrics>,
)
    ensures
        status_of(handle_after(handle, calls) is Some, latest).is_running == (handle_after(
            handle,
            calls,
        ) is Some),
{
}

/// A start that follows a successful start, with no stop between them, fails
/// with `AlreadyRunning`, whatever its launch came to, and leaves the handle
/// of the first start in place.
pub proof fn lemma_second_start_rejected(
    first: ProcessHandle,
    second: Result<ProcessHandle, Seq<char>>,
)
    ensures
        result_of_start(None, Ok(first)) is Ok,
        result_of_start(handle_after_start(None, Ok(first)), second) == Err::<
            (),
            SupervisorErrorView,
        >(SupervisorErrorView::AlreadyRunning),
        handle_after_start(handle_after_start(None, Ok(first)), second) == Some(first),
{
}

/// A stop of a supervisor without a process fails with `NotRunning` and
/// changes nothing, as often as it is repeated.
pub proof fn lemma_stop_without_process(killed: Result<(), Seq<char>>)
    ensures
        result_of_stop(None, killed) == Err::<(), SupervisorErrorView>(
            SupervisorErrorView::NotRunning,
        ),
        handle_after_stop(None, killed) is None,
{
}

} // verus!
