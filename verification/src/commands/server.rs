//! Provisioning of servers and the table of the servers that run: what is
//! written into a new server's directory, and who runs where.

use crate::error::{SupervisorError, SupervisorErrorView};
use crate::registry::{position, Registry};
use crate::text::{decimal, decimal_text};
use vstd::prelude::*;
use vstd::string::*;

verus! {

/// What is asked of a new server. The memory is a size as the runtime takes
/// it, such as `2G`.
#[derive(Debug)]
pub struct ServerConfig {
    pub name: String,
    pub version: String,
    pub port: u16,
    pub memory: String,
    /// The directory of the server, as text.
    pub path: String,
}

/// What is known of a server of the table. Processor load in thousandths of
/// a percent, memory in bytes.
#[derive(Debug, Clone, Copy, PartialEq, Eq, Structural)]
pub struct ServerStatus {
    pub running: bool,
    pub players: u32,
    pub cpu_usage: u32,
    pub memory_usage: u64,
}

/// The properties file of a new server that listens on `port`.
pub open spec fn server_properties_of(port: u16) -> Seq<char> {
    "server-port="@ + decimal(port as nat) + "\nmax-players=20\nonline-mode=true\n"@
}

/// The script that starts a server with the memory limit `memory`, for
/// Windows or for a Unix shell.
pub open spec fn start_script_of(memory: Seq<char>, windows: bool) -> Seq<char> {
    if windows {
        "@echo off\njava -Xmx"@ + memory + " -jar server.jar nogui"@
    } else {
        "#!/bin/bash\njava -Xmx"@ + memory + " -jar server.jar nogui"@
    }
}

/// The file name of the start script, for Windows or for a Unix shell.
pub open spec fn start_script_name_of(windows: bool) -> Seq<char> {
    if windows {
        "start.bat"@
    } else {
        "start.sh"@
    }
}

/// The properties file of a new server that listens on `port`.
pub fn server_properties(port: u16) -> (text: String)
    ensures
        text@ == server_properties_of(port),
{
    let mut text = String::from_str("server-port=").concat(decimal_text(port as u64).as_str());
    text.append("\nmax-players=20\nonline-mode=true\n");
    text
}

/// The script that starts a server with the memory limit `memory`.
pub fn start_script(memory: &str, windows: bool) -> (text: String)
    ensures
        text@ == start_script_of(memory@, windows),
{
    let mut text = if windows {
        String::from_str("@echo off\njava -Xmx")
    } else {
        String::from_str("#!/bin/bash\njava -Xmx")
    };
    text.append(memory);
    text.append(" -jar server.jar nogui");
    text
}

/// The file name of the start script.
pub fn start_script_name(windows: bool) -> (name: &'static str)
    ensures
        name@ == start_script_name_of(windows),
{
    if windows {
        "start.bat"
    } else {
        "start.sh"
    }
}

/// What is reported once the server `name` was created.
pub fn created_message(name: &str) -> (text: String)
    ensures
        text@ == "Server "@ + name@ + " created successfully!"@,
{
    let mut text = String::from_str("Server ").concat(name);
    text.append(" created successfully!");
    text
}

/// The table of the servers that run: the id of the process of each, under
/// the server's directory. No directory occurs twice.
#[derive(Debug)]
pub struct RunningServers {
    servers: Registry<u32>,
}

impl RunningServers {
    /// The directories of the servers that run, in the order of their starts.
    pub closed spec fn paths(&self) -> Seq<Seq<char>> {
        self.servers.keys()
    }

    /// The process ids of the servers that run, each at the place of its
    /// directory.
    pub closed spec fn pids(&self) -> Seq<u32> {
        self.servers.values()
    }

    /// No directory occurs twice.
    pub closed spec fn wf(&self) -> bool {
        self.servers.wf()
    }

    /// What well-formedness says in terms of the public model.
    pub proof fn lemma_wf(&self)
        requires
            self.wf(),
        ensures
            self.paths().len() == self.pids().len(),
            self.paths().no_duplicates(),
    {
        self.servers.lemma_wf();
    }

    /// No server runs.
    pub fn new() -> (t: RunningServers)
        ensures
            t.wf(),
            t.paths() == Seq::<Seq<char>>::empty(),
            t.pids() == Seq::<u32>::empty(),
    {
        RunningServers { servers: Registry::new() }
    }

    /// Whether the server in `server_path` runs.
    pub fn is_running(&self, server_path: &str) -> (b: bool)
        requires
            self.wf(),
        ensures
            b == (position(self.paths(), server_path@) is Some),
    {
        self.servers.contains_key(server_path)
    }

    /// The process id of the server in `server_path`, if it runs.
    pub fn pid_of(&self, server_path: &str) -> (pid: Option<u32>)
        requires
            self.wf(),
        ensures
            pid == match position(self.paths(), server_path@) {
                Some(i) => Some(self.pids()[i]),
                None => None,
            },
    {
        match self.servers.get(server_path) {
            Some(p) => Some(*p),
            None => None,
        }
    }

    /// Completes the start of the server in `server_path`. `spawned` is what
    /// the launch of its start script came to: the id of the new process, or
    /// the cause of the failure.
    ///
    /// Fails with `AlreadyRunning` if the server runs, and with
    /// `ProcessSpawnFailed` if the launch failed; then nothing changes.
    /// Otherwise the server enters the table, and the text to report comes
    /// back.
    pub fn start_server(&mut self, server_path: &str, spawned: Result<u32, String>) -> (r: Result<
        String,
        SupervisorError,
    >)
        requires
            old(self).wf(),
        ensures
            final(self).wf(),
            match position(old(self).paths(), server_path@) {
                Some(_) => {
                    &&& r matches Err(e) && e@ == SupervisorErrorView::AlreadyRunning
                    &&& final(self).paths() == old(self).paths()
                    &&& final(self).pids() == old(self).pids()
                },
                None => match spawned {
                    Ok(pid) => {
                        &&& r matches Ok(text) && text@ == "Server started successfully!"@
                        &&& final(self).paths() == old(self).paths().push(server_path@)
                        &&& final(self).pids() == old(self).pids().push(pid)
                    },
                    Err(cause) => {
                        &&& r matches Err(e) && e@ == SupervisorErrorView::ProcessSpawnFailed(
                            cause@,
                        )
                        &&& final(self).paths() == old(self).paths()
                        &&& final(self).pids() == old(self).pids()
                    },
                },
            },
    {
        if self.servers.contains_key(server_path) {
            return Err(SupervisorError::AlreadyRunning);
        }
        match spawned {
            Err(cause) => Err(SupervisorError::ProcessSpawnFailed(cause)),
            Ok(pid) => {
                let _ = self.servers.insert(server_path.to_owned(), pid);
                Ok(String::from_str("Server started successfully!"))
            },
        }
    }

    /// Takes the server in `server_path` out of the table, for its process to
    /// be terminated. `killed` says what terminating the process, whose id
    /// `pid_of` gives, came to.
    ///
    /// Fails with `NotRunning` if the server does not run; then nothing
    /// changes. Otherwise the server leaves the table, also where terminating
    /// its process failed, which is reported as `ProcessKillFailed`.
    pub fn stop_server(&mut self, server_path: &str, killed: Result<(), String>) -> (r: Result<
        String,
        SupervisorError,
    >)
        requires
            old(self).wf(),
        ensures
            final(self).wf(),
            match position(old(self).paths(), server_path@) {
                Some(i) => {
                    &&& final(self).paths() == old(self).paths().remove(i)
                    &&& final(self).pids() == old(self).pids().remove(i)
                    &&& match killed {
                        Ok(_) => r matches Ok(text) && text@ == "Server stopped successfully!"@,
                        Err(cause) => r matches Err(e) && e@
                            == SupervisorErrorView::ProcessKillFailed(cause@),
                    }
                },
                None => {
                    &&& r matches Err(e) && e@ == SupervisorErrorView::NotRunning
                    &&& final(self).paths() == old(self).paths()
                    &&& final(self).pids() == old(self).pids()
                },
            },
    {
        match self.servers.remove(server_path) {
            None => Err(SupervisorError::NotRunning),
            Some(_) => match killed {
                Ok(_) => Ok(String::from_str("Server stopped successfully!")),
                Err(cause) => Err(SupervisorError::ProcessKillFailed(cause)),
            },
        }
    }

    /// What is known of the server in `server_path`: whether it runs. Players
    /// and load are not measured and are reported as zero.
    pub fn get_server_status(&self, server_path: &str) -> (status: ServerStatus)
        requires
            self.wf(),
        ensures
            status == (ServerStatus {
                running: position(self.paths(), server_path@) is Some,
                players: 0,
                cpu_usage: 0,
                memory_usage: 0,
            }),
    {
        ServerStatus {
            running: self.servers.contains_key(server_path),
            players: 0,
            cpu_usage: 0,
            memory_usage: 0,
        }
    }
}

} // verus!
