//! Supervision of one long-running game-server process: lifecycle control,
//! log capture, metrics sampling, scheduled jobs and a notification bus.

use vstd::prelude::*;

pub use server::ServerStatus;

pub mod advanced;
pub mod clock;
pub mod commands;
pub mod console;
pub mod error;
pub mod monitoring;
pub mod paths;
pub mod players;
pub mod plugins;
pub mod registry;
pub mod security;
pub mod server;
pub mod text;
pub mod utils;
pub mod worlds;

verus! {

/// The distribution of the server software.
#[derive(Debug, Clone, Copy, PartialEq, Eq, Structural)]
pub enum ServerType {
    Vanilla,
    Spigot,
    Paper,
    Forge,
    Fabric,
}

/// Bounds on the memory handed to the server's runtime, in mebibytes.
#[derive(Debug, Clone, Copy, PartialEq, Eq, Structural)]
pub struct MemoryConfig {
    pub min_mb: u32,
    pub max_mb: u32,
}

/// What the supervisor needs to know of the server that it runs.
#[derive(Debug)]
pub struct ServerConfig {
    pub name: String,
    pub version: String,
    pub server_type: ServerType,
    /// The directory of the server, as text.
    pub path: String,
    pub memory: MemoryConfig,
    pub port: u16,
}

/// What a `ServerConfig` is, with text as character sequences.
pub struct ServerConfigView {
    pub name: Seq<char>,
    pub version: Seq<char>,
    pub server_type: ServerType,
    pub path: Seq<char>,
    pub memory: MemoryConfig,
    pub port: u16,
}

impl View for ServerConfig {
    type V = ServerConfigView;

    open spec fn view(&self) -> ServerConfigView {
        ServerConfigView {
            name: self.name@,
            version: self.version@,
            server_type: self.server_type,
            path: self.path@,
            memory: self.memory,
            port: self.port,
        }
    }
}

/// A player as the user interface lists them.
#[derive(Debug)]
pub struct Player {
    pub uuid: String,
    pub name: String,
    pub is_online: bool,
    pub is_op: bool,
    pub last_seen: String,
}

} // verus!
