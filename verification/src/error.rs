//! The failures that the control operations report.

use vstd::prelude::*;
use vstd::string::*;

verus! {

/// Why a control operation failed.
#[derive(Debug)]
pub enum SupervisorError {
    /// A start was asked for while a process handle exists.
    AlreadyRunning,
    /// An operation needs the process and no process handle exists.
    NotRunning,
    /// The process could not be launched; the text is the cause.
    ProcessSpawnFailed(String),
    /// The process could not be terminated; the text is the cause.
    ProcessKillFailed(String),
    /// There is no process, or its input stream is closed.
    StdinUnavailable,
    /// The process has no output stream to read from.
    StdoutUnavailable,
    /// No runtime to launch the process with was found.
    RuntimeNotFound,
    /// The consumer of a channel is gone.
    ChannelClosed,
}

/// What a `SupervisorError` is, with text as character sequences.
pub enum SupervisorErrorView {
    AlreadyRunning,
    NotRunning,
    ProcessSpawnFailed(Seq<char>),
    ProcessKillFailed(Seq<char>),
    StdinUnavailable,
    StdoutUnavailable,
    RuntimeNotFound,
    ChannelClosed,
}

impl View for SupervisorError {
    type V = SupervisorErrorView;

    open spec fn view(&self) -> SupervisorErrorView {
        match self {
            SupervisorError::AlreadyRunning => SupervisorErrorView::AlreadyRunning,
            SupervisorError::NotRunning => SupervisorErrorView::NotRunning,
            SupervisorError::ProcessSpawnFailed(c) => SupervisorErrorView::ProcessSpawnFailed(c@),
            SupervisorError::ProcessKillFailed(c) => SupervisorErrorView::ProcessKillFailed(c@),
            SupervisorError::StdinUnavailable => SupervisorErrorView::StdinUnavailable,
            SupervisorError::StdoutUnavailable => SupervisorErrorView::StdoutUnavailable,
            SupervisorError::RuntimeNotFound => SupervisorErrorView::RuntimeNotFound,
            SupervisorError::ChannelClosed => SupervisorErrorView::ChannelClosed,
        }
    }
}

/// The message of an error, as it is shown to a user.
pub open spec fn message_of(e: SupervisorErrorView) -> Seq<char> {
    match e {
        SupervisorErrorView::AlreadyRunning => "Server is already running"@,
        SupervisorErrorView::NotRunning => "Server is not running"@,
        SupervisorErrorView::ProcessSpawnFailed(c) => "Failed to start server: "@ + c,
        SupervisorErrorView::ProcessKillFailed(c) => "Failed to stop server: "@ + c,
        SupervisorErrorView::StdinUnavailable => "Could not access server stdin"@,
        SupervisorErrorView::StdoutUnavailable => "Could not access server stdout"@,
        SupervisorErrorView::RuntimeNotFound => "No Java runtime found"@,
        SupervisorErrorView::ChannelClosed => "Channel closed"@,
    }
}

impl SupervisorError {
    /// The message of the error, as it is shown to a user.
    pub fn message(&self) -> (m: String)
        ensures
            m@ == message_of(self@),
    {
        match self {
            SupervisorError::AlreadyRunning => String::from_str("Server is already running"),
            SupervisorError::NotRunning => String::from_str("Server is not running"),
            SupervisorError::ProcessSpawnFailed(c) => String::from_str(
                "Failed to start server: ",
            ).concat(c.as_str()),
            SupervisorError::ProcessKillFailed(c) => String::from_str(
                "Failed to stop server: ",
            ).concat(c.as_str()),
            SupervisorError::StdinUnavailable => String::from_str("Could not access server stdin"),
            SupervisorError::StdoutUnavailable => String::from_str(
                "Could not access server stdout",
            ),
            SupervisorError::RuntimeNotFound => String::from_str("No Java runtime found"),
            SupervisorError::ChannelClosed => String::from_str("Channel closed"),
        }
    }
}

} // verus!
