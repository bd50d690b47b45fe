//! Log capture: the lines of the process's output streams become leveled,
//! timestamped records, pass a bounded channel and are gathered in a log.
//!
//! The channel never blocks a stream: when it is full, the oldest record that
//! waits in it is dropped and counted.

use crate::clock::local_time_text;
use crate::error::{SupervisorError, SupervisorErrorView};
use crate::server::ProcessHandle;
use vstd::prelude::*;
use vstd::string::*;

verus! {

/// How many records the log channel holds before it drops the oldest.
pub const LOG_CHANNEL_CAPACITY: usize = 100;

/// The severity of a log record.
#[derive(Debug, Clone, Copy, PartialEq, Eq, Structural)]
pub enum LogLevel {
    Info,
    Warning,
    Error,
    Debug,
}

/// The output stream that a line came from.
#[derive(Debug, Clone, Copy, PartialEq, Eq, Structural)]
pub enum LogStream {
    Stdout,
    Stderr,
}

/// One record of the log. It does not change once it is made.
#[derive(Debug)]
pub struct ConsoleMessage {
    pub timestamp: String,
    pub level: LogLevel,
    pub message: String,
}

/// What a `ConsoleMessage` is, with text as character sequences.
pub struct ConsoleMessageView {
    pub timestamp: Seq<char>,
    pub level: LogLevel,
    pub message: Seq<char>,
}

impl View for ConsoleMessage {
    type V = ConsoleMessageView;

    open spec fn view(&self) -> ConsoleMessageView {
        ConsoleMessageView {
            timestamp: self.timestamp@,
            level: self.level,
            message: self.message@,
        }
    }
}

impl Clone for ConsoleMessage {
    fn clone(&self) -> (r: ConsoleMessage)
        ensures
            r == *self,
    {
        ConsoleMessage {
            timestamp: self.timestamp.clone(),
            level: self.level,
            message: self.message.clone(),
        }
    }
}

/// The level of the records of a stream: standard output is information,
/// standard error is an error, whatever the line says.
pub open spec fn level_of(stream: LogStream) -> LogLevel {
    match stream {
        LogStream::Stdout => LogLevel::Info,
        LogStream::Stderr => LogLevel::Error,
    }
}

/// The record of one line of a stream.
pub open spec fn record_of(stream: LogStream, line: Seq<char>, timestamp: Seq<char>)
    -> ConsoleMessageView {
    ConsoleMessageView { timestamp, level: level_of(stream), message: line }
}

/// The views of a sequence of records.
pub open spec fn message_views(messages: Seq<ConsoleMessage>) -> Seq<ConsoleMessageView> {
    messages.map_values(|m: ConsoleMessage| m@)
}

/// The channel after `record` was sent into it: the record waits at the
/// back, and if the channel held `cap` records its oldest one is gone.
pub open spec fn channel_after_send(
    channel: Seq<ConsoleMessageView>,
    record: ConsoleMessageView,
    cap: nat,
) -> Seq<ConsoleMessageView> {
    if channel.len() >= cap {
        channel.drop_first().push(record)
    } else {
        channel.push(record)
    }
}

/// The command line that is written to the process: the text and a line
/// terminator.
pub open spec fn command_line(text: Seq<char>) -> Seq<char> {
    text + "\n"@
}

impl ConsoleMessage {
    /// The record of `line`, read from `stream` at the time that `timestamp`
    /// names.
    pub fn from_line(stream: LogStream, line: String, timestamp: String) -> (m: ConsoleMessage)
        ensures
            m@ == record_of(stream, line@, timestamp@),
    {
        let level = match stream {
            LogStream::Stdout => LogLevel::Info,
            LogStream::Stderr => LogLevel::Error,
        };
        ConsoleMessage { timestamp, level, message: line }
    }
}

/// The log streamer: which streams are drained, the channel between the
/// streams and the aggregator, and the gathered log.
#[derive(Debug)]
pub struct ConsoleManager {
    channel: Vec<ConsoleMessage>,
    log: Vec<ConsoleMessage>,
    dropped: u64,
    stdout_active: bool,
    stderr_active: bool,
}

impl ConsoleManager {
    /// The records that wait in the channel, oldest first.
    pub closed spec fn channel(&self) -> Seq<ConsoleMessageView> {
        message_views(self.channel@)
    }

    /// The gathered log, oldest first.
    pub closed spec fn log(&self) -> Seq<ConsoleMessageView> {
        message_views(self.log@)
    }

    /// How many records the channel has dropped.
    pub closed spec fn dropped(&self) -> nat {
        self.dropped as nat
    }

    /// Whether the given stream is being drained.
    pub closed spec fn active(&self, stream: LogStream) -> bool {
        match stream {
            LogStream::Stdout => self.stdout_active,
            LogStream::Stderr => self.stderr_active,
        }
    }

    /// The channel holds no more than `LOG_CHANNEL_CAPACITY` records.
    pub closed spec fn wf(&self) -> bool {
        self.channel@.len() <= LOG_CHANNEL_CAPACITY
    }

    /// A well-formed streamer's channel is within its capacity.
    pub proof fn lemma_channel_bounded(&self)
        requires
            self.wf(),
        ensures
            self.channel().len() <= LOG_CHANNEL_CAPACITY,
    {
    }

    /// A streamer that drains nothing, with an empty channel and an empty log.
    pub fn new() -> (c: ConsoleManager)
        ensures
            c.wf(),
            c.channel() == Seq::<ConsoleMessageView>::empty(),
            c.log() == Seq::<ConsoleMessageView>::empty(),
            c.dropped() == 0,
            !c.active(LogStream::Stdout),
            !c.active(LogStream::Stderr),
    {
        let c = ConsoleManager {
            channel: Vec::new(),
            log: Vec::new(),
            dropped: 0,
            stdout_active: false,
            stderr_active: false,
        };
        assert(c.channel() =~= Seq::<ConsoleMessageView>::empty());
        assert(c.log() =~= Seq::<ConsoleMessageView>::empty());
        c
    }

    /// Starts draining the output streams of `process`.
    ///
    /// Without a process this fails with `NotRunning` and nothing changes.
    /// With a process, each of the two streams is drained from now on exactly
    /// if the process has it. A process without standard output is reported
    /// as `StdoutUnavailable`; its standard error is drained all the same.
    pub fn start_logging(&mut self, process: Option<ProcessHandle>) -> (r: Result<
        (),
        SupervisorError,
    >)
        requires
            old(self).wf(),
        ensures
            final(self).wf(),
            final(self).channel() == old(self).channel(),
            final(self).log() == old(self).log(),
            final(self).dropped() == old(self).dropped(),
            match process {
                None => {
                    &&& r matches Err(e) && e@ == SupervisorErrorView::NotRunning
                    &&& final(self).active(LogStream::Stdout) == old(self).active(
                        LogStream::Stdout,
                    )
                    &&& final(self).active(LogStream::Stderr) == old(self).active(
                        LogStream::Stderr,
                    )
                },
                Some(p) => {
                    &&& final(self).active(LogStream::Stdout) == p.stdout_open
                    &&& final(self).active(LogStream::Stderr) == p.stderr_open
                    &&& if p.stdout_open {
                        r is Ok
                    } else {
                        r matches Err(e) && e@ == SupervisorErrorView::StdoutUnavailable
                    }
                },
            },
    {
        match process {
            None => Err(SupervisorError::NotRunning),
            Some(p) => {
                self.stdout_active = p.stdout_open;
                self.stderr_active = p.stderr_open;
                if p.stdout_open {
                    Ok(())
                } else {
                    Err(SupervisorError::StdoutUnavailable)
                }
            },
        }
    }

    /// Stops draining both streams. Channel and log stay.
    pub fn stop_logging(&mut self)
        requires
            old(self).wf(),
        ensures
            final(self).wf(),
            final(self).channel() == old(self).channel(),
            final(self).log() == old(self).log(),
            final(self).dropped() == old(self).dropped(),
            !final(self).active(LogStream::Stdout),
            !final(self).active(LogStream::Stderr),
    {
        self.stdout_active = false;
        self.stderr_active = false;
    }

    /// The end of `stream` was reached: it is drained no longer. The other
    /// stream is not touched.
    pub fn end_of_stream(&mut self, stream: LogStream)
        requires
            old(self).wf(),
        ensures
            final(self).wf(),
            final(self).channel() == old(self).channel(),
            final(self).log() == old(self).log(),
            final(self).dropped() == old(self).dropped(),
            forall|s: LogStream|
                final(self).active(s) == (s != stream && old(self).active(s)),
    {
        match stream {
            LogStream::Stdout => {
                self.stdout_active = false;
            },
            LogStream::Stderr => {
                self.stderr_active = false;
            },
        }
    }

    /// Whether `stream` is being drained.
    pub fn is_active(&self, stream: LogStream) -> (b: bool)
        ensures
            b == self.active(stream),
    {
        match stream {
            LogStream::Stdout => self.stdout_active,
            LogStream::Stderr => self.stderr_active,
        }
    }

    /// How many records the channel has dropped, counted up to `u64::MAX`.
    pub fn dropped_count(&self) -> (n: u64)
        ensures
            n == self.dropped(),
    {
        self.dropped
    }

    /// One line was read from `stream` at the time that `timestamp` names.
    ///
    /// A stream that is not drained records nothing. Otherwise the record of
    /// the line is sent into the channel; a full channel drops its oldest
    /// record for it and counts the drop. The result says whether the stream
    /// is drained, that is, whether its loop goes on.
    pub fn record_line(&mut self, stream: LogStream, line: String, timestamp: String) -> (going: bool)
        requires
            old(self).wf(),
        ensures
            final(self).wf(),
            going == old(self).active(stream),
            final(self).log() == old(self).log(),
            forall|s: LogStream| final(self).active(s) == old(self).active(s),
            final(self).channel() == if old(self).active(stream) {
                channel_after_send(
                    old(self).channel(),
                    record_of(stream, line@, timestamp@),
                    LOG_CHANNEL_CAPACITY as nat,
                )
            } else {
                old(self).channel()
            },
            final(self).dropped() == if old(self).active(stream) && old(self).channel().len()
                >= LOG_CHANNEL_CAPACITY && old(self).dropped() < u64::MAX {
                old(self).dropped() + 1
            } else {
                old(self).dropped()
            },
    {
        if !self.is_active(stream) {
            return false;
        }
        let record = ConsoleMessage::from_line(stream, line, timestamp);
        let ghost before = self.channel@;
        if self.channel.len() >= LOG_CHANNEL_CAPACITY {
            let _ = self.channel.remove(0);
            if self.dropped < u64::MAX {
                self.dropped = self.dropped + 1;
            }
            self.channel.push(record);
            assert(message_views(before.drop_first().push(record)) =~= message_views(
                before,
            ).drop_first().push(record@));
            assert(self.channel@ =~= before.drop_first().push(record));
        } else {
            self.channel.push(record);
            assert(message_views(before.push(record)) =~= message_views(before).push(record@));
        }
        true
    }

    /// One line was read from `stream` now: `record_line` with the local time
    /// of the wall clock, whatever text that is, as the timestamp.
    pub fn record_line_now(&mut self, stream: LogStream, line: String) -> (going: bool)
        requires
            old(self).wf(),
        ensures
            final(self).wf(),
            going == old(self).active(stream),
            final(self).log() == old(self).log(),
            forall|s: LogStream| final(self).active(s) == old(self).active(s),
            final(self).dropped() == if old(self).active(stream) && old(self).channel().len()
                >= LOG_CHANNEL_CAPACITY && old(self).dropped() < u64::MAX {
                old(self).dropped() + 1
            } else {
                old(self).dropped()
            },
            !old(self).active(stream) ==> final(self).channel() == old(self).channel(),
            old(self).active(stream) ==> exists|timestamp: Seq<char>|
                final(self).channel() == #[trigger] channel_after_send(
                    old(self).channel(),
                    record_of(stream, line@, timestamp),
                    LOG_CHANNEL_CAPACITY as nat,
                ),
    {
        let timestamp = local_time_text();
        let ghost stamp = timestamp@;
        let going = self.record_line(stream, line, timestamp);
        assert(old(self).active(stream) ==> self.channel() == channel_after_send(
            old(self).channel(),
            record_of(stream, line@, stamp),
            LOG_CHANNEL_CAPACITY as nat,
        ));
        going
    }

    /// The aggregator's step: takes every record that waits in the channel,
    /// appends them to the log in their order, and hands back copies of what
    /// it took.
    pub fn get_messages(&mut self) -> (taken: Vec<ConsoleMessage>)
        requires
            old(self).wf(),
        ensures
            final(self).wf(),
            message_views(taken@) == old(self).channel(),
            final(self).channel() == Seq::<ConsoleMessageView>::empty(),
            final(self).log() == old(self).log() + old(self).channel(),
            final(self).dropped() == old(self).dropped(),
            forall|s: LogStream| final(self).active(s) == old(self).active(s),
    {
        let mut taken: Vec<ConsoleMessage> = Vec::new();
        let mut i: usize = 0;
        while i < self.channel.len()
            invariant
                *self == *old(self),
                i <= self.channel@.len(),
                taken@.len() == i,
                forall|j: int| 0 <= j < i ==> (#[trigger] taken@[j])@ == self.channel@[j]@,
            decreases self.channel.len() - i,
        {
            taken.push(self.channel[i].clone());
            i = i + 1;
        }
        assert(message_views(taken@) =~= self.channel());
        let ghost waiting = self.channel@;
        let ghost gathered = self.log@;
        self.log.append(&mut self.channel);
        assert(message_views(gathered + waiting) =~= message_views(gathered) + message_views(
            waiting,
        ));
        assert(self.channel() =~= Seq::<ConsoleMessageView>::empty());
        taken
    }

    /// Copies of the gathered log, oldest first.
    pub fn get_logs(&self) -> (out: Vec<ConsoleMessage>)
        ensures
            message_views(out@) == self.log(),
    {
        let mut out: Vec<ConsoleMessage> = Vec::new();
        let mut i: usize = 0;
        while i < self.log.len()
            invariant
                i <= self.log@.len(),
                out@.len() == i,
                forall|j: int| 0 <= j < i ==> (#[trigger] out@[j])@ == self.log@[j]@,
            decreases self.log.len() - i,
        {
            out.push(self.log[i].clone());
            i = i + 1;
        }
        assert(message_views(out@) =~= self.log());
        out
    }

    /// What has to be written to the input stream of `process` to send it the
    /// command `command`: the command and a line terminator. Without a
    /// process, or with one whose input stream is closed, this fails with
    /// `StdinUnavailable`.
    pub fn send_command(&self, process: Option<ProcessHandle>, command: &str) -> (r: Result<
        String,
        SupervisorError,
    >)
        ensures
            match r {
                Ok(line) => {
                    &&& process matches Some(p) && p.stdin_open
                    &&& line@ == command_line(command@)
                },
                Err(e) => {
                    &&& !(process matches Some(p) && p.stdin_open)
                    &&& e@ == SupervisorErrorView::StdinUnavailable
                },
            },
    {
        match process {
            Some(p) => {
                if p.stdin_open {
                    Ok(String::from_str(command).concat("\n"))
                } else {
                    Err(SupervisorError::StdinUnavailable)
                }
            },
            None => Err(SupervisorError::StdinUnavailable),
        }
    }
}

} // verus!
