//! Security events with time-based retention, and the retention of backups.

use crate::clock::{compact_format, utc_now_formatted, wall_clock_now, Timestamp};
use crate::error::{SupervisorError, SupervisorErrorView};
use vstd::prelude::*;
use vstd::string::*;

verus! {

/// What an event is about.
#[derive(Debug, Clone, Copy, PartialEq, Eq, Structural)]
pub enum SecurityEventType {
    LoginAttempt,
    CommandExecution,
    FileAccess,
    ConfigurationChange,
    BackupOperation,
    PluginInstallation,
    WorldModification,
    PlayerAction,
}

/// How grave an event is.
#[derive(Debug, Clone, Copy, PartialEq, Eq, Structural)]
pub enum SecuritySeverity {
    Info,
    Warning,
    Error,
    Critical,
}

/// One retained event.
#[derive(Debug)]
pub struct SecurityEvent {
    pub timestamp: Timestamp,
    pub event_type: SecurityEventType,
    pub source: String,
    pub details: String,
    pub severity: SecuritySeverity,
}

/// What a `SecurityEvent` is, with text as character sequences.
pub struct SecurityEventView {
    pub timestamp: Timestamp,
    pub event_type: SecurityEventType,
    pub source: Seq<char>,
    pub details: Seq<char>,
    pub severity: SecuritySeverity,
}

impl View for SecurityEvent {
    type V = SecurityEventView;

    open spec fn view(&self) -> SecurityEventView {
        SecurityEventView {
            timestamp: self.timestamp,
            event_type: self.event_type,
            source: self.source@,
            details: self.details@,
            severity: self.severity,
        }
    }
}

impl Clone for SecurityEvent {
    fn clone(&self) -> (r: SecurityEvent)
        ensures
            r == *self,
    {
        SecurityEvent {
            timestamp: self.timestamp,
            event_type: self.event_type,
            source: self.source.clone(),
            details: self.details.clone(),
            severity: self.severity,
        }
    }
}

/// The settings of the security manager. Durations are in milliseconds.
#[derive(Debug)]
pub struct SecurityConfig {
    pub enable_backup: bool,
    pub backup_interval: u64,
    pub max_backups: usize,
    /// The directory of the backups, as text.
    pub backup_path: String,
    pub enable_logging: bool,
    pub log_retention: u64,
    pub enable_whitelist: bool,
    pub enable_blacklist: bool,
    pub enable_ops: bool,
    pub enable_anti_griefing: bool,
    pub enable_activity_monitoring: bool,
}

/// A backup file as the retention sees it.
#[derive(Debug)]
pub struct BackupFile {
    /// The path of the file, as text.
    pub path: String,
    /// When the file was last modified, in milliseconds since the Unix epoch;
    /// zero where that is not known.
    pub modified: u64,
}

/// What a `BackupFile` is, with text as character sequences.
pub struct BackupFileView {
    pub path: Seq<char>,
    pub modified: u64,
}

impl View for BackupFile {
    type V = BackupFileView;

    open spec fn view(&self) -> BackupFileView {
        BackupFileView { path: self.path@, modified: self.modified }
    }
}

/// The file name of the backup made at the time that `stamp` names.
pub open spec fn backup_name_of(stamp: Seq<char>) -> Seq<char> {
    "backup_"@ + stamp + ".zip"@
}

/// The event that records the creation of the backup `name` at `now`.
pub open spec fn backup_event_of(name: Seq<char>, now: Timestamp) -> SecurityEventView {
    SecurityEventView {
        timestamp: now,
        event_type: SecurityEventType::BackupOperation,
        source: "SecurityManager"@,
        details: "Created backup: "@ + name,
        severity: SecuritySeverity::Info,
    }
}

/// Whether an event is still retained at `now`: it is not older than
/// `retention` milliseconds.
pub open spec fn is_retained(e: SecurityEventView, now: Timestamp, retention: u64) -> bool {
    e.timestamp.millis >= now.millis - retention
}

/// The events of `events` that are still retained at `now`, in their order.
pub open spec fn retained(events: Seq<SecurityEventView>, now: Timestamp, retention: u64) -> Seq<
    SecurityEventView,
> {
    events.filter(|e: SecurityEventView| is_retained(e, now, retention))
}

/// The events of `events` of the given type, in their order.
pub open spec fn of_type(events: Seq<SecurityEventView>, event_type: SecurityEventType) -> Seq<
    SecurityEventView,
> {
    events.filter(|e: SecurityEventView| e.event_type == event_type)
}

/// The events of `events` of the given severity, in their order.
pub open spec fn of_severity(events: Seq<SecurityEventView>, severity: SecuritySeverity) -> Seq<
    SecurityEventView,
> {
    events.filter(|e: SecurityEventView| e.severity == severity)
}

/// The views of a sequence of events.
pub open spec fn event_views(events: Seq<SecurityEvent>) -> Seq<SecurityEventView> {
    events.map_values(|e: SecurityEvent| e@)
}

/// The views of a sequence of borrowed events.
pub open spec fn event_ref_views(events: Seq<&SecurityEvent>) -> Seq<SecurityEventView> {
    events.map_values(|e: &SecurityEvent| e@)
}

/// The views of a sequence of backup files.
pub open spec fn backup_views(files: Seq<BackupFile>) -> Seq<BackupFileView> {
    files.map_values(|f: BackupFile| f@)
}

/// `i` is the place of the oldest file of `files`, the first one among
/// files of the same age.
pub open spec fn is_oldest(files: Seq<BackupFileView>, i: int) -> bool {
    &&& 0 <= i < files.len()
    &&& forall|j: int| 0 <= j < i ==> (#[trigger] files[j]).modified > files[i].modified
    &&& forall|j: int| i <= j < files.len() ==> (#[trigger] files[j]).modified >= files[i].modified
}

/// The place of the oldest file of a non-empty `files`.
pub open spec fn oldest(files: Seq<BackupFileView>) -> int {
    choose|i: int| is_oldest(files, i)
}

/// The files that retention removes so that at most `max` stay: the oldest
/// file again and again, the first one among files of the same age, in the
/// order of removal.
pub open spec fn evicted(files: Seq<BackupFileView>, max: nat) -> Seq<BackupFileView>
    decreases files.len(),
{
    if files.len() <= max || !is_oldest(files, oldest(files)) {
        Seq::empty()
    } else {
        seq![files[oldest(files)]] + evicted(files.remove(oldest(files)), max)
    }
}

/// The files that stay after retention removed the `evicted` ones, in their
/// order.
pub open spec fn kept(files: Seq<BackupFileView>, max: nat) -> Seq<BackupFileView>
    decreases files.len(),
{
    if files.len() <= max || !is_oldest(files, oldest(files)) {
        files
    } else {
        kept(files.remove(oldest(files)), max)
    }
}

/// At most one place is the place of the oldest file.
pub proof fn lemma_oldest_unique(files: Seq<BackupFileView>, i: int, k: int)
    requires
        is_oldest(files, i),
        is_oldest(files, k),
    ensures
        i == k,
{
    let a = files[i];
    let b = files[k];
    if i < k {
        assert(b.modified >= a.modified);
        assert(a.modified > b.modified);
    } else if k < i {
        assert(a.modified >= b.modified);
        assert(b.modified > a.modified);
    }
}

/// Retention leaves at most `max` files, and removes none if there are no
/// more than `max`. Every file goes one way or the other.
pub proof fn lemma_retention_counts(files: Seq<BackupFileView>, max: nat)
    ensures
        kept(files, max).len() == if files.len() <= max {
            files.len()
        } else {
            max
        },
        evicted(files, max).len() + kept(files, max).len() == files.len(),
    decreases files.len(),
{
    if files.len() > max {
        lemma_oldest_exists(files);
        lemma_retention_counts(files.remove(oldest(files)), max);
    }
}

/// Every file that retention keeps is one of the files.
pub proof fn lemma_kept_is_member(files: Seq<BackupFileView>, max: nat, j: int)
    requires
        0 <= j < kept(files, max).len(),
    ensures
        files.contains(kept(files, max)[j]),
    decreases files.len(),
{
    if files.len() <= max {
        assert(files[j] == kept(files, max)[j]);
    } else {
        lemma_oldest_exists(files);
        let o = oldest(files);
        let rest = files.remove(o);
        lemma_kept_is_member(rest, max, j);
        let k = choose|k: int| 0 <= k < rest.len() && rest[k] == kept(rest, max)[j];
        if k < o {
            assert(files[k] == rest[k]);
        } else {
            assert(files[k + 1] == rest[k]);
        }
    }
}

/// Retention removes from the old end: no file that it removes is newer than
/// a file that it keeps.
pub proof fn lemma_retention_keeps_newest(files: Seq<BackupFileView>, max: nat, i: int, j: int)
    requires
        0 <= i < evicted(files, max).len(),
        0 <= j < kept(files, max).len(),
    ensures
        evicted(files, max)[i].modified <= kept(files, max)[j].modified,
    decreases files.len(),
{
    if files.len() > max {
        lemma_oldest_exists(files);
        let o = oldest(files);
        let rest = files.remove(o);
        if i == 0 {
            lemma_kept_is_member(rest, max, j);
            let k = choose|k: int| 0 <= k < rest.len() && rest[k] == kept(rest, max)[j];
            if k < o {
                assert(files[k] == rest[k]);
            } else {
                assert(files[k + 1] == rest[k]);
            }
        } else {
            lemma_retention_keeps_newest(rest, max, i - 1, j);
        }
    }
}

/// A non-empty sequence of files has an oldest file.
pub proof fn lemma_oldest_exists(files: Seq<BackupFileView>)
    requires
        files.len() > 0,
    ensures
        is_oldest(files, oldest(files)),
    decreases files.len(),
{
    if files.len() == 1 {
        assert(is_oldest(files, 0));
    } else {
        let front = files.drop_last();
        lemma_oldest_exists(front);
        let i = oldest(front);
        let last = files.len() - 1;
        assert(forall|j: int| 0 <= j < last ==> files[j] == front[j]);
        if files[last].modified < front[i].modified {
            assert forall|j: int| 0 <= j < last implies (#[trigger] files[j]).modified
                > files[last].modified by {
                let f = front[j];
                assert(f.modified >= front[i].modified);
            }
            assert(is_oldest(files, last));
        } else {
            assert forall|j: int| i <= j < files.len() implies (#[trigger] files[j]).modified
                >= files[i].modified by {
                if j < last {
                    let f = front[j];
                    assert(f.modified >= front[i].modified);
                }
            }
            assert forall|j: int| 0 <= j < i implies (#[trigger] files[j]).modified
                > files[i].modified by {
                let f = front[j];
                assert(f.modified > front[i].modified);
            }
            assert(is_oldest(files, i));
        }
    }
}

/// The security manager: its settings, whether it is running, and the events
/// that it retains.
#[derive(Debug)]
pub struct SecurityManager {
    config: SecurityConfig,
    events: Vec<SecurityEvent>,
    running: bool,
}

impl SecurityManager {
    /// The retained events, oldest first.
    pub closed spec fn events(&self) -> Seq<SecurityEventView> {
        event_views(self.events@)
    }

    /// Whether the manager is in its running state.
    pub closed spec fn running(&self) -> bool {
        self.running
    }

    /// The settings that the manager was made with. They never change.
    pub closed spec fn settings(&self) -> SecurityConfig {
        self.config
    }

    /// For how many milliseconds an event is retained.
    pub open spec fn retention(&self) -> u64 {
        self.settings().log_retention
    }

    /// Whether backups are made.
    pub open spec fn backups_enabled(&self) -> bool {
        self.settings().enable_backup
    }

    /// How many backups are kept.
    pub open spec fn max_backups(&self) -> nat {
        self.settings().max_backups as nat
    }

    /// A stopped manager with the settings `config` and no event.
    pub fn new(config: SecurityConfig) -> (m: SecurityManager)
        ensures
            !m.running(),
            m.events() == Seq::<SecurityEventView>::empty(),
            m.settings() == config,
    {
        let m = SecurityManager { config, events: Vec::new(), running: false };
        assert(m.events() =~= Seq::<SecurityEventView>::empty());
        m
    }

    /// The settings of the manager.
    pub fn config(&self) -> (c: &SecurityConfig)
        ensures
            *c == self.settings(),
    {
        &self.config
    }

    /// Puts the manager in its running state. A running manager refuses with
    /// `AlreadyRunning`. The result of a successful start says whether the
    /// backup schedule has to be started, that is, whether backups are made.
    pub fn start(&mut self) -> (r: Result<bool, SupervisorError>)
        ensures
            final(self).running(),
            final(self).events() == old(self).events(),
            final(self).settings() == old(self).settings(),
            match r {
                Ok(schedule) => !old(self).running() && schedule == old(self).backups_enabled(),
                Err(e) => old(self).running() && e@ == SupervisorErrorView::AlreadyRunning,
            },
    {
        if self.running {
            return Err(SupervisorError::AlreadyRunning);
        }
        self.running = true;
        Ok(self.config.enable_backup)
    }

    /// Puts the manager in its stopped state.
    pub fn stop(&mut self)
        ensures
            !final(self).running(),
            final(self).events() == old(self).events(),
            final(self).settings() == old(self).settings(),
    {
        self.running = false;
    }

    /// Whether the manager is in its running state.
    pub fn is_running(&self) -> (b: bool)
        ensures
            b == self.running(),
    {
        self.running
    }

    /// Appends `event` and then drops every event that is older than the
    /// retention at `now`, the new one included.
    pub fn log_event_at(&mut self, event: SecurityEvent, now: Timestamp)
        ensures
            final(self).running() == old(self).running(),
            final(self).settings() == old(self).settings(),
            final(self).events() == retained(
                old(self).events().push(event@),
                now,
                old(self).retention(),
            ),
    {
        let ghost before = self.events@;
        self.events.push(event);
        assert(event_views(before.push(event)) =~= event_views(before).push(event@));
        self.cleanup_old_events(now);
    }

    /// `log_event_at` at the time that the wall clock shows, which is some
    /// time not before the Unix epoch.
    pub fn log_event(&mut self, event: SecurityEvent)
        ensures
            final(self).running() == old(self).running(),
            final(self).settings() == old(self).settings(),
            exists|now: Timestamp|
                now.millis >= 0 && final(self).events() == #[trigger] retained(
                    old(self).events().push(event@),
                    now,
                    old(self).retention(),
                ),
    {
        let now = wall_clock_now();
        self.log_event_at(event, now);
        assert(self.events() == retained(
            old(self).events().push(event@),
            now,
            old(self).retention(),
        ));
    }

    /// Drops every event that is older than the retention at `now`.
    fn cleanup_old_events(&mut self, now: Timestamp)
        ensures
            final(self).running() == old(self).running(),
            final(self).settings() == old(self).settings(),
            final(self).events() == retained(old(self).events(), now, old(self).retention()),
    {
        let mut fresh: Vec<SecurityEvent> = Vec::new();
        let n = self.events.len();
        let retention = self.config.log_retention;
        let mut i: usize = 0;
        assert(retained(self.events().take(0), now, retention) =~= Seq::<
            SecurityEventView,
        >::empty()) by {
            reveal(Seq::filter);
        }
        while i < n
            invariant
                *self == *old(self),
                n == self.events@.len(),
                retention == self.config.log_retention,
                retention == old(self).retention(),
                i <= n,
                event_views(fresh@) == retained(self.events().take(i as int), now, retention),
            decreases n - i,
        {
            proof {
                lemma_retained_step(self.events(), now, retention, i as int);
            }
            let e = &self.events[i];
            if e.timestamp.millis as i128 >= now.millis as i128 - retention as i128 {
                let ghost shown = fresh@;
                let copy = e.clone();
                fresh.push(copy);
                assert(event_views(shown.push(copy)) =~= event_views(shown).push(copy@));
            }
            i = i + 1;
        }
        assert(self.events().take(n as int) =~= self.events());
        self.events = fresh;
    }

    /// The retained events, oldest first.
    pub fn get_events(&self) -> (out: &[SecurityEvent])
        ensures
            event_views(out@) == self.events(),
    {
        self.events.as_slice()
    }

    /// The retained events of the given type, oldest first.
    pub fn get_events_by_type(&self, event_type: SecurityEventType) -> (out: Vec<&SecurityEvent>)
        ensures
            event_ref_views(out@) == of_type(self.events(), event_type),
    {
        let mut out: Vec<&SecurityEvent> = Vec::new();
        let n = self.events.len();
        let mut i: usize = 0;
        assert(of_type(self.events().take(0), event_type) =~= Seq::<SecurityEventView>::empty())
            by {
            reveal(Seq::filter);
        }
        while i < n
            invariant
                n == self.events@.len(),
                i <= n,
                event_ref_views(out@) == of_type(self.events().take(i as int), event_type),
            decreases n - i,
        {
            proof {
                lemma_of_type_step(self.events(), event_type, i as int);
            }
            let e = &self.events[i];
            if e.event_type == event_type {
                let ghost shown = out@;
                out.push(e);
                assert(event_ref_views(shown.push(e)) =~= event_ref_views(shown).push(e@));
            }
            i = i + 1;
        }
        assert(self.events().take(n as int) =~= self.events());
        out
    }

    /// The retained events of the given severity, oldest first.
    pub fn get_events_by_severity(&self, severity: SecuritySeverity) -> (out: Vec<&SecurityEvent>)
        ensures
            event_ref_views(out@) == of_severity(self.events(), severity),
    {
        let mut out: Vec<&SecurityEvent> = Vec::new();
        let n = self.events.len();
        let mut i: usize = 0;
        assert(of_severity(self.events().take(0), severity) =~= Seq::<SecurityEventView>::empty())
            by {
            reveal(Seq::filter);
        }
        while i < n
            invariant
                n == self.events@.len(),
                i <= n,
                event_ref_views(out@) == of_severity(self.events().take(i as int), severity),
            decreases n - i,
        {
            proof {
                lemma_of_severity_step(self.events(), severity, i as int);
            }
            let e = &self.events[i];
            if e.severity == severity {
                let ghost shown = out@;
                out.push(e);
                assert(event_ref_views(shown.push(e)) =~= event_ref_views(shown).push(e@));
            }
            i = i + 1;
        }
        assert(self.events().take(n as int) =~= self.events());
        out
    }

    /// The file name of the backup made at the time that `stamp` names.
    pub fn backup_name(stamp: &str) -> (name: String)
        ensures
            name@ == backup_name_of(stamp@),
    {
        let mut name = String::from_str("backup_").concat(stamp);
        name.append(".zip");
        name
    }

    /// Records that the backup `name` was made at `now`: a manager that makes
    /// backups logs `backup_event_of(name, now)` as `log_event_at` does; one
    /// that makes none does nothing. The result says which it was.
    pub fn record_backup(&mut self, name: &str, now: Timestamp) -> (recorded: bool)
        ensures
            recorded == old(self).backups_enabled(),
            final(self).running() == old(self).running(),
            final(self).settings() == old(self).settings(),
            final(self).events() == if old(self).backups_enabled() {
                retained(
                    old(self).events().push(backup_event_of(name@, now)),
                    now,
                    old(self).retention(),
                )
            } else {
                old(self).events()
            },
    {
        if !self.config.enable_backup {
            return false;
        }
        let event = SecurityEvent {
            timestamp: now,
            event_type: SecurityEventType::BackupOperation,
            source: String::from_str("SecurityManager"),
            details: String::from_str("Created backup: ").concat(name),
            severity: SecuritySeverity::Info,
        };
        self.log_event_at(event, now);
        true
    }

    /// Names the backup that is made now and records it. A manager that
    /// makes no backups does nothing and names none. Otherwise the name is
    /// `backup_name_of` the time of the wall clock written in the compact
    /// format, whatever text that is, and the backup is
    /// recorded as `record_backup` does, at some time not before the Unix
    /// epoch.
    pub fn perform_backup(&mut self) -> (name: Option<String>)
        ensures
            final(self).running() == old(self).running(),
            final(self).settings() == old(self).settings(),
            name is Some == old(self).backups_enabled(),
            name is None ==> final(self).events() == old(self).events(),
            name matches Some(n) ==> exists|stamp: Seq<char>, now: Timestamp|
                n@ == backup_name_of(stamp) && now.millis >= 0 && final(self).events()
                    == #[trigger] retained(
                    old(self).events().push(backup_event_of(backup_name_of(stamp), now)),
                    now,
                    old(self).retention(),
                ),
    {
        if !self.config.enable_backup {
            return None;
        }
        let stamp = utc_now_formatted("%Y%m%d_%H%M%S");
        let name = SecurityManager::backup_name(stamp.as_str());
        let now = wall_clock_now();
        let _ = self.record_backup(name.as_str(), now);
        let r = Some(name);
        assert(self.events() == retained(
            old(self).events().push(backup_event_of(backup_name_of(stamp@), now)),
            now,
            old(self).retention(),
        ));
        r
    }

    /// The backups that have to be removed so that at most as many stay as
    /// the settings allow: the oldest again and again, in the order of
    /// removal. `files` are the backups that exist.
    pub fn cleanup_old_backups(&self, files: Vec<BackupFile>) -> (out: Vec<BackupFile>)
        ensures
            backup_views(out@) == evicted(backup_views(files@), self.max_backups()),
    {
        backups_to_remove(files, self.config.max_backups)
    }
}

/// The backups of `files` that have to be removed so that at most `max`
/// stay: the oldest again and again, the first one among backups of the same
/// age, in the order of removal.
pub fn backups_to_remove(files: Vec<BackupFile>, max: usize) -> (out: Vec<BackupFile>)
    ensures
        backup_views(out@) == evicted(backup_views(files@), max as nat),
{
    let mut rest = files;
    let mut out: Vec<BackupFile> = Vec::new();
    assert(backup_views(out@) =~= Seq::<BackupFileView>::empty());
    while rest.len() > max
        invariant
            evicted(backup_views(files@), max as nat) == backup_views(out@) + evicted(
                backup_views(rest@),
                max as nat,
            ),
        decreases rest.len(),
    {
        let ghost views = backup_views(rest@);
        let mut at: usize = 0;
        let mut i: usize = 1;
        while i < rest.len()
            invariant
                views == backup_views(rest@),
                rest@.len() > 0,
                1 <= i <= rest@.len(),
                at < i,
                forall|j: int| 0 <= j < at ==> views[j].modified > views[at as int].modified,
                forall|j: int| at <= j < i ==> views[j].modified >= views[at as int].modified,
            decreases rest.len() - i,
        {
            if rest[i].modified < rest[at].modified {
                at = i;
            }
            i = i + 1;
        }
        proof {
            assert(is_oldest(views, at as int));
            lemma_oldest_exists(views);
            lemma_oldest_unique(views, at as int, oldest(views));
        }
        let ghost shown = out@;
        let file = rest.remove(at);
        out.push(file);
        proof {
            assert(backup_views(rest@) =~= views.remove(at as int));
            assert(backup_views(shown.push(file)) =~= backup_views(shown) + seq![views[at as int]]);
            assert(backup_views(shown) + (seq![views[at as int]] + evicted(
                views.remove(at as int),
                max as nat,
            )) =~= backup_views(shown) + seq![views[at as int]] + evicted(
                views.remove(at as int),
                max as nat,
            ));
        }
    }
    assert(backup_views(out@) + Seq::<BackupFileView>::empty() =~= backup_views(out@));
    out
}

/// Extending the retained events of a prefix by one event.
proof fn lemma_retained_step(events: Seq<SecurityEventView>, now: Timestamp, retention: u64, i: int)
    requires
        0 <= i < events.len(),
    ensures
        retained(events.take(i + 1), now, retention) == if is_retained(events[i], now, retention) {
            retained(events.take(i), now, retention).push(events[i])
        } else {
            retained(events.take(i), now, retention)
        },
{
    reveal(Seq::filter);
    assert(events.take(i + 1).drop_last() =~= events.take(i));
}

/// Extending the events of one type of a prefix by one event.
proof fn lemma_of_type_step(events: Seq<SecurityEventView>, event_type: SecurityEventType, i: int)
    requires
        0 <= i < events.len(),
    ensures
        of_type(events.take(i + 1), event_type) == if events[i].event_type == event_type {
            of_type(events.take(i), event_type).push(events[i])
        } else {
            of_type(events.take(i), event_type)
        },
{
    reveal(Seq::filter);
    assert(events.take(i + 1).drop_last() =~= events.take(i));
}

/// Extending the events of one severity of a prefix by one event.
proof fn lemma_of_severity_step(events: Seq<SecurityEventView>, severity: SecuritySeverity, i: int)
    requires
        0 <= i < events.len(),
    ensures
        of_severity(events.take(i + 1), severity) == if events[i].severity == severity {
            of_severity(events.take(i), severity).push(events[i])
        } else {
            of_severity(events.take(i), severity)
        },
{
    reveal(Seq::filter);
    assert(events.take(i + 1).drop_last() =~= events.take(i));
}

} // verus!
