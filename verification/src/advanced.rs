//! Scheduled tasks and the notification bus.
//!
//! The scheduler holds a registry of tasks under their ids. One tick fires
//! every task that is due, emits a notification for it and reschedules it.
//! The bus is a bounded queue in front of a retained history: senders queue,
//! one consumer delivers.

use crate::clock::{wall_clock_now, Timestamp};
use crate::error::{SupervisorError, SupervisorErrorView};
use crate::registry::{position, Registry};
use vstd::prelude::*;
use vstd::string::*;

verus! {

/// How many notifications the bus queues before a sender has to wait.
pub const CHANNEL_CAPACITY: usize = 100;

/// When a task becomes due.
#[derive(Debug)]
pub enum TaskSchedule {
    /// Again and again, the given number of milliseconds after each firing.
    Interval(u64),
    /// By a cron expression. Cron expressions are not evaluated: such a task
    /// never becomes due.
    Cron(String),
    /// Once.
    OneTime(Timestamp),
}

/// What a `TaskSchedule` is, with text as character sequences.
pub enum TaskScheduleView {
    Interval(u64),
    Cron(Seq<char>),
    OneTime(Timestamp),
}

impl View for TaskSchedule {
    type V = TaskScheduleView;

    open spec fn view(&self) -> TaskScheduleView {
        match self {
            TaskSchedule::Interval(d) => TaskScheduleView::Interval(*d),
            TaskSchedule::Cron(e) => TaskScheduleView::Cron(e@),
            TaskSchedule::OneTime(t) => TaskScheduleView::OneTime(*t),
        }
    }
}

impl Clone for TaskSchedule {
    fn clone(&self) -> (r: TaskSchedule)
        ensures
            r == *self,
    {
        match self {
            TaskSchedule::Interval(d) => TaskSchedule::Interval(*d),
            TaskSchedule::Cron(e) => TaskSchedule::Cron(e.clone()),
            TaskSchedule::OneTime(t) => TaskSchedule::OneTime(*t),
        }
    }
}

/// A job of the scheduler.
#[derive(Debug)]
pub struct ScheduledTask {
    pub id: String,
    pub name: String,
    pub command: String,
    pub schedule: TaskSchedule,
    pub last_run: Option<Timestamp>,
    pub next_run: Timestamp,
    pub enabled: bool,
}

/// What a `ScheduledTask` is, with text as character sequences.
pub struct ScheduledTaskView {
    pub id: Seq<char>,
    pub name: Seq<char>,
    pub command: Seq<char>,
    pub schedule: TaskScheduleView,
    pub last_run: Option<Timestamp>,
    pub next_run: Timestamp,
    pub enabled: bool,
}

impl View for ScheduledTask {
    type V = ScheduledTaskView;

    open spec fn view(&self) -> ScheduledTaskView {
        ScheduledTaskView {
            id: self.id@,
            name: self.name@,
            command: self.command@,
            schedule: self.schedule@,
            last_run: self.last_run,
            next_run: self.next_run,
            enabled: self.enabled,
        }
    }
}

impl Clone for ScheduledTask {
    fn clone(&self) -> (r: ScheduledTask)
        ensures
            r == *self,
    {
        ScheduledTask {
            id: self.id.clone(),
            name: self.name.clone(),
            command: self.command.clone(),
            schedule: self.schedule.clone(),
            last_run: self.last_run,
            next_run: self.next_run,
            enabled: self.enabled,
        }
    }
}

/// How much a notification matters.
#[derive(Debug, Clone, Copy, PartialEq, Eq, Structural)]
pub enum NotificationLevel {
    Info,
    Warning,
    Error,
    Success,
}

/// An entry of the notification history. Only `read` changes after creation.
#[derive(Debug)]
pub struct Notification {
    pub id: String,
    pub title: String,
    pub message: String,
    pub level: NotificationLevel,
    pub timestamp: Timestamp,
    pub read: bool,
}

/// What became of a notification that was sent while the bus was open.
#[derive(Debug)]
pub enum SendOutcome {
    /// It waits in the queue.
    Queued,
    /// The queue is full; here it is again.
    Full(Notification),
}

/// What a `Notification` is, with text as character sequences.
pub struct NotificationView {
    pub id: Seq<char>,
    pub title: Seq<char>,
    pub message: Seq<char>,
    pub level: NotificationLevel,
    pub timestamp: Timestamp,
    pub read: bool,
}

impl View for Notification {
    type V = NotificationView;

    open spec fn view(&self) -> NotificationView {
        NotificationView {
            id: self.id@,
            title: self.title@,
            message: self.message@,
            level: self.level,
            timestamp: self.timestamp,
            read: self.read,
        }
    }
}

impl Clone for Notification {
    fn clone(&self) -> (r: Notification)
        ensures
            r == *self,
    {
        Notification {
            id: self.id.clone(),
            title: self.title.clone(),
            message: self.message.clone(),
            level: self.level,
            timestamp: self.timestamp,
            read: self.read,
        }
    }
}

/// A task is due at `now` if it is enabled, its next run is not after `now`,
/// and its schedule is one that is evaluated.
pub open spec fn is_due(t: ScheduledTaskView, now: Timestamp) -> bool {
    &&& t.enabled
    &&& t.next_run.millis <= now.millis
    &&& !(t.schedule is Cron)
}

/// Whether the next run of `t` after a firing at `now` is a representable
/// point in time.
pub open spec fn can_fire(t: ScheduledTaskView, now: Timestamp) -> bool {
    match t.schedule {
        TaskScheduleView::Interval(d) => now.millis + d <= i64::MAX,
        _ => true,
    }
}

/// The task after it fired at `now`: an interval task runs next one interval
/// after `now`; a one-time task is disabled; both remember `now` as their
/// last run.
pub open spec fn fired(t: ScheduledTaskView, now: Timestamp) -> ScheduledTaskView {
    match t.schedule {
        TaskScheduleView::Interval(d) => ScheduledTaskView {
            next_run: Timestamp { millis: (now.millis + d) as i64 },
            last_run: Some(now),
            ..t
        },
        TaskScheduleView::Cron(_) => ScheduledTaskView { last_run: Some(now), ..t },
        TaskScheduleView::OneTime(_) => ScheduledTaskView {
            enabled: false,
            last_run: Some(now),
            ..t
        },
    }
}

/// What one scheduler tick at `now` makes of a task.
pub open spec fn step_task(t: ScheduledTaskView, now: Timestamp) -> ScheduledTaskView {
    if is_due(t, now) {
        fired(t, now)
    } else {
        t
    }
}

/// The tasks of `tasks` that are due at `now`, in their order.
pub open spec fn due_tasks(tasks: Seq<ScheduledTaskView>, now: Timestamp) -> Seq<
    ScheduledTaskView,
> {
    tasks.filter(|t: ScheduledTaskView| is_due(t, now))
}

/// Whether every task of `tasks` that is due at `now` can be rescheduled.
pub open spec fn can_tick_at(tasks: Seq<ScheduledTaskView>, now: Timestamp) -> bool {
    forall|i: int|
        0 <= i < tasks.len() && is_due(#[trigger] tasks[i], now) ==> can_fire(tasks[i], now)
}

/// The notification that reports the firing of `t` at `now` under `id`.
pub open spec fn notice_for(t: ScheduledTaskView, id: Seq<char>, now: Timestamp) -> NotificationView {
    NotificationView {
        id,
        title: "Task executed: "@ + t.name,
        message: "Command: "@ + t.command,
        level: NotificationLevel::Info,
        timestamp: now,
        read: false,
    }
}

/// Whether `after` and `notes` are what a tick at `now` makes of the tasks
/// `before`: every task stepped, and one notification for each task that was
/// due, in registry order, under an id of 36 characters.
pub open spec fn is_tick_of(
    before: Seq<ScheduledTaskView>,
    after: Seq<ScheduledTaskView>,
    notes: Seq<NotificationView>,
    now: Timestamp,
) -> bool {
    &&& after == before.map_values(|t: ScheduledTaskView| step_task(t, now))
    &&& notes.len() == due_tasks(before, now).len()
    &&& forall|j: int|
        0 <= j < notes.len() ==> #[trigger] notes[j] == notice_for(
            due_tasks(before, now)[j],
            notes[j].id,
            now,
        ) && notes[j].id.len() == 36
}

/// The views of a sequence of tasks.
pub open spec fn task_views(tasks: Seq<ScheduledTask>) -> Seq<ScheduledTaskView> {
    tasks.map_values(|t: ScheduledTask| t@)
}

/// The views of a sequence of notifications.
pub open spec fn notification_views(notes: Seq<Notification>) -> Seq<NotificationView> {
    notes.map_values(|n: Notification| n@)
}

/// `i` is the first place of `history` whose notification has the id `id`.
pub open spec fn is_first_with_id(history: Seq<NotificationView>, id: Seq<char>, i: int) -> bool {
    &&& 0 <= i < history.len()
    &&& history[i].id == id
    &&& forall|j: int| 0 <= j < i ==> history[j].id != id
}

/// The first place of `history` whose notification has the id `id`, if there
/// is one.
pub open spec fn first_with_id(history: Seq<NotificationView>, id: Seq<char>) -> Option<int> {
    if exists|i: int| is_first_with_id(history, id, i) {
        Some(choose|i: int| is_first_with_id(history, id, i))
    } else {
        None
    }
}

/// The history after the first notification with the id `id` was marked as
/// read; the same history if there is no such notification.
pub open spec fn mark_read(history: Seq<NotificationView>, id: Seq<char>) -> Seq<NotificationView> {
    match first_with_id(history, id) {
        Some(i) => history.update(i, NotificationView { read: true, ..history[i] }),
        None => history,
    }
}

/// The notifications of `history` that are not read, in their order.
pub open spec fn unread(history: Seq<NotificationView>) -> Seq<NotificationView> {
    history.filter(|n: NotificationView| !n.read)
}

/// Draws a fresh notification id: `uuid::Uuid::new_v4`, a random version-4
/// UUID, written by its `Display` impl, which is the hyphenated form of 36
/// characters. The length is all that is claimed of the result.
#[verifier::external_body]
fn fresh_notification_id() -> (id: String)
    ensures
        id@.len() == 36,
{
    uuid::Uuid::new_v4().to_string()
}

impl ScheduledTask {
    /// Whether the task is due at `now`.
    pub fn is_due(&self, now: Timestamp) -> (b: bool)
        ensures
            b == is_due(self@, now),
    {
        let evaluated = match &self.schedule {
            TaskSchedule::Cron(_) => false,
            _ => true,
        };
        self.enabled && self.next_run.millis <= now.millis && evaluated
    }

    /// Whether the next run after a firing at `now` is representable.
    pub fn can_fire(&self, now: Timestamp) -> (b: bool)
        ensures
            b == can_fire(self@, now),
    {
        match &self.schedule {
            TaskSchedule::Interval(d) => now.millis as i128 + *d as i128 <= i64::MAX as i128,
            _ => true,
        }
    }

    /// The task after it fired at `now`.
    pub fn fired(&self, now: Timestamp) -> (r: ScheduledTask)
        requires
            can_fire(self@, now),
        ensures
            r@ == fired(self@, now),
    {
        let mut r = self.clone();
        r.last_run = Some(now);
        match &self.schedule {
            TaskSchedule::Interval(d) => {
                r.next_run = Timestamp { millis: (now.millis as i128 + *d as i128) as i64 };
            },
            TaskSchedule::Cron(_) => {},
            TaskSchedule::OneTime(_) => {
                r.enabled = false;
            },
        }
        r
    }

    /// The notification that reports the firing of the task at `now`, under
    /// the id `id`.
    pub fn execution_notice(&self, id: String, now: Timestamp) -> (n: Notification)
        ensures
            n@ == notice_for(self@, id@, now),
    {
        let title = String::from_str("Task executed: ").concat(self.name.as_str());
        let message = String::from_str("Command: ").concat(self.command.as_str());
        Notification {
            id,
            title,
            message,
            level: NotificationLevel::Info,
            timestamp: now,
            read: false,
        }
    }
}

/// Extending the due tasks of a prefix by one task.
proof fn lemma_due_step(tasks: Seq<ScheduledTaskView>, now: Timestamp, i: int)
    requires
        0 <= i < tasks.len(),
    ensures
        due_tasks(tasks.take(i + 1), now) == if is_due(tasks[i], now) {
            due_tasks(tasks.take(i), now).push(tasks[i])
        } else {
            due_tasks(tasks.take(i), now)
        },
{
    reveal(Seq::filter);
    assert(tasks.take(i + 1).drop_last() =~= tasks.take(i));
}

/// Extending the unread notifications of a prefix by one notification.
proof fn lemma_unread_step(history: Seq<NotificationView>, i: int)
    requires
        0 <= i < history.len(),
    ensures
        unread(history.take(i + 1)) == if !history[i].read {
            unread(history.take(i)).push(history[i])
        } else {
            unread(history.take(i))
        },
{
    reveal(Seq::filter);
    assert(history.take(i + 1).drop_last() =~= history.take(i));
}

/// The scheduler with its task registry, and the notification bus with its
/// queue and its retained history.
#[derive(Debug)]
pub struct AdvancedManager {
    tasks: Registry<ScheduledTask>,
    notifications: Vec<Notification>,
    pending: Vec<Notification>,
    running: bool,
    consumer_gone: bool,
}

impl AdvancedManager {
    /// The ids under which the tasks are registered, in registry order.
    pub closed spec fn task_ids(&self) -> Seq<Seq<char>> {
        self.tasks.keys()
    }

    /// The registered tasks, in registry order.
    pub closed spec fn tasks(&self) -> Seq<ScheduledTaskView> {
        task_views(self.tasks.values())
    }

    /// The retained notifications, oldest first.
    pub closed spec fn history(&self) -> Seq<NotificationView> {
        notification_views(self.notifications@)
    }

    /// The notifications that are queued on the bus and not yet delivered,
    /// oldest first.
    pub closed spec fn queued(&self) -> Seq<NotificationView> {
        notification_views(self.pending@)
    }

    /// Whether the scheduler is in its running state.
    pub closed spec fn running(&self) -> bool {
        self.running
    }

    /// Whether the bus takes notifications: it does until its consumer is
    /// gone.
    pub closed spec fn bus_open(&self) -> bool {
        !self.consumer_gone
    }

    /// No id is registered twice, every task stands under its own id, and
    /// the bus queues no more than `CHANNEL_CAPACITY` notifications.
    pub closed spec fn wf(&self) -> bool {
        &&& self.tasks.wf()
        &&& self.tasks.keys().len() == self.tasks.values().len()
        &&& forall|i: int|
            0 <= i < self.tasks.values().len() ==> #[trigger] self.tasks.keys()[i]
                == self.tasks.values()[i]@.id
        &&& self.pending@.len() <= CHANNEL_CAPACITY
    }

    /// What well-formedness says in terms of the public model.
    pub proof fn lemma_wf(&self)
        requires
            self.wf(),
        ensures
            self.task_ids().len() == self.tasks().len(),
            self.task_ids().no_duplicates(),
            forall|i: int|
                0 <= i < self.tasks().len() ==> #[trigger] self.task_ids()[i] == self.tasks()[i].id,
            self.queued().len() <= CHANNEL_CAPACITY,
    {
        self.tasks.lemma_wf();
    }

    /// A stopped manager with no task, an empty queue and an empty history.
    pub fn new() -> (m: AdvancedManager)
        ensures
            m.wf(),
            !m.running(),
            m.bus_open(),
            m.task_ids() == Seq::<Seq<char>>::empty(),
            m.tasks() == Seq::<ScheduledTaskView>::empty(),
            m.history() == Seq::<NotificationView>::empty(),
            m.queued() == Seq::<NotificationView>::empty(),
    {
        let m = AdvancedManager {
            tasks: Registry::new(),
            notifications: Vec::new(),
            pending: Vec::new(),
            running: false,
            consumer_gone: false,
        };
        assert(m.tasks() =~= Seq::<ScheduledTaskView>::empty());
        assert(m.history() =~= Seq::<NotificationView>::empty());
        assert(m.queued() =~= Seq::<NotificationView>::empty());
        m
    }

    /// Puts the scheduler in its running state. The result says whether it
    /// was stopped before, that is, whether its loops have to be started.
    pub fn start(&mut self) -> (started: bool)
        requires
            old(self).wf(),
        ensures
            final(self).wf(),
            final(self).running(),
            started == !old(self).running(),
            final(self).bus_open() == old(self).bus_open(),
            final(self).task_ids() == old(self).task_ids(),
            final(self).tasks() == old(self).tasks(),
            final(self).history() == old(self).history(),
            final(self).queued() == old(self).queued(),
    {
        let started = !self.running;
        self.running = true;
        started
    }

    /// Puts the scheduler in its stopped state: ticks fire nothing until it is
    /// started again. Tasks, queue and history stay.
    pub fn stop(&mut self)
        requires
            old(self).wf(),
        ensures
            final(self).wf(),
            !final(self).running(),
            final(self).bus_open() == old(self).bus_open(),
            final(self).task_ids() == old(self).task_ids(),
            final(self).tasks() == old(self).tasks(),
            final(self).history() == old(self).history(),
            final(self).queued() == old(self).queued(),
    {
        self.running = false;
    }

    /// Whether the scheduler is in its running state.
    pub fn is_running(&self) -> (b: bool)
        ensures
            b == self.running(),
    {
        self.running
    }

    /// Registers `task` under its id. A task that is registered under that id
    /// is replaced and keeps its place; a new id goes to the end.
    pub fn add_task(&mut self, task: ScheduledTask)
        requires
            old(self).wf(),
        ensures
            final(self).wf(),
            final(self).running() == old(self).running(),
            final(self).bus_open() == old(self).bus_open(),
            final(self).history() == old(self).history(),
            final(self).queued() == old(self).queued(),
            match position(old(self).task_ids(), task@.id) {
                Some(i) => {
                    &&& final(self).task_ids() == old(self).task_ids()
                    &&& final(self).tasks() == old(self).tasks().update(i, task@)
                },
                None => {
                    &&& final(self).task_ids() == old(self).task_ids().push(task@.id)
                    &&& final(self).tasks() == old(self).tasks().push(task@)
                },
            },
    {
        let key = task.id.clone();
        let ghost before = self.tasks.values();
        let _ = self.tasks.insert(key, task);
        proof {
            match position(old(self).task_ids(), task@.id) {
                Some(i) => {
                    assert(task_views(before.update(i, task)) =~= task_views(before).update(
                        i,
                        task@,
                    ));
                },
                None => {
                    assert(task_views(before.push(task)) =~= task_views(before).push(task@));
                },
            }
        }
    }

    /// Takes the task under `id` out of the registry; the others keep their
    /// order. An unknown id changes nothing.
    pub fn remove_task(&mut self, id: &str)
        requires
            old(self).wf(),
        ensures
            final(self).wf(),
            final(self).running() == old(self).running(),
            final(self).bus_open() == old(self).bus_open(),
            final(self).history() == old(self).history(),
            final(self).queued() == old(self).queued(),
            match position(old(self).task_ids(), id@) {
                Some(i) => {
                    &&& final(self).task_ids() == old(self).task_ids().remove(i)
                    &&& final(self).tasks() == old(self).tasks().remove(i)
                },
                None => {
                    &&& final(self).task_ids() == old(self).task_ids()
                    &&& final(self).tasks() == old(self).tasks()
                },
            },
    {
        let ghost before = self.tasks.values();
        let _ = self.tasks.remove(id);
        proof {
            match position(old(self).task_ids(), id@) {
                Some(i) => {
                    assert(task_views(before.remove(i)) =~= task_views(before).remove(i));
                },
                None => {},
            }
        }
    }

    /// A copy of the task under `id`, if there is one.
    pub fn get_task(&self, id: &str) -> (r: Option<ScheduledTask>)
        requires
            self.wf(),
        ensures
            match position(self.task_ids(), id@) {
                Some(i) => r matches Some(t) && t@ == self.tasks()[i],
                None => r is None,
            },
    {
        match self.tasks.get(id) {
            Some(t) => Some(t.clone()),
            None => None,
        }
    }

    /// Copies of all tasks, in registry order.
    pub fn get_all_tasks(&self) -> (out: Vec<ScheduledTask>)
        requires
            self.wf(),
        ensures
            task_views(out@) == self.tasks(),
    {
        let mut out: Vec<ScheduledTask> = Vec::new();
        let n = self.tasks.len();
        let mut i: usize = 0;
        while i < n
            invariant
                self.wf(),
                n == self.tasks.values().len(),
                i <= n,
                out@.len() == i,
                forall|j: int| 0 <= j < i ==> (#[trigger] out@[j])@ == self.tasks.values()[j]@,
            decreases n - i,
        {
            out.push(self.tasks.value_at(i).clone());
            i = i + 1;
        }
        assert(task_views(out@) =~= self.tasks());
        out
    }

    /// Whether a tick at `now` can reschedule every task that is due.
    pub fn can_tick(&self, now: Timestamp) -> (b: bool)
        requires
            self.wf(),
        ensures
            b == can_tick_at(self.tasks(), now),
    {
        let n = self.tasks.len();
        let mut i: usize = 0;
        while i < n
            invariant
                self.wf(),
                n == self.tasks.values().len(),
                i <= n,
                forall|j: int|
                    0 <= j < i && is_due(#[trigger] self.tasks()[j], now) ==> can_fire(
                        self.tasks()[j],
                        now,
                    ),
            decreases n - i,
        {
            let t = self.tasks.value_at(i);
            if t.is_due(now) && !t.can_fire(now) {
                assert(self.tasks()[i as int] == t@);
                return false;
            }
            assert(self.tasks()[i as int] == t@);
            i = i + 1;
        }
        true
    }

    /// One tick of the scheduler at `now`.
    ///
    /// A stopped scheduler fires nothing. A running one goes through the
    /// registry in order; each task that is due fires: it is rescheduled as
    /// `fired` says, and one notification reports it. The notifications come
    /// back in the order of the firings, to be sent over the bus; their ids
    /// are fresh random UUIDs.
    pub fn tick(&mut self, now: Timestamp) -> (out: Vec<Notification>)
        requires
            old(self).wf(),
            old(self).running() ==> can_tick_at(old(self).tasks(), now),
        ensures
            final(self).wf(),
            final(self).running() == old(self).running(),
            final(self).bus_open() == old(self).bus_open(),
            final(self).history() == old(self).history(),
            final(self).queued() == old(self).queued(),
            final(self).task_ids() == old(self).task_ids(),
            if old(self).running() {
                is_tick_of(old(self).tasks(), final(self).tasks(), notification_views(out@), now)
            } else {
                final(self).tasks() == old(self).tasks() && out@.len() == 0
            },
    {
        let mut out: Vec<Notification> = Vec::new();
        if !self.running {
            return out;
        }
        let n = self.tasks.len();
        let ghost before = self.tasks();
        let mut i: usize = 0;
        assert(due_tasks(before.take(0), now) =~= Seq::<ScheduledTaskView>::empty()) by {
            reveal(Seq::filter);
        }
        while i < n
            invariant
                self.wf(),
                self.running == old(self).running,
                self.consumer_gone == old(self).consumer_gone,
                self.notifications == old(self).notifications,
                self.pending == old(self).pending,
                before == old(self).tasks(),
                can_tick_at(before, now),
                n == before.len(),
                self.tasks().len() == n,
                self.tasks.values().len() == n,
                i <= n,
                self.task_ids() == old(self).task_ids(),
                forall|j: int| 0 <= j < i ==> #[trigger] self.tasks()[j] == step_task(before[j], now),
                forall|j: int| i <= j < n ==> #[trigger] self.tasks()[j] == before[j],
                out@.len() == due_tasks(before.take(i as int), now).len(),
                forall|j: int|
                    0 <= j < out@.len() ==> (#[trigger] out@[j])@ == notice_for(
                        due_tasks(before.take(i as int), now)[j],
                        out@[j]@.id,
                        now,
                    ) && out@[j]@.id.len() == 36,
            decreases n - i,
        {
            proof {
                lemma_due_step(before, now, i as int);
            }
            let task = self.tasks.value_at(i);
            assert(task@ == self.tasks()[i as int]);
            if task.is_due(now) {
                let id = fresh_notification_id();
                let note = task.execution_notice(id, now);
                let next = task.fired(now);
                let ghost values_before = self.tasks.values();
                let _ = self.tasks.replace_at(i, next);
                out.push(note);
                proof {
                    assert(task_views(values_before.update(i as int, next)) =~= task_views(
                        values_before,
                    ).update(i as int, next@));
                }
            }
            i = i + 1;
        }
        assert(before.take(n as int) =~= before);
        assert(self.tasks() =~= before.map_values(|t: ScheduledTaskView| step_task(t, now)));
        out
    }

    /// One tick of the scheduler at the time that the wall clock shows, which
    /// is some time not before the Unix epoch.
    ///
    /// A stopped scheduler fires nothing and hands back no notifications. A
    /// running one reads the clock. If every task that is due at that time
    /// can be rescheduled from it, this is `tick` at that time. If not,
    /// nothing changes and nothing comes back; so a scheduler whose tasks can
    /// be rescheduled from every time always ticks.
    pub fn tick_now(&mut self) -> (r: Option<Vec<Notification>>)
        requires
            old(self).wf(),
        ensures
            final(self).wf(),
            final(self).running() == old(self).running(),
            final(self).bus_open() == old(self).bus_open(),
            final(self).history() == old(self).history(),
            final(self).queued() == old(self).queued(),
            final(self).task_ids() == old(self).task_ids(),
            !old(self).running() ==> r is Some && r->0@.len() == 0 && final(self).tasks() == old(
                self,
            ).tasks(),
            r is None ==> final(self).tasks() == old(self).tasks() && old(self).running(),
            r is None ==> exists|now: Timestamp|
                now.millis >= 0 && !#[trigger] can_tick_at(old(self).tasks(), now),
            r is Some && old(self).running() ==> exists|now: Timestamp|
                now.millis >= 0 && can_tick_at(old(self).tasks(), now) && #[trigger] is_tick_of(
                    old(self).tasks(),
                    final(self).tasks(),
                    notification_views(r->0@),
                    now,
                ),
            (forall|now: Timestamp| now.millis >= 0 ==> #[trigger] can_tick_at(
                old(self).tasks(),
                now,
            )) ==> r is Some,
    {
        if !self.running {
            return Some(Vec::new());
        }
        let now = wall_clock_now();
        if !self.can_tick(now) {
            assert(!can_tick_at(old(self).tasks(), now));
            return None;
        }
        let out = self.tick(now);
        let r = Some(out);
        assert(can_tick_at(old(self).tasks(), now));
        assert(is_tick_of(old(self).tasks(), self.tasks(), notification_views(r->0@), now));
        r
    }

    /// Queues `notification` on the bus.
    ///
    /// A bus whose consumer is gone fails with `ChannelClosed`, and the
    /// notification is lost. With a full queue nothing changes and the
    /// notification comes back: the sender has to wait for a delivery and
    /// send again. Otherwise the notification waits at the back of the queue.
    pub fn send_notification(&mut self, notification: Notification) -> (r: Result<
        SendOutcome,
        SupervisorError,
    >)
        requires
            old(self).wf(),
        ensures
            final(self).wf(),
            final(self).running() == old(self).running(),
            final(self).bus_open() == old(self).bus_open(),
            final(self).task_ids() == old(self).task_ids(),
            final(self).tasks() == old(self).tasks(),
            final(self).history() == old(self).history(),
            match r {
                Ok(SendOutcome::Queued) => {
                    &&& old(self).bus_open()
                    &&& old(self).queued().len() < CHANNEL_CAPACITY
                    &&& final(self).queued() == old(self).queued().push(notification@)
                },
                Ok(SendOutcome::Full(back)) => {
                    &&& old(self).bus_open()
                    &&& old(self).queued().len() == CHANNEL_CAPACITY
                    &&& final(self).queued() == old(self).queued()
                    &&& back == notification
                },
                Err(e) => {
                    &&& !old(self).bus_open()
                    &&& e@ == SupervisorErrorView::ChannelClosed
                    &&& final(self).queued() == old(self).queued()
                },
            },
    {
        if self.consumer_gone {
            return Err(SupervisorError::ChannelClosed);
        }
        if self.pending.len() >= CHANNEL_CAPACITY {
            return Ok(SendOutcome::Full(notification));
        }
        let ghost before = self.pending@;
        self.pending.push(notification);
        assert(notification_views(before.push(notification)) =~= notification_views(before).push(
            notification@,
        ));
        Ok(SendOutcome::Queued)
    }

    /// The consumer of the bus is gone: from now on nothing can be sent. What
    /// is queued stays, and can still be delivered.
    pub fn close_bus(&mut self)
        requires
            old(self).wf(),
        ensures
            final(self).wf(),
            !final(self).bus_open(),
            final(self).running() == old(self).running(),
            final(self).task_ids() == old(self).task_ids(),
            final(self).tasks() == old(self).tasks(),
            final(self).history() == old(self).history(),
            final(self).queued() == old(self).queued(),
    {
        self.consumer_gone = true;
    }

    /// Whether the bus takes notifications.
    pub fn is_bus_open(&self) -> (b: bool)
        ensures
            b == self.bus_open(),
    {
        !self.consumer_gone
    }

    /// The consumer's step: appends every queued notification to the history,
    /// in the order of sending, and leaves the queue empty. The result is the
    /// number of notifications delivered.
    pub fn deliver_pending(&mut self) -> (delivered: usize)
        requires
            old(self).wf(),
        ensures
            final(self).wf(),
            final(self).running() == old(self).running(),
            final(self).bus_open() == old(self).bus_open(),
            final(self).task_ids() == old(self).task_ids(),
            final(self).tasks() == old(self).tasks(),
            final(self).history() == old(self).history() + old(self).queued(),
            final(self).queued() == Seq::<NotificationView>::empty(),
            delivered == old(self).queued().len(),
    {
        let ghost queue = self.pending@;
        let ghost history = self.notifications@;
        let delivered = self.pending.len();
        self.notifications.append(&mut self.pending);
        assert(notification_views(history + queue) =~= notification_views(history)
            + notification_views(queue));
        assert(self.queued() =~= Seq::<NotificationView>::empty());
        delivered
    }

    /// Copies of the retained notifications, oldest first.
    pub fn get_notifications(&self) -> (out: Vec<Notification>)
        ensures
            notification_views(out@) == self.history(),
    {
        let mut out: Vec<Notification> = Vec::new();
        let mut i: usize = 0;
        while i < self.notifications.len()
            invariant
                i <= self.notifications@.len(),
                out@.len() == i,
                forall|j: int| 0 <= j < i ==> (#[trigger] out@[j])@ == self.notifications@[j]@,
            decreases self.notifications.len() - i,
        {
            out.push(self.notifications[i].clone());
            i = i + 1;
        }
        assert(notification_views(out@) =~= self.history());
        out
    }

    /// Copies of the retained notifications that are not read, oldest first.
    pub fn get_unread_notifications(&self) -> (out: Vec<Notification>)
        ensures
            notification_views(out@) == unread(self.history()),
    {
        let mut out: Vec<Notification> = Vec::new();
        let mut i: usize = 0;
        assert(unread(self.history().take(0)) =~= Seq::<NotificationView>::empty()) by {
            reveal(Seq::filter);
        }
        while i < self.notifications.len()
            invariant
                i <= self.notifications@.len(),
                self.history().len() == self.notifications@.len(),
                notification_views(out@) == unread(self.history().take(i as int)),
            decreases self.notifications.len() - i,
        {
            proof {
                lemma_unread_step(self.history(), i as int);
            }
            if !self.notifications[i].read {
                let ghost shown = out@;
                let copy = self.notifications[i].clone();
                out.push(copy);
                assert(notification_views(shown.push(copy)) =~= notification_views(shown).push(
                    copy@,
                ));
            }
            i = i + 1;
        }
        assert(self.history().take(i as int) =~= self.history());
        out
    }

    /// Marks the first retained notification with the id `id` as read. An
    /// unknown id changes nothing.
    pub fn mark_notification_read(&mut self, id: &str)
        requires
            old(self).wf(),
        ensures
            final(self).wf(),
            final(self).running() == old(self).running(),
            final(self).bus_open() == old(self).bus_open(),
            final(self).task_ids() == old(self).task_ids(),
            final(self).tasks() == old(self).tasks(),
            final(self).queued() == old(self).queued(),
            final(self).history() == mark_read(old(self).history(), id@),
    {
        let wanted = id.to_owned();
        let n = self.notifications.len();
        let mut i: usize = 0;
        while i < n
            invariant
                *self == *old(self),
                self.wf(),
                n == self.notifications@.len(),
                wanted@ == id@,
                i <= n,
                forall|j: int| 0 <= j < i ==> self.history()[j].id != id@,
            decreases n - i,
        {
            if self.notifications[i].id == wanted {
                let ghost history = self.notifications@;
                let mut marked = self.notifications[i].clone();
                marked.read = true;
                self.notifications.push(marked);
                let _ = self.notifications.swap_remove(i);
                proof {
                    assert(is_first_with_id(old(self).history(), id@, i as int));
                    assert forall|k: int| is_first_with_id(old(self).history(), id@, k) implies k
                        == i by {}
                    assert(self.history() =~= mark_read(old(self).history(), id@));
                }
                return ;
            }
            i = i + 1;
        }
        proof {
            assert forall|k: int| !is_first_with_id(old(self).history(), id@, k) by {}
        }
    }

    /// Empties the retained history. The queue is not touched.
    pub fn clear_notifications(&mut self)
        requires
            old(self).wf(),
        ensures
            final(self).wf(),
            final(self).running() == old(self).running(),
            final(self).bus_open() == old(self).bus_open(),
            final(self).task_ids() == old(self).task_ids(),
            final(self).tasks() == old(self).tasks(),
            final(self).queued() == old(self).queued(),
            final(self).history() == Seq::<NotificationView>::empty(),
    {
        self.notifications.clear();
        assert(self.history() =~= Seq::<NotificationView>::empty());
    }
}

/// The task after scheduler ticks at the times `times`, first to last.
pub open spec fn after_ticks(t: ScheduledTaskView, times: Seq<Timestamp>) -> ScheduledTaskView
    decreases times.len(),
{
    if times.len() == 0 {
        t
    } else {
        step_task(after_ticks(t, times.drop_last()), times.last())
    }
}

/// How often the task fires during scheduler ticks at the times `times`.
pub open spec fn firings(t: ScheduledTaskView, times: Seq<Timestamp>) -> nat
    decreases times.len(),
{
    if times.len() == 0 {
        0
    } else {
        let n = firings(t, times.drop_last());
        if is_due(after_ticks(t, times.drop_last()), times.last()) {
            n + 1
        } else {
            n
        }
    }
}

/// How many notifications scheduler ticks at the times `times` emit for a
/// registry that holds the task `t` alone.
pub open spec fn notifications_emitted(t: ScheduledTaskView, times: Seq<Timestamp>) -> nat
    decreases times.len(),
{
    if times.len() == 0 {
        0
    } else {
        notifications_emitted(t, times.drop_last()) + due_tasks(
            seq![after_ticks(t, times.drop_last())],
            times.last(),
        ).len()
    }
}

/// Every firing of a task emits one notification, and nothing else does.
pub proof fn lemma_one_notification_per_firing(t: ScheduledTaskView, times: Seq<Timestamp>)
    ensures
        notifications_emitted(t, times) == firings(t, times),
    decreases times.len(),
{
    if times.len() > 0 {
        lemma_one_notification_per_firing(t, times.drop_last());
        let state = after_ticks(t, times.drop_last());
        let one = seq![state];
        reveal(Seq::filter);
        assert(one.drop_last() =~= Seq::<ScheduledTaskView>::empty());
        assert(due_tasks(one.drop_last(), times.last()) =~= Seq::<ScheduledTaskView>::empty());
        assert(one.last() == state);
    }
}

/// `k` points in time, `period` milliseconds apart, the first at `start`.
pub open spec fn every(start: Timestamp, period: u64, k: nat) -> Seq<Timestamp> {
    Seq::new(k, |j: int| Timestamp { millis: (start.millis + j * period) as i64 })
}

/// An interval task that fires at `now` runs next one interval after `now`,
/// stays enabled, and is due again from that time on and not before.
pub proof fn lemma_interval_reschedules(t: ScheduledTaskView, d: u64, now: Timestamp)
    requires
        t.schedule == TaskScheduleView::Interval(d),
        is_due(t, now),
        now.millis + d <= i64::MAX,
    ensures
        step_task(t, now).next_run.millis == now.millis + d,
        step_task(t, now).last_run == Some(now),
        step_task(t, now).enabled,
        forall|later: Timestamp|
            is_due(step_task(t, now), later) <==> now.millis + d <= later.millis,
{
}

/// An enabled interval task whose scheduler ticks exactly when the task is
/// next due fires at every tick, and each firing moves its next run on by one
/// interval.
pub proof fn lemma_interval_advances(t: ScheduledTaskView, d: u64, k: nat)
    requires
        t.enabled,
        t.schedule == TaskScheduleView::Interval(d),
        t.next_run.millis + k * d <= i64::MAX,
    ensures
        firings(t, every(t.next_run, d, k)) == k,
        after_ticks(t, every(t.next_run, d, k)).next_run.millis == t.next_run.millis + k * d,
        after_ticks(t, every(t.next_run, d, k)).enabled,
        after_ticks(t, every(t.next_run, d, k)).schedule == t.schedule,
    decreases k,
{
    let times = every(t.next_run, d, k);
    if k > 0 {
        let j = (k - 1) as nat;
        assert(j * d + d == k * d) by (nonlinear_arith)
            requires
                j + 1 == k,
        ;
        assert(0 <= j * d) by (nonlinear_arith);
        lemma_interval_advances(t, d, j);
        assert(times.drop_last() =~= every(t.next_run, d, j));
        assert(times.last().millis == t.next_run.millis + j * d);
    } else {
        assert(k * d == 0) by (nonlinear_arith)
            requires
                k == 0,
        ;
    }
}

/// A one-time task that fires is disabled by the firing and is never due
/// again.
pub proof fn lemma_one_time_disables(t: ScheduledTaskView, now: Timestamp)
    requires
        t.schedule is OneTime,
        is_due(t, now),
    ensures
        !step_task(t, now).enabled,
        forall|later: Timestamp| !is_due(step_task(t, now), later),
{
}

/// A one-time task fires at most once, whatever the times of the scheduler
/// ticks; once it has fired it is disabled.
pub proof fn lemma_one_time_fires_once(t: ScheduledTaskView, times: Seq<Timestamp>)
    requires
        t.schedule is OneTime,
    ensures
        firings(t, times) <= 1,
        firings(t, times) == 1 ==> !after_ticks(t, times).enabled,
        after_ticks(t, times).schedule == t.schedule,
    decreases times.len(),
{
    if times.len() > 0 {
        lemma_one_time_fires_once(t, times.drop_last());
    }
}

/// No notification of `history` has the id `id`.
pub open spec fn id_unknown(history: Seq<NotificationView>, id: Seq<char>) -> bool {
    forall|i: int| 0 <= i < history.len() ==> (#[trigger] history[i]).id != id
}

/// Marking an id as read that no retained notification has changes nothing.
pub proof fn lemma_mark_read_unknown(history: Seq<NotificationView>, id: Seq<char>)
    requires
        id_unknown(history, id),
    ensures
        mark_read(history, id) == history,
{
    assert forall|k: int| !is_first_with_id(history, id, k) by {}
}

/// Marking an id as read twice gives what marking it once gives.
pub proof fn lemma_mark_read_idempotent(history: Seq<NotificationView>, id: Seq<char>)
    ensures
        mark_read(mark_read(history, id), id) == mark_read(history, id),
{
    let once = mark_read(history, id);
    match first_with_id(history, id) {
        Some(i) => {
            assert(is_first_with_id(history, id, i));
            assert(is_first_with_id(once, id, i));
            let k = first_with_id(once, id).unwrap();
            assert(is_first_with_id(once, id, k));
            assert(k == i);
            assert(mark_read(once, id) =~= once);
        },
        None => {
            assert forall|k: int| !is_first_with_id(once, id, k) by {
                assert(!is_first_with_id(history, id, k));
            }
        },
    }
}

} // verus!
