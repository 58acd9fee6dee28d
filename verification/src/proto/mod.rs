//! Protocol of daemon-client communications.
pub mod transport;

use crate::{Process, ProcessConfig, ProcessState, ProcID, Selector};
use vstd::prelude::*;

verus! {

/// Number of bytes that one read of a process stream can deliver.
pub const LOG_BUFFER_SIZE: usize = 128;

#[derive(Debug, Clone, Copy, PartialEq, Eq)]
pub enum LogKind {
    Stdout,
    Stderr,
}

/// Output of a process.
#[derive(Debug, PartialEq, Eq)]
pub struct Log {
    pub process: ProcID,
    pub kind: LogKind,
    pub data: Vec<u8>,
}

/// What a [`Log`] stands for.
pub struct LogView {
    pub process: ProcID,
    pub kind: LogKind,
    pub data: Seq<u8>,
}

impl View for Log {
    type V = LogView;

    open spec fn view(&self) -> LogView {
        LogView { process: self.process, kind: self.kind, data: self.data@ }
    }
}

impl Clone for Log {
    fn clone(&self) -> (r: Self)
        ensures
            r@ == self@,
    {
        let data = self.data.clone();
        assert(data@ =~= self.data@);
        Log { process: self.process, kind: self.kind, data }
    }
}

#[derive(Debug, Clone, Copy, PartialEq, Eq)]
pub enum SubscriptionKind {
    Log,
    Status,
}

impl SubscriptionKind {
    pub fn is_log(&self) -> (r: bool)
        ensures
            r == (*self is Log),
    {
        matches!(self, SubscriptionKind::Log)
    }

    pub fn is_status(&self) -> (r: bool)
        ensures
            r == (*self is Status),
    {
        matches!(self, SubscriptionKind::Status)
    }
}

#[derive(Debug, PartialEq, Eq)]
pub enum DaemonNotification {
    StateUpdate { id: ProcID, state: ProcessState },
    Log(Log),
}

/// What a [`DaemonNotification`] stands for.
pub enum NotificationView {
    StateUpdate { id: ProcID, state: ProcessState },
    Log(LogView),
}

impl View for DaemonNotification {
    type V = NotificationView;

    open spec fn view(&self) -> NotificationView {
        match self {
            DaemonNotification::StateUpdate { id, state } => NotificationView::StateUpdate {
                id: *id,
                state: *state,
            },
            DaemonNotification::Log(log) => NotificationView::Log(log@),
        }
    }
}

impl Clone for DaemonNotification {
    fn clone(&self) -> (r: Self)
        ensures
            r@ == self@,
    {
        match self {
            DaemonNotification::StateUpdate { id, state } => DaemonNotification::StateUpdate {
                id: *id,
                state: *state,
            },
            DaemonNotification::Log(log) => DaemonNotification::Log(log.clone()),
        }
    }
}

impl DaemonNotification {
    pub fn is_state_update(&self) -> (r: bool)
        ensures
            r == (*self is StateUpdate),
    {
        matches!(self, DaemonNotification::StateUpdate { .. })
    }

    pub fn is_log(&self) -> (r: bool)
        ensures
            r == (*self is Log),
    {
        matches!(self, DaemonNotification::Log(_))
    }
}

#[derive(Debug, Clone, PartialEq, Eq)]
pub enum DaemonMessage {
    Pong,
    AllProcesses(Vec<(Process, ProcessState)>),
    Notification(DaemonNotification),
}

/// A client's wish to be told of one kind of event of the selected processes.
#[derive(Debug, PartialEq, Eq)]
pub struct Subscription {
    pub kind: SubscriptionKind,
    pub selector: Selector,
}

#[derive(Debug, Clone, Copy, PartialEq, Eq)]
pub enum ProcessAction {
    Start,
    Restart,
    Stop,
    OpenCircuitBreaker,
}

#[derive(Debug, PartialEq, Eq)]
pub enum ClientMessage {
    Ping,
    RequestEntries,
    Subscribe(Subscription),
    Unsubscribe(Subscription),
    CreateProcess(ProcessConfig),
    UpdateProcessConfig(Process),
    Act { action: ProcessAction, selector: Selector },
}

impl Subscription {
    /// A subscription to logs covers log notifications and one to statuses
    /// covers state updates, both only for processes that its selector selects.
    pub open spec fn spec_covers(
        self,
        notification: NotificationView,
        process: Process,
    ) -> bool {
        &&& self.selector.spec_selects(process)
        &&& match self.kind {
            SubscriptionKind::Log => notification is Log,
            SubscriptionKind::Status => notification is StateUpdate,
        }
    }

    /// Whether a notification about `process` is one that the subscription asks for.
    pub fn covers(&self, notification: &DaemonNotification, process: &Process) -> (r: bool)
        ensures
            r == self.spec_covers(notification@, *process),
    {
        if !self.selector.selects(process) {
            return false;
        }
        if notification.is_log() && self.kind.is_log() {
            true
        } else if notification.is_state_update() && self.kind.is_status() {
            true
        } else {
            false
        }
    }
}

/// A log, of either stream and whatever it holds, is covered exactly by the
/// subscriptions to logs whose selector selects the process.
pub proof fn law_every_log_is_covered(
    subscription: Subscription,
    log: Log,
    process: Process,
    selected: bool,
    covered: bool,
)
    requires
        call_ensures(Selector::selects, (&subscription.selector, &process), selected),
        call_ensures(
            Subscription::covers,
            (&subscription, &DaemonNotification::Log(log), &process),
            covered,
        ),
    ensures
        covered <==> selected && subscription.kind == SubscriptionKind::Log,
{
}

/// A state update, whatever the state, is covered exactly by the subscriptions
/// to statuses whose selector selects the process.
pub proof fn law_every_state_update_is_covered(
    subscription: Subscription,
    id: ProcID,
    state: ProcessState,
    process: Process,
    selected: bool,
    covered: bool,
)
    requires
        call_ensures(Selector::selects, (&subscription.selector, &process), selected),
        call_ensures(
            Subscription::covers,
            (&subscription, &DaemonNotification::StateUpdate { id, state }, &process),
            covered,
        ),
    ensures
        covered <==> selected && subscription.kind == SubscriptionKind::Status,
{
}

/// Of two subscriptions of different kinds with one selector, exactly one covers
/// a notification about a process that is selected, and none one about another.
pub proof fn law_one_kind_covers(
    subscription1: Subscription,
    subscription2: Subscription,
    notification: DaemonNotification,
    process: Process,
    selected: bool,
    covered1: bool,
    covered2: bool,
)
    requires
        subscription1.selector == subscription2.selector,
        subscription1.kind != subscription2.kind,
        call_ensures(Selector::selects, (&subscription1.selector, &process), selected),
        call_ensures(Subscription::covers, (&subscription1, &notification, &process), covered1),
        call_ensures(Subscription::covers, (&subscription2, &notification, &process), covered2),
    ensures
        selected ==> covered1 != covered2,
        !selected ==> !covered1 && !covered2,
{
}

/// What a notification holds has no effect on who is told of it: two logs are
/// covered alike, and so are two state updates.
pub proof fn law_content_has_no_effect(
    subscription: Subscription,
    notification1: DaemonNotification,
    notification2: DaemonNotification,
    process: Process,
    covered1: bool,
    covered2: bool,
)
    requires
        notification1 is Log <==> notification2 is Log,
        call_ensures(Subscription::covers, (&subscription, &notification1, &process), covered1),
        call_ensures(Subscription::covers, (&subscription, &notification2, &process), covered2),
    ensures
        covered1 == covered2,
{
}

/// The tests tell the two kinds of a subscription apart, and no value passes
/// both or none.
pub proof fn law_subscription_kinds_are_told_apart(
    kind: SubscriptionKind,
    is_log: bool,
    is_status: bool,
)
    requires
        call_ensures(SubscriptionKind::is_log, (&kind,), is_log),
        call_ensures(SubscriptionKind::is_status, (&kind,), is_status),
    ensures
        is_log != is_status,
        is_log <==> kind == SubscriptionKind::Log,
{
}

/// The tests tell logs and state updates apart, and no value passes both or none.
pub proof fn law_notifications_are_told_apart(
    notification: DaemonNotification,
    is_log: bool,
    is_state_update: bool,
)
    requires
        call_ensures(DaemonNotification::is_log, (&notification,), is_log),
        call_ensures(DaemonNotification::is_state_update, (&notification,), is_state_update),
    ensures
        is_log != is_state_update,
        is_log <==> notification is Log,
{
}

/// A clone of a log has its process, its stream and every byte of it.
pub proof fn law_cloned_log_is_the_same(log: Log, copy: Log)
    requires
        call_ensures(Log::clone, (&log,), copy),
    ensures
        copy.process == log.process,
        copy.kind == log.kind,
        copy.data@ == log.data@,
{
}

/// A clone of a notification tells the same of the same process.
pub proof fn law_cloned_notification_is_the_same(
    notification: DaemonNotification,
    copy: DaemonNotification,
)
    requires
        call_ensures(DaemonNotification::clone, (&notification,), copy),
    ensures
        match notification {
            DaemonNotification::StateUpdate { id, state } => copy
                == DaemonNotification::StateUpdate { id, state },
            DaemonNotification::Log(log) => copy matches DaemonNotification::Log(copied)
                && copied.process == log.process && copied.kind == log.kind && copied.data@
                == log.data@,
        },
{
}

} // verus!
