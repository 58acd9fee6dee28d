use rm2::connection::{
    assign_connection_id, Connection, ConnectionManager, ConnectionTask, JoinOutcome, RunAction,
    RunEvent, WorkAction, WorkEvent, MANAGER_BUFFER,
};
use rm2::duplex::Duplex;
use rm2::proto::transport::{Error, TransportSocket};
use rm2::proto::{
    ClientMessage, DaemonMessage, DaemonNotification, Log, LogKind, Subscription, SubscriptionKind,
};
use rm2::{
    BytesFormat, Process, ProcessConfig, ProcessOptions, ProcessState, Selector, Status,
};
use std::io::ErrorKind;

#[derive(Debug)]
struct Plain;

impl BytesFormat for Plain {
    type SerError = &'static str;
    type DeError = &'static str;
}

type Manager = ConnectionManager<(), Plain>;

fn process(id: u32, groups: &[&str]) -> Process {
    Process {
        id,
        config: ProcessConfig {
            path: "/bin/app".to_string(),
            args: vec![],
            groups: groups.iter().map(|g| g.to_string()).collect(),
            options: ProcessOptions { save_logs: true, circuit_breaker: None },
        },
    }
}

fn log_of(process: u32) -> DaemonNotification {
    DaemonNotification::Log(Log { process, kind: LogKind::Stdout, data: b"line\n".to_vec() })
}

fn update_of(id: u32) -> DaemonNotification {
    DaemonNotification::StateUpdate {
        id,
        state: ProcessState { status: Status::Running { pid: 4 }, circuit_breaker_state: None },
    }
}

fn accept(manager: &mut Manager, counter: &mut u64) -> ConnectionTask<&'static str, Plain> {
    match manager.run(counter, RunEvent::Accepted(Ok("stream"))) {
        RunAction::Spawn(task) => task,
        _ => panic!("a stream was accepted"),
    }
}

fn subscribe(manager: &mut Manager, id: u64, kind: SubscriptionKind, selector: Selector) {
    let conn = manager.connections.get_mut(&id).unwrap();
    conn.subscriptions.push(Subscription { kind, selector });
}

fn recipients(manager: &Manager, notif: DaemonNotification, process: &Process) -> Vec<u64> {
    let expected = DaemonMessage::Notification(notif.clone());
    let mut ids = vec![];
    for (id, message) in manager.dispatch(notif, process) {
        assert_eq!(message, expected);
        ids.push(id);
    }
    ids.sort();
    ids
}

#[test]
fn ids_are_consecutive() {
    let mut counter = 0;
    assert_eq!(assign_connection_id(&mut counter), 0);
    assert_eq!(assign_connection_id(&mut counter), 1);
    assert_eq!(assign_connection_id(&mut counter), 2);
    assert_eq!(counter, 3);
}

#[test]
fn selectors() {
    let web = process(5, &["web", "prod"]);
    assert!(Selector::All.selects(&web));
    assert!(Selector::Group("prod".to_string()).selects(&web));
    assert!(!Selector::Group("pro".to_string()).selects(&web));
    assert!(!Selector::Group("web".to_string()).selects(&process(5, &[])));
    assert!(Selector::Particular { id: 5 }.selects(&web));
    assert!(!Selector::Particular { id: 6 }.selects(&web));
}

#[test]
fn kinds_of_events() {
    assert!(SubscriptionKind::Log.is_log());
    assert!(!SubscriptionKind::Log.is_status());
    assert!(SubscriptionKind::Status.is_status());
    assert!(!SubscriptionKind::Status.is_log());
    assert!(log_of(1).is_log());
    assert!(!log_of(1).is_state_update());
    assert!(update_of(1).is_state_update());
    assert!(!update_of(1).is_log());
    let logs = Subscription { kind: SubscriptionKind::Log, selector: Selector::All };
    assert!(logs.covers(&log_of(1), &process(1, &[])));
    assert!(!logs.covers(&update_of(1), &process(1, &[])));
}

#[test]
fn notifications_go_to_subscribers() {
    let mut manager = Manager::new(());
    let mut counter = 0;
    for _ in 0..5 {
        accept(&mut manager, &mut counter);
    }
    subscribe(&mut manager, 0, SubscriptionKind::Log, Selector::All);
    subscribe(&mut manager, 1, SubscriptionKind::Status, Selector::All);
    subscribe(&mut manager, 2, SubscriptionKind::Log, Selector::Group("web".to_string()));
    subscribe(&mut manager, 3, SubscriptionKind::Log, Selector::Particular { id: 8 });
    assert_eq!(recipients(&manager, log_of(8), &process(8, &["web"])), vec![0, 2, 3]);
    assert_eq!(recipients(&manager, log_of(9), &process(9, &["web"])), vec![0, 2]);
    assert_eq!(recipients(&manager, log_of(9), &process(9, &[])), vec![0]);
    assert_eq!(recipients(&manager, update_of(8), &process(8, &["web"])), vec![1]);
}

#[test]
fn several_matching_subscriptions_give_one_message() {
    let mut manager = Manager::new(());
    let mut counter = 0;
    accept(&mut manager, &mut counter);
    subscribe(&mut manager, 0, SubscriptionKind::Status, Selector::All);
    subscribe(&mut manager, 0, SubscriptionKind::Log, Selector::Particular { id: 1 });
    subscribe(&mut manager, 0, SubscriptionKind::Log, Selector::All);
    assert_eq!(recipients(&manager, log_of(1), &process(1, &[])), vec![0]);
}

#[test]
fn no_subscription_no_message() {
    let mut manager = Manager::new(());
    assert_eq!(recipients(&manager, log_of(1), &process(1, &[])), Vec::<u64>::new());
    accept(&mut manager, &mut 0);
    assert_eq!(recipients(&manager, log_of(1), &process(1, &[])), Vec::<u64>::new());
}

#[test]
fn accepted_stream_becomes_a_connection() {
    let mut manager = Manager::new(());
    let mut counter = 41;
    let mut task = accept(&mut manager, &mut counter);
    assert_eq!(counter, 42);
    assert_eq!(task.id, 41);
    assert_eq!(task.conn.pipe, "stream");
    let conn = &manager.connections[&41];
    assert_eq!(conn.id, 41);
    assert!(conn.subscriptions.is_empty());
    assert_eq!(conn.send_chan.max_capacity(), MANAGER_BUFFER);
    conn.send_chan.try_send(DaemonMessage::Pong).unwrap();
    assert_eq!(task.daemon_chan.try_recv().ok(), Some(DaemonMessage::Pong));
    task.socket_chan.try_send((41, ClientMessage::Ping)).unwrap();
    assert_eq!(manager.chan.try_recv().ok(), Some((41, ClientMessage::Ping)));
}

#[test]
fn connection_is_linked_to_its_task() {
    let mut manager = Manager::new(());
    let (conn, mut task) =
        Connection::<Plain>::new(6, manager._send.clone(), TransportSocket::new(3u8));
    assert_eq!((conn.id, task.id, task.conn.pipe), (6, 6, 3));
    conn.send_chan.try_send(DaemonMessage::Pong).unwrap();
    assert_eq!(task.daemon_chan.try_recv().ok(), Some(DaemonMessage::Pong));
    assert!(task.daemon_chan.try_recv().is_err());
    task.socket_chan.try_send((6, ClientMessage::RequestEntries)).unwrap();
    assert_eq!(manager.chan.try_recv().ok(), Some((6, ClientMessage::RequestEntries)));
}

#[test]
fn failed_accept_is_passed_over() {
    let mut manager = Manager::new(());
    let mut counter = 3;
    let event: RunEvent<(), Plain> = RunEvent::Accepted(Err(ErrorKind::ConnectionAborted.into()));
    assert!(matches!(manager.run(&mut counter, event), RunAction::Wait));
    assert_eq!(counter, 3);
    assert!(manager.connections.is_empty());
}

#[test]
fn finished_task_leaves_the_pool() {
    let mut manager = Manager::new(());
    let mut counter = 0;
    for _ in 0..3 {
        accept(&mut manager, &mut counter);
    }
    let finished: RunEvent<(), Plain> = RunEvent::Joined(Some(JoinOutcome::Finished(Ok(1))));
    assert!(matches!(manager.run(&mut counter, finished), RunAction::Wait));
    assert!(!manager.connections.contains_key(&1));
    let failed: RunEvent<(), Plain> =
        RunEvent::Joined(Some(JoinOutcome::Finished(Err((2, Error::De("garbled"))))));
    assert!(matches!(manager.run(&mut counter, failed), RunAction::Wait));
    assert!(!manager.connections.contains_key(&2));
    assert_eq!(manager.connections.len(), 1);
    assert_eq!(manager.connections[&0].id, 0);
    assert_eq!(counter, 3);
}

#[test]
fn other_ends_of_tasks() {
    let mut manager = Manager::new(());
    let mut counter = 0;
    accept(&mut manager, &mut counter);
    let none: RunEvent<(), Plain> = RunEvent::Joined(None);
    assert!(matches!(manager.run(&mut counter, none), RunAction::Wait));
    let cancelled: RunEvent<(), Plain> = RunEvent::Joined(Some(JoinOutcome::Cancelled));
    assert!(matches!(manager.run(&mut counter, cancelled), RunAction::Wait));
    let panicked: RunEvent<(), Plain> = RunEvent::Joined(Some(JoinOutcome::Panicked));
    assert!(matches!(manager.run(&mut counter, panicked), RunAction::ResumeUnwind));
    assert_eq!(manager.connections.len(), 1);
}

#[test]
fn message_is_handed_to_the_caller() {
    let mut manager = Manager::new(());
    let event: RunEvent<(), Plain> = RunEvent::Message((4, ClientMessage::Ping));
    match manager.run(&mut 0, event) {
        RunAction::Return(msg) => assert_eq!(msg, (4, ClientMessage::Ping)),
        _ => panic!("there was a message"),
    }
}

#[test]
fn task_passes_messages() {
    match Connection::<Plain>::work(7, WorkEvent::Received(Ok(ClientMessage::Ping))) {
        WorkAction::Forward(msg) => assert_eq!(msg, (7, ClientMessage::Ping)),
        _ => panic!("the client sent a message"),
    }
    let action = Connection::<Plain>::work(7, WorkEvent::Forwarded(true));
    assert!(matches!(action, WorkAction::Select));
    match Connection::<Plain>::work(7, WorkEvent::Requested(Some(DaemonMessage::Pong))) {
        WorkAction::Send(msg) => assert_eq!(msg, DaemonMessage::Pong),
        _ => panic!("there is a message for the client"),
    }
    let action = Connection::<Plain>::work(7, WorkEvent::Sent(Ok(())));
    assert!(matches!(action, WorkAction::Select));
}

#[test]
fn task_ends() {
    let action = Connection::<Plain>::work(7, WorkEvent::Received(Err(Error::De("garbled"))));
    assert!(matches!(action, WorkAction::Finish(Err((7, Error::De("garbled"))))));
    let action = Connection::<Plain>::work(7, WorkEvent::Forwarded(false));
    assert!(matches!(action, WorkAction::Finish(Ok(7))));
    let action = Connection::<Plain>::work(7, WorkEvent::Requested(None));
    assert!(matches!(action, WorkAction::Finish(Ok(7))));
    let action = Connection::<Plain>::work(7, WorkEvent::Sent(Err(Error::Ser("unencodable"))));
    assert!(matches!(action, WorkAction::Finish(Ok(7))));
}

#[test]
fn duplex_ends_are_crossed() {
    let (mut left, mut right) = Duplex::<u8, char>::pair(2);
    left.tx.try_send(1).unwrap();
    left.tx.try_send(2).unwrap();
    assert!(left.tx.try_send(3).is_err());
    right.tx.try_send('a').unwrap();
    assert_eq!(right.rx.try_recv().ok(), Some(1));
    assert_eq!(right.rx.try_recv().ok(), Some(2));
    assert!(right.rx.try_recv().is_err());
    assert_eq!(left.rx.try_recv().ok(), Some('a'));
}

#[test]
fn finished_connection_is_told_nothing() {
    let mut manager = Manager::new(());
    let mut counter = 0;
    accept(&mut manager, &mut counter);
    accept(&mut manager, &mut counter);
    subscribe(&mut manager, 0, SubscriptionKind::Log, Selector::All);
    subscribe(&mut manager, 1, SubscriptionKind::Log, Selector::All);
    assert_eq!(recipients(&manager, log_of(1), &process(1, &[])), vec![0, 1]);
    let finished: RunEvent<(), Plain> = RunEvent::Joined(Some(JoinOutcome::Finished(Ok(0))));
    manager.run(&mut counter, finished);
    assert_eq!(recipients(&manager, log_of(1), &process(1, &[])), vec![1]);
    assert_eq!(accept(&mut manager, &mut counter).id, 2);
    assert_eq!(recipients(&manager, log_of(1), &process(1, &[])), vec![1]);
}

#[test]
fn order_of_subscriptions_does_not_matter() {
    let mut manager = Manager::new(());
    let mut counter = 0;
    accept(&mut manager, &mut counter);
    accept(&mut manager, &mut counter);
    subscribe(&mut manager, 0, SubscriptionKind::Log, Selector::All);
    subscribe(&mut manager, 0, SubscriptionKind::Status, Selector::Particular { id: 2 });
    subscribe(&mut manager, 1, SubscriptionKind::Status, Selector::Particular { id: 2 });
    subscribe(&mut manager, 1, SubscriptionKind::Log, Selector::All);
    assert_eq!(recipients(&manager, log_of(1), &process(1, &[])), vec![0, 1]);
    assert_eq!(recipients(&manager, update_of(2), &process(2, &[])), vec![0, 1]);
    assert_eq!(recipients(&manager, update_of(1), &process(1, &[])), Vec::<u64>::new());
}
