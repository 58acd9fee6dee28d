//! Client connections: their identities, the task that serves each of them, the
//! pool they are kept in, and the routing of notifications to them.
use crate::proto::transport::{Error, TransportSocket};
use crate::proto::{
    ClientMessage, DaemonMessage, DaemonNotification, NotificationView, Subscription,
    SubscriptionKind,
};
use crate::{BytesFormat, Process, Selector};
use std::collections::HashMap;
use std::marker::PhantomData;
use tokio::sync::mpsc::{Receiver, Sender};
use vstd::prelude::*;

verus! {

pub type ConnId = u64;

/// Capacity of the channels between the manager and the connection tasks.
pub const MANAGER_BUFFER: usize = 10_000;

/// Hands out the next connection id.
pub fn assign_connection_id(counter: &mut ConnId) -> (id: ConnId)
    requires
        *old(counter) < ConnId::MAX,
    ensures
        id == *old(counter),
        *final(counter) == *old(counter) + 1,
{
    let id = *counter;
    *counter += 1;
    id
}

/// A client as the manager knows it.
pub struct Connection<Format: BytesFormat> {
    pub id: ConnId,
    pub subscriptions: Vec<Subscription>,
    pub send_chan: Sender<DaemonMessage>,
    pub __format: PhantomData<Format>,
}

/// What the task that serves a connection works with.
pub struct ConnectionTask<S, Format: BytesFormat> {
    pub id: ConnId,
    /// Takes the client's messages to the manager.
    pub socket_chan: Sender<(ConnId, ClientMessage)>,
    /// Brings the manager's messages for the client.
    pub daemon_chan: Receiver<DaemonMessage>,
    pub conn: TransportSocket<S, Format>,
}

/// Something that the task of a connection waited for.
pub enum WorkEvent<Format: BytesFormat> {
    /// A message of the client, or the failure to receive one.
    Received(Result<ClientMessage, Error<Format>>),
    /// Whether the manager took the forwarded message.
    Forwarded(bool),
    /// A message for the client; none will come any more where it is `None`.
    Requested(Option<DaemonMessage>),
    /// The message for the client was sent, or not.
    Sent(Result<(), Error<Format>>),
}

/// What the task of a connection does next.
pub enum WorkAction<Format: BytesFormat> {
    /// Wait for a message of the client or one for the client.
    Select,
    Forward((ConnId, ClientMessage)),
    Send(DaemonMessage),
    Finish(Result<ConnId, (ConnId, Error<Format>)>),
}

impl<Format: BytesFormat> Connection<Format> {
    /// The connection and its task, linked by a channel that leads from the
    /// first to the second.
    pub fn new<S>(
        id: ConnId,
        socket_chan: Sender<(ConnId, ClientMessage)>,
        conn: TransportSocket<S, Format>,
    ) -> (r: (Self, ConnectionTask<S, Format>))
        ensures
            r.0.is_new(id, r.1.daemon_chan),
            r.1.id == id,
            r.1.socket_chan == socket_chan,
            r.1.conn == conn,
    {
        let (tx, rx) = tokio::sync::mpsc::channel(MANAGER_BUFFER);
        let task = ConnectionTask { id, socket_chan, daemon_chan: rx, conn };
        (
            Connection { id, subscriptions: Vec::new(), send_chan: tx, __format: PhantomData },
            task,
        )
    }

    /// A connection under `id` with no subscriptions, whose channel leads to
    /// `daemon_chan`.
    pub open spec fn is_new(self, id: ConnId, daemon_chan: Receiver<DaemonMessage>) -> bool {
        &&& self.id == id
        &&& self.subscriptions@ == Seq::<Subscription>::empty()
        &&& crate::duplex::are_halves(self.send_chan, daemon_chan, MANAGER_BUFFER)
    }

    /// Messages of the client are forwarded under the connection's id, messages
    /// for the client are sent. The task ends with an error only where receiving
    /// failed; where a message cannot be sent, or the manager is gone, it ends
    /// with the connection's id.
    pub open spec fn spec_work(id: ConnId, event: WorkEvent<Format>) -> WorkAction<Format> {
        match event {
            WorkEvent::Received(Ok(msg)) => WorkAction::Forward((id, msg)),
            WorkEvent::Received(Err(e)) => WorkAction::Finish(Err((id, e))),
            WorkEvent::Forwarded(true) => WorkAction::Select,
            WorkEvent::Forwarded(false) => WorkAction::Finish(Ok(id)),
            WorkEvent::Requested(Some(msg)) => WorkAction::Send(msg),
            WorkEvent::Requested(None) => WorkAction::Finish(Ok(id)),
            WorkEvent::Sent(Ok(_)) => WorkAction::Select,
            WorkEvent::Sent(Err(_)) => WorkAction::Finish(Ok(id)),
        }
    }

    /// What the task of connection `id` does after `event`.
    pub fn work(id: ConnId, event: WorkEvent<Format>) -> (action: WorkAction<Format>)
        ensures
            action == Self::spec_work(id, event),
    {
        match event {
            WorkEvent::Received(Ok(conn_msg)) => WorkAction::Forward((id, conn_msg)),
            WorkEvent::Received(Err(e)) => WorkAction::Finish(Err((id, e))),
            WorkEvent::Forwarded(taken) => {
                if taken {
                    WorkAction::Select
                } else {
                    // means network manager was closed
                    WorkAction::Finish(Ok(id))
                }
            },
            WorkEvent::Requested(Some(daemon_msg)) => WorkAction::Send(daemon_msg),
            WorkEvent::Requested(None) => WorkAction::Finish(Ok(id)),
            WorkEvent::Sent(Ok(_)) => WorkAction::Select,
            WorkEvent::Sent(Err(_)) => WorkAction::Finish(Ok(id)),
        }
    }

    /// Some subscription of the connection covers the notification.
    pub open spec fn spec_wants(self, notification: NotificationView, process: Process) -> bool {
        some_covers(self.subscriptions@, notification, process)
    }

    /// Whether the client is to be told of `notification`, which is about `process`.
    pub fn wants(&self, notification: &DaemonNotification, process: &Process) -> (r: bool)
        ensures
            r == self.spec_wants(notification@, *process),
    {
        let mut i: usize = 0;
        while i < self.subscriptions.len()
            invariant
                i <= self.subscriptions@.len(),
                forall|j: int|
                    0 <= j < i ==> !(#[trigger] self.subscriptions@[j]).spec_covers(
                        notification@,
                        *process,
                    ),
            decreases self.subscriptions@.len() - i,
        {
            if self.subscriptions[i].covers(notification, process) {
                return true;
            }
            i += 1;
        }
        false
    }
}

/// One of the subscriptions covers the notification.
pub open spec fn some_covers(
    subscriptions: Seq<Subscription>,
    notification: NotificationView,
    process: Process,
) -> bool {
    exists|i: int|
        0 <= i < subscriptions.len() && (#[trigger] subscriptions[i]).spec_covers(
            notification,
            process,
        )
}

/// How the task of a connection ended.
pub enum JoinOutcome<Format: BytesFormat> {
    Finished(Result<ConnId, (ConnId, Error<Format>)>),
    Panicked,
    Cancelled,
}

/// The connection that a finished task served.
pub open spec fn finished_id<Format: BytesFormat>(
    result: Result<ConnId, (ConnId, Error<Format>)>,
) -> ConnId {
    match result {
        Ok(id) => id,
        Err((id, _)) => id,
    }
}

/// Something that the manager waited for.
pub enum RunEvent<S, Format: BytesFormat> {
    /// A connection task forwarded a message of its client.
    Message((ConnId, ClientMessage)),
    /// The listener accepted a stream, or failed to.
    Accepted(Result<S, std::io::Error>),
    /// A connection task ended; there was none to end where it is `None`.
    Joined(Option<JoinOutcome<Format>>),
}

impl<S, Format: BytesFormat> RunEvent<S, Format> {
    /// A stream was accepted.
    pub open spec fn accepts(self) -> bool {
        self matches RunEvent::Accepted(Ok(_))
    }

    /// The task of connection `id` finished.
    pub open spec fn finishes(self, id: ConnId) -> bool {
        self matches RunEvent::Joined(Some(JoinOutcome::Finished(result))) && finished_id(result)
            == id
    }
}

/// With `event`, the ids in the pool change from `before` to `after`: an
/// accepted stream brings in the id `counter`, a finished task takes out its
/// own.
pub open spec fn pool_changes<S, Format: BytesFormat>(
    before: Set<ConnId>,
    counter: ConnId,
    event: RunEvent<S, Format>,
    after: Set<ConnId>,
) -> bool {
    forall|id: ConnId| #[trigger]
        after.contains(id) <==> {
            ||| event.accepts() && id == counter
            ||| before.contains(id) && !event.finishes(id)
        }
}

/// What the manager does next.
pub enum RunAction<S, Format: BytesFormat> {
    /// Wait for the next event.
    Wait,
    /// Run the task beside the others, then wait for the next event.
    Spawn(ConnectionTask<S, Format>),
    /// Hand the message to the caller.
    Return((ConnId, ClientMessage)),
    /// Go on with the panic of the task that ended.
    ResumeUnwind,
}

/// The pool of connections.
pub struct ConnectionManager<L, Format: BytesFormat> {
    pub listener: L,
    pub connections: HashMap<ConnId, Connection<Format>>,
    pub chan: Receiver<(ConnId, ClientMessage)>,
    /// Cloned for each connection.
    pub _send: Sender<(ConnId, ClientMessage)>,
}

impl<L, Format: BytesFormat> ConnectionManager<L, Format> {
    pub fn new(listener: L) -> (r: Self)
        ensures
            r.listener == listener,
            r.connections@ == Map::<ConnId, Connection<Format>>::empty(),
            forall|counter: ConnId| #[trigger] r.is_numbered(counter),
            crate::duplex::are_halves(r._send, r.chan, MANAGER_BUFFER),
    {
        let (tx, rx) = tokio::sync::mpsc::channel(MANAGER_BUFFER);
        ConnectionManager { listener, connections: HashMap::new(), chan: rx, _send: tx }
    }

    /// The ids in the pool, in no particular order.
    fn ids(&self) -> (ids: Vec<ConnId>)
        ensures
            ids@.no_duplicates(),
            forall|id: ConnId| ids@.contains(id) <==> self.connections@.contains_key(id),
    {
        broadcast use vstd::std_specs::hash::group_hash_axioms;

        let mut ids: Vec<ConnId> = Vec::new();
        for id in it: self.connections.keys()
            invariant
                it.seq().no_duplicates(),
                it.seq().unref().to_set() == self.connections@.dom(),
                ids@ == it.seq().unref().take(it.index()),
                it.index() == it.seq().len() ==> ids@ =~= it.seq().unref(),
        {
            ids.push(*id);
            assert(it.seq().unref().take(it.index() + 1) =~= it.seq().unref().take(
                it.index(),
            ).push(*id));
        }
        proof {
            assert forall|id: ConnId| ids@.contains(id) <==> self.connections@.contains_key(id) by {
                assert(ids@.to_set().contains(id) <==> ids@.contains(id));
            }
        }
        ids
    }

    /// `deliveries` names each connection that wants the notification exactly
    /// once, and no other one.
    pub open spec fn routes(
        self,
        notification: NotificationView,
        process: Process,
        deliveries: Seq<(ConnId, DaemonMessage)>,
    ) -> bool {
        &&& forall|i: int, j: int|
            0 <= i < j < deliveries.len() ==> (#[trigger] deliveries[i]).0 != (
            #[trigger] deliveries[j]).0
        &&& forall|i: int|
            0 <= i < deliveries.len() ==> {
                &&& self.connections@.contains_key((#[trigger] deliveries[i]).0)
                &&& self.connections@[deliveries[i].0].spec_wants(notification, process)
                &&& deliveries[i].1 matches DaemonMessage::Notification(n) && n@ == notification
            }
        &&& forall|id: ConnId|
            self.connections@.contains_key(id) && (
            #[trigger] self.connections@[id]).spec_wants(notification, process) ==> exists|i: int|
                0 <= i < deliveries.len() && (#[trigger] deliveries[i]).0 == id
    }

    /// The messages that tell of `notif`, each with the connection that it goes
    /// to. Their order is that of no particular walk through the pool.
    pub fn dispatch(
        &self,
        notif: DaemonNotification,
        associated_process: &Process,
    ) -> (deliveries: Vec<(ConnId, DaemonMessage)>)
        ensures
            self.routes(notif@, *associated_process, deliveries@),
    {
        broadcast use vstd::std_specs::hash::group_hash_axioms;

        let ids = self.ids();
        let mut deliveries: Vec<(ConnId, DaemonMessage)> = Vec::new();
        // Where in `ids` the recipient of each delivery stands.
        let ghost mut places: Seq<int> = Seq::empty();
        assert forall|h: int| 0 <= h < ids@.len() implies self.connections@.contains_key(
            #[trigger] ids@[h],
        ) by {
            assert(ids@.contains(ids@[h]));
        }
        let mut k: usize = 0;
        while k < ids.len()
            invariant
                k <= ids@.len(),
                forall|h: int|
                    0 <= h < ids@.len() ==> self.connections@.contains_key(#[trigger] ids@[h]),
                places.len() == deliveries@.len(),
                forall|i: int| 0 <= i < places.len() ==> 0 <= #[trigger] places[i] < k,
                forall|i: int|
                    #![trigger deliveries@[i]]
                    0 <= i < deliveries@.len() ==> {
                        &&& deliveries@[i].0 == ids@[places[i]]
                        &&& self.connections@[deliveries@[i].0].spec_wants(
                            notif@,
                            *associated_process,
                        )
                        &&& deliveries@[i].1 matches DaemonMessage::Notification(n) && n@ == notif@
                    },
                forall|i: int, j: int|
                    0 <= i < j < places.len() ==> #[trigger] places[i] < #[trigger] places[j],
                forall|h: int|
                    0 <= h < k && self.connections@[ids@[h]].spec_wants(
                        notif@,
                        *associated_process,
                    ) ==> #[trigger] places.contains(h),
            decreases ids@.len() - k,
        {
            let id = ids[k];
            let ghost before = places;
            let conn = self.connections.get(&id);
            assert(conn == Some(&self.connections@[id]));
            if let Some(conn) = conn {
                if conn.wants(&notif, associated_process) {
                    deliveries.push((id, DaemonMessage::Notification(notif.clone())));
                    proof {
                        places = places.push(k as int);
                        assert(places[before.len() as int] == k);
                        assert forall|h: int| before.contains(h) implies places.contains(h) by {
                            assert(places[before.index_of(h)] == h);
                        }
                    }
                }
            }
            k += 1;
        }
        proof {
            assert forall|i: int, j: int| 0 <= i < j < deliveries@.len() implies (
            #[trigger] deliveries@[i]).0 != (#[trigger] deliveries@[j]).0 by {
                assert(places[i] < places[j]);
            }
            assert forall|id: ConnId|
                self.connections@.contains_key(id) && (
                #[trigger] self.connections@[id]).spec_wants(
                    notif@,
                    *associated_process,
                ) implies exists|i: int|
                0 <= i < deliveries@.len() && (#[trigger] deliveries@[i]).0 == id by {
                assert(ids@.contains(id));
                let h = ids@.index_of(id);
                assert(places.contains(h));
                let i = places.index_of(h);
                assert(deliveries@[i].0 == id);
            }
        }
        deliveries
    }

    /// What the manager does after `event`. A stream that was accepted becomes a
    /// connection under the next id of `counter`; the connection of a task that
    /// finished, with an error or without, leaves the pool.
    pub fn run<S>(
        &mut self,
        counter: &mut ConnId,
        event: RunEvent<S, Format>,
    ) -> (action: RunAction<S, Format>)
        requires
            event.accepts() ==> *old(counter) < ConnId::MAX,
        ensures
            pool_changes(
                old(self).connections@.dom(),
                *old(counter),
                event,
                final(self).connections@.dom(),
            ),
            old(self).is_numbered(*old(counter)) ==> {
                &&& final(self).is_numbered(*final(counter))
                &&& event.accepts() ==> !old(self).connections@.contains_key(*old(counter))
                &&& forall|id: ConnId|
                    #![trigger final(self).connections@[id]]
                    old(self).connections@.contains_key(id) && !event.finishes(id) ==> {
                        &&& final(self).connections@.contains_key(id)
                        &&& final(self).connections@[id] == old(self).connections@[id]
                    }
            },
            match event {
                RunEvent::Message(msg) => {
                    &&& action == RunAction::<S, Format>::Return(msg)
                    &&& *final(self) == *old(self)
                    &&& *final(counter) == *old(counter)
                },
                RunEvent::Accepted(Ok(stream)) => {
                    let id = *old(counter);
                    &&& *final(counter) == id + 1
                    &&& action matches RunAction::Spawn(task)
                    &&& task.id == id
                    &&& task.conn.pipe == stream
                    &&& cloned(old(self)._send, task.socket_chan)
                    &&& final(self).connections@ == old(self).connections@.insert(
                        id,
                        final(self).connections@[id],
                    )
                    &&& final(self).connections@[id].is_new(id, task.daemon_chan)
                    &&& final(self).same_ends(*old(self))
                },
                RunEvent::Accepted(Err(_)) => {
                    &&& action == RunAction::<S, Format>::Wait
                    &&& *final(self) == *old(self)
                    &&& *final(counter) == *old(counter)
                },
                RunEvent::Joined(Some(JoinOutcome::Finished(result))) => {
                    &&& action == RunAction::<S, Format>::Wait
                    &&& final(self).connections@ == old(self).connections@.remove(
                        finished_id(result),
                    )
                    &&& final(self).same_ends(*old(self))
                    &&& *final(counter) == *old(counter)
                },
                RunEvent::Joined(outcome) => {
                    &&& action == (if outcome == Some(JoinOutcome::<Format>::Panicked) {
                        RunAction::<S, Format>::ResumeUnwind
                    } else {
                        RunAction::<S, Format>::Wait
                    })
                    &&& *final(self) == *old(self)
                    &&& *final(counter) == *old(counter)
                },
            },
    {
        broadcast use vstd::std_specs::hash::group_hash_axioms;

        match event {
            RunEvent::Message(msg) => RunAction::Return(msg),
            RunEvent::Accepted(Ok(new_conn)) => {
                let new_conn_id = assign_connection_id(counter);
                let (conn, task) = Connection::new(
                    new_conn_id,
                    self._send.clone(),
                    TransportSocket::new(new_conn),
                );
                self.connections.insert(new_conn_id, conn);
                RunAction::Spawn(task)
            },
            RunEvent::Accepted(Err(_)) => RunAction::Wait,
            RunEvent::Joined(Some(JoinOutcome::Finished(task_result))) => {
                let id = match task_result {
                    Ok(id) => id,
                    Err((id, _)) => id,
                };
                // remove connection from pool
                self.connections.remove(&id);
                RunAction::Wait
            },
            RunEvent::Joined(Some(JoinOutcome::Panicked)) => RunAction::ResumeUnwind,
            RunEvent::Joined(Some(JoinOutcome::Cancelled)) => RunAction::Wait,
            RunEvent::Joined(None) => RunAction::Wait,
        }
    }

    /// Each connection stands under its own id, and all ids are ones that
    /// `counter` has passed.
    pub open spec fn is_numbered(self, counter: ConnId) -> bool {
        forall|id: ConnId| #[trigger]
            self.connections@.contains_key(id) ==> id < counter && self.connections@[id].id == id
    }

    /// The listener and the manager's channel are those of `other`.
    pub open spec fn same_ends(self, other: Self) -> bool {
        &&& self.listener == other.listener
        &&& self.chan == other.chan
        &&& self._send == other._send
    }
}

/// Ids that are handed out one after the other are all different, and later ones
/// are greater. `counters` are the values that the counter goes through; the
/// value before an assignment is the id that it hands out.
pub proof fn law_ids_increase(counters: Seq<ConnId>, i: int, j: int)
    requires
        forall|k: int|
            0 <= k < counters.len() - 1 ==> counters[k + 1] == #[trigger] counters[k] + 1,
        0 <= i < j < counters.len(),
    ensures
        counters[i] < counters[j],
    decreases j - i,
{
    if i + 1 < j {
        law_ids_increase(counters, i, j - 1);
    }
    assert(counters[(j - 1) + 1] == counters[j - 1] + 1);
}

/// The pool went through `pools` and the counter through `counters` while
/// `events` happened, one after the other.
pub open spec fn pool_history<S, Format: BytesFormat>(
    pools: Seq<Set<ConnId>>,
    counters: Seq<ConnId>,
    events: Seq<RunEvent<S, Format>>,
) -> bool {
    &&& pools.len() == events.len() + 1
    &&& counters.len() == events.len() + 1
    &&& forall|i: int|
        #![trigger events[i]]
        0 <= i < events.len() ==> pool_changes(pools[i], counters[i], events[i], pools[i + 1])
}

/// No event from `start` on is the end of the task of `id`.
pub open spec fn unfinished_since<S, Format: BytesFormat>(
    events: Seq<RunEvent<S, Format>>,
    start: int,
    id: ConnId,
) -> bool {
    forall|j: int| start <= j < events.len() ==> !(#[trigger] events[j]).finishes(id)
}

/// The event at `i` brought in connection `id`, whose task did not finish since.
pub open spec fn accepted_for_good<S, Format: BytesFormat>(
    events: Seq<RunEvent<S, Format>>,
    counters: Seq<ConnId>,
    i: int,
    id: ConnId,
) -> bool {
    &&& 0 <= i < events.len()
    &&& events[i].accepts()
    &&& counters[i] == id
    &&& unfinished_since(events, i + 1, id)
}

/// The pool holds a connection exactly where it was there at first, or was
/// accepted under its id, and its task has not finished since.
pub proof fn law_pool_holds_the_unfinished<S, Format: BytesFormat>(
    pools: Seq<Set<ConnId>>,
    counters: Seq<ConnId>,
    events: Seq<RunEvent<S, Format>>,
    id: ConnId,
)
    requires
        pool_history(pools, counters, events),
    ensures
        pools.last().contains(id) <==> {
            ||| pools.first().contains(id) && unfinished_since(events, 0, id)
            ||| exists|i: int| #[trigger] accepted_for_good(events, counters, i, id)
        },
    decreases events.len(),
{
    if events.len() > 0 {
        let n = events.len() - 1;
        let earlier = events.drop_last();
        assert(pool_history(pools.drop_last(), counters.drop_last(), earlier)) by {
            assert forall|i: int| #![trigger earlier[i]] 0 <= i < earlier.len() implies pool_changes(
                pools.drop_last()[i],
                counters.drop_last()[i],
                earlier[i],
                pools.drop_last()[i + 1],
            ) by {
                assert(earlier[i] == events[i]);
            }
        }
        law_pool_holds_the_unfinished(pools.drop_last(), counters.drop_last(), earlier, id);
        assert(pool_changes(pools[n], counters[n], events[n], pools[n + 1]));
        assert forall|start: int| 0 <= start <= n implies (unfinished_since(events, start, id)
            <==> unfinished_since(earlier, start, id) && !events[n].finishes(id)) by {
            if unfinished_since(events, start, id) {
                assert forall|j: int| start <= j < earlier.len() implies !(
                #[trigger] earlier[j]).finishes(id) by {
                    assert(earlier[j] == events[j]);
                }
            }
            if unfinished_since(earlier, start, id) && !events[n].finishes(id) {
                assert forall|j: int| start <= j < events.len() implies !(
                #[trigger] events[j]).finishes(id) by {
                    if j < n {
                        assert(earlier[j] == events[j]);
                    }
                }
            }
        }
        assert forall|i: int| 0 <= i < n implies (#[trigger] accepted_for_good(
            events,
            counters,
            i,
            id,
        ) <==> accepted_for_good(earlier, counters.drop_last(), i, id) && !events[n].finishes(
            id,
        )) by {
            assert(earlier[i] == events[i]);
        }
        if events[n].accepts() && counters[n] == id {
            assert(accepted_for_good(events, counters, n, id));
        }
        if pools[n].contains(id) && !events[n].finishes(id) && !(pools.first().contains(id)
            && unfinished_since(earlier, 0, id)) {
            let i = choose|i: int| accepted_for_good(earlier, counters.drop_last(), i, id);
            assert(accepted_for_good(events, counters, i, id));
        }
        if exists|i: int| accepted_for_good(events, counters, i, id) {
            let i = choose|i: int| accepted_for_good(events, counters, i, id);
            if i < n {
                assert(accepted_for_good(earlier, counters.drop_last(), i, id));
            }
        }
    } else {
        assert(pools.first() == pools.last());
    }
}

/// Nothing is delivered to a connection that is not in the pool.
pub proof fn law_no_delivery_outside_the_pool<L, Format: BytesFormat>(
    manager: ConnectionManager<L, Format>,
    notification: NotificationView,
    process: Process,
    deliveries: Seq<(ConnId, DaemonMessage)>,
    id: ConnId,
)
    requires
        manager.routes(notification, process, deliveries),
        !manager.connections@.contains_key(id),
    ensures
        !recipients(deliveries).contains(id),
{
    lemma_recipients(manager, notification, process, deliveries);
}

/// A connection that was accepted under a fresh id and whose task has finished
/// leaves no trace in the pool.
pub proof fn law_finish_undoes_accept<Format: BytesFormat>(
    before: Map<ConnId, Connection<Format>>,
    id: ConnId,
    conn: Connection<Format>,
)
    requires
        !before.contains_key(id),
    ensures
        before.insert(id, conn).remove(id) == before,
{
    assert(before.insert(id, conn).remove(id) =~= before);
}

/// A client without subscriptions is told of nothing, and a client with the
/// subscriptions of two others is told of what either of them is told.
pub proof fn law_subscriptions_add_up(
    subscriptions1: Seq<Subscription>,
    subscriptions2: Seq<Subscription>,
    notification: NotificationView,
    process: Process,
)
    ensures
        !some_covers(Seq::empty(), notification, process),
        some_covers(subscriptions1 + subscriptions2, notification, process) <==> {
            ||| some_covers(subscriptions1, notification, process)
            ||| some_covers(subscriptions2, notification, process)
        },
{
    let both = subscriptions1 + subscriptions2;
    if some_covers(subscriptions1, notification, process) {
        let i = choose|i: int|
            0 <= i < subscriptions1.len() && (#[trigger] subscriptions1[i]).spec_covers(
                notification,
                process,
            );
        assert(both[i].spec_covers(notification, process));
    }
    if some_covers(subscriptions2, notification, process) {
        let i = choose|i: int|
            0 <= i < subscriptions2.len() && (#[trigger] subscriptions2[i]).spec_covers(
                notification,
                process,
            );
        assert(both[subscriptions1.len() + i].spec_covers(notification, process));
    }
    if some_covers(both, notification, process) {
        let i = choose|i: int|
            0 <= i < both.len() && (#[trigger] both[i]).spec_covers(notification, process);
        if i < subscriptions1.len() {
            assert(subscriptions1[i].spec_covers(notification, process));
        } else {
            assert(subscriptions2[i - subscriptions1.len()].spec_covers(notification, process));
        }
    }
}

/// Whatever walk through the pool produced them, two lists of deliveries of one
/// notification go to the same connections, and are equally long.
pub proof fn law_recipients_are_determined<L, Format: BytesFormat>(
    manager: ConnectionManager<L, Format>,
    notification: NotificationView,
    process: Process,
    deliveries1: Seq<(ConnId, DaemonMessage)>,
    deliveries2: Seq<(ConnId, DaemonMessage)>,
)
    requires
        manager.routes(notification, process, deliveries1),
        manager.routes(notification, process, deliveries2),
    ensures
        recipients(deliveries1).to_set() == recipients(deliveries2).to_set(),
        deliveries1.len() == deliveries2.len(),
{
    lemma_recipients(manager, notification, process, deliveries1);
    lemma_recipients(manager, notification, process, deliveries2);
    assert(recipients(deliveries1).to_set() =~= recipients(deliveries2).to_set());
    recipients(deliveries1).unique_seq_to_set();
    recipients(deliveries2).unique_seq_to_set();
}

/// The connections that deliveries go to.
pub open spec fn recipients(deliveries: Seq<(ConnId, DaemonMessage)>) -> Seq<ConnId> {
    deliveries.map_values(|d: (ConnId, DaemonMessage)| d.0)
}

proof fn lemma_recipients<L, Format: BytesFormat>(
    manager: ConnectionManager<L, Format>,
    notification: NotificationView,
    process: Process,
    deliveries: Seq<(ConnId, DaemonMessage)>,
)
    requires
        manager.routes(notification, process, deliveries),
    ensures
        recipients(deliveries).no_duplicates(),
        forall|id: ConnId|
            recipients(deliveries).contains(id) <==> manager.connections@.contains_key(id)
                && manager.connections@[id].spec_wants(notification, process),
{
    let ids = recipients(deliveries);
    assert forall|i: int, j: int| 0 <= i < ids.len() && 0 <= j < ids.len() && i != j implies ids[i]
        != ids[j] by {
        assert(deliveries[i].0 != deliveries[j].0);
    }
    assert forall|id: ConnId|
        recipients(deliveries).contains(id) <==> manager.connections@.contains_key(id)
            && manager.connections@[id].spec_wants(notification, process) by {
        if ids.contains(id) {
            assert(deliveries[ids.index_of(id)].0 == id);
        }
        if manager.connections@.contains_key(id) && manager.connections@[id].spec_wants(
            notification,
            process,
        ) {
            let i = choose|i: int|
                0 <= i < deliveries.len() && (#[trigger] deliveries[i]).0 == id;
            assert(ids[i] == id);
        }
    }
}

impl<Format: BytesFormat> WorkAction<Format> {
    /// `event` is something that a task waits for after the action.
    pub open spec fn awaits(self, event: WorkEvent<Format>) -> bool {
        match self {
            WorkAction::Select => event is Received || event is Requested,
            WorkAction::Forward(_) => event is Forwarded,
            WorkAction::Send(_) => event is Sent,
            WorkAction::Finish(_) => false,
        }
    }
}

/// The task of connection `id` met `events` and answered them with `actions`.
pub open spec fn serves<Format: BytesFormat>(
    id: ConnId,
    events: Seq<WorkEvent<Format>>,
    actions: Seq<WorkAction<Format>>,
) -> bool {
    &&& events.len() == actions.len()
    &&& forall|i: int|
        #![trigger events[i]]
        0 <= i < events.len() ==> {
            &&& actions[i] == Connection::spec_work(id, events[i])
            &&& (if i == 0 {
                WorkAction::Select
            } else {
                actions[i - 1]
            }).awaits(events[i])
        }
}

/// The messages that the client sent.
pub open spec fn client_messages<Format: BytesFormat>(events: Seq<WorkEvent<Format>>) -> Seq<
    ClientMessage,
>
    decreases events.len(),
{
    if events.len() == 0 {
        Seq::empty()
    } else {
        let before = client_messages(events.drop_last());
        match events.last() {
            WorkEvent::Received(Ok(msg)) => before.push(msg),
            _ => before,
        }
    }
}

/// The messages that were forwarded to the manager.
pub open spec fn forwarded<Format: BytesFormat>(actions: Seq<WorkAction<Format>>) -> Seq<
    (ConnId, ClientMessage),
>
    decreases actions.len(),
{
    if actions.len() == 0 {
        Seq::empty()
    } else {
        let before = forwarded(actions.drop_last());
        match actions.last() {
            WorkAction::Forward(msg) => before.push(msg),
            _ => before,
        }
    }
}

/// The messages that the manager had for the client.
pub open spec fn daemon_messages<Format: BytesFormat>(events: Seq<WorkEvent<Format>>) -> Seq<
    DaemonMessage,
>
    decreases events.len(),
{
    if events.len() == 0 {
        Seq::empty()
    } else {
        let before = daemon_messages(events.drop_last());
        match events.last() {
            WorkEvent::Requested(Some(msg)) => before.push(msg),
            _ => before,
        }
    }
}

/// The messages that were sent to the client.
pub open spec fn sent<Format: BytesFormat>(actions: Seq<WorkAction<Format>>) -> Seq<DaemonMessage>
    decreases actions.len(),
{
    if actions.len() == 0 {
        Seq::empty()
    } else {
        let before = sent(actions.drop_last());
        match actions.last() {
            WorkAction::Send(msg) => before.push(msg),
            _ => before,
        }
    }
}

/// All messages of the client are forwarded, under the connection's id, and all
/// messages for the client are sent, both in the order in which they came.
pub proof fn law_messages_pass_in_order<Format: BytesFormat>(
    id: ConnId,
    events: Seq<WorkEvent<Format>>,
    actions: Seq<WorkAction<Format>>,
)
    requires
        serves(id, events, actions),
    ensures
        forwarded(actions) == client_messages(events).map_values(|msg: ClientMessage| (id, msg)),
        sent(actions) == daemon_messages(events),
    decreases events.len(),
{
    if events.len() > 0 {
        let n = events.len() - 1;
        assert(events[n] == events.last());
        assert(serves(id, events.drop_last(), actions.drop_last())) by {
            assert forall|i: int| #![trigger events.drop_last()[i]] 0 <= i < n implies ({
                &&& actions.drop_last()[i] == Connection::spec_work(id, events.drop_last()[i])
                &&& (if i == 0 {
                    WorkAction::Select
                } else {
                    actions.drop_last()[i - 1]
                }).awaits(events.drop_last()[i])
            }) by {
                assert(events[i] == events.drop_last()[i]);
            }
        }
        law_messages_pass_in_order(id, events.drop_last(), actions.drop_last());
        assert(forwarded(actions) =~= client_messages(events).map_values(
            |msg: ClientMessage| (id, msg),
        ));
    } else {
        assert(forwarded(actions) =~= client_messages(events).map_values(
            |msg: ClientMessage| (id, msg),
        ));
    }
}

/// A task that finishes does nothing after that, its result names its own
/// connection, and it is an error exactly where receiving had failed.
pub proof fn law_finish_is_final<Format: BytesFormat>(
    id: ConnId,
    events: Seq<WorkEvent<Format>>,
    actions: Seq<WorkAction<Format>>,
    i: int,
)
    requires
        serves(id, events, actions),
        0 <= i < actions.len(),
        actions[i] is Finish,
    ensures
        i == actions.len() - 1,
        finished_id(actions[i]->Finish_0) == id,
        actions[i]->Finish_0 is Err <==> events[i] matches WorkEvent::Received(Err(_)),
{
    assert(actions[i] == Connection::spec_work(id, events[i]));
    if i < actions.len() - 1 {
        let next = events[i + 1];
        assert(actions[i].awaits(next));
    }
}

/// Ids are handed out without a gap: the first is the value of the counter, and
/// each later one is the successor of the one before.
pub proof fn law_assigned_ids_are_consecutive(
    counter1: &mut ConnId,
    counter2: &mut ConnId,
    id1: ConnId,
    id2: ConnId,
)
    requires
        call_ensures(assign_connection_id, (counter1,), id1),
        *counter2 == *final(counter1),
        call_ensures(assign_connection_id, (counter2,), id2),
    ensures
        id1 == *old(counter1),
        id2 == id1 + 1,
        *final(counter2) == id2 + 1,
{
}

/// A connection and its task have one id, the task is given the stream and the
/// way to the manager, and what the connection is told reaches its own task.
pub proof fn law_new_connection_is_linked_to_its_task<S, Format: BytesFormat>(
    id: ConnId,
    socket_chan: Sender<(ConnId, ClientMessage)>,
    conn: TransportSocket<S, Format>,
    connection: Connection<Format>,
    task: ConnectionTask<S, Format>,
)
    requires
        call_ensures(
            Connection::<Format>::new::<S>,
            (id, socket_chan, conn),
            (connection, task),
        ),
    ensures
        connection.id == id,
        task.id == id,
        connection.subscriptions@.len() == 0,
        task.socket_chan == socket_chan,
        task.conn == conn,
        call_ensures(
            tokio::sync::mpsc::channel::<DaemonMessage>,
            (10_000usize,),
            (connection.send_chan, task.daemon_chan),
        ),
{
}

/// Whatever the transport error, the task that failed to receive with it ends,
/// and hands it on under the connection's id.
pub proof fn law_failed_receive_ends_the_task<Format: BytesFormat>(
    id: ConnId,
    e: Error<Format>,
    action: WorkAction<Format>,
)
    requires
        call_ensures(Connection::<Format>::work, (id, WorkEvent::Received(Err(e))), action),
    ensures
        action == WorkAction::<Format>::Finish(Err((id, e))),
{
}

/// The task ends exactly where one of its links is gone: receiving or sending
/// failed, the manager refused a message, or no message for the client will
/// come. It ends with the connection's id alone unless receiving failed.
pub proof fn law_task_ends_with_its_links<Format: BytesFormat>(
    id: ConnId,
    event: WorkEvent<Format>,
    action: WorkAction<Format>,
)
    requires
        call_ensures(Connection::<Format>::work, (id, event), action),
    ensures
        action is Finish <==> {
            ||| event matches WorkEvent::Received(Err(_))
            ||| event matches WorkEvent::Sent(Err(_))
            ||| event == WorkEvent::<Format>::Forwarded(false)
            ||| event == WorkEvent::<Format>::Requested(None)
        },
        action is Finish && !(event is Received) ==> action == WorkAction::<Format>::Finish(Ok(id)),
{
}

/// Every message of the client goes to the manager under the connection's id,
/// every message for the client goes to the client, and after either was taken
/// the task waits for the next one of both.
pub proof fn law_task_passes_every_message<Format: BytesFormat>(
    id: ConnId,
    request: ClientMessage,
    message: DaemonMessage,
    on_request: WorkAction<Format>,
    on_taken: WorkAction<Format>,
    on_message: WorkAction<Format>,
    on_sent: WorkAction<Format>,
)
    requires
        call_ensures(
            Connection::<Format>::work,
            (id, WorkEvent::Received(Ok(request))),
            on_request,
        ),
        call_ensures(Connection::<Format>::work, (id, WorkEvent::Forwarded(true)), on_taken),
        call_ensures(
            Connection::<Format>::work,
            (id, WorkEvent::Requested(Some(message))),
            on_message,
        ),
        call_ensures(Connection::<Format>::work, (id, WorkEvent::Sent(Ok(()))), on_sent),
    ensures
        on_request == WorkAction::<Format>::Forward((id, request)),
        on_taken == WorkAction::<Format>::Select,
        on_message == WorkAction::<Format>::Send(message),
        on_sent == WorkAction::<Format>::Select,
{
}

/// In whatever a task lives through, an event that tells of a link that is gone
/// is the last one, and the task ends on it.
pub proof fn law_lost_link_is_the_last_event<Format: BytesFormat>(
    id: ConnId,
    events: Seq<WorkEvent<Format>>,
    actions: Seq<WorkAction<Format>>,
    i: int,
)
    requires
        serves(id, events, actions),
        0 <= i < events.len(),
        ({
            ||| events[i] matches WorkEvent::Received(Err(_))
            ||| events[i] matches WorkEvent::Sent(Err(_))
            ||| events[i] == WorkEvent::<Format>::Forwarded(false)
            ||| events[i] == WorkEvent::<Format>::Requested(None)
        }),
    ensures
        i == events.len() - 1,
        actions[i] is Finish,
        finished_id(actions[i]->Finish_0) == id,
        events[i] matches WorkEvent::Received(Err(e)) ==> actions[i]->Finish_0 == Err::<
            ConnId,
            (ConnId, Error<Format>),
        >((id, e)),
{
    law_finish_is_final(id, events, actions, i);
}

/// A client is told of what one of its subscriptions covers, whichever of them
/// it is and whatever the others are.
pub proof fn law_one_covering_subscription_is_enough<Format: BytesFormat>(
    connection: Connection<Format>,
    notification: DaemonNotification,
    process: Process,
    i: int,
    wanted: bool,
)
    requires
        0 <= i < connection.subscriptions@.len(),
        call_ensures(
            Subscription::covers,
            (&connection.subscriptions@[i], &notification, &process),
            true,
        ),
        call_ensures(
            Connection::<Format>::wants,
            (&connection, &notification, &process),
            wanted,
        ),
    ensures
        wanted,
{
}

/// A client is not told of what none of its subscriptions covers.
pub proof fn law_uncovered_is_not_wanted<Format: BytesFormat>(
    connection: Connection<Format>,
    notification: DaemonNotification,
    process: Process,
    wanted: bool,
)
    requires
        forall|i: int|
            0 <= i < connection.subscriptions@.len() ==> call_ensures(
                Subscription::covers,
                (&(#[trigger] connection.subscriptions@[i]), &notification, &process),
                false,
            ),
        call_ensures(
            Connection::<Format>::wants,
            (&connection, &notification, &process),
            wanted,
        ),
    ensures
        !wanted,
{
    if wanted {
        let i = choose|i: int|
            0 <= i < connection.subscriptions@.len() && (
            #[trigger] connection.subscriptions@[i]).spec_covers(notification@, process);
        assert(call_ensures(
            Subscription::covers,
            (&connection.subscriptions@[i], &notification, &process),
            false,
        ));
    }
}

/// The client subscribed to this kind of event for all processes, for the
/// process itself, or for a group that the process is in.
pub open spec fn asked_for(
    subscriptions: Seq<Subscription>,
    kind: SubscriptionKind,
    process: Process,
) -> bool {
    exists|i: int|
        0 <= i < subscriptions.len() && (#[trigger] subscriptions[i]).kind == kind && match subscriptions[i].selector {
            Selector::All => true,
            Selector::Particular { id } => id == process.id,
            Selector::Group(group) => exists|g: int|
                0 <= g < process.config.groups@.len() && (
                #[trigger] process.config.groups@[g])@ == group@,
        }
}

/// A log is delivered exactly to the connections of the pool whose client asked
/// for the logs of its process, and a state update exactly to those whose client
/// asked for its status.
pub proof fn law_notification_reaches_those_who_asked<L, Format: BytesFormat>(
    manager: ConnectionManager<L, Format>,
    notification: DaemonNotification,
    process: Process,
    deliveries: Vec<(ConnId, DaemonMessage)>,
    id: ConnId,
)
    requires
        call_ensures(
            ConnectionManager::<L, Format>::dispatch,
            (&manager, notification, &process),
            deliveries,
        ),
    ensures
        (exists|i: int| 0 <= i < deliveries@.len() && (#[trigger] deliveries@[i]).0 == id) <==> {
            &&& manager.connections@.contains_key(id)
            &&& asked_for(
                manager.connections@[id].subscriptions@,
                if notification is Log {
                    SubscriptionKind::Log
                } else {
                    SubscriptionKind::Status
                },
                process,
            )
        },
{
    let subscriptions = manager.connections@[id].subscriptions@;
    let kind = if notification is Log {
        SubscriptionKind::Log
    } else {
        SubscriptionKind::Status
    };
    assert(some_covers(subscriptions, notification@, process) <==> asked_for(
        subscriptions,
        kind,
        process,
    )) by {
        if some_covers(subscriptions, notification@, process) {
            let i = choose|i: int|
                0 <= i < subscriptions.len() && (#[trigger] subscriptions[i]).spec_covers(
                    notification@,
                    process,
                );
            if let Selector::Group(group) = subscriptions[i].selector {
                let g = process.groups().index_of(group@);
                assert(process.config.groups@[g]@ == group@);
            }
        }
        if asked_for(subscriptions, kind, process) {
            let i = choose|i: int|
                0 <= i < subscriptions.len() && (#[trigger] subscriptions[i]).kind == kind
                    && match subscriptions[i].selector {
                    Selector::All => true,
                    Selector::Particular { id } => id == process.id,
                    Selector::Group(group) => exists|g: int|
                        0 <= g < process.config.groups@.len() && (
                        #[trigger] process.config.groups@[g])@ == group@,
                };
            if let Selector::Group(group) = subscriptions[i].selector {
                let g = choose|g: int|
                    0 <= g < process.config.groups@.len() && (
                    #[trigger] process.config.groups@[g])@ == group@;
                assert(process.groups()[g] == group@);
            }
            assert(subscriptions[i].spec_covers(notification@, process));
        }
    }
    if exists|i: int| 0 <= i < deliveries@.len() && (#[trigger] deliveries@[i]).0 == id {
        let i = choose|i: int| 0 <= i < deliveries@.len() && (#[trigger] deliveries@[i]).0 == id;
        assert(manager.connections@[deliveries@[i].0].spec_wants(notification@, process));
    }
}

/// No connection is told twice, and each is told exactly what happened.
pub proof fn law_delivery_is_single_and_true<L, Format: BytesFormat>(
    manager: ConnectionManager<L, Format>,
    notification: DaemonNotification,
    process: Process,
    deliveries: Vec<(ConnId, DaemonMessage)>,
    i: int,
    j: int,
)
    requires
        call_ensures(
            ConnectionManager::<L, Format>::dispatch,
            (&manager, notification, &process),
            deliveries,
        ),
        0 <= i < deliveries@.len(),
        0 <= j < deliveries@.len(),
    ensures
        deliveries@[i].0 == deliveries@[j].0 ==> i == j,
        match notification {
            DaemonNotification::StateUpdate { id, state } => deliveries@[i].1
                == DaemonMessage::Notification(DaemonNotification::StateUpdate { id, state }),
            DaemonNotification::Log(log) => deliveries@[i].1 matches DaemonMessage::Notification(
                DaemonNotification::Log(told),
            ) && told.process == log.process && told.kind == log.kind && told.data@ == log.data@,
        },
{
    if i < j {
        assert(deliveries@[i].0 != deliveries@[j].0);
    }
    if j < i {
        assert(deliveries@[j].0 != deliveries@[i].0);
    }
}

/// A manager begins with no connections, and reads what goes into the channel
/// that it clones for them.
pub proof fn law_new_manager_has_no_connections<L, Format: BytesFormat>(
    listener: L,
    manager: ConnectionManager<L, Format>,
    id: ConnId,
)
    requires
        call_ensures(ConnectionManager::<L, Format>::new, (listener,), manager),
    ensures
        manager.listener == listener,
        !manager.connections@.contains_key(id),
        call_ensures(
            tokio::sync::mpsc::channel::<(ConnId, ClientMessage)>,
            (10_000usize,),
            (manager._send, manager.chan),
        ),
{
}

/// The manager hands every message on as it came, under the id that it came
/// under, and nothing else changes.
pub proof fn law_message_is_handed_on<L, S, Format: BytesFormat>(
    manager: &mut ConnectionManager<L, Format>,
    counter: &mut ConnId,
    id: ConnId,
    message: ClientMessage,
    action: RunAction<S, Format>,
)
    requires
        call_ensures(
            ConnectionManager::<L, Format>::run::<S>,
            (manager, counter, RunEvent::Message((id, message))),
            action,
        ),
    ensures
        action == RunAction::<S, Format>::Return((id, message)),
        *final(manager) == *old(manager),
        *final(counter) == *old(counter),
{
}

/// An accepted stream becomes one more connection, without subscriptions and
/// under the next id, and its task is started with that stream, that id, a clone
/// of the way to the manager and the other end of the connection's channel. All
/// other connections stay as they are.
pub proof fn law_accepted_stream_is_served<L, S, Format: BytesFormat>(
    manager: &mut ConnectionManager<L, Format>,
    counter: &mut ConnId,
    stream: S,
    action: RunAction<S, Format>,
    other: ConnId,
)
    requires
        call_ensures(
            ConnectionManager::<L, Format>::run::<S>,
            (manager, counter, RunEvent::Accepted(Ok(stream))),
            action,
        ),
        other != *counter,
    ensures
        *final(counter) == *old(counter) + 1,
        action matches RunAction::Spawn(task) && {
            let connection = final(manager).connections@[*old(counter)];
            &&& task.id == *old(counter)
            &&& task.conn.pipe == stream
            &&& cloned(old(manager)._send, task.socket_chan)
            &&& final(manager).connections@.contains_key(*old(counter))
            &&& connection.id == *old(counter)
            &&& connection.subscriptions@.len() == 0
            &&& call_ensures(
                tokio::sync::mpsc::channel::<DaemonMessage>,
                (10_000usize,),
                (connection.send_chan, task.daemon_chan),
            )
        },
        final(manager).connections@.contains_key(other) <==> old(
            manager,
        ).connections@.contains_key(other),
        old(manager).connections@.contains_key(other) ==> final(manager).connections@[other]
            == old(manager).connections@[other],
        final(manager).listener == old(manager).listener,
        final(manager).chan == old(manager).chan,
        final(manager)._send == old(manager)._send,
{
}

/// However its task ended, a connection whose task finished leaves the pool, and
/// no other one does.
pub proof fn law_finished_connection_leaves_the_pool<L, S, Format: BytesFormat>(
    manager: &mut ConnectionManager<L, Format>,
    counter: &mut ConnId,
    id: ConnId,
    result: Result<ConnId, (ConnId, Error<Format>)>,
    action: RunAction<S, Format>,
    other: ConnId,
)
    requires
        ({
            ||| result == Ok::<ConnId, (ConnId, Error<Format>)>(id)
            ||| result matches Err((failed, _)) && failed == id
        }),
        call_ensures(
            ConnectionManager::<L, Format>::run::<S>,
            (manager, counter, RunEvent::Joined(Some(JoinOutcome::Finished(result)))),
            action,
        ),
        other != id,
    ensures
        action == RunAction::<S, Format>::Wait,
        !final(manager).connections@.contains_key(id),
        final(manager).connections@.contains_key(other) <==> old(
            manager,
        ).connections@.contains_key(other),
        old(manager).connections@.contains_key(other) ==> final(manager).connections@[other]
            == old(manager).connections@[other],
        final(manager).listener == old(manager).listener,
        final(manager).chan == old(manager).chan,
        final(manager)._send == old(manager)._send,
        *final(counter) == *old(counter),
{
}

/// A stream that could not be accepted, a task that was cancelled, a task that
/// panicked and the lack of tasks leave the manager as it is. It goes on waiting
/// after all of them but a panic, which goes on.
pub proof fn law_other_events_change_nothing<L, S, Format: BytesFormat>(
    manager: &mut ConnectionManager<L, Format>,
    counter: &mut ConnId,
    event: RunEvent<S, Format>,
    action: RunAction<S, Format>,
)
    requires
        call_ensures(
            ConnectionManager::<L, Format>::run::<S>,
            (manager, counter, event),
            action,
        ),
        ({
            ||| event matches RunEvent::Accepted(Err(_))
            ||| event == RunEvent::<S, Format>::Joined(None)
            ||| event == RunEvent::<S, Format>::Joined(Some(JoinOutcome::Cancelled))
            ||| event == RunEvent::<S, Format>::Joined(Some(JoinOutcome::Panicked))
        }),
    ensures
        *final(manager) == *old(manager),
        *final(counter) == *old(counter),
        event == RunEvent::<S, Format>::Joined(Some(JoinOutcome::Panicked)) ==> action
            == RunAction::<S, Format>::ResumeUnwind,
        event != RunEvent::<S, Format>::Joined(Some(JoinOutcome::Panicked)) ==> action
            == RunAction::<S, Format>::Wait,
{
}

/// Whatever event its task ended on, the connection is not in the pool any more
/// once the manager learns that the task has finished.
pub proof fn law_dead_connection_leaves_the_pool<L, S, Format: BytesFormat>(
    manager: &mut ConnectionManager<L, Format>,
    counter: &mut ConnId,
    id: ConnId,
    event: WorkEvent<Format>,
    last: WorkAction<Format>,
    action: RunAction<S, Format>,
)
    requires
        call_ensures(Connection::<Format>::work, (id, event), last),
        last is Finish,
        call_ensures(
            ConnectionManager::<L, Format>::run::<S>,
            (manager, counter, RunEvent::Joined(Some(JoinOutcome::Finished(last->Finish_0)))),
            action,
        ),
    ensures
        !final(manager).connections@.contains_key(id),
{
}

/// A stream that is accepted and whose task then finishes leaves the pool as it
/// was, where the id was a fresh one.
pub proof fn law_accept_and_finish_restore_the_pool<L, S, Format: BytesFormat>(
    accepting: &mut ConnectionManager<L, Format>,
    finishing: &mut ConnectionManager<L, Format>,
    counter1: &mut ConnId,
    counter2: &mut ConnId,
    stream: S,
    task: ConnectionTask<S, Format>,
    result: Result<ConnId, (ConnId, Error<Format>)>,
    action: RunAction<S, Format>,
)
    requires
        !accepting.connections@.contains_key(*counter1),
        call_ensures(
            ConnectionManager::<L, Format>::run::<S>,
            (accepting, counter1, RunEvent::Accepted(Ok(stream))),
            RunAction::Spawn(task),
        ),
        *finishing == *final(accepting),
        ({
            ||| result == Ok::<ConnId, (ConnId, Error<Format>)>(task.id)
            ||| result matches Err((failed, _)) && failed == task.id
        }),
        call_ensures(
            ConnectionManager::<L, Format>::run::<S>,
            (finishing, counter2, RunEvent::Joined(Some(JoinOutcome::Finished(result)))),
            action,
        ),
    ensures
        final(finishing).connections@ == old(accepting).connections@,
{
    assert(final(finishing).connections@ =~= accepting.connections@);
}

} // verus!
