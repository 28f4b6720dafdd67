use vstd::prelude::*;
use super::traits::ConnectionId;
use crate::shared_map::{
    connection_entries, connection_map_get, connection_map_insert, connection_map_keys,
    connection_map_new, connection_map_remove,
};

verus! {

/// The abstract state of a [`ConnectionTable`].
pub struct TableView {
    /// The connections holding a slot, from acceptance until they are
    /// closed: connection id to the token its stream is registered under.
    pub entries: Map<u64, usize>,
    /// The connection counter.
    pub count: usize,
    /// The id the next accepted connection receives.
    pub next_id: u64,
    /// The most connections open at a time, if limited.
    pub limit: Option<usize>,
}

/// The token under which the stream of connection `id` is registered.
pub open spec fn token_of(id: u64) -> usize {
    id as usize
}

/// The table is consistent: the counter is the number of open connections,
/// within the limit; every connection has an id below the next one and is
/// registered under its token.
pub open spec fn table_wf(v: TableView) -> bool {
    &&& v.entries.dom().finite()
    &&& v.count == v.entries.len()
    &&& forall|k: u64| #[trigger] v.entries.contains_key(k) ==> k < v.next_id
    &&& forall|k: u64| #[trigger] v.entries.contains_key(k) ==> v.entries[k] == token_of(k)
    &&& match v.limit {
        Some(m) => v.count <= m,
        None => true,
    }
}

/// Whether a new connection is accepted: while fewer connections than the
/// limit are open, if there is one, and while ids and the counter are not
/// exhausted.
pub open spec fn has_room(v: TableView) -> bool {
    &&& v.next_id < u64::MAX
    &&& v.count < usize::MAX
    &&& match v.limit {
        Some(m) => v.count < m,
        None => true,
    }
}

/// The table after an acceptance attempt: an accepted connection takes the
/// next id, holds a slot under its token and is counted.
pub open spec fn after_accept(v: TableView) -> TableView {
    if has_room(v) {
        TableView {
            entries: v.entries.insert(v.next_id, token_of(v.next_id)),
            count: (v.count + 1) as usize,
            next_id: (v.next_id + 1) as u64,
            ..v
        }
    } else {
        v
    }
}

/// The table after connection `id` is closed: when it was open, it is
/// removed and counted out once.
pub open spec fn after_disconnect(v: TableView, id: u64) -> TableView {
    if v.entries.contains_key(id) {
        TableView { entries: v.entries.remove(id), count: (v.count - 1) as usize, ..v }
    } else {
        v
    }
}

/// What one `accept` call on the listener produced.
pub enum AcceptOutcome {
    /// A new connection.
    Accepted,
    /// No pending connection.
    WouldBlock,
    /// The call failed.
    Failed,
}

/// What the accept loop of a listener does next.
#[derive(Debug, Clone, Copy, PartialEq, Eq, Structural)]
pub enum AcceptAction {
    /// Set the connection up under this id.
    SetUp(ConnectionId),
    /// Refuse the connection (the limit is reached) and accept the next one.
    Reject,
    /// Stop accepting until the next readiness event.
    Stop,
    /// Report the failure and stop accepting.
    ReportAndStop,
}

/// How the set-up of an accepted connection ended.
#[derive(Debug, Clone, Copy, PartialEq, Eq, Structural)]
pub enum SetupOutcome {
    /// Its stream was registered with the event loop under its token.
    Registered,
    /// The event loop no longer exists.
    EventLoopGone,
    /// Registering its stream failed.
    RegistrationFailed,
    /// Its stream could not be locked for registration.
    StreamUnavailable,
}

/// The reaction to the result of a handler callback on a connection.
#[derive(Debug, Clone, Copy, PartialEq, Eq, Structural)]
pub enum HandlerReaction {
    /// The handler succeeded: the connection stays open.
    Keep,
    /// The handler failed: report the error, then close the connection.
    ReportAndDisconnect,
}

/// A failed `on_connect` or `on_data` callback closes the connection.
pub fn handler_reaction(handler_succeeded: bool) -> (r: HandlerReaction)
    ensures
        r == (if handler_succeeded {
            HandlerReaction::Keep
        } else {
            HandlerReaction::ReportAndDisconnect
        }),
{
    if handler_succeeded {
        HandlerReaction::Keep
    } else {
        HandlerReaction::ReportAndDisconnect
    }
}

/// The open TCP connections of a server, with the connection counter and
/// the connection limit. A connection holds a slot from its acceptance
/// until it is closed, so the counter is always the number of open
/// connections.
pub struct ConnectionTable {
    connections: lockfree::map::Map<u64, usize>,
    connection_count: usize,
    next_conn_id: u64,
    max_connections: Option<usize>,
}

impl ConnectionTable {
    pub closed spec fn view(&self) -> TableView {
        TableView {
            entries: connection_entries(self.connections),
            count: self.connection_count,
            next_id: self.next_conn_id,
            limit: self.max_connections,
        }
    }

    pub open spec fn wf(&self) -> bool {
        table_wf(self.view())
    }

    /// An empty table whose first connection gets id 1.
    pub fn new(max_connections: Option<usize>) -> (t: Self)
        ensures
            t.wf(),
            t.view() == (TableView {
                entries: Map::empty(),
                count: 0,
                next_id: 1,
                limit: max_connections,
            }),
    {
        ConnectionTable {
            connections: connection_map_new(),
            connection_count: 0,
            next_conn_id: 1,
            max_connections,
        }
    }

    /// The number of open connections.
    pub fn connection_count(&self) -> (n: usize)
        requires
            self.wf(),
        ensures
            n == self.view().count,
            n == self.view().entries.len(),
    {
        self.connection_count
    }

    /// The most connections open at a time, if limited.
    pub fn max_connections(&self) -> (m: Option<usize>)
        ensures
            m == self.view().limit,
    {
        self.max_connections
    }

    /// Decides on a newly accepted connection: when there is room, it takes
    /// the next id and a slot and is counted; otherwise it is rejected and
    /// nothing changes.
    pub fn try_accept(&mut self) -> (id: Option<ConnectionId>)
        requires
            old(self).wf(),
        ensures
            final(self).wf(),
            final(self).view() == after_accept(old(self).view()),
            id == (if has_room(old(self).view()) {
                Some(ConnectionId(old(self).view().next_id))
            } else {
                None
            }),
            ({
                let v = old(self).view();
                v.next_id < u64::MAX && v.count < usize::MAX && (v.limit matches Some(m) ==> v.count
                    < m) ==> {
                    &&& id == Some(ConnectionId(v.next_id))
                    &&& final(self).view().count == v.count + 1
                    &&& final(self).view().next_id == v.next_id + 1
                    &&& final(self).view().entries.contains_key(v.next_id)
                }
            }),
            old(self).view().limit matches Some(m) && old(self).view().count >= m ==> id is None
                && final(self).view() == old(self).view(),
    {
        let room = match self.max_connections {
            Some(max) => self.connection_count < max,
            None => true,
        };
        if !room || self.connection_count == usize::MAX || self.next_conn_id == u64::MAX {
            return None;
        }
        let id = self.next_conn_id;
        proof {
            assert(!old(self).view().entries.contains_key(id));
        }
        connection_map_insert(&mut self.connections, id, id as usize);
        self.connection_count = self.connection_count + 1;
        self.next_conn_id = self.next_conn_id + 1;
        Some(ConnectionId(id))
    }

    /// The accept loop's reaction to one `accept` call: a new connection is
    /// set up when there is room and refused otherwise; the loop stops when
    /// nothing is pending, and reports and stops when the call failed.
    pub fn on_accept(&mut self, outcome: AcceptOutcome) -> (a: AcceptAction)
        requires
            old(self).wf(),
        ensures
            final(self).wf(),
            match outcome {
                AcceptOutcome::Accepted => {
                    &&& final(self).view() == after_accept(old(self).view())
                    &&& a == if has_room(old(self).view()) {
                        AcceptAction::SetUp(ConnectionId(old(self).view().next_id))
                    } else {
                        AcceptAction::Reject
                    }
                },
                AcceptOutcome::WouldBlock => final(self).view() == old(self).view() && a
                    == AcceptAction::Stop,
                AcceptOutcome::Failed => final(self).view() == old(self).view() && a
                    == AcceptAction::ReportAndStop,
            },
    {
        match outcome {
            AcceptOutcome::Accepted => match self.try_accept() {
                Some(id) => AcceptAction::SetUp(id),
                None => AcceptAction::Reject,
            },
            AcceptOutcome::WouldBlock => AcceptAction::Stop,
            AcceptOutcome::Failed => AcceptAction::ReportAndStop,
        }
    }

    /// Records how the set-up of accepted connection `id` ended: a failed
    /// set-up closes the connection and gives its slot back. Tells whether
    /// the connection is open.
    pub fn on_setup(&mut self, id: ConnectionId, outcome: SetupOutcome) -> (open: bool)
        requires
            old(self).wf(),
        ensures
            final(self).wf(),
            final(self).view() == (if outcome == SetupOutcome::Registered {
                old(self).view()
            } else {
                after_disconnect(old(self).view(), id.0)
            }),
            open == (outcome == SetupOutcome::Registered && old(self).view().entries.contains_key(
                id.0,
            )),
    {
        match outcome {
            SetupOutcome::Registered => self.token(id).is_some(),
            _ => {
                self.disconnect(id);
                false
            },
        }
    }

    /// Records the result of a handler callback (`on_connect` or `on_data`)
    /// on connection `id`: when it failed, the connection is closed, and its
    /// token is returned if it was open.
    pub fn on_handler_result(&mut self, id: ConnectionId, handler_succeeded: bool) -> (t: Option<
        usize,
    >)
        requires
            old(self).wf(),
        ensures
            final(self).wf(),
            handler_succeeded ==> final(self).view() == old(self).view() && t is None,
            !handler_succeeded ==> final(self).view() == after_disconnect(old(self).view(), id.0)
                && t == (if old(self).view().entries.contains_key(id.0) {
                Some(token_of(id.0))
            } else {
                None
            }),
    {
        match handler_reaction(handler_succeeded) {
            HandlerReaction::Keep => None,
            HandlerReaction::ReportAndDisconnect => self.disconnect(id),
        }
    }

    /// The token under which the stream of connection `id` is registered.
    pub fn token_for(id: ConnectionId) -> (t: usize)
        ensures
            t == token_of(id.0),
            id.0 <= usize::MAX ==> t == id.0,
    {
        id.0 as usize
    }

    /// The token of connection `id`, if it is open.
    pub fn token(&self, id: ConnectionId) -> (t: Option<usize>)
        ensures
            t == (if self.view().entries.contains_key(id.0) {
                Some(self.view().entries[id.0])
            } else {
                None
            }),
    {
        connection_map_get(&self.connections, id.0)
    }

    /// The ids of all open connections, each once.
    pub fn ids(&self) -> (ids: Vec<ConnectionId>)
        requires
            self.wf(),
        ensures
            ids@.len() == self.view().entries.dom().len(),
            forall|i: int|
                0 <= i < ids@.len() ==> self.view().entries.contains_key(#[trigger] ids@[i].0),
            forall|k: u64|
                #[trigger] self.view().entries.contains_key(k) ==> exists|i: int|
                    0 <= i < ids@.len() && ids@[i].0 == k,
            forall|i: int, j: int| 0 <= i < j < ids@.len() ==> ids@[i] != ids@[j],
    {
        let keys = connection_map_keys(&self.connections);
        let mut ids: Vec<ConnectionId> = Vec::new();
        let mut i: usize = 0;
        while i < keys.len()
            invariant
                i <= keys@.len(),
                ids@.len() == i,
                forall|j: int| 0 <= j < i ==> (#[trigger] ids@[j]).0 == keys@[j],
            decreases keys@.len() - i,
        {
            ids.push(ConnectionId(keys[i]));
            i = i + 1;
        }
        proof {
            let dom = self.view().entries.dom();
            keys@.unique_seq_to_set();
            assert forall|k: u64| #[trigger] self.view().entries.contains_key(k) implies exists|
                i: int,
            | 0 <= i < ids@.len() && ids@[i].0 == k by {
                assert(keys@.to_set().contains(k));
                let i = choose|i: int| 0 <= i < keys@.len() && keys@[i] == k;
                assert(ids@[i].0 == k);
            }
            assert forall|i: int| 0 <= i < ids@.len() implies self.view().entries.contains_key(
                #[trigger] ids@[i].0,
            ) by {
                assert(keys@.to_set().contains(keys@[i]));
            }
            assert forall|i: int, j: int| 0 <= i < j < ids@.len() implies ids@[i] != ids@[j] by {
                assert(ids@[i].0 == keys@[i]);
                assert(ids@[j].0 == keys@[j]);
            }
        }
        ids
    }

    /// Closes connection `id`: if it is open, it is removed and counted
    /// out, and its token is returned.
    pub fn disconnect(&mut self, id: ConnectionId) -> (t: Option<usize>)
        requires
            old(self).wf(),
        ensures
            final(self).wf(),
            final(self).view() == after_disconnect(old(self).view(), id.0),
            t == (if old(self).view().entries.contains_key(id.0) {
                Some(token_of(id.0))
            } else {
                None
            }),
    {
        let removed = connection_map_remove(&mut self.connections, id.0);
        if removed.is_some() {
            self.connection_count = self.connection_count - 1;
        } else {
            assert(old(self).view().entries.remove(id.0) =~= old(self).view().entries);
        }
        removed
    }
}

/// The counter is the number of open connections: every operation keeps
/// the table consistent, so `connection_count` always equals the number of
/// open connections and never exceeds the limit.
pub proof fn law_count_is_open_connections(v: TableView, id: u64)
    requires
        table_wf(v),
    ensures
        table_wf(after_accept(v)),
        table_wf(after_disconnect(v, id)),
        v.count == v.entries.len(),
        v.limit matches Some(m) ==> v.count <= m,
{
    if has_room(v) {
        assert(!v.entries.contains_key(v.next_id));
    }
}

/// Acceptance succeeds below the limit: while fewer connections than the
/// limit are open (or there is no limit), and ids and the counter are not
/// used up, a new connection is accepted with the next id, whatever
/// connections were opened and closed before.
pub proof fn law_acceptance_succeeds_below_limit(v: TableView)
    requires
        table_wf(v),
        v.next_id < u64::MAX,
        v.count < usize::MAX,
        v.limit matches Some(m) ==> v.count < m,
    ensures
        has_room(v),
        after_accept(v).entries.contains_key(v.next_id),
        after_accept(v).entries.len() == v.entries.len() + 1,
        after_accept(v).count == v.count + 1,
        after_accept(v).next_id == v.next_id + 1,
{
    assert(!v.entries.contains_key(v.next_id));
}

/// Each connection has a token of its own: a connection's token is its id
/// (for every id a `usize` holds), so two different connections never share
/// a token.
pub proof fn law_tokens_are_distinct(a: u64, b: u64)
    requires
        a <= usize::MAX,
        b <= usize::MAX,
    ensures
        token_of(a) == a,
        a != b ==> token_of(a) != token_of(b),
{
}

/// With a limit, acceptance never takes the count past it: a connection is
/// accepted only while fewer than the limit are open.
pub proof fn law_acceptance_respects_limit(v: TableView, m: usize)
    requires
        table_wf(v),
        v.limit == Some(m),
    ensures
        after_accept(v).count <= m,
        has_room(v) ==> v.count < m,
{
}

/// Accepted connections receive fresh ids: the id handed out belongs to no
/// open connection, and the id source moves past it.
pub proof fn law_accepted_ids_are_fresh(v: TableView)
    requires
        table_wf(v),
        has_room(v),
    ensures
        !v.entries.contains_key(v.next_id),
        after_accept(v).next_id == v.next_id + 1,
{
}

/// A connection that is accepted and then closed, whether its set-up
/// failed, a handler failed or it was disconnected or closed, leaves the
/// counter and the open connections as they were.
pub proof fn law_accept_then_close_restores_table(v: TableView)
    requires
        table_wf(v),
        has_room(v),
    ensures
        ({
            let opened = after_accept(v);
            let closed = after_disconnect(opened, v.next_id);
            &&& opened.entries.contains_key(v.next_id)
            &&& opened.count == v.count + 1
            &&& closed.count == v.count
            &&& closed.entries == v.entries
            &&& closed.next_id == v.next_id + 1
        }),
{
    assert(!v.entries.contains_key(v.next_id));
    assert(after_accept(v).entries.remove(v.next_id) =~= v.entries);
}

/// A connection is counted out once: closing it a second time changes
/// nothing.
pub proof fn law_disconnect_is_idempotent(v: TableView, id: u64)
    ensures
        after_disconnect(after_disconnect(v, id), id) == after_disconnect(v, id),
        !after_disconnect(v, id).entries.contains_key(id),
{
}

/// What to do with the outcome of a read from a connection.
pub enum ReadOutcome {
    /// The read returned this many bytes; zero means the peer closed the
    /// connection.
    Received(usize),
    /// No data was ready.
    WouldBlock,
    /// The read failed.
    Failed,
}

/// The reaction to a read.
#[derive(Debug, Clone, Copy, PartialEq, Eq, Structural)]
pub enum ReadAction {
    /// The peer closed the connection: disconnect.
    Disconnect,
    /// Hand the first this many bytes of the buffer to the handler.
    Deliver(usize),
    /// Nothing to do until the next readiness event.
    Ignore,
    /// Report the failure, then disconnect.
    ReportAndDisconnect,
}

impl ReadOutcome {
    /// The reaction to this read outcome.
    pub fn action(&self) -> (a: ReadAction)
        ensures
            a == (match *self {
                ReadOutcome::Received(n) => if n == 0 {
                    ReadAction::Disconnect
                } else {
                    ReadAction::Deliver(n)
                },
                ReadOutcome::WouldBlock => ReadAction::Ignore,
                ReadOutcome::Failed => ReadAction::ReportAndDisconnect,
            }),
    {
        match self {
            ReadOutcome::Received(n) => if *n == 0 {
                ReadAction::Disconnect
            } else {
                ReadAction::Deliver(*n)
            },
            ReadOutcome::WouldBlock => ReadAction::Ignore,
            ReadOutcome::Failed => ReadAction::ReportAndDisconnect,
        }
    }
}

} // verus!
