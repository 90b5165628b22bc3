//! Connection identifiers and the registry of live connections.
use crate::config::{ServerProtocol, ServerSocketType};
use crate::time::Timestamp;
use std::collections::HashMap;
use vstd::prelude::*;
use vstd::std_specs::iter::IteratorSpec;

verus! {

/// Identifies a connection for as long as the process lives.
#[derive(Clone, Copy, Debug, PartialEq, Eq, Structural)]
pub struct ConnectionID(pub u64);

impl ConnectionID {
    /// The identifier as a number.
    pub fn as_u64(&self) -> (n: u64)
        ensures
            n == self.0,
    {
        self.0
    }
}

/// The number after `n`, and zero after the largest 64-bit number. This is
/// how identifiers and request counts go up.
pub open spec fn wrapping_successor(n: u64) -> u64 {
    if n == u64::MAX {
        0
    } else {
        (n + 1) as u64
    }
}

/// The identifier handed out `n` allocations after `first` was.
pub open spec fn nth_id(first: u64, n: nat) -> u64
    decreases n,
{
    if n == 0 {
        first
    } else {
        wrapping_successor(nth_id(first, (n - 1) as nat))
    }
}

/// The first identifier that a new factory hands out.
pub const FIRST_ID: u64 = 1;

/// Hands out connection identifiers. Its view is the identifier that it
/// hands out next.
#[derive(Debug)]
pub struct ConnectionIDFactory {
    next_connection_id: u64,
}

impl View for ConnectionIDFactory {
    type V = u64;

    closed spec fn view(&self) -> u64 {
        self.next_connection_id
    }
}

impl ConnectionIDFactory {
    pub fn new() -> (factory: Self)
        ensures
            factory@ == FIRST_ID,
    {
        Self { next_connection_id: FIRST_ID }
    }

    /// Hands out the next identifier.
    pub fn new_connection_id(&mut self) -> (id: ConnectionID)
        ensures
            id == ConnectionID(old(self)@),
            final(self)@ == wrapping_successor(old(self)@),
        no_unwind
    {
        let id: u64 = self.next_connection_id;
        self.next_connection_id = if id == u64::MAX {
            0
        } else {
            id + 1
        };
        ConnectionID(id)
    }
}

/// What is known about a live connection.
#[derive(Clone, Copy, Debug, PartialEq, Eq, Structural)]
pub struct ConnectionInfo {
    pub connection_id: ConnectionID,
    /// When the connection was accepted.
    pub creation_time: Timestamp,
    pub server_protocol: ServerProtocol,
    pub server_socket_type: ServerSocketType,
    /// How many requests have arrived on the connection. The count starts
    /// over at zero after the largest 64-bit number.
    pub num_requests: u64,
}

impl ConnectionInfo {
    /// The record of a connection on which no request has arrived yet.
    pub open spec fn fresh(
        connection_id: ConnectionID,
        creation_time: Timestamp,
        server_protocol: ServerProtocol,
        server_socket_type: ServerSocketType,
    ) -> ConnectionInfo {
        ConnectionInfo {
            connection_id,
            creation_time,
            server_protocol,
            server_socket_type,
            num_requests: 0,
        }
    }

    /// The record after one more request.
    pub open spec fn with_one_more_request(self) -> ConnectionInfo {
        ConnectionInfo { num_requests: wrapping_successor(self.num_requests), ..self }
    }

    pub fn connection_id(&self) -> (id: ConnectionID)
        ensures
            id == self.connection_id,
    {
        self.connection_id
    }

    pub fn creation_time(&self) -> (t: Timestamp)
        ensures
            t == self.creation_time,
    {
        self.creation_time
    }

    pub fn server_protocol(&self) -> (p: ServerProtocol)
        ensures
            p == self.server_protocol,
    {
        self.server_protocol
    }

    pub fn server_socket_type(&self) -> (t: ServerSocketType)
        ensures
            t == self.server_socket_type,
    {
        self.server_socket_type
    }

    pub fn num_requests(&self) -> (n: u64)
        ensures
            n == self.num_requests,
    {
        self.num_requests
    }
}

/// The handle that the task serving a connection holds on its entry in the
/// tracker. Whoever holds it owes the tracker one call of
/// [`ConnectionTracker::remove_connection`] when the task ends, however it
/// ends.
#[derive(Debug)]
pub struct ConnectionGuard {
    id: ConnectionID,
    server_protocol: ServerProtocol,
    server_socket_type: ServerSocketType,
}

impl ConnectionGuard {
    pub closed spec fn spec_id(&self) -> ConnectionID {
        self.id
    }

    pub closed spec fn spec_server_protocol(&self) -> ServerProtocol {
        self.server_protocol
    }

    pub closed spec fn spec_server_socket_type(&self) -> ServerSocketType {
        self.server_socket_type
    }

    #[verifier::when_used_as_spec(spec_id)]
    pub fn id(&self) -> (id: ConnectionID)
        ensures
            id == self.id(),
    {
        self.id
    }

    #[verifier::when_used_as_spec(spec_server_protocol)]
    pub fn server_protocol(&self) -> (p: ServerProtocol)
        ensures
            p == self.server_protocol(),
    {
        self.server_protocol
    }

    #[verifier::when_used_as_spec(spec_server_socket_type)]
    pub fn server_socket_type(&self) -> (t: ServerSocketType)
        ensures
            t == self.server_socket_type(),
    {
        self.server_socket_type
    }

    /// Counts one more request on the guarded connection.
    pub fn increment_num_requests(&self, tracker: &mut ConnectionTracker)
        ensures
            final(tracker)@ == old(tracker)@.increment(self.id()),
    {
        tracker.increment_request_count(self.id)
    }

    /// Gives the guard back: the guarded connection is removed from the
    /// tracker. The guard is used up, so that this happens once.
    pub fn release(self, tracker: &mut ConnectionTracker)
        ensures
            final(tracker)@ == old(tracker)@.remove(self.id()),
    {
        tracker.remove_connection(self.id)
    }
}

/// The live connections by identifier, and the identifier that the next
/// connection gets.
pub struct ConnectionTrackerView {
    pub next_connection_id: u64,
    pub connections: Map<u64, ConnectionInfo>,
}

impl ConnectionTrackerView {
    /// Every connection is tracked under its own identifier, and there are
    /// finitely many.
    pub open spec fn well_formed(self) -> bool {
        &&& self.connections.dom().finite()
        &&& forall|id: u64| #[trigger]
            self.connections.contains_key(id) ==> self.connections[id].connection_id.0 == id
    }

    /// A tracker without connections.
    pub open spec fn empty() -> ConnectionTrackerView {
        ConnectionTrackerView { next_connection_id: FIRST_ID, connections: Map::empty() }
    }

    /// The tracker after a connection with these properties was added: the
    /// connection got the next identifier and is tracked under it.
    pub open spec fn add(
        self,
        creation_time: Timestamp,
        server_protocol: ServerProtocol,
        server_socket_type: ServerSocketType,
    ) -> ConnectionTrackerView {
        ConnectionTrackerView {
            next_connection_id: wrapping_successor(self.next_connection_id),
            connections: self.connections.insert(
                self.next_connection_id,
                ConnectionInfo::fresh(
                    ConnectionID(self.next_connection_id),
                    creation_time,
                    server_protocol,
                    server_socket_type,
                ),
            ),
        }
    }

    /// The tracker after the connection `id` was removed. Nothing else
    /// changes, and nothing at all when there is no such connection.
    pub open spec fn remove(self, id: ConnectionID) -> ConnectionTrackerView {
        ConnectionTrackerView { connections: self.connections.remove(id.0), ..self }
    }

    /// The tracker after one more request on the connection `id`. Nothing
    /// changes when there is no such connection.
    pub open spec fn increment(self, id: ConnectionID) -> ConnectionTrackerView {
        if self.connections.contains_key(id.0) {
            ConnectionTrackerView {
                connections: self.connections.insert(
                    id.0,
                    self.connections[id.0].with_one_more_request(),
                ),
                ..self
            }
        } else {
            self
        }
    }
}

/// Whether the records in `s` are in ascending order of their identifiers,
/// with no identifier twice.
pub open spec fn sorted_by_id(s: Seq<ConnectionInfo>) -> bool {
    forall|i: int, j: int| 0 <= i < j < s.len() ==> s[i].connection_id.0 < s[j].connection_id.0
}

/// Whether `s` lists exactly the connections in `connections`, each as it
/// is tracked, in ascending order of their identifiers.
pub open spec fn is_snapshot_of(s: Seq<ConnectionInfo>, connections: Map<u64, ConnectionInfo>)
    -> bool {
    &&& sorted_by_id(s)
    &&& forall|i: int|
        0 <= i < s.len() ==> connections.contains_key((#[trigger] s[i]).connection_id.0)
            && connections[s[i].connection_id.0] == s[i]
    &&& forall|id: u64| #[trigger]
        connections.contains_key(id) ==> exists|i: int|
            0 <= i < s.len() && (#[trigger] s[i]).connection_id.0 == id
}

/// Puts `info` into `sorted` at the place that its identifier gives it.
fn insert_sorted(sorted: &mut Vec<ConnectionInfo>, info: ConnectionInfo)
    requires
        sorted_by_id(old(sorted)@),
        forall|i: int|
            0 <= i < old(sorted)@.len() ==> old(sorted)@[i].connection_id != info.connection_id,
    ensures
        sorted_by_id(final(sorted)@),
        final(sorted)@.len() == old(sorted)@.len() + 1,
        forall|x: ConnectionInfo|
            final(sorted)@.contains(x) <==> (old(sorted)@.contains(x) || x == info),
{
    let mut position: usize = 0;
    while position < sorted.len() && sorted[position].connection_id.0 < info.connection_id.0
        invariant
            position <= sorted@.len(),
            sorted@ == old(sorted)@,
            forall|i: int| 0 <= i < position ==> sorted@[i].connection_id.0 < info.connection_id.0,
        decreases sorted@.len() - position,
    {
        position += 1;
    }
    sorted.insert(position, info);
    proof {
        let before = old(sorted)@;
        let after = sorted@;
        assert forall|x: ConnectionInfo| after.contains(x) <==> (before.contains(x) || x == info) by {
            if after.contains(x) {
                let i = choose|i: int| 0 <= i < after.len() && after[i] == x;
                if i < position {
                    assert(before[i] == x);
                } else if i > position {
                    assert(before[i - 1] == x);
                }
            }
            if before.contains(x) {
                let i = choose|i: int| 0 <= i < before.len() && before[i] == x;
                if i < position {
                    assert(after[i] == x);
                } else {
                    assert(after[i + 1] == x);
                }
            }
            if x == info {
                assert(after[position as int] == x);
            }
        }
    }
}

/// The registry of live connections.
pub struct ConnectionTracker {
    id_factory: ConnectionIDFactory,
    connections: HashMap<u64, ConnectionInfo>,
}

impl View for ConnectionTracker {
    type V = ConnectionTrackerView;

    closed spec fn view(&self) -> ConnectionTrackerView {
        ConnectionTrackerView {
            next_connection_id: self.id_factory@,
            connections: self.connections@,
        }
    }
}

impl ConnectionTracker {
    /// Every connection is tracked under its own identifier, and there are
    /// finitely many.
    #[verifier::type_invariant]
    pub closed spec fn wf(self) -> bool {
        self@.well_formed()
    }

    /// A tracker without connections.
    pub fn new() -> (tracker: Self)
        ensures
            tracker@ == ConnectionTrackerView::empty(),
    {
        Self { id_factory: ConnectionIDFactory::new(), connections: HashMap::new() }
    }

    /// The number of live connections.
    pub fn len(&self) -> (n: usize)
        ensures
            n == self@.connections.dom().len(),
    {
        self.connections.len()
    }

    /// The live connections at this moment, in ascending order of their
    /// identifiers, whatever the order in which they were added.
    #[verifier::loop_isolation(false)]
    pub fn snapshot(&self) -> (connections: Vec<ConnectionInfo>)
        ensures
            self@.well_formed(),
            is_snapshot_of(connections@, self@.connections),
            connections@.len() == self@.connections.dom().len(),
    {
        broadcast use vstd::std_specs::hash::group_hash_axioms;

        proof {
            use_type_invariant(self);
        }
        let ghost tracked_connections = self.connections@;
        let ghost entries = self.connections.iter().remaining();
        let mut connections: Vec<ConnectionInfo> = Vec::with_capacity(self.connections.len());
        for entry in it: self.connections.iter()
            invariant
                it.seq() == entries,
                entries.no_duplicates(),
                entries.len() == tracked_connections.dom().len(),
                sorted_by_id(connections@),
                connections@.len() == it.index(),
                forall|x: ConnectionInfo|
                    connections@.contains(x) <==> exists|j: int|
                        0 <= j < it.index() && *(#[trigger] entries[j]).1 == x,
        {
            let (_id, info) = entry;
            let ghost before = connections@;
            proof {
                assert forall|i: int| 0 <= i < before.len() implies before[i].connection_id
                    != info.connection_id by {
                    assert(before.contains(before[i]));
                    let j = choose|j: int|
                        0 <= j < it.index() && *(#[trigger] entries[j]).1 == before[i];
                    if before[i].connection_id == info.connection_id {
                        assert(tracked_connections.contains_key(*entries[j].0));
                        assert(tracked_connections.contains_key(*entries[it.index()].0));
                        assert(*entries[j].0 == *entries[it.index()].0);
                        assert(entries[j] == entries[it.index()]);
                    }
                }
            }
            insert_sorted(&mut connections, *info);
            proof {
                assert forall|x: ConnectionInfo|
                    connections@.contains(x) <==> exists|j: int|
                        0 <= j < it.index() + 1 && *(#[trigger] entries[j]).1 == x by {
                    if x == *info {
                        assert(*entries[it.index()].1 == x);
                    }
                    if before.contains(x) {
                        let j = choose|j: int|
                            0 <= j < it.index() && *(#[trigger] entries[j]).1 == x;
                        assert(0 <= j < it.index() + 1 && *entries[j].1 == x);
                    }
                }
            }
        }
        proof {
            assert forall|i: int| 0 <= i < connections@.len() implies tracked_connections.contains_key(
                (#[trigger] connections@[i]).connection_id.0,
            ) && tracked_connections[connections@[i].connection_id.0] == connections@[i] by {
                assert(connections@.contains(connections@[i]));
                let j = choose|j: int|
                    0 <= j < entries.len() && *(#[trigger] entries[j]).1 == connections@[i];
                assert(tracked_connections.contains_key(*entries[j].0));
            }
            assert forall|id: u64| #[trigger] tracked_connections.contains_key(id) implies exists|
                i: int,
            |
                0 <= i < connections@.len() && (#[trigger] connections@[i]).connection_id.0
                    == id by {
                let pair = (&id, &tracked_connections[id]);
                assert(entries.contains(pair));
                let j = choose|j: int| 0 <= j < entries.len() && entries[j] == pair;
                assert(*entries[j].1 == tracked_connections[id]);
                assert(connections@.contains(tracked_connections[id]));
                let i = choose|i: int|
                    0 <= i < connections@.len() && connections@[i] == tracked_connections[id];
                assert(connections@[i].connection_id.0 == id);
            }
        }
        connections
    }

    /// Registers a connection accepted at `creation_time` and returns the
    /// guard for it. The connection gets the next identifier.
    pub fn add_connection(
        &mut self,
        creation_time: Timestamp,
        server_protocol: ServerProtocol,
        server_socket_type: ServerSocketType,
    ) -> (guard: ConnectionGuard)
        ensures
            final(self)@ == old(self)@.add(creation_time, server_protocol, server_socket_type),
            guard.id() == ConnectionID(old(self)@.next_connection_id),
            guard.server_protocol() == server_protocol,
            guard.server_socket_type() == server_socket_type,
    {
        proof {
            use_type_invariant(&*self);
        }
        let id = self.id_factory.new_connection_id();
        let info = ConnectionInfo {
            connection_id: id,
            creation_time,
            server_protocol,
            server_socket_type,
            num_requests: 0,
        };
        // The map is taken out while it is changed, so that the tracker is
        // well formed whenever it can be seen.
        let mut connections: HashMap<u64, ConnectionInfo> = HashMap::new();
        std::mem::swap(&mut connections, &mut self.connections);
        connections.insert(id.0, info);
        std::mem::swap(&mut connections, &mut self.connections);
        ConnectionGuard { id, server_protocol, server_socket_type }
    }

    /// Removes the connection `id`. Removing a connection that is not
    /// tracked changes nothing.
    pub fn remove_connection(&mut self, id: ConnectionID)
        ensures
            final(self)@ == old(self)@.remove(id),
    {
        proof {
            use_type_invariant(&*self);
        }
        let mut connections: HashMap<u64, ConnectionInfo> = HashMap::new();
        std::mem::swap(&mut connections, &mut self.connections);
        connections.remove(&id.0);
        std::mem::swap(&mut connections, &mut self.connections);
    }

    /// Counts one more request on the connection `id`. Nothing changes for
    /// a connection that is not tracked.
    pub fn increment_request_count(&mut self, id: ConnectionID)
        ensures
            final(self)@ == old(self)@.increment(id),
    {
        proof {
            use_type_invariant(&*self);
        }
        let current: Option<ConnectionInfo> = match self.connections.get(&id.0) {
            Some(info) => Some(*info),
            None => None,
        };
        if let Some(info) = current {
            let num_requests: u64 = if info.num_requests == u64::MAX {
                0
            } else {
                info.num_requests + 1
            };
            let mut connections: HashMap<u64, ConnectionInfo> = HashMap::new();
            std::mem::swap(&mut connections, &mut self.connections);
            connections.insert(id.0, ConnectionInfo { num_requests, ..info });
            std::mem::swap(&mut connections, &mut self.connections);
        }
    }
}

/// The properties that a connection arrives with.
pub struct Arrival {
    pub creation_time: Timestamp,
    pub server_protocol: ServerProtocol,
    pub server_socket_type: ServerSocketType,
}

/// The tracker after the connections `arrivals` were added to `tracker`,
/// one after the other.
pub open spec fn after_arrivals(tracker: ConnectionTrackerView, arrivals: Seq<Arrival>)
    -> ConnectionTrackerView
    decreases arrivals.len(),
{
    if arrivals.len() == 0 {
        tracker
    } else {
        after_arrivals(tracker, arrivals.drop_last()).add(
            arrivals.last().creation_time,
            arrivals.last().server_protocol,
            arrivals.last().server_socket_type,
        )
    }
}

/// The record of the `k`-th of `arrivals` in a tracker that was empty
/// before them.
pub open spec fn arrival_record(arrivals: Seq<Arrival>, k: int) -> ConnectionInfo {
    ConnectionInfo::fresh(
        ConnectionID((FIRST_ID + k) as u64),
        arrivals[k].creation_time,
        arrivals[k].server_protocol,
        arrivals[k].server_socket_type,
    )
}

proof fn lemma_nth_id(first: u64, n: nat)
    ensures
        nth_id(first, n) == (first + n) % 0x1_0000_0000_0000_0000,
    decreases n,
{
    if n > 0 {
        lemma_nth_id(first, (n - 1) as nat);
    }
}

/// Identifiers are unique: two allocations less than 2^64 apart never get
/// the same identifier.
pub proof fn lemma_ids_are_unique(first: u64, i: nat, j: nat)
    requires
        i < j,
        j - i < 0x1_0000_0000_0000_0000,
    ensures
        nth_id(first, i) != nth_id(first, j),
{
    lemma_nth_id(first, i);
    lemma_nth_id(first, j);
    let m = 0x1_0000_0000_0000_0000int;
    let a = first + i;
    let b = first + j;
    if a % m == b % m {
        assert(a == m * (a / m) + a % m) by (nonlinear_arith)
            requires
                m > 0,
        ;
        assert(b == m * (b / m) + b % m) by (nonlinear_arith)
            requires
                m > 0,
        ;
        assert(b - a == m * (b / m - a / m)) by (nonlinear_arith)
            requires
                a == m * (a / m) + a % m,
                b == m * (b / m) + b % m,
                a % m == b % m,
        ;
        assert(false) by (nonlinear_arith)
            requires
                0 < b - a < m,
                b - a == m * (b / m - a / m),
        ;
    }
}

/// Identifiers increase: as long as the count has not passed the largest
/// 64-bit number, a later allocation gets a larger identifier.
pub proof fn lemma_ids_increase(first: u64, i: nat, j: nat)
    requires
        i < j,
        first + j <= u64::MAX,
    ensures
        nth_id(first, i) < nth_id(first, j),
{
    lemma_nth_id(first, i);
    lemma_nth_id(first, j);
}

proof fn lemma_snapshots_agree_up_to(
    connections: Map<u64, ConnectionInfo>,
    first: Seq<ConnectionInfo>,
    second: Seq<ConnectionInfo>,
    i: int,
)
    requires
        is_snapshot_of(first, connections),
        is_snapshot_of(second, connections),
        0 <= i < first.len(),
    ensures
        i < second.len(),
        first[i] == second[i],
    decreases i,
{
    if i > 0 {
        lemma_snapshots_agree_up_to(connections, first, second, i - 1);
    }
    assert forall|j: int| 0 <= j < i implies first[j] == second[j] by {
        lemma_snapshots_agree_up_to(connections, first, second, j);
    }
    // The identifier at position `i` of one snapshot occurs in the other,
    // and cannot occur before position `i` there.
    let id = first[i].connection_id.0;
    assert(connections.contains_key(id));
    let k = choose|k: int| 0 <= k < second.len() && (#[trigger] second[k]).connection_id.0 == id;
    if k < i {
        assert(first[k] == second[k]);
    }
    let other = second[i].connection_id.0;
    assert(connections.contains_key(other));
    let l = choose|l: int| 0 <= l < first.len() && (#[trigger] first[l]).connection_id.0 == other;
    if l < i {
        assert(first[l] == second[l]);
    }
}

/// A snapshot is determined by the connections that are tracked: two
/// snapshots of the same connections are equal, in whatever order the
/// connections were added.
pub proof fn lemma_snapshot_is_unique(
    connections: Map<u64, ConnectionInfo>,
    first: Seq<ConnectionInfo>,
    second: Seq<ConnectionInfo>,
)
    requires
        is_snapshot_of(first, connections),
        is_snapshot_of(second, connections),
    ensures
        first == second,
{
    assert forall|i: int| 0 <= i < first.len() implies i < second.len() && first[i]
        == second[i] by {
        lemma_snapshots_agree_up_to(connections, first, second, i);
    }
    if first.len() < second.len() {
        lemma_snapshots_agree_up_to(connections, second, first, first.len() as int);
    }
    if second.len() < first.len() {
        lemma_snapshots_agree_up_to(connections, first, second, second.len() as int);
    }
    assert(first =~= second);
}

proof fn lemma_after_arrivals(arrivals: Seq<Arrival>)
    requires
        arrivals.len() <= u64::MAX,
    ensures
        ({
            let tracker = after_arrivals(ConnectionTrackerView::empty(), arrivals);
            &&& tracker.next_connection_id == wrapping_successor(arrivals.len() as u64)
            &&& forall|id: u64| #[trigger]
                tracker.connections.contains_key(id) <==> 1 <= id <= arrivals.len()
            &&& forall|k: int|
                0 <= k < arrivals.len() ==> tracker.connections[(FIRST_ID + k) as u64]
                    == #[trigger] arrival_record(arrivals, k)
        }),
    decreases arrivals.len(),
{
    if arrivals.len() > 0 {
        let earlier = arrivals.drop_last();
        lemma_after_arrivals(earlier);
        let tracker = after_arrivals(ConnectionTrackerView::empty(), arrivals);
        assert forall|k: int| 0 <= k < arrivals.len() implies tracker.connections[(FIRST_ID
            + k) as u64] == #[trigger] arrival_record(arrivals, k) by {
            if k < earlier.len() {
                assert(arrival_record(arrivals, k) == arrival_record(earlier, k));
            }
        }
    }
}

/// Every added connection is tracked. After any number of connections,
/// short of 2^64, were added to an empty tracker, a snapshot lists exactly
/// these connections: one entry for each, in the order of their arrival,
/// which is the ascending order of their identifiers, and no identifier
/// twice.
pub proof fn lemma_added_connections_are_tracked(
    arrivals: Seq<Arrival>,
    snapshot: Seq<ConnectionInfo>,
)
    requires
        arrivals.len() <= u64::MAX,
        is_snapshot_of(
            snapshot,
            after_arrivals(ConnectionTrackerView::empty(), arrivals).connections,
        ),
    ensures
        snapshot.len() == arrivals.len(),
        sorted_by_id(snapshot),
        forall|k: int| 0 <= k < arrivals.len() ==> snapshot[k] == arrival_record(arrivals, k),
{
    lemma_after_arrivals(arrivals);
    let connections = after_arrivals(ConnectionTrackerView::empty(), arrivals).connections;
    let expected = Seq::new(arrivals.len(), |k: int| arrival_record(arrivals, k));
    assert forall|id: u64| #[trigger] connections.contains_key(id) implies exists|i: int|
        0 <= i < expected.len() && (#[trigger] expected[i]).connection_id.0 == id by {
        assert(expected[id - 1].connection_id.0 == id);
    }
    assert forall|i: int| 0 <= i < expected.len() implies connections.contains_key(
        (#[trigger] expected[i]).connection_id.0,
    ) && connections[expected[i].connection_id.0] == expected[i] by {
        assert(expected[i] == arrival_record(arrivals, i));
    }
    assert(is_snapshot_of(expected, connections));
    lemma_snapshot_is_unique(connections, snapshot, expected);
}

/// Removing a connection removes only that connection. A snapshot taken
/// after the removal is the snapshot from before it without the entry of
/// the removed connection, and the same snapshot if that connection was
/// not tracked.
pub proof fn lemma_remove_leaves_the_others(
    tracker: ConnectionTrackerView,
    id: ConnectionID,
    before: Seq<ConnectionInfo>,
    after: Seq<ConnectionInfo>,
)
    requires
        is_snapshot_of(before, tracker.connections),
        is_snapshot_of(after, tracker.remove(id).connections),
    ensures
        forall|p: int|
            0 <= p < before.len() && (#[trigger] before[p]).connection_id == id ==> after
                == before.remove(p),
        (forall|p: int| 0 <= p < before.len() ==> (#[trigger] before[p]).connection_id != id)
            ==> after == before,
{
    let remaining = tracker.remove(id).connections;
    assert forall|p: int|
        0 <= p < before.len() && (#[trigger] before[p]).connection_id == id implies after
        == before.remove(p) by {
        let expected = before.remove(p);
        assert forall|i: int| 0 <= i < expected.len() implies remaining.contains_key(
            (#[trigger] expected[i]).connection_id.0,
        ) && remaining[expected[i].connection_id.0] == expected[i] by {
            if i < p {
                assert(expected[i] == before[i]);
            } else {
                assert(expected[i] == before[i + 1]);
            }
        }
        assert forall|other: u64| #[trigger] remaining.contains_key(other) implies exists|i: int|
            0 <= i < expected.len() && (#[trigger] expected[i]).connection_id.0 == other by {
            assert(tracker.connections.contains_key(other));
            let q = choose|q: int|
                0 <= q < before.len() && (#[trigger] before[q]).connection_id.0 == other;
            if q < p {
                assert(expected[q].connection_id.0 == other);
            } else {
                assert(expected[q - 1].connection_id.0 == other);
            }
        }
        assert(is_snapshot_of(expected, remaining));
        lemma_snapshot_is_unique(remaining, after, expected);
    }
    if forall|p: int| 0 <= p < before.len() ==> (#[trigger] before[p]).connection_id != id {
        if tracker.connections.contains_key(id.0) {
            let q = choose|q: int|
                0 <= q < before.len() && (#[trigger] before[q]).connection_id.0 == id.0;
            assert(before[q].connection_id == id);
        }
        assert(remaining =~= tracker.connections);
        lemma_snapshot_is_unique(remaining, after, before);
    }
}

} // verus!
