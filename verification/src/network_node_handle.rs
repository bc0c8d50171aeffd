//! Per-replica network-node handle and swarm bootstrap.
//!
//! The overlay endpoint itself (socket, listener tasks, channels) lives
//! outside the library; the library receives the endpoint's events as plain
//! values and decides everything else: how the connectivity waiter reacts to
//! each event, when a node counts as connected, how the bootstrap seed lists
//! are built, and what the whole swarm bootstrap returns.

use vstd::prelude::*;
use crate::errors::{NetworkError, NetworkNodeHandleError};

verus! {

/// Role of a node in the overlay mesh.
#[derive(Debug, Clone, Copy, PartialEq, Eq, Structural)]
pub enum NetworkNodeType {
    /// A seed node that introduces the others to each other.
    Bootstrap,
    /// An ordinary node, seeded with the bootstrap list.
    Regular,
}

/// Configuration of one overlay endpoint.
#[derive(Debug, Clone, Copy, PartialEq, Eq, Structural)]
pub struct NetworkNodeConfig {
    /// Role of the node.
    pub node_type: NetworkNodeType,
    /// Target floor for the peer-set size.
    pub min_num_peers: usize,
    /// Ceiling for the peer-set size.
    pub max_num_peers: usize,
}

impl Default for NetworkNodeConfig {
    /// The configuration used for bootstrap nodes.
    fn default() -> (c: NetworkNodeConfig)
        ensures
            c.node_type == NetworkNodeType::Bootstrap,
            c.min_num_peers == 10,
            c.max_num_peers == 15,
    {
        NetworkNodeConfig { node_type: NetworkNodeType::Bootstrap, min_num_peers: 10, max_num_peers: 15 }
    }
}

/// The connectivity the local node has observed so far: the peers it
/// currently has open sessions to and the peers it has ever learned about.
/// Both lists are overwritten wholesale by the corresponding network event.
#[derive(Debug, Clone)]
pub struct ConnectionData {
    /// Peers with open sessions to the local node.
    pub connected_peers: Vec<u64>,
    /// Peers the local node has learned about.
    pub known_peers: Vec<u64>,
}

impl View for ConnectionData {
    type V = (Seq<u64>, Seq<u64>);

    closed spec fn view(&self) -> (Seq<u64>, Seq<u64>) {
        (self.connected_peers@, self.known_peers@)
    }
}

/// An event the overlay endpoint delivers to the handle. Only the peer-set
/// updates matter to the connectivity waiter; everything else the endpoint
/// emits is an `Other`.
#[derive(Debug, Clone)]
pub enum NetworkEvent {
    /// The endpoint's current set of connected peers, reported wholesale.
    UpdateConnectedPeers(Vec<u64>),
    /// The set of peers the endpoint has ever learned about, reported wholesale.
    UpdateKnownPeers(Vec<u64>),
    /// Any other event; the waiter ignores it.
    Other,
}

/// A per-replica supervisor for one overlay endpoint. The endpoint's
/// channels and tasks live outside the library; the handle keeps the plain
/// facts about the endpoint that the harness reasons about.
#[derive(Debug, Clone)]
pub struct NetworkNodeHandle {
    /// Stable identity of the endpoint.
    pub peer_id: u64,
    /// The local overlay address actually bound.
    pub listen_addr: String,
    /// The configuration the endpoint was created with.
    pub config: NetworkNodeConfig,
    /// The seed peers the endpoint was introduced to at construction.
    pub seed_addrs: Vec<(u64, String)>,
    /// Connectivity observed so far.
    pub connection_state: ConnectionData,
}

/// Number of peers a node must both know and be connected to before the
/// bootstrap counts it as meshed: three quarters of the cluster, rounded up.
pub open spec fn spec_connect_threshold(num_of_nodes: nat) -> nat {
    (3 * num_of_nodes + 3) / 4
}

/// Computes the connectivity threshold `ceil(3 * num_of_nodes / 4)`.
pub fn connect_threshold(num_of_nodes: usize) -> (t: usize)
    requires
        3 * num_of_nodes + 3 <= usize::MAX,
    ensures
        t == spec_connect_threshold(num_of_nodes as nat),
{
    (3 * num_of_nodes + 3) / 4
}

/// Whether `e` reports a connected-peer set of at least `threshold` peers.
pub open spec fn connected_event_reaches(e: NetworkEvent, threshold: nat) -> bool {
    match e {
        NetworkEvent::UpdateConnectedPeers(pids) => pids@.len() >= threshold,
        _ => false,
    }
}

/// Whether `e` reports a known-peer set of at least `threshold` peers.
pub open spec fn known_event_reaches(e: NetworkEvent, threshold: nat) -> bool {
    match e {
        NetworkEvent::UpdateKnownPeers(pids) => pids@.len() >= threshold,
        _ => false,
    }
}

/// The waiter is done once some event of each kind has reached the
/// threshold; the two conditions latch independently.
pub open spec fn waiter_done(events: Seq<NetworkEvent>, threshold: nat) -> bool {
    &&& exists|j: int| 0 <= j < events.len() && connected_event_reaches(events[j], threshold)
    &&& exists|j: int| 0 <= j < events.len() && known_event_reaches(events[j], threshold)
}

/// How one event changes the connection state: a peer-set update overwrites
/// the corresponding list wholesale, anything else leaves it alone.
pub open spec fn apply_event(c: (Seq<u64>, Seq<u64>), e: NetworkEvent) -> (Seq<u64>, Seq<u64>) {
    match e {
        NetworkEvent::UpdateConnectedPeers(pids) => (pids@, c.1),
        NetworkEvent::UpdateKnownPeers(pids) => (c.0, pids@),
        NetworkEvent::Other => c,
    }
}

/// The connection state after processing `events` in order, starting from `c`.
pub open spec fn conn_after(c: (Seq<u64>, Seq<u64>), events: Seq<NetworkEvent>) -> (Seq<u64>, Seq<u64>)
    decreases events.len(),
{
    if events.len() == 0 {
        c
    } else {
        conn_after(apply_event(c, events[0]), events.skip(1))
    }
}

/// Whether `e` is a connected-peer update.
pub open spec fn is_connected_update(e: NetworkEvent) -> bool {
    e matches NetworkEvent::UpdateConnectedPeers(_)
}

/// Whether `e` is a known-peer update.
pub open spec fn is_known_update(e: NetworkEvent) -> bool {
    e matches NetworkEvent::UpdateKnownPeers(_)
}

/// Length of the peer set an update event carries; zero for other events.
pub open spec fn payload_len(e: NetworkEvent) -> nat {
    match e {
        NetworkEvent::UpdateConnectedPeers(pids) => pids@.len(),
        NetworkEvent::UpdateKnownPeers(pids) => pids@.len(),
        NetworkEvent::Other => 0,
    }
}

/// The peer-set updates in `events` report nondecreasing sizes, kind by
/// kind: the overlay's view of the mesh only grows while it forms.
pub open spec fn monotone_updates(events: Seq<NetworkEvent>) -> bool {
    &&& forall|j1: int, j2: int|
        0 <= j1 < j2 < events.len() && is_connected_update(#[trigger] events[j1])
            && is_connected_update(#[trigger] events[j2]) ==> payload_len(events[j1]) <= payload_len(events[j2])
    &&& forall|j1: int, j2: int|
        0 <= j1 < j2 < events.len() && is_known_update(#[trigger] events[j1])
            && is_known_update(#[trigger] events[j2]) ==> payload_len(events[j1]) <= payload_len(events[j2])
}

/// Copies a peer-id list out of an event payload.
fn copy_ids(v: &Vec<u64>) -> (r: Vec<u64>)
    ensures
        r@ == v@,
{
    let mut r: Vec<u64> = Vec::new();
    let mut i: usize = 0;
    while i < v.len()
        invariant
            i <= v.len(),
            r@ == v@.take(i as int),
        decreases v.len() - i,
    {
        r.push(v[i]);
        i += 1;
        proof {
            assert(v@.take(i as int) =~= v@.take(i - 1).push(v@[i - 1]));
        }
    }
    proof {
        assert(v@.take(v@.len() as int) =~= v@);
    }
    r
}

impl NetworkNodeHandle {
    /// Constructs the handle's record for an endpoint that was just created
    /// and bound. The endpoint work itself (creating the overlay node,
    /// starting the listener, subscribing to the global topic) happens
    /// outside; the handle starts with empty connectivity.
    pub fn new(peer_id: u64, listen_addr: String, config: NetworkNodeConfig, seed_addrs: Vec<(u64, String)>) -> (r: NetworkNodeHandle)
        ensures
            r.peer_id == peer_id,
            r.listen_addr == listen_addr,
            r.config == config,
            r.seed_addrs == seed_addrs,
            r.connection_state@ == (Seq::<u64>::empty(), Seq::<u64>::empty()),
    {
        NetworkNodeHandle {
            peer_id,
            listen_addr,
            config,
            seed_addrs,
            connection_state: ConnectionData { connected_peers: Vec::new(), known_peers: Vec::new() },
        }
    }

    /// Decides what a clean shutdown reports. The shutdown sends two
    /// messages whose outcomes are handed in: the `Shutdown` command to the
    /// network node and then the kill signal to the event handler. Either
    /// send fails exactly when its receiver is already gone, and the handle
    /// then reports a closed stream rather than panicking; a partial
    /// shutdown is not rolled back, since shutdown is idempotent at the
    /// network-node level.
    pub fn kill(&self, shutdown_sent: bool, kill_signal_sent: bool) -> (r: Result<(), NetworkError>)
        ensures
            r.is_ok() <==> shutdown_sent && kill_signal_sent,
            r.is_err() ==> r == Err::<(), NetworkError>(NetworkError::StreamClosed),
    {
        if !shutdown_sent {
            Err(NetworkError::StreamClosed)
        } else if !kill_signal_sent {
            Err(NetworkError::StreamClosed)
        } else {
            Ok(())
        }
    }

    /// Drains the node's event stream until a connected-peer update and a
    /// known-peer update have each reported at least `ceil(3 * num_of_nodes / 4)`
    /// peers. Every peer-set update overwrites the connection state,
    /// whether or not it reaches the threshold. Returns how many events
    /// were consumed; an exhausted stream means the channel closed before
    /// the node meshed, reported as a receive error.
    pub fn wait_to_connect(&mut self, num_of_nodes: usize, events: &Vec<NetworkEvent>) -> (r: Result<usize, NetworkNodeHandleError>)
        requires
            3 * num_of_nodes + 3 <= usize::MAX,
        ensures
            final(self).peer_id == old(self).peer_id,
            final(self).listen_addr == old(self).listen_addr,
            final(self).config == old(self).config,
            final(self).seed_addrs == old(self).seed_addrs,
            r.is_ok() <==> waiter_done(events@, spec_connect_threshold(num_of_nodes as nat)),
            r.is_err() ==> r == Err::<usize, NetworkNodeHandleError>(NetworkNodeHandleError::RecvError)
                && final(self).connection_state@ == conn_after(old(self).connection_state@, events@),
            (match r {
                Ok(k) => {
                    &&& k <= events@.len()
                    &&& waiter_done(events@.take(k as int), spec_connect_threshold(num_of_nodes as nat))
                    &&& forall|j: int| 0 <= j < k ==> !waiter_done(events@.take(j), spec_connect_threshold(num_of_nodes as nat))
                    &&& final(self).connection_state@ == conn_after(old(self).connection_state@, events@.take(k as int))
                },
                Err(_) => true,
            }),
    {
        let threshold = connect_threshold(num_of_nodes);
        let ghost th = spec_connect_threshold(num_of_nodes as nat);
        let mut connected_ok = false;
        let mut known_ok = false;
        let mut i: usize = 0;
        while !(connected_ok && known_ok)
            invariant
                i <= events@.len(),
                3 * num_of_nodes + 3 <= usize::MAX,
                th == spec_connect_threshold(num_of_nodes as nat),
                threshold == th,
                connected_ok == exists|j: int| 0 <= j < i && connected_event_reaches(events@[j], th),
                known_ok == exists|j: int| 0 <= j < i && known_event_reaches(events@[j], th),
                forall|j: int| 0 <= j < i ==> !waiter_done(#[trigger] events@.take(j), th),
                self.connection_state@ == conn_after(old(self).connection_state@, events@.take(i as int)),
                self.peer_id == old(self).peer_id,
                self.listen_addr == old(self).listen_addr,
                self.config == old(self).config,
                self.seed_addrs == old(self).seed_addrs,
            decreases events@.len() - i + (if connected_ok { 0int } else { 1 }) + (if known_ok { 0int } else { 1 }),
        {
            proof {
                assert(!waiter_done(events@.take(i as int), th));
            }
            if i == events.len() {
                proof {
                    assert(events@.take(i as int) =~= events@);
                    assert(!waiter_done(events@, th)) by {
                        if waiter_done(events@, th) {
                            assert(exists|j: int| 0 <= j < i && connected_event_reaches(events@[j], th));
                            assert(exists|j: int| 0 <= j < i && known_event_reaches(events@[j], th));
                        }
                    }
                }
                return Err(NetworkNodeHandleError::RecvError);
            }
            let ghost pre = self.connection_state@;
            match &events[i] {
                NetworkEvent::UpdateConnectedPeers(pids) => {
                    self.connection_state.connected_peers = copy_ids(pids);
                    if pids.len() >= threshold {
                        connected_ok = true;
                    }
                },
                NetworkEvent::UpdateKnownPeers(pids) => {
                    self.connection_state.known_peers = copy_ids(pids);
                    if pids.len() >= threshold {
                        known_ok = true;
                    }
                },
                NetworkEvent::Other => {},
            }
            i += 1;
            proof {
                assert(self.connection_state@ == apply_event(pre, events@[i - 1]));
                lemma_conn_after_snoc(old(self).connection_state@, events@, i as int);
            }
        }
        proof {
            let j1 = choose|j: int| 0 <= j < i && connected_event_reaches(events@[j], th);
            let j2 = choose|j: int| 0 <= j < i && known_event_reaches(events@[j], th);
            assert(events@.take(i as int)[j1] == events@[j1]);
            assert(events@.take(i as int)[j2] == events@[j2]);
            assert(waiter_done(events@.take(i as int), th));
            assert(waiter_done(events@, th));
        }
        Ok(i)
    }
}

/// Processing one more event folds it onto the state: the state after the
/// first `i` events is the state after `i - 1` of them with event `i - 1`
/// applied.
proof fn lemma_conn_after_snoc(c: (Seq<u64>, Seq<u64>), events: Seq<NetworkEvent>, i: int)
    requires
        0 < i <= events.len(),
    ensures
        conn_after(c, events.take(i)) == apply_event(conn_after(c, events.take(i - 1)), events[i - 1]),
    decreases i,
{
    if i == 1 {
        assert(events.take(0) =~= Seq::<NetworkEvent>::empty());
        assert(conn_after(c, events.take(0)) == c);
        assert(events.take(1)[0] == events[0]);
        assert(events.take(1).skip(1) =~= Seq::<NetworkEvent>::empty());
        assert(conn_after(c, events.take(1)) == conn_after(apply_event(c, events[0]), events.take(1).skip(1)));
        assert(conn_after(apply_event(c, events[0]), Seq::<NetworkEvent>::empty()) == apply_event(c, events[0]));
    } else {
        let c1 = apply_event(c, events[0]);
        lemma_conn_after_snoc(c1, events.skip(1), i - 1);
        assert(events.take(i)[0] == events[0]);
        assert(events.take(i).skip(1) =~= events.skip(1).take(i - 1));
        assert(conn_after(c, events.take(i)) == conn_after(c1, events.skip(1).take(i - 1)));
        assert(events.take(i - 1)[0] == events[0]);
        assert(events.take(i - 1).skip(1) =~= events.skip(1).take(i - 2));
        assert(conn_after(c, events.take(i - 1)) == conn_after(c1, events.skip(1).take(i - 2)));
        assert(events.skip(1)[i - 2] == events[i - 1]);
    }
}

/// After the waiter finishes against a stream whose peer-set updates only
/// grow, the connection state it leaves behind holds at least `threshold`
/// connected peers and `threshold` known peers: the update that latched
/// each condition is dominated by every later update of its kind.
pub proof fn lemma_connectivity_threshold(c: (Seq<u64>, Seq<u64>), events: Seq<NetworkEvent>, threshold: nat)
    requires
        monotone_updates(events),
        waiter_done(events, threshold),
    ensures
        conn_after(c, events).0.len() >= threshold,
        conn_after(c, events).1.len() >= threshold,
{
    let j1 = choose|j: int| 0 <= j < events.len() && connected_event_reaches(events[j], threshold);
    let j2 = choose|j: int| 0 <= j < events.len() && known_event_reaches(events[j], threshold);
    lemma_conn_after_last_update(c, events, j1, true);
    lemma_conn_after_last_update(c, events, j2, false);
}

/// Which of the two peer lists an update of the given kind overwrites.
pub open spec fn is_update_of_kind(e: NetworkEvent, connected: bool) -> bool {
    if connected {
        is_connected_update(e)
    } else {
        is_known_update(e)
    }
}

/// If some peer-set update at index `j` reaches a size bound and later
/// updates of the same kind are at least as large, the folded state keeps
/// that bound. `connected` selects which of the two lists is meant.
proof fn lemma_conn_after_last_update(c: (Seq<u64>, Seq<u64>), events: Seq<NetworkEvent>, j: int, connected: bool)
    requires
        0 <= j < events.len(),
        monotone_updates(events),
        is_update_of_kind(events[j], connected),
    ensures
        connected ==> conn_after(c, events).0.len() >= payload_len(events[j]),
        !connected ==> conn_after(c, events).1.len() >= payload_len(events[j]),
    decreases events.len(),
{
    assert forall|k1: int, k2: int|
        0 <= k1 < k2 < events.skip(1).len() && is_connected_update(#[trigger] events.skip(1)[k1])
            && is_connected_update(#[trigger] events.skip(1)[k2])
        implies payload_len(events.skip(1)[k1]) <= payload_len(events.skip(1)[k2]) by {
        assert(events.skip(1)[k1] == events[k1 + 1]);
        assert(events.skip(1)[k2] == events[k2 + 1]);
    }
    assert forall|k1: int, k2: int|
        0 <= k1 < k2 < events.skip(1).len() && is_known_update(#[trigger] events.skip(1)[k1])
            && is_known_update(#[trigger] events.skip(1)[k2])
        implies payload_len(events.skip(1)[k1]) <= payload_len(events.skip(1)[k2]) by {
        assert(events.skip(1)[k1] == events[k1 + 1]);
        assert(events.skip(1)[k2] == events[k2 + 1]);
    }
    if j == 0 {
        assert forall|k: int|
            0 <= k < events.skip(1).len() && is_update_of_kind(#[trigger] events.skip(1)[k], connected)
            implies payload_len(events.skip(1)[k]) >= payload_len(events[0]) by {
            assert(events.skip(1)[k] == events[k + 1]);
        }
        lemma_conn_after_floor(apply_event(c, events[0]), events.skip(1), payload_len(events[0]), connected);
    } else {
        assert(events.skip(1)[j - 1] == events[j]);
        lemma_conn_after_last_update(apply_event(c, events[0]), events.skip(1), j - 1, connected);
    }
}

/// Where the waiter stops on `events`: the length of the shortest prefix
/// that satisfies it. Meaningful only when some prefix does.
pub open spec fn waiter_stop(events: Seq<NetworkEvent>, threshold: nat) -> int {
    choose|k: int|
        0 <= k <= events.len() && waiter_done(events.take(k), threshold) && (forall|j: int|
            0 <= j < k ==> !waiter_done(#[trigger] events.take(j), threshold))
}

/// The waiter's stopping point is the one index that satisfies the waiter
/// minimally.
proof fn lemma_waiter_stop_is(events: Seq<NetworkEvent>, threshold: nat, k: int)
    requires
        0 <= k <= events.len(),
        waiter_done(events.take(k), threshold),
        forall|j: int| 0 <= j < k ==> !waiter_done(#[trigger] events.take(j), threshold),
    ensures
        waiter_stop(events, threshold) == k,
{
    assert(exists|k2: int|
        0 <= k2 <= events.len() && waiter_done(events.take(k2), threshold) && (forall|j: int|
            0 <= j < k2 ==> !waiter_done(#[trigger] events.take(j), threshold)));
    let k0 = waiter_stop(events, threshold);
    if k0 < k {
        assert(!waiter_done(events.take(k0), threshold));
    } else if k0 > k {
        assert(!waiter_done(events.take(k), threshold));
    }
}

/// A prefix of a monotone event stream is itself monotone.
proof fn lemma_monotone_take(events: Seq<NetworkEvent>, k: int)
    requires
        monotone_updates(events),
        0 <= k <= events.len(),
    ensures
        monotone_updates(events.take(k)),
{
    assert forall|j1: int, j2: int|
        0 <= j1 < j2 < events.take(k).len() && is_connected_update(#[trigger] events.take(k)[j1])
            && is_connected_update(#[trigger] events.take(k)[j2])
        implies payload_len(events.take(k)[j1]) <= payload_len(events.take(k)[j2]) by {
        assert(events.take(k)[j1] == events[j1]);
        assert(events.take(k)[j2] == events[j2]);
    }
    assert forall|j1: int, j2: int|
        0 <= j1 < j2 < events.take(k).len() && is_known_update(#[trigger] events.take(k)[j1])
            && is_known_update(#[trigger] events.take(k)[j2])
        implies payload_len(events.take(k)[j1]) <= payload_len(events.take(k)[j2]) by {
        assert(events.take(k)[j1] == events[j1]);
        assert(events.take(k)[j2] == events[j2]);
    }
}

/// How many seed peers node `i` is introduced to: each bootstrap node gets
/// the bootstrap nodes created before it, and every regular node gets the
/// whole bootstrap list.
pub open spec fn seed_count(i: int, num_bootstrap: int) -> int {
    if i < num_bootstrap {
        i
    } else {
        num_bootstrap
    }
}

/// What `spin_up_swarms` promises of the `i`-th handle it returns: the
/// endpoint identity it was given, the role and peer bounds of its phase,
/// and the seed list of its creation point.
pub open spec fn swarm_handle_ok(h: NetworkNodeHandle, node_addrs: Seq<(u64, String)>, i: int, num_bootstrap: int) -> bool {
    &&& h.peer_id == node_addrs[i].0
    &&& h.listen_addr == node_addrs[i].1
    &&& h.seed_addrs@ == node_addrs.take(seed_count(i, num_bootstrap))
    &&& h.config.min_num_peers == 10
    &&& h.config.max_num_peers == 15
    &&& h.config.node_type == (if i < num_bootstrap {
        NetworkNodeType::Bootstrap
    } else {
        NetworkNodeType::Regular
    })
}

/// Copies a seed list.
fn copy_addrs(v: &Vec<(u64, String)>) -> (r: Vec<(u64, String)>)
    ensures
        r@ == v@,
{
    let mut r: Vec<(u64, String)> = Vec::new();
    let mut i: usize = 0;
    while i < v.len()
        invariant
            i <= v.len(),
            r@ == v@.take(i as int),
        decreases v.len() - i,
    {
        let entry = &v[i];
        r.push((entry.0, entry.1.clone()));
        i += 1;
        proof {
            assert(v@.take(i as int) =~= v@.take(i - 1).push(v@[i - 1]));
        }
    }
    proof {
        assert(v@.take(v@.len() as int) =~= v@);
    }
    r
}

impl NetworkNodeHandle {
    /// Spins up `num_of_nodes` nodes and waits for the mesh to form. The
    /// first `num_bootstrap` nodes are seed nodes, each introduced to the
    /// bootstrap nodes created before it; the rest are regular nodes with
    /// the fixed peer bounds, each introduced to the whole bootstrap list.
    /// Every node then runs the connectivity waiter over its own event
    /// stream, handed in per node; a node whose stream ends before the
    /// waiter is satisfied means the mesh did not converge in time, and the
    /// whole bootstrap fails with a timeout, returning no partial cluster.
    ///
    /// `node_addrs` gives each endpoint's identity and bound address, in
    /// creation order.
    pub fn spin_up_swarms(
        num_of_nodes: usize,
        num_bootstrap: usize,
        node_addrs: &Vec<(u64, String)>,
        scripts: &Vec<Vec<NetworkEvent>>,
    ) -> (r: Result<Vec<NetworkNodeHandle>, NetworkNodeHandleError>)
        requires
            num_bootstrap <= num_of_nodes,
            node_addrs@.len() == num_of_nodes,
            scripts@.len() == num_of_nodes,
            3 * num_of_nodes + 3 <= usize::MAX,
        ensures
            r.is_ok() <==> (forall|i: int|
                0 <= i < num_of_nodes ==> waiter_done(#[trigger] scripts@[i]@, spec_connect_threshold(num_of_nodes as nat))),
            r.is_err() ==> r == Err::<Vec<NetworkNodeHandle>, NetworkNodeHandleError>(NetworkNodeHandleError::TimeoutError),
            (match r {
                Ok(handles) => {
                    &&& handles@.len() == num_of_nodes
                    &&& forall|i: int|
                        0 <= i < num_of_nodes ==> swarm_handle_ok(#[trigger] handles@[i], node_addrs@, i, num_bootstrap as int)
                    &&& forall|i: int|
                        0 <= i < num_of_nodes ==> (#[trigger] handles@[i]).connection_state@ == conn_after(
                            (Seq::<u64>::empty(), Seq::<u64>::empty()),
                            scripts@[i]@.take(waiter_stop(scripts@[i]@, spec_connect_threshold(num_of_nodes as nat))),
                        )
                    &&& forall|i: int|
                        0 <= i < num_of_nodes && monotone_updates(#[trigger] scripts@[i]@) ==> {
                            &&& handles@[i].connection_state@.0.len() >= spec_connect_threshold(num_of_nodes as nat)
                            &&& handles@[i].connection_state@.1.len() >= spec_connect_threshold(num_of_nodes as nat)
                        }
                },
                Err(_) => true,
            }),
    {
        let ghost th = spec_connect_threshold(num_of_nodes as nat);
        let mut handles: Vec<NetworkNodeHandle> = Vec::new();
        let mut bootstrap_addrs: Vec<(u64, String)> = Vec::new();

        let mut i: usize = 0;
        while i < num_bootstrap
            invariant
                i <= num_bootstrap <= num_of_nodes,
                node_addrs@.len() == num_of_nodes,
                handles@.len() == i,
                bootstrap_addrs@ == node_addrs@.take(i as int),
                forall|t: int|
                    0 <= t < i ==> swarm_handle_ok(#[trigger] handles@[t], node_addrs@, t, num_bootstrap as int)
                        && handles@[t].connection_state@ == (Seq::<u64>::empty(), Seq::<u64>::empty()),
            decreases num_bootstrap - i,
        {
            let entry = &node_addrs[i];
            let seeds = copy_addrs(&bootstrap_addrs);
            let node = NetworkNodeHandle::new(entry.0, entry.1.clone(), NetworkNodeConfig::default(), seeds);
            bootstrap_addrs.push((entry.0, entry.1.clone()));
            handles.push(node);
            i += 1;
            proof {
                assert(node_addrs@.take(i as int) =~= node_addrs@.take(i - 1).push(node_addrs@[i - 1]));
            }
        }

        let regular_node_config = NetworkNodeConfig {
            node_type: NetworkNodeType::Regular,
            min_num_peers: 10,
            max_num_peers: 15,
        };

        let mut j: usize = 0;
        while j < num_of_nodes - num_bootstrap
            invariant
                num_bootstrap <= num_of_nodes,
                j <= num_of_nodes - num_bootstrap,
                node_addrs@.len() == num_of_nodes,
                handles@.len() == num_bootstrap + j,
                bootstrap_addrs@ == node_addrs@.take(num_bootstrap as int),
                regular_node_config == (NetworkNodeConfig {
                    node_type: NetworkNodeType::Regular,
                    min_num_peers: 10usize,
                    max_num_peers: 15usize,
                }),
                forall|t: int|
                    0 <= t < num_bootstrap + j ==> swarm_handle_ok(#[trigger] handles@[t], node_addrs@, t, num_bootstrap as int)
                        && handles@[t].connection_state@ == (Seq::<u64>::empty(), Seq::<u64>::empty()),
            decreases num_of_nodes - num_bootstrap - j,
        {
            let entry = &node_addrs[num_bootstrap + j];
            let seeds = copy_addrs(&bootstrap_addrs);
            let node = NetworkNodeHandle::new(entry.0, entry.1.clone(), regular_node_config, seeds);
            handles.push(node);
            j += 1;
        }

        let ghost built = handles@;
        let mut meshed: Vec<NetworkNodeHandle> = Vec::new();
        let mut n: usize = 0;
        while n < num_of_nodes
            invariant
                n <= num_of_nodes,
                scripts@.len() == num_of_nodes,
                3 * num_of_nodes + 3 <= usize::MAX,
                th == spec_connect_threshold(num_of_nodes as nat),
                built.len() == num_of_nodes,
                handles@ == built.skip(n as int),
                meshed@.len() == n,
                forall|t: int|
                    0 <= t < built.len() ==> swarm_handle_ok(#[trigger] built[t], node_addrs@, t, num_bootstrap as int)
                        && built[t].connection_state@ == (Seq::<u64>::empty(), Seq::<u64>::empty()),
                forall|t: int| 0 <= t < n ==> waiter_done(#[trigger] scripts@[t]@, th),
                forall|t: int|
                    0 <= t < n ==> swarm_handle_ok(#[trigger] meshed@[t], node_addrs@, t, num_bootstrap as int),
                forall|t: int|
                    0 <= t < n ==> (#[trigger] meshed@[t]).connection_state@ == conn_after(
                        (Seq::<u64>::empty(), Seq::<u64>::empty()),
                        scripts@[t]@.take(waiter_stop(scripts@[t]@, th)),
                    ),
                forall|t: int|
                    0 <= t < n && monotone_updates(#[trigger] scripts@[t]@) ==> {
                        &&& meshed@[t].connection_state@.0.len() >= th
                        &&& meshed@[t].connection_state@.1.len() >= th
                    },
            decreases num_of_nodes - n,
        {
            let mut node = handles.remove(0);
            proof {
                assert(built.skip(n as int)[0] == built[n as int]);
                assert(built.skip(n as int).remove(0) =~= built.skip(n + 1));
            }
            let res = node.wait_to_connect(num_of_nodes, &scripts[n]);
            match res {
                Ok(k) => {
                    proof {
                        lemma_waiter_stop_is(scripts@[n as int]@, th, k as int);
                        if monotone_updates(scripts@[n as int]@) {
                            lemma_monotone_take(scripts@[n as int]@, k as int);
                            lemma_connectivity_threshold(
                                (Seq::<u64>::empty(), Seq::<u64>::empty()),
                                scripts@[n as int]@.take(k as int),
                                th,
                            );
                        }
                    }
                    meshed.push(node);
                    n += 1;
                },
                Err(_) => {
                    return Err(NetworkNodeHandleError::TimeoutError);
                },
            }
        }
        Ok(meshed)
    }
}

/// One arrival at the event-handler loop: either the kill switch fired, or
/// the node's event stream delivered an event.
#[derive(Debug, Clone)]
pub enum HandlerInput {
    /// The kill switch fired: the loop exits.
    KillSignal,
    /// The event stream delivered an event for the handler.
    Event(NetworkEvent),
}

/// What the event-handler loop calls on each event. Implementations are
/// supplied by the harness's caller; nothing is assumed of them, and a
/// failure ends the loop.
pub trait NetworkEventHandler: Sized {
    /// Handles one event from the node's stream; the handle is the node
    /// the event belongs to.
    fn handle_event(&mut self, event: &NetworkEvent, handle: &mut NetworkNodeHandle) -> Result<(), NetworkNodeHandleError>;
}

/// The body of the glue task that listens for a node's events: arrivals
/// are taken in order, each event is handed to `handler` and its
/// completion awaited before the next arrival is taken, and no event is
/// dropped on the successful path. The loop ends cleanly only on a kill
/// signal; a handler failure propagates out, and an exhausted stream
/// means the channel closed, reported as a receive error.
pub fn run_handler<E: NetworkEventHandler>(
    inputs: &Vec<HandlerInput>,
    handler: &mut E,
    handle: &mut NetworkNodeHandle,
) -> (r: Result<(), NetworkNodeHandleError>)
    ensures
        inputs@.len() > 0 && inputs@[0] is KillSignal ==> r.is_ok(),
        (forall|k: int| 0 <= k < inputs@.len() ==> !((#[trigger] inputs@[k]) is KillSignal)) ==> r.is_err(),
        r.is_ok() ==> exists|k: int|
            0 <= k < inputs@.len() && (#[trigger] inputs@[k]) is KillSignal && (forall|j: int|
                0 <= j < k ==> (#[trigger] inputs@[j]) is Event),
{
    let mut i: usize = 0;
    while i < inputs.len()
        invariant
            i <= inputs@.len(),
            forall|j: int| 0 <= j < i ==> (#[trigger] inputs@[j]) is Event,
        decreases inputs@.len() - i,
    {
        match &inputs[i] {
            HandlerInput::KillSignal => {
                proof {
                    assert(inputs@[i as int] is KillSignal);
                }
                return Ok(());
            },
            HandlerInput::Event(event) => {
                match handler.handle_event(event, handle) {
                    Ok(()) => {},
                    Err(e) => {
                        proof {
                            assert(inputs@[i as int] is Event);
                        }
                        return Err(e);
                    },
                }
            },
        }
        i += 1;
    }
    Err(NetworkNodeHandleError::RecvError)
}

/// Given a non-empty list of handles, picks one uniformly at random.
pub fn get_random_handle(handles: &Vec<NetworkNodeHandle>) -> (r: &NetworkNodeHandle)
    requires
        handles@.len() > 0,
    ensures
        exists|i: int| 0 <= i < handles@.len() && *r == handles@[i],
{
    let i = crate::sampling::random_below(handles.len());
    &handles[i]
}

/// If every update of the selected kind in `events` carries at least
/// `floor` peers, and the starting state already holds at least `floor`
/// in the selected list, the folded state keeps that floor.
proof fn lemma_conn_after_floor(c: (Seq<u64>, Seq<u64>), events: Seq<NetworkEvent>, floor: nat, connected: bool)
    requires
        connected ==> c.0.len() >= floor,
        !connected ==> c.1.len() >= floor,
        forall|k: int|
            0 <= k < events.len() && is_update_of_kind(#[trigger] events[k], connected)
                ==> payload_len(events[k]) >= floor,
    ensures
        connected ==> conn_after(c, events).0.len() >= floor,
        !connected ==> conn_after(c, events).1.len() >= floor,
    decreases events.len(),
{
    if events.len() > 0 {
        assert forall|k: int|
            0 <= k < events.skip(1).len() && is_update_of_kind(#[trigger] events.skip(1)[k], connected)
            implies payload_len(events.skip(1)[k]) >= floor by {
            assert(events.skip(1)[k] == events[k + 1]);
        }
        lemma_conn_after_floor(apply_event(c, events[0]), events.skip(1), floor, connected);
    }
}

} // verus!
