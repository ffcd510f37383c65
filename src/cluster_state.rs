//! Soft leader election. Each node tracks the last announced leader and when
//! it last heard an announcement; a claim not refreshed within the staleness
//! window expires and any node may claim leadership again.
use crate::names::push_char;
use rand::Rng;
use vstd::prelude::*;

verus! {

/// How long a leadership claim stays valid without a refresh, in milliseconds.
pub const STALENESS_MS: u64 = 60_000;

/// Length of a session identity.
pub const SID_LEN: usize = 30;

pub open spec fn is_alphanumeric_byte(b: u8) -> bool {
    (65 <= b <= 90) || (97 <= b <= 122) || (48 <= b <= 57)
}

/// Relies on rand 0.8's `Alphanumeric` distribution sampled from the thread
/// generator: each byte is drawn from `A-Z`, `a-z` and `0-9`, and `take`
/// stops the endless sample stream after `n` of them.
#[verifier::external_body]
fn random_alphanumeric(n: usize) -> (r: Vec<u8>)
    ensures
        r@.len() == n,
        forall|i: int| 0 <= i < r@.len() ==> is_alphanumeric_byte(#[trigger] r@[i]),
{
    rand::thread_rng().sample_iter(&rand::distributions::Alphanumeric).take(n).collect()
}

pub open spec fn is_alphanumeric_char(c: char) -> bool {
    ('A' <= c <= 'Z') || ('a' <= c <= 'z') || ('0' <= c <= '9')
}

/// The election state of one node, as a mathematical value.
pub ghost struct ElectionModel {
    pub node_name: Seq<char>,
    pub sid: Seq<char>,
    pub leader: Option<Seq<char>>,
    /// When the last announcement was observed, in milliseconds.
    pub last_seen: int,
}

impl ElectionModel {
    pub open spec fn is_leader(self) -> bool {
        self.leader == Some(self.sid)
    }

    /// Milliseconds since the last announcement; a clock that went back counts as none.
    pub open spec fn elapsed(self, now: int) -> int {
        if now >= self.last_seen {
            now - self.last_seen
        } else {
            0
        }
    }

    /// No leader is known, or the last claim has gone stale.
    pub open spec fn leader_needed(self, now: int) -> bool {
        self.leader is None || self.elapsed(now) > STALENESS_MS
    }

    /// An announcement of `id` observed at `now`.
    pub open spec fn observe(self, id: Seq<char>, now: int) -> ElectionModel {
        ElectionModel { leader: Some(id), last_seen: now, ..self }
    }

    /// Whether the heartbeat at `now` announces this node's identity.
    pub open spec fn announces(self, now: int) -> bool {
        self.is_leader() || self.leader_needed(now)
    }
}

/// What the heartbeat asks the transport to do.
#[derive(Clone, Copy, Debug, PartialEq, Eq, Structural)]
pub enum LeaderAction {
    /// Publish a retained announcement of this node's session identity.
    Announce,
    /// Nothing to publish.
    Idle,
}

/// The fields of a node's election state.
#[derive(Debug, Clone)]
pub struct ClusterStateData {
    pub node_name: String,
    pub sid: String,
    pub current_leader: Option<String>,
    /// When the last announcement was observed, in milliseconds.
    pub last_timestamp: u64,
}

/// Leader election state of this node.
#[derive(Debug)]
pub struct ClusterState {
    data: ClusterStateData,
}

impl View for ClusterState {
    type V = ElectionModel;

    closed spec fn view(&self) -> ElectionModel {
        ElectionModel {
            node_name: self.data.node_name@,
            sid: self.data.sid@,
            leader: match self.data.current_leader {
                Some(l) => Some(l@),
                None => None,
            },
            last_seen: self.data.last_timestamp as int,
        }
    }
}

impl ClusterState {
    /// A node that knows no leader yet, with the given session identity.
    pub fn with_sid(node_name: String, sid: String, now: u64) -> (r: Self)
        ensures
            r@ == (ElectionModel {
                node_name: node_name@,
                sid: sid@,
                leader: None,
                last_seen: now as int,
            }),
    {
        ClusterState {
            data: ClusterStateData { node_name, sid, current_leader: None, last_timestamp: now },
        }
    }

    /// A node that knows no leader yet, with a fresh random session identity
    /// of thirty letters and digits.
    pub fn new(node_name: String, now: u64) -> (r: Self)
        ensures
            r@.node_name == node_name@,
            r@.leader is None,
            r@.last_seen == now,
            r@.sid.len() == SID_LEN,
            forall|i: int| 0 <= i < r@.sid.len() ==> is_alphanumeric_char(#[trigger] r@.sid[i]),
    {
        let bytes = random_alphanumeric(SID_LEN);
        let mut sid = String::new();
        let mut i: usize = 0;
        while i < bytes.len()
            invariant
                i <= bytes@.len(),
                bytes@.len() == SID_LEN,
                forall|k: int| 0 <= k < bytes@.len() ==> is_alphanumeric_byte(#[trigger] bytes@[k]),
                sid@.len() == i,
                forall|k: int| 0 <= k < i ==> is_alphanumeric_char(#[trigger] sid@[k]),
            decreases bytes@.len() - i,
        {
            let b = bytes[i];
            let c = b as char;
            assert(is_alphanumeric_byte(bytes@[i as int]));
            push_char(&mut sid, c);
            i = i + 1;
        }
        Self::with_sid(node_name, sid, now)
    }

    /// True iff the known leader is this node's own session.
    pub fn is_leader(&self) -> (r: bool)
        ensures
            r == self@.is_leader(),
    {
        match &self.data.current_leader {
            Some(cl) => *cl == self.data.sid,
            None => false,
        }
    }

    /// Records an announcement of `leader` observed at `now`.
    pub fn set_leader(&mut self, leader: String, now: u64)
        ensures
            final(self)@ == old(self)@.observe(leader@, now as int),
    {
        self.data.current_leader = Some(leader);
        self.data.last_timestamp = now;
    }

    /// True if no leader is known, or none was heard of for more than the
    /// staleness window.
    pub fn leader_needed(&self, now: u64) -> (r: bool)
        ensures
            r == self@.leader_needed(now as int),
    {
        let elapsed = if now >= self.data.last_timestamp {
            now - self.data.last_timestamp
        } else {
            0
        };
        self.data.current_leader.is_none() || elapsed > STALENESS_MS
    }

    pub fn get_leader(&self) -> (r: Option<String>)
        ensures
            match r {
                Some(l) => self@.leader == Some(l@),
                None => self@.leader is None,
            },
    {
        match &self.data.current_leader {
            Some(l) => Some(l.clone()),
            None => None,
        }
    }

    pub fn get_sid(&self) -> (r: String)
        ensures
            r@ == self@.sid,
    {
        self.data.sid.clone()
    }

    /// The heartbeat decision: a leader re-announces to keep its claim alive,
    /// a node that sees no live leader announces to claim it, others wait.
    pub fn heartbeat(&self, now: u64) -> (r: LeaderAction)
        ensures
            r == (if self@.announces(now as int) {
                LeaderAction::Announce
            } else {
                LeaderAction::Idle
            }),
    {
        if self.is_leader() {
            LeaderAction::Announce
        } else if self.leader_needed(now) {
            LeaderAction::Announce
        } else {
            LeaderAction::Idle
        }
    }
}

/// A node needs a leader from the start; right after an announcement it no
/// longer does, for the whole staleness window; once more than the window has
/// passed without one, it needs a leader again.
pub proof fn lemma_leader_needed_lifecycle(
    node_name: Seq<char>,
    sid: Seq<char>,
    start: int,
    id: Seq<char>,
    t: int,
    later: int,
)
    requires
        t <= later,
    ensures
        (ElectionModel { node_name, sid, leader: None, last_seen: start }).leader_needed(later),
        forall|m: ElectionModel|
            #![trigger m.observe(id, t)]
            later - t <= STALENESS_MS ==> !m.observe(id, t).leader_needed(later),
        forall|m: ElectionModel|
            #![trigger m.observe(id, t)]
            later - t > STALENESS_MS ==> m.observe(id, t).leader_needed(later),
{
}

/// Two nodes with distinct identities race to claim leadership and the bus
/// delivers both announcements to both nodes in the same order. Afterwards
/// exactly one node is leader, the one whose claim came last; at the next
/// heartbeat within the window only that node announces, and once its
/// announcement is delivered the same single node is still leader.
pub proof fn lemma_race_settles(
    a: ElectionModel,
    b: ElectionModel,
    first: Seq<char>,
    second: Seq<char>,
    t1: int,
    t2: int,
    t3: int,
)
    requires
        a.sid != b.sid,
        (first == a.sid && second == b.sid) || (first == b.sid && second == a.sid),
        t1 <= t2 <= t3,
        t3 - t2 <= STALENESS_MS,
    ensures
        ({
            let a2 = a.observe(first, t1).observe(second, t2);
            let b2 = b.observe(first, t1).observe(second, t2);
            &&& a2.is_leader() != b2.is_leader()
            &&& a2.is_leader() <==> second == a.sid
            &&& a2.announces(t3) == a2.is_leader()
            &&& b2.announces(t3) == b2.is_leader()
            &&& a2.observe(second, t3).is_leader() == a2.is_leader()
            &&& b2.observe(second, t3).is_leader() == b2.is_leader()
        }),
{
}

/// One heartbeat round of two nodes at `t`: both decide on their state
/// before the round, then the bus delivers each announcement made to both
/// nodes, `a`'s first when `a_first` holds, else `b`'s first.
pub open spec fn round(a: ElectionModel, b: ElectionModel, t: int, a_first: bool) -> (
    ElectionModel,
    ElectionModel,
) {
    let sa = a.announces(t);
    let sb = b.announces(t);
    let (id1, say1, id2, say2) = if a_first {
        (a.sid, sa, b.sid, sb)
    } else {
        (b.sid, sb, a.sid, sa)
    };
    let (a1, b1) = if say1 {
        (a.observe(id1, t), b.observe(id1, t))
    } else {
        (a, b)
    };
    if say2 {
        (a1.observe(id2, t), b1.observe(id2, t))
    } else {
        (a1, b1)
    }
}

/// Two nodes after heartbeat rounds at times `ts`, delivered in the orders `order`.
pub open spec fn run(a: ElectionModel, b: ElectionModel, ts: Seq<int>, order: Seq<bool>) -> (
    ElectionModel,
    ElectionModel,
)
    decreases ts.len(),
{
    if ts.len() == 0 || order.len() != ts.len() {
        (a, b)
    } else {
        let (a0, b0) = run(a, b, ts.drop_last(), order.drop_last());
        round(a0, b0, ts.last(), order.last())
    }
}

/// Both nodes follow the same leader, one of the two, heard at `t`.
pub open spec fn settled(a: ElectionModel, b: ElectionModel, t: int) -> bool {
    &&& a.leader is Some
    &&& a.leader == b.leader
    &&& (a.leader == Some(a.sid) || a.leader == Some(b.sid))
    &&& a.last_seen == t
    &&& b.last_seen == t
}

/// Two nodes with distinct identities start with no leader and run
/// heartbeat rounds no more than a staleness window apart, every
/// announcement reaching both in the same order. From the first round on
/// exactly one of them is leader, both name it as leader, and it stays so
/// for every later round.
pub proof fn lemma_two_nodes_settle(
    a: ElectionModel,
    b: ElectionModel,
    ts: Seq<int>,
    order: Seq<bool>,
)
    requires
        a.sid != b.sid,
        a.leader is None,
        b.leader is None,
        ts.len() >= 1,
        order.len() == ts.len(),
        forall|i: int| 0 < i < ts.len() ==> ts[i - 1] <= #[trigger] ts[i] <= ts[i - 1] + STALENESS_MS,
    ensures
        ({
            let (a2, b2) = run(a, b, ts, order);
            &&& settled(a2, b2, ts.last())
            &&& a2.is_leader() != b2.is_leader()
            &&& a2.sid == a.sid && b2.sid == b.sid
        }),
    decreases ts.len(),
{
    let pts = ts.drop_last();
    let por = order.drop_last();
    if ts.len() > 1 {
        assert forall|i: int| 0 < i < pts.len() implies pts[i - 1] <= #[trigger] pts[i] <= pts[i - 1]
            + STALENESS_MS by {
            assert(pts[i] == ts[i] && pts[i - 1] == ts[i - 1]);
            assert(ts[i - 1] <= ts[i] <= ts[i - 1] + STALENESS_MS);
        }
        lemma_two_nodes_settle(a, b, pts, por);
        let (a0, b0) = run(a, b, pts, por);
        let t = ts.last();
        assert(pts.last() == ts[ts.len() - 2]);
        assert(ts[ts.len() - 2] <= ts[ts.len() - 1] <= ts[ts.len() - 2] + STALENESS_MS);
        assert(run(a, b, ts, order) == round(a0, b0, t, order.last()));
    } else {
        assert(run(a, b, pts, por) == (a, b));
        assert(run(a, b, ts, order) == round(a, b, ts.last(), order.last()));
    }
}

} // verus!
