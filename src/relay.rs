//! The shared state of the relay and the decisions of its two loops.
//!
//! The ingress loop hands each decoded datagram to `GameState::handle_message`
//! and sends the reply it gets back, if any. The flush loop calls
//! `GameState::flush` on every tick and sends each datagram it gets back.
//!
//! Choices where the protocol leaves room:
//! - The queue's capacity is a hard ceiling: the check and the insertion are
//!   one step, so the queue never holds more than `capacity` messages.
//! - A flush hands messages out in the order in which they were queued, and
//!   for each message the recipients in the order in which they registered.
//! - Session ids are issued from 0 upwards and registered players are never
//!   removed, so the player with id `i` is the registry's `i`-th entry.
use vstd::prelude::*;
use crate::protocol::{BellMessage, Point, RegistrationReply};

verus! {

/// A client's network address: an IP address and a UDP port.
#[derive(Clone, Copy, Debug, PartialEq, Eq, Structural)]
pub enum PeerAddr {
    V4 { ipv4: u32, port: u16 },
    V6 { ipv6: u128, port: u16, flowinfo: u32, scope_id: u32 },
}

/// One entry of the player registry: a session, where it is reached, and its
/// last known position.
#[derive(Clone, Copy, Debug, PartialEq, Eq, Structural)]
pub struct PlayerRecord {
    pub id: u32,
    pub addr: PeerAddr,
    pub x: u32,
    pub y: u32,
}

/// One datagram of a flush: a message for one registered player.
#[derive(Clone, Copy, Debug, PartialEq, Eq, Structural)]
pub struct Outbound {
    /// The session id of the recipient.
    pub to: u32,
    pub addr: PeerAddr,
    pub message: BellMessage,
}

/// The number of distinct session ids.
pub open spec fn id_space() -> nat {
    0x1_0000_0000
}

/// The relay's state as a mathematical value.
pub struct RelayState {
    pub capacity: nat,
    /// Pending messages, oldest first.
    pub queue: Seq<BellMessage>,
    /// The registry, in order of registration.
    pub players: Seq<PlayerRecord>,
}

/// The decision taken on a datagram, as a mathematical value: the view of
/// `IngressAction`.
pub enum IngressOutcome {
    /// Send this reply to the sender: the assigned id and the other players.
    Reply(u32, Seq<Point>),
    /// The message waits for the next flush.
    Queued,
    /// The queue was full; the message is lost.
    Dropped,
    /// Every session id has been issued; the registration is refused.
    Refused,
}

impl RelayState {
    /// The queue respects its capacity, and the registry holds the sessions
    /// `0 .. n` in order of their ids.
    pub open spec fn wf(self) -> bool {
        &&& self.queue.len() <= self.capacity
        &&& self.players.len() <= id_space()
        &&& forall|i: int| 0 <= i < self.players.len() ==> self.players[i].id == i
    }
}

/// The point that a registry entry reports.
pub open spec fn point_of(r: PlayerRecord) -> Point {
    Point { x: r.x, y: r.y, id: r.id }
}

/// The registry entries of every player but `id`, in registry order.
pub open spec fn others(players: Seq<PlayerRecord>, id: u32) -> Seq<PlayerRecord>
    decreases players.len(),
{
    if players.len() == 0 {
        Seq::empty()
    } else {
        let rest = others(players.drop_last(), id);
        if players.last().id != id {
            rest.push(players.last())
        } else {
            rest
        }
    }
}

/// The addresses that a message about session `id` goes to: every player
/// but `id` when `id` is registered, nobody when it is not.
pub open spec fn audience(players: Seq<PlayerRecord>, id: u32) -> Seq<PeerAddr> {
    if id < players.len() {
        others(players, id).map_values(|r: PlayerRecord| r.addr)
    } else {
        Seq::empty()
    }
}

/// The last known positions of every player but `id`.
pub open spec fn snapshot(players: Seq<PlayerRecord>, id: u32) -> Seq<Point> {
    others(players, id).map_values(|r: PlayerRecord| point_of(r))
}

/// The queue after an attempt to add `m`: unchanged when full.
pub open spec fn enqueue(queue: Seq<BellMessage>, capacity: nat, m: BellMessage) -> Seq<BellMessage> {
    if queue.len() < capacity {
        queue.push(m)
    } else {
        queue
    }
}

/// Sets the last known position of player `id`, if registered.
pub open spec fn moved(players: Seq<PlayerRecord>, id: u32, x: u32, y: u32) -> Seq<PlayerRecord> {
    if id < players.len() {
        players.update(id as int, PlayerRecord { x, y, ..players[id as int] })
    } else {
        players
    }
}

/// What the relay does with one decoded datagram from `from`.
///
/// A registration takes the next session id, enters the player with the
/// reported position, queues a notice for the other players if there is room,
/// and is answered with the id and the other players' positions. Any other
/// message is queued if there is room, else dropped; a queued position change
/// of a registered player also becomes that player's last known position.
pub open spec fn ingress_step(s: RelayState, m: BellMessage, from: PeerAddr) -> (RelayState, IngressOutcome) {
    match m {
        BellMessage::PlayerRegistrationMessage(p) => {
            if s.players.len() < id_space() {
                let id = s.players.len() as u32;
                let players = s.players.push(PlayerRecord { id, addr: from, x: p.x, y: p.y });
                let notice = BellMessage::PlayerRegistrationMessage(Point { x: p.x, y: p.y, id });
                (
                    RelayState { queue: enqueue(s.queue, s.capacity, notice), players, ..s },
                    IngressOutcome::Reply(id, snapshot(players, id)),
                )
            } else {
                (s, IngressOutcome::Refused)
            }
        },
        _ => {
            if s.queue.len() < s.capacity {
                let players = match m {
                    BellMessage::PositionChangeMessage(p) => moved(s.players, p.id, p.x, p.y),
                    _ => s.players,
                };
                (RelayState { queue: s.queue.push(m), players, ..s }, IngressOutcome::Queued)
            } else {
                (s, IngressOutcome::Dropped)
            }
        },
    }
}

/// The subject of a queued message and what is relayed for it: a position
/// change as it is, a registration as the insertion of a new player, an
/// insertion as it is. A deferred message has no subject.
pub open spec fn relayed(m: BellMessage) -> Option<(u32, BellMessage)> {
    match m {
        BellMessage::PositionChangeMessage(p) => Some((p.id, BellMessage::PositionChangeMessage(p))),
        BellMessage::PlayerRegistrationMessage(p) => Some((p.id, BellMessage::PlayerInsertionMessage(p))),
        BellMessage::PlayerInsertionMessage(p) => Some((p.id, BellMessage::PlayerInsertionMessage(p))),
        BellMessage::DeferMessage => None,
    }
}

/// The datagrams for one queued message: one to every registered player but
/// its subject. A message whose subject is not registered goes to nobody.
pub open spec fn deliveries(m: BellMessage, players: Seq<PlayerRecord>) -> Seq<Outbound> {
    match relayed(m) {
        Some((subject, out)) => if subject < players.len() {
            others(players, subject).map_values(
                |r: PlayerRecord| Outbound { to: r.id, addr: r.addr, message: out },
            )
        } else {
            Seq::empty()
        },
        None => Seq::empty(),
    }
}

/// The datagrams of a flush of `queue`, message after message.
pub open spec fn fan_out(queue: Seq<BellMessage>, players: Seq<PlayerRecord>) -> Seq<Outbound>
    decreases queue.len(),
{
    if queue.len() == 0 {
        Seq::empty()
    } else {
        fan_out(queue.drop_last(), players) + deliveries(queue.last(), players)
    }
}

/// The registry after `insert_player(r)`: an issued id has its entry
/// overwritten, the next id is appended.
pub open spec fn placed(players: Seq<PlayerRecord>, r: PlayerRecord) -> Seq<PlayerRecord> {
    if r.id < players.len() {
        players.update(r.id as int, r)
    } else {
        players.push(r)
    }
}

/// One more entry of the registry adds itself to `others` unless it is `id`.
proof fn lemma_others_step(players: Seq<PlayerRecord>, id: u32, i: int)
    requires
        0 <= i < players.len(),
    ensures
        others(players.subrange(0, i + 1), id) == (if players[i].id != id {
            others(players.subrange(0, i), id).push(players[i])
        } else {
            others(players.subrange(0, i), id)
        }),
{
    assert(players.subrange(0, i + 1).drop_last() =~= players.subrange(0, i));
}

/// What the ingress loop is to do after a datagram.
#[derive(Clone, Debug)]
pub enum IngressAction {
    /// Send this reply to the sender.
    Reply(RegistrationReply),
    /// The message waits for the next flush.
    Queued,
    /// The queue was full; the message is lost.
    Dropped,
    /// Every session id has been issued; the registration is refused.
    Refused,
}

impl View for IngressAction {
    type V = IngressOutcome;

    open spec fn view(&self) -> IngressOutcome {
        match self {
            IngressAction::Reply(r) => IngressOutcome::Reply(r.assigned_id, r.known_peers@),
            IngressAction::Queued => IngressOutcome::Queued,
            IngressAction::Dropped => IngressOutcome::Dropped,
            IngressAction::Refused => IngressOutcome::Refused,
        }
    }
}

/// The shared state of the relay: the bounded queue of pending messages and
/// the player registry, from which session ids are issued.
pub struct GameState {
    capacity: usize,
    process_queue: Vec<BellMessage>,
    players: Vec<PlayerRecord>,
}

impl View for GameState {
    type V = RelayState;

    closed spec fn view(&self) -> RelayState {
        RelayState {
            capacity: self.capacity as nat,
            queue: self.process_queue@,
            players: self.players@,
        }
    }
}

impl GameState {
    pub open spec fn wf(&self) -> bool {
        self@.wf()
    }

    /// An empty relay whose queue holds at most `capacity` messages.
    pub fn new_with_capacity(capacity: usize) -> (r: Self)
        ensures
            r.wf(),
            r@ == (RelayState { capacity: capacity as nat, queue: Seq::empty(), players: Seq::empty() }),
    {
        GameState {
            capacity,
            process_queue: Vec::with_capacity(capacity),
            players: Vec::new(),
        }
    }

    /// Whether the queue has no room left.
    pub fn is_full(&self) -> (r: bool)
        ensures
            r == (self@.queue.len() >= self@.capacity),
    {
        self.process_queue.len() >= self.capacity
    }

    /// Whether no message is pending.
    pub fn is_empty(&self) -> (r: bool)
        ensures
            r == (self@.queue.len() == 0),
    {
        self.process_queue.len() == 0
    }

    /// Queues a message if there is room and tells whether it did; a message
    /// that finds the queue full is lost.
    pub fn queue_message(&mut self, message: BellMessage) -> (r: bool)
        requires
            old(self).wf(),
        ensures
            final(self).wf(),
            r == (old(self)@.queue.len() < old(self)@.capacity),
            final(self)@ == (RelayState { queue: enqueue(old(self)@.queue, old(self)@.capacity, message), ..old(self)@ }),
    {
        if self.process_queue.len() < self.capacity {
            self.process_queue.push(message);
            true
        } else {
            false
        }
    }

    /// Empties the queue and returns what it held, oldest first.
    pub fn retrieve_messages(&mut self) -> (r: Vec<BellMessage>)
        requires
            old(self).wf(),
        ensures
            final(self).wf(),
            r@ == old(self)@.queue,
            final(self)@ == (RelayState { queue: Seq::empty(), ..old(self)@ }),
    {
        let r = self.process_queue.split_off(0);
        assert(self.process_queue@ =~= Seq::<BellMessage>::empty());
        assert(r@ =~= old(self)@.queue);
        r
    }

    /// Pairs of players whose sprites overlap. The relay simulates no
    /// collisions, so there are none.
    pub fn get_collided_pairs(&self) -> (r: Vec<(u32, u32)>)
        ensures
            r@ == Seq::<(u32, u32)>::empty(),
    {
        Vec::new()
    }

    /// The address of player `id`, or `None` if no such player registered.
    pub fn get_addr_from_id(&self, id: u32) -> (r: Option<PeerAddr>)
        requires
            self.wf(),
        ensures
            r == (if id < self@.players.len() { Some(self@.players[id as int].addr) } else { None::<PeerAddr> }),
    {
        if (id as usize) < self.players.len() {
            Some(self.players[id as usize].addr)
        } else {
            None
        }
    }

    /// The audience of session `id`: the addresses of every registered
    /// player but `id`, in registry order, or none if `id` is not registered.
    pub fn get_addrs_for_id(&self, id: u32) -> (r: Vec<PeerAddr>)
        ensures
            r@ == audience(self@.players, id),
    {
        let mut res: Vec<PeerAddr> = Vec::new();
        if (id as usize) >= self.players.len() {
            return res;
        }
        let mut i: usize = 0;
        while i < self.players.len()
            invariant
                i <= self.players@.len(),
                res@ == others(self.players@.subrange(0, i as int), id).map_values(|r: PlayerRecord| r.addr),
            decreases self.players@.len() - i,
        {
            let rec = self.players[i];
            proof {
                lemma_others_step(self.players@, id, i as int);
            }
            if rec.id != id {
                res.push(rec.addr);
            }
            assert(res@ =~= others(self.players@.subrange(0, i + 1), id).map_values(|r: PlayerRecord| r.addr));
            i += 1;
        }
        assert(self.players@.subrange(0, self.players@.len() as int) =~= self.players@);
        res
    }

    /// The last known positions of every registered player but `id`, in
    /// registry order: what a newly registered player is told.
    pub fn get_points_for_id(&self, id: u32) -> (r: Vec<Point>)
        ensures
            r@ == snapshot(self@.players, id),
    {
        let mut res: Vec<Point> = Vec::new();
        let mut i: usize = 0;
        while i < self.players.len()
            invariant
                i <= self.players@.len(),
                res@ == others(self.players@.subrange(0, i as int), id).map_values(|r: PlayerRecord| point_of(r)),
            decreases self.players@.len() - i,
        {
            let rec = self.players[i];
            proof {
                lemma_others_step(self.players@, id, i as int);
            }
            if rec.id != id {
                res.push(Point { x: rec.x, y: rec.y, id: rec.id });
            }
            assert(res@ =~= others(self.players@.subrange(0, i + 1), id).map_values(|r: PlayerRecord| point_of(r)));
            i += 1;
        }
        assert(self.players@.subrange(0, self.players@.len() as int) =~= self.players@);
        res
    }

    /// The id allocator: the session id that the next registration gets, or
    /// `None` once every id has been issued. Ids are issued from 0 upwards and
    /// never taken back, so this is the number of registered players.
    pub fn next_session_id(&self) -> (r: Option<u32>)
        requires
            self.wf(),
        ensures
            r == (if self@.players.len() < id_space() { Some(self@.players.len() as u32) } else { None::<u32> }),
    {
        if self.players.len() as u64 > 0xFFFF_FFFFu64 {
            None
        } else {
            Some(self.players.len() as u32)
        }
    }

    /// Enters or updates player `id` with its address and position. The id
    /// must have been issued already, or be the next one to issue.
    pub fn insert_player(&mut self, id: u32, x: u32, y: u32, addr: PeerAddr)
        requires
            old(self).wf(),
            id <= old(self)@.players.len(),
        ensures
            final(self).wf(),
            final(self)@ == (RelayState { players: placed(old(self)@.players, PlayerRecord { id, addr, x, y }), ..old(self)@ }),
    {
        let rec = PlayerRecord { id, addr, x, y };
        if (id as usize) < self.players.len() {
            self.players[id as usize] = rec;
        } else {
            self.players.push(rec);
        }
    }

    /// Sets the last known position of player `id`, if registered.
    fn move_player(&mut self, id: u32, x: u32, y: u32)
        requires
            old(self).wf(),
        ensures
            final(self).wf(),
            final(self)@ == (RelayState { players: moved(old(self)@.players, id, x, y), ..old(self)@ }),
    {
        if (id as usize) < self.players.len() {
            let rec = self.players[id as usize];
            self.players[id as usize] = PlayerRecord { id: rec.id, addr: rec.addr, x, y };
        }
    }

    /// The ingress loop's handling of one decoded datagram from `from`.
    ///
    /// A registration is given the next session id, entered in the registry
    /// with its position and address, and answered with the id and every
    /// other player's last known position; a notice of it is queued for the
    /// other players if there is room. Once every id has been issued a
    /// registration is refused. Any other message is queued if there is room
    /// and dropped if not; a queued position change also records the
    /// player's position.
    pub fn handle_message(&mut self, message: BellMessage, from: PeerAddr) -> (r: IngressAction)
        requires
            old(self).wf(),
        ensures
            final(self).wf(),
            final(self)@ == ingress_step(old(self)@, message, from).0,
            r@ == ingress_step(old(self)@, message, from).1,
    {
        match message {
            BellMessage::PlayerRegistrationMessage(p) => {
                let id = match self.next_session_id() {
                    Some(id) => id,
                    None => {
                        return IngressAction::Refused;
                    },
                };
                self.insert_player(id, p.x, p.y, from);
                let known_peers = self.get_points_for_id(id);
                let notice = BellMessage::PlayerRegistrationMessage(Point { x: p.x, y: p.y, id });
                let _ = self.queue_message(notice);
                IngressAction::Reply(RegistrationReply { assigned_id: id, known_peers })
            },
            _ => {
                if self.queue_message(message) {
                    if let BellMessage::PositionChangeMessage(p) = message {
                        self.move_player(p.id, p.x, p.y);
                    }
                    IngressAction::Queued
                } else {
                    IngressAction::Dropped
                }
            },
        }
    }

    /// The datagrams that one queued message gives.
    fn deliveries_of(&self, m: BellMessage) -> (r: Vec<Outbound>)
        requires
            self.wf(),
        ensures
            r@ == deliveries(m, self@.players),
    {
        let (subject, out) = match m {
            BellMessage::PositionChangeMessage(p) => (p.id, BellMessage::PositionChangeMessage(p)),
            BellMessage::PlayerRegistrationMessage(p) => (p.id, BellMessage::PlayerInsertionMessage(p)),
            BellMessage::PlayerInsertionMessage(p) => (p.id, BellMessage::PlayerInsertionMessage(p)),
            BellMessage::DeferMessage => {
                return Vec::new();
            },
        };
        let mut res: Vec<Outbound> = Vec::new();
        if (subject as usize) >= self.players.len() {
            return res;
        }
        let mut i: usize = 0;
        while i < self.players.len()
            invariant
                i <= self.players@.len(),
                res@ == others(self.players@.subrange(0, i as int), subject).map_values(
                    |r: PlayerRecord| Outbound { to: r.id, addr: r.addr, message: out },
                ),
            decreases self.players@.len() - i,
        {
            let rec = self.players[i];
            proof {
                lemma_others_step(self.players@, subject, i as int);
            }
            if rec.id != subject {
                res.push(Outbound { to: rec.id, addr: rec.addr, message: out });
            }
            assert(res@ =~= others(self.players@.subrange(0, i + 1), subject).map_values(
                |r: PlayerRecord| Outbound { to: r.id, addr: r.addr, message: out },
            ));
            i += 1;
        }
        assert(self.players@.subrange(0, self.players@.len() as int) =~= self.players@);
        res
    }

    /// One tick of the flush loop: empties the queue and returns, for each
    /// message in the order queued, one datagram to every registered player
    /// but the message's subject. Deferred messages and messages about an
    /// unregistered subject give none.
    pub fn flush(&mut self) -> (r: Vec<Outbound>)
        requires
            old(self).wf(),
        ensures
            final(self).wf(),
            r@ == fan_out(old(self)@.queue, old(self)@.players),
            final(self)@ == (RelayState { queue: Seq::empty(), ..old(self)@ }),
    {
        let messages = self.retrieve_messages();
        let mut out: Vec<Outbound> = Vec::new();
        let mut i: usize = 0;
        while i < messages.len()
            invariant
                self.wf(),
                self@ == (RelayState { queue: Seq::empty(), ..old(self)@ }),
                messages@ == old(self)@.queue,
                i <= messages@.len(),
                out@ == fan_out(messages@.subrange(0, i as int), self@.players),
            decreases messages@.len() - i,
        {
            let mut d = self.deliveries_of(messages[i]);
            assert(messages@.subrange(0, i + 1).drop_last() =~= messages@.subrange(0, i as int));
            out.append(&mut d);
            i += 1;
        }
        assert(messages@.subrange(0, messages@.len() as int) =~= messages@);
        out
    }
}

} // verus!
