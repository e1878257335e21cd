//! What holds of every run of the relay: how session ids are issued, who
//! receives a queued message, and what the queue's capacity admits.
use vstd::prelude::*;
use crate::protocol::{BellMessage, Point};
use crate::relay::{
    deliveries, fan_out, id_space, ingress_step, moved, others, placed, IngressOutcome, Outbound,
    PeerAddr, PlayerRecord, RelayState,
};

verus! {

/// The relay after a sequence of datagrams (message and sender), and what it
/// decided for each.
pub open spec fn run_ingress(s: RelayState, inputs: Seq<(BellMessage, PeerAddr)>) -> (RelayState, Seq<IngressOutcome>)
    decreases inputs.len(),
{
    if inputs.len() == 0 {
        (s, Seq::empty())
    } else {
        let (mid, outs) = run_ingress(s, inputs.drop_last());
        let (next, o) = ingress_step(mid, inputs.last().0, inputs.last().1);
        (next, outs.push(o))
    }
}

/// The session ids handed out in a sequence of decisions, in order.
pub open spec fn assigned_ids(outs: Seq<IngressOutcome>) -> Seq<u32>
    decreases outs.len(),
{
    if outs.len() == 0 {
        Seq::empty()
    } else {
        let rest = assigned_ids(outs.drop_last());
        match outs.last() {
            IngressOutcome::Reply(id, _) => rest.push(id),
            _ => rest,
        }
    }
}

/// The number of messages dropped in a sequence of decisions.
pub open spec fn count_dropped(outs: Seq<IngressOutcome>) -> nat
    decreases outs.len(),
{
    if outs.len() == 0 {
        0
    } else {
        count_dropped(outs.drop_last()) + if outs.last() is Dropped {
            1nat
        } else {
            0nat
        }
    }
}

/// How many times `m` is queued.
pub open spec fn count_queued(queue: Seq<BellMessage>, m: BellMessage) -> nat
    decreases queue.len(),
{
    if queue.len() == 0 {
        0
    } else {
        count_queued(queue.drop_last(), m) + if queue.last() == m {
            1nat
        } else {
            0nat
        }
    }
}

/// How many of the datagrams carry `m` to player `to`.
pub open spec fn count_received(out: Seq<Outbound>, to: u32, m: BellMessage) -> nat
    decreases out.len(),
{
    if out.len() == 0 {
        0
    } else {
        count_received(out.drop_last(), to, m) + if out.last().to == to && out.last().message == m {
            1nat
        } else {
            0nat
        }
    }
}

/// One decision keeps the state well formed; a registration that is answered
/// issues the next id and adds one player, any other decision adds none.
proof fn lemma_ingress_step(s: RelayState, m: BellMessage, from: PeerAddr)
    requires
        s.wf(),
    ensures
        ingress_step(s, m, from).0.wf(),
        ingress_step(s, m, from).0.capacity == s.capacity,
        match ingress_step(s, m, from).1 {
            IngressOutcome::Reply(id, _) => id == s.players.len()
                && ingress_step(s, m, from).0.players.len() == s.players.len() + 1,
            _ => ingress_step(s, m, from).0.players.len() == s.players.len(),
        },
{
    if let BellMessage::PositionChangeMessage(p) = m {
        let t = moved(s.players, p.id, p.x, p.y);
        assert forall|i: int| 0 <= i < t.len() implies t[i].id == i by {
            if p.id < s.players.len() && i == p.id {
            }
        }
    }
}

/// Session ids are issued in order: whatever datagrams arrive, the ids that
/// registrations are answered with are consecutive and strictly increasing,
/// from the number of players already registered, so from 0 on a new relay.
/// No id is handed out twice.
pub proof fn lemma_session_ids(s: RelayState, inputs: Seq<(BellMessage, PeerAddr)>)
    requires
        s.wf(),
    ensures
        run_ingress(s, inputs).0.wf(),
        run_ingress(s, inputs).0.players.len() == s.players.len() + assigned_ids(run_ingress(s, inputs).1).len(),
        forall|i: int| 0 <= i < assigned_ids(run_ingress(s, inputs).1).len()
            ==> assigned_ids(run_ingress(s, inputs).1)[i] == s.players.len() + i,
        forall|i: int, j: int| 0 <= i < j < assigned_ids(run_ingress(s, inputs).1).len()
            ==> assigned_ids(run_ingress(s, inputs).1)[i] < assigned_ids(run_ingress(s, inputs).1)[j],
        s.players.len() == 0 ==> forall|i: int| 0 <= i < assigned_ids(run_ingress(s, inputs).1).len()
            ==> assigned_ids(run_ingress(s, inputs).1)[i] == i,
    decreases inputs.len(),
{
    if inputs.len() > 0 {
        lemma_session_ids(s, inputs.drop_last());
        let (mid, outs) = run_ingress(s, inputs.drop_last());
        lemma_ingress_step(mid, inputs.last().0, inputs.last().1);
        let (next, o) = ingress_step(mid, inputs.last().0, inputs.last().1);
        assert(run_ingress(s, inputs).1 == outs.push(o));
        assert(outs.push(o).drop_last() == outs);
    }
}

/// How many of `n` submitted messages a queue with `room` free places keeps.
pub open spec fn admitted(room: int, n: int) -> int {
    if n <= room {
        n
    } else {
        room
    }
}

/// The messages of a sequence of datagrams.
pub open spec fn messages_of(inputs: Seq<(BellMessage, PeerAddr)>) -> Seq<BellMessage> {
    inputs.map_values(|i: (BellMessage, PeerAddr)| i.0)
}

/// Between two flushes the queue admits what fits and no more: of the
/// gameplay messages that arrive, the first ones up to the free room are
/// queued in order, every later one is dropped and lost, and the queue never
/// holds more than its capacity. So `capacity + k` messages into an empty
/// queue give `capacity` queued and `k` dropped.
pub proof fn lemma_queue_bound(s: RelayState, inputs: Seq<(BellMessage, PeerAddr)>)
    requires
        s.wf(),
        forall|i: int| 0 <= i < inputs.len() ==> !(inputs[i].0 is PlayerRegistrationMessage),
    ensures
        run_ingress(s, inputs).0.wf(),
        run_ingress(s, inputs).0.capacity == s.capacity,
        run_ingress(s, inputs).0.queue.len() <= s.capacity,
        run_ingress(s, inputs).0.queue
            == s.queue + messages_of(inputs).take(admitted(s.capacity - s.queue.len(), inputs.len() as int)),
        count_dropped(run_ingress(s, inputs).1)
            == inputs.len() - admitted(s.capacity - s.queue.len(), inputs.len() as int),
    decreases inputs.len(),
{
    if inputs.len() > 0 {
        let prev = inputs.drop_last();
        assert forall|i: int| 0 <= i < prev.len() implies !(prev[i].0 is PlayerRegistrationMessage) by {
            assert(prev[i] == inputs[i]);
        }
        lemma_queue_bound(s, prev);
        let (mid, outs) = run_ingress(s, prev);
        lemma_ingress_step(mid, inputs.last().0, inputs.last().1);
        let (next, o) = ingress_step(mid, inputs.last().0, inputs.last().1);
        assert(run_ingress(s, inputs).1 == outs.push(o));
        assert(outs.push(o).drop_last() == outs);
        let room = s.capacity - s.queue.len();
        let k = admitted(room, prev.len() as int);
        assert(!(inputs.last().0 is PlayerRegistrationMessage));
        if mid.queue.len() < mid.capacity {
            assert(k == prev.len());
            assert(messages_of(prev).take(k) =~= messages_of(inputs).take(k));
            assert(next.queue =~= s.queue + messages_of(inputs).take(k + 1));
        } else {
            assert(k == room);
            assert(messages_of(prev).take(k) =~= messages_of(inputs).take(k));
        }
    }
}

/// Datagrams side by side count side by side.
proof fn lemma_count_received_concat(x: Seq<Outbound>, y: Seq<Outbound>, to: u32, m: BellMessage)
    ensures
        count_received(x + y, to, m) == count_received(x, to, m) + count_received(y, to, m),
    decreases y.len(),
{
    if y.len() > 0 {
        lemma_count_received_concat(x, y.drop_last(), to, m);
        assert((x + y).drop_last() =~= x + y.drop_last());
    }
}

/// Datagrams none of which carries `m` carry it to nobody.
proof fn lemma_count_received_none(out: Seq<Outbound>, to: u32, m: BellMessage)
    requires
        forall|i: int| 0 <= i < out.len() ==> out[i].message != m,
    ensures
        count_received(out, to, m) == 0,
    decreases out.len(),
{
    if out.len() > 0 {
        lemma_count_received_none(out.drop_last(), to, m);
    }
}

/// Sending `out` to every player but `subject` reaches player `to` once if
/// it is registered and not the subject, else never.
proof fn lemma_count_others(players: Seq<PlayerRecord>, subject: u32, to: u32, out: BellMessage)
    requires
        forall|i: int| 0 <= i < players.len() ==> players[i].id == i,
    ensures
        count_received(
            others(players, subject).map_values(|r: PlayerRecord| Outbound { to: r.id, addr: r.addr, message: out }),
            to,
            out,
        ) == (if to < players.len() && to != subject {
            1nat
        } else {
            0nat
        }),
    decreases players.len(),
{
    let f = |r: PlayerRecord| Outbound { to: r.id, addr: r.addr, message: out };
    if players.len() > 0 {
        let prev = players.drop_last();
        lemma_count_others(prev, subject, to, out);
        let last = players.last();
        assert(last.id == players.len() - 1);
        if last.id != subject {
            assert(others(players, subject).map_values(f) =~= others(prev, subject).map_values(f).push(f(last)));
            assert(others(players, subject).map_values(f).drop_last() =~= others(prev, subject).map_values(f));
        } else {
            assert(others(players, subject).map_values(f) =~= others(prev, subject).map_values(f));
        }
    }
}

/// How often one queued message carries the position change of `p` to
/// player `to`.
proof fn lemma_count_deliveries(m: BellMessage, players: Seq<PlayerRecord>, p: Point, to: u32)
    requires
        forall|i: int| 0 <= i < players.len() ==> players[i].id == i,
        p.id < players.len(),
    ensures
        count_received(deliveries(m, players), to, BellMessage::PositionChangeMessage(p)) == (if m
            == BellMessage::PositionChangeMessage(p) && to < players.len() && to != p.id {
            1nat
        } else {
            0nat
        }),
{
    let pc = BellMessage::PositionChangeMessage(p);
    match crate::relay::relayed(m) {
        Some((subject, out)) => {
            if subject < players.len() {
                let f = |r: PlayerRecord| Outbound { to: r.id, addr: r.addr, message: out };
                assert(deliveries(m, players) == others(players, subject).map_values(f));
                if out == pc {
                    lemma_count_others(players, subject, to, out);
                } else {
                    lemma_count_received_none(deliveries(m, players), to, pc);
                }
            }
        },
        None => {},
    }
}

/// A position change reaches every other registered player exactly as often
/// as it was queued, and never the player who sent it: when player `p.id`
/// submitted `PositionChange(p)` once before a flush, every other registered
/// player receives it exactly once in that flush and the sender not at all.
pub proof fn lemma_position_change_delivery(s: RelayState, p: Point, to: u32)
    requires
        s.wf(),
        p.id < s.players.len(),
    ensures
        to < s.players.len() && to != p.id ==> count_received(
            fan_out(s.queue, s.players),
            to,
            BellMessage::PositionChangeMessage(p),
        ) == count_queued(s.queue, BellMessage::PositionChangeMessage(p)),
        to < s.players.len() && to != p.id && count_queued(s.queue, BellMessage::PositionChangeMessage(p)) == 1
            ==> count_received(fan_out(s.queue, s.players), to, BellMessage::PositionChangeMessage(p)) == 1,
        count_received(fan_out(s.queue, s.players), p.id, BellMessage::PositionChangeMessage(p)) == 0,
    decreases s.queue.len(),
{
    if s.queue.len() > 0 {
        let prev = RelayState { queue: s.queue.drop_last(), ..s };
        lemma_position_change_delivery(prev, p, to);
        lemma_position_change_delivery(prev, p, p.id);
        let pc = BellMessage::PositionChangeMessage(p);
        lemma_count_received_concat(fan_out(prev.queue, s.players), deliveries(s.queue.last(), s.players), to, pc);
        lemma_count_received_concat(fan_out(prev.queue, s.players), deliveries(s.queue.last(), s.players), p.id, pc);
        lemma_count_deliveries(s.queue.last(), s.players, p, to);
        lemma_count_deliveries(s.queue.last(), s.players, p, p.id);
    }
}

/// The registry after registrations made one at a time with the allocator
/// and `insert_player`: each request (x, y, address) takes the id that
/// `next_session_id` gives, then is inserted under it.
pub open spec fn registered_in_order(players: Seq<PlayerRecord>, reqs: Seq<(u32, u32, PeerAddr)>) -> Seq<PlayerRecord>
    decreases reqs.len(),
{
    if reqs.len() == 0 {
        players
    } else {
        let prev = registered_in_order(players, reqs.drop_last());
        let r = reqs.last();
        placed(prev, PlayerRecord { id: prev.len() as u32, addr: r.2, x: r.0, y: r.1 })
    }
}

/// Registrations made with the allocator and `insert_player` get ids in
/// order: the `k`-th request gets the id `n + k`, where `n` players were
/// registered before, so `k` on a new relay. The ids are distinct and
/// strictly increasing, each is entered with its request's position and
/// address, and the players registered before are untouched.
pub proof fn lemma_registrations_in_order(players: Seq<PlayerRecord>, reqs: Seq<(u32, u32, PeerAddr)>)
    requires
        forall|i: int| 0 <= i < players.len() ==> players[i].id == i,
        players.len() + reqs.len() <= id_space(),
    ensures
        registered_in_order(players, reqs).len() == players.len() + reqs.len(),
        forall|i: int| 0 <= i < registered_in_order(players, reqs).len()
            ==> registered_in_order(players, reqs)[i].id == i,
        registered_in_order(players, reqs).subrange(0, players.len() as int) == players,
        forall|k: int| 0 <= k < reqs.len() ==> registered_in_order(players, reqs)[players.len() + k] == (PlayerRecord {
            id: (players.len() + k) as u32,
            addr: reqs[k].2,
            x: reqs[k].0,
            y: reqs[k].1,
        }),
        forall|i: int, j: int| 0 <= i < j < registered_in_order(players, reqs).len()
            ==> registered_in_order(players, reqs)[i].id < registered_in_order(players, reqs)[j].id,
    decreases reqs.len(),
{
    if reqs.len() > 0 {
        let prev_reqs = reqs.drop_last();
        lemma_registrations_in_order(players, prev_reqs);
        let prev = registered_in_order(players, prev_reqs);
        let r = reqs.last();
        let t = registered_in_order(players, reqs);
        assert(t == prev.push(PlayerRecord { id: prev.len() as u32, addr: r.2, x: r.0, y: r.1 }));
        assert(t.subrange(0, players.len() as int) =~= prev.subrange(0, players.len() as int));
        assert forall|k: int| 0 <= k < reqs.len() implies t[players.len() + k] == (PlayerRecord {
            id: (players.len() + k) as u32,
            addr: reqs[k].2,
            x: reqs[k].0,
            y: reqs[k].1,
        }) by {
            if k < prev_reqs.len() {
                assert(prev_reqs[k] == reqs[k]);
            }
        }
    }
}

} // verus!
