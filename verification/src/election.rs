//! The ring election that picks the server to take down.
//!
//! A server starts an election by sending `[its id, a random priority]` to
//! the next server on the ring. Each server that receives the election and did
//! not start it appends its own id and a random priority and passes it on.
//! When the message is back at the server that started it, that server picks
//! the candidate with the highest priority (the first one on a tie) and
//! announces it to every server and client.

use vstd::prelude::*;

use crate::config::{
    client_address, client_address_spec, server_address, server_address_spec, successor,
    successor_spec, NUMBER_CLIENTS, NUMBER_SERVERS,
};
use crate::environment::random_u32;
use crate::message::{Message, MessageView, OP_ANNOUNCE, OP_ELECT};

verus! {

/// One in this many attempts starts an election.
pub const START_ELECTION_PROBABILITY: u32 = 20;

/// How many (id, priority) pairs the election argument holds.
pub open spec fn pair_count(arg: Seq<u8>) -> int {
    arg.len() as int / 2
}

/// The id in pair `j`.
pub open spec fn candidate(arg: Seq<u8>, j: int) -> u8 {
    arg[2 * j]
}

/// The priority in pair `j`.
pub open spec fn priority(arg: Seq<u8>, j: int) -> u8 {
    arg[2 * j + 1]
}

/// Pair `j` is the first with priority `top`, and its id is `winner`.
pub open spec fn first_top(arg: Seq<u8>, top: u8, winner: u8, j: int) -> bool {
    &&& 0 <= j < pair_count(arg)
    &&& priority(arg, j) == top
    &&& winner == candidate(arg, j)
    &&& forall|i: int| 0 <= i < j ==> #[trigger] priority(arg, i) < top
}

/// `winner` is the election's result with top priority `top`: `top` is the
/// highest priority, or 0 when there is none above 0; `winner` is the id of
/// the first pair with that priority, or 0 when `top` is 0.
pub open spec fn elected(arg: Seq<u8>, winner: u8, top: u8) -> bool {
    &&& forall|j: int| 0 <= j < pair_count(arg) ==> #[trigger] priority(arg, j) <= top
    &&& if top == 0 {
        winner == 0
    } else {
        exists|j: int| #[trigger] first_top(arg, top, winner, j)
    }
}

/// The message that names the server going down.
pub open spec fn announcement(my_id: u8, winner: u8) -> MessageView {
    MessageView {
        m_type: 0,
        m_id: Seq::empty(),
        remote_ref: Seq::empty(),
        local_ref: server_address_spec(my_id as int),
        op_id: OP_ANNOUNCE,
        op_arg: seq![winner],
    }
}

/// Every server, then every client middleware: where an announcement goes.
pub open spec fn announcement_addresses() -> Seq<Seq<char>> {
    Seq::new(
        (NUMBER_SERVERS + NUMBER_CLIENTS) as nat,
        |i: int|
            if i < NUMBER_SERVERS as int {
                server_address_spec(i)
            } else {
                client_address_spec(i - NUMBER_SERVERS as int)
            },
    )
}

/// The election message after server `my_id` has added itself with `prio`.
pub open spec fn forwarded(m: MessageView, my_id: u8, prio: u8) -> MessageView {
    MessageView { op_arg: m.op_arg + seq![my_id, prio], ..m }
}

/// The message that starts an election at server `my_id`.
pub open spec fn election_start_spec(my_id: u8, prio: u8) -> MessageView {
    MessageView {
        m_type: 0,
        m_id: Seq::empty(),
        remote_ref: Seq::empty(),
        local_ref: server_address_spec(my_id as int),
        op_id: OP_ELECT,
        op_arg: seq![my_id, prio],
    }
}

/// The views of a list of addresses.
pub open spec fn addresses_view(v: Seq<String>) -> Seq<Seq<char>> {
    v.map_values(|s: String| s@)
}

/// What a server does with an election message.
pub enum ElectAction {
    /// The election has gone round the ring: send `message` to every address.
    Announce { message: Message, destinations: Vec<String> },
    /// Pass the election on to the next server.
    Forward { message: Message, destination: String },
}

/// Picks the candidate with the highest priority from the (id, priority)
/// pairs of an election; returns (winner, its priority).
pub fn choose_winner(arg: &Vec<u8>) -> (r: (u8, u8))
    ensures
        elected(arg@, r.0, r.1),
{
    let n = arg.len() / 2;
    let mut max: u8 = 0;
    let mut argmax: u8 = 0;
    let mut i: usize = 0;
    while i < n
        invariant
            n == pair_count(arg@),
            n * 2 <= arg.len(),
            0 <= i <= n,
            forall|j: int| 0 <= j < i ==> #[trigger] priority(arg@, j) <= max,
            max == 0 ==> argmax == 0,
            max > 0 ==> exists|j: int| j < i && #[trigger] first_top(arg@, max, argmax, j),
        decreases n - i,
    {
        let id = arg[i * 2];
        let value = arg[i * 2 + 1];
        if value > max {
            proof {
                assert(priority(arg@, i as int) == value);
                assert(candidate(arg@, i as int) == id);
                assert forall|k: int| 0 <= k < i implies #[trigger] priority(arg@, k) < value by {
                    assert(priority(arg@, k) <= max);
                }
                assert(first_top(arg@, value, id, i as int));
            }
            max = value;
            argmax = id;
        }
        proof {
            assert(priority(arg@, i as int) == value);
        }
        i = i + 1;
    }
    (argmax, max)
}

/// The addresses that an announcement is sent to: every server, then every
/// client middleware.
pub fn announcement_destinations() -> (dests: Vec<String>)
    ensures
        addresses_view(dests@) == announcement_addresses(),
{
    let mut dests: Vec<String> = Vec::new();
    let mut i: usize = 0;
    while i < NUMBER_SERVERS
        invariant
            0 <= i <= NUMBER_SERVERS,
            dests@.len() == i,
            forall|j: int| 0 <= j < i ==> #[trigger] dests@[j]@ == server_address_spec(j),
        decreases NUMBER_SERVERS - i,
    {
        dests.push(server_address(i));
        i = i + 1;
    }
    let mut k: usize = 0;
    while k < NUMBER_CLIENTS
        invariant
            0 <= k <= NUMBER_CLIENTS,
            dests@.len() == NUMBER_SERVERS + k,
            forall|j: int| 0 <= j < NUMBER_SERVERS ==> #[trigger] dests@[j]@ == server_address_spec(j),
            forall|j: int|
                NUMBER_SERVERS <= j < NUMBER_SERVERS + k ==> #[trigger] dests@[j]@
                    == client_address_spec(j - NUMBER_SERVERS),
        decreases NUMBER_CLIENTS - k,
    {
        dests.push(client_address(k));
        k = k + 1;
    }
    assert(addresses_view(dests@) =~= announcement_addresses());
    dests
}

/// What server `my_id` does with election message `mes`, given the priority
/// `prio` it would add for itself: when the election started here
/// (`op_Arg[0]` is `my_id`) it announces the winner to every server and
/// client; otherwise it appends `[my_id, prio]` and forwards the message to
/// the next server on the ring.
pub fn election_step(mes: Message, my_id: u8, prio: u8) -> (action: ElectAction)
    requires
        mes.op_Arg@.len() > 0,
        mes.op_Arg@[0] == my_id ==> my_id < NUMBER_SERVERS,
    ensures
        mes.op_Arg@[0] == my_id ==> (action matches ElectAction::Announce { message, destinations }
            && (exists|top: u8| elected(mes.op_Arg@, message.op_Arg@[0], top))
            && message@ == announcement(my_id, message.op_Arg@[0])
            && addresses_view(destinations@) == announcement_addresses()),
        mes.op_Arg@[0] != my_id ==> (action matches ElectAction::Forward { message, destination }
            && message@ == forwarded(mes@, my_id, prio)
            && destination@ == server_address_spec(successor_spec(my_id as int))),
{
    let mut mes = mes;
    if mes.op_Arg[0] == my_id {
        let (argmax, max) = choose_winner(&mes.op_Arg);
        let message = Message {
            m_Type: 0,
            m_ID: String::new(),
            remote_Ref: String::new(),
            local_Ref: server_address(my_id as usize),
            op_Id: OP_ANNOUNCE,
            op_Arg: vec![argmax],
        };
        let destinations = announcement_destinations();
        proof {
            assert(message.op_Arg@ =~= seq![argmax]);
            assert(message@ =~= announcement(my_id, argmax));
            assert(elected(mes.op_Arg@, message.op_Arg@[0], max));
        }
        ElectAction::Announce { message, destinations }
    } else {
        let ghost before = mes@;
        mes.op_Arg.push(my_id);
        mes.op_Arg.push(prio);
        let destination = server_address(successor(my_id));
        proof {
            assert(mes@.op_arg =~= before.op_arg + seq![my_id, prio]);
            assert(mes@ =~= forwarded(before, my_id, prio));
        }
        ElectAction::Forward { message: mes, destination }
    }
}

/// What server `my_id` does with election message `mes`: as
/// [`election_step`], with a fresh random priority for itself.
pub fn handle_elect(mes: Message, my_id: u8) -> (action: ElectAction)
    requires
        mes.op_Arg@.len() > 0,
        mes.op_Arg@[0] == my_id ==> my_id < NUMBER_SERVERS,
    ensures
        mes.op_Arg@[0] == my_id ==> (action matches ElectAction::Announce { message, destinations }
            && (exists|top: u8| elected(mes.op_Arg@, message.op_Arg@[0], top))
            && message@ == announcement(my_id, message.op_Arg@[0])
            && addresses_view(destinations@) == announcement_addresses()),
        mes.op_Arg@[0] != my_id ==> (action matches ElectAction::Forward { message, destination }
            && (exists|prio: u8| message@ == forwarded(mes@, my_id, prio))
            && destination@ == server_address_spec(successor_spec(my_id as int))),
{
    let prio = random_u32() as u8;
    election_step(mes, my_id, prio)
}

/// Whether a random draw starts an election: one draw in
/// [`START_ELECTION_PROBABILITY`] does.
pub fn should_start_election(rnd: u32) -> (start: bool)
    ensures
        start == (rnd % START_ELECTION_PROBABILITY == 0),
{
    rnd % START_ELECTION_PROBABILITY == 0
}

/// The message with which server `my_id` starts an election with priority
/// `prio`, and the server it goes to: the next one on the ring.
pub fn election_start(my_id: u8, prio: u8) -> (r: (Message, String))
    requires
        my_id < NUMBER_SERVERS,
    ensures
        r.0@ == election_start_spec(my_id, prio),
        r.1@ == server_address_spec(successor_spec(my_id as int)),
{
    let message = Message {
        m_Type: 0,
        m_ID: String::new(),
        remote_Ref: String::new(),
        local_Ref: server_address(my_id as usize),
        op_Id: OP_ELECT,
        op_Arg: vec![my_id, prio],
    };
    proof {
        assert(message@ =~= election_start_spec(my_id, prio));
    }
    (message, server_address(successor(my_id)))
}

/// What one attempt of server `my_id` to start an election does, given the
/// random draw `rnd` that decides whether it starts one and the priority
/// `prio` it would start with: the election message and the server it goes
/// to when `rnd` is a multiple of [`START_ELECTION_PROBABILITY`], else nothing.
pub fn election_attempt(my_id: u8, rnd: u32, prio: u8) -> (r: Option<(Message, String)>)
    requires
        my_id < NUMBER_SERVERS,
    ensures
        r is Some <==> rnd % START_ELECTION_PROBABILITY == 0,
        r matches Some(p) ==> p.0@ == election_start_spec(my_id, prio) && p.1@
            == server_address_spec(successor_spec(my_id as int)),
{
    if should_start_election(rnd) {
        Some(election_start(my_id, prio))
    } else {
        None
    }
}

/// One attempt of server `my_id` to start an election: as
/// [`election_attempt`], with a random draw that decides whether it starts
/// one, and a second one that gives its priority.
pub fn try_start_election(my_id: u8) -> (r: Option<(Message, String)>)
    requires
        my_id < NUMBER_SERVERS,
    ensures
        r matches Some(p) ==> (exists|prio: u8| p.0@ == election_start_spec(my_id, prio))
            && p.1@ == server_address_spec(successor_spec(my_id as int)),
{
    let rnd = random_u32();
    // The priority is drawn only for an election that starts.
    let prio = if should_start_election(rnd) {
        random_u32() as u8
    } else {
        0
    };
    election_attempt(my_id, rnd, prio)
}

/// The result of an election is determined by its pairs: two results of the
/// same election agree on winner and top priority.
pub proof fn lemma_elected_unique(arg: Seq<u8>, w1: u8, t1: u8, w2: u8, t2: u8)
    requires
        elected(arg, w1, t1),
        elected(arg, w2, t2),
    ensures
        w1 == w2,
        t1 == t2,
{
    if t1 > 0 {
        let j1 = choose|j: int| #[trigger] first_top(arg, t1, w1, j);
        assert(priority(arg, j1) <= t2);
        if t2 > 0 {
            let j2 = choose|j: int| #[trigger] first_top(arg, t2, w2, j);
            assert(priority(arg, j2) <= t1);
            if j1 < j2 {
                assert(priority(arg, j1) < t2);
            } else if j2 < j1 {
                assert(priority(arg, j2) < t1);
            }
        }
    } else if t2 > 0 {
        let j2 = choose|j: int| #[trigger] first_top(arg, t2, w2, j);
        assert(priority(arg, j2) <= t1);
    }
}

/// The server `k` hops after `start` on the ring.
pub open spec fn ring_position(start: int, k: int) -> int {
    (start + k) % (NUMBER_SERVERS as int)
}

/// The election message that server `start` began with priority `prios[0]`,
/// after the next `k` servers on the ring have each added themselves with
/// priority `prios[1]`, ..., `prios[k]`.
pub open spec fn election_after(start: u8, prios: Seq<u8>, k: nat) -> MessageView
    decreases k,
{
    if k == 0 {
        election_start_spec(start, prios[0])
    } else {
        forwarded(
            election_after(start, prios, (k - 1) as nat),
            ring_position(start as int, k as int) as u8,
            prios[k as int],
        )
    }
}

/// An election travels the whole ring and comes back to the server that
/// started it: after `k` forwards it holds, in ring order, one pair for each
/// of the `k + 1` servers it has passed, with their priorities; it then
/// reaches the server `k + 1` hops on, which is another server (so it forwards
/// again) until every server has added itself, and then the server that
/// started it (so it announces). Every server is a candidate exactly once.
pub proof fn lemma_election_round(start: u8, prios: Seq<u8>, k: nat)
    requires
        start < NUMBER_SERVERS,
        k < NUMBER_SERVERS,
        prios.len() == NUMBER_SERVERS,
    ensures
        election_after(start, prios, k).op_arg.len() == 2 * (k + 1),
        election_after(start, prios, k).op_arg[0] == start,
        forall|j: int|
            0 <= j <= k ==> #[trigger] candidate(election_after(start, prios, k).op_arg, j)
                == ring_position(start as int, j) && priority(
                election_after(start, prios, k).op_arg,
                j,
            ) == prios[j],
        successor_spec(ring_position(start as int, k as int)) == ring_position(
            start as int,
            k + 1 as int,
        ),
        (k + 1 < NUMBER_SERVERS) ==> ring_position(start as int, k + 1 as int) != start,
        (k + 1 == NUMBER_SERVERS) ==> ring_position(start as int, k + 1 as int) == start,
        forall|i: int, j: int|
            0 <= i < j <= k ==> ring_position(start as int, i) != ring_position(start as int, j),
    decreases k,
{
    let m = election_after(start, prios, k);
    if k > 0 {
        lemma_election_round(start, prios, (k - 1) as nat);
        let prev = election_after(start, prios, (k - 1) as nat);
        assert(m.op_arg == prev.op_arg + seq![
            ring_position(start as int, k as int) as u8,
            prios[k as int],
        ]);
        assert forall|j: int| 0 <= j <= k implies #[trigger] candidate(m.op_arg, j)
            == ring_position(start as int, j) && priority(m.op_arg, j) == prios[j] by {
            if j < k {
                assert(candidate(prev.op_arg, j) == ring_position(start as int, j));
            }
        }
    }
}

} // verus!
