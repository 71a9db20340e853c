//! The client middleware: it takes requests from the client threads, sends
//! each to a server chosen round robin (stepping over a server that is
//! announced down), and hands the outcome back to the thread.

use vstd::prelude::*;

use crate::client::{ClientMessage, NO_ID};
use crate::config::{server_address, server_address_spec, NUMBER_SERVERS};
use crate::environment::local_ip_text;
use crate::message::{
    decode_message, decodes_to, is_decodable, Message, MessageView, WireError, OP_ANNOUNCE,
    OP_NORMAL,
};
use crate::states::ServerStates;
use crate::text::{decimal, decimal_text, signed_decimal, signed_decimal_text};

verus! {

/// The address by which the servers answer this middleware: its IP address
/// and the port it sends from.
pub open spec fn local_reference_spec(ip: Seq<char>, port: u16) -> Seq<char> {
    ip + ":"@ + decimal(port as nat)
}

/// The id of request number `request_id` from the middleware at `local_ref`.
pub open spec fn request_id_spec(local_ref: Seq<char>, request_id: i32) -> Seq<char> {
    local_ref + ":"@ + signed_decimal(request_id as int)
}

/// The server that a request goes to when the round robin stands at `cur`:
/// `cur` if it is up, else the one after it.
pub open spec fn round_robin_target(cur: int, up: Seq<bool>) -> int {
    if up[cur] {
        cur
    } else {
        (cur + 1) % (NUMBER_SERVERS as int)
    }
}

/// Where the round robin stands after a request went to `target`.
pub open spec fn round_robin_next(target: int) -> int {
    (target + 1) % (NUMBER_SERVERS as int)
}

/// The request that the middleware at `local_ref` sends as its request
/// number `request_id` to server `target`.
pub open spec fn request_spec(local_ref: Seq<char>, request_id: i32, target: int) -> MessageView {
    MessageView {
        m_type: 0,
        m_id: request_id_spec(local_ref, request_id),
        remote_ref: server_address_spec(target),
        local_ref,
        op_id: OP_NORMAL,
        op_arg: Seq::empty(),
    }
}

/// `ip:port`.
pub fn local_reference(ip: &str, port: u16) -> (r: String)
    ensures
        r@ == local_reference_spec(ip@, port),
{
    let mut r = ip.to_owned();
    r.append(":");
    r.append(decimal_text(port as u128).as_str());
    r
}

/// The address by which the servers answer this middleware, from the
/// machine's IP address and the port it sends from; `None` when the machine
/// has no address to give.
pub fn middleware_reference(port: u16) -> (r: Option<String>)
    ensures
        r matches Some(s) ==> exists|ip: Seq<char>| s@ == local_reference_spec(ip, port),
{
    match local_ip_text() {
        Some(ip) => Some(local_reference(ip.as_str(), port)),
        None => None,
    }
}

/// The round robin of a middleware: the server it stands at and the number
/// of its next request.
pub struct RoundRobin {
    pub cur_server: usize,
    pub request_id: i32,
}

impl RoundRobin {
    /// Standing at server 0, before request 0.
    pub fn new() -> (rr: RoundRobin)
        ensures
            rr.cur_server == 0,
            rr.request_id == 0,
    {
        RoundRobin { cur_server: 0, request_id: 0 }
    }

    /// Picks the server for the next request, stepping over the current one
    /// if it is down, and builds the request.
    pub fn prepare(&mut self, states: &ServerStates, local_ref: &str) -> (m: Message)
        requires
            old(self).cur_server < NUMBER_SERVERS,
        ensures
            final(self).cur_server == round_robin_target(old(self).cur_server as int, states@),
            states@[old(self).cur_server as int] ==> final(self).cur_server == old(self).cur_server,
            !states@[old(self).cur_server as int] ==> final(self).cur_server == (old(
                self,
            ).cur_server + 1) % NUMBER_SERVERS as int,
            final(self).request_id == old(self).request_id,
            m@ == request_spec(local_ref@, old(self).request_id, final(self).cur_server as int),
    {
        if !states.is_up(self.cur_server) {
            self.cur_server = (self.cur_server + 1) % NUMBER_SERVERS;
        }
        let mut m_id = local_ref.to_owned();
        m_id.append(":");
        m_id.append(signed_decimal_text(self.request_id as i64).as_str());
        let m = Message {
            m_Type: 0,
            m_ID: m_id,
            remote_Ref: server_address(self.cur_server),
            local_Ref: local_ref.to_owned(),
            op_Id: OP_NORMAL,
            op_Arg: Vec::new(),
        };
        proof {
            assert(m@ =~= request_spec(local_ref@, self.request_id, self.cur_server as int));
        }
        m
    }

    /// After the server's answer: moves on to the next server and request,
    /// and hands the client's request back, marked failed (`message_id` -1)
    /// when the server did not answer.
    pub fn finish(&mut self, success: u8, request: ClientMessage) -> (r: ClientMessage)
        requires
            old(self).cur_server < NUMBER_SERVERS,
            old(self).request_id < i32::MAX,
        ensures
            final(self).cur_server == round_robin_next(old(self).cur_server as int),
            final(self).request_id == old(self).request_id + 1,
            success == 0 ==> r == (ClientMessage { message_id: NO_ID, ..request }),
            success != 0 ==> r == request,
    {
        self.cur_server = (self.cur_server + 1) % NUMBER_SERVERS;
        self.request_id = self.request_id + 1;
        let mut r = request;
        if success == 0 {
            r.message_id = NO_ID;
        }
        r
    }
}

/// Reads a server's answer from the receive buffer: `None` when nothing was
/// received.
pub fn read_reply(num_bytes: usize, buf: &[u8]) -> (r: Result<Option<Message>, WireError>)
    ensures
        num_bytes == 0 ==> r == Ok::<Option<Message>, WireError>(None),
        num_bytes != 0 ==> (r is Ok <==> is_decodable(buf@)),
        num_bytes != 0 ==> forall|m: MessageView| #[trigger]
            decodes_to(buf@, m) ==> (r matches Ok(Some(x)) && x@ == m),
{
    if num_bytes == 0 {
        Ok(None)
    } else {
        match decode_message(buf) {
            Ok(m) => Ok(Some(m)),
            Err(e) => Err(e),
        }
    }
}

/// The outcome of a request as the middleware hands it on: 1 and the
/// answer's argument when the server answered, else 0 and nothing.
pub fn operation_result(reply: Option<Message>) -> (r: (u8, Vec<u8>))
    ensures
        reply matches Some(m) ==> r.0 == 1 && r.1@ == m.op_Arg@,
        reply is None ==> r.0 == 0 && r.1@ == Seq::<u8>::empty(),
{
    match reply {
        Some(m) => (1, m.op_Arg),
        None => (0, Vec::new()),
    }
}

/// Takes an announcement into account: the server it names is marked down.
/// Any other message leaves the states as they are.
pub fn apply_announcement(states: &mut ServerStates, mes: &Message)
    requires
        mes.op_Id == OP_ANNOUNCE ==> mes.op_Arg@.len() > 0 && mes.op_Arg@[0] < NUMBER_SERVERS,
    ensures
        mes.op_Id == OP_ANNOUNCE ==> final(states)@ == old(states)@.update(
            mes.op_Arg@[0] as int,
            false,
        ),
        mes.op_Id != OP_ANNOUNCE ==> final(states)@ == old(states)@,
{
    if mes.op_Id == OP_ANNOUNCE {
        states.set(mes.op_Arg[0] as usize, false);
    }
}

/// Round robin over servers that are all up sends each of `NUMBER_SERVERS`
/// consecutive requests to another server: every server gets one.
pub proof fn lemma_round_robin_fair(cur: int, up: Seq<bool>)
    requires
        0 <= cur < NUMBER_SERVERS,
        up.len() == NUMBER_SERVERS,
        forall|i: int| 0 <= i < NUMBER_SERVERS ==> #[trigger] up[i],
    ensures
        ({
            let t0 = round_robin_target(cur, up);
            let t1 = round_robin_target(round_robin_next(t0), up);
            let t2 = round_robin_target(round_robin_next(t1), up);
            &&& t0 == cur
            &&& t1 == (cur + 1) % (NUMBER_SERVERS as int)
            &&& t2 == (cur + 2) % (NUMBER_SERVERS as int)
            &&& t0 != t1 && t1 != t2 && t0 != t2
            &&& round_robin_next(t2) == cur
        }),
{
}

/// A request never goes to a server that is down while the one after it is
/// up.
pub proof fn lemma_round_robin_skips_down(cur: int, up: Seq<bool>)
    requires
        0 <= cur < NUMBER_SERVERS,
        up.len() == NUMBER_SERVERS,
    ensures
        0 <= round_robin_target(cur, up) < NUMBER_SERVERS,
        up[round_robin_target(cur, up)] || (!up[cur] && !up[(cur + 1) % (NUMBER_SERVERS as int)]),
{
}

/// A request goes to the server the round robin stands at when it is up, and
/// to the server right after it when it is down.
pub proof fn lemma_round_robin_step(cur: int, up: Seq<bool>)
    requires
        0 <= cur < NUMBER_SERVERS,
        up.len() == NUMBER_SERVERS,
    ensures
        up[cur] ==> round_robin_target(cur, up) == cur,
        !up[cur] ==> round_robin_target(cur, up) == (cur + 1) % (NUMBER_SERVERS as int),
        round_robin_next(round_robin_target(cur, up)) == (round_robin_target(cur, up) + 1) % (
        NUMBER_SERVERS as int),
{
}

/// Whichever servers are up, and wherever the round robin stands, every
/// server that is up gets one of the next `NUMBER_SERVERS` requests.
pub proof fn lemma_round_robin_reaches_every_up_server(cur: int, up: Seq<bool>, s: int)
    requires
        0 <= cur < NUMBER_SERVERS,
        up.len() == NUMBER_SERVERS,
        0 <= s < NUMBER_SERVERS,
        up[s],
    ensures
        ({
            let t0 = round_robin_target(cur, up);
            let t1 = round_robin_target(round_robin_next(t0), up);
            let t2 = round_robin_target(round_robin_next(t1), up);
            s == t0 || s == t1 || s == t2
        }),
{
}

} // verus!
