//! The decisions of a server: how it answers a request, which handler a
//! request goes to, and how it measures and reports its load.

use vstd::prelude::*;
use vstd::utf8::encode_utf8;

use crate::config::{server_address, server_address_spec, NUMBER_SERVERS};
use crate::message::{Message, MessageView, OP_ANNOUNCE, OP_BALANCE_LOAD, OP_ELECT};

verus! {

/// Below this many requests per second a server is under-loaded.
pub const TLOWER: i64 = 5000;

/// From this many requests per second on a server is overloaded.
pub const TUPPER: i64 = 7500;

/// The text that a server answers an ordinary request with.
pub open spec fn normal_reply_text() -> Seq<char> {
    "hello from server"@
}

/// The type of a message that answers a request.
pub const REPLY: u8 = 1;

/// Answers an ordinary request: the same message marked as a reply, with the
/// server's greeting as its argument.
pub fn handel_normal(mes: Message) -> (reply: Message)
    ensures
        reply@ == (MessageView {
            m_type: REPLY,
            op_arg: encode_utf8(normal_reply_text()),
            ..mes@
        }),
{
    let mut mes = mes;
    mes.m_Type = REPLY;
    let c = "hello from server";
    mes.op_Arg = vstd::slice::slice_to_vec(c.as_bytes());
    mes
}

/// The handler that a request is dispatched to.
#[derive(Debug, PartialEq, Eq, Structural)]
pub enum Handler {
    Normal,
    Elect,
    BalanceLoad,
}

/// The handler for operation `op_id`: elections and load reports have their
/// own; everything else is served as an ordinary request.
pub fn handler_for(op_id: u32) -> (h: Handler)
    ensures
        h == (if op_id == OP_ELECT {
            Handler::Elect
        } else if op_id == OP_BALANCE_LOAD {
            Handler::BalanceLoad
        } else {
            Handler::Normal
        }),
{
    match op_id {
        0 => Handler::Normal,
        1 => Handler::Elect,
        3 => Handler::BalanceLoad,
        _ => Handler::Normal,
    }
}

/// What arrived at a server's socket.
#[derive(Debug, PartialEq, Eq, Structural)]
pub enum Incoming {
    /// An announcement that server `down` goes down; `is_me` when that is
    /// the receiving server.
    Announcement { down: u8, is_me: bool },
    /// A request to be counted and served.
    Request,
}

/// Tells an announcement from a request.
pub fn classify_incoming(mes: &Message, my_id: u8) -> (r: Incoming)
    requires
        mes.op_Id == OP_ANNOUNCE ==> mes.op_Arg@.len() > 0,
    ensures
        mes.op_Id == OP_ANNOUNCE ==> r == (Incoming::Announcement {
            down: mes.op_Arg@[0],
            is_me: mes.op_Arg@[0] == my_id,
        }),
        mes.op_Id != OP_ANNOUNCE ==> r == Incoming::Request,
{
    if mes.op_Id == OP_ANNOUNCE {
        let down = mes.op_Arg[0];
        Incoming::Announcement { down, is_me: down == my_id }
    } else {
        Incoming::Request
    }
}

/// The load level of a server that received `count` requests in a second:
/// 0 under-loaded, 1 medium, 2 overloaded.
pub open spec fn load_level(count: int) -> u8 {
    if count < TLOWER {
        0
    } else if count < TUPPER {
        1
    } else {
        2
    }
}

/// The load level of a server that received `count` requests in a second.
pub fn classify_load(count: i64) -> (level: u8)
    ensures
        level == load_level(count as int),
        count < TLOWER ==> level == 0,
        TLOWER <= count < TUPPER ==> level == 1,
        count >= TUPPER ==> level == 2,
{
    if count < TLOWER {
        0
    } else if count < TUPPER {
        1
    } else {
        2
    }
}

/// The report with which server `my_id` tells the others its new load level.
pub open spec fn load_report(my_id: u8, level: u8) -> MessageView {
    MessageView {
        m_type: 0,
        m_id: Seq::empty(),
        remote_ref: Seq::empty(),
        local_ref: server_address_spec(my_id as int),
        op_id: OP_BALANCE_LOAD,
        op_arg: seq![my_id, level],
    }
}

/// A server's count of the requests of the current second, and the load
/// level it last reported.
pub struct LoadMonitor {
    pub request_count: i64,
    pub load: u8,
}

impl LoadMonitor {
    /// No request counted, and under-loaded.
    pub fn new() -> (m: LoadMonitor)
        ensures
            m.request_count == 0,
            m.load == 0,
    {
        LoadMonitor { request_count: 0, load: 0 }
    }

    /// Counts one request.
    pub fn count_request(&mut self)
        requires
            old(self).request_count < i64::MAX,
        ensures
            final(self).request_count == old(self).request_count + 1,
            final(self).load == old(self).load,
    {
        self.request_count = self.request_count + 1;
    }

    /// Ends a second: returns the number of requests it counted and, when the
    /// load level that number gives differs from the last one, the report of
    /// the new level; starts the next second from 0.
    pub fn end_of_second(&mut self, my_id: u8) -> (r: (i64, Option<Message>))
        requires
            load_level(old(self).request_count as int) != old(self).load ==> my_id
                < NUMBER_SERVERS,
        ensures
            r.0 == old(self).request_count,
            final(self).request_count == 0,
            final(self).load == load_level(old(self).request_count as int),
            load_level(old(self).request_count as int) == old(self).load ==> r.1 is None,
            load_level(old(self).request_count as int) != old(self).load ==> (r.1 matches Some(
                m,
            ) && m@ == load_report(my_id, final(self).load)),
    {
        let count = self.request_count;
        let new_load = classify_load(count);
        let report = if new_load != self.load {
            self.load = new_load;
            let m = Message {
                m_Type: 0,
                m_ID: String::new(),
                remote_Ref: String::new(),
                local_Ref: server_address(my_id as usize),
                op_Id: OP_BALANCE_LOAD,
                op_Arg: vec![my_id, new_load],
            };
            proof {
                assert(m@ =~= load_report(my_id, new_load));
            }
            Some(m)
        } else {
            None
        };
        self.request_count = 0;
        (count, report)
    }
}

/// The load levels: under-loaded below `TLOWER` requests a second, medium
/// from `TLOWER` up to below `TUPPER`, overloaded from `TUPPER` on; more
/// requests never give a lower level.
pub proof fn lemma_load_level_thresholds(c: int, c2: int)
    ensures
        c < TLOWER ==> load_level(c) == 0,
        TLOWER <= c < TUPPER ==> load_level(c) == 1,
        c >= TUPPER ==> load_level(c) == 2,
        load_level(c) <= 2,
        c <= c2 ==> load_level(c) <= load_level(c2),
{
}

} // verus!
