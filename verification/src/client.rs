//! A client application thread: it sends one request at a time through the
//! middleware, measures how long the reply took, and every twenty seconds
//! reports its counts to the logging thread.
//!
//! Times are nanoseconds since the client started, as `u128` values no
//! larger than the longest `std::time::Duration`.

use vstd::prelude::*;

verus! {

/// The longest duration, in nanoseconds: `u64::MAX` seconds and 999,999,999
/// nanoseconds.
pub const MAX_DURATION_NANOS: u128 = 18_446_744_073_709_551_615_999_999_999;

/// How often a client reports its counts, in nanoseconds (twenty seconds).
pub const REPORT_PERIOD_NANOS: u128 = 20_000_000_000;

/// The thread id and message id that mark a reply as failed.
pub const NO_ID: i64 = -1;

/// A request from a client thread to the middleware, and the middleware's
/// answer: `duration` is when the request was made.
#[derive(Clone, Copy, Debug, PartialEq, Eq, Structural)]
pub struct ClientMessage {
    pub thread_id: i32,
    pub message_id: i64,
    pub duration: u128,
}

/// A client thread's counts, as sent to the logging thread: the id of its
/// last request (`sent_request`), the replies it measured, their summed
/// latency and the time since it started.
#[derive(Clone, Copy, Debug, PartialEq, Eq, Structural)]
pub struct ClientLog {
    pub thread_id: i32,
    pub sent_request: i64,
    pub fulfilled_request: i64,
    pub total_latency: u128,
    pub total_duration: u128,
}

/// What became of a reply.
#[derive(Clone, Copy, Debug, PartialEq, Eq, Structural)]
pub enum ReplyOutcome {
    /// Answered after `latency` nanoseconds, and counted.
    Fulfilled { latency: u128 },
    /// Answered, but no time had passed by the clock: not counted.
    Unmeasured,
    /// No answer, or the middleware marked it failed.
    Failed,
}

/// The state of a client thread between two requests.
pub struct RequestLoop {
    pub thread_id: i32,
    pub sent: i64,
    pub fulfilled: i64,
    pub total_latency: u128,
    pub next_report: u128,
}

/// The latency of a reply to a request made at `sent_at`, received at `now`:
/// 0 when `sent_at` is later than `now`.
pub open spec fn latency_of(sent_at: u128, now: u128) -> u128 {
    if sent_at <= now {
        (now - sent_at) as u128
    } else {
        0
    }
}

/// Whether a reply counts as answered: neither id marks it failed.
pub open spec fn answered(reply: Option<ClientMessage>) -> bool {
    reply matches Some(r) && r.thread_id != NO_ID && r.message_id != NO_ID
}

/// The report of a thread in state `s` at time `t`, made in the round of its
/// last request (number `sent - 1`).
pub open spec fn report_of(s: RequestLoop, t: u128) -> ClientLog {
    ClientLog {
        thread_id: s.thread_id,
        sent_request: (s.sent - 1) as i64,
        fulfilled_request: s.fulfilled,
        total_latency: s.total_latency,
        total_duration: t,
    }
}

/// `b` is a later state of the thread in state `a`: more requests sent, and
/// no count, summed latency or report time gone down.
pub open spec fn advances(a: RequestLoop, b: RequestLoop) -> bool {
    &&& a.thread_id == b.thread_id
    &&& a.sent < b.sent
    &&& a.fulfilled <= b.fulfilled
    &&& a.total_latency <= b.total_latency
    &&& a.next_report <= b.next_report
}

/// Later than a later state is later.
pub proof fn lemma_advances_transitive(a: RequestLoop, b: RequestLoop, c: RequestLoop)
    requires
        advances(a, b),
        advances(b, c),
    ensures
        advances(a, c),
{
}

/// Successive reports of a thread, made at clock readings that do not go
/// back: each is for a later request, and none of the measured replies, the
/// summed latency or the running time goes down.
pub proof fn lemma_reports_grow(a: RequestLoop, ta: u128, b: RequestLoop, tb: u128)
    requires
        a.wf(),
        b.wf(),
        advances(a, b),
        ta <= tb,
    ensures
        report_of(a, ta).thread_id == report_of(b, tb).thread_id,
        report_of(a, ta).sent_request < report_of(b, tb).sent_request,
        report_of(a, ta).fulfilled_request <= report_of(b, tb).fulfilled_request,
        report_of(a, ta).total_latency <= report_of(b, tb).total_latency,
        report_of(a, ta).total_duration <= report_of(b, tb).total_duration,
{
}

impl RequestLoop {
    /// A thread that has sent nothing yet.
    pub fn new(thread_id: i32) -> (l: RequestLoop)
        ensures
            l.thread_id == thread_id,
            l.sent == 0,
            l.fulfilled == 0,
            l.total_latency == 0,
            l.next_report == REPORT_PERIOD_NANOS,
            l.wf(),
    {
        RequestLoop {
            thread_id,
            sent: 0,
            fulfilled: 0,
            total_latency: 0,
            next_report: REPORT_PERIOD_NANOS,
        }
    }

    /// The counts agree: no more replies measured than requests sent, and
    /// the times are durations.
    pub open spec fn wf(&self) -> bool {
        &&& 0 <= self.fulfilled <= self.sent
        &&& self.total_latency <= MAX_DURATION_NANOS
        &&& self.next_report <= MAX_DURATION_NANOS
    }

    /// The request to send now, `elapsed` after the thread started.
    pub fn request(&self, elapsed: u128) -> (m: ClientMessage)
        ensures
            m == (ClientMessage {
                thread_id: self.thread_id,
                message_id: self.sent,
                duration: elapsed,
            }),
    {
        ClientMessage { thread_id: self.thread_id, message_id: self.sent, duration: elapsed }
    }

    /// The inputs on which [`RequestLoop::complete`] runs without overflow:
    /// the request count, the summed latency and the report time all stay in
    /// range.
    pub open spec fn can_complete_spec(
        &self,
        reply: Option<ClientMessage>,
        reply_time: u128,
        report_time: u128,
    ) -> bool {
        &&& self.sent < i64::MAX
        &&& answered(reply) ==> self.total_latency + latency_of(reply->0.duration, reply_time)
            <= MAX_DURATION_NANOS
        &&& report_time >= self.next_report ==> self.next_report + REPORT_PERIOD_NANOS
            <= MAX_DURATION_NANOS
    }

    /// Whether [`RequestLoop::complete`] can run on these inputs.
    pub fn can_complete(&self, reply: Option<ClientMessage>, reply_time: u128, report_time: u128) -> (r: bool)
        requires
            self.wf(),
        ensures
            r == self.can_complete_spec(reply, reply_time, report_time),
    {
        if self.sent == i64::MAX {
            return false;
        }
        let answered = match reply {
            Some(r) => r.thread_id != -1 && r.message_id != NO_ID,
            None => false,
        };
        if answered {
            let sent_at = match reply {
                Some(r) => r.duration,
                None => 0,
            };
            let latency = if sent_at <= reply_time {
                reply_time - sent_at
            } else {
                0
            };
            if latency > MAX_DURATION_NANOS - self.total_latency {
                return false;
            }
        }
        if report_time >= self.next_report && self.next_report > MAX_DURATION_NANOS
            - REPORT_PERIOD_NANOS {
            return false;
        }
        true
    }

    /// Ends the round of the current request: takes the middleware's
    /// `reply` (received at `reply_time`), counts it when it was answered
    /// after some time had passed, reports the counts when `report_time` has
    /// reached the next report time (and moves that on by twenty seconds),
    /// and moves on to the next request.
    pub fn complete(&mut self, reply: Option<ClientMessage>, reply_time: u128, report_time: u128) -> (r: (
        ReplyOutcome,
        Option<ClientLog>,
    ))
        requires
            old(self).wf(),
            old(self).can_complete_spec(reply, reply_time, report_time),
        ensures
            final(self).wf(),
            advances(*old(self), *final(self)),
            final(self).thread_id == old(self).thread_id,
            final(self).sent == old(self).sent + 1,
            !answered(reply) ==> r.0 == ReplyOutcome::Failed,
            answered(reply) && latency_of(reply->0.duration, reply_time) == 0 ==> r.0
                == ReplyOutcome::Unmeasured,
            answered(reply) && latency_of(reply->0.duration, reply_time) != 0 ==> r.0
                == (ReplyOutcome::Fulfilled { latency: latency_of(reply->0.duration, reply_time) }),
            r.0 matches ReplyOutcome::Fulfilled { latency } ==> final(self).fulfilled == old(
                self,
            ).fulfilled + 1 && final(self).total_latency == old(self).total_latency + latency,
            !(r.0 is Fulfilled) ==> final(self).fulfilled == old(self).fulfilled
                && final(self).total_latency == old(self).total_latency,
            report_time >= old(self).next_report ==> r.1 == Some(report_of(*final(self), report_time))
                && final(self).next_report == old(self).next_report + REPORT_PERIOD_NANOS,
            report_time < old(self).next_report ==> r.1 is None && final(self).next_report == old(
                self,
            ).next_report,
    {
        let outcome = match reply {
            Some(value) => {
                if value.thread_id != -1 && value.message_id != NO_ID {
                    let latency = if value.duration <= reply_time {
                        reply_time - value.duration
                    } else {
                        0
                    };
                    if latency != 0 {
                        self.total_latency = self.total_latency + latency;
                        self.fulfilled = self.fulfilled + 1;
                        ReplyOutcome::Fulfilled { latency }
                    } else {
                        ReplyOutcome::Unmeasured
                    }
                } else {
                    ReplyOutcome::Failed
                }
            },
            None => ReplyOutcome::Failed,
        };
        let log = if report_time >= self.next_report {
            self.next_report = self.next_report + REPORT_PERIOD_NANOS;
            Some(
                ClientLog {
                    thread_id: self.thread_id,
                    sent_request: self.sent,
                    fulfilled_request: self.fulfilled,
                    total_latency: self.total_latency,
                    total_duration: report_time,
                },
            )
        } else {
            None
        };
        self.sent = self.sent + 1;
        (outcome, log)
    }
}

} // verus!
