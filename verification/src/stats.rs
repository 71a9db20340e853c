//! The client's logging thread: it keeps the latest counts of every client
//! thread and derives per-thread and overall statistics from them.

use vstd::prelude::*;

use crate::client::{report_of, ClientLog, RequestLoop, MAX_DURATION_NANOS};
use crate::text::{decimal, decimal_text, signed_decimal, signed_decimal_text};

verus! {

/// How many client threads a client process runs.
pub const CLIENT_THREADS: usize = 500;

/// Nanoseconds in a millisecond.
pub const NANOS_PER_MILLI: u128 = 1_000_000;

/// Counts that the statistics can be computed from without overflow: the
/// request id is at least -1 (nothing sent yet) and below `i64::MAX`, the
/// measured replies number no more than the requests, and the times are
/// durations.
pub open spec fn log_ok(l: ClientLog) -> bool {
    &&& -1 <= l.sent_request < i64::MAX
    &&& 0 <= l.fulfilled_request <= l.sent_request + 1
    &&& l.total_latency <= MAX_DURATION_NANOS
    &&& l.total_duration <= MAX_DURATION_NANOS
}

/// A report that the table can take: from a thread it has a row for, with
/// counts it can compute from.
pub open spec fn recordable(l: ClientLog) -> bool {
    0 <= l.thread_id < CLIENT_THREADS && log_ok(l)
}

/// The row of a thread that has reported nothing.
pub open spec fn empty_log() -> ClientLog {
    ClientLog {
        thread_id: 0,
        sent_request: 0,
        fulfilled_request: 0,
        total_latency: 0,
        total_duration: 0,
    }
}

/// The statistics of one client thread. Times are in milliseconds.
#[derive(Clone, Copy, Debug, PartialEq, Eq, Structural)]
pub struct ThreadStats {
    pub thread_id: i32,
    pub sent: i64,
    pub fulfilled: i64,
    pub failed: i64,
    pub total_latency_ms: u128,
    pub total_duration_ms: u128,
    pub avg_latency_ms: u128,
}

/// The statistics of all client threads together.
#[derive(Clone, Copy, Debug, PartialEq, Eq, Structural)]
pub struct Totals {
    pub total_sent: u128,
    pub total_fulfilled: u128,
    pub total_failed: u128,
    pub avg_latency_ms: u128,
}

/// The average latency of a thread in milliseconds: its total latency over
/// its measured replies, or 0 when it measured none.
pub open spec fn avg_latency_spec(l: ClientLog) -> int {
    if l.fulfilled_request == 0 {
        0
    } else {
        (l.total_latency / NANOS_PER_MILLI) as int / l.fulfilled_request as int
    }
}

/// The statistics of a thread with counts `l`: it sent `sent_request + 1`
/// requests, and those it did not measure failed.
pub open spec fn thread_stats_spec(l: ClientLog) -> ThreadStats {
    ThreadStats {
        thread_id: l.thread_id,
        sent: (l.sent_request + 1) as i64,
        fulfilled: l.fulfilled_request,
        failed: (l.sent_request - l.fulfilled_request + 1) as i64,
        total_latency_ms: l.total_latency / NANOS_PER_MILLI,
        total_duration_ms: l.total_duration / NANOS_PER_MILLI,
        avg_latency_ms: avg_latency_spec(l) as u128,
    }
}

/// The requests sent by all threads of `s`.
pub open spec fn sum_sent(s: Seq<ClientLog>) -> int
    decreases s.len(),
{
    if s.len() == 0 {
        0
    } else {
        sum_sent(s.drop_last()) + s.last().sent_request + 1
    }
}

/// The replies measured by all threads of `s`.
pub open spec fn sum_fulfilled(s: Seq<ClientLog>) -> int
    decreases s.len(),
{
    if s.len() == 0 {
        0
    } else {
        sum_fulfilled(s.drop_last()) + s.last().fulfilled_request
    }
}

/// The requests of all threads of `s` that were not measured.
pub open spec fn sum_failed(s: Seq<ClientLog>) -> int
    decreases s.len(),
{
    if s.len() == 0 {
        0
    } else {
        sum_failed(s.drop_last()) + (s.last().sent_request + 1 - s.last().fulfilled_request)
    }
}

/// The average latencies of all threads of `s`, added up.
pub open spec fn sum_avg_latency(s: Seq<ClientLog>) -> int
    decreases s.len(),
{
    if s.len() == 0 {
        0
    } else {
        sum_avg_latency(s.drop_last()) + avg_latency_spec(s.last())
    }
}

/// The overall statistics of the rows `s`: the sums over all threads, and the
/// threads' average latencies averaged over all the rows.
pub open spec fn totals_spec(s: Seq<ClientLog>) -> Totals {
    Totals {
        total_sent: sum_sent(s) as u128,
        total_fulfilled: sum_fulfilled(s) as u128,
        total_failed: sum_failed(s) as u128,
        avg_latency_ms: (sum_avg_latency(s) / CLIENT_THREADS as int) as u128,
    }
}

/// The latest counts of each client thread, one row per thread.
pub struct LogTable {
    entries: Vec<ClientLog>,
}

impl View for LogTable {
    type V = Seq<ClientLog>;

    closed spec fn view(&self) -> Seq<ClientLog> {
        self.entries@
    }
}

/// The statistics of one thread.
pub fn thread_stats(l: ClientLog) -> (st: ThreadStats)
    requires
        log_ok(l),
    ensures
        st == thread_stats_spec(l),
        0 <= st.fulfilled <= st.sent,
        st.failed == st.sent - st.fulfilled,
{
    let latency_ms = l.total_latency / NANOS_PER_MILLI;
    let fulfilled = l.fulfilled_request as u128;
    let avg = match latency_ms.checked_div(fulfilled) {
        Some(a) => a,
        None => 0,
    };
    ThreadStats {
        thread_id: l.thread_id,
        sent: l.sent_request + 1,
        fulfilled: l.fulfilled_request,
        failed: l.sent_request - l.fulfilled_request + 1,
        total_latency_ms: latency_ms,
        total_duration_ms: l.total_duration / NANOS_PER_MILLI,
        avg_latency_ms: avg,
    }
}

impl LogTable {
    /// One row per thread, and every row's counts computable.
    pub open spec fn wf(&self) -> bool {
        &&& self@.len() == CLIENT_THREADS
        &&& forall|i: int| 0 <= i < CLIENT_THREADS ==> #[trigger] log_ok(self@[i])
    }

    /// A table in which no thread has reported.
    pub fn new() -> (t: LogTable)
        ensures
            t.wf(),
            t@ == Seq::new(CLIENT_THREADS as nat, |i: int| empty_log()),
    {
        let mut entries: Vec<ClientLog> = Vec::new();
        let mut i: usize = 0;
        while i < CLIENT_THREADS
            invariant
                0 <= i <= CLIENT_THREADS,
                entries@ == Seq::new(i as nat, |j: int| empty_log()),
            decreases CLIENT_THREADS - i,
        {
            entries.push(
                ClientLog {
                    thread_id: 0,
                    sent_request: 0,
                    fulfilled_request: 0,
                    total_latency: 0,
                    total_duration: 0,
                },
            );
            i = i + 1;
            assert(entries@ =~= Seq::new(i as nat, |j: int| empty_log()));
        }
        LogTable { entries }
    }

    /// Keeps `log` as the latest counts of its thread.
    pub fn record(&mut self, log: ClientLog)
        requires
            old(self).wf(),
            recordable(log),
        ensures
            final(self).wf(),
            final(self)@ == old(self)@.update(log.thread_id as int, log),
    {
        let idx = log.thread_id as usize;
        self.entries.set(idx, log);
    }

    /// The statistics of every thread, in the order of their rows.
    pub fn thread_report(&self) -> (r: Vec<ThreadStats>)
        requires
            self.wf(),
        ensures
            r@.len() == CLIENT_THREADS,
            forall|i: int| 0 <= i < CLIENT_THREADS ==> #[trigger] r@[i] == thread_stats_spec(self@[i]),
            forall|i: int|
                0 <= i < CLIENT_THREADS ==> 0 <= (#[trigger] r@[i]).fulfilled <= r@[i].sent
                    && r@[i].failed == r@[i].sent - r@[i].fulfilled,
    {
        let mut r: Vec<ThreadStats> = Vec::new();
        let mut i: usize = 0;
        while i < CLIENT_THREADS
            invariant
                self.wf(),
                0 <= i <= CLIENT_THREADS,
                r@.len() == i,
                forall|j: int| 0 <= j < i ==> #[trigger] r@[j] == thread_stats_spec(self@[j]),
                forall|j: int|
                    0 <= j < i ==> 0 <= (#[trigger] r@[j]).fulfilled <= r@[j].sent && r@[j].failed
                        == r@[j].sent - r@[j].fulfilled,
            decreases CLIENT_THREADS - i,
        {
            assert(log_ok(self.entries@[i as int]));
            r.push(thread_stats(self.entries[i]));
            i = i + 1;
        }
        r
    }

    /// The statistics of all threads together.
    pub fn totals(&self) -> (t: Totals)
        requires
            self.wf(),
        ensures
            t == totals_spec(self@),
            t.total_sent == t.total_fulfilled + t.total_failed,
    {
        let mut total_sent: u128 = 0;
        let mut total_fulfilled: u128 = 0;
        let mut total_failed: u128 = 0;
        let mut latency_sum: u128 = 0;
        let mut i: usize = 0;
        while i < CLIENT_THREADS
            invariant
                self.wf(),
                0 <= i <= CLIENT_THREADS,
                total_sent == sum_sent(self@.take(i as int)),
                total_fulfilled == sum_fulfilled(self@.take(i as int)),
                total_failed == sum_failed(self@.take(i as int)),
                latency_sum == sum_avg_latency(self@.take(i as int)),
                total_sent <= i * 0x8000_0000_0000_0000,
                total_fulfilled <= i * 0x8000_0000_0000_0000,
                total_failed <= i * 0x8000_0000_0000_0000,
                latency_sum <= i * 0x1_0000_0000_0000_0000_0000,
            decreases CLIENT_THREADS - i,
        {
            let l = self.entries[i];
            assert(log_ok(l));
            let st = thread_stats(l);
            assert(self@.take(i + 1).drop_last() =~= self@.take(i as int));
            assert(self@.take(i + 1).last() == l);
            let sent = (l.sent_request + 1) as u128;
            let fulfilled = l.fulfilled_request as u128;
            proof {
                assert(st.avg_latency_ms <= st.total_latency_ms) by {
                    if l.fulfilled_request > 0 {
                        let lm = (l.total_latency / NANOS_PER_MILLI) as int;
                        let f = l.fulfilled_request as int;
                        assert(lm / f <= lm) by (nonlinear_arith)
                            requires
                                lm >= 0,
                                f >= 1,
                        ;
                    }
                }
                assert(st.total_latency_ms <= 0x1_0000_0000_0000_0000_0000) by {
                    assert(l.total_latency <= MAX_DURATION_NANOS);
                }
            }
            total_sent = total_sent + sent;
            total_fulfilled = total_fulfilled + fulfilled;
            total_failed = total_failed + (sent - fulfilled);
            latency_sum = latency_sum + st.avg_latency_ms;
            i = i + 1;
        }
        assert(self@.take(CLIENT_THREADS as int) =~= self@);
        proof {
            lemma_sent_is_fulfilled_plus_failed(self@);
        }
        Totals {
            total_sent,
            total_fulfilled,
            total_failed,
            avg_latency_ms: latency_sum / (CLIENT_THREADS as u128),
        }
    }
}

/// Every request is either measured or failed: over any rows, the requests
/// sent are the measured replies plus the failed requests.
pub proof fn lemma_sent_is_fulfilled_plus_failed(s: Seq<ClientLog>)
    ensures
        sum_sent(s) == sum_fulfilled(s) + sum_failed(s),
    decreases s.len(),
{
    if s.len() > 0 {
        lemma_sent_is_fulfilled_plus_failed(s.drop_last());
    }
}

/// A client thread whose id has a row in the table, and that has completed
/// at least one request, makes reports that the table takes, at any time that
/// a duration can stand for.
pub proof fn lemma_reports_recordable(s: RequestLoop, t: u128)
    requires
        s.wf(),
        s.sent >= 1,
        0 <= s.thread_id < CLIENT_THREADS,
        t <= MAX_DURATION_NANOS,
    ensures
        recordable(report_of(s, t)),
{
}

/// The line of the statistics file for one thread; `throughput` is the
/// thread's requests answered per second, already written out.
pub open spec fn thread_line_spec(st: ThreadStats, throughput: Seq<char>) -> Seq<char> {
    "Thread: "@ + signed_decimal(st.thread_id as int) + ", Sent: "@ + signed_decimal(st.sent as int)
        + ", Fullfilled: "@ + signed_decimal(st.fulfilled as int) + ", failedRequests: "@
        + signed_decimal(st.failed as int) + ", totalLatency: "@ + decimal(
        st.total_latency_ms as nat,
    ) + ", totalDuration: "@ + decimal(st.total_duration_ms as nat) + ", avgLatency: "@ + decimal(
        st.avg_latency_ms as nat,
    ) + ", avgThroughput: "@ + throughput + "\n"@
}

/// The last line of the statistics file; `throughput` is the sum of the
/// threads' throughputs, already written out.
pub open spec fn totals_line_spec(t: Totals, throughput: Seq<char>) -> Seq<char> {
    "TOTAL SENT: "@ + decimal(t.total_sent as nat) + ", TOTAL FULLFILLED: "@ + decimal(
        t.total_fulfilled as nat,
    ) + ", TOTAL FAILED: "@ + decimal(t.total_failed as nat) + ", AVG LATENCY: "@ + decimal(
        t.avg_latency_ms as nat,
    ) + ", TOTAL THROUGHPUT: "@ + throughput
}

/// The line of the statistics file for one thread.
pub fn thread_line(st: &ThreadStats, throughput: &str) -> (line: String)
    ensures
        line@ == thread_line_spec(*st, throughput@),
{
    let mut line = "Thread: ".to_owned();
    line.append(signed_decimal_text(st.thread_id as i64).as_str());
    line.append(", Sent: ");
    line.append(signed_decimal_text(st.sent).as_str());
    line.append(", Fullfilled: ");
    line.append(signed_decimal_text(st.fulfilled).as_str());
    line.append(", failedRequests: ");
    line.append(signed_decimal_text(st.failed).as_str());
    line.append(", totalLatency: ");
    line.append(decimal_text(st.total_latency_ms).as_str());
    line.append(", totalDuration: ");
    line.append(decimal_text(st.total_duration_ms).as_str());
    line.append(", avgLatency: ");
    line.append(decimal_text(st.avg_latency_ms).as_str());
    line.append(", avgThroughput: ");
    line.append(throughput);
    line.append("\n");
    line
}

/// The last line of the statistics file.
pub fn totals_line(t: &Totals, throughput: &str) -> (line: String)
    ensures
        line@ == totals_line_spec(*t, throughput@),
{
    let mut line = "TOTAL SENT: ".to_owned();
    line.append(decimal_text(t.total_sent).as_str());
    line.append(", TOTAL FULLFILLED: ");
    line.append(decimal_text(t.total_fulfilled).as_str());
    line.append(", TOTAL FAILED: ");
    line.append(decimal_text(t.total_failed).as_str());
    line.append(", AVG LATENCY: ");
    line.append(decimal_text(t.avg_latency_ms).as_str());
    line.append(", TOTAL THROUGHPUT: ");
    line.append(throughput);
    line
}

/// The rows after the reports `logs` have been recorded one after another.
pub open spec fn record_all(rows: Seq<ClientLog>, logs: Seq<ClientLog>) -> Seq<ClientLog>
    decreases logs.len(),
{
    if logs.len() == 0 {
        rows
    } else {
        record_all(rows, logs.drop_last()).update(logs.last().thread_id as int, logs.last())
    }
}

/// The last report of thread `t` among `logs`, if there is one.
pub open spec fn last_log(logs: Seq<ClientLog>, t: int) -> Option<ClientLog>
    decreases logs.len(),
{
    if logs.len() == 0 {
        None
    } else if logs.last().thread_id == t {
        Some(logs.last())
    } else {
        last_log(logs.drop_last(), t)
    }
}

/// Each row holds the last report of its thread, or what it held before when
/// the thread did not report.
pub proof fn lemma_row_is_last_log(rows: Seq<ClientLog>, logs: Seq<ClientLog>, t: int)
    requires
        rows.len() == CLIENT_THREADS,
        forall|k: int| 0 <= k < logs.len() ==> recordable(#[trigger] logs[k]),
        0 <= t < CLIENT_THREADS,
    ensures
        record_all(rows, logs).len() == CLIENT_THREADS,
        record_all(rows, logs)[t] == (match last_log(logs, t) {
            Some(l) => l,
            None => rows[t],
        }),
    decreases logs.len(),
{
    if logs.len() > 0 {
        let init = logs.drop_last();
        assert forall|k: int| 0 <= k < init.len() implies recordable(#[trigger] init[k]) by {
            assert(init[k] == logs[k]);
        }
        assert(recordable(logs[logs.len() - 1]));
        lemma_row_is_last_log(rows, init, t);
    }
}

/// The table depends only on the last report of each thread: two streams of
/// reports that end with the same report for every thread (or with none for
/// it in both) leave the same rows, and so the same statistics, whatever
/// their order, repetitions or superseded reports.
pub proof fn lemma_same_last_logs_same_rows(
    rows: Seq<ClientLog>,
    logs1: Seq<ClientLog>,
    logs2: Seq<ClientLog>,
)
    requires
        rows.len() == CLIENT_THREADS,
        forall|k: int| 0 <= k < logs1.len() ==> recordable(#[trigger] logs1[k]),
        forall|k: int| 0 <= k < logs2.len() ==> recordable(#[trigger] logs2[k]),
        forall|t: int| 0 <= t < CLIENT_THREADS ==> #[trigger] last_log(logs1, t) == last_log(logs2, t),
    ensures
        record_all(rows, logs1) == record_all(rows, logs2),
{
    assert forall|t: int| 0 <= t < CLIENT_THREADS implies #[trigger] record_all(rows, logs1)[t]
        == record_all(rows, logs2)[t] by {
        lemma_row_is_last_log(rows, logs1, t);
        lemma_row_is_last_log(rows, logs2, t);
        assert(last_log(logs1, t) == last_log(logs2, t));
    }
    lemma_row_is_last_log(rows, logs1, 0);
    lemma_row_is_last_log(rows, logs2, 0);
    assert(record_all(rows, logs1) =~= record_all(rows, logs2));
}

} // verus!
