//! A server's log of its load: one line per second with the requests it
//! served and a running average, or a line when it goes down. The log file
//! holds a window of entries: after every hundred lines it is written again
//! from its start.

use vstd::prelude::*;

use crate::environment::utc_now_text;
use crate::text::{signed_decimal, signed_decimal_text};

verus! {

/// How many lines are written before the log starts again at its top.
pub const LOG_WINDOW: i32 = 100;

/// The load value that stands for "this server is down".
pub const SERVER_DOWN: i64 = -1;

/// `x / 2` rounded toward zero, as Rust's integer division rounds.
pub open spec fn half_toward_zero(x: int) -> int {
    if x >= 0 {
        x / 2
    } else {
        -((-x) / 2)
    }
}

/// The line for a second in which `load` requests were served and the
/// average became `avg`.
pub open spec fn load_line(now: Seq<char>, load: int, avg: int) -> Seq<char> {
    "Time: "@ + now + ", Reqestes/sec: "@ + signed_decimal(load) + ", Avg Reqestes/sec: "@
        + signed_decimal(avg) + "\n"@
}

/// The line written when the server goes down.
pub open spec fn down_line(now: Seq<char>) -> Seq<char> {
    "Server down at time: "@ + now + "\n"@
}

/// A write to the log: first go back to the top of the file if `rewind`,
/// then write `line`.
pub struct LogWrite {
    pub rewind: bool,
    pub line: String,
}

/// The running average of the load and the number of lines written since the
/// log last started again at its top.
pub struct ServerLog {
    pub avg_load: i64,
    pub lines: i32,
}

impl ServerLog {
    /// A log that has written nothing, with an average of 0.
    pub fn new() -> (log: ServerLog)
        ensures
            log.avg_load == 0,
            log.lines == 0,
    {
        ServerLog { avg_load: 0, lines: 0 }
    }

    /// The number of lines since the top never goes past the window.
    pub open spec fn wf(&self) -> bool {
        0 <= self.lines <= LOG_WINDOW
    }

    /// Records one value received by the logger: `SERVER_DOWN`, or the number
    /// of requests of the last second, which moves the average halfway
    /// toward it. `now` is the time to write in the line.
    pub fn record(&mut self, load: i64, now: &str) -> (w: LogWrite)
        requires
            old(self).wf(),
            load != SERVER_DOWN ==> i64::MIN <= old(self).avg_load + load <= i64::MAX,
        ensures
            final(self).wf(),
            w.rewind == (old(self).lines >= LOG_WINDOW),
            final(self).lines == (if w.rewind {
                0
            } else {
                old(self).lines as int
            }) + 1,
            load == SERVER_DOWN ==> final(self).avg_load == old(self).avg_load && w.line@
                == down_line(now@),
            load != SERVER_DOWN ==> final(self).avg_load == half_toward_zero(
                old(self).avg_load + load,
            ) && w.line@ == load_line(now@, load as int, final(self).avg_load as int),
    {
        let rewind = self.lines >= LOG_WINDOW;
        if rewind {
            self.lines = 0;
        }
        let mut line = if load == SERVER_DOWN {
            let mut line = "Server down at time: ".to_owned();
            line.append(now);
            line.append("\n");
            line
        } else {
            let sum = self.avg_load + load;
            let avg = sum / 2;
            self.avg_load = avg;
            let mut line = "Time: ".to_owned();
            line.append(now);
            line.append(", Reqestes/sec: ");
            line.append(signed_decimal_text(load).as_str());
            line.append(", Avg Reqestes/sec: ");
            line.append(signed_decimal_text(avg).as_str());
            line.append("\n");
            line
        };
        self.lines = self.lines + 1;
        LogWrite { rewind, line }
    }

    /// Records one value received by the logger, stamped with the current
    /// time.
    pub fn record_now(&mut self, load: i64) -> (w: LogWrite)
        requires
            old(self).wf(),
            load != SERVER_DOWN ==> i64::MIN <= old(self).avg_load + load <= i64::MAX,
        ensures
            final(self).wf(),
            w.rewind == (old(self).lines >= LOG_WINDOW),
            final(self).lines == (if w.rewind {
                0
            } else {
                old(self).lines as int
            }) + 1,
            load == SERVER_DOWN ==> final(self).avg_load == old(self).avg_load && exists|now: Seq<
                char,
            >| w.line@ == down_line(now),
            load != SERVER_DOWN ==> final(self).avg_load == half_toward_zero(
                old(self).avg_load + load,
            ) && exists|now: Seq<char>|
                w.line@ == load_line(now, load as int, final(self).avg_load as int),
    {
        let now = utc_now_text();
        self.record(load, now.as_str())
    }
}

/// The new average lies between the old average and the load of the second.
pub proof fn lemma_average_between(avg: int, load: int)
    ensures
        avg <= load ==> avg <= half_toward_zero(avg + load) <= load,
        load <= avg ==> load <= half_toward_zero(avg + load) <= avg,
{
}

} // verus!
