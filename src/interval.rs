//! One conversation's interval log and the two transitions on it.
use vstd::prelude::*;

verus! {

/// One timing record: open while `stopped_at` is `None`.
#[derive(Clone, Copy, Debug, PartialEq, Eq, Structural)]
pub struct SleepDuration {
    pub started_at: i64,
    pub stopped_at: Option<i64>,
}

pub open spec fn is_open(d: SleepDuration) -> bool {
    d.stopped_at is None
}

/// Elapsed milliseconds of a closed interval (zero for an open one).
pub open spec fn elapsed_ms(d: SleepDuration) -> int {
    match d.stopped_at {
        Some(e) => e - d.started_at,
        None => 0,
    }
}

/// The last interval of the log exists and is open.
pub open spec fn last_open(s: Seq<SleepDuration>) -> bool {
    s.len() > 0 && is_open(s.last())
}

/// Only the last interval may be open, every closed interval ends no earlier
/// than it starts, and each interval starts no earlier than the previous one ends.
pub open spec fn log_wf(s: Seq<SleepDuration>) -> bool {
    &&& forall|i: int| 0 <= i < s.len() - 1 ==> !is_open(#[trigger] s[i])
    &&& forall|i: int|
        0 <= i < s.len() ==> match (#[trigger] s[i]).stopped_at {
            Some(e) => s[i].started_at <= e,
            None => true,
        }
    &&& forall|i: int|
        0 <= i < s.len() - 1 ==> match (#[trigger] s[i]).stopped_at {
            Some(e) => e <= s[i + 1].started_at,
            None => true,
        }
}

/// The instant at which a Start at `t` opens its interval: `t`, or the end of
/// the previous interval if that is later.
pub open spec fn start_instant(s: Seq<SleepDuration>, t: i64) -> i64 {
    if s.len() > 0 {
        match s.last().stopped_at {
            Some(e) => if e > t { e } else { t },
            None => t,
        }
    } else {
        t
    }
}

/// The log after a Start at `t`: unchanged while an interval is open, else one
/// more open interval.
pub open spec fn start_log(s: Seq<SleepDuration>, t: i64) -> Seq<SleepDuration> {
    if last_open(s) {
        s
    } else {
        s.push(SleepDuration { started_at: start_instant(s, t), stopped_at: None })
    }
}

/// The log after a Stop at `t`: the trailing open interval, if any, is closed at
/// `t`, or at its own start if that is later.
pub open spec fn stop_log(s: Seq<SleepDuration>, t: i64) -> Seq<SleepDuration> {
    if last_open(s) {
        let st = s.last().started_at;
        s.update(
            s.len() - 1,
            SleepDuration { started_at: st, stopped_at: Some(if t >= st { t } else { st }) },
        )
    } else {
        s
    }
}

/// Sum of the elapsed milliseconds of the closed intervals.
pub open spec fn total_ms(s: Seq<SleepDuration>) -> int
    decreases s.len(),
{
    if s.len() == 0 {
        0
    } else {
        total_ms(s.drop_last()) + elapsed_ms(s.last())
    }
}

/// A Start keeps a well-formed log well formed.
pub proof fn lemma_start_keeps_wf(s: Seq<SleepDuration>, t: i64)
    requires
        log_wf(s),
    ensures
        log_wf(start_log(s, t)),
{
    let r = start_log(s, t);
    if !last_open(s) {
        assert forall|i: int| 0 <= i < r.len() - 1 implies !is_open(#[trigger] r[i]) by {
            assert(r[i] == s[i]);
        }
        assert forall|i: int| 0 <= i < r.len() - 1 implies match (#[trigger] r[i]).stopped_at {
            Some(e) => e <= r[i + 1].started_at,
            None => true,
        } by {
            assert(r[i] == s[i]);
            if i < s.len() - 1 {
                assert(r[i + 1] == s[i + 1]);
            }
        }
    }
}

/// A Stop keeps a well-formed log well formed.
pub proof fn lemma_stop_keeps_wf(s: Seq<SleepDuration>, t: i64)
    requires
        log_wf(s),
    ensures
        log_wf(stop_log(s, t)),
{
    let r = stop_log(s, t);
    if last_open(s) {
        assert forall|i: int| 0 <= i < r.len() - 1 implies match (#[trigger] r[i]).stopped_at {
            Some(e) => e <= r[i + 1].started_at,
            None => true,
        } by {
            assert(r[i] == s[i]);
            if i < s.len() - 2 {
                assert(r[i + 1] == s[i + 1]);
            }
        }
        assert forall|i: int| 0 <= i < r.len() - 1 implies !is_open(#[trigger] r[i]) by {
            assert(r[i] == s[i]);
        }
    }
}

/// A conversation's log, in chronological order.
#[derive(Clone, Debug)]
pub struct SleepInterval {
    pub dates_arr: Vec<SleepDuration>,
}

impl SleepInterval {
    pub open spec fn view(&self) -> Seq<SleepDuration> {
        self.dates_arr@
    }

    pub fn new() -> (r: Self)
        ensures
            r.view() == Seq::<SleepDuration>::empty(),
    {
        SleepInterval { dates_arr: Vec::new() }
    }

    /// True when the last interval is open.
    pub fn has_open(&self) -> (r: bool)
        ensures
            r == last_open(self.view()),
    {
        let n = self.dates_arr.len();
        n > 0 && self.dates_arr[n - 1].stopped_at.is_none()
    }

    /// Opens a new interval; the log must have none open.
    pub fn start_timer(&mut self, time: i64)
        requires
            !last_open(old(self).view()),
            log_wf(old(self).view()),
        ensures
            final(self).view() == start_log(old(self).view(), time),
            log_wf(final(self).view()),
    {
        let n = self.dates_arr.len();
        let mut at = time;
        if n > 0 {
            match self.dates_arr[n - 1].stopped_at {
                Some(e) => {
                    if e > time {
                        at = e;
                    }
                },
                None => {},
            }
        }
        self.dates_arr.push(SleepDuration { started_at: at, stopped_at: None });
        proof {
            lemma_start_keeps_wf(old(self).view(), time);
        }
    }

    /// Closes the trailing open interval, if there is one.
    pub fn stop_timer(&mut self, time: i64)
        requires
            log_wf(old(self).view()),
        ensures
            final(self).view() == stop_log(old(self).view(), time),
            log_wf(final(self).view()),
    {
        let n = self.dates_arr.len();
        if n > 0 && self.dates_arr[n - 1].stopped_at.is_none() {
            let st = self.dates_arr[n - 1].started_at;
            let end = if time >= st { time } else { st };
            self.dates_arr.set(n - 1, SleepDuration { started_at: st, stopped_at: Some(end) });
        }
        proof {
            lemma_stop_keeps_wf(old(self).view(), time);
        }
    }
}

} // verus!
