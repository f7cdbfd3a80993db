//! Properties of the timer commands that hold for all inputs.
use vstd::prelude::*;
use crate::interval::{SleepDuration, elapsed_ms, is_open, last_open, log_wf, start_log, stop_log,
    total_ms, lemma_start_keeps_wf, lemma_stop_keeps_wf};
use crate::registry::{StartOutcome, start_outcome};
use crate::commands::report_text;
use crate::text::{decimal, hours_minutes};

verus! {

/// The log after a Start at each instant of `ts` in turn.
pub open spec fn start_all(s: Seq<SleepDuration>, ts: Seq<i64>) -> Seq<SleepDuration>
    decreases ts.len(),
{
    if ts.len() == 0 {
        s
    } else {
        start_log(start_all(s, ts.drop_last()), ts.last())
    }
}

/// The log after a run of commands: `(true, t)` is a Start at `t`, `(false, t)`
/// a Stop at `t`.
pub open spec fn apply_commands(s: Seq<SleepDuration>, cmds: Seq<(bool, i64)>) -> Seq<SleepDuration>
    decreases cmds.len(),
{
    if cmds.len() == 0 {
        s
    } else {
        let before = apply_commands(s, cmds.drop_last());
        if cmds.last().0 {
            start_log(before, cmds.last().1)
        } else {
            stop_log(before, cmds.last().1)
        }
    }
}

/// After a Start that opened an interval, a second Start before any Stop reports
/// that the timer runs since that interval's start, and leaves the log as it is.
pub proof fn lemma_no_double_start(s: Seq<SleepDuration>, t0: i64, t1: i64)
    requires
        log_wf(s),
        start_outcome(s, t0) == StartOutcome::Started,
    ensures
        start_log(s, t0).len() == s.len() + 1,
        start_outcome(start_log(s, t0), t1)
            == StartOutcome::AlreadyRunning(start_log(s, t0).last().started_at),
        start_log(start_log(s, t0), t1) == start_log(s, t0),
{
}

/// Any number of Starts on a fresh conversation: the first one opens the only
/// interval, at its instant, and each later one reports that instant.
pub proof fn lemma_repeated_starts(ts: Seq<i64>, k: int)
    requires
        1 <= k <= ts.len(),
    ensures
        start_outcome(Seq::empty(), ts[0]) == StartOutcome::Started,
        start_all(Seq::empty(), ts.take(k))
            == seq![SleepDuration { started_at: ts[0], stopped_at: None }],
        k < ts.len() ==> start_outcome(start_all(Seq::empty(), ts.take(k)), ts[k])
            == StartOutcome::AlreadyRunning(ts[0]),
    decreases k,
{
    let one = seq![SleepDuration { started_at: ts[0], stopped_at: None }];
    let prefix = ts.take(k);
    assert(prefix.last() == ts[k - 1]);
    if k == 1 {
        assert(prefix.drop_last() =~= Seq::<i64>::empty());
        assert(start_all(Seq::empty(), prefix.drop_last()) == Seq::<SleepDuration>::empty());
        assert(start_log(Seq::empty(), ts[0]) =~= one);
    } else {
        lemma_repeated_starts(ts, k - 1);
        assert(prefix.drop_last() =~= ts.take(k - 1));
        assert(start_all(Seq::empty(), prefix.drop_last()) == one);
        assert(last_open(one));
    }
    assert(start_all(Seq::empty(), prefix) == one);
}

/// Start at `t0` then Stop at a later or equal `t1` leaves one closed interval
/// from `t0` to `t1`, of `t1 - t0` milliseconds.
pub proof fn lemma_stop_closes(t0: i64, t1: i64)
    requires
        t0 <= t1,
    ensures
        stop_log(start_log(Seq::empty(), t0), t1)
            == seq![SleepDuration { started_at: t0, stopped_at: Some(t1) }],
        elapsed_ms(stop_log(start_log(Seq::empty(), t0), t1)[0]) == t1 - t0,
        total_ms(stop_log(start_log(Seq::empty(), t0), t1)) == t1 - t0,
{
    let r = stop_log(start_log(Seq::empty(), t0), t1);
    assert(r =~= seq![SleepDuration { started_at: t0, stopped_at: Some(t1) }]);
    assert(r.drop_last() =~= Seq::<SleepDuration>::empty());
    assert(total_ms(r.drop_last()) == 0);
}

/// A Stop on a conversation with no open interval leaves its log as it is.
pub proof fn lemma_stop_on_idle(s: Seq<SleepDuration>, t: i64)
    requires
        !last_open(s),
    ensures
        stop_log(s, t) == s,
{
}

/// After a Stop no interval is open, whatever the log held before.
pub proof fn lemma_stop_leaves_idle(s: Seq<SleepDuration>, t: i64)
    ensures
        !last_open(stop_log(s, t)),
        stop_log(s, t).len() == s.len(),
{
}

/// The report on a conversation without intervals has no lines and a total of `0:0`.
pub proof fn lemma_report_on_empty()
    ensures
        report_text(Seq::empty()) == "\u{1F4CA} Current state:\n\nTotal sleep 0:0"@,
{
    reveal_strlit("\u{1F4CA} Current state:\n");
    reveal_strlit("\nTotal sleep ");
    reveal_strlit("\u{1F4CA} Current state:\n\nTotal sleep 0:0");
    assert(decimal(0) == seq!['0']);
    assert(hours_minutes(0) =~= seq!['0', ':', '0']);
    assert(report_text(Seq::empty()) =~= "\u{1F4CA} Current state:\n\nTotal sleep 0:0"@);
}

/// Start, Stop, Start, Stop at increasing instants leave two closed intervals in
/// that order, and a total of the two spans.
pub proof fn lemma_interleaving(t0: i64, t1: i64, t2: i64, t3: i64)
    requires
        t0 < t1 < t2 < t3,
    ensures
        stop_log(start_log(stop_log(start_log(Seq::empty(), t0), t1), t2), t3) == seq![
            SleepDuration { started_at: t0, stopped_at: Some(t1) },
            SleepDuration { started_at: t2, stopped_at: Some(t3) },
        ],
        total_ms(stop_log(start_log(stop_log(start_log(Seq::empty(), t0), t1), t2), t3))
            == (t1 - t0) + (t3 - t2),
{
    let a = SleepDuration { started_at: t0, stopped_at: Some(t1) };
    let b = SleepDuration { started_at: t2, stopped_at: Some(t3) };
    let one = stop_log(start_log(Seq::empty(), t0), t1);
    assert(one =~= seq![a]);
    let r = stop_log(start_log(one, t2), t3);
    assert(r =~= seq![a, b]);
    assert(r.drop_last() =~= seq![a]);
    assert(seq![a].drop_last() =~= Seq::<SleepDuration>::empty());
    assert(total_ms(seq![a].drop_last()) == 0);
    assert(total_ms(seq![a]) == t1 - t0);
    assert(total_ms(r) == total_ms(seq![a]) + (t3 - t2));
}

/// Whatever Starts and Stops a conversation receives, in whatever order and at
/// whatever instants, its log stays well formed: only its last interval may be
/// open, and no closed interval ends before it starts.
pub proof fn lemma_commands_keep_wf(cmds: Seq<(bool, i64)>)
    ensures
        log_wf(apply_commands(Seq::empty(), cmds)),
    decreases cmds.len(),
{
    if cmds.len() > 0 {
        lemma_commands_keep_wf(cmds.drop_last());
        let before = apply_commands(Seq::empty(), cmds.drop_last());
        if cmds.last().0 {
            lemma_start_keeps_wf(before, cmds.last().1);
        } else {
            lemma_stop_keeps_wf(before, cmds.last().1);
        }
    }
}

/// In a well-formed log no interval but the last is open, and every closed
/// interval has a non-negative span.
pub proof fn lemma_wf_log_intervals(s: Seq<SleepDuration>)
    requires
        log_wf(s),
    ensures
        forall|i: int| 0 <= i < s.len() - 1 ==> !is_open(#[trigger] s[i]),
        forall|i: int| 0 <= i < s.len() ==> elapsed_ms(#[trigger] s[i]) >= 0,
{
    assert forall|i: int| 0 <= i < s.len() implies elapsed_ms(#[trigger] s[i]) >= 0 by {
        match s[i].stopped_at {
            Some(e) => {},
            None => {},
        }
    }
}

} // verus!
