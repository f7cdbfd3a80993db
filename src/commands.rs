//! The timer commands and greeting: what each one does to the registry and the
//! text it replies with.
use vstd::prelude::*;
use crate::interval::{SleepDuration, elapsed_ms, is_open, log_wf, start_log, stop_log, total_ms};
use crate::registry::{StartOutcome, TimerRegistry, start_outcome};
use crate::text::{format_instant, hours_minutes, instant_text, push_hours_minutes};

verus! {

/// The reply to a Start: `when` is the instant of the Start, or for a timer that
/// is running already, the instant at which it started.
pub open spec fn start_reply_text(outcome: StartOutcome, when: Seq<char>) -> Seq<char> {
    match outcome {
        StartOutcome::Started => "Started at "@ + when,
        StartOutcome::AlreadyRunning(_) => "Timer already started at "@ + when,
    }
}

/// The reply to a Start at `now` on a conversation whose log is `s`.
pub open spec fn start_message(s: Seq<SleepDuration>, now: i64) -> Seq<char> {
    let outcome = start_outcome(s, now);
    match outcome {
        StartOutcome::Started => start_reply_text(outcome, instant_text(now)),
        StartOutcome::AlreadyRunning(t) => start_reply_text(outcome, instant_text(t)),
    }
}

pub open spec fn stop_reply_text(when: Seq<char>) -> Seq<char> {
    "Ends at "@ + when
}

/// One line of the report, given the texts of the interval's two instants.
pub open spec fn interval_line_text(d: SleepDuration, started: Seq<char>, stopped: Seq<char>) -> Seq<char> {
    if is_open(d) {
        "Started at "@ + started + " \n"@
    } else {
        "Started at "@ + started + ", Stopped at "@ + stopped + ", Time spent "@
            + hours_minutes(elapsed_ms(d) as nat) + " \n"@
    }
}

pub open spec fn line_text(d: SleepDuration) -> Seq<char> {
    interval_line_text(
        d,
        instant_text(d.started_at),
        match d.stopped_at {
            Some(e) => instant_text(e),
            None => Seq::empty(),
        },
    )
}

/// The lines of all intervals, in log order.
pub open spec fn lines_text(s: Seq<SleepDuration>) -> Seq<char>
    decreases s.len(),
{
    if s.len() == 0 {
        Seq::empty()
    } else {
        lines_text(s.drop_last()) + line_text(s.last())
    }
}

pub open spec fn report_header() -> Seq<char> {
    "\u{1F4CA} Current state:\n"@
}

pub open spec fn total_line_text(total: nat) -> Seq<char> {
    "\nTotal sleep "@ + hours_minutes(total)
}

/// The report on a log: a header, one line per interval, and the total time of
/// the closed intervals.
pub open spec fn report_text(s: Seq<SleepDuration>) -> Seq<char> {
    report_header() + lines_text(s) + total_line_text(total_ms(s) as nat)
}

/// The reply to a Start, given the text of the instant it names.
pub fn start_reply(outcome: StartOutcome, when: &str) -> (r: String)
    ensures
        r@ == start_reply_text(outcome, when@),
{
    let mut r = match outcome {
        StartOutcome::Started => String::from_str("Started at "),
        StartOutcome::AlreadyRunning(_) => String::from_str("Timer already started at "),
    };
    r.append(when);
    r
}

/// The reply to a Stop, given the text of its instant.
pub fn stop_reply(when: &str) -> (r: String)
    ensures
        r@ == stop_reply_text(when@),
{
    let mut r = String::from_str("Ends at ");
    r.append(when);
    r
}

/// One line of the report, given the texts of the interval's instants (the
/// second is not used for an open interval).
pub fn interval_line(d: SleepDuration, started: &str, stopped: &str) -> (r: String)
    requires
        match d.stopped_at {
            Some(e) => d.started_at <= e,
            None => true,
        },
    ensures
        r@ == interval_line_text(d, started@, stopped@),
{
    let mut r = String::from_str("Started at ");
    r.append(started);
    match d.stopped_at {
        Some(e) => {
            r.append(", Stopped at ");
            r.append(stopped);
            r.append(", Time spent ");
            let spent: u128 = (e as i128 - d.started_at as i128) as u128;
            push_hours_minutes(&mut r, spent);
            r.append(" \n");
        },
        None => {
            r.append(" \n");
        },
    }
    r
}

/// The closing line of the report for a total of `total` milliseconds.
pub fn total_line(total: u128) -> (r: String)
    ensures
        r@ == total_line_text(total as nat),
{
    let mut r = String::from_str("\nTotal sleep ");
    push_hours_minutes(&mut r, total);
    r
}

fn line_of(d: SleepDuration) -> (r: String)
    requires
        match d.stopped_at {
            Some(e) => d.started_at <= e,
            None => true,
        },
    ensures
        r@ == line_text(d),
{
    let started = format_instant(d.started_at);
    let stopped = match d.stopped_at {
        Some(e) => format_instant(e),
        None => String::new(),
    };
    interval_line(d, started.as_str(), stopped.as_str())
}

/// The report on a log.
pub fn stats_report(log: &Vec<SleepDuration>) -> (r: String)
    requires
        log_wf(log@),
    ensures
        r@ == report_text(log@),
{
    let s = Ghost(log@);
    let mut r = String::from_str("\u{1F4CA} Current state:\n");
    let mut total: u128 = 0;
    let mut i: usize = 0;
    while i < log.len()
        invariant
            s@ == log@,
            log_wf(s@),
            i <= log.len(),
            r@ == report_header() + lines_text(s@.take(i as int)),
            total == total_ms(s@.take(i as int)),
            total <= i * 0xffff_ffff_ffff_ffffu128,
        decreases log.len() - i,
    {
        let d = log[i];
        assert(s@.take(i + 1).drop_last() =~= s@.take(i as int));
        assert(s@.take(i + 1).last() == d);
        let line = line_of(d);
        r.append(line.as_str());
        match d.stopped_at {
            Some(e) => {
                let spent: u128 = (e as i128 - d.started_at as i128) as u128;
                assert(spent <= 0xffff_ffff_ffff_ffffu128);
                assert(total + spent <= (i + 1) * 0xffff_ffff_ffff_ffffu128) by (nonlinear_arith)
                    requires
                        total <= i * 0xffff_ffff_ffff_ffffu128,
                        spent <= 0xffff_ffff_ffff_ffffu128,
                ;
                assert((i + 1) * 0xffff_ffff_ffff_ffffu128 <= 0xffff_ffff_ffff_ffffu128 * 0xffff_ffff_ffff_ffffu128) by (nonlinear_arith)
                    requires
                        i < 0xffff_ffff_ffff_ffffu128,
                ;
                total = total + spent;
            },
            None => {
                assert((i + 1) * 0xffff_ffff_ffff_ffffu128 >= i * 0xffff_ffff_ffff_ffffu128) by (nonlinear_arith);
            },
        }
        assert(r@ =~= report_header() + lines_text(s@.take(i + 1)));
        i = i + 1;
    }
    assert(s@.take(i as int) =~= s@);
    let last = total_line(total);
    r.append(last.as_str());
    r
}

/// Answers help requests.
pub struct HelpCommandHandler {}

impl HelpCommandHandler {
    pub fn new() -> (r: Self) {
        HelpCommandHandler {}
    }
}

pub open spec fn welcome_text(first_name: Seq<char>) -> Seq<char> {
    "\u{1F44B} Welcome, "@ + first_name + "!"@
}

/// Greets a participant who joined a conversation.
pub struct NewChatMemberHandler {}

impl NewChatMemberHandler {
    pub fn new() -> (r: Self) {
        NewChatMemberHandler {}
    }

    /// The greeting for a participant of the given first name.
    pub fn handle(&self, first_name: &str) -> (r: String)
        ensures
            r@ == welcome_text(first_name@),
    {
        let mut r = String::from_str("\u{1F44B} Welcome, ");
        r.append(first_name);
        r.append("!");
        r
    }
}

/// Starts a conversation's timer.
pub struct StartCommandHandler {}

impl StartCommandHandler {
    pub fn new() -> (r: Self) {
        StartCommandHandler {}
    }

    /// Starts the timer of `chat_id` at `now_ms` unless it runs already, and
    /// returns the reply.
    pub fn handle(&self, registry: &mut TimerRegistry, chat_id: i64, now_ms: i64) -> (r: String)
        requires
            old(registry).wf(),
        ensures
            final(registry).wf(),
            final(registry).log_of(chat_id) == start_log(old(registry).log_of(chat_id), now_ms),
            forall|other: i64| other != chat_id
                ==> final(registry).log_of(other) == old(registry).log_of(other),
            r@ == start_message(old(registry).log_of(chat_id), now_ms),
    {
        let outcome = registry.try_start(chat_id, now_ms);
        let when = match outcome {
            StartOutcome::Started => format_instant(now_ms),
            StartOutcome::AlreadyRunning(t) => format_instant(t),
        };
        start_reply(outcome, when.as_str())
    }
}

/// Stops a conversation's timer.
pub struct StopCommandHandler {}

impl StopCommandHandler {
    pub fn new() -> (r: Self) {
        StopCommandHandler {}
    }

    /// Stops the timer of `chat_id` at `now_ms`, whether or not it ran, and
    /// returns the reply.
    pub fn handle(&self, registry: &mut TimerRegistry, chat_id: i64, now_ms: i64) -> (r: String)
        requires
            old(registry).wf(),
        ensures
            final(registry).wf(),
            final(registry).log_of(chat_id) == stop_log(old(registry).log_of(chat_id), now_ms),
            forall|other: i64| other != chat_id
                ==> final(registry).log_of(other) == old(registry).log_of(other),
            r@ == stop_reply_text(instant_text(now_ms)),
    {
        registry.stop(chat_id, now_ms);
        let when = format_instant(now_ms);
        stop_reply(when.as_str())
    }
}

/// Reports a conversation's intervals.
pub struct StatsCommandHandler {}

impl StatsCommandHandler {
    pub fn new() -> (r: Self) {
        StatsCommandHandler {}
    }

    /// The report on the intervals of `chat_id`; an empty one where it was never
    /// started.
    pub fn handle(&self, registry: &TimerRegistry, chat_id: i64) -> (r: String)
        requires
            registry.wf(),
        ensures
            r@ == report_text(registry.log_of(chat_id)),
    {
        let log = registry.snapshot(chat_id);
        proof {
            registry.lemma_logs_wf(chat_id);
        }
        stats_report(&log)
    }
}

} // verus!
