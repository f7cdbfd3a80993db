//! Timer state of each conversation, and the registry that holds it keyed by
//! conversation id.
use vstd::prelude::*;
use dashmap::DashMap;
use crate::interval::{SleepDuration, SleepInterval, last_open, log_wf, start_log, stop_log};

verus! {

#[verifier::external_type_specification]
#[verifier::external_body]
#[verifier::reject_recursive_types(K)]
#[verifier::reject_recursive_types(V)]
#[verifier::reject_recursive_types(S)]
pub struct ExDashMap<K, V, S>(DashMap<K, V, S>);

/// What a Start reports.
#[derive(Clone, Copy, Debug, PartialEq, Eq, Structural)]
pub enum StartOutcome {
    /// A new interval was opened.
    Started,
    /// An interval is open already; it started at the given instant.
    AlreadyRunning(i64),
}

/// What a Start at `t` reports on a conversation whose log is `s`.
pub open spec fn start_outcome(s: Seq<SleepDuration>, t: i64) -> StartOutcome {
    if last_open(s) {
        StartOutcome::AlreadyRunning(s.last().started_at)
    } else {
        StartOutcome::Started
    }
}

/// One conversation's running flag and interval log.
#[derive(Clone, Debug)]
pub struct ConversationTimer {
    pub running: bool,
    pub log: SleepInterval,
}

impl ConversationTimer {
    pub open spec fn view(&self) -> Seq<SleepDuration> {
        self.log.view()
    }

    /// The flag says whether the last interval is open, and the log is well formed.
    pub open spec fn wf(&self) -> bool {
        &&& self.running == last_open(self.view())
        &&& log_wf(self.view())
    }

    pub fn new() -> (r: Self)
        ensures
            r.wf(),
            r.view() == Seq::<SleepDuration>::empty(),
    {
        ConversationTimer { running: false, log: SleepInterval::new() }
    }

    /// Opens an interval at `time` unless one is open already.
    pub fn try_start(&mut self, time: i64) -> (r: StartOutcome)
        requires
            old(self).wf(),
        ensures
            final(self).wf(),
            r == start_outcome(old(self).view(), time),
            final(self).view() == start_log(old(self).view(), time),
    {
        if self.running {
            let n = self.log.dates_arr.len();
            StartOutcome::AlreadyRunning(self.log.dates_arr[n - 1].started_at)
        } else {
            self.log.start_timer(time);
            self.running = true;
            StartOutcome::Started
        }
    }

    /// Clears the flag and closes the open interval, if any, at `time`.
    pub fn stop(&mut self, time: i64)
        requires
            old(self).wf(),
        ensures
            final(self).wf(),
            final(self).view() == stop_log(old(self).view(), time),
    {
        self.log.stop_timer(time);
        self.running = false;
    }
}

/// What the map holds, by conversation id.
pub uninterp spec fn timer_entries(m: DashMap<i64, ConversationTimer>) -> Map<i64, ConversationTimer>;

/// Relies on `DashMap::new`: the new map is empty.
#[verifier::external_body]
fn new_timer_map() -> (r: DashMap<i64, ConversationTimer>)
    ensures
        timer_entries(r).dom().is_empty(),
{
    DashMap::new()
}

/// Relies on `DashMap::get`: the value under `id`, if there is one, copied by
/// the derived `Clone`, which copies every field.
#[verifier::external_body]
fn timer_map_get(m: &DashMap<i64, ConversationTimer>, id: i64) -> (r: Option<ConversationTimer>)
    ensures
        r == (if timer_entries(*m).contains_key(id) {
            Some(timer_entries(*m)[id])
        } else {
            None
        }),
{
    m.get(&id).map(|e| e.value().clone())
}

/// Relies on `DashMap::insert`: `id` maps to `c` afterwards, other keys are kept.
#[verifier::external_body]
fn timer_map_insert(m: &mut DashMap<i64, ConversationTimer>, id: i64, c: ConversationTimer)
    ensures
        timer_entries(*final(m)) == timer_entries(*old(m)).insert(id, c),
{
    m.insert(id, c);
}

/// The timers of all conversations. A conversation that was never started has
/// an empty log and is idle.
pub struct TimerRegistry {
    timers: DashMap<i64, ConversationTimer>,
}

impl TimerRegistry {
    /// The log of conversation `id`; empty where it has no entry.
    pub closed spec fn log_of(&self, id: i64) -> Seq<SleepDuration> {
        if timer_entries(self.timers).contains_key(id) {
            timer_entries(self.timers)[id].view()
        } else {
            Seq::empty()
        }
    }

    /// Every entry is well formed.
    pub closed spec fn wf(&self) -> bool {
        forall|id: i64| #[trigger] timer_entries(self.timers).contains_key(id)
            ==> timer_entries(self.timers)[id].wf()
    }

    pub fn new() -> (r: Self)
        ensures
            r.wf(),
            forall|id: i64| r.log_of(id) == Seq::<SleepDuration>::empty(),
    {
        TimerRegistry { timers: new_timer_map() }
    }

    fn timer_of(&self, id: i64) -> (r: ConversationTimer)
        requires
            self.wf(),
        ensures
            r.wf(),
            r.view() == self.log_of(id),
    {
        match timer_map_get(&self.timers, id) {
            Some(c) => c,
            None => ConversationTimer::new(),
        }
    }

    /// Starts the timer of `id` at `time` unless it is running; as one step.
    pub fn try_start(&mut self, id: i64, time: i64) -> (r: StartOutcome)
        requires
            old(self).wf(),
        ensures
            final(self).wf(),
            r == start_outcome(old(self).log_of(id), time),
            final(self).log_of(id) == start_log(old(self).log_of(id), time),
            forall|other: i64| other != id ==> final(self).log_of(other) == old(self).log_of(other),
    {
        let mut c = self.timer_of(id);
        let r = c.try_start(time);
        if r == StartOutcome::Started {
            timer_map_insert(&mut self.timers, id, c);
        }
        r
    }

    /// Stops the timer of `id` at `time`: closes its open interval, if any.
    pub fn stop(&mut self, id: i64, time: i64)
        requires
            old(self).wf(),
        ensures
            final(self).wf(),
            final(self).log_of(id) == stop_log(old(self).log_of(id), time),
            forall|other: i64| other != id ==> final(self).log_of(other) == old(self).log_of(other),
    {
        match timer_map_get(&self.timers, id) {
            Some(c) => {
                let mut c = c;
                c.stop(time);
                timer_map_insert(&mut self.timers, id, c);
            },
            None => {},
        }
    }

    /// A copy of the log of `id`, empty where it was never started.
    pub fn snapshot(&self, id: i64) -> (r: Vec<SleepDuration>)
        requires
            self.wf(),
        ensures
            r@ == self.log_of(id),
    {
        self.timer_of(id).log.dates_arr
    }

    /// Whether an interval of `id` is open.
    pub fn is_running(&self, id: i64) -> (r: bool)
        requires
            self.wf(),
        ensures
            r == last_open(self.log_of(id)),
    {
        self.timer_of(id).running
    }

    /// Every conversation's log of a well-formed registry is well formed: only
    /// its last interval may be open, and no closed interval ends before it starts.
    pub proof fn lemma_logs_wf(&self, id: i64)
        requires
            self.wf(),
        ensures
            log_wf(self.log_of(id)),
    {
        if timer_entries(self.timers).contains_key(id) {
            assert(timer_entries(self.timers)[id].wf());
        }
    }
}

} // verus!
