use vstd::prelude::*;

use crate::bus::Servers;
use crate::counter::{wrap_add, Counter};

verus! {

/// Fixed capacity of the rolling per-tick history behind the spark-line.
pub const TICK_CAPACITY: usize = 200;

/// The fixed, mutually exclusive categories an incoming bus event is
/// classified into; whatever matches none of the recognized kinds counts
/// as `Other`.
#[derive(Clone, Copy, Debug, PartialEq, Eq, Structural)]
pub enum EventKind {
    Mouse,
    Keyboard,
    Focus,
    Window,
    Document,
    Object,
    Terminal,
    Cache,
    Listener,
    Available,
    Other,
}

/// The process-wide classification tally: one counter per category, an
/// error counter, and the per-tick, per-second and lifetime totals.
pub struct ScoreBoard {
    pub mouse: Counter,
    pub keyboard: Counter,
    pub focus: Counter,
    pub window: Counter,
    pub document: Counter,
    pub object: Counter,
    pub terminal: Counter,
    pub cache: Counter,
    pub listeners: Counter,
    pub available: Counter,
    pub other_event: Counter,
    pub error: Counter,
    pub tick_counter: Counter,
    pub secs_counter: Counter,
    pub total_seconds: Counter,
    pub total: Counter,
}

/// The category counter of the scoreboard that `k` lands in.
pub open spec fn count_of(t: ScoreBoard, k: EventKind) -> u64 {
    match k {
        EventKind::Mouse => t.mouse@,
        EventKind::Keyboard => t.keyboard@,
        EventKind::Focus => t.focus@,
        EventKind::Window => t.window@,
        EventKind::Document => t.document@,
        EventKind::Object => t.object@,
        EventKind::Terminal => t.terminal@,
        EventKind::Cache => t.cache@,
        EventKind::Listener => t.listeners@,
        EventKind::Available => t.available@,
        EventKind::Other => t.other_event@,
    }
}

impl ScoreBoard {
    pub fn new() -> (t: ScoreBoard)
        ensures
            forall|k: EventKind| count_of(t, k) == 0,
            t.error@ == 0,
            t.tick_counter@ == 0,
            t.secs_counter@ == 0,
            t.total_seconds@ == 0,
            t.total@ == 0,
    {
        ScoreBoard {
            mouse: Counter::new(),
            keyboard: Counter::new(),
            focus: Counter::new(),
            window: Counter::new(),
            document: Counter::new(),
            object: Counter::new(),
            terminal: Counter::new(),
            cache: Counter::new(),
            listeners: Counter::new(),
            available: Counter::new(),
            other_event: Counter::new(),
            error: Counter::new(),
            tick_counter: Counter::new(),
            secs_counter: Counter::new(),
            total_seconds: Counter::new(),
            total: Counter::new(),
        }
    }
}

impl Default for ScoreBoard {
    fn default() -> (t: ScoreBoard)
        ensures
            forall|k: EventKind| count_of(t, k) == 0,
            t.error@ == 0,
            t.tick_counter@ == 0,
            t.secs_counter@ == 0,
            t.total_seconds@ == 0,
            t.total@ == 0,
    {
        ScoreBoard::new()
    }
}

/// The per-second summary of the event rate: the last full second's count,
/// the peak second, and the lifetime mean per second.
pub struct RtStats {
    pub rate: Counter,
    pub max: Counter,
    pub mean: Counter,
}

impl RtStats {
    pub fn new() -> (t: RtStats)
        ensures
            t.rate@ == 0,
            t.max@ == 0,
            t.mean@ == 0,
    {
        RtStats { rate: Counter::new(), max: Counter::new(), mean: Counter::new() }
    }
}

impl Default for RtStats {
    fn default() -> (t: RtStats)
        ensures
            t.rate@ == 0,
            t.max@ == 0,
            t.mean@ == 0,
    {
        RtStats::new()
    }
}

/// Whether the deduplicated error log already holds the text `m`.
pub open spec fn has_error(es: Seq<String>, m: Seq<char>) -> bool {
    exists|i: int| 0 <= i < es.len() && (#[trigger] es[i])@ == m
}

/// No two entries of the error log carry the same text.
pub open spec fn unique_errors(es: Seq<String>) -> bool {
    forall|i: int, j: int| 0 <= i < j < es.len() ==> (#[trigger] es[i])@ != (#[trigger] es[j])@
}

/// One new value enters the rolling history at the front and the oldest
/// entry leaves at the back.
pub open spec fn roll(h: Seq<u64>, v: u64) -> Seq<u64> {
    seq![v] + h.drop_last()
}

/// The history after a whole sequence of ticks, oldest tick first.
pub open spec fn roll_all(h: Seq<u64>, vs: Seq<u64>) -> Seq<u64>
    decreases vs.len(),
{
    if vs.len() == 0 {
        h
    } else {
        roll_all(roll(h, vs.first()), vs.drop_first())
    }
}

/// THE ROLLING-WINDOW LAW. The history never changes length, so it never
/// exceeds its capacity; after any run of ticks the pushed values sit at
/// the front, newest first, and whatever part of the prior content is
/// left sits shifted behind them — after `h.len()` or more ticks none of
/// it remains, and in particular the oldest pushed value has dropped out
/// again once `h.len() + 1` pushes have happened.
pub proof fn lemma_roll_all_window(h: Seq<u64>, vs: Seq<u64>)
    requires
        h.len() > 0,
    ensures
        roll_all(h, vs).len() == h.len(),
        forall|i: int|
            0 <= i < vs.len() && i < h.len() ==> roll_all(h, vs)[i] == vs[vs.len() - 1 - i],
        forall|i: int| vs.len() <= i < h.len() ==> roll_all(h, vs)[i] == h[i - vs.len()],
    decreases vs.len(),
{
    if vs.len() > 0 {
        let h2 = roll(h, vs.first());
        let rest = vs.drop_first();
        assert(h2.len() == h.len());
        lemma_roll_all_window(h2, rest);
        let out = roll_all(h, vs);
        assert(out == roll_all(h2, rest));
        assert forall|i: int|
            0 <= i < vs.len() && i < h.len() implies out[i] == vs[vs.len() - 1 - i] by {
            if i < rest.len() {
                assert(out[i] == rest[rest.len() - 1 - i]);
                assert(rest[rest.len() - 1 - i] == vs[vs.len() - 1 - i]);
            } else {
                assert(i == vs.len() - 1);
                assert(out[i] == h2[i - rest.len()]);
                assert(h2[0] == vs.first());
            }
        }
        assert forall|i: int| vs.len() <= i < h.len() implies out[i] == h[i - vs.len()] by {
            assert(out[i] == h2[i - rest.len()]);
            assert(h2[i - rest.len()] == h.drop_last()[i - rest.len() - 1]);
            assert(h.drop_last()[i - vs.len()] == h[i - vs.len()]);
        }
    }
}

/// The state the whole dashboard engine keeps: the peer directory, the
/// classification tally, the deduplicated error log, the per-second
/// summary, and the two rolling data stores the consumers fill.
pub struct App {
    pub servers: Servers,
    pub tally: ScoreBoard,
    pub error_set: Vec<String>,
    pub rt_stats: RtStats,
    pub tick_data: Vec<u64>,
    pub secs_data: Vec<u64>,
}

impl App {
    /// The tick history always holds exactly its capacity, the error log
    /// holds no duplicate text, and every peer's statistics record is
    /// internally consistent.
    pub open spec fn wf(self) -> bool {
        &&& self.tick_data@.len() == TICK_CAPACITY
        &&& unique_errors(self.error_set@)
        &&& self.servers.wf()
    }

    /// A fresh engine around an already-enumerated directory: all counters
    /// zero, the error log empty, the tick history full of zeros and the
    /// per-second history empty.
    pub fn new(servers: Servers) -> (a: App)
        requires
            servers.wf(),
        ensures
            a.wf(),
            a.servers == servers,
            forall|k: EventKind| count_of(a.tally, k) == 0,
            a.tally.error@ == 0,
            a.tally.tick_counter@ == 0,
            a.tally.secs_counter@ == 0,
            a.tally.total_seconds@ == 0,
            a.tally.total@ == 0,
            a.rt_stats.rate@ == 0,
            a.rt_stats.max@ == 0,
            a.rt_stats.mean@ == 0,
            a.error_set@.len() == 0,
            a.secs_data@.len() == 0,
            a.tick_data@.len() == TICK_CAPACITY,
            forall|i: int| 0 <= i < TICK_CAPACITY ==> a.tick_data@[i] == 0,
    {
        let mut tick_data: Vec<u64> = Vec::new();
        while tick_data.len() < TICK_CAPACITY
            invariant
                tick_data@.len() <= TICK_CAPACITY,
                forall|i: int| 0 <= i < tick_data@.len() ==> tick_data@[i] == 0,
            decreases TICK_CAPACITY - tick_data@.len(),
        {
            tick_data.push(0);
        }
        App {
            servers,
            tally: ScoreBoard::new(),
            error_set: Vec::new(),
            rt_stats: RtStats::new(),
            tick_data,
            secs_data: Vec::new(),
        }
    }

    /// Classify one incoming event. A well-formed event bumps exactly its
    /// own category counter; a transport error bumps the error counter and
    /// enters the error log unless its exact text is already there. Either
    /// way the per-tick, per-second and lifetime totals advance by one.
    pub fn on_event(&mut self, event: Result<EventKind, String>)
        requires
            old(self).wf(),
        ensures
            final(self).wf(),
            final(self).servers == old(self).servers,
            final(self).rt_stats == old(self).rt_stats,
            final(self).tick_data == old(self).tick_data,
            final(self).secs_data == old(self).secs_data,
            final(self).tally.tick_counter@ == wrap_add(old(self).tally.tick_counter@, 1),
            final(self).tally.secs_counter@ == wrap_add(old(self).tally.secs_counter@, 1),
            final(self).tally.total@ == wrap_add(old(self).tally.total@, 1),
            final(self).tally.total_seconds@ == old(self).tally.total_seconds@,
            match event {
                Ok(k) => {
                    &&& count_of(final(self).tally, k) == wrap_add(
                        count_of(old(self).tally, k),
                        1,
                    )
                    &&& forall|k2: EventKind|
                        k2 != k ==> count_of(final(self).tally, k2) == count_of(
                            old(self).tally,
                            k2,
                        )
                    &&& final(self).tally.error@ == old(self).tally.error@
                    &&& final(self).error_set@ == old(self).error_set@
                },
                Err(m) => {
                    &&& forall|k2: EventKind|
                        count_of(final(self).tally, k2) == count_of(old(self).tally, k2)
                    &&& final(self).tally.error@ == wrap_add(old(self).tally.error@, 1)
                    &&& final(self).error_set@ == if has_error(old(self).error_set@, m@) {
                        old(self).error_set@
                    } else {
                        old(self).error_set@.push(m)
                    }
                },
            },
    {
        match event {
            Ok(EventKind::Mouse) => self.tally.mouse.incr(),
            Ok(EventKind::Keyboard) => self.tally.keyboard.incr(),
            Ok(EventKind::Focus) => self.tally.focus.incr(),
            Ok(EventKind::Window) => self.tally.window.incr(),
            Ok(EventKind::Document) => self.tally.document.incr(),
            Ok(EventKind::Object) => self.tally.object.incr(),
            Ok(EventKind::Terminal) => self.tally.terminal.incr(),
            Ok(EventKind::Cache) => self.tally.cache.incr(),
            Ok(EventKind::Listener) => self.tally.listeners.incr(),
            Ok(EventKind::Available) => self.tally.available.incr(),
            Ok(EventKind::Other) => self.tally.other_event.incr(),
            Err(m) => {
                self.tally.error.incr();
                if !contains_error(&self.error_set, &m) {
                    self.error_set.push(m);
                }
            },
        }
        self.tally.tick_counter.incr();
        self.tally.secs_counter.incr();
        self.tally.total.incr();
    }

    /// The tick consumer: read-and-reset the per-tick counter and push the
    /// value into the front of the bounded rolling history, dropping the
    /// oldest entry.
    pub fn on_tick(&mut self)
        requires
            old(self).wf(),
        ensures
            final(self).wf(),
            final(self).servers == old(self).servers,
            final(self).rt_stats == old(self).rt_stats,
            final(self).secs_data == old(self).secs_data,
            final(self).error_set == old(self).error_set,
            final(self).tally.tick_counter@ == 0,
            final(self).tick_data@ == roll(old(self).tick_data@, old(self).tally.tick_counter@),
            forall|k: EventKind| count_of(final(self).tally, k) == count_of(old(self).tally, k),
            final(self).tally.error@ == old(self).tally.error@,
            final(self).tally.secs_counter@ == old(self).tally.secs_counter@,
            final(self).tally.total_seconds@ == old(self).tally.total_seconds@,
            final(self).tally.total@ == old(self).tally.total@,
    {
        let value = self.tally.tick_counter.reset();
        self.tick_data.pop();
        self.tick_data.insert(0, value);
        proof {
            assert(final(self).tick_data@ =~= roll(
                old(self).tick_data@,
                old(self).tally.tick_counter@,
            ));
        }
    }

    /// The second consumer: read-and-reset the per-second counter, append
    /// it to the per-second history, track the peak, remember the last
    /// rate, fold the value into the lifetime per-second total, and derive
    /// the lifetime mean from that total and the number of seconds seen.
    pub fn on_second(&mut self)
        requires
            old(self).wf(),
        ensures
            final(self).wf(),
            final(self).servers == old(self).servers,
            final(self).tick_data == old(self).tick_data,
            final(self).error_set == old(self).error_set,
            final(self).tally.secs_counter@ == 0,
            final(self).tally.total_seconds@ == wrap_add(
                old(self).tally.total_seconds@,
                old(self).tally.secs_counter@,
            ),
            final(self).secs_data@ == old(self).secs_data@.push(old(self).tally.secs_counter@),
            final(self).rt_stats.rate@ == old(self).tally.secs_counter@,
            ({
                let v = old(self).tally.secs_counter@;
                let m = old(self).rt_stats.max@;
                final(self).rt_stats.max@ == if m < v { v } else { m }
            }),
            ({
                let total = final(self).tally.total_seconds@;
                let n = final(self).secs_data@.len() as u64;
                final(self).rt_stats.mean@ == total / n
            }),
            forall|k: EventKind| count_of(final(self).tally, k) == count_of(old(self).tally, k),
            final(self).tally.error@ == old(self).tally.error@,
            final(self).tally.tick_counter@ == old(self).tally.tick_counter@,
            final(self).tally.total@ == old(self).tally.total@,
    {
        let value = self.tally.secs_counter.reset();

        if self.rt_stats.max.load() < value {
            self.rt_stats.max.set(value);
        }

        self.rt_stats.rate.set(value);
        self.tally.total_seconds.add(value);

        self.secs_data.push(value);
        let len = self.secs_data.len();
        let mean = self.tally.total_seconds.load() / (len as u64);
        self.rt_stats.mean.set(mean);
    }
}

/// Whether the error log already holds exactly the text `m`.
fn contains_error(es: &Vec<String>, m: &String) -> (r: bool)
    ensures
        r == has_error(es@, m@),
{
    let mut idx: usize = 0;
    while idx < es.len()
        invariant
            idx <= es@.len(),
            forall|i: int| 0 <= i < idx ==> (#[trigger] es@[i])@ != m@,
        decreases es@.len() - idx,
    {
        if es[idx] == *m {
            return true;
        }
        idx = idx + 1;
    }
    false
}

/// The remaining time until the next tick, or zero if the next tick is
/// overdue; both the tick period and the time already elapsed come in
/// nanoseconds.
pub fn get_remaining_tick_time(tick_dur: u64, elapsed: u64) -> (r: u64)
    ensures
        r == if elapsed >= tick_dur {
            0u64
        } else {
            (tick_dur - elapsed) as u64
        },
{
    if elapsed >= tick_dur {
        0
    } else {
        tick_dur - elapsed
    }
}

} // verus!
