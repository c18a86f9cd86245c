//! CPU utilisation: how long to wait for a reading, when to ask again, and
//! the line for the reading that is reported.
//!
//! The sampler decides; its caller waits, reads the processor and hands the
//! reading back. Utilisation is computed over elapsed time, so a reading taken
//! right after the first may be all zero without the machine being idle.

use crate::util::format::{fmt_percent_1dp, percent_text};
use crate::util::ieee::{fixed1_text, push_fixed1, Binary64};
use vstd::prelude::*;

verus! {

/// The pause before each reading when no interval was asked for.
pub const POLL_MILLIS: u64 = 25;

/// The longest that a sampler without an interval lets its caller wait in all.
pub const BUDGET_MILLIS: u64 = 250;

/// One reading of the processor, in percent.
#[derive(Debug)]
pub enum CpuReading {
    /// The utilisation over all cores.
    Aggregate(Binary64),
    /// The utilisation of each core, in the provider's order.
    PerCore(Vec<Binary64>),
}

/// The text of the cores' utilisation: each with one decimal place and
/// without a percent sign, joined by a comma and a space.
pub open spec fn cores_text(cores: Seq<Binary64>) -> Seq<char>
    decreases cores.len(),
{
    if cores.len() == 0 {
        Seq::empty()
    } else if cores.len() == 1 {
        fixed1_text(cores[0])
    } else {
        cores_text(cores.drop_last()) + seq![',', ' '] + fixed1_text(cores.last())
    }
}

impl CpuReading {
    /// Whether the reading shows any load: the aggregate is above zero, or at
    /// least one core is.
    pub open spec fn has_load(self) -> bool {
        match self {
            CpuReading::Aggregate(usage) => usage.is_positive(),
            CpuReading::PerCore(cores) => exists|i: int|
                0 <= i < cores@.len() && (#[trigger] cores@[i]).is_positive(),
        }
    }

    /// The line for the reading: the aggregate with a percent sign, the cores
    /// as a list without one.
    pub open spec fn text(self) -> Seq<char> {
        match self {
            CpuReading::Aggregate(usage) => percent_text(usage),
            CpuReading::PerCore(cores) => cores_text(cores@),
        }
    }

    /// Tells whether the reading shows any load.
    #[verifier::loop_isolation(false)]
    pub fn shows_load(&self) -> (loaded: bool)
        ensures
            loaded == self.has_load(),
    {
        match self {
            CpuReading::Aggregate(usage) => usage.exceeds_zero(),
            CpuReading::PerCore(cores) => {
                let mut i: usize = 0;
                while i < cores.len()
                    invariant
                        i <= cores@.len(),
                        forall|k: int| 0 <= k < i ==> !(#[trigger] cores@[k]).is_positive(),
                    decreases cores@.len() - i,
                {
                    if cores[i].exceeds_zero() {
                        assert(cores@[i as int].is_positive());
                        return true;
                    }
                    i += 1;
                }
                false
            },
        }
    }

    /// Renders the reading.
    pub fn render(&self) -> (line: String)
        ensures
            line@ == self.text(),
    {
        match self {
            CpuReading::Aggregate(usage) => fmt_percent_1dp(*usage),
            CpuReading::PerCore(cores) => {
                let mut line = String::new();
                let mut i: usize = 0;
                assert(cores@.take(0) =~= Seq::<Binary64>::empty());
                while i < cores.len()
                    invariant
                        i <= cores@.len(),
                        line@ == cores_text(cores@.take(i as int)),
                    decreases cores@.len() - i,
                {
                    if i > 0 {
                        line.append(", ");
                    }
                    push_fixed1(&mut line, cores[i]);
                    proof {
                        reveal_strlit(", ");
                        let shown = cores@.take(i + 1);
                        assert(shown.drop_last() =~= cores@.take(i as int));
                        assert(shown.last() == cores@[i as int]);
                        if i == 0 {
                            assert(shown[0] == cores@[0]);
                        }
                        assert(line@ =~= cores_text(shown));
                    }
                    i += 1;
                }
                assert(cores@.take(cores@.len() as int) =~= cores@);
                line
            },
        }
    }
}

/// A pause to make before the next reading.
#[derive(Clone, Copy, Debug, PartialEq, Eq)]
pub struct Pause {
    pub seconds: u64,
    pub millis: u64,
}

/// The pause between two polls of a sampler without an interval.
pub open spec fn poll_pause() -> Pause {
    Pause { seconds: 0, millis: POLL_MILLIS }
}

/// The state of one sampling.
#[derive(Clone, Copy, Debug, PartialEq, Eq)]
pub struct CpuSampler {
    /// The interval asked for, in whole seconds; zero asks for a reading at once.
    pub interval_seconds: u64,
    /// The milliseconds of polling pauses handed out so far.
    pub waited_millis: u64,
}

/// What the caller of a sampler does next.
#[derive(Debug)]
pub enum CpuStep {
    /// Wait this long, read the processor again and hand the reading in.
    Wait(Pause),
    /// Print this line; the sampling is over.
    Report(String),
}

impl CpuSampler {
    /// The state of a sampling that has just begun. Its first pause is
    /// already counted.
    pub open spec fn started(interval_seconds: u64) -> CpuSampler {
        CpuSampler {
            interval_seconds,
            waited_millis: if interval_seconds == 0 {
                POLL_MILLIS
            } else {
                0
            },
        }
    }

    /// The pause before the first reading: the whole interval where one was
    /// asked for, else one polling pause.
    pub open spec fn first_pause(interval_seconds: u64) -> Pause {
        if interval_seconds == 0 {
            poll_pause()
        } else {
            Pause { seconds: interval_seconds, millis: 0 }
        }
    }

    /// Whether the sampler asks for another reading: only without an
    /// interval, only after a reading without load, and only while neither
    /// the time that has passed nor the pauses handed out use up the budget.
    pub open spec fn polls_again(self, loaded: bool, elapsed_millis: u64) -> bool {
        &&& self.interval_seconds == 0
        &&& !loaded
        &&& elapsed_millis < BUDGET_MILLIS
        &&& self.waited_millis + POLL_MILLIS <= BUDGET_MILLIS
    }

    /// The state after one more polling pause.
    pub open spec fn after_pause(self) -> CpuSampler
        recommends
            self.waited_millis + POLL_MILLIS <= BUDGET_MILLIS,
    {
        CpuSampler {
            interval_seconds: self.interval_seconds,
            waited_millis: (self.waited_millis + POLL_MILLIS) as u64,
        }
    }

    /// Begins a sampling and tells how long to wait before the first reading
    /// is taken. The caller takes a baseline reading before it waits.
    pub fn start(interval_seconds: u64) -> (begin: (CpuSampler, Pause))
        ensures
            begin.0 == CpuSampler::started(interval_seconds),
            begin.1 == CpuSampler::first_pause(interval_seconds),
    {
        if interval_seconds == 0 {
            (
                CpuSampler { interval_seconds, waited_millis: POLL_MILLIS },
                Pause { seconds: 0, millis: POLL_MILLIS },
            )
        } else {
            (
                CpuSampler { interval_seconds, waited_millis: 0 },
                Pause { seconds: interval_seconds, millis: 0 },
            )
        }
    }

    /// Takes the reading made after the last pause, with the milliseconds
    /// that have passed since the sampling began, and decides: either the
    /// caller pauses once more, or this reading is the one reported, all
    /// zero or not.
    pub fn observe(&mut self, reading: &CpuReading, elapsed_millis: u64) -> (step: CpuStep)
        ensures
            match step {
                CpuStep::Wait(pause) => {
                    &&& old(self).polls_again(reading.has_load(), elapsed_millis)
                    &&& pause == poll_pause()
                    &&& *final(self) == old(self).after_pause()
                },
                CpuStep::Report(line) => {
                    &&& !old(self).polls_again(reading.has_load(), elapsed_millis)
                    &&& line@ == reading.text()
                    &&& *final(self) == *old(self)
                },
            },
    {
        if self.interval_seconds == 0 && elapsed_millis < BUDGET_MILLIS && self.waited_millis
            <= BUDGET_MILLIS - POLL_MILLIS && !reading.shows_load() {
            self.waited_millis = self.waited_millis + POLL_MILLIS;
            CpuStep::Wait(Pause { seconds: 0, millis: POLL_MILLIS })
        } else {
            CpuStep::Report(reading.render())
        }
    }
}

/// Which of the readings `events`, from place `from` on, is the one that the
/// sampler reports; the length of `events` if it asks for more than there
/// are. Each event is a reading's load and the milliseconds passed by then.
pub open spec fn report_index(sampler: CpuSampler, events: Seq<(bool, u64)>, from: int) -> int
    decreases events.len() - from,
{
    if from < 0 || from >= events.len() {
        events.len() as int
    } else if !sampler.polls_again(events[from].0, events[from].1) {
        from
    } else {
        report_index(sampler.after_pause(), events, from + 1)
    }
}

/// A sampler never hands out more polling pauses than its budget holds: the
/// pauses counted before, and one for each reading that it passes over, stay
/// within the budget. It reports the first reading that shows load, or that
/// comes when the budget of time is used up, if it has not reported before;
/// and with an interval it reports the first reading that it is given.
pub proof fn lemma_sampling_is_bounded(sampler: CpuSampler, events: Seq<(bool, u64)>, from: int)
    requires
        0 <= from <= events.len(),
        sampler.waited_millis <= BUDGET_MILLIS,
    ensures
        ({
            let at = report_index(sampler, events, from);
            &&& from <= at <= events.len()
            &&& sampler.waited_millis + POLL_MILLIS * (at - from) <= BUDGET_MILLIS
            &&& forall|k: int|
                from <= k < events.len() && (events[k].0 || events[k].1 >= BUDGET_MILLIS) ==> at
                    <= k
            &&& sampler.interval_seconds != 0 && from < events.len() ==> at == from
        }),
    decreases events.len() - from,
{
    if from < events.len() && sampler.polls_again(events[from].0, events[from].1) {
        lemma_sampling_is_bounded(sampler.after_pause(), events, from + 1);
    }
}

/// A sampler that polls reports the tenth reading at the latest, whatever
/// the readings show and whatever time the caller says has passed.
pub proof fn lemma_polls_at_most_ten_times(events: Seq<(bool, u64)>)
    requires
        events.len() >= 10,
    ensures
        report_index(CpuSampler::started(0), events, 0) < 10,
{
    let s0 = CpuSampler::started(0);
    lemma_budget_left(s0, events, 0);
}

/// With `left` polling pauses left in its budget, a sampler reports within
/// the next `left + 1` readings.
pub proof fn lemma_budget_left(sampler: CpuSampler, events: Seq<(bool, u64)>, from: int)
    requires
        0 <= from,
        sampler.waited_millis <= BUDGET_MILLIS,
        sampler.waited_millis % POLL_MILLIS == 0,
        from + (BUDGET_MILLIS - sampler.waited_millis) / (POLL_MILLIS as int) < events.len(),
    ensures
        report_index(sampler, events, from) <= from + (BUDGET_MILLIS - sampler.waited_millis) / (
        POLL_MILLIS as int),
    decreases events.len() - from,
{
    if sampler.polls_again(events[from].0, events[from].1) {
        lemma_budget_left(sampler.after_pause(), events, from + 1);
    }
}

} // verus!
