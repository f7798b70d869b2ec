//! The timed loop that alternates the scenes of one output, as a state that
//! its driver steps: tick, swap, sleep, check the clock.

use vstd::prelude::*;
use crate::scene::SceneNode;

verus! {

/// The state of a scheduler, as mathematics sees it. Times are in
/// milliseconds.
pub struct Schedule {
    /// The scenes to alternate, in order.
    pub scenes: Seq<SceneNode>,
    /// Which of them is active.
    pub index: int,
    /// The time from one tick to the next.
    pub interval: int,
    /// The time after which the loop ends, if it ends at all.
    pub duration: Option<int>,
    /// How many swaps have been issued.
    pub swaps: nat,
    /// Whether the loop has ended.
    pub stopped: bool,
}

/// What the driver of a scheduler reports to it.
#[derive(Clone, Copy, Debug, PartialEq, Eq, Structural)]
pub enum SchedulerEvent {
    /// The loop begins.
    Started,
    /// The swap that was asked for has been tried, with or without success.
    Swapped { ok: bool },
    /// The sleep is over; `elapsed` milliseconds have passed since the loop began.
    Slept { elapsed: u64 },
}

/// What a scheduler asks of its driver.
#[derive(Clone, Copy, Debug, PartialEq, Eq, Structural)]
pub enum SchedulerAction {
    /// Make the scene at `index` the active scene of the output.
    Swap { index: usize },
    /// Sleep for `millis` milliseconds.
    Sleep { millis: u64 },
    /// The loop is over.
    Stop,
}

impl Schedule {
    /// There is a scene to show, the active one is among them, and time passes
    /// between ticks.
    pub open spec fn wf(self) -> bool {
        &&& self.scenes.len() > 0
        &&& 0 <= self.index < self.scenes.len()
        &&& self.interval > 0
    }

    /// The scene that is active.
    pub open spec fn active(self) -> SceneNode {
        self.scenes[self.index]
    }

    /// One tick: the next scene in order becomes active and a swap is issued.
    /// A stopped schedule no longer ticks.
    pub open spec fn tick(self) -> Schedule {
        if self.stopped {
            self
        } else {
            Schedule {
                index: (self.index + 1) % (self.scenes.len() as int),
                swaps: self.swaps + 1,
                ..self
            }
        }
    }

    /// The check after a sleep: the loop ends once `elapsed` has reached the
    /// duration.
    pub open spec fn check(self, elapsed: int) -> Schedule {
        Schedule {
            stopped: self.stopped || (self.duration matches Some(d) && elapsed >= d),
            ..self
        }
    }

    /// The schedule, cancelled from outside.
    pub open spec fn cancelled(self) -> Schedule {
        Schedule { stopped: true, ..self }
    }

    /// The schedule after `event`: the loop ticks when it begins and after
    /// each sleep that does not end it. The outcome of a swap changes nothing:
    /// a swap that failed is followed by the next one in its turn.
    pub open spec fn after(self, event: SchedulerEvent) -> Schedule {
        match event {
            SchedulerEvent::Started => self.tick(),
            SchedulerEvent::Swapped { ok } => self,
            SchedulerEvent::Slept { elapsed } => self.check(elapsed as int).tick(),
        }
    }

    /// What the driver is to do after `event`, the schedule being `self`
    /// before it: swap when the loop ticks, sleep after a swap, stop once the
    /// loop has ended.
    pub open spec fn action(self, event: SchedulerEvent) -> SchedulerAction {
        match event {
            SchedulerEvent::Swapped { ok } => if self.stopped {
                SchedulerAction::Stop
            } else {
                SchedulerAction::Sleep { millis: self.interval as u64 }
            },
            _ => if self.after(event).stopped {
                SchedulerAction::Stop
            } else {
                SchedulerAction::Swap { index: self.after(event).index as usize }
            },
        }
    }

    /// `n` ticks in a row.
    pub open spec fn ticks(self, n: nat) -> Schedule
        decreases n,
    {
        if n == 0 {
            self
        } else {
            self.ticks((n - 1) as nat).tick()
        }
    }

    /// `rounds` rounds of tick, sleep and check under a clock that keeps
    /// perfect time: the sleep of round `k` ends when `k` intervals have
    /// passed.
    pub open spec fn run(self, rounds: nat) -> Schedule
        decreases rounds,
    {
        if rounds == 0 {
            self
        } else {
            self.run((rounds - 1) as nat).tick().check(rounds * self.interval)
        }
    }

    /// The schedule of a loop that its driver has taken through `rounds`
    /// rounds under a clock that keeps perfect time: the start, then a swap
    /// and a sleep per round. `outcomes` says which swaps succeeded.
    pub open spec fn driven(self, rounds: nat, outcomes: spec_fn(nat) -> bool) -> Schedule
        decreases rounds,
    {
        if rounds == 0 {
            self.after(SchedulerEvent::Started)
        } else {
            self.driven((rounds - 1) as nat, outcomes).after(
                SchedulerEvent::Swapped { ok: outcomes(rounds) },
            ).after(SchedulerEvent::Slept { elapsed: (rounds * self.interval) as u64 })
        }
    }

    /// The rounds that a loop of `duration` takes at `interval`: as many
    /// intervals as it takes to reach the duration, and one at least.
    pub open spec fn rounds_needed(interval: int, duration: int) -> nat {
        if duration <= interval {
            1
        } else {
            ((duration + interval - 1) / interval) as nat
        }
    }

    /// After `n` ticks the active scene is the one `n` places further in the
    /// list, counted round the end of it, and `n` swaps have been issued.
    pub proof fn lemma_active_after_ticks(self, n: nat)
        requires
            self.wf(),
            !self.stopped,
        ensures
            self.ticks(n).wf(),
            self.ticks(n).index == (self.index + n) % (self.scenes.len() as int),
            self.ticks(n).active() == self.scenes[(self.index + n) % (self.scenes.len() as int)],
            self.ticks(n).swaps == self.swaps + n,
            self.ticks(n) == (Schedule {
                index: self.ticks(n).index,
                swaps: self.ticks(n).swaps,
                ..self
            }),
        decreases n,
    {
        let len = self.scenes.len() as int;
        if n == 0 {
            assert(self.index % len == self.index) by (nonlinear_arith)
                requires
                    0 <= self.index < len,
            ;
        } else {
            let m = (n - 1) as nat;
            self.lemma_active_after_ticks(m);
            let before = self.ticks(m);
            assert(((self.index + m) % len + 1) % len == (self.index + m + 1) % len)
                by (nonlinear_arith)
                requires
                    len > 0,
            ;
            assert(0 <= (before.index + 1) % len < len) by (nonlinear_arith)
                requires
                    len > 0,
            ;
        }
    }

    /// A loop with a duration, run from the start under a clock that keeps
    /// perfect time, issues one swap per round for exactly `rounds_needed`
    /// rounds, stops, and issues no swap after that.
    pub proof fn lemma_timed_run(self, duration: int, rounds: nat)
        requires
            self.wf(),
            !self.stopped,
            self.duration == Some(duration),
        ensures
            rounds < Self::rounds_needed(self.interval, duration) ==> !self.run(rounds).stopped
                && self.run(rounds).swaps == self.swaps + rounds,
            rounds >= Self::rounds_needed(self.interval, duration) ==> self.run(rounds).stopped
                && self.run(rounds).swaps == self.swaps + Self::rounds_needed(
                self.interval,
                duration,
            ),
            self.run(rounds).wf(),
            self.run(rounds).duration == self.duration,
            self.run(rounds).interval == self.interval,
            self.run(rounds).scenes == self.scenes,
        decreases rounds,
    {
        let needed = Self::rounds_needed(self.interval, duration);
        let interval = self.interval;
        assert(needed >= 1) by (nonlinear_arith)
            requires
                interval > 0,
                needed == if duration <= interval {
                    1
                } else {
                    (duration + interval - 1) / interval
                },
        ;
        if rounds > 0 {
            let m = (rounds - 1) as nat;
            self.lemma_timed_run(duration, m);
            let before = self.run(m);
            let len = self.scenes.len() as int;
            assert(0 <= (before.index + 1) % len < len) by (nonlinear_arith)
                requires
                    len > 0,
            ;
            if rounds < needed {
                assert(rounds * interval < duration) by (nonlinear_arith)
                    requires
                        interval > 0,
                        duration > interval,
                        rounds < (duration + interval - 1) / interval,
                ;
            } else if rounds == needed {
                assert(rounds * interval >= duration) by (nonlinear_arith)
                    requires
                        interval > 0,
                        rounds == if duration <= interval {
                            1
                        } else {
                            (duration + interval - 1) / interval
                        },
                ;
            }
        }
    }

    /// Whatever the outcomes of the swaps, a driven loop goes the way of the
    /// rounds of tick, sleep and check: after `rounds` rounds it has ticked
    /// once more, if it has not stopped. A swap that fails neither stops the
    /// loop nor holds it up.
    pub proof fn lemma_driven_run(self, rounds: nat, outcomes: spec_fn(nat) -> bool)
        requires
            self.wf(),
            rounds * self.interval <= u64::MAX,
        ensures
            self.driven(rounds, outcomes) == self.run(rounds).tick(),
            self.run(rounds).interval == self.interval,
        decreases rounds,
    {
        if rounds > 0 {
            let m = (rounds - 1) as nat;
            assert(m * self.interval <= rounds * self.interval) by (nonlinear_arith)
                requires
                    m <= rounds,
                    self.interval > 0,
            ;
            self.lemma_driven_run(m, outcomes);
        }
    }
}

/// Alternates the scenes of one output. The driver asks it for the next
/// swap, performs the swap, sleeps for the interval, and reports the time
/// that has passed; the scheduler says when the loop is over.
pub struct SceneScheduler {
    scenes: Vec<SceneNode>,
    index: usize,
    interval: u64,
    duration: Option<u64>,
    swaps: Ghost<nat>,
    stopped: bool,
}

impl SceneScheduler {
    #[verifier::type_invariant]
    spec fn well_formed(&self) -> bool {
        self@.wf()
    }

    pub closed spec fn view(&self) -> Schedule {
        Schedule {
            scenes: self.scenes@,
            index: self.index as int,
            interval: self.interval as int,
            duration: match self.duration {
                Some(d) => Some(d as int),
                None => None,
            },
            swaps: self.swaps@,
            stopped: self.stopped,
        }
    }

    /// A scheduler that shows the first of `scenes` and has issued no swap.
    /// With a `duration` the loop ends once that much time has passed;
    /// without one it runs until it is cancelled.
    pub fn new(scenes: Vec<SceneNode>, interval: u64, duration: Option<u64>) -> (r: SceneScheduler)
        requires
            scenes@.len() > 0,
            interval > 0,
        ensures
            r@ == (Schedule {
                scenes: scenes@,
                index: 0,
                interval: interval as int,
                duration: match duration {
                    Some(d) => Some(d as int),
                    None => None,
                },
                swaps: 0,
                stopped: false,
            }),
            r@.wf(),
    {
        SceneScheduler { scenes, index: 0, interval, duration, swaps: Ghost(0), stopped: false }
    }

    /// Advances to the next scene and returns its place in the list: the
    /// scene to swap in. Returns `None`, and changes nothing, once the loop
    /// has stopped.
    pub fn tick(&mut self) -> (r: Option<usize>)
        ensures
            final(self)@ == old(self)@.tick(),
            final(self)@.wf(),
            old(self)@.stopped ==> r is None,
            !old(self)@.stopped ==> r == Some(final(self)@.index as usize),
            !old(self)@.stopped ==> final(self)@.index == if old(self)@.index + 1 == old(self)@.scenes.len() {
                0
            } else {
                old(self)@.index + 1
            },
    {
        proof {
            use_type_invariant(&*self);
        }
        if self.stopped {
            return None;
        }
        let len: usize = self.scenes.len();
        let next: usize = (self.index + 1) % len;
        proof {
            let i = self.index as int;
            assert((i + 1) % (len as int) == if i + 1 == len { 0 } else { i + 1 })
                by (nonlinear_arith)
                requires
                    0 <= i < len,
            ;
        }
        self.index = next;
        proof {
            self.swaps@ = self.swaps@ + 1;
        }
        Some(next)
    }

    /// Takes note of the time that has passed since the loop began, after a
    /// sleep, and returns whether the loop goes on.
    pub fn check_elapsed(&mut self, elapsed: u64) -> (r: bool)
        ensures
            final(self)@ == old(self)@.check(elapsed as int),
            r == !final(self)@.stopped,
    {
        proof {
            use_type_invariant(&*self);
        }
        match self.duration {
            Some(d) => {
                if elapsed >= d {
                    self.stopped = true;
                }
            },
            None => {},
        }
        !self.stopped
    }

    /// Takes the loop one step further: given what the driver reports, says
    /// what it is to do next.
    pub fn step(&mut self, event: SchedulerEvent) -> (r: SchedulerAction)
        ensures
            final(self)@ == old(self)@.after(event),
            r == old(self)@.action(event),
            final(self)@.wf(),
    {
        proof {
            use_type_invariant(&*self);
        }
        match event {
            SchedulerEvent::Swapped { ok: _ } => {
                if self.stopped {
                    SchedulerAction::Stop
                } else {
                    SchedulerAction::Sleep { millis: self.interval }
                }
            },
            SchedulerEvent::Started => {
                match self.tick() {
                    Some(index) => SchedulerAction::Swap { index },
                    None => SchedulerAction::Stop,
                }
            },
            SchedulerEvent::Slept { elapsed } => {
                self.check_elapsed(elapsed);
                match self.tick() {
                    Some(index) => SchedulerAction::Swap { index },
                    None => SchedulerAction::Stop,
                }
            },
        }
    }

    /// Ends the loop from outside: no swap is issued after this.
    pub fn cancel(&mut self)
        ensures
            final(self)@ == old(self)@.cancelled(),
    {
        proof {
            use_type_invariant(&*self);
        }
        self.stopped = true;
    }

    /// The scene that is active.
    pub fn scene(&self) -> (r: &SceneNode)
        ensures
            *r == self@.active(),
            self@.wf(),
    {
        proof {
            use_type_invariant(self);
        }
        &self.scenes[self.index]
    }

    /// The place of the active scene in the list.
    pub fn index(&self) -> (r: usize)
        ensures
            r == self@.index,
            self@.wf(),
    {
        proof {
            use_type_invariant(self);
        }
        self.index
    }

    /// The time to sleep between ticks.
    pub fn interval(&self) -> (r: u64)
        ensures
            r == self@.interval,
            r > 0,
    {
        proof {
            use_type_invariant(self);
        }
        self.interval
    }

    /// Whether the loop has ended.
    pub fn is_stopped(&self) -> (r: bool)
        ensures
            r == self@.stopped,
    {
        self.stopped
    }
}

} // verus!
