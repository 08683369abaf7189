//! The runtime: one world, one transport and the tick counter, advanced one
//! tick at a time.

use crate::ecs::{dispatched, EcsWorld, ScheduledSystem};
use crate::error::KituError;
use crate::tick::Tick;
use crate::transport::Transport;
use vstd::prelude::*;

verus! {

/// Settings of the runtime loop.
#[derive(Debug, Clone, Copy, PartialEq, Eq, Structural)]
pub struct RuntimeConfig {
    /// The number of ticks per second that the loop aims at.
    pub tick_rate_hz: u32,
}

impl RuntimeConfig {
    /// Sixty ticks per second.
    pub fn default_60hz() -> (config: RuntimeConfig)
        ensures
            config.tick_rate_hz == 60,
    {
        RuntimeConfig { tick_rate_hz: 60 }
    }
}

/// The orchestrator. It alone advances the tick; it owns its world and its
/// transport.
pub struct Runtime<T: Transport> {
    config: RuntimeConfig,
    tick: Tick,
    transport: T,
    world: EcsWorld,
}

impl<T: Transport> Runtime<T> {
    /// The tick that the next cycle runs for.
    pub closed spec fn spec_current_tick(&self) -> Tick {
        self.tick
    }

    /// The settings that the runtime was made with.
    pub closed spec fn spec_config(&self) -> RuntimeConfig {
        self.config
    }

    /// The runtime's world.
    pub closed spec fn world(&self) -> EcsWorld {
        self.world
    }

    /// The runtime's transport.
    pub closed spec fn transport(&self) -> T {
        self.transport
    }

    /// Whether one cycle may lead from this runtime to `after` with
    /// `outcome`. The world's systems are dispatched for the current tick.
    /// If that succeeds, the transport is polled until no event waits and
    /// the tick advances by one; if it fails, the failure is the outcome
    /// and neither the tick nor the transport changes.
    pub open spec fn cycled(&self, after: Runtime<T>, outcome: Result<(), KituError>) -> bool {
        &&& dispatched(
            self.world().scheduled(),
            self.world().components(),
            self.spec_current_tick(),
            after.world().components(),
            outcome,
            after.world().scheduled(),
        )
        &&& outcome is Ok ==> after.spec_current_tick() == self.spec_current_tick().spec_next()
            && after.transport().pending().len() == 0
        &&& outcome is Err ==> after.spec_current_tick() == self.spec_current_tick()
            && after.transport() == self.transport()
        &&& after.spec_config() == self.spec_config()
    }

    /// Whether `count` cycles, one after the other, may lead from this
    /// runtime to `after` with `outcome`. The first cycle that fails is the
    /// last: its failure is the outcome.
    pub open spec fn cycled_times(
        &self,
        count: nat,
        after: Runtime<T>,
        outcome: Result<(), KituError>,
    ) -> bool
        decreases count,
    {
        if count == 0 {
            outcome is Ok && after == *self
        } else {
            exists|between: Runtime<T>, first: Result<(), KituError>|
                #[trigger] self.cycled(between, first) && if first is Ok {
                    between.cycled_times((count - 1) as nat, after, outcome)
                } else {
                    outcome == first && after == between
                }
        }
    }

    /// Cycles are counted by the tick: after `count` cycles without a
    /// failure the tick has advanced by `count`; after a failure it has
    /// advanced by the number of cycles that were completed before it,
    /// which is less than `count`.
    pub proof fn lemma_cycles_counted(
        self,
        count: nat,
        after: Runtime<T>,
        outcome: Result<(), KituError>,
    )
        requires
            self.spec_current_tick().value() + count <= u64::MAX,
            self.cycled_times(count, after, outcome),
        ensures
            outcome is Ok ==> after.spec_current_tick().value() == self.spec_current_tick().value()
                + count,
            outcome is Err ==> self.spec_current_tick().value()
                <= after.spec_current_tick().value() < self.spec_current_tick().value() + count,
            after.spec_config() == self.spec_config(),
        decreases count,
    {
        if count > 0 {
            let (between, first) = choose|between: Runtime<T>, first: Result<(), KituError>|
                #[trigger] self.cycled(between, first) && if first is Ok {
                    between.cycled_times((count - 1) as nat, after, outcome)
                } else {
                    outcome == first && after == between
                };
            if first is Ok {
                Tick::lemma_counter(
                    (self.spec_current_tick().value() + 1) as u64,
                    between.spec_current_tick(),
                );
                between.lemma_cycles_counted((count - 1) as nat, after, outcome);
            }
        }
    }

    /// A runtime at tick zero with an empty world.
    pub fn new(config: RuntimeConfig, transport: T) -> (runtime: Runtime<T>)
        ensures
            runtime.spec_config() == config,
            runtime.spec_current_tick() == Tick::spec_start(),
            runtime.transport() == transport,
            runtime.world().components() == Seq::<Seq<char>>::empty(),
            runtime.world().scheduled() == Seq::<ScheduledSystem>::empty(),
    {
        Runtime { config, tick: Tick::start(), transport, world: EcsWorld::default() }
    }

    /// The world, for registering components and scheduling systems
    /// between ticks.
    pub fn world_mut(&mut self) -> (world: &mut EcsWorld)
        ensures
            *world == old(self).world(),
            final(self).world() == *final(world),
            final(self).spec_current_tick() == old(self).spec_current_tick(),
            final(self).spec_config() == old(self).spec_config(),
            final(self).transport() == old(self).transport(),
    {
        &mut self.world
    }

    /// Runs one cycle: dispatches the world's systems for the current tick,
    /// then polls the transport until no event waits, then advances the tick
    /// by one. A system's failure ends the cycle at once and is returned:
    /// the transport is not polled and the tick stays as it was.
    pub fn tick_once(&mut self) -> (outcome: Result<(), KituError>)
        requires
            old(self).spec_current_tick().value() < u64::MAX,
        ensures
            old(self).cycled(*final(self), outcome),
    {
        let ran = self.world.dispatch(self.tick);
        if ran.is_err() {
            return ran;
        }
        loop
            invariant
                self.tick == old(self).tick,
                self.config == old(self).config,
                self.tick.value() < u64::MAX,
                ran is Ok,
                dispatched(
                    old(self).world.scheduled(),
                    old(self).world.components(),
                    old(self).tick,
                    self.world.components(),
                    ran,
                    self.world.scheduled(),
                ),
            ensures
                self.transport.pending().len() == 0,
            decreases self.transport.pending().len(),
        {
            match self.transport.poll_event() {
                Some(_) => {},
                None => {
                    break ;
                },
            }
        }
        self.tick = self.tick.next();
        ran
    }

    /// The tick that the next cycle runs for.
    #[verifier::when_used_as_spec(spec_current_tick)]
    pub fn current_tick(&self) -> (tick: Tick)
        ensures
            tick == self.spec_current_tick(),
    {
        self.tick
    }

    /// The settings that the runtime was made with.
    #[verifier::when_used_as_spec(spec_config)]
    pub fn config(&self) -> (config: RuntimeConfig)
        ensures
            config == self.spec_config(),
    {
        self.config
    }

    /// Runs `count` cycles, one after the other. The first failure is
    /// returned at once and no further cycle is tried, so the tick tells how
    /// many cycles were completed.
    pub fn run_for_ticks(&mut self, count: u64) -> (outcome: Result<(), KituError>)
        requires
            old(self).spec_current_tick().value() + count <= u64::MAX,
        ensures
            old(self).cycled_times(count as nat, *final(self), outcome),
            outcome is Ok ==> final(self).spec_current_tick().value()
                == old(self).spec_current_tick().value() + count,
            outcome is Err ==> old(self).spec_current_tick().value()
                <= final(self).spec_current_tick().value()
                < old(self).spec_current_tick().value() + count,
            final(self).spec_config() == old(self).spec_config(),
    {
        let mut done: u64 = 0;
        while done < count
            invariant
                done <= count,
                old(self).tick.value() + count <= u64::MAX,
                self.tick.value() == old(self).tick.value() + done,
                forall|after: Runtime<T>, end: Result<(), KituError>| #[trigger]
                    self.cycled_times((count - done) as nat, after, end)
                        ==> old(self).cycled_times(count as nat, after, end),
            decreases count - done,
        {
            let ghost before = *self;
            let ghost done_before = done;
            let ran = self.tick_once();
            if ran.is_err() {
                proof {
                    assert(before.cycled(*self, ran));
                    assert(before.cycled_times((count - done_before) as nat, *self, ran));
                    old(self).lemma_cycles_counted(count as nat, *self, ran);
                }
                return ran;
            }
            done += 1;
            proof {
                Tick::lemma_counter((before.tick.value() + 1) as u64, self.tick);
                assert forall|after: Runtime<T>, end: Result<(), KituError>| #[trigger]
                    self.cycled_times((count - done) as nat, after, end)
                implies old(self).cycled_times(count as nat, after, end) by {
                    assert(before.cycled(*self, ran));
                    assert((count - done_before - 1) as nat == (count - done) as nat);
                    assert(before.cycled_times((count - done_before) as nat, after, end));
                }
            }
        }
        proof {
            assert(self.cycled_times((count - done) as nat, *self, Ok(())));
            old(self).lemma_cycles_counted(count as nat, *self, Ok(()));
        }
        Ok(())
    }
}

/// A runtime with the default settings: sixty ticks per second.
pub fn build_runtime<T: Transport>(transport: T) -> (runtime: Runtime<T>)
    ensures
        runtime.spec_config().tick_rate_hz == 60,
        runtime.spec_current_tick() == Tick::spec_start(),
        runtime.transport() == transport,
        runtime.world().components() == Seq::<Seq<char>>::empty(),
        runtime.world().scheduled() == Seq::<ScheduledSystem>::empty(),
{
    Runtime::new(RuntimeConfig::default_60hz(), transport)
}

} // verus!
