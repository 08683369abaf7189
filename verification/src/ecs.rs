//! The world: a registry of component names and a queue of systems that
//! are run, first in first out, when the world is dispatched.

use crate::error::{fails_with, ErrorView, KituError};
use crate::tick::Tick;
use std::collections::HashMap;
use std::collections::VecDeque;
use vstd::prelude::*;

verus! {

/// The values of a list of names.
pub open spec fn name_views(names: Seq<String>) -> Seq<Seq<char>> {
    names.map_values(|name: String| name@)
}

/// The failure reported when a component is registered twice.
pub open spec fn already_registered() -> ErrorView {
    ErrorView::InvalidInput("component already registered"@)
}

/// What registering `name` makes of the names `names`: the names with `name`
/// behind them, or `None` where `name` is one of them.
pub open spec fn registered(names: Seq<Seq<char>>, name: Seq<char>) -> Option<Seq<Seq<char>>> {
    if names.contains(name) {
        None
    } else {
        Some(names.push(name))
    }
}

/// The names of the registered component types, in the order in which they
/// were registered. No name occurs twice.
pub struct ComponentRegistry {
    names: Vec<String>,
}

impl View for ComponentRegistry {
    type V = Seq<Seq<char>>;

    closed spec fn view(&self) -> Seq<Seq<char>> {
        name_views(self.names@)
    }
}

impl Default for ComponentRegistry {
    /// The registry without names.
    fn default() -> (registry: ComponentRegistry)
        ensures
            registry@ == Seq::<Seq<char>>::empty(),
    {
        ComponentRegistry::new()
    }
}

impl ComponentRegistry {
    #[verifier::type_invariant]
    spec fn unique(&self) -> bool {
        name_views(self.names@).no_duplicates()
    }

    /// The registry without names.
    pub fn new() -> (registry: ComponentRegistry)
        ensures
            registry@ == Seq::<Seq<char>>::empty(),
    {
        let names: Vec<String> = Vec::new();
        assert(name_views(names@) =~= Seq::<Seq<char>>::empty());
        ComponentRegistry { names }
    }

    /// Whether `name` is registered. Names are compared character by
    /// character, so case counts.
    pub fn contains(&self, name: &str) -> (found: bool)
        ensures
            found == self@.contains(name@),
    {
        let wanted = name.to_owned();
        let mut i: usize = 0;
        while i < self.names.len()
            invariant
                0 <= i <= self.names@.len(),
                wanted@ == name@,
                forall|k: int| 0 <= k < i ==> name_views(self.names@)[k] != name@,
            decreases self.names@.len() - i,
        {
            if self.names[i] == wanted {
                assert(name_views(self.names@)[i as int] == name@);
                return true;
            }
            i += 1;
        }
        false
    }

    /// Registers `name`. Fails, and changes nothing, if the name is
    /// registered already; otherwise the name comes last.
    pub fn register(&mut self, name: &str) -> (outcome: Result<(), KituError>)
        ensures
            match registered(old(self)@, name@) {
                Some(names) => outcome is Ok && final(self)@ == names,
                None => fails_with(outcome, already_registered()) && final(self)@ == old(self)@,
            },
    {
        if self.contains(name) {
            return Err(KituError::InvalidInput("component already registered"));
        }
        proof {
            use_type_invariant(&*self);
        }
        let mut names: Vec<String> = Vec::new();
        assert(name_views(names@) =~= Seq::<Seq<char>>::empty());
        std::mem::swap(&mut self.names, &mut names);
        names.push(name.to_owned());
        assert(name_views(names@) =~= old(self)@.push(name@));
        std::mem::swap(&mut self.names, &mut names);
        Ok(())
    }

    /// A copy of the registered names, in registration order.
    pub fn names(&self) -> (names: Vec<String>)
        ensures
            name_views(names@) == self@,
            self@.no_duplicates(),
    {
        proof {
            use_type_invariant(self);
        }
        let mut names: Vec<String> = Vec::new();
        let mut i: usize = 0;
        while i < self.names.len()
            invariant
                0 <= i <= self.names@.len(),
                name_views(names@) == name_views(self.names@).take(i as int),
            decreases self.names@.len() - i,
        {
            let ghost before = names@;
            let name = self.names[i].clone();
            assert(name@ == self.names@[i as int]@);
            names.push(name);
            assert(names@ == before.push(name));
            assert(name_views(names@) =~= name_views(before).push(name@));
            assert(name_views(names@) =~= name_views(self.names@).take(i + 1));
            i += 1;
        }
        assert(name_views(self.names@).take(i as int) =~= name_views(self.names@));
        names
    }
}

/// A unit of per-tick behaviour. A system is run with the world's component
/// registry and the current tick, and may fail.
pub trait System: Send + Sync + 'static {
    /// What a run of this system may do: whether, started on the names
    /// `before` at `tick`, it may leave the names `after` and return
    /// `outcome`. A system that says nothing allows everything.
    open spec fn allows(
        &self,
        before: Seq<Seq<char>>,
        after: Seq<Seq<char>>,
        tick: Tick,
        outcome: Result<(), KituError>,
    ) -> bool {
        true
    }

    /// Runs the system for `tick`.
    fn run(&mut self, components: &mut ComponentRegistry, tick: Tick) -> (outcome: Result<
        (),
        KituError,
    >)
        ensures
            old(self).allows(old(components)@, final(components)@, tick, outcome),
    ;
}

/// What a world keeps of a system once its type is hidden. Every system
/// has it, with the system's own behaviour.
trait HeldSystem: Send + Sync + 'static {
    /// What a run may do; see [`System::allows`].
    spec fn held_allows(
        &self,
        before: Seq<Seq<char>>,
        after: Seq<Seq<char>>,
        tick: Tick,
        outcome: Result<(), KituError>,
    ) -> bool;

    /// Runs the system for `tick`.
    fn held_run(&mut self, components: &mut ComponentRegistry, tick: Tick) -> (outcome: Result<
        (),
        KituError,
    >)
        ensures
            old(self).held_allows(old(components)@, final(components)@, tick, outcome),
    ;
}

impl<S: System> HeldSystem for S {
    spec fn held_allows(
        &self,
        before: Seq<Seq<char>>,
        after: Seq<Seq<char>>,
        tick: Tick,
        outcome: Result<(), KituError>,
    ) -> bool {
        self.allows(before, after, tick, outcome)
    }

    fn held_run(&mut self, components: &mut ComponentRegistry, tick: Tick) -> (outcome: Result<
        (),
        KituError,
    >) {
        self.run(components, tick)
    }
}

/// A system that waits in a world's queue, behind a handle that hides its type.
pub struct ScheduledSystem {
    system: Box<dyn HeldSystem>,
}

impl ScheduledSystem {
    /// The handle that holds `system`.
    pub closed spec fn holding<S: System>(system: S) -> ScheduledSystem {
        ScheduledSystem { system: Box::new(system) }
    }

    /// What a run of the held system may do; see [`System::allows`].
    pub closed spec fn allows(
        &self,
        before: Seq<Seq<char>>,
        after: Seq<Seq<char>>,
        tick: Tick,
        outcome: Result<(), KituError>,
    ) -> bool {
        self.system.held_allows(before, after, tick, outcome)
    }
}

/// A handle allows what the system that it holds allows.
pub proof fn lemma_held_system_allows<S: System>(
    system: S,
    before: Seq<Seq<char>>,
    after: Seq<Seq<char>>,
    tick: Tick,
    outcome: Result<(), KituError>,
)
    ensures
        ScheduledSystem::holding(system).allows(before, after, tick, outcome) == system.allows(
            before,
            after,
            tick,
            outcome,
        ),
{
}

/// Whether running `queue` in order, first in first out, on the names
/// `before` at `tick` may end with the names `after`, the result `outcome`
/// and the systems `left` still queued. Each system starts on the names that
/// the one before it left. The first failure ends the run: it is the
/// outcome, and the systems behind the failed one stay queued.
pub open spec fn dispatched(
    queue: Seq<ScheduledSystem>,
    before: Seq<Seq<char>>,
    tick: Tick,
    after: Seq<Seq<char>>,
    outcome: Result<(), KituError>,
    left: Seq<ScheduledSystem>,
) -> bool
    decreases queue.len(),
{
    if queue.len() == 0 {
        outcome is Ok && after == before && left == queue
    } else {
        exists|between: Seq<Seq<char>>, first: Result<(), KituError>|
            #[trigger] queue[0].allows(before, between, tick, first) && if first is Ok {
                dispatched(queue.skip(1), between, tick, after, outcome, left)
            } else {
                outcome == first && after == between && left == queue.skip(1)
            }
    }
}

/// After a dispatch that succeeded nothing is left in the queue; after one
/// that failed, what is left is what stood behind some system of the queue.
pub proof fn lemma_dispatched_leaves(
    queue: Seq<ScheduledSystem>,
    before: Seq<Seq<char>>,
    tick: Tick,
    after: Seq<Seq<char>>,
    outcome: Result<(), KituError>,
    left: Seq<ScheduledSystem>,
)
    requires
        dispatched(queue, before, tick, after, outcome, left),
    ensures
        outcome is Ok ==> left.len() == 0,
        outcome is Err ==> exists|k: int| 1 <= k <= queue.len() && left == #[trigger] queue.skip(k),
    decreases queue.len(),
{
    if queue.len() > 0 {
        let (between, first) = choose|between: Seq<Seq<char>>, first: Result<(), KituError>|
            #[trigger] queue[0].allows(before, between, tick, first) && if first is Ok {
                dispatched(queue.skip(1), between, tick, after, outcome, left)
            } else {
                outcome == first && after == between && left == queue.skip(1)
            };
        if first is Ok {
            lemma_dispatched_leaves(queue.skip(1), between, tick, after, outcome, left);
            if outcome is Err {
                let k = choose|k: int|
                    1 <= k <= queue.skip(1).len() && left == #[trigger] queue.skip(1).skip(k);
                assert(queue.skip(1).skip(k) =~= queue.skip(k + 1));
            }
        } else {
            assert(left == queue.skip(1));
        }
    }
}

/// Where a dispatch failed, one system of the queue returned that failure
/// and left the names as they are at the end. No system behind it ran:
/// those are what is left in the queue.
pub proof fn lemma_dispatch_failure(
    queue: Seq<ScheduledSystem>,
    before: Seq<Seq<char>>,
    tick: Tick,
    after: Seq<Seq<char>>,
    outcome: Result<(), KituError>,
    left: Seq<ScheduledSystem>,
)
    requires
        outcome is Err,
        dispatched(queue, before, tick, after, outcome, left),
    ensures
        exists|k: int, found: Seq<Seq<char>>|
            0 <= k < queue.len() && #[trigger] queue[k].allows(found, after, tick, outcome) && left
                == queue.skip(k + 1),
    decreases queue.len(),
{
    let (between, first) = choose|between: Seq<Seq<char>>, first: Result<(), KituError>|
        #[trigger] queue[0].allows(before, between, tick, first) && if first is Ok {
            dispatched(queue.skip(1), between, tick, after, outcome, left)
        } else {
            outcome == first && after == between && left == queue.skip(1)
        };
    if first is Ok {
        let rest = queue.skip(1);
        lemma_dispatch_failure(rest, between, tick, after, outcome, left);
        let (k, found) = choose|k: int, found: Seq<Seq<char>>|
            0 <= k < rest.len() && #[trigger] rest[k].allows(found, after, tick, outcome) && left
                == rest.skip(k + 1);
        assert(rest[k] == queue[k + 1]);
        assert(rest.skip(k + 1) =~= queue.skip(k + 2));
        assert(queue[k + 1].allows(found, after, tick, outcome));
    } else {
        assert(queue[0].allows(before, after, tick, outcome));
    }
}

/// Systems run in the order in which they were queued: where a queue of
/// three was dispatched with success, the first ran on the names at the
/// start, the second on what the first left, the third on what the second
/// left, and the third left the names at the end. Each of the three
/// succeeded, and none is left in the queue.
pub proof fn lemma_three_run_in_order(
    a: ScheduledSystem,
    b: ScheduledSystem,
    c: ScheduledSystem,
    before: Seq<Seq<char>>,
    tick: Tick,
    after: Seq<Seq<char>>,
    outcome: Result<(), KituError>,
    left: Seq<ScheduledSystem>,
)
    requires
        outcome is Ok,
        dispatched(seq![a, b, c], before, tick, after, outcome, left),
    ensures
        left.len() == 0,
        exists|
            first: Seq<Seq<char>>,
            second: Seq<Seq<char>>,
            ran_a: Result<(), KituError>,
            ran_b: Result<(), KituError>,
            ran_c: Result<(), KituError>,
        |
            #![trigger a.allows(before, first, tick, ran_a), b.allows(first, second, tick, ran_b), c.allows(second, after, tick, ran_c)]
            ran_a is Ok && ran_b is Ok && ran_c is Ok && a.allows(before, first, tick, ran_a)
                && b.allows(first, second, tick, ran_b) && c.allows(second, after, tick, ran_c),
{
    let queue = seq![a, b, c];
    lemma_dispatched_leaves(queue, before, tick, after, outcome, left);
    let (n1, r1) = choose|between: Seq<Seq<char>>, first: Result<(), KituError>|
        #[trigger] queue[0].allows(before, between, tick, first) && if first is Ok {
            dispatched(queue.skip(1), between, tick, after, outcome, left)
        } else {
            outcome == first && after == between && left == queue.skip(1)
        };
    let rest = queue.skip(1);
    assert(rest[0] == b);
    let (n2, r2) = choose|between: Seq<Seq<char>>, first: Result<(), KituError>|
        #[trigger] rest[0].allows(n1, between, tick, first) && if first is Ok {
            dispatched(rest.skip(1), between, tick, after, outcome, left)
        } else {
            outcome == first && after == between && left == rest.skip(1)
        };
    let last = rest.skip(1);
    assert(last[0] == c);
    let (n3, r3) = choose|between: Seq<Seq<char>>, first: Result<(), KituError>|
        #[trigger] last[0].allows(n2, between, tick, first) && if first is Ok {
            dispatched(last.skip(1), between, tick, after, outcome, left)
        } else {
            outcome == first && after == between && left == last.skip(1)
        };
    assert(last.skip(1).len() == 0);
    assert(n3 == after);
    assert(r1 is Ok && r2 is Ok && r3 is Ok && a.allows(before, n1, tick, r1) && b.allows(
        n1,
        n2,
        tick,
        r2,
    ) && c.allows(n2, after, tick, r3));
}

/// Registering a name twice fails the second time, and the failed call
/// leaves the names, and so their number, as they were.
pub proof fn lemma_register_twice(names: Seq<Seq<char>>, name: Seq<char>)
    requires
        registered(names, name) is Some,
    ensures
        registered(registered(names, name).unwrap(), name) is None,
        registered(names, name).unwrap().len() == names.len() + 1,
{
    let after = names.push(name);
    assert(after[names.len() as int] == name);
}

/// The world: the component registry and the queue of scheduled systems.
pub struct EcsWorld {
    components: ComponentRegistry,
    scheduled: VecDeque<ScheduledSystem>,
}

impl Default for EcsWorld {
    /// The world without components and without scheduled systems.
    fn default() -> (world: EcsWorld)
        ensures
            world.components() == Seq::<Seq<char>>::empty(),
            world.scheduled() == Seq::<ScheduledSystem>::empty(),
    {
        EcsWorld { components: ComponentRegistry::new(), scheduled: VecDeque::new() }
    }
}

impl EcsWorld {
    /// The registered component names, in registration order.
    pub closed spec fn components(&self) -> Seq<Seq<char>> {
        self.components@
    }

    /// The scheduled systems, next to run first.
    pub closed spec fn scheduled(&self) -> Seq<ScheduledSystem> {
        self.scheduled@
    }

    /// Registers the component type `name`. Fails, and changes nothing, if
    /// the name is registered already; otherwise the name comes last. The
    /// queue of systems stays as it is.
    pub fn register_component(&mut self, name: &str) -> (outcome: Result<(), KituError>)
        ensures
            match registered(old(self).components(), name@) {
                Some(names) => outcome is Ok && final(self).components() == names,
                None => fails_with(outcome, already_registered()) && final(self).components()
                    == old(self).components(),
            },
            final(self).scheduled() == old(self).scheduled(),
    {
        self.components.register(name)
    }

    /// Schedules `system` behind the systems that are queued. The world owns
    /// the system from here on.
    pub fn schedule_system<S: System>(&mut self, system: S)
        ensures
            final(self).scheduled() == old(self).scheduled().push(ScheduledSystem::holding(system)),
            final(self).components() == old(self).components(),
    {
        self.scheduled.push_back(ScheduledSystem { system: Box::new(system) });
    }

    /// Runs the scheduled systems for `tick`, first in first out, until the
    /// queue is empty or a system fails. A failure is returned at once: the
    /// systems behind the failed one are not run and stay queued.
    pub fn dispatch(&mut self, tick: Tick) -> (outcome: Result<(), KituError>)
        ensures
            dispatched(
                old(self).scheduled(),
                old(self).components(),
                tick,
                final(self).components(),
                outcome,
                final(self).scheduled(),
            ),
            outcome is Ok ==> final(self).scheduled().len() == 0,
            outcome is Err ==> exists|k: int|
                1 <= k <= old(self).scheduled().len() && final(self).scheduled()
                    == #[trigger] old(self).scheduled().skip(k),
    {
        let ghost queue = self.scheduled@;
        let ghost start = self.components@;
        while self.scheduled.len() > 0
            invariant
                queue == old(self).scheduled(),
                start == old(self).components(),
                forall|after: Seq<Seq<char>>, outcome: Result<(), KituError>, left: Seq<ScheduledSystem>|
                    #[trigger] dispatched(
                        self.scheduled@,
                        self.components@,
                        tick,
                        after,
                        outcome,
                        left,
                    ) ==> dispatched(queue, start, tick, after, outcome, left),
            decreases self.scheduled@.len(),
        {
            let ghost waiting = self.scheduled@;
            let ghost before = self.components@;
            let mut slot = match self.scheduled.pop_front() {
                Some(slot) => slot,
                None => {
                    return Ok(());
                },
            };
            let ghost first = slot;
            assert(first == waiting[0]);
            assert(self.scheduled@ == waiting.skip(1));
            let outcome = slot.system.held_run(&mut self.components, tick);
            assert(first.allows(before, self.components@, tick, outcome));
            match outcome {
                Ok(()) => {
                    assert forall|after: Seq<Seq<char>>, end: Result<(), KituError>, left: Seq<ScheduledSystem>|
                        #[trigger] dispatched(
                            self.scheduled@,
                            self.components@,
                            tick,
                            after,
                            end,
                            left,
                        ) implies dispatched(queue, start, tick, after, end, left) by {
                        assert(waiting[0].allows(before, self.components@, tick, outcome));
                        assert(dispatched(waiting, before, tick, after, end, left));
                    }
                },
                Err(e) => {
                    proof {
                        assert(waiting[0].allows(before, self.components@, tick, outcome));
                        assert(dispatched(
                            waiting,
                            before,
                            tick,
                            self.components@,
                            outcome,
                            self.scheduled@,
                        ));
                        lemma_dispatched_leaves(
                            queue,
                            start,
                            tick,
                            self.components@,
                            outcome,
                            self.scheduled@,
                        );
                    }
                    return Err(e);
                },
            }
        }
        proof {
            assert(dispatched(
                self.scheduled@,
                self.components@,
                tick,
                self.components@,
                Ok(()),
                self.scheduled@,
            ));
        }
        Ok(())
    }

    /// A copy of the registered component names, in registration order.
    pub fn registered_components(&self) -> (names: Vec<String>)
        ensures
            name_views(names@) == self.components(),
            self.components().no_duplicates(),
    {
        self.components.names()
    }

    /// The component registry, for code that runs a system by hand.
    pub fn components_mut(&mut self) -> (components: &mut ComponentRegistry)
        ensures
            components@ == old(self).components(),
            final(self).components() == final(components)@,
            final(self).scheduled() == old(self).scheduled(),
    {
        &mut self.components
    }
}

/// How often a system has run at the tick with counter `at`, by the record `runs`.
pub open spec fn run_count(runs: Map<u64, usize>, at: u64) -> nat {
    if runs.contains_key(at) {
        runs[at] as nat
    } else {
        0
    }
}

/// `count` and one more, as far as a counter can hold it.
pub open spec fn one_more(count: nat) -> usize {
    if count < usize::MAX {
        (count + 1) as usize
    } else {
        usize::MAX
    }
}

/// A system that only records how often it has run at each tick.
pub struct RecordingSystem {
    /// The number of runs, by the counter of the tick. A count that has
    /// reached the largest number it can hold stays there.
    pub runs: HashMap<u64, usize>,
}

impl Default for RecordingSystem {
    /// The system that has not run yet.
    fn default() -> (system: RecordingSystem)
        ensures
            system.runs@ == Map::<u64, usize>::empty(),
    {
        RecordingSystem { runs: HashMap::new() }
    }
}

impl System for RecordingSystem {
    /// A run never fails and leaves the component names as they are.
    open spec fn allows(
        &self,
        before: Seq<Seq<char>>,
        after: Seq<Seq<char>>,
        tick: Tick,
        outcome: Result<(), KituError>,
    ) -> bool {
        outcome is Ok && after == before
    }

    /// Counts one more run at `tick`.
    fn run(&mut self, components: &mut ComponentRegistry, tick: Tick) -> (outcome: Result<
        (),
        KituError,
    >)
        ensures
            final(self).runs@ == old(self).runs@.insert(
                tick.value(),
                one_more(run_count(old(self).runs@, tick.value())),
            ),
    {
        broadcast use vstd::std_specs::hash::group_hash_axioms;

        let at = tick.get();
        let count: usize = match self.runs.get(&at) {
            Some(count) => *count,
            None => 0,
        };
        let next = if count < usize::MAX {
            count + 1
        } else {
            count
        };
        self.runs.insert(at, next);
        Ok(())
    }
}

} // verus!
