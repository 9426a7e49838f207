//! An executor that runs the units of work of a schedule in order and applies
//! what each one deferred before the next one runs.

use vstd::prelude::*;

verus! {

/// The kinds of executor that a host knows.
#[derive(Clone, Copy, PartialEq, Eq, Structural, Debug)]
pub enum ExecutorKind {
    SingleThreaded,
    Simple,
    MultiThreaded,
}

/// A unit of work on a store `W`. The relations say what a run, and what the
/// application of the changes that a run deferred, may do to the system and to
/// the store; a system that states nothing keeps them as they are: true of
/// every call.
pub trait System<W>: Sized {
    open spec fn ran(before: Self, world0: W, after: Self, world1: W) -> bool {
        true
    }

    open spec fn applied(before: Self, world0: W, after: Self, world1: W) -> bool {
        true
    }

    fn run(&mut self, world: &mut W)
        ensures
            Self::ran(*old(self), *old(world), *final(self), *final(world)),
    ;

    fn apply_deferred(&mut self, world: &mut W)
        ensures
            Self::applied(*old(self), *old(world), *final(self), *final(world)),
    ;
}

/// A condition on a store `W`. The relation says what an evaluation may do and
/// which verdict it may give.
pub trait Condition<W>: Sized {
    open spec fn evaluated(before: Self, world0: W, after: Self, world1: W, verdict: bool) -> bool {
        true
    }

    fn run(&mut self, world: &mut W) -> (verdict: bool)
        ensures
            Self::evaluated(*old(self), *old(world), *final(self), *final(world), verdict),
    ;
}

/// The systems of a schedule, in the order in which they run.
pub struct SystemSchedule<S> {
    pub systems: Vec<S>,
}

/// One system ran, and what it deferred was applied at once.
pub open spec fn stepped<W, S: System<W>>(before: S, world0: W, after: S, world1: W) -> bool {
    exists|ran: S, between: W|
        {
            &&& #[trigger] S::ran(before, world0, ran, between)
            &&& S::applied(ran, between, after, world1)
        }
}

/// The first `count` systems ran in their order, each followed at once by the
/// application of what it deferred: `worlds` holds the store as it stood
/// before each system and after the last. The other systems are as they were.
pub open spec fn ran_in_order<W, S: System<W>>(
    systems0: Seq<S>,
    worlds: Seq<W>,
    systems1: Seq<S>,
    count: int,
) -> bool {
    &&& 0 <= count <= systems0.len()
    &&& systems1.len() == systems0.len()
    &&& worlds.len() == count + 1
    &&& forall|i: int|
        0 <= i < count ==> stepped::<W, S>(
            #[trigger] systems0[i],
            worlds[i],
            systems1[i],
            worlds[i + 1],
        )
    &&& forall|i: int| count <= i < systems0.len() ==> #[trigger] systems1[i] == systems0[i]
}

/// The first `count` conditions were evaluated in their order: `worlds` holds
/// the store as it stood before each evaluation and after the last, and
/// `verdicts` what each evaluation gave. The other conditions are as they
/// were.
pub open spec fn evaluated_in_order<W, C: Condition<W>>(
    conditions0: Seq<C>,
    worlds: Seq<W>,
    verdicts: Seq<bool>,
    conditions1: Seq<C>,
    count: int,
) -> bool {
    &&& 0 <= count <= conditions0.len()
    &&& conditions1.len() == conditions0.len()
    &&& worlds.len() == count + 1
    &&& verdicts.len() == count
    &&& forall|i: int|
        0 <= i < count ==> C::evaluated(
            #[trigger] conditions0[i],
            worlds[i],
            conditions1[i],
            worlds[i + 1],
            verdicts[i],
        )
    &&& forall|i: int| count <= i < conditions0.len() ==> #[trigger] conditions1[i] == conditions0[i]
}

/// True if every verdict of a list is true.
pub open spec fn all_hold(verdicts: Seq<bool>) -> bool {
    forall|i: int| 0 <= i < verdicts.len() ==> #[trigger] verdicts[i]
}

/// Runs systems one after the other, on the calling thread.
#[derive(Default)]
pub struct LazyLoadedExecutor {}

impl LazyLoadedExecutor {
    /// A new executor. It keeps no state.
    pub fn new() -> (executor: Self)
        ensures
            executor == (LazyLoadedExecutor {}),
    {
        LazyLoadedExecutor {}
    }

    /// The kind that the executor reports to a host: the simple one.
    pub fn kind(&self) -> (kind: ExecutorKind)
        ensures
            kind == ExecutorKind::Simple,
    {
        ExecutorKind::Simple
    }

    /// Nothing is deferred to the end of a run, so there is nothing to set.
    pub fn set_apply_final_deferred(&mut self, _value: bool)
        ensures
            *final(self) == *old(self),
    {
    }

    /// The executor needs no preparation for a schedule.
    pub fn init<S>(&mut self, _schedule: &SystemSchedule<S>)
        ensures
            *final(self) == *old(self),
    {
    }

    /// Runs every system of the schedule once, in order, and applies what a
    /// system deferred before the next one runs.
    pub fn run<W, S: System<W>>(&mut self, schedule: &mut SystemSchedule<S>, world: &mut W)
        ensures
            *final(self) == *old(self),
            exists|worlds: Seq<W>|
                {
                    &&& #[trigger] ran_in_order::<W, S>(
                        old(schedule).systems@,
                        worlds,
                        final(schedule).systems@,
                        old(schedule).systems@.len() as int,
                    )
                    &&& worlds[0] == *old(world)
                    &&& worlds.last() == *final(world)
                },
    {
        let ghost mut worlds: Seq<W> = seq![*world];
        let mut system_index: usize = 0;
        while system_index < schedule.systems.len()
            invariant
                system_index <= schedule.systems@.len(),
                ran_in_order::<W, S>(
                    old(schedule).systems@,
                    worlds,
                    schedule.systems@,
                    system_index as int,
                ),
                worlds[0] == *old(world),
                worlds.last() == *world,
            decreases schedule.systems@.len() - system_index,
        {
            let ghost systems_before = schedule.systems@;
            let ghost worlds_before = worlds;
            let ghost world_before = *world;
            let system = &mut schedule.systems[system_index];
            system.run(world);
            let ghost ran = *system;
            let ghost between = *world;
            system.apply_deferred(world);
            proof {
                worlds = worlds.push(*world);
                let at = system_index as int;
                assert(S::ran(systems_before[at], world_before, ran, between));
                assert(stepped::<W, S>(systems_before[at], world_before, schedule.systems@[at], *world));
                assert forall|i: int| 0 <= i < at + 1 implies stepped::<W, S>(
                    #[trigger] old(schedule).systems@[i],
                    worlds[i],
                    schedule.systems@[i],
                    worlds[i + 1],
                ) by {
                    if i < at {
                        assert(worlds[i] == worlds_before[i]);
                        assert(worlds[i + 1] == worlds_before[i + 1]);
                        assert(schedule.systems@[i] == systems_before[i]);
                    }
                }
            }
            system_index = system_index + 1;
        }
    }
}

/// Evaluates every condition of a list, in order and without stopping at the
/// first that fails, and says whether all of them held.
pub fn evaluate_and_fold_conditions<W, C: Condition<W>>(conditions: &mut Vec<C>, world: &mut W) -> (r:
    bool)
    ensures
        exists|worlds: Seq<W>, verdicts: Seq<bool>|
            {
                &&& #[trigger] evaluated_in_order::<W, C>(
                    old(conditions)@,
                    worlds,
                    verdicts,
                    final(conditions)@,
                    old(conditions)@.len() as int,
                )
                &&& worlds[0] == *old(world)
                &&& worlds.last() == *final(world)
                &&& r == all_hold(verdicts)
            },
{
    let ghost mut worlds: Seq<W> = seq![*world];
    let ghost mut verdicts: Seq<bool> = Seq::empty();
    let mut acc = true;
    let mut index: usize = 0;
    while index < conditions.len()
        invariant
            index <= conditions@.len(),
            evaluated_in_order::<W, C>(old(conditions)@, worlds, verdicts, conditions@, index as int),
            worlds[0] == *old(world),
            worlds.last() == *world,
            acc == all_hold(verdicts),
        decreases conditions@.len() - index,
    {
        let ghost conditions_before = conditions@;
        let ghost worlds_before = worlds;
        let ghost verdicts_before = verdicts;
        let res = conditions[index].run(world);
        acc = acc && res;
        proof {
            worlds = worlds.push(*world);
            verdicts = verdicts.push(res);
            let at = index as int;
            assert forall|i: int| 0 <= i < at + 1 implies C::evaluated(
                #[trigger] old(conditions)@[i],
                worlds[i],
                conditions@[i],
                worlds[i + 1],
                verdicts[i],
            ) by {
                if i < at {
                    assert(worlds[i] == worlds_before[i]);
                    assert(worlds[i + 1] == worlds_before[i + 1]);
                    assert(verdicts[i] == verdicts_before[i]);
                    assert(conditions@[i] == conditions_before[i]);
                }
            }
            if all_hold(verdicts) {
                assert forall|i: int| 0 <= i < verdicts_before.len() implies #[trigger] verdicts_before[i] by {
                    assert(verdicts[i]);
                }
                assert(verdicts[at]);
            } else {
                if all_hold(verdicts_before) && res {
                    assert forall|i: int| 0 <= i < verdicts.len() implies #[trigger] verdicts[i] by {
                        if i < at {
                            assert(verdicts_before[i]);
                        }
                    }
                }
            }
        }
        index = index + 1;
    }
    acc
}

} // verus!
