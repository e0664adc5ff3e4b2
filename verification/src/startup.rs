use vstd::prelude::*;

use crate::spawns::SpawnRegistry;
use crate::store::{find_animation, first_index_of, first_index_of_holds, InstanceSummary};

verus! {

/// A window to open at start-up: its spawn id, and the positions of its
/// instance and of that instance's animation in the lists that were read.
#[derive(Debug, Clone, Copy, PartialEq, Eq, Structural)]
pub struct AutoSpawn {
    pub spawn_id: usize,
    pub instance_index: usize,
    pub animation_index: usize,
}

/// An instance that is started at start-up when room is left: it is marked
/// auto-spawn and its animation exists.
pub open spec fn eligible(inst: InstanceSummary, anims: Seq<i32>) -> bool {
    inst.auto_spawn && anims.contains(inst.animation_id)
}

/// The windows opened at start-up for the instances `insts` (in order),
/// the animation ids `anims`, at most `max` windows, and spawn ids drawn
/// from `counter` on.
pub open spec fn auto_spawn_plan(
    insts: Seq<InstanceSummary>,
    anims: Seq<i32>,
    max: nat,
    counter: nat,
) -> Seq<AutoSpawn>
    decreases insts.len(),
{
    if insts.len() == 0 {
        Seq::empty()
    } else {
        let p = auto_spawn_plan(insts.drop_last(), anims, max, counter);
        let inst = insts.last();
        if eligible(inst, anims) && p.len() < max {
            p.push(
                AutoSpawn {
                    spawn_id: (counter + p.len() + 1) as usize,
                    instance_index: (insts.len() - 1) as usize,
                    animation_index: first_index_of(anims, inst.animation_id) as usize,
                },
            )
        } else {
            p
        }
    }
}

/// The number of eligible instances among `insts`.
pub open spec fn eligible_count(insts: Seq<InstanceSummary>, anims: Seq<i32>) -> nat
    decreases insts.len(),
{
    if insts.len() == 0 {
        0
    } else {
        eligible_count(insts.drop_last(), anims) + if eligible(insts.last(), anims) {
            1nat
        } else {
            0nat
        }
    }
}

/// Plans on a shorter list are no longer.
proof fn plan_len_monotone(insts: Seq<InstanceSummary>, anims: Seq<i32>, max: nat, counter: nat, k: int)
    requires
        0 <= k <= insts.len(),
    ensures
        auto_spawn_plan(insts.take(k), anims, max, counter).len() <= auto_spawn_plan(insts, anims, max, counter).len(),
    decreases insts.len(),
{
    if k < insts.len() {
        assert(insts.drop_last().take(k) =~= insts.take(k));
        plan_len_monotone(insts.drop_last(), anims, max, counter, k);
    } else {
        assert(insts.take(k) =~= insts);
    }
}

proof fn plan_len(insts: Seq<InstanceSummary>, anims: Seq<i32>, max: nat, counter: nat)
    ensures
        auto_spawn_plan(insts, anims, max, counter).len() == if eligible_count(insts, anims) < max {
            eligible_count(insts, anims)
        } else {
            max
        },
    decreases insts.len(),
{
    if insts.len() > 0 {
        plan_len(insts.drop_last(), anims, max, counter);
    }
}

/// The properties of one entry of a start-up plan.
pub open spec fn plan_entry_ok(
    e: AutoSpawn,
    k: int,
    insts: Seq<InstanceSummary>,
    anims: Seq<i32>,
    counter: nat,
) -> bool {
    &&& e.spawn_id == counter + k + 1
    &&& e.instance_index < insts.len()
    &&& eligible(insts[e.instance_index as int], anims)
    &&& e.animation_index < anims.len()
    &&& anims[e.animation_index as int] == insts[e.instance_index as int].animation_id
    &&& forall|m: int| 0 <= m < e.animation_index ==> anims[m] != insts[e.instance_index as int].animation_id
}

proof fn plan_entries(insts: Seq<InstanceSummary>, anims: Seq<i32>, max: nat, counter: nat)
    requires
        counter + insts.len() <= usize::MAX,
        anims.len() <= usize::MAX,
    ensures
        auto_spawn_plan(insts, anims, max, counter).len() <= insts.len(),
        forall|k: int|
            0 <= k < auto_spawn_plan(insts, anims, max, counter).len() ==> plan_entry_ok(
                #[trigger] auto_spawn_plan(insts, anims, max, counter)[k],
                k,
                insts,
                anims,
                counter,
            ),
    decreases insts.len(),
{
    if insts.len() > 0 {
        let q = insts.drop_last();
        plan_entries(q, anims, max, counter);
        let p0 = auto_spawn_plan(q, anims, max, counter);
        let p = auto_spawn_plan(insts, anims, max, counter);
        let inst = insts.last();
        assert forall|k: int| 0 <= k < p0.len() implies plan_entry_ok(p0[k], k, insts, anims, counter) by {
            assert(plan_entry_ok(p0[k], k, q, anims, counter));
            assert(insts[p0[k].instance_index as int] == q[p0[k].instance_index as int]);
        }
        if eligible(inst, anims) && p0.len() < max {
            first_index_of_holds(anims, inst.animation_id);
            let e = p[p0.len() as int];
            assert(p == p0.push(e));
            assert(p0.len() <= q.len());
            assert(e.spawn_id == counter + p0.len() + 1);
            assert(e.instance_index == insts.len() - 1);
            assert(insts[e.instance_index as int] == inst);
            assert(plan_entry_ok(e, p0.len() as int, insts, anims, counter));
            assert forall|k: int| 0 <= k < p.len() implies plan_entry_ok(p[k], k, insts, anims, counter) by {
                if k < p0.len() {
                    assert(p[k] == p0[k]);
                }
            }
        }
    }
}

proof fn plan_ordered(insts: Seq<InstanceSummary>, anims: Seq<i32>, max: nat, counter: nat)
    requires
        counter + insts.len() <= usize::MAX,
        anims.len() <= usize::MAX,
    ensures
        forall|k: int, l: int|
            0 <= k < l < auto_spawn_plan(insts, anims, max, counter).len() ==> (#[trigger] auto_spawn_plan(
                insts,
                anims,
                max,
                counter,
            )[k]).instance_index < (#[trigger] auto_spawn_plan(insts, anims, max, counter)[l]).instance_index,
    decreases insts.len(),
{
    if insts.len() > 0 {
        let q = insts.drop_last();
        plan_ordered(q, anims, max, counter);
        plan_entries(q, anims, max, counter);
        let p0 = auto_spawn_plan(q, anims, max, counter);
        let p = auto_spawn_plan(insts, anims, max, counter);
        let inst = insts.last();
        if eligible(inst, anims) && p0.len() < max {
            let e = p[p0.len() as int];
            assert(p == p0.push(e));
            assert forall|k: int, l: int| 0 <= k < l < p.len() implies p[k].instance_index < p[l].instance_index by {
                assert(p[k] == p0[k]);
                if l < p0.len() {
                    assert(p[l] == p0[l]);
                } else {
                    assert(plan_entry_ok(p0[k], k, q, anims, counter));
                }
            }
        }
    }
}

/// The start-up plan opens one window for each of the first eligible
/// instances, as many as there are but no more than `max`, in their order;
/// each window gets the next spawn id, and its animation index points at its
/// instance's animation.
pub proof fn auto_spawn_plan_properties(insts: Seq<InstanceSummary>, anims: Seq<i32>, max: nat, counter: nat)
    requires
        counter + insts.len() <= usize::MAX,
        anims.len() <= usize::MAX,
    ensures
        ({
            let p = auto_spawn_plan(insts, anims, max, counter);
            &&& p.len() == if eligible_count(insts, anims) < max {
                eligible_count(insts, anims)
            } else {
                max
            }
            &&& forall|k: int| 0 <= k < p.len() ==> plan_entry_ok(#[trigger] p[k], k, insts, anims, counter)
            &&& forall|k: int, l: int| 0 <= k < l < p.len() ==> #[trigger] p[k].instance_index < #[trigger] p[l].instance_index
        }),
{
    plan_len(insts, anims, max, counter);
    plan_entries(insts, anims, max, counter);
    plan_ordered(insts, anims, max, counter);
}

/// One more instance extends the plan of the instances before it by at
/// most one entry.
proof fn plan_step(insts: Seq<InstanceSummary>, anims: Seq<i32>, max: nat, counter: nat, i: int)
    requires
        0 <= i < insts.len(),
    ensures
        ({
            let p = auto_spawn_plan(insts.take(i), anims, max, counter);
            auto_spawn_plan(insts.take(i + 1), anims, max, counter) == if eligible(insts[i], anims) && p.len()
                < max {
                p.push(
                    AutoSpawn {
                        spawn_id: (counter + p.len() + 1) as usize,
                        instance_index: i as usize,
                        animation_index: first_index_of(anims, insts[i].animation_id) as usize,
                    },
                )
            } else {
                p
            }
        }),
{
    assert(insts.take(i + 1).drop_last() =~= insts.take(i));
    assert(insts.take(i + 1).last() == insts[i]);
}

/// Draws spawn ids for the instances to start at start-up: for each stored
/// instance in order that is marked auto-spawn and whose animation exists,
/// while fewer than `max` have been planned, the next spawn id is taken.
pub fn plan_auto_spawns(
    registry: &mut SpawnRegistry,
    instances: &Vec<InstanceSummary>,
    animation_ids: &Vec<i32>,
    max: usize,
) -> (plan: Vec<AutoSpawn>)
    requires
        old(registry).counter() + auto_spawn_plan(
            instances@,
            animation_ids@,
            max as nat,
            old(registry).counter(),
        ).len() <= usize::MAX,
    ensures
        plan@ == auto_spawn_plan(instances@, animation_ids@, max as nat, old(registry).counter()),
        final(registry).counter() == old(registry).counter() + plan@.len(),
        final(registry).spawned() == old(registry).spawned(),
        old(registry).ids_issued() ==> final(registry).ids_issued(),
{
    let ghost c0 = registry.counter();
    let ghost full = auto_spawn_plan(instances@, animation_ids@, max as nat, c0);
    let mut plan: Vec<AutoSpawn> = Vec::new();
    let n = instances.len();
    let mut i: usize = 0;
    assert(instances@.take(0) =~= Seq::<InstanceSummary>::empty());
    while i < n
        invariant
            n == instances@.len(),
            i <= n,
            c0 + full.len() <= usize::MAX,
            full == auto_spawn_plan(instances@, animation_ids@, max as nat, c0),
            plan@ == auto_spawn_plan(instances@.take(i as int), animation_ids@, max as nat, c0),
            registry.counter() == c0 + plan@.len(),
            registry.spawned() == old(registry).spawned(),
            old(registry).ids_issued() ==> registry.ids_issued(),
        decreases n - i,
    {
        let inst = instances[i];
        proof {
            plan_step(instances@, animation_ids@, max as nat, c0, i as int);
            plan_len_monotone(instances@, animation_ids@, max as nat, c0, i + 1);
        }
        if inst.auto_spawn {
            match find_animation(animation_ids, inst.animation_id) {
                Some(j) => {
                    if plan.len() < max {
                        let id = registry.next_spawn_id();
                        plan.push(AutoSpawn { spawn_id: id, instance_index: i, animation_index: j });
                    }
                },
                None => {},
            }
        }
        i = i + 1;
    }
    assert(instances@.take(n as int) =~= instances@);
    plan
}

/// The plan takes the first eligible instances: an eligible instance is left
/// out only when the plan is full and every planned instance comes before it.
pub proof fn plan_takes_first_eligible(insts: Seq<InstanceSummary>, anims: Seq<i32>, max: nat, counter: nat)
    requires
        counter + insts.len() <= usize::MAX,
        anims.len() <= usize::MAX,
    ensures
        forall|x: int|
            0 <= x < insts.len() && eligible(#[trigger] insts[x], anims) ==> {
                let p = auto_spawn_plan(insts, anims, max, counter);
                ||| exists|k: int| 0 <= k < p.len() && #[trigger] p[k].instance_index == x
                ||| p.len() == max && forall|k: int| 0 <= k < p.len() ==> #[trigger] p[k].instance_index < x
            },
    decreases insts.len(),
{
    if insts.len() > 0 {
        let q = insts.drop_last();
        plan_takes_first_eligible(q, anims, max, counter);
        plan_entries(q, anims, max, counter);
        plan_len(q, anims, max, counter);
        let p0 = auto_spawn_plan(q, anims, max, counter);
        let p = auto_spawn_plan(insts, anims, max, counter);
        let inst = insts.last();
        let grows = eligible(inst, anims) && p0.len() < max;
        if grows {
            assert(p == p0.push(p[p0.len() as int]));
            assert(p[p0.len() as int].instance_index == insts.len() - 1);
        }
        assert forall|x: int| 0 <= x < insts.len() && eligible(#[trigger] insts[x], anims) implies {
            ||| exists|k: int| 0 <= k < p.len() && #[trigger] p[k].instance_index == x
            ||| p.len() == max && forall|k: int| 0 <= k < p.len() ==> #[trigger] p[k].instance_index < x
        } by {
            if x == insts.len() - 1 {
                if grows {
                    assert(p[p0.len() as int].instance_index == x);
                } else {
                    assert(p == p0);
                    assert forall|k: int| 0 <= k < p.len() implies #[trigger] p[k].instance_index < x by {
                        assert(plan_entry_ok(p0[k], k, q, anims, counter));
                    }
                }
            } else {
                assert(q[x] == insts[x]);
                if exists|k: int| 0 <= k < p0.len() && #[trigger] p0[k].instance_index == x {
                    let k = choose|k: int| 0 <= k < p0.len() && #[trigger] p0[k].instance_index == x;
                    if grows {
                        assert(p[k] == p0[k]);
                    }
                    assert(p[k].instance_index == x);
                } else {
                    assert(p0.len() == max);
                    assert(p == p0);
                }
            }
        }
    }
}

} // verus!
