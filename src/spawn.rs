use vstd::prelude::*;

verus! {

/// Seed multiplier of the spawn angle.
pub const ANGLE_SEED_FACTOR: u32 = 17;

/// Seed multiplier of the radial distance.
pub const RADIUS_SEED_FACTOR: u32 = 73;

/// Seed multiplier of the offset along the third axis.
pub const SLAB_SEED_FACTOR: u32 = 193;

/// `x` reduced modulo 2^32.
pub open spec fn wrap32(x: int) -> u32 {
    (x % 0x1_0000_0000) as u32
}

/// The multiply-xor-shift hash that places spawned particles.
#[verifier::opaque]
pub open spec fn spawn_hash(seed: u32) -> u32 {
    let a = wrap32(wrap32(seed * 747_796_405int) + 2_891_336_453int);
    let b = a ^ (a >> 16u32);
    let c = wrap32(b * 2_246_822_519int);
    c ^ (c >> 13u32)
}

/// Hash of a seed, as an integer; dividing it by `u32::MAX` gives a value in
/// `[0, 1]`.
pub fn hash_u32(seed: u32) -> (r: u32)
    ensures
        r == spawn_hash(seed),
{
    let mut x: u32 = seed.wrapping_mul(747_796_405).wrapping_add(2_891_336_453);
    x = x ^ (x >> 16u32);
    x = x.wrapping_mul(2_246_822_519);
    x = x ^ (x >> 13u32);
    proof {
        reveal(spawn_hash);
    }
    x
}

/// Seed of one placement value: the slot index plus the batch counter times
/// the value's factor, modulo 2^32.
pub open spec fn spawn_seed(slot: u32, batch: u32, factor: u32) -> u32 {
    wrap32(slot + wrap32(batch * factor))
}

/// The three hashes (angle, radius, slab offset) that place a particle spawned
/// into `slot` while `batch` particles remain to be spawned.
pub open spec fn placement_hashes(slot: u32, batch: u32) -> (u32, u32, u32) {
    (
        spawn_hash(spawn_seed(slot, batch, ANGLE_SEED_FACTOR)),
        spawn_hash(spawn_seed(slot, batch, RADIUS_SEED_FACTOR)),
        spawn_hash(spawn_seed(slot, batch, SLAB_SEED_FACTOR)),
    )
}

pub fn spawn_hashes(slot: u32, batch: u32) -> (r: (u32, u32, u32))
    ensures
        r == placement_hashes(slot, batch),
{
    let s = hash_u32(slot.wrapping_add(batch.wrapping_mul(ANGLE_SEED_FACTOR)));
    let t = hash_u32(slot.wrapping_add(batch.wrapping_mul(RADIUS_SEED_FACTOR)));
    let u = hash_u32(slot.wrapping_add(batch.wrapping_mul(SLAB_SEED_FACTOR)));
    (s, t, u)
}

/// One particle to synthesize: the slot it goes into and how many particles,
/// itself included, were still to be spawned when it was reached.
#[derive(Debug, Clone, Copy, PartialEq, Eq, Structural)]
pub struct SpawnSlot {
    pub slot: usize,
    pub batch: usize,
}

/// Indices of the dead slots, in increasing order.
pub open spec fn dead_slots(alive: Seq<bool>) -> Seq<int>
    decreases alive.len(),
{
    if alive.len() == 0 {
        Seq::empty()
    } else {
        let before = dead_slots(alive.drop_last());
        if alive.last() {
            before
        } else {
            before.push(alive.len() - 1)
        }
    }
}

/// `plan` fills the first `count` dead slots in index order (all of them, if
/// there are fewer), handing the j-th one the batch counter `count - j`.
pub open spec fn is_spawn_plan(alive: Seq<bool>, count: nat, plan: Seq<SpawnSlot>) -> bool {
    let dead = dead_slots(alive);
    &&& plan.len() == if count < dead.len() {
        count
    } else {
        dead.len()
    }
    &&& forall|j: int|
        0 <= j < plan.len() ==> #[trigger] plan[j].slot == dead[j] && plan[j].batch == count - j
}

/// Chooses the slots that `count` new particles go into: dead slots, scanned
/// in index order; living slots are skipped, and demand beyond the dead slots
/// is dropped.
pub fn plan_spawns(alive: &Vec<bool>, count: usize) -> (r: Vec<SpawnSlot>)
    ensures
        is_spawn_plan(alive@, count as nat, r@),
{
    let mut plan: Vec<SpawnSlot> = Vec::new();
    let mut i: usize = 0;
    let mut remaining: usize = count;
    while i < alive.len() && remaining > 0
        invariant
            0 <= i <= alive.len(),
            plan.len() <= count,
            remaining == count - plan.len(),
            is_spawn_plan(alive@.take(i as int), count as nat, plan@),
        decreases alive.len() - i,
    {
        let ghost before = dead_slots(alive@.take(i as int));
        let ghost after = dead_slots(alive@.take(i + 1));
        let ghost plan_before = plan@;
        proof {
            assert(alive@.take(i + 1).drop_last() =~= alive@.take(i as int));
            assert(alive@.take(i + 1).last() == alive@[i as int]);
            assert(after == if alive@[i as int] {
                before
            } else {
                before.push(i as int)
            });
        }
        if remaining > 0 && !alive[i] {
            plan.push(SpawnSlot { slot: i, batch: remaining });
            remaining = remaining - 1;
        }
        proof {
            assert forall|j: int| 0 <= j < plan_before.len() implies after[j] == before[j] by {}
            assert forall|j: int| 0 <= j < plan@.len() implies plan@[j].slot == after[j]
                && plan@[j].batch == count - j by {
                if j < plan_before.len() {
                    assert(plan@[j] == plan_before[j]);
                    assert(plan_before[j].slot == before[j]);
                } else {
                    assert(before.len() == plan_before.len());
                    assert(after[j] == i);
                }
            }
        }
        i = i + 1;
    }
    proof {
        lemma_dead_slots_prefix(alive@, i as int);
        if i == alive.len() {
            assert(alive@.take(i as int) =~= alive@);
        } else {
            lemma_full_plan_extends(alive@, i as int, count as nat, plan@);
        }
    }
    plan
}

/// A plan that already holds `count` slots after scanning the first `i` slots
/// is the plan for all of them.
proof fn lemma_full_plan_extends(alive: Seq<bool>, i: int, count: nat, plan: Seq<SpawnSlot>)
    requires
        0 <= i <= alive.len(),
        plan.len() == count,
        is_spawn_plan(alive.take(i), count, plan),
    ensures
        is_spawn_plan(alive, count, plan),
{
    lemma_dead_slots_prefix(alive, i);
    let scanned = dead_slots(alive.take(i));
    let dead = dead_slots(alive);
    assert forall|j: int| 0 <= j < plan.len() implies #[trigger] plan[j].slot == dead[j]
        && plan[j].batch == count - j by {
        assert(plan[j].slot == scanned[j]);
        assert(scanned[j] == dead[j]);
    }
}

/// The dead slots among the first `i` slots begin the list of all dead slots.
proof fn lemma_dead_slots_prefix(alive: Seq<bool>, i: int)
    requires
        0 <= i <= alive.len(),
    ensures
        dead_slots(alive.take(i)).len() <= dead_slots(alive).len(),
        forall|j: int|
            0 <= j < dead_slots(alive.take(i)).len() ==> #[trigger] dead_slots(alive.take(i))[j]
                == dead_slots(alive)[j],
    decreases alive.len() - i,
{
    if i == alive.len() {
        assert(alive.take(i) =~= alive);
    } else {
        lemma_dead_slots_prefix(alive, i + 1);
        assert(alive.take(i + 1).drop_last() =~= alive.take(i));
        assert(alive.take(i + 1).last() == alive[i]);
        let shorter = dead_slots(alive.take(i));
        let longer = dead_slots(alive.take(i + 1));
        assert(longer == if alive[i] {
            shorter
        } else {
            shorter.push(i)
        });
        assert forall|j: int| 0 <= j < shorter.len() implies #[trigger] shorter[j] == dead_slots(
            alive,
        )[j] by {
            assert(shorter[j] == longer[j]);
        }
    }
}

/// A spawn plan is determined by the slots' liveness and the count alone: two
/// plans for the same inputs are equal.
pub proof fn lemma_spawn_plan_unique(
    alive: Seq<bool>,
    count: nat,
    a: Seq<SpawnSlot>,
    b: Seq<SpawnSlot>,
)
    requires
        is_spawn_plan(alive, count, a),
        is_spawn_plan(alive, count, b),
    ensures
        a == b,
{
    assert forall|j: int| 0 <= j < a.len() implies a[j] == b[j] by {
        assert(a[j].slot == dead_slots(alive)[j] && b[j].slot == dead_slots(alive)[j]);
    }
    assert(a =~= b);
}

/// A spawn plan never fills more slots than were asked for, nor more than
/// were dead, and only fills dead slots, each at most once.
pub proof fn lemma_spawn_plan_bounded(alive: Seq<bool>, count: nat, plan: Seq<SpawnSlot>)
    requires
        is_spawn_plan(alive, count, plan),
    ensures
        plan.len() <= count,
        plan.len() <= alive.len(),
        forall|j: int| 0 <= j < plan.len() ==> plan[j].slot < alive.len() && !alive[plan[j].slot as int],
        forall|j: int, k: int| 0 <= j < k < plan.len() ==> plan[j].slot < plan[k].slot,
{
    let dead = dead_slots(alive);
    lemma_dead_slots_bounded(alive);
    assert forall|j: int| 0 <= j < plan.len() implies plan[j].slot < alive.len()
        && !alive[plan[j].slot as int] by {
        assert(plan[j].slot == dead[j]);
    }
    assert forall|j: int, k: int| 0 <= j < k < plan.len() implies plan[j].slot < plan[k].slot by {
        assert(plan[j].slot == dead[j] && plan[k].slot == dead[k]);
    }
}

/// Number of living slots.
pub open spec fn alive_total(alive: Seq<bool>) -> nat
    decreases alive.len(),
{
    if alive.len() == 0 {
        0
    } else {
        alive_total(alive.drop_last()) + if alive.last() {
            1nat
        } else {
            0nat
        }
    }
}

/// Liveness of the slots once every slot of `plan` holds a new particle.
pub open spec fn after_spawn(alive: Seq<bool>, plan: Seq<SpawnSlot>) -> Seq<bool> {
    Seq::new(
        alive.len(),
        |i: int| alive[i] || exists|j: int| 0 <= j < plan.len() && #[trigger] plan[j].slot == i,
    )
}

/// Carrying out a spawn plan raises the number of living slots by exactly the
/// plan's length, and so by no more than the count that was asked for.
pub proof fn lemma_spawn_raises_alive_total(alive: Seq<bool>, count: nat, plan: Seq<SpawnSlot>)
    requires
        is_spawn_plan(alive, count, plan),
    ensures
        alive_total(after_spawn(alive, plan)) == alive_total(alive) + plan.len(),
        alive_total(after_spawn(alive, plan)) <= alive_total(alive) + count,
    decreases alive.len(),
{
    if alive.len() == 0 {
        assert(after_spawn(alive, plan) =~= Seq::<bool>::empty());
    } else {
        let n = alive.len() - 1;
        let rest = alive.drop_last();
        let dead = dead_slots(alive);
        let dead_rest = dead_slots(rest);
        lemma_dead_slots_bounded(alive);
        lemma_dead_slots_bounded(rest);
        let takes_last = plan.len() > 0 && plan.last().slot == n;
        let plan_rest = if takes_last {
            plan.drop_last()
        } else {
            plan
        };
        assert(is_spawn_plan(rest, count, plan_rest)) by {
            if alive.last() {
                assert(dead == dead_rest);
            } else {
                assert(dead == dead_rest.push(n));
                if count > dead_rest.len() {
                    assert(plan.last().slot == dead[dead_rest.len() as int]);
                } else if plan.len() > 0 {
                    assert(plan.last().slot == dead[plan.len() - 1]);
                }
            }
            assert forall|j: int| 0 <= j < plan_rest.len() implies plan_rest[j].slot
                == dead_rest[j] && plan_rest[j].batch == count - j by {
                assert(plan_rest[j] == plan[j]);
                assert(plan[j].slot == dead[j]);
            }
        }
        lemma_spawn_raises_alive_total(rest, count, plan_rest);
        let after = after_spawn(alive, plan);
        assert(after.drop_last() =~= after_spawn(rest, plan_rest)) by {
            assert forall|i: int| 0 <= i < n implies after[i] == after_spawn(rest, plan_rest)[i] by {
                if exists|j: int| 0 <= j < plan.len() && #[trigger] plan[j].slot == i {
                    let j = choose|j: int| 0 <= j < plan.len() && #[trigger] plan[j].slot == i;
                    assert(plan_rest[j].slot == i);
                }
                if exists|j: int| 0 <= j < plan_rest.len() && #[trigger] plan_rest[j].slot == i {
                    let j = choose|j: int| 0 <= j < plan_rest.len() && #[trigger] plan_rest[j].slot == i;
                    assert(plan[j].slot == i);
                }
            }
        }
        assert(after.last() == (alive.last() || takes_last)) by {
            if exists|j: int| 0 <= j < plan.len() && #[trigger] plan[j].slot == n {
                let j = choose|j: int| 0 <= j < plan.len() && #[trigger] plan[j].slot == n;
                assert(plan[j].slot == dead[j]);
                if j < plan.len() - 1 {
                    assert(plan.last().slot == dead[plan.len() - 1]);
                }
            }
            if takes_last {
                assert(plan[plan.len() - 1].slot == n);
            }
        }
        if takes_last {
            assert(!alive.last()) by {
                assert(plan.last().slot == dead[plan.len() - 1]);
            }
        }
    }
}

proof fn lemma_dead_slots_bounded(alive: Seq<bool>)
    ensures
        dead_slots(alive).len() <= alive.len(),
        forall|j: int|
            0 <= j < dead_slots(alive).len() ==> 0 <= #[trigger] dead_slots(alive)[j] < alive.len()
                && !alive[dead_slots(alive)[j]],
        forall|j: int, k: int|
            0 <= j < k < dead_slots(alive).len() ==> #[trigger] dead_slots(alive)[j]
                < #[trigger] dead_slots(alive)[k],
    decreases alive.len(),
{
    if alive.len() > 0 {
        lemma_dead_slots_bounded(alive.drop_last());
    }
}

} // verus!
