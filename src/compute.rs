use vstd::prelude::*;

verus! {

/// Workgroup size that the particle update kernel is compiled with.
pub const KERNEL_WORKGROUP_SIZE: u32 = 256;

/// Location of the particle update kernel's source, relative to the package.
pub const PARTICLE_UPDATE_SHADER_PATH: &'static str = "shaders/particles_update.wgsl";

/// Bytes of one 32-bit float on host and device.
pub const FLOAT_BYTES: u64 = 4;

/// Execution granularity of one compute dispatch group.
#[derive(Debug, Clone, Copy, PartialEq, Eq, Structural)]
pub struct ParticleWorkgroup {
    pub x: u32,
    pub y: u32,
    pub z: u32,
}

impl Default for ParticleWorkgroup {
    fn default() -> (r: Self)
        ensures
            r.x == KERNEL_WORKGROUP_SIZE,
            r.y == 1,
            r.z == 1,
    {
        ParticleWorkgroup { x: KERNEL_WORKGROUP_SIZE, y: 1, z: 1 }
    }
}

/// Number of groups of `size` items that cover `count` items: the least `g`
/// with `g * size >= count`.
pub open spec fn groups_needed(count: nat, size: nat) -> nat
    recommends
        size > 0,
{
    if count == 0 {
        0
    } else {
        ((count - 1) as nat / size + 1) as nat
    }
}

/// How one simulation step is dispatched over the particle buffer.
#[derive(Debug, Clone, Copy, PartialEq, Eq, Structural)]
pub struct ParticleComputePlan {
    pub particle_count: u32,
    pub workgroup: ParticleWorkgroup,
    pub dispatch_x: u32,
}

impl ParticleComputePlan {
    pub fn new(particle_count: u32, workgroup: ParticleWorkgroup) -> (r: Self)
        requires
            particle_count > 0 ==> workgroup.x > 0,
        ensures
            r.particle_count == particle_count,
            r.workgroup == workgroup,
            r.dispatch_x == groups_needed(particle_count as nat, workgroup.x as nat),
    {
        let dispatch_x: u32 = if particle_count == 0 {
            0
        } else {
            ((particle_count - 1) / workgroup.x) + 1
        };
        ParticleComputePlan { particle_count, workgroup, dispatch_x }
    }

    /// Whether a step under this plan dispatches any work at all.
    pub fn dispatches_work(&self) -> (r: bool)
        ensures
            r == (self.dispatch_x > 0),
    {
        self.dispatch_x > 0
    }
}

/// The dispatch group count is the ceiling of `count / size`: enough groups to
/// cover every particle, and no group that covers none; no particles means no
/// groups.
pub proof fn lemma_groups_needed_is_ceiling(count: nat, size: nat)
    requires
        size > 0,
    ensures
        groups_needed(count, size) * size >= count,
        count > 0 ==> (groups_needed(count, size) - 1) * size < count,
        count == 0 <==> groups_needed(count, size) == 0,
{
    if count > 0 {
        let q = ((count - 1) as nat / size) as int;
        let r = ((count - 1) as nat % size) as int;
        assert(count - 1 == q * size + r) by (nonlinear_arith)
            requires
                size > 0,
                q == (count - 1) / (size as int),
                r == (count - 1) % (size as int),
        ;
        assert((q + 1) * size == q * size + size) by (nonlinear_arith);
    }
}

/// Field widths, in floats, of one particle record: position (3), age (1),
/// velocity (3), lifetime (1).
pub open spec fn particle_field_floats() -> Seq<nat> {
    seq![3, 1, 3, 1]
}

/// Field widths, in floats, of the per-step uniform block: dt, drag,
/// spawn rate, lifetime, gravity (3), padding (1), attractor (3), attractor
/// strength, noise strength, trailing padding (3).
pub open spec fn sim_uniform_field_floats() -> Seq<nat> {
    seq![1, 1, 1, 1, 3, 1, 3, 1, 1, 3]
}

/// Sum of a sequence of widths.
pub open spec fn total_width(s: Seq<nat>) -> nat
    decreases s.len(),
{
    if s.len() == 0 {
        0
    } else {
        total_width(s.drop_last()) + s.last()
    }
}

/// Byte offset of field `i` in a block of 32-bit floats with the given widths.
pub open spec fn field_offset_bytes(fields: Seq<nat>, i: int) -> nat {
    (FLOAT_BYTES * total_width(fields.take(i))) as nat
}

/// Byte size of a block of 32-bit floats with the given widths.
pub open spec fn block_bytes(fields: Seq<nat>) -> nat {
    (FLOAT_BYTES * total_width(fields)) as nat
}

/// Byte sizes of the buffers that host and device share.
#[derive(Debug, Clone, Copy, PartialEq, Eq, Structural)]
pub struct ParticleBufferLayout {
    pub particle_stride_bytes: u64,
    pub sim_uniform_bytes: u64,
}

impl Default for ParticleBufferLayout {
    fn default() -> (r: Self)
        ensures
            r.particle_stride_bytes == block_bytes(particle_field_floats()),
            r.sim_uniform_bytes == block_bytes(sim_uniform_field_floats()),
    {
        proof {
            lemma_block_sizes();
        }
        ParticleBufferLayout { particle_stride_bytes: 32, sim_uniform_bytes: 64 }
    }
}

/// The particle record is 32 bytes and the uniform block 64 bytes, with its
/// two vector fields starting on 16-byte boundaries.
pub proof fn lemma_block_sizes()
    ensures
        block_bytes(particle_field_floats()) == 32,
        block_bytes(sim_uniform_field_floats()) == 64,
        field_offset_bytes(sim_uniform_field_floats(), 4) == 16,
        field_offset_bytes(sim_uniform_field_floats(), 6) == 32,
        block_bytes(sim_uniform_field_floats()) % 16 == 0,
{
    let p = particle_field_floats();
    assert(p.drop_last() =~= seq![3nat, 1, 3]);
    assert(p.drop_last().drop_last() =~= seq![3nat, 1]);
    assert(p.drop_last().drop_last().drop_last() =~= seq![3nat]);
    assert(p.drop_last().drop_last().drop_last().drop_last() =~= Seq::<nat>::empty());
    reveal_with_fuel(total_width, 5);
    assert(total_width(p) == 8);
    let u = sim_uniform_field_floats();
    let u4 = u.take(4);
    let u6 = u.take(6);
    assert(u4 =~= seq![1nat, 1, 1, 1]);
    assert(u4.drop_last() =~= seq![1nat, 1, 1]);
    assert(u4.drop_last().drop_last() =~= seq![1nat, 1]);
    assert(u4.drop_last().drop_last().drop_last() =~= seq![1nat]);
    assert(u4.drop_last().drop_last().drop_last().drop_last() =~= Seq::<nat>::empty());
    assert(total_width(u4) == 4);
    assert(u6.drop_last() =~= seq![1nat, 1, 1, 1, 3]);
    assert(u6.drop_last().drop_last() =~= u4);
    reveal_with_fuel(total_width, 3);
    assert(total_width(u6) == 8);
    assert(u.take(9).drop_last() =~= seq![1nat, 1, 1, 1, 3, 1, 3, 1]);
    assert(u.take(9).drop_last().drop_last() =~= seq![1nat, 1, 1, 1, 3, 1, 3]);
    assert(u.take(9).drop_last().drop_last().drop_last() =~= u6);
    assert(u.drop_last() =~= u.take(9));
    reveal_with_fuel(total_width, 5);
    assert(total_width(u) == 16);
}

} // verus!
