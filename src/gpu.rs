use vstd::prelude::*;

use crate::compute::{
    block_bytes, groups_needed, particle_field_floats, ParticleBufferLayout, ParticleComputePlan,
    ParticleWorkgroup, KERNEL_WORKGROUP_SIZE,
};

verus! {

/// Failures of the device execution path.
#[derive(Debug, Clone, Copy, PartialEq, Eq, Structural)]
pub enum ParticleGpuError {
    /// The requested workgroup size differs from the kernel's compiled one.
    InvalidWorkgroupSize { expected: u32, got: u32 },
    /// The device refused to map the staging buffer for reading.
    MapFailed,
    /// The completion channel closed before the mapping finished.
    ChannelClosed,
}

/// Validates the requested workgroup against the kernel and plans the dispatch
/// for a buffer of `max_particles` records.
pub fn plan_gpu_dispatch(max_particles: u32, workgroup: ParticleWorkgroup) -> (r: Result<
    ParticleComputePlan,
    ParticleGpuError,
>)
    ensures
        workgroup.x == KERNEL_WORKGROUP_SIZE <==> r is Ok,
        r matches Ok(plan) ==> plan.particle_count == max_particles && plan.workgroup == workgroup
            && plan.dispatch_x == groups_needed(max_particles as nat, workgroup.x as nat),
        r matches Err(e) ==> e == (ParticleGpuError::InvalidWorkgroupSize {
            expected: KERNEL_WORKGROUP_SIZE,
            got: workgroup.x,
        }),
{
    if workgroup.x != KERNEL_WORKGROUP_SIZE {
        return Err(ParticleGpuError::InvalidWorkgroupSize {
            expected: KERNEL_WORKGROUP_SIZE,
            got: workgroup.x,
        });
    }
    Ok(ParticleComputePlan::new(max_particles, workgroup))
}

/// Bytes of the device particle buffer for `max_particles` records.
pub fn particle_buffer_bytes(max_particles: u32) -> (r: u64)
    ensures
        r == max_particles * block_bytes(particle_field_floats()),
{
    let layout = ParticleBufferLayout::default();
    proof {
        crate::compute::lemma_block_sizes();
    }
    layout.particle_stride_bytes * (max_particles as u64)
}

/// Number of records a diagnostic readback copies: the requested count, but
/// no more than the buffer holds.
pub fn readback_sample_count(requested: u32, particle_count: u32) -> (r: u32)
    ensures
        r == if requested < particle_count {
            requested
        } else {
            particle_count
        },
{
    if requested < particle_count {
        requested
    } else {
        particle_count
    }
}

/// Outcome of a diagnostic readback from what the completion channel delivered:
/// `None` when it closed without a message, otherwise whether the device mapped
/// the staging buffer.
pub fn readback_outcome(delivered: Option<bool>) -> (r: Result<(), ParticleGpuError>)
    ensures
        delivered is None ==> r == Err::<(), ParticleGpuError>(ParticleGpuError::ChannelClosed),
        delivered == Some(false) ==> r == Err::<(), ParticleGpuError>(ParticleGpuError::MapFailed),
        delivered == Some(true) ==> r is Ok,
{
    match delivered {
        None => Err(ParticleGpuError::ChannelClosed),
        Some(false) => Err(ParticleGpuError::MapFailed),
        Some(true) => Ok(()),
    }
}

} // verus!
