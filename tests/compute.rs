use rust_webgpu_visual_engine::compute::{
    ParticleBufferLayout, ParticleComputePlan, ParticleWorkgroup, KERNEL_WORKGROUP_SIZE,
};

#[test]
fn compute_plan_rounds_up_dispatch() {
    let plan = ParticleComputePlan::new(1_001, ParticleWorkgroup::default());
    assert_eq!(plan.dispatch_x, 4);
}

#[test]
fn sim_uniform_size_is_64_bytes() {
    assert_eq!(ParticleBufferLayout::default().sim_uniform_bytes, 64);
}

#[test]
fn particle_stride_is_32_bytes() {
    assert_eq!(ParticleBufferLayout::default().particle_stride_bytes, 32);
}

#[test]
fn default_workgroup_matches_kernel() {
    let w = ParticleWorkgroup::default();
    assert_eq!((w.x, w.y, w.z), (KERNEL_WORKGROUP_SIZE, 1, 1));
    assert_eq!(KERNEL_WORKGROUP_SIZE, 256);
}

#[test]
fn zero_particles_dispatch_nothing() {
    let plan = ParticleComputePlan::new(0, ParticleWorkgroup::default());
    assert_eq!(plan.dispatch_x, 0);
    assert!(!plan.dispatches_work());
}

#[test]
fn dispatch_at_group_boundaries() {
    let w = ParticleWorkgroup::default();
    assert_eq!(ParticleComputePlan::new(1, w).dispatch_x, 1);
    assert_eq!(ParticleComputePlan::new(256, w).dispatch_x, 1);
    assert_eq!(ParticleComputePlan::new(257, w).dispatch_x, 2);
    assert!(ParticleComputePlan::new(257, w).dispatches_work());
    assert_eq!(ParticleComputePlan::new(100_000, w).dispatch_x, 391);
}

#[test]
fn dispatch_at_largest_count() {
    let one = ParticleWorkgroup { x: 1, y: 1, z: 1 };
    assert_eq!(ParticleComputePlan::new(u32::MAX, one).dispatch_x, u32::MAX);
    let plan = ParticleComputePlan::new(u32::MAX, ParticleWorkgroup::default());
    assert_eq!(plan.dispatch_x, 16_777_216);
    assert_eq!(plan.particle_count, u32::MAX);
}
