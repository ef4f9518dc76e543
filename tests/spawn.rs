use rust_webgpu_visual_engine::spawn::{hash_u32, plan_spawns, spawn_hashes, SpawnSlot};

#[test]
fn hash_matches_known_values() {
    assert_eq!(hash_u32(0), 656_358_757);
    assert_eq!(hash_u32(1), 3_152_752_489);
    assert_eq!(hash_u32(12_345), 2_578_197_853);
}

#[test]
fn spawn_hashes_use_three_seeds() {
    assert_eq!(spawn_hashes(0, 2), (3_869_688_476, 1_345_401_354, 3_335_392_758));
    assert_eq!(spawn_hashes(1, 1), (1_464_444_451, 3_854_832_052, 2_504_305_078));
}

#[test]
fn spawn_seeds_wrap() {
    assert_eq!(spawn_hashes(5, 1 << 31), (2_514_295_721, 2_514_295_721, 2_514_295_721));
}

#[test]
fn spawn_placement_is_deterministic() {
    let alive = vec![true, false, true, false, false, false];
    assert_eq!(plan_spawns(&alive, 3), plan_spawns(&alive, 3));
    assert_eq!(spawn_hashes(3, 2), spawn_hashes(3, 2));
}

#[test]
fn first_step_spawns_at_most_the_floor() {
    let rate: f32 = 120.0;
    let dt: f32 = 1.0 / 60.0;
    let count = (rate * dt).floor() as usize;
    assert_eq!(count, 2);
    let alive = vec![false; 256];
    let plan = plan_spawns(&alive, count);
    assert!(!plan.is_empty() && plan.len() <= 2);
    assert_eq!(
        plan,
        vec![SpawnSlot { slot: 0, batch: 2 }, SpawnSlot { slot: 1, batch: 1 }]
    );
}

#[test]
fn spawn_skips_living_slots() {
    let alive = vec![true, false, true, false, false];
    let plan = plan_spawns(&alive, 2);
    assert_eq!(
        plan,
        vec![SpawnSlot { slot: 1, batch: 2 }, SpawnSlot { slot: 3, batch: 1 }]
    );
}

#[test]
fn spawn_drops_demand_beyond_dead_slots() {
    let alive = vec![true, false, true];
    assert_eq!(plan_spawns(&alive, 5), vec![SpawnSlot { slot: 1, batch: 5 }]);
    assert!(plan_spawns(&vec![true; 4], 3).is_empty());
}

#[test]
fn spawn_of_zero_or_into_nothing() {
    assert!(plan_spawns(&vec![false; 4], 0).is_empty());
    assert!(plan_spawns(&Vec::new(), 3).is_empty());
}

#[test]
fn spawn_raises_alive_count_by_plan_length() {
    let mut alive = vec![true, false, false, true, false, false, true];
    let before = alive.iter().filter(|a| **a).count();
    let plan = plan_spawns(&alive, 3);
    for target in &plan {
        assert!(!alive[target.slot]);
        alive[target.slot] = true;
    }
    let after = alive.iter().filter(|a| **a).count();
    assert_eq!(after, before + 3);
    assert_eq!(plan.len(), 3);
}
