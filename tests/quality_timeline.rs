use rust_webgpu_visual_engine::quality::QualityTier;
use rust_webgpu_visual_engine::timeline::{next_pass_index, PassId};

#[test]
fn budgets_per_tier() {
    let low = QualityTier::MobileLow.budget();
    assert_eq!(
        (low.max_particles, low.splat_resolution_divisor, low.postprocess_passes),
        (50_000, 2, 1)
    );
    let high = QualityTier::DesktopHigh.budget();
    assert_eq!(
        (high.max_particles, high.splat_resolution_divisor, high.postprocess_passes),
        (200_000, 1, 2)
    );
    let ultra = QualityTier::DesktopUltra.budget();
    assert_eq!(
        (ultra.max_particles, ultra.splat_resolution_divisor, ultra.postprocess_passes),
        (500_000, 1, 4)
    );
}

#[test]
fn next_pass_wraps_to_first() {
    assert_eq!(next_pass_index(0, 4), 1);
    assert_eq!(next_pass_index(2, 4), 3);
    assert_eq!(next_pass_index(3, 4), 0);
    assert_eq!(next_pass_index(0, 1), 0);
}

#[test]
fn pass_ids_compare() {
    assert_eq!(PassId::MtsdfPass01, PassId::MtsdfPass01);
    assert_ne!(PassId::MtsdfPass03, PassId::Recovery);
}
