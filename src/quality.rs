use vstd::prelude::*;

verus! {

/// Hardware class that a run targets.
#[derive(Debug, Clone, Copy, PartialEq, Eq, Structural)]
pub enum QualityTier {
    MobileLow,
    DesktopHigh,
    DesktopUltra,
}

/// Resource budget that goes with a quality tier.
#[derive(Debug, Clone, Copy, PartialEq, Eq, Structural)]
pub struct BudgetProfile {
    pub max_particles: u32,
    pub splat_resolution_divisor: u32,
    pub postprocess_passes: u32,
}

/// The budget of each tier.
pub open spec fn budget_of(tier: QualityTier) -> BudgetProfile {
    match tier {
        QualityTier::MobileLow => BudgetProfile {
            max_particles: 50_000,
            splat_resolution_divisor: 2,
            postprocess_passes: 1,
        },
        QualityTier::DesktopHigh => BudgetProfile {
            max_particles: 200_000,
            splat_resolution_divisor: 1,
            postprocess_passes: 2,
        },
        QualityTier::DesktopUltra => BudgetProfile {
            max_particles: 500_000,
            splat_resolution_divisor: 1,
            postprocess_passes: 4,
        },
    }
}

impl QualityTier {
    pub fn budget(self) -> (r: BudgetProfile)
        ensures
            r == budget_of(self),
    {
        match self {
            QualityTier::MobileLow => BudgetProfile {
                max_particles: 50_000,
                splat_resolution_divisor: 2,
                postprocess_passes: 1,
            },
            QualityTier::DesktopHigh => BudgetProfile {
                max_particles: 200_000,
                splat_resolution_divisor: 1,
                postprocess_passes: 2,
            },
            QualityTier::DesktopUltra => BudgetProfile {
                max_particles: 500_000,
                splat_resolution_divisor: 1,
                postprocess_passes: 4,
            },
        }
    }
}

} // verus!
