//! Population synthesis: the fixed mixture of normal size distributions a
//! droplet population is drawn from, and the sampling plan that says how
//! many draws each mixture component contributes.
//!
//! Drawing from a normal distribution is the one nondeterministic,
//! floating-point step of the pipeline and happens outside this library;
//! the raw draws come back in as plain integer `Sample` values, already in
//! the fixed-point units used everywhere else.

use vstd::prelude::*;

verus! {

/// One component of the size mixture: a normal distribution over radii
/// (mean and standard deviation in hundredths of a micrometer) and the
/// number of droplets it contributes per unit of the population scale.
/// A zero standard deviation is a degenerate, deterministic component.
#[derive(Clone, Copy, PartialEq, Eq, Structural, Debug)]
pub struct MixtureEntry {
    pub mean_centi: u64,
    pub sd_centi: u64,
    pub weight: u64,
}

/// The raw material for one droplet: a radius draw in hundredths of a
/// micrometer (possibly negative or implausibly small before clamping)
/// and one independent velocity draw per axis, in micrometers per second.
#[derive(Clone, Copy, PartialEq, Eq, Structural, Debug)]
pub struct Sample {
    pub size_centi: i64,
    pub vx: i64,
    pub vy: i64,
}

/// Mean of the shared initial-velocity distribution, micrometers/second.
pub const VEL_MEAN_MICRO: u64 = 11_700_000;

/// Standard deviation of the initial-velocity distribution, um/s.
pub const VEL_SD_MICRO: u64 = 2_000_000;

/// The empirical raindrop size spectrum: sixteen normal components from a
/// 3 um mean up to a deterministic 1500 um component of weight zero.
pub open spec fn mixture_spec() -> Seq<MixtureEntry> {
    seq![
        MixtureEntry { mean_centi: 300, sd_centi: 162, weight: 2 },
        MixtureEntry { mean_centi: 600, sd_centi: 894, weight: 27 },
        MixtureEntry { mean_centi: 1200, sd_centi: 467, weight: 9 },
        MixtureEntry { mean_centi: 2000, sd_centi: 407, weight: 5 },
        MixtureEntry { mean_centi: 2800, sd_centi: 236, weight: 3 },
        MixtureEntry { mean_centi: 3600, sd_centi: 103, weight: 2 },
        MixtureEntry { mean_centi: 4500, sd_centi: 90, weight: 2 },
        MixtureEntry { mean_centi: 6250, sd_centi: 98, weight: 2 },
        MixtureEntry { mean_centi: 8750, sd_centi: 65, weight: 1 },
        MixtureEntry { mean_centi: 11250, sd_centi: 101, weight: 2 },
        MixtureEntry { mean_centi: 13750, sd_centi: 103, weight: 2 },
        MixtureEntry { mean_centi: 17500, sd_centi: 101, weight: 2 },
        MixtureEntry { mean_centi: 22500, sd_centi: 182, weight: 2 },
        MixtureEntry { mean_centi: 37500, sd_centi: 50, weight: 1 },
        MixtureEntry { mean_centi: 75000, sd_centi: 82, weight: 1 },
        MixtureEntry { mean_centi: 150000, sd_centi: 0, weight: 0 },
    ]
}

/// The sum of the weights of the first `n` mixture components.
pub open spec fn sum_weights_upto(s: Seq<MixtureEntry>, n: int) -> int
    decreases n,
{
    if n <= 0 {
        0
    } else {
        sum_weights_upto(s, n - 1) + s[n - 1].weight
    }
}

/// The number of droplets one unit of the population scale contributes:
/// the sum of all mixture weights.
pub open spec fn total_weight() -> int {
    sum_weights_upto(mixture_spec(), mixture_spec().len() as int)
}

/// The population created at scale `n`: every mixture component
/// contributes its weight times `n` droplets.
pub open spec fn total_count(n: int) -> int {
    total_weight() * n
}

/// The mixture weights sum to 63: a population at scale `n` holds exactly
/// `63 * n` droplets.
pub proof fn lemma_total_weight()
    ensures
        total_weight() == 63,
{
    reveal_with_fuel(sum_weights_upto, 17);
}

/// One component of a sampling plan at a concrete population scale: draw
/// `count` radii from the normal distribution with this mean and standard
/// deviation.
#[derive(Clone, Copy, PartialEq, Eq, Structural, Debug)]
pub struct PlanEntry {
    pub mean_centi: u64,
    pub sd_centi: u64,
    pub count: u64,
}

/// The sampling plan for a population at scale `n`: the mixture table
/// with every component's weight multiplied out into a draw count.
pub fn plan(n: u32) -> (p: Vec<PlanEntry>)
    ensures
        p@.len() == mixture_spec().len(),
        forall|i: int|
            0 <= i < p@.len() ==> {
                &&& (#[trigger] p@[i]).mean_centi == mixture_spec()[i].mean_centi
                &&& p@[i].sd_centi == mixture_spec()[i].sd_centi
                &&& p@[i].count == mixture_spec()[i].weight * n
            },
{
    let m: u64 = n as u64;
    let mut p: Vec<PlanEntry> = Vec::new();
    p.push(PlanEntry { mean_centi: 300, sd_centi: 162, count: 2 * m });
    p.push(PlanEntry { mean_centi: 600, sd_centi: 894, count: 27 * m });
    p.push(PlanEntry { mean_centi: 1200, sd_centi: 467, count: 9 * m });
    p.push(PlanEntry { mean_centi: 2000, sd_centi: 407, count: 5 * m });
    p.push(PlanEntry { mean_centi: 2800, sd_centi: 236, count: 3 * m });
    p.push(PlanEntry { mean_centi: 3600, sd_centi: 103, count: 2 * m });
    p.push(PlanEntry { mean_centi: 4500, sd_centi: 90, count: 2 * m });
    p.push(PlanEntry { mean_centi: 6250, sd_centi: 98, count: 2 * m });
    p.push(PlanEntry { mean_centi: 8750, sd_centi: 65, count: 1 * m });
    p.push(PlanEntry { mean_centi: 11250, sd_centi: 101, count: 2 * m });
    p.push(PlanEntry { mean_centi: 13750, sd_centi: 103, count: 2 * m });
    p.push(PlanEntry { mean_centi: 17500, sd_centi: 101, count: 2 * m });
    p.push(PlanEntry { mean_centi: 22500, sd_centi: 182, count: 2 * m });
    p.push(PlanEntry { mean_centi: 37500, sd_centi: 50, count: 1 * m });
    p.push(PlanEntry { mean_centi: 75000, sd_centi: 82, count: 1 * m });
    p.push(PlanEntry { mean_centi: 150000, sd_centi: 0, count: 0 * m });
    p
}

} // verus!
