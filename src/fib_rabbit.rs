//! Rabbit pairs that never die, where each adult pair bears a litter a month.
use vstd::prelude::*;

verus! {

/// The population after `months_left` months, starting from `juvenile` young
/// pairs and `mature` adult pairs, when each adult pair bears `litter` pairs a
/// month: `F(n) = F(n - 1) + litter * F(n - 2)`.
pub open spec fn population(months_left: int, juvenile: int, mature: int, litter: int) -> int
    decreases months_left,
{
    if months_left <= 1 {
        juvenile + mature
    } else {
        population(months_left - 1, mature * litter, juvenile + mature, litter)
    }
}

/// Every number met while the population is computed fits in a `u64`.
pub open spec fn population_fits(months_left: int, juvenile: int, mature: int, litter: int) -> bool
    decreases months_left,
{
    if months_left <= 1 {
        juvenile + mature <= u64::MAX
    } else {
        mature * litter <= u64::MAX && juvenile + mature <= u64::MAX
            && population_fits(months_left - 1, mature * litter, juvenile + mature, litter)
    }
}

/// Steps the recurrence one month at a time.
pub fn simulate_iter(
    months_left: u64,
    juvenile_pop: u64,
    mature_pop: u64,
    rabbit_pairs_per_litter_per_month: u64,
) -> (r: u64)
    requires
        population_fits(
            months_left as int,
            juvenile_pop as int,
            mature_pop as int,
            rabbit_pairs_per_litter_per_month as int,
        ),
    ensures
        r == population(
            months_left as int,
            juvenile_pop as int,
            mature_pop as int,
            rabbit_pairs_per_litter_per_month as int,
        ),
    decreases months_left,
{
    if months_left <= 1 {
        juvenile_pop + mature_pop
    } else {
        let baby_rabbits = mature_pop * rabbit_pairs_per_litter_per_month;
        let next_adult_pop = juvenile_pop + mature_pop;
        simulate_iter(months_left - 1, baby_rabbits, next_adult_pop, rabbit_pairs_per_litter_per_month)
    }
}

/// The number of rabbit pairs after `n_months`, starting from one young pair.
pub fn simulate(n_months: u64, k_rabbit_pairs_per_litter: u64) -> (r: u64)
    requires
        population_fits(n_months as int, 1, 0, k_rabbit_pairs_per_litter as int),
    ensures
        r == population(n_months as int, 1, 0, k_rabbit_pairs_per_litter as int),
{
    simulate_iter(n_months, 1, 0, k_rabbit_pairs_per_litter)
}

/// Steps the recurrence like `simulate_iter`, and gives `None` where a number
/// on the way does not fit in a `u64`.
pub fn simulate_iter_checked(
    months_left: u64,
    juvenile_pop: u64,
    mature_pop: u64,
    rabbit_pairs_per_litter_per_month: u64,
) -> (r: Option<u64>)
    ensures
        r is Some <==> population_fits(
            months_left as int,
            juvenile_pop as int,
            mature_pop as int,
            rabbit_pairs_per_litter_per_month as int,
        ),
        r matches Some(x) ==> x == population(
            months_left as int,
            juvenile_pop as int,
            mature_pop as int,
            rabbit_pairs_per_litter_per_month as int,
        ),
    decreases months_left,
{
    let next_adult_pop = juvenile_pop.checked_add(mature_pop);
    if months_left <= 1 {
        return next_adult_pop;
    }
    match (mature_pop.checked_mul(rabbit_pairs_per_litter_per_month), next_adult_pop) {
        (Some(baby_rabbits), Some(adults)) => simulate_iter_checked(
            months_left - 1,
            baby_rabbits,
            adults,
            rabbit_pairs_per_litter_per_month,
        ),
        _ => None,
    }
}

/// The number of rabbit pairs after `n_months` like `simulate`, or `None`
/// where the count does not fit in a `u64` on the way.
pub fn simulate_checked(n_months: u64, k_rabbit_pairs_per_litter: u64) -> (r: Option<u64>)
    ensures
        r is Some <==> population_fits(n_months as int, 1, 0, k_rabbit_pairs_per_litter as int),
        r matches Some(x) ==> x == population(n_months as int, 1, 0, k_rabbit_pairs_per_litter as int),
{
    simulate_iter_checked(n_months, 1, 0, k_rabbit_pairs_per_litter)
}

} // verus!
