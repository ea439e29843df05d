//! Rabbit pairs that live a fixed number of months, each adult pair bearing
//! one pair a month.
use vstd::prelude::*;
use std::collections::VecDeque;

verus! {

/// The sum of a population vector.
pub open spec fn total(p: Seq<u64>) -> int
    decreases p.len(),
{
    if p.len() == 0 {
        0
    } else {
        total(p.drop_last()) + p.last()
    }
}

proof fn lemma_total_prefix(p: Seq<u64>, i: int)
    requires
        0 <= i <= p.len(),
    ensures
        0 <= total(p.subrange(0, i)) <= total(p),
    decreases p.len() - i,
{
    if i < p.len() {
        lemma_total_prefix(p, i + 1);
        assert(p.subrange(0, i + 1).drop_last() =~= p.subrange(0, i));
        lemma_total_nonneg(p.subrange(0, i));
    } else {
        assert(p.subrange(0, i) =~= p);
        lemma_total_nonneg(p);
    }
}

proof fn lemma_total_nonneg(p: Seq<u64>)
    ensures
        total(p) >= 0,
    decreases p.len(),
{
    if p.len() > 0 {
        lemma_total_nonneg(p.drop_last());
    }
}

/// One month: every pair ages by a month, the oldest generation dies, and each
/// adult pair (all but the youngest generation) bears one new pair.
pub open spec fn next_month(p: Seq<u64>) -> Seq<u64> {
    seq![(total(p) - p[0]) as u64] + p.drop_last()
}

/// The population vector after `months_left - 1` more months.
pub open spec fn population_after(months_left: int, p: Seq<u64>) -> Seq<u64>
    decreases months_left,
{
    if months_left <= 1 {
        p
    } else {
        population_after(months_left - 1, next_month(p))
    }
}

/// The number of pairs alive after `months_left - 1` more months.
pub open spec fn mortal_population(months_left: int, p: Seq<u64>) -> int {
    total(population_after(months_left, p))
}

/// Every total met on the way fits in a `u64`.
pub open spec fn mortal_fits(months_left: int, p: Seq<u64>) -> bool
    decreases months_left,
{
    total(p) <= u64::MAX && (months_left <= 1 || mortal_fits(months_left - 1, next_month(p)))
}

/// One young pair and no other generation, over a lifespan of `lifespan` months.
pub open spec fn initial_population(lifespan: nat) -> Seq<u64> {
    Seq::new(lifespan, |i: int| if i == 0 { 1u64 } else { 0u64 })
}

fn sum_population(population_vector: &VecDeque<u64>) -> (r: u64)
    requires
        total(population_vector@) <= u64::MAX,
    ensures
        r == total(population_vector@),
{
    let n = population_vector.len();
    let mut s: u64 = 0;
    let mut i: usize = 0;
    while i < n
        invariant
            n == population_vector@.len(),
            i <= n,
            total(population_vector@) <= u64::MAX,
            s == total(population_vector@.subrange(0, i as int)),
        decreases n - i,
    {
        proof {
            assert(population_vector@.subrange(0, i + 1).drop_last() =~= population_vector@.subrange(0, i as int));
            lemma_total_prefix(population_vector@, i + 1);
        }
        s = s + population_vector[i];
        i = i + 1;
    }
    proof {
        assert(population_vector@.subrange(0, n as int) =~= population_vector@);
    }
    s
}

/// Steps the population vector month by month and gives the number of pairs
/// alive at the end.
pub fn simulate_iter(months_left: u32, population_vector: &mut VecDeque<u64>) -> (r: u64)
    requires
        old(population_vector)@.len() > 0,
        mortal_fits(months_left as int, old(population_vector)@),
    ensures
        r == mortal_population(months_left as int, old(population_vector)@),
        final(population_vector)@ == population_after(months_left as int, old(population_vector)@),
    decreases months_left,
{
    let total_pop = sum_population(population_vector);
    if months_left <= 1 {
        total_pop
    } else {
        let ghost p = population_vector@;
        let juvenile_pop = population_vector[0];
        proof {
            let first = p.subrange(0, 1);
            assert(first.drop_last() =~= Seq::<u64>::empty());
            assert(total(first.drop_last()) == 0);
            assert(first.last() == p[0]);
            lemma_total_prefix(p, 1);
            assert(total(p.subrange(0, 1)) == p[0]);
        }
        let adult_pop = total_pop - juvenile_pop;
        let new_babies = adult_pop;
        population_vector.pop_back();
        population_vector.push_front(new_babies);
        proof {
            assert(population_vector@ =~= next_month(p));
        }
        simulate_iter(months_left - 1, population_vector)
    }
}

/// The number of rabbit pairs after `n_months` when each pair lives
/// `lifespan_months` months, starting from one young pair.
pub fn simulate(n_months: u32, lifespan_months: usize) -> (r: u64)
    requires
        lifespan_months >= 1,
        mortal_fits(n_months as int, initial_population(lifespan_months as nat)),
    ensures
        r == mortal_population(n_months as int, initial_population(lifespan_months as nat)),
{
    let mut population_vector: VecDeque<u64> = VecDeque::with_capacity(lifespan_months);
    let mut i: usize = 1;
    while i < lifespan_months
        invariant
            1 <= i <= lifespan_months,
            population_vector@ == Seq::new((i - 1) as nat, |k: int| 0u64),
        decreases lifespan_months - i,
    {
        population_vector.push_front(0);
        assert(population_vector@ =~= Seq::new(i as nat, |k: int| 0u64));
        i = i + 1;
    }
    population_vector.push_front(1);
    assert(population_vector@ =~= initial_population(lifespan_months as nat));
    simulate_iter(n_months, &mut population_vector)
}

fn sum_population_checked(population_vector: &VecDeque<u64>) -> (r: Option<u64>)
    ensures
        r is Some <==> total(population_vector@) <= u64::MAX,
        r matches Some(x) ==> x == total(population_vector@),
{
    let n = population_vector.len();
    let mut s: u64 = 0;
    let mut i: usize = 0;
    while i < n
        invariant
            n == population_vector@.len(),
            i <= n,
            s == total(population_vector@.subrange(0, i as int)),
        decreases n - i,
    {
        proof {
            assert(population_vector@.subrange(0, i + 1).drop_last() =~= population_vector@.subrange(0, i as int));
            lemma_total_prefix(population_vector@, i + 1);
        }
        match s.checked_add(population_vector[i]) {
            Some(x) => s = x,
            None => return None,
        }
        i = i + 1;
    }
    proof {
        assert(population_vector@.subrange(0, n as int) =~= population_vector@);
    }
    Some(s)
}

/// Steps the population vector like `simulate_iter`, and gives `None` where a
/// total on the way does not fit in a `u64`.
pub fn simulate_iter_checked(months_left: u32, population_vector: &mut VecDeque<u64>) -> (r: Option<u64>)
    requires
        old(population_vector)@.len() > 0,
    ensures
        r is Some <==> mortal_fits(months_left as int, old(population_vector)@),
        r matches Some(x) ==> x == mortal_population(months_left as int, old(population_vector)@),
    decreases months_left,
{
    let total_pop = match sum_population_checked(population_vector) {
        Some(x) => x,
        None => return None,
    };
    if months_left <= 1 {
        Some(total_pop)
    } else {
        let ghost p = population_vector@;
        let juvenile_pop = population_vector[0];
        proof {
            let first = p.subrange(0, 1);
            assert(first.drop_last() =~= Seq::<u64>::empty());
            assert(total(first.drop_last()) == 0);
            assert(first.last() == p[0]);
            lemma_total_prefix(p, 1);
        }
        let new_babies = total_pop - juvenile_pop;
        population_vector.pop_back();
        population_vector.push_front(new_babies);
        proof {
            assert(population_vector@ =~= next_month(p));
        }
        simulate_iter_checked(months_left - 1, population_vector)
    }
}

/// The number of rabbit pairs like `simulate`, or `None` where the lifespan is
/// zero or a total on the way does not fit in a `u64`.
pub fn simulate_checked(n_months: u32, lifespan_months: usize) -> (r: Option<u64>)
    ensures
        r is Some <==> lifespan_months >= 1 && mortal_fits(
            n_months as int,
            initial_population(lifespan_months as nat),
        ),
        r matches Some(x) ==> x == mortal_population(n_months as int, initial_population(lifespan_months as nat)),
{
    if lifespan_months == 0 {
        return None;
    }
    let mut population_vector: VecDeque<u64> = VecDeque::with_capacity(lifespan_months);
    let mut i: usize = 1;
    while i < lifespan_months
        invariant
            1 <= i <= lifespan_months,
            population_vector@ == Seq::new((i - 1) as nat, |k: int| 0u64),
        decreases lifespan_months - i,
    {
        population_vector.push_front(0);
        assert(population_vector@ =~= Seq::new(i as nat, |k: int| 0u64));
        i = i + 1;
    }
    population_vector.push_front(1);
    assert(population_vector@ =~= initial_population(lifespan_months as nat));
    simulate_iter_checked(n_months, &mut population_vector)
}

} // verus!
