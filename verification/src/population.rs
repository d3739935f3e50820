//! The population: evaluation, selection of the fittest, and regeneration.

use crate::config::Config;
use crate::data::{TestSet, TestSetView};
use crate::error::{fails_with, Error};
use crate::fitness::{is_ranking, sort_by_fitness};
use crate::genome::{Genome, GenomeView};
use crate::individual::{offspring_of, resting, Individual, IndividualView};
use crate::simulation::{dimensioned, scored};
use crate::storage::{storable, ZERO};
use rand::rngs::StdRng;
use vstd::arithmetic::div_mod::lemma_small_mod;
use vstd::prelude::*;

verus! {

/// An ordered collection of individuals.
pub struct Population {
    pops: Vec<Individual>,
}

/// The exact mean `total / count` of `count` whole numbers.
pub struct Mean {
    pub total: u128,
    pub count: usize,
}

/// The sum of the sizes of the first `n` genomes.
pub open spec fn total_size(members: Seq<IndividualView>, n: nat) -> nat
    decreases n,
{
    if n == 0 {
        0
    } else {
        total_size(members, (n - 1) as nat) + members[n - 1].genome.size()
    }
}

/// What one evaluation of a population found.
pub struct Evaluation {
    /// The fitness of every member, in population order.
    pub fitness: Vec<u32>,
    /// The indices of the members, fittest first.
    pub order: Vec<usize>,
    /// The sum of all fitness values, taken in population order.
    pub total_fitness: u32,
    /// The fitness of the fittest member.
    pub best_fitness: u32,
}

/// Summary of one generation, taken before any of its members reproduced.
pub struct GenerationStats {
    /// Fitness values, their ranking, their sum and the best of them. The
    /// sum divided by `n_pop` is the average fitness.
    pub evaluation: Evaluation,
    /// The sum of the sizes of all genomes. Divided by `n_pop` it is the
    /// average genome size.
    pub total_genome_size: u128,
    /// Number of members.
    pub n_pop: usize,
    /// A copy of the genome of the fittest member.
    pub best_genome: Genome,
}

/// Whether summing up the first `n` fitness values, in order and starting
/// from zero, can give `total`, where `sum` answers for each addition.
pub open spec fn totalled<A: Fn(u32, u32) -> u32>(
    fitness: Seq<u32>,
    n: nat,
    total: u32,
    sum: A,
) -> bool
    decreases n,
{
    if n == 0 {
        total == ZERO
    } else {
        exists|subtotal: u32|
            totalled(fitness, (n - 1) as nat, subtotal, sum) && #[trigger] call_ensures(
                sum,
                (subtotal, fitness[n - 1]),
                total,
            )
    }
}

/// Whether `evaluation` can be what evaluating the members `before` on
/// `data` found, leaving them as `after`.
///
/// Every member is scored from rest with `multiplier` ticks per node and
/// sample; the order is the stable ascending order of the fitness values.
pub open spec fn evaluated<
    P: Fn(&Vec<Vec<u32>>, &Vec<u32>) -> Vec<u32>,
    D: Fn(&Vec<u32>, &Vec<u32>) -> u32,
    A: Fn(u32, u32) -> u32,
>(
    before: Seq<IndividualView>,
    after: Seq<IndividualView>,
    data: TestSetView,
    multiplier: nat,
    evaluation: Evaluation,
    product: P,
    distance: D,
    sum: A,
) -> bool {
    &&& after.len() == before.len()
    &&& evaluation.fitness@.len() == before.len()
    &&& forall|i: int|
        0 <= i < before.len() ==> {
            &&& (#[trigger] after[i]).genome == before[i].genome
            &&& scored(
                before[i].genome,
                data,
                data.len(),
                multiplier * before[i].genome.size(),
                after[i].state,
                evaluation.fitness@[i],
                product,
                distance,
                sum,
            )
        }
    &&& totalled(evaluation.fitness@, before.len(), evaluation.total_fitness, sum)
    &&& is_ranking(evaluation.order@, evaluation.fitness@)
    &&& before.len() > 0 ==> evaluation.best_fitness == evaluation.fitness@[evaluation.order@[0] as int]
}

/// The verdict on a dataset offered to every member of a population. An
/// unpaired dataset, or one that is ill shaped for some member, is
/// `InvalidInput`; a paired but empty one is `NoData`.
pub open spec fn common_verdict(members: Seq<IndividualView>, data: TestSetView) -> Result<
    (),
    Error,
> {
    if !data.paired() {
        Err(Error::InvalidInput)
    } else if data.len() == 0 {
        Err(Error::NoData)
    } else if exists|i: int|
        0 <= i < members.len() && !data.shaped(
            (#[trigger] members[i]).genome.n_in,
            members[i].genome.n_out,
        ) {
        Err(Error::InvalidInput)
    } else {
        Ok(())
    }
}

/// Whether a population of `members` individuals can use the configuration:
/// it is valid, and no more members are to reproduce than there are.
pub open spec fn usable(config: Config, members: nat) -> bool {
    config.valid() && config.n_fittest_reproduce <= members
}

/// Whether this machine can count the ticks per sample of every member.
pub open spec fn countable(members: Seq<IndividualView>, multiplier: nat) -> bool {
    forall|i: int|
        0 <= i < members.len() ==> multiplier * (#[trigger] members[i]).genome.size()
            <= usize::MAX
}

/// Whether the machine can hold every member's genome with one more node.
pub open spec fn growable(members: Seq<IndividualView>) -> bool {
    forall|i: int| 0 <= i < members.len() ==> (#[trigger] members[i]).genome.can_grow()
}

/// Whether `next` can be the generation bred from `parents` ranked by
/// `order`.
///
/// The first `n_fittest_reproduce` members of `next` are offspring, one each,
/// of the parents that `order` lists first, in that order. Every later member
/// has the genome of the member `n_fittest_reproduce` places before it, so
/// the offspring repeat in a cycle. Nothing is active in any of them.
pub open spec fn bred<F: Fn(u32, u32, u32) -> u32>(
    parents: Seq<IndividualView>,
    order: Seq<usize>,
    next: Seq<IndividualView>,
    config: Config,
    perturb: F,
) -> bool {
    let k = config.n_fittest_reproduce as int;
    &&& next.len() == parents.len()
    &&& forall|t: int|
        0 <= t < k ==> offspring_of(
            parents[order[t] as int].genome,
            (#[trigger] next[t]).genome,
            config,
            perturb,
        )
    &&& forall|t: int|
        0 <= t < next.len() ==> {
            &&& (#[trigger] next[t]).genome == next[t % k].genome
            &&& next[t].state == resting(next[t].genome.size())
        }
}

impl View for Population {
    type V = Seq<IndividualView>;

    closed spec fn view(&self) -> Seq<IndividualView> {
        Seq::new(self.pops@.len(), |i: int| self.pops@[i]@)
    }
}

impl Population {
    /// Every member is well formed: its genome is, and each of its nodes has
    /// one activation.
    pub open spec fn wf(&self) -> bool {
        forall|i: int|
            0 <= i < self@.len() ==> {
                &&& (#[trigger] self@[i]).genome.wf()
                &&& self@[i].state.len() == self@[i].genome.size()
            }
    }

    /// A population of `N_POP` individuals, each with a genome of its own
    /// that has `N_IN` inputs, `N_OUT` outputs and no connection.
    pub fn new<const N_IN: usize, const N_OUT: usize, const N_POP: usize>() -> (population:
        Population)
        requires
            N_IN + N_OUT >= 1,
            storable((N_IN + N_OUT) as nat, (N_IN + N_OUT) as nat),
        ensures
            population.wf(),
            population@.len() == N_POP,
            forall|i: int|
                0 <= i < N_POP ==> {
                    &&& (#[trigger] population@[i]).genome == GenomeView::blank(N_IN as nat, N_OUT as nat)
                    &&& population@[i].state == resting((N_IN + N_OUT) as nat)
                },
    {
        let mut pops: Vec<Individual> = Vec::new();
        let mut i: usize = 0;
        while i < N_POP
            invariant
                i <= N_POP,
                pops.len() == i,
                N_IN + N_OUT >= 1,
                storable((N_IN + N_OUT) as nat, (N_IN + N_OUT) as nat),
                forall|j: int|
                    0 <= j < i ==> {
                        &&& (#[trigger] pops@[j]).wf()
                        &&& pops@[j]@.genome == GenomeView::blank(N_IN as nat, N_OUT as nat)
                        &&& pops@[j]@.state == resting((N_IN + N_OUT) as nat)
                    },
            decreases N_POP - i,
        {
            let genome = Genome::new::<N_IN, N_OUT>();
            pops.push(Individual::new(genome));
            i += 1;
        }
        Population { pops }
    }

    /// A population with one individual per genome, in the order given, and
    /// nothing active.
    pub fn seed(genomes: Vec<Genome>) -> (population: Population)
        requires
            forall|i: int| 0 <= i < genomes@.len() ==> (#[trigger] genomes@[i]).wf(),
        ensures
            population.wf(),
            population@.len() == genomes@.len(),
            forall|i: int|
                0 <= i < genomes@.len() ==> {
                    &&& (#[trigger] population@[i]).genome == genomes@[i]@
                    &&& population@[i].state == resting(genomes@[i]@.size())
                },
    {
        let mut pops: Vec<Individual> = Vec::new();
        let mut i: usize = 0;
        while i < genomes.len()
            invariant
                i <= genomes.len(),
                pops.len() == i,
                forall|j: int| 0 <= j < genomes@.len() ==> (#[trigger] genomes@[j]).wf(),
                forall|j: int|
                    0 <= j < i ==> {
                        &&& (#[trigger] pops@[j]).wf()
                        &&& pops@[j]@.genome == genomes@[j]@
                        &&& pops@[j]@.state == resting(genomes@[j]@.size())
                    },
            decreases genomes.len() - i,
        {
            pops.push(Individual::new(genomes[i].clone()));
            i += 1;
        }
        Population { pops }
    }

    /// Number of members.
    pub fn len(&self) -> (n: usize)
        ensures
            n == self@.len(),
    {
        self.pops.len()
    }

    /// The member at `index`.
    pub fn get(&self, index: usize) -> (member: &Individual)
        requires
            index < self@.len(),
        ensures
            member@ == self@[index as int],
            self.wf() ==> member.wf(),
    {
        &self.pops[index]
    }

    /// Scores every member on `data`, and ranks the members by fitness.
    ///
    /// Fails with `NoData` for an empty population, else with
    /// `InvalidConfig` if `multiplier` is zero, else with the common verdict
    /// on the dataset if that is an error; in each of these cases no member
    /// has changed. Fails with `InvalidInput` if `product` does not answer
    /// with one entry per node.
    pub fn evaluate<
        P: Fn(&Vec<Vec<u32>>, &Vec<u32>) -> Vec<u32>,
        D: Fn(&Vec<u32>, &Vec<u32>) -> u32,
        A: Fn(u32, u32) -> u32,
    >(
        &mut self,
        data: &TestSet,
        multiplier: usize,
        product: &P,
        distance: &D,
        sum: &A,
    ) -> (outcome: Result<Evaluation, Error>)
        requires
            old(self).wf(),
            countable(old(self)@, multiplier as nat),
            forall|rows: Vec<Vec<u32>>, state: Vec<u32>|
                rows@.len() == state@.len() ==> call_requires(*product, (&rows, &state)),
            forall|out: Vec<u32>, expected: Vec<u32>|
                out@.len() == expected@.len() ==> call_requires(*distance, (&out, &expected)),
            forall|total: u32, miss: u32| call_requires(*sum, (total, miss)),
        ensures
            final(self).wf(),
            final(self)@.len() == old(self)@.len(),
            forall|i: int|
                0 <= i < old(self)@.len() ==> (#[trigger] final(self)@[i]).genome == old(
                    self,
                )@[i].genome,
            old(self)@.len() == 0 ==> fails_with(outcome, Error::NoData),
            old(self)@.len() > 0 && multiplier == 0 ==> fails_with(outcome, Error::InvalidConfig),
            old(self)@.len() > 0 && multiplier > 0 ==> (common_verdict(old(self)@, data@)
                matches Err(e) ==> fails_with(outcome, e)),
            old(self)@.len() == 0 || multiplier == 0 || common_verdict(old(self)@, data@) is Err
                ==> final(self)@ == old(self)@,
            old(self)@.len() > 0 && multiplier > 0 && common_verdict(old(self)@, data@) is Ok
                ==> {
                &&& dimensioned(*product) ==> outcome is Ok
                &&& outcome is Err ==> fails_with(outcome, Error::InvalidInput)
            },
            outcome matches Ok(evaluation) ==> evaluated(
                old(self)@,
                final(self)@,
                data@,
                multiplier as nat,
                evaluation,
                *product,
                *distance,
                *sum,
            ),
    {
        let n = self.pops.len();
        if n == 0 {
            return Err(Error::NoData);
        }
        if multiplier == 0 {
            return Err(Error::InvalidConfig);
        }
        let mut i: usize = 0;
        while i < n
            invariant
                i <= n,
                n == self.pops@.len(),
                n > 0,
                multiplier > 0,
                self == old(self),
                self.wf(),
                forall|j: int|
                    0 <= j < i ==> data@.verdict(
                        (#[trigger] self@[j]).genome.n_in,
                        self@[j].genome.n_out,
                    ) is Ok,
            decreases n - i,
        {
            let genome = self.pops[i].genome();
            assert(genome@ == self@[i as int].genome);
            match data.validate(genome.n_in, genome.n_out) {
                Err(e) => {
                    return Err(e);
                },
                Ok(()) => {},
            }
            i += 1;
        }
        assert(common_verdict(self@, data@) is Ok) by {
            assert(data@.verdict(self@[0].genome.n_in, self@[0].genome.n_out) is Ok);
        }
        let mut fitness: Vec<u32> = Vec::new();
        let mut i: usize = 0;
        while i < n
            invariant
                i <= n,
                n == self.pops@.len(),
                n == old(self).pops@.len(),
                multiplier > 0,
                self.wf(),
                countable(old(self)@, multiplier as nat),
                fitness.len() == i,
                forall|j: int|
                    0 <= j < n ==> (#[trigger] self@[j]).genome == old(self)@[j].genome,
                forall|j: int|
                    0 <= j < n ==> data@.verdict(
                        (#[trigger] old(self)@[j]).genome.n_in,
                        old(self)@[j].genome.n_out,
                    ) is Ok,
                forall|j: int|
                    0 <= j < i ==> scored(
                        old(self)@[j].genome,
                        data@,
                        data@.len(),
                        (multiplier * old(self)@[j].genome.size()) as nat,
                        (#[trigger] self@[j]).state,
                        fitness@[j],
                        *product,
                        *distance,
                        *sum,
                    ),
                forall|rows: Vec<Vec<u32>>, state: Vec<u32>|
                    rows@.len() == state@.len() ==> call_requires(*product, (&rows, &state)),
                forall|out: Vec<u32>, expected: Vec<u32>|
                    out@.len() == expected@.len() ==> call_requires(*distance, (&out, &expected)),
                forall|total: u32, miss: u32| call_requires(*sum, (total, miss)),
            decreases n - i,
        {
            let ghost before = self@;
            assert(before[i as int].genome == old(self)@[i as int].genome);
            let score = match self.pops[i].test_steady_state(
                data,
                multiplier,
                product,
                distance,
                sum,
            ) {
                Ok(score) => score,
                Err(e) => {
                    assert forall|j: int| 0 <= j < n implies {
                        &&& (#[trigger] self@[j]).genome == old(self)@[j].genome
                        &&& self@[j].genome.wf()
                        &&& self@[j].state.len() == self@[j].genome.size()
                    } by {
                        assert(before[j].genome == old(self)@[j].genome);
                        assert(before[j].genome.wf());
                        if j != i {
                            assert(self@[j] == before[j]);
                        }
                    }
                    return Err(e);
                },
            };
            fitness.push(score);
            assert forall|j: int| 0 <= j < n implies {
                &&& (#[trigger] self@[j]).genome == old(self)@[j].genome
                &&& self@[j].genome.wf()
                &&& self@[j].state.len() == self@[j].genome.size()
            } by {
                assert(before[j].genome == old(self)@[j].genome);
                assert(before[j].genome.wf());
                if j != i {
                    assert(self@[j] == before[j]);
                }
            }
            assert forall|j: int| 0 <= j < i + 1 implies scored(
                old(self)@[j].genome,
                data@,
                data@.len(),
                (multiplier * old(self)@[j].genome.size()) as nat,
                (#[trigger] self@[j]).state,
                fitness@[j],
                *product,
                *distance,
                *sum,
            ) by {
                if j < i {
                    assert(self@[j] == before[j]);
                }
            }
            i += 1;
        }
        let order = sort_by_fitness(&fitness);
        let mut total = ZERO;
        let mut i: usize = 0;
        while i < n
            invariant
                i <= n,
                n == fitness.len(),
                totalled(fitness@, i as nat, total, *sum),
                forall|total: u32, miss: u32| call_requires(*sum, (total, miss)),
            decreases n - i,
        {
            let ghost subtotal = total;
            total = sum(total, fitness[i]);
            assert(totalled(fitness@, ((i + 1) - 1) as nat, subtotal, *sum));
            i += 1;
        }
        let best_fitness = fitness[order[0]];
        Ok(Evaluation { fitness, order, total_fitness: total, best_fitness })
    }

    /// One generation: the members are evaluated, the statistics of this
    /// generation are taken, and the next generation is bred from the
    /// fittest.
    ///
    /// Fails with `NoData` for an empty population, else with
    /// `InvalidConfig` unless the configuration is valid and no more members
    /// are to reproduce than there are, else as `evaluate` does. Of the
    /// configuration's `n_pop` only its bound on `n_fittest_reproduce` is
    /// used: the next generation has as many members as this one.
    pub fn reproduce<
        P: Fn(&Vec<Vec<u32>>, &Vec<u32>) -> Vec<u32>,
        D: Fn(&Vec<u32>, &Vec<u32>) -> u32,
        A: Fn(u32, u32) -> u32,
        F: Fn(u32, u32, u32) -> u32,
    >(
        &mut self,
        data: &TestSet,
        config: &Config,
        rng: &mut StdRng,
        product: &P,
        distance: &D,
        sum: &A,
        perturb: &F,
    ) -> (outcome: Result<(Population, GenerationStats), Error>)
        requires
            old(self).wf(),
            countable(old(self)@, config.steady_state_eval_steps_multiplier as nat),
            config.node_mut_chance > 0 ==> growable(old(self)@),
            forall|rows: Vec<Vec<u32>>, state: Vec<u32>|
                rows@.len() == state@.len() ==> call_requires(*product, (&rows, &state)),
            forall|out: Vec<u32>, expected: Vec<u32>|
                out@.len() == expected@.len() ==> call_requires(*distance, (&out, &expected)),
            forall|total: u32, miss: u32| call_requires(*sum, (total, miss)),
            forall|weight: u32, draw: u32|
                call_requires(*perturb, (weight, config.edge_mut_strength, draw)),
        ensures
            final(self).wf(),
            final(self)@.len() == old(self)@.len(),
            forall|i: int|
                0 <= i < old(self)@.len() ==> (#[trigger] final(self)@[i]).genome == old(
                    self,
                )@[i].genome,
            old(self)@.len() == 0 ==> fails_with(outcome, Error::NoData),
            old(self)@.len() > 0 && !usable(*config, old(self)@.len()) ==> fails_with(
                outcome,
                Error::InvalidConfig,
            ),
            old(self)@.len() > 0 && usable(*config, old(self)@.len()) ==> {
                &&& common_verdict(old(self)@, data@) matches Err(e) ==> fails_with(outcome, e)
                &&& common_verdict(old(self)@, data@) is Ok ==> {
                    &&& dimensioned(*product) ==> outcome is Ok
                    &&& outcome is Err ==> fails_with(outcome, Error::InvalidInput)
                }
            },
            old(self)@.len() == 0 || !usable(*config, old(self)@.len()) || common_verdict(
                old(self)@,
                data@,
            ) is Err ==> final(self)@ == old(self)@,
            outcome matches Ok((next, stats)) ==> {
                &&& next.wf()
                &&& next@.len() == old(self)@.len()
                &&& evaluated(
                    old(self)@,
                    final(self)@,
                    data@,
                    config.steady_state_eval_steps_multiplier as nat,
                    stats.evaluation,
                    *product,
                    *distance,
                    *sum,
                )
                &&& bred(old(self)@, stats.evaluation.order@, next@, *config, *perturb)
                &&& stats.n_pop == old(self)@.len()
                &&& stats.total_genome_size == total_size(old(self)@, old(self)@.len())
                &&& stats.best_genome@ == old(self)@[stats.evaluation.order@[0] as int].genome
            },
    {
        let n = self.pops.len();
        if n == 0 {
            return Err(Error::NoData);
        }
        if config.validate().is_err() || config.n_fittest_reproduce > n {
            return Err(Error::InvalidConfig);
        }
        let mean = match self.average_genome_size() {
            Ok(mean) => mean,
            Err(e) => {
                return Err(e);
            },
        };
        let evaluation = match self.evaluate(
            data,
            config.steady_state_eval_steps_multiplier,
            product,
            distance,
            sum,
        ) {
            Ok(evaluation) => evaluation,
            Err(e) => {
                return Err(e);
            },
        };
        let best = evaluation.order[0];
        let best_genome = self.pops[best].genome().clone();
        assert(best_genome@ == old(self)@[best as int].genome) by {
            assert(self@[best as int].genome == old(self)@[best as int].genome);
        }
        assert(growable(old(self)@) ==> growable(self@)) by {
            if growable(old(self)@) {
                assert forall|i: int| 0 <= i < self@.len() implies (#[trigger] self@[i]).genome.can_grow() by {
                    assert(old(self)@[i].genome.can_grow());
                }
            }
        }
        let next = self.breed(&evaluation.order, config, rng, perturb);
        assert(bred(old(self)@, evaluation.order@, next@, *config, *perturb)) by {
            assert forall|t: int| 0 <= t < config.n_fittest_reproduce implies offspring_of(
                old(self)@[evaluation.order@[t] as int].genome,
                (#[trigger] next@[t]).genome,
                *config,
                *perturb,
            ) by {
                let parent = evaluation.order@[t] as int;
                assert(self@[parent].genome == old(self)@[parent].genome);
            }
        }
        let stats = GenerationStats {
            evaluation,
            total_genome_size: mean.total,
            n_pop: n,
            best_genome,
        };
        Ok((next, stats))
    }

    /// The next generation, given the ranking of this one: the fittest
    /// `n_fittest_reproduce` members reproduce once each, in ranking order,
    /// and their offspring are repeated in a cycle until the population has
    /// its size again.
    pub fn breed<F: Fn(u32, u32, u32) -> u32>(
        &self,
        order: &Vec<usize>,
        config: &Config,
        rng: &mut StdRng,
        perturb: &F,
    ) -> (next: Population)
        requires
            self.wf(),
            0 < config.n_fittest_reproduce <= self@.len(),
            order@.len() == self@.len(),
            forall|t: int| 0 <= t < order@.len() ==> (#[trigger] order@[t]) < self@.len(),
            config.node_mut_chance > 0 ==> growable(self@),
            forall|weight: u32, draw: u32|
                call_requires(*perturb, (weight, config.edge_mut_strength, draw)),
        ensures
            next.wf(),
            bred(self@, order@, next@, *config, *perturb),
    {
        let k = config.n_fittest_reproduce;
        let n = self.pops.len();
        let mut pops: Vec<Individual> = Vec::new();
        let mut t: usize = 0;
        while t < k
            invariant
                t <= k <= n,
                n == self.pops@.len(),
                k == config.n_fittest_reproduce,
                self.wf(),
                order@.len() == n,
                forall|t: int| 0 <= t < order@.len() ==> (#[trigger] order@[t]) < n,
                config.node_mut_chance > 0 ==> growable(self@),
                forall|weight: u32, draw: u32|
                    call_requires(*perturb, (weight, config.edge_mut_strength, draw)),
                pops.len() == t,
                forall|j: int|
                    0 <= j < t ==> {
                        &&& (#[trigger] pops@[j]).wf()
                        &&& offspring_of(
                            self@[order@[j] as int].genome,
                            pops@[j]@.genome,
                            *config,
                            *perturb,
                        )
                        &&& pops@[j]@.state == resting(pops@[j]@.genome.size())
                    },
            decreases k - t,
        {
            let parent = &self.pops[order[t]];
            assert(parent@ == self@[order@[t as int] as int]);
            pops.push(parent.reproduce(rng, config, perturb));
            t += 1;
        }
        assert forall|j: int| 0 <= j < k implies (#[trigger] pops@[j])@.genome == pops@[j % (
        k as int)]@.genome by {
            lemma_small_mod(j as nat, k as nat);
        }
        while t < n
            invariant
                k <= t <= n,
                0 < k,
                n == self.pops@.len(),
                k == config.n_fittest_reproduce,
                order@.len() == n,
                forall|t: int| 0 <= t < order@.len() ==> (#[trigger] order@[t]) < n,
                pops.len() == t,
                forall|j: int| 0 <= j < t ==> (#[trigger] pops@[j]).wf(),
                forall|j: int|
                    0 <= j < k ==> offspring_of(
                        self@[order@[j] as int].genome,
                        (#[trigger] pops@[j])@.genome,
                        *config,
                        *perturb,
                    ),
                forall|j: int|
                    0 <= j < t ==> {
                        &&& (#[trigger] pops@[j])@.genome == pops@[j % (k as int)]@.genome
                        &&& pops@[j]@.state == resting(pops@[j]@.genome.size())
                    },
            decreases n - t,
        {
            let copy = Individual::new(pops[t % k].genome().clone());
            pops.push(copy);
            t += 1;
        }
        let next = Population { pops };
        assert(bred(self@, order@, next@, *config, *perturb));
        next
    }

    /// The mean number of nodes per genome, or `NoData` for an empty
    /// population.
    pub fn average_genome_size(&self) -> (outcome: Result<Mean, Error>)
        requires
            self.wf(),
        ensures
            outcome is Ok <==> self@.len() > 0,
            outcome matches Ok(mean) ==> mean.count == self@.len() && mean.total == total_size(
                self@,
                self@.len(),
            ),
            outcome matches Err(e) ==> e == Error::NoData,
    {
        if self.pops.len() == 0 {
            return Err(Error::NoData);
        }
        let mut total: u128 = 0;
        let mut i: usize = 0;
        while i < self.pops.len()
            invariant
                i <= self.pops.len(),
                self.wf(),
                total == total_size(self@, i as nat),
                total <= i * usize::MAX,
            decreases self.pops.len() - i,
        {
            assert(self.pops@[i as int]@ == self@[i as int]);
            let size = self.pops[i].genome().size();
            assert(i * usize::MAX + usize::MAX == (i + 1) * usize::MAX) by (nonlinear_arith);
            assert((i + 1) * usize::MAX <= usize::MAX * usize::MAX) by (nonlinear_arith)
                requires
                    i + 1 <= usize::MAX,
            ;
            assert(usize::MAX * usize::MAX <= 0xFFFF_FFFF_FFFF_FFFF * 0xFFFF_FFFF_FFFF_FFFF)
                by (nonlinear_arith)
                requires
                    usize::MAX <= 0xFFFF_FFFF_FFFF_FFFF,
            ;
            total = total + size as u128;
            i += 1;
        }
        Ok(Mean { total, count: self.pops.len() })
    }
}

} // verus!
