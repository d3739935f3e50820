//! A pool of genomes, and its expression as a population.

use crate::genome::{Genome, GenomeView};
use crate::individual::{resting, Individual};
use crate::population::Population;
use vstd::prelude::*;

verus! {

/// Something that can be expressed as an individual. The expression is
/// lossy: the individual keeps a copy of the genome and no tie to its source.
pub trait Expressible {
    /// The genome that an expression carries.
    spec fn blueprint(&self) -> GenomeView;

    /// Whether the source is fit to be expressed.
    spec fn expressible(&self) -> bool;

    /// An individual with the source's genome and nothing active.
    fn express_lossy(&self) -> (individual: Individual)
        requires
            self.expressible(),
        ensures
            individual.wf(),
            individual@.genome == self.blueprint(),
            individual@.state == resting(self.blueprint().size()),
    ;
}

impl Expressible for Genome {
    open spec fn blueprint(&self) -> GenomeView {
        self@
    }

    open spec fn expressible(&self) -> bool {
        self.wf()
    }

    fn express_lossy(&self) -> (individual: Individual) {
        Individual::new(self.clone())
    }
}

/// Genomes kept apart from any activation state.
pub struct GenePool {
    genomes: Vec<Genome>,
}

impl View for GenePool {
    type V = Seq<GenomeView>;

    closed spec fn view(&self) -> Seq<GenomeView> {
        Seq::new(self.genomes@.len(), |i: int| self.genomes@[i]@)
    }
}

impl GenePool {
    /// Every genome is well formed.
    pub open spec fn wf(&self) -> bool {
        forall|i: int| 0 <= i < self@.len() ==> (#[trigger] self@[i]).wf()
    }

    /// A pool of the given genomes, in the order given.
    pub fn new(genomes: Vec<Genome>) -> (pool: GenePool)
        ensures
            pool@.len() == genomes@.len(),
            forall|i: int| 0 <= i < genomes@.len() ==> #[trigger] pool@[i] == genomes@[i]@,
    {
        GenePool { genomes }
    }

    /// A population with one individual per genome of the pool, in the
    /// pool's order, and nothing active.
    pub fn express_lossy(&self) -> (population: Population)
        requires
            self.wf(),
        ensures
            population.wf(),
            population@.len() == self@.len(),
            forall|i: int|
                0 <= i < self@.len() ==> {
                    &&& (#[trigger] population@[i]).genome == self@[i]
                    &&& population@[i].state == resting(self@[i].size())
                },
    {
        let mut copies: Vec<Genome> = Vec::new();
        let mut i: usize = 0;
        while i < self.genomes.len()
            invariant
                i <= self.genomes.len(),
                self.wf(),
                copies.len() == i,
                forall|j: int| 0 <= j < i ==> (#[trigger] copies@[j])@ == self@[j],
            decreases self.genomes.len() - i,
        {
            copies.push(self.genomes[i].clone());
            i += 1;
        }
        assert forall|j: int| 0 <= j < copies@.len() implies (#[trigger] copies@[j]).wf() by {
            assert(copies@[j]@ == self@[j]);
        }
        Population::seed(copies)
    }
}

} // verus!
