//! The phenotype: one genome and the activations of its nodes.

use crate::config::Config;
use crate::error::Error;
use crate::fitness::INFINITY;
use crate::genome::{edge_perturbed, picked, Genome, GenomeView};
use crate::random::{draw_u32, draw_u64};
use crate::storage::{entries, lemma_storable_column, StateVector, ZERO};
use rand::rngs::StdRng;
use vstd::prelude::*;

verus! {

/// What an individual is: its genome and one activation per node.
pub struct IndividualView {
    pub genome: GenomeView,
    pub state: Seq<u32>,
}

/// The rectifier: a positive number, positive zero and positive infinity stay
/// as they are, and everything else (negative numbers, negative zero, values
/// that are no numbers) becomes positive zero.
pub open spec fn rectified(activation: u32) -> u32 {
    if activation <= INFINITY {
        activation
    } else {
        ZERO
    }
}

/// A state of `len` nodes in which nothing is active.
pub open spec fn resting(len: nat) -> Seq<u32> {
    Seq::new(len, |i: int| ZERO)
}

/// `state` with its leading entries overwritten by `inputs`.
pub open spec fn driven(state: Seq<u32>, inputs: Seq<u32>) -> Seq<u32> {
    Seq::new(
        state.len(),
        |i: int|
            if i < inputs.len() {
                inputs[i]
            } else {
                state[i]
            },
    )
}

/// The state after a tick whose matrix-vector product was `product`: every
/// entry but the first `n_in` is rectified.
pub open spec fn settled(product: Seq<u32>, n_in: nat) -> Seq<u32> {
    Seq::new(
        product.len(),
        |i: int|
            if i < n_in {
                product[i]
            } else {
                rectified(product[i])
            },
    )
}

/// The trailing `n_out` entries of `state`.
pub open spec fn outputs(state: Seq<u32>, n_out: nat) -> Seq<u32> {
    state.subrange(state.len() - n_out, state.len() as int)
}

/// Whether a mutation with the given chance in percent fires on `roll`.
pub open spec fn fires(chance: u32, roll: u64) -> bool {
    roll % 100 < chance
}

/// The random values that one reproduction consumes, in the order in which
/// they are drawn.
#[derive(Clone, Copy, Debug)]
pub struct Draws {
    /// Decides whether an edge is perturbed.
    pub edge_roll: u64,
    /// Picks the row of the edge to perturb.
    pub edge_row: u64,
    /// Picks the column of the edge to perturb.
    pub edge_col: u64,
    /// Random bits for the perturbation.
    pub edge_bits: u32,
    /// Decides whether a node is added.
    pub node_roll: u64,
    /// Picks the row of the edge to split.
    pub node_row: u64,
    /// Picks the column of the edge to split.
    pub node_col: u64,
}

/// Whether `mid` follows `parent` at the edge stage of reproduction: if the
/// edge chance fires, the picked edge is perturbed; if not, nothing changes.
pub open spec fn edge_stage<F: Fn(u32, u32, u32) -> u32>(
    parent: GenomeView,
    mid: GenomeView,
    draws: Draws,
    config: Config,
    perturb: F,
) -> bool {
    if fires(config.edge_mut_chance, draws.edge_roll) {
        edge_perturbed(
            parent,
            mid,
            picked(draws.edge_row, parent.size()),
            picked(draws.edge_col, parent.size()),
            config.edge_mut_strength,
            draws.edge_bits,
            perturb,
        )
    } else {
        mid == parent
    }
}

/// What follows `mid` at the node stage of reproduction: if the node chance
/// fires, the picked edge is split by a new node; if not, nothing changes.
pub open spec fn node_stage(mid: GenomeView, draws: Draws, config: Config) -> GenomeView {
    if fires(config.node_mut_chance, draws.node_roll) {
        mid.with_node(picked(draws.node_row, mid.size()), picked(draws.node_col, mid.size()))
    } else {
        mid
    }
}

/// Whether `child` is the genome of the offspring that `parent` has on the
/// given draws: the edge stage, then the node stage.
pub open spec fn bred_by<F: Fn(u32, u32, u32) -> u32>(
    parent: GenomeView,
    child: GenomeView,
    draws: Draws,
    config: Config,
    perturb: F,
) -> bool {
    exists|mid: GenomeView| #[trigger]
        edge_stage(parent, mid, draws, config, perturb) && child == node_stage(
            mid,
            draws,
            config,
        )
}

/// Whether `child` can be the genome of an offspring of `parent`, on some
/// draws.
pub open spec fn offspring_of<F: Fn(u32, u32, u32) -> u32>(
    parent: GenomeView,
    child: GenomeView,
    config: Config,
    perturb: F,
) -> bool {
    exists|draws: Draws| #[trigger] bred_by(parent, child, draws, config, perturb)
}

/// Applies the rectifier to one activation.
pub fn rectify(activation: u32) -> (r: u32)
    ensures
        r == rectified(activation),
{
    if activation <= INFINITY {
        activation
    } else {
        ZERO
    }
}

/// Decides whether a mutation with the given chance in percent fires on a
/// 64-bit draw.
pub fn mutation_fires(chance: u32, roll: u64) -> (fired: bool)
    ensures
        fired == fires(chance, roll),
        chance == 0 ==> !fired,
        chance >= 100 ==> fired,
{
    roll % 100 < chance as u64
}

/// One genome together with the activations of its nodes.
pub struct Individual {
    genome: Genome,
    state: StateVector,
}

impl View for Individual {
    type V = IndividualView;

    closed spec fn view(&self) -> IndividualView {
        IndividualView { genome: self.genome@, state: entries(self.state) }
    }
}

impl Individual {
    /// The genome is well formed and every node has one activation.
    pub open spec fn wf(&self) -> bool {
        &&& self@.genome.wf()
        &&& self@.state.len() == self@.genome.size()
    }

    /// An individual with the given genome and nothing active.
    pub fn new(genome: Genome) -> (individual: Individual)
        requires
            genome.wf(),
        ensures
            individual.wf(),
            individual@.genome == genome@,
            individual@.state == resting(genome@.size()),
    {
        let size = genome.size();
        proof {
            lemma_storable_column(size as nat);
        }
        Individual { state: StateVector::zeros(size), genome }
    }

    /// The genome.
    pub fn genome(&self) -> (genome: &Genome)
        ensures
            genome@ == self@.genome,
    {
        &self.genome
    }

    /// The activations, one per node.
    pub fn state(&self) -> (state: Vec<u32>)
        requires
            self.wf(),
        ensures
            state@ == self@.state,
    {
        let len = self.state.len();
        let mut state: Vec<u32> = Vec::new();
        let mut i: usize = 0;
        while i < len
            invariant
                i <= len,
                len == entries(self.state).len(),
                state@ == entries(self.state).subrange(0, i as int),
            decreases len - i,
        {
            state.push(self.state.get(i));
            assert(state@ =~= entries(self.state).subrange(0, i + 1));
            i += 1;
        }
        assert(state@ =~= entries(self.state));
        state
    }

    /// Puts every activation back to zero.
    pub fn reset(&mut self)
        requires
            old(self).wf(),
        ensures
            final(self).wf(),
            final(self)@.genome == old(self)@.genome,
            final(self)@.state == resting(old(self)@.genome.size()),
    {
        let size = self.genome.size();
        proof {
            lemma_storable_column(size as nat);
        }
        self.state = StateVector::zeros(size);
    }

    /// First half of a tick: the activations of the input nodes are
    /// overwritten by `inputs`.
    ///
    /// Fails with `InvalidInput`, and changes nothing, unless there is one
    /// input per input node.
    pub fn feed(&mut self, inputs: &Vec<u32>) -> (outcome: Result<(), Error>)
        requires
            old(self).wf(),
        ensures
            final(self).wf(),
            final(self)@.genome == old(self)@.genome,
            outcome is Ok <==> inputs@.len() == old(self)@.genome.n_in,
            outcome is Ok ==> final(self)@.state == driven(old(self)@.state, inputs@),
            outcome is Err ==> outcome == Err::<(), Error>(Error::InvalidInput) && final(self)@
                == old(self)@,
    {
        if inputs.len() != self.genome.n_in {
            return Err(Error::InvalidInput);
        }
        let mut i: usize = 0;
        while i < inputs.len()
            invariant
                i <= inputs.len(),
                inputs.len() == self.genome.n_in,
                self.wf(),
                self.genome@ == old(self).genome@,
                entries(self.state) == driven(
                    entries(old(self).state),
                    inputs@.subrange(0, i as int),
                ),
            decreases inputs.len() - i,
        {
            self.state.set(i, inputs[i]);
            assert(entries(self.state) =~= driven(
                entries(old(self).state),
                inputs@.subrange(0, i + 1),
            ));
            i += 1;
        }
        assert(inputs@.subrange(0, i as int) =~= inputs@);
        Ok(())
    }

    /// Second half of a tick: `product`, the weight matrix times the fed
    /// state, becomes the new state, rectified at every node that is no
    /// input. The activations of the output nodes are returned.
    ///
    /// Fails with `InvalidInput`, and changes nothing, unless `product` has
    /// one entry per node.
    pub fn settle(&mut self, product: &Vec<u32>) -> (outcome: Result<Vec<u32>, Error>)
        requires
            old(self).wf(),
        ensures
            final(self).wf(),
            final(self)@.genome == old(self)@.genome,
            outcome is Ok <==> product@.len() == old(self)@.genome.size(),
            outcome matches Ok(out) ==> {
                &&& final(self)@.state == settled(product@, old(self)@.genome.n_in)
                &&& out@ == outputs(final(self)@.state, old(self)@.genome.n_out)
            },
            outcome matches Err(e) ==> e == Error::InvalidInput && final(self)@ == old(self)@,
    {
        let size = self.genome.size();
        if product.len() != size {
            return Err(Error::InvalidInput);
        }
        let n_in = self.genome.n_in;
        let mut i: usize = 0;
        while i < size
            invariant
                i <= size,
                size == product.len(),
                n_in == self.genome.n_in,
                self.wf(),
                size == self.genome@.size(),
                self.genome@ == old(self).genome@,
                forall|k: int|
                    0 <= k < i ==> entries(self.state)[k] == settled(product@, n_in as nat)[k],
            decreases size - i,
        {
            let activation = if i < n_in {
                product[i]
            } else {
                rectify(product[i])
            };
            self.state.set(i, activation);
            i += 1;
        }
        assert(entries(self.state) =~= settled(product@, n_in as nat));
        let first = size - self.genome.n_out;
        let mut out: Vec<u32> = Vec::new();
        let mut k: usize = first;
        while k < size
            invariant
                first <= k <= size,
                size == entries(self.state).len(),
                out@ == entries(self.state).subrange(first as int, k as int),
            decreases size - k,
        {
            out.push(self.state.get(k));
            assert(out@ =~= entries(self.state).subrange(first as int, k + 1));
            k += 1;
        }
        Ok(out)
    }

    /// The offspring on the given draws: a copy of the genome, with the
    /// picked edge perturbed if the edge chance fires and then with the
    /// picked edge split if the node chance fires, and with nothing active.
    pub fn reproduce_with<F: Fn(u32, u32, u32) -> u32>(
        &self,
        draws: &Draws,
        config: &Config,
        perturb: &F,
    ) -> (child: Individual)
        requires
            self.wf(),
            fires(config.node_mut_chance, draws.node_roll) ==> self@.genome.can_grow(),
            forall|weight: u32|
                call_requires(*perturb, (weight, config.edge_mut_strength, draws.edge_bits)),
        ensures
            child.wf(),
            bred_by(self@.genome, child@.genome, *draws, *config, *perturb),
            child@.state == resting(child@.genome.size()),
    {
        let mid = if mutation_fires(config.edge_mut_chance, draws.edge_roll) {
            let (row, col) = self.genome.cell_from(draws.edge_row, draws.edge_col);
            self.genome.perturb_edge(
                row,
                col,
                config.edge_mut_strength,
                draws.edge_bits,
                perturb,
            )
        } else {
            self.genome.clone()
        };
        assert(edge_stage(self@.genome, mid@, *draws, *config, *perturb));
        let genome = if mutation_fires(config.node_mut_chance, draws.node_roll) {
            let (row, col) = mid.cell_from(draws.node_row, draws.node_col);
            mid.split_edge(row, col)
        } else {
            mid
        };
        Individual::new(genome)
    }

    /// One offspring: a copy of the genome, with one edge mutation if its
    /// chance fires and then one node mutation if its chance fires, and with
    /// nothing active.
    ///
    /// Seven values are drawn from `rng`, whatever fires.
    pub fn reproduce<F: Fn(u32, u32, u32) -> u32>(
        &self,
        rng: &mut StdRng,
        config: &Config,
        perturb: &F,
    ) -> (child: Individual)
        requires
            self.wf(),
            config.node_mut_chance > 0 ==> self@.genome.can_grow(),
            forall|weight: u32, draw: u32|
                call_requires(*perturb, (weight, config.edge_mut_strength, draw)),
        ensures
            child.wf(),
            offspring_of(self@.genome, child@.genome, *config, *perturb),
            child@.state == resting(child@.genome.size()),
    {
        let draws = Draws::draw(rng);
        self.reproduce_with(&draws, config, perturb)
    }
}

impl Draws {
    /// Seven fresh values from `rng`.
    fn draw(rng: &mut StdRng) -> (draws: Draws) {
        let edge_roll = draw_u64(rng);
        let edge_row = draw_u64(rng);
        let edge_col = draw_u64(rng);
        let edge_bits = draw_u32(rng);
        let node_roll = draw_u64(rng);
        let node_row = draw_u64(rng);
        let node_col = draw_u64(rng);
        Draws { edge_roll, edge_row, edge_col, edge_bits, node_roll, node_row, node_col }
    }
}

/// Reproduction never removes a node and never touches the numbers of
/// inputs and outputs: an offspring has the size of its parent, or one node
/// more.
pub proof fn lemma_offspring_only_grows<F: Fn(u32, u32, u32) -> u32>(
    parent: GenomeView,
    child: GenomeView,
    config: Config,
    perturb: F,
)
    requires
        parent.wf(),
        offspring_of(parent, child, config, perturb),
    ensures
        child.n_in == parent.n_in,
        child.n_out == parent.n_out,
        child.size() == parent.size() || child.size() == parent.size() + 1,
        config.node_mut_chance == 0 ==> child.size() == parent.size(),
        config.node_mut_chance >= 100 ==> child.size() == parent.size() + 1,
{
    let draws = choose|draws: Draws| #[trigger] bred_by(parent, child, draws, config, perturb);
    let mid = choose|mid: GenomeView| #[trigger]
        edge_stage(parent, mid, draws, config, perturb) && child == node_stage(
            mid,
            draws,
            config,
        );
    if fires(config.edge_mut_chance, draws.edge_roll) {
        let row = picked(draws.edge_row, parent.size());
        let col = picked(draws.edge_col, parent.size());
        assert(0 <= row < parent.size() && 0 <= col < parent.size());
        let weight = choose|weight: u32|
            {
                &&& #[trigger] call_ensures(
                    perturb,
                    (parent.weights[row][col], config.edge_mut_strength, draws.edge_bits),
                    weight,
                )
                &&& mid == parent.with_weight(row, col, weight)
            };
        assert(mid.size() == parent.size());
    }
}

/// With both chances at zero, an offspring has the genome of its parent, cell
/// for cell, whatever the generator yields.
pub proof fn lemma_idle_reproduction<F: Fn(u32, u32, u32) -> u32>(
    parent: GenomeView,
    child: GenomeView,
    config: Config,
    perturb: F,
)
    requires
        offspring_of(parent, child, config, perturb),
        config.edge_mut_chance == 0,
        config.node_mut_chance == 0,
    ensures
        child == parent,
{
    let draws = choose|draws: Draws| #[trigger] bred_by(parent, child, draws, config, perturb);
    assert(!fires(config.edge_mut_chance, draws.edge_roll));
    assert(!fires(config.node_mut_chance, draws.node_roll));
}

} // verus!
