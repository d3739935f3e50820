//! Tunable parameters of a run.

use crate::error::Error;
use vstd::prelude::*;

verus! {

/// The parameters of a run.
#[derive(Clone, Copy, Debug)]
pub struct Config {
    /// Number of generations that the driver runs.
    pub num_generations: usize,
    /// Number of individuals in every generation.
    pub n_pop: usize,
    /// Number of fittest individuals that reproduce.
    pub n_fittest_reproduce: usize,
    /// Chance, in percent, that an offspring has one edge perturbed.
    pub edge_mut_chance: u32,
    /// Largest size of an edge perturbation, as the bit pattern of a
    /// single-precision number.
    pub edge_mut_strength: u32,
    /// Chance, in percent, that an offspring gets a new hidden node.
    pub node_mut_chance: u32,
    /// Ticks run per sample, for each node of the genome.
    pub steady_state_eval_steps_multiplier: usize,
}

impl Default for Config {
    /// The parameters used when none are given. The edge strength is the bit
    /// pattern of one tenth.
    fn default() -> (config: Config)
        ensures
            config.valid(),
            config.num_generations == 1000,
            config.n_pop == 100,
            config.n_fittest_reproduce == 20,
            config.edge_mut_chance == 80,
            config.edge_mut_strength == 0x3DCC_CCCD,
            config.node_mut_chance == 1,
            config.steady_state_eval_steps_multiplier == 2,
    {
        Config {
            num_generations: 1000,
            n_pop: 100,
            n_fittest_reproduce: 20,
            edge_mut_chance: 80,
            edge_mut_strength: 0x3DCC_CCCD,
            node_mut_chance: 1,
            steady_state_eval_steps_multiplier: 2,
        }
    }
}

impl Config {
    /// Whether a run can use these parameters: at least one and at most
    /// `n_pop` individuals reproduce, and at least one tick is run per node.
    pub open spec fn valid(&self) -> bool {
        &&& 0 < self.n_fittest_reproduce <= self.n_pop
        &&& self.steady_state_eval_steps_multiplier >= 1
    }

    /// The given parameters as a configuration, or `InvalidConfig` if no run
    /// can use them.
    pub fn new(
        num_generations: usize,
        n_pop: usize,
        n_fittest_reproduce: usize,
        edge_mut_chance: u32,
        edge_mut_strength: u32,
        node_mut_chance: u32,
        steady_state_eval_steps_multiplier: usize,
    ) -> (outcome: Result<Config, Error>)
        ensures
            outcome is Ok <==> 0 < n_fittest_reproduce <= n_pop
                && steady_state_eval_steps_multiplier >= 1,
            outcome matches Ok(config) ==> config == (Config {
                num_generations,
                n_pop,
                n_fittest_reproduce,
                edge_mut_chance,
                edge_mut_strength,
                node_mut_chance,
                steady_state_eval_steps_multiplier,
            }),
            outcome matches Err(e) ==> e == Error::InvalidConfig,
    {
        let config = Config {
            num_generations,
            n_pop,
            n_fittest_reproduce,
            edge_mut_chance,
            edge_mut_strength,
            node_mut_chance,
            steady_state_eval_steps_multiplier,
        };
        match config.validate() {
            Ok(()) => Ok(config),
            Err(e) => Err(e),
        }
    }

    /// Checks the parameters before any generation runs.
    pub fn validate(&self) -> (outcome: Result<(), Error>)
        ensures
            outcome is Ok <==> self.valid(),
            outcome is Err ==> outcome == Err::<(), Error>(Error::InvalidConfig),
    {
        if 0 < self.n_fittest_reproduce && self.n_fittest_reproduce <= self.n_pop
            && self.steady_state_eval_steps_multiplier >= 1 {
            Ok(())
        } else {
            Err(Error::InvalidConfig)
        }
    }
}

} // verus!
