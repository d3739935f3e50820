//! Mutation-only evolution of small recurrent networks.
//!
//! A genome is a square matrix of weights over input, hidden and output
//! nodes. An individual runs its genome as a discrete-time recurrent network,
//! and a population selects the fittest individuals and breeds the next
//! generation from them by mutation alone.
//!
//! Every weight, activation and fitness value is the bit pattern of an IEEE
//! 754 single-precision number. The library moves and compares bit patterns;
//! the arithmetic on them is handed in by the caller.

pub mod config;
pub mod data;
pub mod error;
pub mod fitness;
pub mod genepool;
pub mod genome;
pub mod individual;
pub mod population;
pub mod random;
pub mod simulation;
pub mod storage;

pub use config::Config;
pub use data::TestSet;
pub use error::Error;
pub use genepool::{Expressible, GenePool};
pub use genome::Genome;
pub use individual::Individual;
pub use population::{Evaluation, GenerationStats, Mean, Population};
