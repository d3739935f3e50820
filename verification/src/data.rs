//! Labelled samples for a supervised task.

use crate::error::Error;
use vstd::prelude::*;

verus! {

/// A dataset: `inputs[k]` is to be answered by `outputs[k]`. Every number is
/// given by its single-precision bit pattern.
pub struct TestSet {
    pub inputs: Vec<Vec<u32>>,
    pub outputs: Vec<Vec<u32>>,
}

/// What a dataset is: its inputs and the outputs expected for them.
pub struct TestSetView {
    pub inputs: Seq<Seq<u32>>,
    pub outputs: Seq<Seq<u32>>,
}

impl TestSetView {
    /// Number of samples.
    pub open spec fn len(self) -> nat {
        self.inputs.len()
    }

    /// Whether every input has an output.
    pub open spec fn paired(self) -> bool {
        self.inputs.len() == self.outputs.len()
    }

    /// Whether every sample has `n_in` inputs and `n_out` outputs.
    pub open spec fn shaped(self, n_in: nat, n_out: nat) -> bool {
        &&& forall|k: int| 0 <= k < self.inputs.len() ==> (#[trigger] self.inputs[k]).len() == n_in
        &&& forall|k: int|
            0 <= k < self.outputs.len() ==> (#[trigger] self.outputs[k]).len() == n_out
    }

    /// The verdict on a dataset offered to a genome of `n_in` inputs and
    /// `n_out` outputs. An unpaired or ill-shaped dataset is `InvalidInput`;
    /// one that is well formed but empty is `NoData`.
    pub open spec fn verdict(self, n_in: nat, n_out: nat) -> Result<(), Error> {
        if !self.paired() || !self.shaped(n_in, n_out) {
            Err(Error::InvalidInput)
        } else if self.len() == 0 {
            Err(Error::NoData)
        } else {
            Ok(())
        }
    }
}

impl View for TestSet {
    type V = TestSetView;

    open spec fn view(&self) -> TestSetView {
        TestSetView { inputs: self.inputs.deep_view(), outputs: self.outputs.deep_view() }
    }
}

/// Whether every vector of `vectors` has `len` entries.
fn all_have_len(vectors: &Vec<Vec<u32>>, len: usize) -> (all: bool)
    ensures
        all <==> forall|k: int|
            0 <= k < vectors.deep_view().len() ==> (#[trigger] vectors.deep_view()[k]).len() == len,
{
    let mut k: usize = 0;
    while k < vectors.len()
        invariant
            k <= vectors.len(),
            forall|j: int| 0 <= j < k ==> (#[trigger] vectors.deep_view()[j]).len() == len,
        decreases vectors.len() - k,
    {
        if vectors[k].len() != len {
            assert(vectors.deep_view()[k as int] == vectors@[k as int]@);
            return false;
        }
        assert(vectors.deep_view()[k as int] == vectors@[k as int]@);
        k += 1;
    }
    true
}

impl TestSet {
    /// Number of samples.
    pub fn len(&self) -> (n: usize)
        ensures
            n == self@.len(),
    {
        self.inputs.len()
    }

    /// Checks the dataset against a genome of `n_in` inputs and `n_out`
    /// outputs.
    pub fn validate(&self, n_in: usize, n_out: usize) -> (outcome: Result<(), Error>)
        ensures
            outcome == self@.verdict(n_in as nat, n_out as nat),
    {
        if self.inputs.len() != self.outputs.len() {
            return Err(Error::InvalidInput);
        }
        if !all_have_len(&self.inputs, n_in) || !all_have_len(&self.outputs, n_out) {
            return Err(Error::InvalidInput);
        }
        if self.inputs.len() == 0 {
            return Err(Error::NoData);
        }
        Ok(())
    }
}

} // verus!
