//! Discrete-time simulation of an individual, and its scoring.
//!
//! Single-precision arithmetic is the caller's: the matrix-vector product, the
//! distance between two vectors and the sum of two numbers are handed in as
//! functions on bit patterns. What this module fixes is the order in which
//! they are called, on what, and what happens to their answers.

use crate::data::{TestSet, TestSetView};
use crate::error::{fails_with, Error};
use crate::genome::GenomeView;
use crate::individual::{driven, outputs, rectified, resting, settled, Individual};
use crate::storage::{zero_matrix, ZERO};
use vstd::prelude::*;

verus! {

/// Whether `product` always answers with one entry per row of the matrix.
pub open spec fn dimensioned<P: Fn(&Vec<Vec<u32>>, &Vec<u32>) -> Vec<u32>>(product: P) -> bool {
    forall|rows: Vec<Vec<u32>>, state: Vec<u32>, answer: Vec<u32>|
        #[trigger] call_ensures(product, (&rows, &state), answer) ==> answer@.len() == rows@.len()
}

/// Whether one tick with the given inputs can lead from the state `before` to
/// the state `after`: the inputs are fed, `product` answers for the weights
/// and the fed state, and its answer is rectified at every node that is no
/// input.
pub open spec fn ticked<P: Fn(&Vec<Vec<u32>>, &Vec<u32>) -> Vec<u32>>(
    genome: GenomeView,
    before: Seq<u32>,
    inputs: Seq<u32>,
    after: Seq<u32>,
    product: P,
) -> bool {
    exists|rows: Vec<Vec<u32>>, fed: Vec<u32>, answer: Vec<u32>|
        {
            &&& rows.deep_view() == genome.weights
            &&& fed@ == driven(before, inputs)
            &&& #[trigger] call_ensures(product, (&rows, &fed), answer)
            &&& answer@.len() == genome.size()
            &&& after == settled(answer@, genome.n_in)
        }
}

/// Whether `ticks` ticks with the same inputs can lead from `before` to
/// `after`.
pub open spec fn run<P: Fn(&Vec<Vec<u32>>, &Vec<u32>) -> Vec<u32>>(
    genome: GenomeView,
    before: Seq<u32>,
    inputs: Seq<u32>,
    ticks: nat,
    after: Seq<u32>,
    product: P,
) -> bool
    decreases ticks,
{
    if ticks == 0 {
        after == before
    } else {
        exists|mid: Seq<u32>|
            run(genome, before, inputs, (ticks - 1) as nat, mid, product) && #[trigger] ticked(
                genome,
                mid,
                inputs,
                after,
                product,
            )
    }
}

/// Whether scoring the first `samples` samples of `data`, each for `ticks`
/// ticks and starting from rest, can leave the state `state` and the sum
/// `total`.
///
/// The state carries over from one sample to the next. After each sample,
/// `distance` answers for the outputs and the expected outputs, and `sum`
/// answers for the sum so far and that distance.
pub open spec fn scored<
    P: Fn(&Vec<Vec<u32>>, &Vec<u32>) -> Vec<u32>,
    D: Fn(&Vec<u32>, &Vec<u32>) -> u32,
    A: Fn(u32, u32) -> u32,
>(
    genome: GenomeView,
    data: TestSetView,
    samples: nat,
    ticks: nat,
    state: Seq<u32>,
    total: u32,
    product: P,
    distance: D,
    sum: A,
) -> bool
    decreases samples,
{
    if samples == 0 {
        state == resting(genome.size()) && total == ZERO
    } else {
        exists|before: Seq<u32>, subtotal: u32, out: Vec<u32>, expected: Vec<u32>, miss: u32|
            #![trigger
                run(genome, before, data.inputs[samples - 1], ticks, state, product),
                call_ensures(distance, (&out, &expected), miss),
                call_ensures(sum, (subtotal, miss), total)]
            {
                &&& scored(
                    genome,
                    data,
                    (samples - 1) as nat,
                    ticks,
                    before,
                    subtotal,
                    product,
                    distance,
                    sum,
                )
                &&& run(genome, before, data.inputs[samples - 1], ticks, state, product)
                &&& out@ == outputs(state, genome.n_out)
                &&& expected@ == data.outputs[samples - 1]
                &&& call_ensures(distance, (&out, &expected), miss)
                &&& call_ensures(sum, (subtotal, miss), total)
            }
    }
}

/// Whether `product` answers for a matrix of zeros with nothing that
/// survives the rectifier: zeros of either sign, or values that are no
/// numbers.
pub open spec fn silent_on_zeros<P: Fn(&Vec<Vec<u32>>, &Vec<u32>) -> Vec<u32>>(
    product: P,
) -> bool {
    forall|rows: Vec<Vec<u32>>, state: Vec<u32>, answer: Vec<u32>, i: int|
        {
            &&& #[trigger] call_ensures(product, (&rows, &state), answer)
            &&& rows.deep_view() == zero_matrix(rows@.len())
            &&& 0 <= i < answer@.len()
        } ==> rectified(#[trigger] answer@[i]) == ZERO
}

/// Whether `distance` finds none between a vector and itself.
pub open spec fn exact_distance<D: Fn(&Vec<u32>, &Vec<u32>) -> u32>(distance: D) -> bool {
    forall|out: Vec<u32>, expected: Vec<u32>, miss: u32|
        #[trigger] call_ensures(distance, (&out, &expected), miss) && out@ == expected@ ==> miss
            == ZERO
}

/// Whether `sum` adds zero and zero to zero.
pub open spec fn exact_sum<A: Fn(u32, u32) -> u32>(sum: A) -> bool {
    forall|total: u32| #[trigger] call_ensures(sum, (ZERO, ZERO), total) ==> total == ZERO
}

/// Whether the network, settled on any sample of `data` from any state,
/// gives exactly the outputs expected for that sample.
pub open spec fn answers_exactly<P: Fn(&Vec<Vec<u32>>, &Vec<u32>) -> Vec<u32>>(
    genome: GenomeView,
    data: TestSetView,
    ticks: nat,
    product: P,
) -> bool {
    forall|k: int, before: Seq<u32>, state: Seq<u32>|
        0 <= k < data.len() && #[trigger] run(
            genome,
            before,
            data.inputs[k],
            ticks,
            state,
            product,
        ) ==> outputs(state, genome.n_out) == data.outputs[k]
}

/// A genome without connections is silent: after at least one tick, on any
/// inputs and from any state, every output is zero, provided the product
/// with a matrix of zeros is.
pub proof fn lemma_blank_genome_is_silent<P: Fn(&Vec<Vec<u32>>, &Vec<u32>) -> Vec<u32>>(
    genome: GenomeView,
    before: Seq<u32>,
    inputs: Seq<u32>,
    ticks: nat,
    after: Seq<u32>,
    product: P,
)
    requires
        genome.wf(),
        genome.weights == zero_matrix(genome.size()),
        silent_on_zeros(product),
        ticks >= 1,
        run(genome, before, inputs, ticks, after, product),
    ensures
        outputs(after, genome.n_out) == resting(genome.n_out),
{
    let mid = choose|mid: Seq<u32>|
        run(genome, before, inputs, (ticks - 1) as nat, mid, product) && #[trigger] ticked(
            genome,
            mid,
            inputs,
            after,
            product,
        );
    let (rows, fed, answer) = choose|rows: Vec<Vec<u32>>, fed: Vec<u32>, answer: Vec<u32>|
        {
            &&& rows.deep_view() == genome.weights
            &&& fed@ == driven(mid, inputs)
            &&& #[trigger] call_ensures(product, (&rows, &fed), answer)
            &&& answer@.len() == genome.size()
            &&& after == settled(answer@, genome.n_in)
        };
    assert(rows@.len() == rows.deep_view().len());
    assert forall|i: int| 0 <= i < genome.n_out implies outputs(after, genome.n_out)[i]
        == ZERO by {
        let at = genome.size() - genome.n_out + i;
        assert(after[at] == rectified(answer@[at]));
    }
    assert(outputs(after, genome.n_out) =~= resting(genome.n_out));
}

/// A network that answers every sample exactly has fitness zero, provided
/// the distance between equal vectors is zero and zero plus zero is zero.
pub proof fn lemma_exact_answers_score_zero<
    P: Fn(&Vec<Vec<u32>>, &Vec<u32>) -> Vec<u32>,
    D: Fn(&Vec<u32>, &Vec<u32>) -> u32,
    A: Fn(u32, u32) -> u32,
>(
    genome: GenomeView,
    data: TestSetView,
    samples: nat,
    ticks: nat,
    state: Seq<u32>,
    total: u32,
    product: P,
    distance: D,
    sum: A,
)
    requires
        samples <= data.len(),
        answers_exactly(genome, data, ticks, product),
        exact_distance(distance),
        exact_sum(sum),
        scored(genome, data, samples, ticks, state, total, product, distance, sum),
    ensures
        total == ZERO,
    decreases samples,
{
    if samples > 0 {
        let (before, subtotal, out, expected, miss) = choose|
            before: Seq<u32>,
            subtotal: u32,
            out: Vec<u32>,
            expected: Vec<u32>,
            miss: u32,
        |
            #![trigger
                run(genome, before, data.inputs[samples - 1], ticks, state, product),
                call_ensures(distance, (&out, &expected), miss),
                call_ensures(sum, (subtotal, miss), total)]
            {
                &&& scored(
                    genome,
                    data,
                    (samples - 1) as nat,
                    ticks,
                    before,
                    subtotal,
                    product,
                    distance,
                    sum,
                )
                &&& run(genome, before, data.inputs[samples - 1], ticks, state, product)
                &&& out@ == outputs(state, genome.n_out)
                &&& expected@ == data.outputs[samples - 1]
                &&& call_ensures(distance, (&out, &expected), miss)
                &&& call_ensures(sum, (subtotal, miss), total)
            };
        lemma_exact_answers_score_zero(
            genome,
            data,
            (samples - 1) as nat,
            ticks,
            before,
            subtotal,
            product,
            distance,
            sum,
        );
    }
}

/// A run followed by one more tick is a run of one more tick.
proof fn lemma_run_extends<P: Fn(&Vec<Vec<u32>>, &Vec<u32>) -> Vec<u32>>(
    genome: GenomeView,
    before: Seq<u32>,
    inputs: Seq<u32>,
    ticks: nat,
    mid: Seq<u32>,
    after: Seq<u32>,
    product: P,
)
    requires
        run(genome, before, inputs, ticks, mid, product),
        ticked(genome, mid, inputs, after, product),
    ensures
        run(genome, before, inputs, ticks + 1, after, product),
{
    assert(run(genome, before, inputs, ((ticks + 1) - 1) as nat, mid, product));
}

/// A scoring pass followed by one more sample is a pass over one more sample.
proof fn lemma_scored_extends<
    P: Fn(&Vec<Vec<u32>>, &Vec<u32>) -> Vec<u32>,
    D: Fn(&Vec<u32>, &Vec<u32>) -> u32,
    A: Fn(u32, u32) -> u32,
>(
    genome: GenomeView,
    data: TestSetView,
    samples: nat,
    ticks: nat,
    before: Seq<u32>,
    subtotal: u32,
    state: Seq<u32>,
    out: Vec<u32>,
    expected: Vec<u32>,
    miss: u32,
    total: u32,
    product: P,
    distance: D,
    sum: A,
)
    requires
        samples < data.inputs.len(),
        samples < data.outputs.len(),
        scored(genome, data, samples, ticks, before, subtotal, product, distance, sum),
        run(genome, before, data.inputs[samples as int], ticks, state, product),
        out@ == outputs(state, genome.n_out),
        expected@ == data.outputs[samples as int],
        call_ensures(distance, (&out, &expected), miss),
        call_ensures(sum, (subtotal, miss), total),
    ensures
        scored(genome, data, samples + 1, ticks, state, total, product, distance, sum),
{
    assert(scored(
        genome,
        data,
        ((samples + 1) - 1) as nat,
        ticks,
        before,
        subtotal,
        product,
        distance,
        sum,
    ));
}

impl Individual {
    /// One tick: the inputs overwrite the activations of the input nodes,
    /// `product` multiplies the weight matrix by that state, and the answer,
    /// rectified at every node that is no input, is the new state. Returns
    /// the activations of the output nodes.
    ///
    /// Fails with `InvalidInput` unless there is one input per input node
    /// and `product` answers with one entry per node. In the first case
    /// nothing has changed, in the second the inputs have been fed.
    pub fn step<P: Fn(&Vec<Vec<u32>>, &Vec<u32>) -> Vec<u32>>(
        &mut self,
        inputs: &Vec<u32>,
        product: &P,
    ) -> (outcome: Result<Vec<u32>, Error>)
        requires
            old(self).wf(),
            forall|rows: Vec<Vec<u32>>, state: Vec<u32>|
                rows@.len() == state@.len() ==> call_requires(*product, (&rows, &state)),
        ensures
            final(self).wf(),
            final(self)@.genome == old(self)@.genome,
            inputs@.len() != old(self)@.genome.n_in ==> final(self)@ == old(self)@,
            inputs@.len() == old(self)@.genome.n_in && dimensioned(*product) ==> outcome is Ok,
            outcome is Ok ==> inputs@.len() == old(self)@.genome.n_in,
            outcome is Err ==> fails_with(outcome, Error::InvalidInput),
            outcome matches Ok(out) ==> {
                &&& ticked(old(self)@.genome, old(self)@.state, inputs@, final(self)@.state, *product)
                &&& out@ == outputs(final(self)@.state, old(self)@.genome.n_out)
            },
            outcome is Err && inputs@.len() == old(self)@.genome.n_in ==> final(self)@.state
                == driven(old(self)@.state, inputs@),
    {
        let rows = self.genome().rows();
        self.tick(&rows, inputs, product)
    }

    /// Lets the network settle on `inputs`: `multiplier` ticks per node, all
    /// with the same inputs. Returns the outputs of the last tick.
    ///
    /// Fails with `InvalidConfig` if `multiplier` is zero, and otherwise with
    /// `InvalidInput` unless there is one input per input node and `product`
    /// answers with one entry per node.
    pub fn eval_steady_state<P: Fn(&Vec<Vec<u32>>, &Vec<u32>) -> Vec<u32>>(
        &mut self,
        inputs: &Vec<u32>,
        multiplier: usize,
        product: &P,
    ) -> (outcome: Result<Vec<u32>, Error>)
        requires
            old(self).wf(),
            multiplier * old(self)@.genome.size() <= usize::MAX,
            forall|rows: Vec<Vec<u32>>, state: Vec<u32>|
                rows@.len() == state@.len() ==> call_requires(*product, (&rows, &state)),
        ensures
            final(self).wf(),
            final(self)@.genome == old(self)@.genome,
            multiplier == 0 ==> fails_with(outcome, Error::InvalidConfig),
            multiplier > 0 && inputs@.len() != old(self)@.genome.n_in ==> fails_with(
                outcome,
                Error::InvalidInput,
            ),
            multiplier == 0 || inputs@.len() != old(self)@.genome.n_in ==> final(self)@ == old(
                self,
            )@,
            multiplier > 0 && inputs@.len() == old(self)@.genome.n_in ==> {
                &&& dimensioned(*product) ==> outcome is Ok
                &&& outcome is Err ==> fails_with(outcome, Error::InvalidInput)
            },
            outcome matches Ok(out) ==> {
                &&& run(
                    old(self)@.genome,
                    old(self)@.state,
                    inputs@,
                    (multiplier * old(self)@.genome.size()) as nat,
                    final(self)@.state,
                    *product,
                )
                &&& out@ == outputs(final(self)@.state, old(self)@.genome.n_out)
            },
    {
        if multiplier == 0 {
            return Err(Error::InvalidConfig);
        }
        let size = self.genome().size();
        assert(multiplier * size >= 1) by (nonlinear_arith)
            requires
                multiplier >= 1,
                size >= 1,
        ;
        let rows = self.genome().rows();
        self.run_ticks(&rows, inputs, multiplier * size, product)
    }

    /// The fitness of the individual on `data`: starting from rest, the
    /// network settles on each sample in turn, and the distances between its
    /// outputs and the expected ones are summed up. Lower is better.
    ///
    /// The state is not put back to rest between samples. Fails with
    /// `InvalidConfig` if `multiplier` is zero, else with the verdict on the
    /// dataset if that is an error, else with `InvalidInput` if `product`
    /// does not answer with one entry per node.
    pub fn test_steady_state<
        P: Fn(&Vec<Vec<u32>>, &Vec<u32>) -> Vec<u32>,
        D: Fn(&Vec<u32>, &Vec<u32>) -> u32,
        A: Fn(u32, u32) -> u32,
    >(
        &mut self,
        data: &TestSet,
        multiplier: usize,
        product: &P,
        distance: &D,
        sum: &A,
    ) -> (outcome: Result<u32, Error>)
        requires
            old(self).wf(),
            multiplier * old(self)@.genome.size() <= usize::MAX,
            forall|rows: Vec<Vec<u32>>, state: Vec<u32>|
                rows@.len() == state@.len() ==> call_requires(*product, (&rows, &state)),
            forall|out: Vec<u32>, expected: Vec<u32>|
                out@.len() == expected@.len() ==> call_requires(*distance, (&out, &expected)),
            forall|total: u32, miss: u32| call_requires(*sum, (total, miss)),
        ensures
            final(self).wf(),
            final(self)@.genome == old(self)@.genome,
            multiplier == 0 ==> fails_with(outcome, Error::InvalidConfig),
            multiplier > 0 ==> (data@.verdict(old(self)@.genome.n_in, old(self)@.genome.n_out)
                matches Err(e) ==> fails_with(outcome, e)),
            multiplier == 0 || data@.verdict(old(self)@.genome.n_in, old(self)@.genome.n_out) is Err
                ==> final(self)@ == old(self)@,
            multiplier > 0 && data@.verdict(old(self)@.genome.n_in, old(self)@.genome.n_out) is Ok
                ==> {
                &&& dimensioned(*product) ==> outcome is Ok
                &&& outcome is Err ==> fails_with(outcome, Error::InvalidInput)
            },
            outcome matches Ok(total) ==> scored(
                old(self)@.genome,
                data@,
                data@.len(),
                (multiplier * old(self)@.genome.size()) as nat,
                final(self)@.state,
                total,
                *product,
                *distance,
                *sum,
            ),
    {
        if multiplier == 0 {
            return Err(Error::InvalidConfig);
        }
        let n_in = self.genome().n_in;
        let n_out = self.genome().n_out;
        match data.validate(n_in, n_out) {
            Err(e) => {
                return Err(e);
            },
            Ok(()) => {},
        }
        let size = self.genome().size();
        assert(multiplier * size >= 1) by (nonlinear_arith)
            requires
                multiplier >= 1,
                size >= 1,
        ;
        let ticks = multiplier * size;
        let rows = self.genome().rows();
        self.reset();
        let mut total = ZERO;
        let mut k: usize = 0;
        while k < data.inputs.len()
            invariant
                k <= data.inputs.len(),
                data@.verdict(n_in as nat, n_out as nat) is Ok,
                n_in == old(self)@.genome.n_in,
                n_out == old(self)@.genome.n_out,
                ticks >= 1,
                ticks == multiplier * old(self)@.genome.size(),
                self.wf(),
                self@.genome == old(self)@.genome,
                rows.deep_view() == self@.genome.weights,
                scored(
                    self@.genome,
                    data@,
                    k as nat,
                    ticks as nat,
                    self@.state,
                    total,
                    *product,
                    *distance,
                    *sum,
                ),
                forall|rows: Vec<Vec<u32>>, state: Vec<u32>|
                    rows@.len() == state@.len() ==> call_requires(*product, (&rows, &state)),
                forall|out: Vec<u32>, expected: Vec<u32>|
                    out@.len() == expected@.len() ==> call_requires(*distance, (&out, &expected)),
                forall|total: u32, miss: u32| call_requires(*sum, (total, miss)),
            decreases data.inputs.len() - k,
        {
            let ghost before = self@.state;
            let ghost subtotal = total;
            assert(data@.inputs[k as int] == data.inputs@[k as int]@);
            assert(data@.outputs[k as int] == data.outputs@[k as int]@);
            let out = match self.run_ticks(&rows, &data.inputs[k], ticks, product) {
                Ok(out) => out,
                Err(e) => {
                    return Err(e);
                },
            };
            let expected = &data.outputs[k];
            let miss = distance(&out, expected);
            total = sum(total, miss);
            proof {
                lemma_scored_extends(
                    self@.genome,
                    data@,
                    k as nat,
                    ticks as nat,
                    before,
                    subtotal,
                    self@.state,
                    out,
                    *expected,
                    miss,
                    total,
                    *product,
                    *distance,
                    *sum,
                );
            }
            k += 1;
        }
        Ok(total)
    }

    /// At least one tick, all with the same inputs, on the weights already
    /// read out of the genome.
    fn run_ticks<P: Fn(&Vec<Vec<u32>>, &Vec<u32>) -> Vec<u32>>(
        &mut self,
        rows: &Vec<Vec<u32>>,
        inputs: &Vec<u32>,
        ticks: usize,
        product: &P,
    ) -> (outcome: Result<Vec<u32>, Error>)
        requires
            old(self).wf(),
            ticks >= 1,
            rows.deep_view() == old(self)@.genome.weights,
            forall|rows: Vec<Vec<u32>>, state: Vec<u32>|
                rows@.len() == state@.len() ==> call_requires(*product, (&rows, &state)),
        ensures
            final(self).wf(),
            final(self)@.genome == old(self)@.genome,
            inputs@.len() != old(self)@.genome.n_in ==> final(self)@ == old(self)@,
            inputs@.len() == old(self)@.genome.n_in && dimensioned(*product) ==> outcome is Ok,
            outcome is Ok ==> inputs@.len() == old(self)@.genome.n_in,
            outcome is Err ==> fails_with(outcome, Error::InvalidInput),
            outcome matches Ok(out) ==> {
                &&& run(
                    old(self)@.genome,
                    old(self)@.state,
                    inputs@,
                    ticks as nat,
                    final(self)@.state,
                    *product,
                )
                &&& out@ == outputs(final(self)@.state, old(self)@.genome.n_out)
            },
    {
        let mut out = match self.tick(rows, inputs, product) {
            Ok(out) => out,
            Err(e) => {
                return Err(e);
            },
        };
        proof {
            lemma_run_extends(
                old(self)@.genome,
                old(self)@.state,
                inputs@,
                0,
                old(self)@.state,
                self@.state,
                *product,
            );
        }
        let mut done: usize = 1;
        while done < ticks
            invariant
                1 <= done <= ticks,
                self.wf(),
                self@.genome == old(self)@.genome,
                inputs@.len() == self@.genome.n_in,
                rows.deep_view() == self@.genome.weights,
                run(old(self)@.genome, old(self)@.state, inputs@, done as nat, self@.state, *product),
                out@ == outputs(self@.state, self@.genome.n_out),
                forall|rows: Vec<Vec<u32>>, state: Vec<u32>|
                    rows@.len() == state@.len() ==> call_requires(*product, (&rows, &state)),
            decreases ticks - done,
        {
            let ghost mid = self@.state;
            out = match self.tick(rows, inputs, product) {
                Ok(out) => out,
                Err(e) => {
                    return Err(e);
                },
            };
            proof {
                lemma_run_extends(
                    old(self)@.genome,
                    old(self)@.state,
                    inputs@,
                    done as nat,
                    mid,
                    self@.state,
                    *product,
                );
            }
            done += 1;
        }
        Ok(out)
    }

    /// One tick on the weights already read out of the genome.
    fn tick<P: Fn(&Vec<Vec<u32>>, &Vec<u32>) -> Vec<u32>>(
        &mut self,
        rows: &Vec<Vec<u32>>,
        inputs: &Vec<u32>,
        product: &P,
    ) -> (outcome: Result<Vec<u32>, Error>)
        requires
            old(self).wf(),
            rows.deep_view() == old(self)@.genome.weights,
            forall|rows: Vec<Vec<u32>>, state: Vec<u32>|
                rows@.len() == state@.len() ==> call_requires(*product, (&rows, &state)),
        ensures
            final(self).wf(),
            final(self)@.genome == old(self)@.genome,
            inputs@.len() != old(self)@.genome.n_in ==> final(self)@ == old(self)@,
            inputs@.len() == old(self)@.genome.n_in && dimensioned(*product) ==> outcome is Ok,
            outcome is Ok ==> inputs@.len() == old(self)@.genome.n_in,
            outcome is Err ==> fails_with(outcome, Error::InvalidInput),
            outcome matches Ok(out) ==> {
                &&& ticked(old(self)@.genome, old(self)@.state, inputs@, final(self)@.state, *product)
                &&& out@ == outputs(final(self)@.state, old(self)@.genome.n_out)
            },
            outcome is Err && inputs@.len() == old(self)@.genome.n_in ==> final(self)@.state
                == driven(old(self)@.state, inputs@),
    {
        match self.feed(inputs) {
            Err(e) => {
                return Err(e);
            },
            Ok(()) => {},
        }
        let fed = self.state();
        let answer = product(rows, &fed);
        assert(call_ensures(*product, (rows, &fed), answer));
        self.settle(&answer)
    }
}

} // verus!
