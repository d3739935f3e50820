use nalgebra::{DMatrix, DVector};
use neat::data::TestSet;
use neat::error::Error;
use neat::genome::Genome;
use neat::individual::{mutation_fires, rectify, Individual};
use neat::storage::ZERO;

fn bits(x: f32) -> u32 {
    x.to_bits()
}

fn all_bits(xs: &[f32]) -> Vec<u32> {
    xs.iter().map(|x| x.to_bits()).collect()
}

fn floats(xs: &[u32]) -> Vec<f32> {
    xs.iter().map(|x| f32::from_bits(*x)).collect()
}

fn product(rows: &Vec<Vec<u32>>, state: &Vec<u32>) -> Vec<u32> {
    let n = rows.len();
    let weights = DMatrix::from_fn(n, n, |r, c| f32::from_bits(rows[r][c]));
    let state = DVector::from_iterator(state.len(), state.iter().map(|x| f32::from_bits(*x)));
    (weights * state).iter().map(|x| x.to_bits()).collect()
}

fn distance(out: &Vec<u32>, expected: &Vec<u32>) -> u32 {
    let out = DVector::from_iterator(out.len(), out.iter().map(|x| f32::from_bits(*x)));
    let expected =
        DVector::from_iterator(expected.len(), expected.iter().map(|x| f32::from_bits(*x)));
    (out - expected).norm_squared().to_bits()
}

fn sum(total: u32, miss: u32) -> u32 {
    (f32::from_bits(total) + f32::from_bits(miss)).to_bits()
}

fn short_product(rows: &Vec<Vec<u32>>, _state: &Vec<u32>) -> Vec<u32> {
    vec![ZERO; rows.len() - 1]
}

fn dataset(samples: &[(&[f32], &[f32])]) -> TestSet {
    TestSet {
        inputs: samples.iter().map(|(i, _)| all_bits(i)).collect(),
        outputs: samples.iter().map(|(_, o)| all_bits(o)).collect(),
    }
}

#[test]
fn rectifier_agrees_with_max_of_zero() {
    let samples = [
        0.0f32,
        -0.0,
        1.0,
        -1.0,
        3.5e-39,
        -3.5e-39,
        f32::MAX,
        f32::MIN,
        f32::MIN_POSITIVE,
        f32::INFINITY,
        f32::NEG_INFINITY,
        123.456,
        -123.456,
    ];
    for x in samples {
        let r = f32::from_bits(rectify(x.to_bits()));
        assert_eq!(r, x.max(0.0));
        assert!(r.is_sign_positive());
    }
    assert_eq!(rectify(f32::NAN.to_bits()), ZERO);
    assert_eq!(rectify((-f32::NAN).to_bits()), ZERO);
    assert_eq!(rectify(bits(2.0)), bits(2.0));
    assert_eq!(rectify(bits(-2.0)), ZERO);
}

#[test]
fn mutation_fires_compares_the_roll_modulo_one_hundred() {
    assert!(!mutation_fires(0, 0));
    assert!(!mutation_fires(0, u64::MAX));
    assert!(mutation_fires(100, 99));
    assert!(mutation_fires(100, u64::MAX));
    assert!(mutation_fires(250, 7));
    assert!(mutation_fires(80, 79));
    assert!(!mutation_fires(80, 80));
    assert!(mutation_fires(80, 179));
    assert!(!mutation_fires(1, 301));
    assert!(mutation_fires(1, 300));
}

#[test]
fn new_individual_is_at_rest() {
    let ind = Individual::new(Genome::new::<2, 1>().split_edge(2, 0));
    assert_eq!(ind.state(), vec![ZERO; 4]);
    assert_eq!(ind.genome().size(), 4);
}

#[test]
fn feed_overwrites_the_input_entries_only() {
    let mut ind = Individual::new(Genome::new::<2, 2>());
    assert_eq!(ind.settle(&all_bits(&[9.0, 8.0, 7.0, 6.0])).unwrap(), all_bits(&[7.0, 6.0]));
    assert_eq!(ind.feed(&all_bits(&[1.0, -2.0])), Ok(()));
    assert_eq!(ind.state(), all_bits(&[1.0, -2.0, 7.0, 6.0]));
}

#[test]
fn feed_rejects_a_wrong_number_of_inputs() {
    let mut ind = Individual::new(Genome::new::<2, 1>());
    assert_eq!(ind.feed(&all_bits(&[1.0])), Err(Error::InvalidInput));
    assert_eq!(ind.feed(&all_bits(&[1.0, 2.0, 3.0])), Err(Error::InvalidInput));
    assert_eq!(ind.feed(&vec![]), Err(Error::InvalidInput));
    assert_eq!(ind.state(), vec![ZERO; 3]);
}

#[test]
fn settle_rectifies_all_but_the_input_entries() {
    let mut ind = Individual::new(Genome::new::<1, 1>().split_edge(1, 0));
    let out = ind.settle(&all_bits(&[-4.0, -5.0, 6.0])).unwrap();
    assert_eq!(out, all_bits(&[6.0]));
    assert_eq!(ind.state(), all_bits(&[-4.0, 0.0, 6.0]));
    let out = ind.settle(&all_bits(&[1.0, 2.0, -3.0])).unwrap();
    assert_eq!(out, all_bits(&[0.0]));
    assert_eq!(ind.state(), all_bits(&[1.0, 2.0, 0.0]));
}

#[test]
fn settle_rejects_a_product_of_the_wrong_length() {
    let mut ind = Individual::new(Genome::new::<1, 1>());
    ind.feed(&all_bits(&[5.0])).unwrap();
    assert_eq!(ind.settle(&all_bits(&[1.0])), Err(Error::InvalidInput));
    assert_eq!(ind.settle(&all_bits(&[1.0, 2.0, 3.0])), Err(Error::InvalidInput));
    assert_eq!(ind.state(), all_bits(&[5.0, 0.0]));
}

#[test]
fn reset_puts_the_state_back_to_rest() {
    let mut ind = Individual::new(Genome::new::<1, 1>());
    ind.settle(&all_bits(&[1.0, 2.0])).unwrap();
    ind.reset();
    assert_eq!(ind.state(), vec![ZERO; 2]);
}

#[test]
fn step_rejects_a_wrong_number_of_inputs() {
    let mut ind = Individual::new(Genome::new::<2, 1>());
    assert_eq!(ind.step(&all_bits(&[1.0]), &product), Err(Error::InvalidInput));
    assert_eq!(ind.state(), vec![ZERO; 3]);
}

#[test]
fn step_rejects_a_product_of_the_wrong_length() {
    let mut ind = Individual::new(Genome::new::<2, 1>());
    assert_eq!(ind.step(&all_bits(&[1.0, 2.0]), &short_product), Err(Error::InvalidInput));
}

#[test]
fn step_hands_the_weights_and_the_fed_state_to_the_product() {
    let genome = Genome::new::<1, 1>().with_weight(1, 0, bits(2.0)).with_weight(0, 1, bits(5.0));
    let mut ind = Individual::new(genome);
    ind.settle(&all_bits(&[0.0, 4.0])).unwrap();
    let seen = std::cell::RefCell::new(Vec::new());
    let spy = |rows: &Vec<Vec<u32>>, state: &Vec<u32>| -> Vec<u32> {
        seen.borrow_mut().push((rows.clone(), state.clone()));
        product(rows, state)
    };
    let out = ind.step(&all_bits(&[3.0]), &spy).unwrap();
    assert_eq!(floats(&out), vec![6.0]);
    assert_eq!(floats(&ind.state()), vec![20.0, 6.0]);
    let seen = seen.into_inner();
    assert_eq!(seen.len(), 1);
    assert_eq!(seen[0].0, vec![all_bits(&[0.0, 5.0]), all_bits(&[2.0, 0.0])]);
    assert_eq!(seen[0].1, all_bits(&[3.0, 4.0]));
}

#[test]
fn single_edge_doubles_the_input() {
    let genome = Genome::new::<1, 1>().with_weight(1, 0, bits(2.0));
    for multiplier in 1..5 {
        let mut ind = Individual::new(genome.clone());
        let out = ind.eval_steady_state(&all_bits(&[3.0]), multiplier, &product).unwrap();
        assert_eq!(floats(&out), vec![6.0]);
    }
    let mut ind = Individual::new(genome);
    assert_eq!(floats(&ind.step(&all_bits(&[3.0]), &product).unwrap()), vec![6.0]);
}

#[test]
fn blank_genome_is_silent_for_any_input() {
    let inputs: [[f32; 2]; 6] = [
        [0.0, 0.0],
        [1.0, -1.0],
        [-3.5, 1e30],
        [f32::MAX, f32::MIN],
        [f32::INFINITY, f32::NEG_INFINITY],
        [f32::NAN, 1.0],
    ];
    for input in inputs {
        for multiplier in 1..4 {
            let mut ind = Individual::new(Genome::new::<2, 3>());
            let out = ind.eval_steady_state(&all_bits(&input), multiplier, &product).unwrap();
            assert_eq!(out, vec![ZERO; 3]);
        }
        let mut ind = Individual::new(Genome::new::<2, 3>());
        for _ in 0..7 {
            assert_eq!(ind.step(&all_bits(&input), &product).unwrap(), vec![ZERO; 3]);
        }
    }
}

#[test]
fn eval_steady_state_runs_multiplier_ticks_per_node() {
    // A chain input -> hidden -> output needs two ticks to carry a signal.
    let genome = Genome::new::<1, 1>().with_weight(1, 0, bits(1.0)).split_edge(1, 0);
    assert_eq!(genome.size(), 3);
    let calls = std::cell::Cell::new(0usize);
    let counting = |rows: &Vec<Vec<u32>>, state: &Vec<u32>| -> Vec<u32> {
        calls.set(calls.get() + 1);
        product(rows, state)
    };
    let mut ind = Individual::new(genome.clone());
    let out = ind.eval_steady_state(&all_bits(&[4.0]), 2, &counting).unwrap();
    assert_eq!(calls.get(), 6);
    assert_eq!(floats(&out), vec![4.0]);
    // One tick is not enough for the signal to arrive.
    let mut ind = Individual::new(genome);
    assert_eq!(floats(&ind.step(&all_bits(&[4.0]), &product).unwrap()), vec![0.0]);
    assert_eq!(floats(&ind.step(&all_bits(&[4.0]), &product).unwrap()), vec![4.0]);
}

#[test]
fn inserting_a_node_delays_the_signal_by_one_tick() {
    let direct = Genome::new::<1, 1>().with_weight(1, 0, bits(0.5));
    let relayed = direct.split_edge(1, 0);
    let mut a = Individual::new(direct);
    let mut b = Individual::new(relayed);
    assert_eq!(floats(&a.step(&all_bits(&[8.0]), &product).unwrap()), vec![4.0]);
    assert_eq!(floats(&b.step(&all_bits(&[8.0]), &product).unwrap()), vec![0.0]);
    assert_eq!(floats(&b.step(&all_bits(&[8.0]), &product).unwrap()), vec![4.0]);
}

#[test]
fn eval_steady_state_rejects_a_zero_multiplier() {
    let mut ind = Individual::new(Genome::new::<1, 1>());
    assert_eq!(ind.eval_steady_state(&all_bits(&[1.0]), 0, &product), Err(Error::InvalidConfig));
    assert_eq!(ind.eval_steady_state(&vec![], 0, &product), Err(Error::InvalidConfig));
    assert_eq!(ind.eval_steady_state(&vec![], 1, &product), Err(Error::InvalidInput));
    assert_eq!(ind.state(), vec![ZERO; 2]);
}

#[test]
fn identity_network_scores_zero() {
    let genome = Genome::new::<2, 2>().with_weight(2, 0, bits(1.0)).with_weight(3, 1, bits(1.0));
    let data = dataset(&[
        (&[0.0, 0.0], &[0.0, 0.0]),
        (&[1.0, 2.0], &[1.0, 2.0]),
        (&[0.25, 7.5], &[0.25, 7.5]),
    ]);
    let mut ind = Individual::new(genome);
    let score = ind.test_steady_state(&data, 2, &product, &distance, &sum).unwrap();
    assert_eq!(f32::from_bits(score), 0.0);
}

#[test]
fn score_is_the_sum_of_squared_distances() {
    // Output = 2 * input. Expected outputs are off by 1 and by 3.
    let genome = Genome::new::<1, 1>().with_weight(1, 0, bits(2.0));
    let data = dataset(&[(&[1.0], &[3.0]), (&[2.0], &[1.0])]);
    let mut ind = Individual::new(genome);
    let score = ind.test_steady_state(&data, 2, &product, &distance, &sum).unwrap();
    assert_eq!(f32::from_bits(score), 1.0 + 9.0);
}

#[test]
fn score_starts_from_rest_and_carries_state_across_samples() {
    // The output remembers itself: out' = out + in.
    let genome = Genome::new::<1, 1>().with_weight(1, 0, bits(1.0)).with_weight(1, 1, bits(1.0));
    let data = dataset(&[(&[1.0], &[0.0]), (&[0.0], &[0.0])]);
    let mut ind = Individual::new(genome);
    // Leftover state must not leak into the score.
    ind.settle(&all_bits(&[0.0, 100.0])).unwrap();
    // Two ticks per sample: out is 1, 2 after the first sample and stays 2
    // through the second, so the score is 2^2 + 2^2.
    let score = ind.test_steady_state(&data, 1, &product, &distance, &sum).unwrap();
    assert_eq!(f32::from_bits(score), 8.0);
    assert_eq!(floats(&ind.state()), vec![0.0, 2.0]);
    // Scoring again gives the same value.
    let again = ind.test_steady_state(&data, 1, &product, &distance, &sum).unwrap();
    assert_eq!(again, score);
}

#[test]
fn score_rejects_bad_datasets_and_leaves_the_state_alone() {
    let mut ind = Individual::new(Genome::new::<2, 1>());
    ind.settle(&all_bits(&[1.0, 2.0, 3.0])).unwrap();
    let empty = dataset(&[]);
    let unpaired = TestSet { inputs: vec![all_bits(&[0.0, 0.0])], outputs: vec![] };
    let wrong_in = dataset(&[(&[0.0, 0.0], &[0.0]), (&[0.0], &[0.0])]);
    let wrong_out = dataset(&[(&[0.0, 0.0], &[0.0, 1.0])]);
    let good = dataset(&[(&[0.0, 0.0], &[0.0])]);
    assert_eq!(ind.test_steady_state(&empty, 2, &product, &distance, &sum), Err(Error::NoData));
    assert_eq!(
        ind.test_steady_state(&unpaired, 2, &product, &distance, &sum),
        Err(Error::InvalidInput)
    );
    assert_eq!(
        ind.test_steady_state(&wrong_in, 2, &product, &distance, &sum),
        Err(Error::InvalidInput)
    );
    assert_eq!(
        ind.test_steady_state(&wrong_out, 2, &product, &distance, &sum),
        Err(Error::InvalidInput)
    );
    assert_eq!(
        ind.test_steady_state(&good, 0, &product, &distance, &sum),
        Err(Error::InvalidConfig)
    );
    assert_eq!(
        ind.test_steady_state(&empty, 0, &product, &distance, &sum),
        Err(Error::InvalidConfig)
    );
    assert_eq!(ind.state(), all_bits(&[1.0, 2.0, 3.0]));
    assert_eq!(
        ind.test_steady_state(&good, 2, &short_product, &distance, &sum),
        Err(Error::InvalidInput)
    );
}

#[test]
fn dataset_verdicts() {
    assert_eq!(dataset(&[]).validate(2, 1), Err(Error::NoData));
    assert_eq!(dataset(&[(&[0.0, 1.0], &[1.0])]).validate(2, 1), Ok(()));
    assert_eq!(dataset(&[(&[0.0, 1.0], &[1.0])]).validate(1, 1), Err(Error::InvalidInput));
    assert_eq!(dataset(&[(&[0.0, 1.0], &[1.0])]).validate(2, 2), Err(Error::InvalidInput));
    let unpaired = TestSet { inputs: vec![], outputs: vec![all_bits(&[1.0])] };
    assert_eq!(unpaired.validate(2, 1), Err(Error::InvalidInput));
    assert_eq!(dataset(&[(&[0.0, 1.0], &[1.0]), (&[1.0, 1.0], &[0.0])]).len(), 2);
}
