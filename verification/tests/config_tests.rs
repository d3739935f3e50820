use neat::config::Config;
use neat::error::Error;

#[test]
fn default_config_is_valid() {
    let c = Config::default();
    assert_eq!(c.num_generations, 1000);
    assert_eq!(c.n_pop, 100);
    assert_eq!(c.n_fittest_reproduce, 20);
    assert_eq!(c.edge_mut_chance, 80);
    assert_eq!(f32::from_bits(c.edge_mut_strength), 0.1);
    assert_eq!(c.node_mut_chance, 1);
    assert_eq!(c.steady_state_eval_steps_multiplier, 2);
    assert_eq!(c.validate(), Ok(()));
}

#[test]
fn config_new_accepts_the_whole_range_of_parents() {
    for k in 1..=5usize {
        let c = Config::new(3, 5, k, 10, 0x3F00_0000, 20, 1).unwrap();
        assert_eq!(c.n_fittest_reproduce, k);
        assert_eq!(c.n_pop, 5);
        assert_eq!(c.num_generations, 3);
        assert_eq!(c.edge_mut_chance, 10);
        assert_eq!(c.edge_mut_strength, 0x3F00_0000);
        assert_eq!(c.node_mut_chance, 20);
        assert_eq!(c.steady_state_eval_steps_multiplier, 1);
    }
}

#[test]
fn config_new_rejects_what_no_run_can_use() {
    assert!(matches!(Config::new(3, 5, 0, 10, 0, 20, 1), Err(Error::InvalidConfig)));
    assert!(matches!(Config::new(3, 5, 6, 10, 0, 20, 1), Err(Error::InvalidConfig)));
    assert!(matches!(Config::new(3, 5, 2, 10, 0, 20, 0), Err(Error::InvalidConfig)));
    assert!(matches!(Config::new(3, 0, 0, 10, 0, 20, 1), Err(Error::InvalidConfig)));
}

#[test]
fn validate_checks_a_configuration_built_by_hand() {
    let mut c = Config::default();
    c.n_fittest_reproduce = 101;
    assert_eq!(c.validate(), Err(Error::InvalidConfig));
    c.n_fittest_reproduce = 100;
    assert_eq!(c.validate(), Ok(()));
    c.steady_state_eval_steps_multiplier = 0;
    assert_eq!(c.validate(), Err(Error::InvalidConfig));
}
