use stargazing::error::GameError;
use stargazing::state::GameState;
use stargazing::types::{AstroObject, AstroObjectCategory, Telescope};

fn object(key: &str, tiers: Vec<(i32, &str)>) -> AstroObject {
    AstroObject::new(AstroObjectCategory::Star, key, key, tiers)
}

fn keys(objects: &[AstroObject]) -> Vec<String> {
    let mut k: Vec<String> = objects.iter().map(|o| o.key.clone()).collect();
    k.sort();
    k
}

#[test]
fn init_is_empty() {
    let s = GameState::init();
    assert!(s.telescopes.is_empty());
    assert_eq!(s.max_power, 0);
    assert!(s.unobservables.is_empty());
    assert!(s.observables.is_empty());
    assert!(s.observed.is_empty());
}

#[test]
fn add_data_partitions_by_power() {
    let mut s = GameState::init();
    s.add_telescope(Telescope::new("t", "T", 5, "d"));
    let mut objects = vec![
        object("near", vec![(5, "n")]),
        object("far", vec![(6, "f")]),
        object("close", vec![(0, "c")]),
    ];
    s.add_data(&mut objects);
    assert!(objects.is_empty());
    assert_eq!(keys(&s.observables), vec!["close".to_string(), "near".to_string()]);
    assert_eq!(keys(&s.unobservables), vec!["far".to_string()]);
    assert!(s.observed.is_empty());
}

#[test]
fn add_telescope_raises_power_and_moves_objects() {
    let mut s = GameState::init();
    let mut objects = vec![object("a", vec![(1, "x")]), object("b", vec![(10, "y")])];
    s.add_data(&mut objects);
    assert_eq!(keys(&s.unobservables), vec!["a".to_string(), "b".to_string()]);
    s.add_telescope(Telescope::new("small", "Small", 4, "d"));
    assert_eq!(s.max_power, 4);
    assert_eq!(keys(&s.observables), vec!["a".to_string()]);
    assert_eq!(keys(&s.unobservables), vec!["b".to_string()]);
    s.add_telescope(Telescope::new("big", "Big", 10, "d"));
    assert_eq!(s.max_power, 10);
    assert_eq!(keys(&s.observables), vec!["a".to_string(), "b".to_string()]);
    assert!(s.unobservables.is_empty());
    assert_eq!(s.telescopes.len(), 2);
}

#[test]
fn max_power_never_decreases() {
    let mut s = GameState::init();
    let mut last = s.max_power;
    for power in [3, 9, 2, 9, 0, -4, 12, 7] {
        s.add_telescope(Telescope::new("t", "T", power, "d"));
        assert!(s.max_power >= last);
        last = s.max_power;
    }
    assert_eq!(s.max_power, 12);
}

#[test]
fn negative_power_telescope_leaves_power_at_zero() {
    let mut s = GameState::init();
    s.add_telescope(Telescope::new("broken", "Broken", -3, "d"));
    assert_eq!(s.max_power, 0);
    assert_eq!(s.telescopes.len(), 1);
}

#[test]
fn adding_same_telescope_twice_changes_nothing() {
    let mut s = GameState::init();
    let mut objects = vec![object("a", vec![(1, "x")]), object("b", vec![(10, "y")])];
    s.add_data(&mut objects);
    let scope = Telescope::new("eye", "Eye", 4, "d");
    s.add_telescope(scope.clone());
    let telescopes = s.telescopes.clone();
    let power = s.max_power;
    let observable = keys(&s.observables);
    let unobservable = keys(&s.unobservables);
    s.add_telescope(scope);
    assert_eq!(s.telescopes, telescopes);
    assert_eq!(s.telescopes.len(), 1);
    assert_eq!(s.max_power, power);
    assert_eq!(keys(&s.observables), observable);
    assert_eq!(keys(&s.unobservables), unobservable);
    assert!(s.observed.is_empty());
}

#[test]
fn record_observation_moves_object() {
    let mut s = GameState::init();
    s.add_telescope(Telescope::new("t", "T", 5, "d"));
    let a = object("a", vec![(1, "x"), (4, "y")]);
    let mut objects = vec![a.clone(), object("b", vec![(2, "z")])];
    s.add_data(&mut objects);
    assert!(s.record_observation(&a, 1).is_ok());
    assert_eq!(keys(&s.observables), vec!["b".to_string()]);
    assert_eq!(s.observed.len(), 1);
    assert_eq!(s.observed[0].0, a);
    assert_eq!(s.observed[0].1, 1);
}

#[test]
fn record_observation_of_unobservable_is_refused() {
    let mut s = GameState::init();
    let a = object("a", vec![(1, "x")]);
    let mut objects = vec![a.clone()];
    s.add_data(&mut objects);
    let result = s.record_observation(&a, 0);
    assert!(matches!(result, Err(GameError::PreconditionError)));
    assert_eq!(keys(&s.unobservables), vec!["a".to_string()]);
    assert!(s.observed.is_empty());
}

#[test]
fn record_observation_twice_is_refused() {
    let mut s = GameState::init();
    s.add_telescope(Telescope::new("t", "T", 5, "d"));
    let a = object("a", vec![(1, "x")]);
    let mut objects = vec![a.clone()];
    s.add_data(&mut objects);
    assert!(s.record_observation(&a, 0).is_ok());
    let again = s.record_observation(&a, 0);
    assert!(matches!(again, Err(GameError::PreconditionError)));
    assert_eq!(s.observed.len(), 1);
    assert!(s.observables.is_empty());
}

#[test]
fn partition_holds_through_a_session() {
    let mut s = GameState::init();
    let mut objects = vec![
        object("a", vec![(1, "x")]),
        object("b", vec![(5, "y")]),
        object("c", vec![(9, "z")]),
    ];
    s.add_data(&mut objects);
    s.add_telescope(Telescope::new("t", "T", 5, "d"));
    let b = s.observables.iter().find(|o| o.key == "b").unwrap().clone();
    assert!(s.record_observation(&b, 0).is_ok());
    s.add_telescope(Telescope::new("u", "U", 6, "d"));
    let mut all: Vec<String> = Vec::new();
    all.extend(keys(&s.unobservables));
    all.extend(keys(&s.observables));
    all.extend(s.observed.iter().map(|p| p.0.key.clone()));
    all.sort();
    assert_eq!(all, vec!["a".to_string(), "b".to_string(), "c".to_string()]);
    assert_eq!(keys(&s.unobservables), vec!["c".to_string()]);
    // an observed object never returns to the unobservable ones
    assert!(s.observed.iter().all(|p| p.0.key == "b"));
}

#[test]
fn object_power_is_least_threshold() {
    let o = AstroObject::new(AstroObjectCategory::Galaxy, "g", "G", vec![(7, "a"), (3, "b"), (5, "c")]);
    assert_eq!(o.power_needed, 3);
    assert_eq!(o.detail.len(), 3);
    for (i, d) in o.detail.iter().enumerate() {
        assert_eq!(d.level, i);
    }
    assert_eq!(o.detail[1].discovery_text, "b");
    assert_eq!(o.key, "g");
    assert_eq!(o.category, AstroObjectCategory::Galaxy);
}
