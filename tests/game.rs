use stargazing::data::{game_objects, game_telescopes, SIRIUS_SEEN};
use stargazing::engine::{observe_at, resolve_detail_level};
use stargazing::error::GameError;
use stargazing::game::{Game, LoopPhase, GAME_LOOP_MS};
use stargazing::state::GameState;
use stargazing::types::{AstroObject, AstroObjectCategory, Keyed, Telescope, TelescopeIndex};

fn object(key: &str, tiers: Vec<(i32, &str)>) -> AstroObject {
    AstroObject::new(AstroObjectCategory::Star, key, key, tiers)
}

#[test]
fn resolve_picks_last_reachable_tier() {
    let o = object("m", vec![(3, "a"), (6, "b"), (12, "c")]);
    assert_eq!(resolve_detail_level(&o, 2), 0);
    assert_eq!(resolve_detail_level(&o, 3), 0);
    assert_eq!(resolve_detail_level(&o, 6), 1);
    assert_eq!(resolve_detail_level(&o, 11), 1);
    assert_eq!(resolve_detail_level(&o, 12), 2);
    assert_eq!(resolve_detail_level(&o, 100), 2);
}

#[test]
fn resolve_two_tiers_below_second_threshold() {
    let o = object("s", vec![(1, "level zero"), (10, "level one")]);
    assert_eq!(resolve_detail_level(&o, 4), 0);
}

#[test]
fn resolve_falls_back_to_zero_when_nothing_reached() {
    let o = object("far", vec![(5, "a"), (9, "b")]);
    assert_eq!(resolve_detail_level(&o, 0), 0);
}

#[test]
fn resolve_later_tier_wins_ties_and_order() {
    let o = object("t", vec![(4, "a"), (4, "b"), (2, "c")]);
    assert_eq!(resolve_detail_level(&o, 4), 2);
    assert_eq!(resolve_detail_level(&o, 3), 2);
    let p = object("u", vec![(4, "a"), (4, "b"), (9, "c")]);
    assert_eq!(resolve_detail_level(&p, 4), 1);
}

#[test]
fn resolve_is_deterministic_and_monotonic() {
    let o = object("m", vec![(3, "a"), (6, "b"), (12, "c")]);
    let mut last = 0;
    for power in -2..15 {
        let first = resolve_detail_level(&o, power);
        assert_eq!(first, resolve_detail_level(&o, power));
        assert!(first >= last);
        last = first;
    }
}

#[test]
fn scenario_single_candidate_is_observed() {
    let mut game = Game::from_seed(7);
    let mut state = GameState::init();
    let a = object("a", vec![(1, "first"), (3, "second"), (5, "third")]);
    let b = object("b", vec![(10, "far")]);
    let mut objects = vec![a.clone(), b];
    state.add_data(&mut objects);
    assert_eq!(state.max_power, 0);
    assert_eq!(state.unobservables.len(), 2);
    assert!(state.observables.is_empty());
    state.add_telescope(Telescope::new("t", "T", 4, "d"));
    assert_eq!(state.max_power, 4);
    assert_eq!(state.observables.len(), 1);
    assert_eq!(state.observables[0].key, "a");
    assert_eq!(state.unobservables.len(), 1);
    assert_eq!(state.unobservables[0].key, "b");
    game.state = state;
    let found = game.random_observation().unwrap();
    assert_eq!(found.object, a);
    assert_eq!(found.level, 1);
    assert_eq!(found.discovery_text, "second");
    assert_eq!(game.state.observed.len(), 1);
    assert_eq!(game.state.observed[0].0, a);
    assert_eq!(game.state.observed[0].1, 1);
    assert!(game.state.observables.is_empty());
}

#[test]
fn observation_consumes_exactly_one() {
    let mut game = Game::from_seed(11);
    game.init().unwrap();
    game.state.add_telescope(game.telescopes.get_by_key("keck").unwrap());
    let mut before = game.state.observables.len();
    assert_eq!(before, 3);
    while before > 0 {
        let observed_before = game.state.observed.len();
        let found = game.random_observation().unwrap();
        assert_eq!(game.state.observables.len(), before - 1);
        assert_eq!(game.state.observed.len(), observed_before + 1);
        assert!(game.state.observables.iter().all(|o| *o != found.object));
        before -= 1;
    }
    let empty = game.random_observation();
    assert!(matches!(empty, Err(GameError::NothingToObserve)));
    assert_eq!(game.state.observed.len(), 3);
    assert!(game.state.observables.is_empty());
}

#[test]
fn observation_with_nothing_observable_changes_nothing() {
    let mut game = Game::from_seed(3);
    let result = game.random_observation();
    assert!(matches!(result, Err(GameError::NothingToObserve)));
    assert_eq!(game.state.unobservables.len(), 3);
    assert!(game.state.observed.is_empty());
}

#[test]
fn observe_at_records_resolved_level() {
    let mut state = GameState::init();
    state.add_telescope(Telescope::new("t", "T", 8, "d"));
    let mut objects = vec![object("a", vec![(7, "weird"), (8, "green"), (11, "saucer")])];
    state.add_data(&mut objects);
    let found = observe_at(&mut state, 0);
    assert_eq!(found.level, 1);
    assert_eq!(found.discovery_text, "green");
    assert_eq!(state.observed[0].1, 1);
}

#[test]
fn catalog_objects_match() {
    let objects = game_objects();
    assert_eq!(objects.len(), 3);
    assert_eq!(objects[0].key, "sirius");
    assert_eq!(objects[0].name, "Sirius");
    assert_eq!(objects[0].category, AstroObjectCategory::Star);
    assert_eq!(objects[0].power_needed, 1);
    assert_eq!(objects[0].detail[0].discovery_text, SIRIUS_SEEN);
    assert_eq!(objects[0].detail[1].power_needed, 10);
    assert_eq!(objects[1].key, "m31");
    assert_eq!(objects[1].category, AstroObjectCategory::Galaxy);
    assert_eq!(objects[1].power_needed, 3);
    assert_eq!(objects[1].detail.len(), 3);
    assert_eq!(objects[2].key, "aliens");
    assert_eq!(objects[2].name, "aliens!!");
    assert_eq!(objects[2].category, AstroObjectCategory::AlienShip);
    assert_eq!(objects[2].power_needed, 7);
    assert_eq!(objects[2].detail[2].discovery_text, "WTF?? That is definitely a flying saucer!");
}

#[test]
fn catalog_telescopes_by_key() {
    let index = game_telescopes();
    let eye = index.get_by_key("eye").unwrap();
    assert_eq!(eye.name, "The naked eye");
    assert_eq!(eye.max_power, 4);
    assert_eq!(index.get_by_key("refractor_2in").unwrap().max_power, 10);
    assert_eq!(index.get_by_key("reflector_6in").unwrap().max_power, 13);
    assert_eq!(index.get_by_key("dobsonian_20in").unwrap().name, "A 20\" Dobsonian");
    assert_eq!(index.get_by_key("keck").unwrap().description, "Built on sacred Hawaiian land");
    assert!(index.get_by_key("hubble").is_none());
}

#[test]
fn index_insert_replaces_same_key() {
    let mut index = TelescopeIndex::new();
    index.insert(Telescope::new("k", "First", 1, "d"));
    index.insert(Telescope::new("j", "Other", 2, "d"));
    index.insert(Telescope::new("k", "Second", 3, "d"));
    let k = index.get_by_key("k").unwrap();
    assert_eq!(k.name, "Second");
    assert_eq!(k.max_power, 3);
    assert_eq!(index.get_by_key("j").unwrap().name, "Other");
}

#[test]
fn new_game_loads_catalog() {
    let game = Game::new().unwrap();
    assert_eq!(game.state.unobservables.len(), 3);
    assert!(game.state.observables.is_empty());
    assert!(game.state.telescopes.is_empty());
    assert_eq!(game.generation, 0);
    assert_eq!(game.phase, LoopPhase::Idle);
}

#[test]
fn init_gives_the_eye() {
    let mut game = Game::from_seed(1);
    assert!(game.init().is_ok());
    assert_eq!(game.state.max_power, 4);
    assert_eq!(game.state.telescopes.len(), 1);
    assert_eq!(game.state.telescopes[0].key, "eye");
    let mut observable: Vec<String> = game.state.observables.iter().map(|o| o.key.clone()).collect();
    observable.sort();
    assert_eq!(observable, vec!["m31".to_string(), "sirius".to_string()]);
    assert_eq!(game.state.unobservables.len(), 1);
    assert_eq!(game.state.unobservables[0].key, "aliens");
}

#[test]
fn init_without_eye_is_unknown_key() {
    let mut game = Game::from_seed(1);
    game.telescopes = TelescopeIndex::new();
    match game.init() {
        Err(GameError::UnknownKey(k)) => assert_eq!(k, "eye"),
        other => panic!("expected an unknown key, got {:?}", other),
    }
    assert!(game.state.telescopes.is_empty());
    assert_eq!(game.state.max_power, 0);
}

#[test]
fn main_loop_ticks_only_when_running() {
    let mut game = Game::from_seed(5);
    game.init().unwrap();
    assert!(game.main_loop().is_none());
    assert_eq!(game.generation, 0);
    game.start();
    assert_eq!(game.phase, LoopPhase::Running);
    let tick = game.main_loop().unwrap();
    assert_eq!(tick.generation, 0);
    assert_eq!(tick.delay_ms, GAME_LOOP_MS);
    assert_eq!(GAME_LOOP_MS, 1000);
    assert!(tick.observation.is_ok());
    assert_eq!(game.generation, 1);
    assert_eq!(game.state.observed.len(), 1);
    let tick = game.main_loop().unwrap();
    assert_eq!(tick.generation, 1);
    assert!(tick.observation.is_ok());
    let tick = game.main_loop().unwrap();
    assert!(matches!(tick.observation, Err(GameError::NothingToObserve)));
    assert_eq!(game.generation, 3);
    assert_eq!(game.state.observed.len(), 2);
}

#[test]
fn eye_then_four_observations() {
    let mut game = Game::from_seed(42);
    game.init().unwrap();
    assert!(game.state.log().len() > 0);
    assert!(game.random_observation().is_ok());
    assert!(game.random_observation().is_ok());
    assert!(game.random_observation().is_err());
    assert!(game.random_observation().is_err());
    let mut levels: Vec<(String, usize)> = game.state.observed.iter().map(|(o, l)| (o.key.clone(), *l)).collect();
    levels.sort();
    assert_eq!(levels, vec![("m31".to_string(), 0), ("sirius".to_string(), 0)]);
}

#[test]
fn same_seed_same_choices() {
    let mut first = Game::from_seed(99);
    let mut second = Game::from_seed(99);
    first.state.add_telescope(Telescope::new("big", "Big", 20, "d"));
    second.state.add_telescope(Telescope::new("big", "Big", 20, "d"));
    for _ in 0..3 {
        let a = first.random_observation().unwrap();
        let b = second.random_observation().unwrap();
        assert_eq!(a.object, b.object);
    }
}

#[test]
fn describe_object() {
    let objects = game_objects();
    assert_eq!(objects[1].to_string(), "\"M31 Andromeda Galaxy\", a Galaxy with 3 levels of observable detail");
    assert_eq!(objects[2].to_string(), "\"aliens!!\", a AlienShip with 3 levels of observable detail");
}

#[test]
fn report_of_empty_session() {
    let s = GameState::init();
    let lines = s.log();
    assert_eq!(
        lines,
        vec![
            "\n====== OBSERVATION REPORT ======".to_string(),
            "You have these observing devices:".to_string(),
            "  nothing".to_string(),
            "You have observed these astronomical objects:".to_string(),
            "  nothing".to_string(),
            "With resolving power 0, You could also observe:".to_string(),
            "  nothing".to_string(),
            "================================".to_string(),
        ]
    );
}

#[test]
fn report_lists_everything() {
    let mut s = GameState::init();
    let mut objects = vec![
        AstroObject::new(AstroObjectCategory::Star, "v", "Vega", vec![(2, "bright"), (12, "disc")]),
        AstroObject::new(AstroObjectCategory::Galaxy, "g", "Far Galaxy", vec![(30, "smudge")]),
    ];
    s.add_data(&mut objects);
    s.add_telescope(Telescope::new("scope", "A scope", 13, "d"));
    s.add_telescope(Telescope::new("bad", "Bad scope", -7, "d"));
    let vega = s.observables[0].clone();
    s.record_observation(&vega, 1).unwrap();
    s.add_telescope(Telescope::new("huge", "Huge", 30, "d"));
    let lines = s.log();
    assert_eq!(
        lines,
        vec![
            "\n====== OBSERVATION REPORT ======".to_string(),
            "You have these observing devices:".to_string(),
            "  A scope (resolving power: 13)".to_string(),
            "  Bad scope (resolving power: -7)".to_string(),
            "  Huge (resolving power: 30)".to_string(),
            "You have observed these astronomical objects:".to_string(),
            "  Vega (at detail level 1)".to_string(),
            "With resolving power 30, You could also observe:".to_string(),
            "  \"Far Galaxy\", a Galaxy with 1 levels of observable detail (needs power of 30)".to_string(),
            "================================".to_string(),
        ]
    );
}
