use ecliptica_data_analyzer::template::{
    index_from_random,
    random_choice_index, secure_random_index, valid_cooldown_id, RandomMode, StageRandomState,
    TemplateRuntimeState,
};

fn strings(values: &[&str]) -> Vec<String> {
    values.iter().map(|value| value.to_string()).collect()
}

fn ready_text(state: &mut TemplateRuntimeState, now: u64, trigger: bool) -> &'static str {
    if state.cooldown_ready("ability", 10_000, trigger, now) {
        "READY"
    } else {
        "COOLING"
    }
}

#[test]
fn deterministic_mode_uses_first_choice_for_stable_previews() {
    let mut mode = RandomMode::First;
    assert_eq!(random_choice_index(&mut mode, &strings(&["one", "two"])), Ok(0));
}

#[test]
fn secure_mode_only_returns_supplied_choices() {
    let choices = strings(&["one", "two", "three"]);
    let mut mode = RandomMode::Secure;
    for _ in 0..32 {
        let index = random_choice_index(&mut mode, &choices).unwrap();
        assert!(index < choices.len());
    }
    for _ in 0..32 {
        assert!(secure_random_index(3).unwrap() < 3);
    }
    assert_eq!(secure_random_index(1), Ok(0));
}

#[test]
fn stage_mode_keeps_each_choice_stable_across_renders() {
    let mut state = StageRandomState::default();
    let first_list = strings(&["one", "two"]);
    let second_list = strings(&["red", "blue"]);
    let first = state.choice_for(&first_list).unwrap();
    let second = state.choice_for(&second_list).unwrap();
    for _ in 0..32 {
        assert_eq!(state.choice_for(&first_list).unwrap(), first);
        assert_eq!(state.choice_for(&second_list).unwrap(), second);
    }
    assert_eq!(state.cached_choice_count(), 2);
}

#[test]
fn cooldown_starts_on_a_rising_edge_and_becomes_ready_at_its_deadline() {
    let mut state = TemplateRuntimeState::default();
    let start = 7_000_000;

    assert_eq!(ready_text(&mut state, start, false), "READY");
    assert_eq!(ready_text(&mut state, start, true), "COOLING");
    assert_eq!(ready_text(&mut state, start + 9_000, true), "COOLING");
    assert_eq!(ready_text(&mut state, start + 10_000, true), "READY");

    assert_eq!(ready_text(&mut state, start + 11_000, true), "READY");
    assert_eq!(ready_text(&mut state, start + 11_000, false), "READY");
    assert_eq!(ready_text(&mut state, start + 12_000, true), "COOLING");
}

#[test]
fn cooldown_ids_are_independent_and_stateless_rendering_is_repeatable() {
    let mut state = TemplateRuntimeState::default();
    let now = 1_000;
    let a = state.cooldown_ready("a", 10_000, true, now);
    let b = state.cooldown_ready("b", 10_000, false, now);
    assert_eq!((a, b), (false, true));
    assert_eq!(state.revision(), 1);
    state.clear();
    assert!(state.cooldown_ready("a", 10_000, false, now));
}

#[test]
fn cooldown_rejects_invalid_arguments() {
    assert!(!valid_cooldown_id(""));
    assert!(!valid_cooldown_id("   "));
    assert!(valid_cooldown_id("x"));
}

#[test]
fn random_values_map_to_indices_without_bias() {
    assert_eq!(index_from_random(7, 3), Some(1));
    assert_eq!(index_from_random(0, 5), Some(0));
    // 2^64 - 1 is a multiple of 3, so the top value must be drawn again.
    assert_eq!(index_from_random(u64::MAX, 3), None);
    assert_eq!(index_from_random(u64::MAX - 1, 3), Some((u64::MAX - 1) % 3));
    // 2^64 - 1 leaves 1 over 2: the top value is again rejected.
    assert_eq!(index_from_random(u64::MAX, 2), None);
}

#[test]
fn stage_mode_reuses_the_cached_choice() {
    let mut mode = RandomMode::Stage(StageRandomState::new());
    let choices = strings(&["a", "b", "c", "d"]);
    let first = random_choice_index(&mut mode, &choices).unwrap();
    for _ in 0..16 {
        assert_eq!(random_choice_index(&mut mode, &choices), Ok(first));
    }
    match &mode {
        RandomMode::Stage(state) => assert_eq!(state.cached_choice_count(), 1),
        _ => panic!("the mode stays a stage mode"),
    }
}

#[test]
fn random_choice_without_choices_is_an_error() {
    for mut mode in [RandomMode::First, RandomMode::Secure, RandomMode::Stage(StageRandomState::new())] {
        assert_eq!(
            random_choice_index(&mut mode, &Vec::new()),
            Err("random requires at least one string argument".to_owned())
        );
    }
}

#[test]
fn stage_choice_without_choices_is_an_error_and_caches_nothing() {
    let mut state = StageRandomState::new();
    assert_eq!(state.choice_for(&Vec::new()), Err("random requires at least one string argument".to_owned()));
    assert_eq!(state.cached_choice_count(), 0);
}
