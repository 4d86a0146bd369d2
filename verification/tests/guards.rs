use komodo_core::action_state::{
    action_file_contents_or_default, action_state_from_journal, effective_action_state,
    ActionRunState, PersistenceError, RunState, StackActionState, StackActionStates, StackFlag,
    StackVerb, stack_verb_flag,
};

#[test]
fn second_acquisition_of_held_flag_is_busy() {
    let mut state = StackActionState::idle();
    assert!(state.try_set(StackFlag::Deploying).is_ok());
    assert!(state.try_set(StackFlag::Deploying).is_err());
}

#[test]
fn releasing_restores_the_pre_acquisition_state() {
    let mut state = StackActionState::idle();
    state.try_set(StackFlag::Deploying).unwrap();
    assert!(state.busy());
    state.clear(StackFlag::Deploying);
    assert!(!state.busy());
    assert_eq!(state, StackActionState::idle());
}

#[test]
fn acquisition_leaves_other_flags_alone() {
    let mut state = StackActionState::idle();
    state.try_set(StackFlag::Deploying).unwrap();
    assert!(state.try_set(StackFlag::Pulling).is_ok());
    state.clear(StackFlag::Deploying);
    assert!(state.pulling);
    assert!(!state.deploying);
}

#[test]
fn registry_guards_per_resource_id() {
    let mut registry = StackActionStates::new();
    let web = "stack-web".to_string();
    let api = "stack-api".to_string();
    assert!(registry.try_set(&web, StackFlag::Deploying).is_ok());
    // the same stack is busy: a concurrent deploy fails fast
    assert!(registry.try_set(&web, StackFlag::Deploying).is_err());
    // another stack is unaffected
    assert!(registry.try_set(&api, StackFlag::Deploying).is_ok());
    registry.clear(&web, StackFlag::Deploying);
    assert!(registry.try_set(&web, StackFlag::Deploying).is_ok());
}

#[test]
fn registry_get_defaults_to_idle() {
    let registry = StackActionStates::new();
    let state = registry.get(&"never-seen".to_string());
    assert!(!state.busy());
}

#[test]
fn run_state_excludes_second_run() {
    let mut run = RunState::idle();
    assert!(run.try_set_running().is_ok());
    assert!(run.try_set_running().is_err());
    run.clear_running();
    assert!(run.try_set_running().is_ok());
}

#[test]
fn each_verb_acquires_its_own_flag() {
    assert_eq!(stack_verb_flag(StackVerb::Deploy), StackFlag::Deploying);
    assert_eq!(stack_verb_flag(StackVerb::Stop), StackFlag::Stopping);
    assert_eq!(stack_verb_flag(StackVerb::Destroy), StackFlag::Destroying);
}

#[test]
fn action_state_follows_latest_run() {
    assert_eq!(action_state_from_journal(Ok(Some(true))), ActionRunState::Succeeded);
    assert_eq!(action_state_from_journal(Ok(Some(false))), ActionRunState::Failed);
    assert_eq!(action_state_from_journal(Ok(None)), ActionRunState::Succeeded);
    assert_eq!(action_state_from_journal(Err(PersistenceError)), ActionRunState::Unknown);
}

#[test]
fn running_flag_overrides_cached_state() {
    assert_eq!(effective_action_state(true, ActionRunState::Failed), ActionRunState::Running);
    assert_eq!(effective_action_state(false, ActionRunState::Failed), ActionRunState::Failed);
}

#[test]
fn missing_action_script_gets_the_starter_script() {
    let starter = "// Run actions using the pre initialized 'komodo' client.\nconst version: Types.GetVersionResponse = await komodo.read('GetVersion', {});\nconsole.log('\u{1f98e} Komodo version:', version.version, '\u{1f98e}\\n');";
    assert_eq!(action_file_contents_or_default(None), starter);
    assert_eq!(
        action_file_contents_or_default(Some("custom".to_string())),
        "custom"
    );
}
