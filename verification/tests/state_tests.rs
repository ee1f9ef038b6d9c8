use config_store::state::AppState;

#[test]
fn test_new_state_defaults() {
    let state = AppState::new();
    assert_eq!(state.counter, 0);
    assert!(!state.is_busy);
    assert!(state.username.is_empty());
    assert!(state.notification.is_none());
}

#[test]
fn test_counter_updates() {
    let mut state = AppState::new();
    state.increment();
    state.increment();
    assert_eq!(state.counter, 2);
    state.decrement();
    assert_eq!(state.counter, 1);
    state.set_counter(41);
    assert_eq!(state.counter, 41);
    state.increment();
    assert_eq!(state.counter, 42);
}

#[test]
fn test_notifications() {
    let mut state = AppState::new();
    state.notify("saved".to_string());
    assert_eq!(state.notification.as_deref(), Some("saved"));
    state.clear_notification();
    assert!(state.notification.is_none());
}

#[test]
fn test_default_matches_new() {
    let state = AppState::default();
    assert_eq!(state.counter, 0);
    assert!(!state.is_busy);
    assert!(state.username.is_empty());
    assert!(state.notification.is_none());
}
