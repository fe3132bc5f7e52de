use github_deploy_helper::state::{ProjectState, State};

#[test]
fn unknown_project_is_not_initialized() {
    let s = State::new();
    assert!(!s.is_initialized("api"));
    assert!(s.projects().is_empty());
    assert!(!ProjectState::default().initialized);
}

#[test]
fn read_after_write_and_others_unchanged() {
    let mut s = State::default();
    s.mark_initialized("api");
    s.mark_initialized("web");
    assert!(s.is_initialized("api"));
    s.clear_initialized("api");
    assert!(!s.is_initialized("api"));
    assert!(s.is_initialized("web"));
    s.set_initialized("api", true);
    assert!(s.is_initialized("api"));
    assert_eq!(s.projects().len(), 2);
    assert_eq!(s.projects()[0].0, "api");
    assert_eq!(s.projects()[0].1, ProjectState { initialized: true });
}
