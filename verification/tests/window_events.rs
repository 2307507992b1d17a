use derpywm::{
    handle_window_event, needs_classification, Event, ScratchpadState, WMState, WindowEvent,
    WindowEventType, WorkspaceState,
};

fn names(items: &[&str]) -> Vec<String> {
    items.iter().map(|s| s.to_string()).collect()
}

fn workspace(windows: &[&str], history: &[&str], fullscreen: Option<&str>) -> WorkspaceState {
    WorkspaceState {
        windows: names(windows),
        focus_history: names(history),
        fullscreen: fullscreen.map(|s| s.to_string()),
    }
}

fn window(id: &str, event_type: WindowEventType) -> WindowEvent {
    WindowEvent { window_id: id.to_string(), event_type }
}

fn created(id: &str) -> Event {
    Event::Window(window(id, WindowEventType::CreateNotify))
}

#[test]
fn new_state_has_empty_workspaces() {
    let state = WMState::new(3);
    assert_eq!(state.workspaces.len(), 3);
    for ws in &state.workspaces {
        assert!(ws.windows.is_empty());
        assert!(ws.focus_history.is_empty());
        assert_eq!(ws.fullscreen, None);
    }
    assert!(state.scratchpad.windows.is_empty());
    assert_eq!(state.scratchpad.shown, None);
    assert_eq!(state.focused_workspace, 0);
    assert_eq!(state.focused_window, None);
}

#[test]
fn new_state_without_workspaces() {
    let state = WMState::new(0);
    assert!(state.workspaces.is_empty());
    assert_eq!(state.focused_workspace, 0);
}

#[test]
fn create_changes_nothing_and_is_accepted() {
    let mut state = WMState::new(2);
    let before = state.clone();
    let accepted = handle_window_event(
        &mut state,
        window("w1", WindowEventType::CreateNotify),
        &Event::Unknown,
        false,
    );
    assert!(accepted);
    assert_eq!(state, before);
}

#[test]
fn map_after_matching_create_adds_the_window() {
    let mut state = WMState::new(2);
    state.focused_workspace = 1;
    let accepted = handle_window_event(
        &mut state,
        window("w1", WindowEventType::MapNotify),
        &created("w1"),
        false,
    );
    assert!(accepted);
    assert_eq!(state.workspaces[1].windows, names(&["w1"]));
    assert_eq!(state.workspaces[1].focus_history, names(&["w1"]));
    assert!(state.workspaces[0].windows.is_empty());
    assert_eq!(state.focused_window, None);
}

#[test]
fn map_after_create_of_another_window_adds_nothing() {
    let mut state = WMState::new(1);
    let before = state.clone();
    let accepted = handle_window_event(
        &mut state,
        window("w2", WindowEventType::MapNotify),
        &created("w1"),
        false,
    );
    assert!(accepted);
    assert_eq!(state, before);
}

#[test]
fn map_without_create_before_adds_nothing() {
    let mut state = WMState::new(1);
    state.workspaces[0] = workspace(&["w1"], &["w1"], None);
    let before = state.clone();
    for last in [
        Event::Unknown,
        Event::Window(window("w1", WindowEventType::FocusIn)),
        Event::Window(window("w1", WindowEventType::MapNotify)),
        Event::Workspace(derpywm::WorkspaceEvent::Cycle),
    ] {
        let accepted = handle_window_event(
            &mut state,
            window("w1", WindowEventType::MapNotify),
            &last,
            false,
        );
        assert!(accepted);
        assert_eq!(state, before);
    }
}

#[test]
fn map_of_an_ignored_window_is_rejected() {
    let mut state = WMState::new(1);
    let before = state.clone();
    let accepted = handle_window_event(
        &mut state,
        window("dock", WindowEventType::MapNotify),
        &created("dock"),
        true,
    );
    assert!(!accepted);
    assert_eq!(state, before);
}

#[test]
fn ignored_flag_is_not_read_without_create_before() {
    let mut state = WMState::new(1);
    let accepted = handle_window_event(
        &mut state,
        window("w1", WindowEventType::MapNotify),
        &Event::Unknown,
        true,
    );
    assert!(accepted);
    assert!(state.workspaces[0].windows.is_empty());
}

#[test]
fn classification_is_needed_only_for_map_after_create() {
    let map = Event::Window(window("w1", WindowEventType::MapNotify));
    assert!(needs_classification(&map, &created("w1")));
    assert!(!needs_classification(&map, &created("w2")));
    assert!(!needs_classification(&map, &Event::Unknown));
    assert!(!needs_classification(&created("w1"), &created("w1")));
    assert!(!needs_classification(
        &Event::Window(window("w1", WindowEventType::DestroyNotify)),
        &created("w1")
    ));
    assert!(!needs_classification(&Event::Unknown, &created("w1")));
}

#[test]
fn destroy_removes_the_window_everywhere() {
    let mut state = WMState::new(3);
    state.workspaces[0] = workspace(&["a", "w", "b"], &["w", "a", "b"], Some("w"));
    state.workspaces[1] = workspace(&["w", "c"], &["c", "w"], Some("c"));
    state.workspaces[2] = workspace(&["d"], &["d"], None);
    state.scratchpad = ScratchpadState {
        windows: vec![
            ("one".to_string(), "x".to_string()),
            ("two".to_string(), "w".to_string()),
        ],
        shown: Some("two".to_string()),
    };
    state.focused_window = Some("w".to_string());
    let accepted = handle_window_event(
        &mut state,
        window("w", WindowEventType::DestroyNotify),
        &Event::Unknown,
        false,
    );
    assert!(accepted);
    assert_eq!(state.workspaces[0], workspace(&["a", "b"], &["a", "b"], None));
    assert_eq!(state.workspaces[1], workspace(&["c"], &["c"], Some("c")));
    assert_eq!(state.workspaces[2], workspace(&["d"], &["d"], None));
    assert_eq!(state.scratchpad.windows, vec![("one".to_string(), "x".to_string())]);
    assert_eq!(state.scratchpad.shown, None);
    assert_eq!(state.focused_window, None);
    assert_eq!(state.focused_workspace, 0);
}

#[test]
fn destroy_of_another_window_keeps_shown_and_focus() {
    let mut state = WMState::new(1);
    state.workspaces[0] = workspace(&["a", "b"], &["b", "a"], Some("a"));
    state.scratchpad = ScratchpadState {
        windows: vec![("pad".to_string(), "p".to_string())],
        shown: Some("pad".to_string()),
    };
    state.focused_window = Some("p".to_string());
    let accepted = handle_window_event(
        &mut state,
        window("b", WindowEventType::DestroyNotify),
        &Event::Unknown,
        false,
    );
    assert!(accepted);
    assert_eq!(state.workspaces[0], workspace(&["a"], &["a"], Some("a")));
    assert_eq!(state.scratchpad.shown, Some("pad".to_string()));
    assert_eq!(state.scratchpad.windows, vec![("pad".to_string(), "p".to_string())]);
    assert_eq!(state.focused_window, Some("p".to_string()));
}

#[test]
fn destroy_of_an_unknown_window_is_accepted() {
    let mut state = WMState::new(2);
    state.workspaces[0] = workspace(&["a"], &["a"], None);
    let before = state.clone();
    let accepted = handle_window_event(
        &mut state,
        window("zzz", WindowEventType::DestroyNotify),
        &Event::Unknown,
        false,
    );
    assert!(accepted);
    assert_eq!(state, before);
}

#[test]
fn destroy_with_shared_name_goes_by_first_entry() {
    let mut state = WMState::new(1);
    state.scratchpad = ScratchpadState {
        windows: vec![
            ("pad".to_string(), "t1".to_string()),
            ("pad".to_string(), "t2".to_string()),
        ],
        shown: Some("pad".to_string()),
    };
    let accepted = handle_window_event(
        &mut state,
        window("t2", WindowEventType::DestroyNotify),
        &Event::Unknown,
        false,
    );
    assert!(accepted);
    assert_eq!(state.scratchpad.shown, Some("pad".to_string()));
    assert_eq!(state.scratchpad.windows, vec![("pad".to_string(), "t1".to_string())]);
}

#[test]
fn focus_in_of_a_known_window_moves_it_to_the_end_of_history() {
    let mut state = WMState::new(2);
    state.workspaces[0] = workspace(&["a", "b", "c"], &["a", "b", "c"], None);
    state.focused_window = Some("c".to_string());
    let accepted = handle_window_event(
        &mut state,
        window("a", WindowEventType::FocusIn),
        &Event::Unknown,
        false,
    );
    assert!(accepted);
    assert_eq!(state.workspaces[0].focus_history, names(&["b", "c", "a"]));
    assert_eq!(state.workspaces[0].windows, names(&["a", "b", "c"]));
    assert_eq!(state.focused_window, Some("c".to_string()));
}

#[test]
fn focus_in_of_an_unknown_window_sets_the_focused_window() {
    let mut state = WMState::new(2);
    state.workspaces[0] = workspace(&["a"], &["a"], None);
    state.workspaces[1] = workspace(&["b"], &["b"], None);
    let accepted = handle_window_event(
        &mut state,
        window("b", WindowEventType::FocusIn),
        &Event::Unknown,
        false,
    );
    assert!(accepted);
    assert_eq!(state.focused_window, Some("b".to_string()));
    assert_eq!(state.workspaces[0], workspace(&["a"], &["a"], None));
    assert_eq!(state.workspaces[1], workspace(&["b"], &["b"], None));
}

#[test]
fn focus_out_is_rejected() {
    let mut state = WMState::new(1);
    state.workspaces[0] = workspace(&["a"], &["a"], None);
    state.focused_window = Some("a".to_string());
    let before = state.clone();
    let accepted = handle_window_event(
        &mut state,
        window("a", WindowEventType::FocusOut),
        &Event::Unknown,
        false,
    );
    assert!(!accepted);
    assert_eq!(state, before);
}
