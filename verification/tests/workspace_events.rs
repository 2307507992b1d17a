use derpywm::{handle_workspace_event, ScratchpadState, WMState, WorkspaceEvent, WorkspaceState};

fn names(items: &[&str]) -> Vec<String> {
    items.iter().map(|s| s.to_string()).collect()
}

fn workspace(windows: &[&str], history: &[&str], fullscreen: Option<&str>) -> WorkspaceState {
    WorkspaceState {
        windows: names(windows),
        focus_history: names(history),
        fullscreen: fullscreen.map(|s| s.to_string()),
    }
}

fn tiled(windows: &[&str], focused: &str) -> WMState {
    let mut state = WMState::new(1);
    let mut history: Vec<&str> = windows.iter().copied().filter(|w| *w != focused).collect();
    history.push(focused);
    state.workspaces[0] = workspace(windows, &history, None);
    state
}

fn navigate(state: &mut WMState, direction: &str) -> bool {
    handle_workspace_event(state, WorkspaceEvent::FocusWindow(direction.to_string()))
}

fn focused(state: &WMState) -> String {
    state.workspaces[state.focused_workspace].focus_history.last().unwrap().clone()
}

#[test]
fn focus_of_the_focused_workspace_is_rejected() {
    let mut state = WMState::new(3);
    state.focused_workspace = 2;
    state.workspaces[2] = workspace(&["a"], &["a"], None);
    let before = state.clone();
    assert!(!handle_workspace_event(&mut state, WorkspaceEvent::Focus(2)));
    assert_eq!(state, before);
}

#[test]
fn focus_of_another_workspace_switches() {
    let mut state = WMState::new(3);
    state.workspaces[0] = workspace(&["a"], &["a"], None);
    state.focused_window = Some("a".to_string());
    assert!(handle_workspace_event(&mut state, WorkspaceEvent::Focus(2)));
    assert_eq!(state.focused_workspace, 2);
    assert_eq!(state.workspaces[0], workspace(&["a"], &["a"], None));
    assert_eq!(state.focused_window, Some("a".to_string()));
}

#[test]
fn focus_of_a_missing_workspace_is_rejected() {
    let mut state = WMState::new(3);
    let before = state.clone();
    assert!(!handle_workspace_event(&mut state, WorkspaceEvent::Focus(3)));
    assert!(!handle_workspace_event(&mut state, WorkspaceEvent::Focus(usize::MAX)));
    assert_eq!(state, before);
}

#[test]
fn move_window_to_the_focused_workspace_is_rejected() {
    let mut state = WMState::new(2);
    state.workspaces[0] = workspace(&["a"], &["a"], None);
    state.focused_window = Some("a".to_string());
    let before = state.clone();
    assert!(!handle_workspace_event(&mut state, WorkspaceEvent::MoveWindow(0)));
    assert_eq!(state, before);
}

#[test]
fn move_window_without_focused_window_is_rejected() {
    let mut state = WMState::new(2);
    state.workspaces[0] = workspace(&["a"], &["a"], None);
    let before = state.clone();
    assert!(!handle_workspace_event(&mut state, WorkspaceEvent::MoveWindow(1)));
    assert_eq!(state, before);
}

#[test]
fn move_window_to_a_missing_workspace_is_rejected() {
    let mut state = WMState::new(2);
    state.workspaces[0] = workspace(&["a"], &["a"], None);
    state.focused_window = Some("a".to_string());
    let before = state.clone();
    assert!(!handle_workspace_event(&mut state, WorkspaceEvent::MoveWindow(2)));
    assert_eq!(state, before);
}

#[test]
fn move_window_takes_the_focused_window_along() {
    let mut state = WMState::new(3);
    state.workspaces[0] = workspace(&["a", "b", "c"], &["a", "c", "b"], Some("b"));
    state.workspaces[2] = workspace(&["x"], &["x"], None);
    state.focused_window = Some("b".to_string());
    assert!(handle_workspace_event(&mut state, WorkspaceEvent::MoveWindow(2)));
    assert_eq!(state.workspaces[0], workspace(&["a", "c"], &["a", "c"], None));
    assert_eq!(state.workspaces[1], workspace(&[], &[], None));
    assert_eq!(state.workspaces[2], workspace(&["x", "b"], &["x", "b"], None));
    assert_eq!(state.focused_workspace, 0);
    assert_eq!(state.focused_window, Some("b".to_string()));
}

#[test]
fn fullscreen_toggle_switches_on_and_off() {
    let mut state = WMState::new(2);
    state.workspaces[0] = workspace(&["a", "b"], &["a", "b"], None);
    state.focused_window = Some("b".to_string());
    assert!(handle_workspace_event(&mut state, WorkspaceEvent::FullscreenToggle));
    assert_eq!(state.workspaces[0].fullscreen, Some("b".to_string()));
    state.focused_window = Some("a".to_string());
    assert!(handle_workspace_event(&mut state, WorkspaceEvent::FullscreenToggle));
    assert_eq!(state.workspaces[0].fullscreen, None);
    assert_eq!(state.workspaces[0].windows, names(&["a", "b"]));
    assert_eq!(state.workspaces[1], workspace(&[], &[], None));
}

#[test]
fn fullscreen_toggle_without_focused_window_changes_nothing() {
    let mut state = WMState::new(1);
    state.workspaces[0] = workspace(&["a"], &["a"], None);
    let before = state.clone();
    assert!(handle_workspace_event(&mut state, WorkspaceEvent::FullscreenToggle));
    assert_eq!(state, before);
}

#[test]
fn cycle_brings_the_last_window_to_the_front() {
    let mut state = WMState::new(2);
    state.workspaces[0] = workspace(&["a", "b", "c"], &["a", "b", "c"], None);
    state.workspaces[1] = workspace(&["x", "y"], &["x", "y"], None);
    assert!(handle_workspace_event(&mut state, WorkspaceEvent::Cycle));
    assert_eq!(state.workspaces[0], workspace(&["c", "a", "b"], &["a", "b", "c"], None));
    assert_eq!(state.workspaces[1], workspace(&["x", "y"], &["x", "y"], None));
    assert!(handle_workspace_event(&mut state, WorkspaceEvent::Cycle));
    assert!(handle_workspace_event(&mut state, WorkspaceEvent::Cycle));
    assert_eq!(state.workspaces[0].windows, names(&["a", "b", "c"]));
}

#[test]
fn cycle_of_an_empty_workspace_changes_nothing() {
    let mut state = WMState::new(1);
    let before = state.clone();
    assert!(handle_workspace_event(&mut state, WorkspaceEvent::Cycle));
    assert_eq!(state, before);
}

#[test]
fn cycle_of_a_single_window_changes_nothing() {
    let mut state = WMState::new(1);
    state.workspaces[0] = workspace(&["a"], &["a"], None);
    let before = state.clone();
    assert!(handle_workspace_event(&mut state, WorkspaceEvent::Cycle));
    assert_eq!(state, before);
}

#[test]
fn navigation_in_two_columns_of_two() {
    let mut state = tiled(&["a", "b", "c", "d"], "a");
    assert!(navigate(&mut state, "RIGHT"));
    assert_eq!(focused(&state), "c");
    assert!(navigate(&mut state, "LEFT"));
    assert_eq!(focused(&state), "a");
    assert!(navigate(&mut state, "DOWN"));
    assert_eq!(focused(&state), "b");
    assert!(navigate(&mut state, "UP"));
    assert_eq!(focused(&state), "a");

    let mut state = tiled(&["a", "b", "c", "d"], "d");
    assert!(navigate(&mut state, "UP"));
    assert_eq!(focused(&state), "c");
    assert_eq!(state.workspaces[0].focus_history, names(&["a", "b", "d", "c"]));
    assert_eq!(state.workspaces[0].windows, names(&["a", "b", "c", "d"]));
}

#[test]
fn navigation_to_the_left_of_the_left_column_is_rejected() {
    let mut state = tiled(&["a", "b", "c", "d"], "a");
    let before = state.clone();
    assert!(!navigate(&mut state, "LEFT"));
    assert_eq!(focused(&state), "a");
    assert_eq!(state, before);
}

#[test]
fn navigation_stops_at_the_edges() {
    for (from, direction) in [
        ("a", "LEFT"),
        ("a", "UP"),
        ("b", "LEFT"),
        ("b", "DOWN"),
        ("c", "RIGHT"),
        ("c", "UP"),
        ("d", "RIGHT"),
        ("d", "DOWN"),
    ] {
        let mut state = tiled(&["a", "b", "c", "d"], from);
        let before = state.clone();
        assert!(!navigate(&mut state, direction), "{} from {}", direction, from);
        assert_eq!(state, before, "{} from {}", direction, from);
    }
}

#[test]
fn navigation_from_the_left_column_goes_right_in_the_same_row() {
    let mut state = tiled(&["a", "b", "c", "d"], "b");
    assert!(navigate(&mut state, "RIGHT"));
    assert_eq!(focused(&state), "d");
    let mut state = tiled(&["a", "b", "c", "d"], "d");
    assert!(navigate(&mut state, "LEFT"));
    assert_eq!(focused(&state), "b");
}

#[test]
fn navigation_with_an_odd_number_of_windows() {
    // left column [a, b], right column [c, d, e]
    let all = ["a", "b", "c", "d", "e"];
    for (from, direction, to) in [
        ("c", "LEFT", "a"),
        ("d", "LEFT", "a"),
        ("e", "LEFT", "b"),
        ("a", "RIGHT", "c"),
        ("b", "RIGHT", "d"),
        ("d", "UP", "c"),
        ("e", "UP", "d"),
        ("c", "DOWN", "d"),
        ("d", "DOWN", "e"),
        ("a", "DOWN", "b"),
        ("b", "UP", "a"),
    ] {
        let mut state = tiled(&all, from);
        assert!(navigate(&mut state, direction));
        assert_eq!(focused(&state), to, "{} from {}", direction, from);
    }
    for (from, direction) in [("e", "DOWN"), ("c", "UP"), ("b", "DOWN"), ("e", "RIGHT")] {
        let mut state = tiled(&all, from);
        let before = state.clone();
        assert!(!navigate(&mut state, direction));
        assert_eq!(state, before, "{} from {}", direction, from);
    }
}

#[test]
fn navigation_with_two_windows() {
    let mut state = tiled(&["a", "b"], "a");
    assert!(navigate(&mut state, "RIGHT"));
    assert_eq!(focused(&state), "b");
    assert!(navigate(&mut state, "LEFT"));
    assert_eq!(focused(&state), "a");
    let before = state.clone();
    assert!(!navigate(&mut state, "DOWN"));
    assert!(!navigate(&mut state, "UP"));
    assert!(!navigate(&mut state, "LEFT"));
    assert_eq!(state, before);
}

#[test]
fn navigation_with_three_windows() {
    // left column [a], right column [b, c]
    let mut state = tiled(&["a", "b", "c"], "c");
    assert!(navigate(&mut state, "LEFT"));
    assert_eq!(focused(&state), "a");
    let mut state = tiled(&["a", "b", "c"], "b");
    assert!(navigate(&mut state, "LEFT"));
    assert_eq!(focused(&state), "a");
    assert!(navigate(&mut state, "RIGHT"));
    assert_eq!(focused(&state), "b");
    assert!(navigate(&mut state, "DOWN"));
    assert_eq!(focused(&state), "c");
}

#[test]
fn navigation_is_rejected_while_fullscreen() {
    let mut state = tiled(&["a", "b", "c", "d"], "a");
    state.workspaces[0].fullscreen = Some("a".to_string());
    let before = state.clone();
    assert!(!navigate(&mut state, "RIGHT"));
    assert_eq!(state, before);
}

#[test]
fn navigation_is_rejected_while_scratchpad_is_shown() {
    let mut state = tiled(&["a", "b", "c", "d"], "a");
    state.scratchpad = ScratchpadState {
        windows: vec![("pad".to_string(), "p".to_string())],
        shown: Some("pad".to_string()),
    };
    let before = state.clone();
    assert!(!navigate(&mut state, "RIGHT"));
    assert_eq!(state, before);
}

#[test]
fn navigation_is_rejected_with_fewer_than_two_windows() {
    let mut state = tiled(&["a"], "a");
    let before = state.clone();
    assert!(!navigate(&mut state, "RIGHT"));
    assert_eq!(state, before);
    let mut state = WMState::new(1);
    let before = state.clone();
    assert!(!navigate(&mut state, "LEFT"));
    assert_eq!(state, before);
}

#[test]
fn navigation_in_an_unknown_direction_is_rejected() {
    let mut state = tiled(&["a", "b", "c", "d"], "a");
    let before = state.clone();
    assert!(!navigate(&mut state, "SIDEWAYS"));
    assert!(!navigate(&mut state, "right"));
    assert!(!navigate(&mut state, ""));
    assert_eq!(state, before);
}

#[test]
fn navigation_goes_by_the_focused_workspace() {
    let mut state = WMState::new(2);
    state.workspaces[0] = workspace(&["a", "b"], &["b", "a"], None);
    state.workspaces[1] = workspace(&["x", "y"], &["y", "x"], None);
    state.focused_workspace = 1;
    assert!(navigate(&mut state, "RIGHT"));
    assert_eq!(state.workspaces[1].focus_history, names(&["x", "y"]));
    assert_eq!(state.workspaces[0], workspace(&["a", "b"], &["b", "a"], None));
}
