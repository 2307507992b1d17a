use derpywm::{handle_scratchpad_event, ScratchpadEvent, ScratchpadState, WMState, WorkspaceState};

fn names(items: &[&str]) -> Vec<String> {
    items.iter().map(|s| s.to_string()).collect()
}

fn workspace(windows: &[&str], history: &[&str], fullscreen: Option<&str>) -> WorkspaceState {
    WorkspaceState {
        windows: names(windows),
        focus_history: names(history),
        fullscreen: fullscreen.map(|s| s.to_string()),
    }
}

fn entries(items: &[(&str, &str)]) -> Vec<(String, String)> {
    items.iter().map(|(n, w)| (n.to_string(), w.to_string())).collect()
}

fn add(name: &str) -> ScratchpadEvent {
    ScratchpadEvent::AddWindow(name.to_string())
}

fn remove(name: &str) -> ScratchpadEvent {
    ScratchpadEvent::RemoveWindow(name.to_string())
}

fn toggle(name: &str) -> ScratchpadEvent {
    ScratchpadEvent::ToggleWindow(name.to_string())
}

#[test]
fn add_window_moves_the_focused_window_into_the_scratchpad() {
    let mut state = WMState::new(2);
    state.workspaces[0] = workspace(&["a", "b"], &["a", "b"], Some("b"));
    state.workspaces[1] = workspace(&["c"], &["c"], None);
    state.scratchpad.windows = entries(&[("old", "o")]);
    state.focused_window = Some("b".to_string());
    assert!(handle_scratchpad_event(&mut state, add("term")));
    assert_eq!(state.workspaces[0], workspace(&["a"], &["a"], None));
    assert_eq!(state.workspaces[1], workspace(&["c"], &["c"], None));
    assert_eq!(state.scratchpad.windows, entries(&[("old", "o"), ("term", "b")]));
    assert_eq!(state.scratchpad.shown, None);
    assert_eq!(state.focused_window, Some("b".to_string()));
}

#[test]
fn add_window_without_focused_window_changes_nothing() {
    let mut state = WMState::new(1);
    state.workspaces[0] = workspace(&["a"], &["a"], None);
    let before = state.clone();
    assert!(handle_scratchpad_event(&mut state, add("term")));
    assert_eq!(state, before);
}

#[test]
fn add_window_may_repeat_a_name() {
    let mut state = WMState::new(1);
    state.workspaces[0] = workspace(&["a"], &["a"], None);
    state.scratchpad.windows = entries(&[("term", "t")]);
    state.focused_window = Some("a".to_string());
    assert!(handle_scratchpad_event(&mut state, add("term")));
    assert_eq!(state.scratchpad.windows, entries(&[("term", "t"), ("term", "a")]));
}

#[test]
fn remove_window_brings_the_window_back() {
    let mut state = WMState::new(2);
    state.focused_workspace = 1;
    state.workspaces[1] = workspace(&["a"], &["a"], None);
    state.scratchpad = ScratchpadState {
        windows: entries(&[("one", "x"), ("two", "y")]),
        shown: Some("two".to_string()),
    };
    assert!(handle_scratchpad_event(&mut state, remove("one")));
    assert_eq!(state.workspaces[1], workspace(&["a", "x"], &["a", "x"], None));
    assert_eq!(state.workspaces[0], workspace(&[], &[], None));
    assert_eq!(state.scratchpad.windows, entries(&[("two", "y")]));
    assert_eq!(state.scratchpad.shown, Some("two".to_string()));
}

#[test]
fn remove_window_of_the_shown_entry_clears_shown() {
    let mut state = WMState::new(1);
    state.scratchpad = ScratchpadState {
        windows: entries(&[("one", "x")]),
        shown: Some("one".to_string()),
    };
    assert!(handle_scratchpad_event(&mut state, remove("one")));
    assert_eq!(state.workspaces[0], workspace(&["x"], &["x"], None));
    assert!(state.scratchpad.windows.is_empty());
    assert_eq!(state.scratchpad.shown, None);
}

#[test]
fn remove_window_of_an_unknown_name_is_rejected() {
    let mut state = WMState::new(1);
    state.scratchpad = ScratchpadState {
        windows: entries(&[("one", "x")]),
        shown: Some("one".to_string()),
    };
    let before = state.clone();
    assert!(!handle_scratchpad_event(&mut state, remove("two")));
    assert_eq!(state, before);
}

#[test]
fn remove_window_drops_every_entry_of_the_name() {
    let mut state = WMState::new(1);
    state.scratchpad.windows = entries(&[("a", "x"), ("b", "y"), ("a", "z")]);
    assert!(handle_scratchpad_event(&mut state, remove("a")));
    assert_eq!(state.workspaces[0].windows, names(&["x"]));
    assert_eq!(state.scratchpad.windows, entries(&[("b", "y")]));
}

#[test]
fn toggle_window_of_an_unknown_name_is_rejected() {
    let mut state = WMState::new(1);
    state.scratchpad.windows = entries(&[("one", "x")]);
    let before = state.clone();
    assert!(!handle_scratchpad_event(&mut state, toggle("two")));
    assert_eq!(state, before);
    let mut empty = WMState::new(1);
    assert!(!handle_scratchpad_event(&mut empty, toggle("one")));
}

#[test]
fn toggle_window_shows_then_puts_away() {
    let mut state = WMState::new(1);
    state.workspaces[0] = workspace(&["a"], &["a"], None);
    state.scratchpad.windows = entries(&[("one", "x")]);
    assert!(handle_scratchpad_event(&mut state, toggle("one")));
    assert_eq!(state.scratchpad.shown, Some("one".to_string()));
    assert!(handle_scratchpad_event(&mut state, toggle("one")));
    assert_eq!(state.scratchpad.shown, None);
    assert_eq!(state.scratchpad.windows, entries(&[("one", "x")]));
    assert_eq!(state.workspaces[0], workspace(&["a"], &["a"], None));
}

#[test]
fn toggle_window_twice_from_shown_shows_again() {
    let mut state = WMState::new(1);
    state.scratchpad = ScratchpadState {
        windows: entries(&[("one", "x")]),
        shown: Some("one".to_string()),
    };
    assert!(handle_scratchpad_event(&mut state, toggle("one")));
    assert_eq!(state.scratchpad.shown, None);
    assert!(handle_scratchpad_event(&mut state, toggle("one")));
    assert_eq!(state.scratchpad.shown, Some("one".to_string()));
}

#[test]
fn toggle_window_replaces_another_shown_entry() {
    let mut state = WMState::new(1);
    state.scratchpad = ScratchpadState {
        windows: entries(&[("one", "x"), ("two", "y")]),
        shown: Some("one".to_string()),
    };
    assert!(handle_scratchpad_event(&mut state, toggle("two")));
    assert_eq!(state.scratchpad.shown, Some("two".to_string()));
    assert!(handle_scratchpad_event(&mut state, toggle("two")));
    assert_eq!(state.scratchpad.shown, None);
}

#[test]
fn toggle_window_ends_fullscreen_of_the_shown_window() {
    let mut state = WMState::new(2);
    state.workspaces[0] = workspace(&["a"], &["a"], Some("x"));
    state.workspaces[1] = workspace(&["b"], &["b"], Some("x"));
    state.scratchpad = ScratchpadState {
        windows: entries(&[("one", "x"), ("two", "y")]),
        shown: Some("one".to_string()),
    };
    assert!(handle_scratchpad_event(&mut state, toggle("one")));
    assert_eq!(state.workspaces[0].fullscreen, None);
    assert_eq!(state.workspaces[1].fullscreen, Some("x".to_string()));
    assert_eq!(state.scratchpad.shown, None);
}

#[test]
fn toggle_of_another_name_ends_fullscreen_of_the_shown_window() {
    let mut state = WMState::new(1);
    state.workspaces[0] = workspace(&["a"], &["a"], Some("x"));
    state.scratchpad = ScratchpadState {
        windows: entries(&[("one", "x"), ("two", "y")]),
        shown: Some("one".to_string()),
    };
    assert!(handle_scratchpad_event(&mut state, toggle("two")));
    assert_eq!(state.workspaces[0].fullscreen, None);
    assert_eq!(state.scratchpad.shown, Some("two".to_string()));
}

#[test]
fn toggle_window_keeps_fullscreen_of_another_window() {
    let mut state = WMState::new(1);
    state.workspaces[0] = workspace(&["a"], &["a"], Some("a"));
    state.scratchpad = ScratchpadState {
        windows: entries(&[("one", "x")]),
        shown: Some("one".to_string()),
    };
    assert!(handle_scratchpad_event(&mut state, toggle("one")));
    assert_eq!(state.workspaces[0].fullscreen, Some("a".to_string()));
}

#[test]
fn toggle_window_compares_fullscreen_with_the_window_not_the_name() {
    let mut state = WMState::new(1);
    state.workspaces[0] = workspace(&["one"], &["one"], Some("one"));
    state.scratchpad = ScratchpadState {
        windows: entries(&[("one", "x")]),
        shown: Some("one".to_string()),
    };
    assert!(handle_scratchpad_event(&mut state, toggle("one")));
    assert_eq!(state.workspaces[0].fullscreen, Some("one".to_string()));
}

#[test]
fn toggle_window_with_nothing_shown_keeps_fullscreen() {
    let mut state = WMState::new(1);
    state.workspaces[0] = workspace(&["a"], &["a"], Some("x"));
    state.scratchpad.windows = entries(&[("one", "x")]);
    assert!(handle_scratchpad_event(&mut state, toggle("one")));
    assert_eq!(state.workspaces[0].fullscreen, Some("x".to_string()));
    assert_eq!(state.scratchpad.shown, Some("one".to_string()));
}
