use derpywm::event_handlers::{
    add_window_to_workspace, focus_window_on_workspace, focused_position, follows_creation,
    remove_window_from_workspace, target_index,
};
use derpywm::ids::{contains_id, copy_id, copy_ids, remove_id, same_id, same_ids};
use derpywm::state::{
    copy_entries, position_named, remove_entries_holding, remove_entries_named, same_entries,
};
use derpywm::{
    handle_event, Event, ScratchpadEvent, ScratchpadState, WMState, WindowEvent, WindowEventType,
    WorkspaceEvent, WorkspaceState,
};

fn names(items: &[&str]) -> Vec<String> {
    items.iter().map(|s| s.to_string()).collect()
}

fn entries(items: &[(&str, &str)]) -> Vec<(String, String)> {
    items.iter().map(|(n, w)| (n.to_string(), w.to_string())).collect()
}

fn workspace(windows: &[&str], history: &[&str], fullscreen: Option<&str>) -> WorkspaceState {
    WorkspaceState {
        windows: names(windows),
        focus_history: names(history),
        fullscreen: fullscreen.map(|s| s.to_string()),
    }
}

#[test]
fn identifier_lists() {
    let list = names(&["a", "b", "a", "c"]);
    assert!(contains_id(&list, &"c".to_string()));
    assert!(!contains_id(&list, &"d".to_string()));
    assert!(!contains_id(&names(&[]), &"a".to_string()));
    assert_eq!(copy_ids(&list), list);
    let mut without_a = list.clone();
    remove_id(&mut without_a, &"a".to_string());
    assert_eq!(without_a, names(&["b", "c"]));
    let mut same = list.clone();
    remove_id(&mut same, &"z".to_string());
    assert_eq!(same, list);
    assert!(same_ids(&list, &same));
    assert!(!same_ids(&list, &without_a));
    assert!(!same_ids(&names(&["a", "b"]), &names(&["b", "a"])));
    assert!(same_ids(&names(&[]), &names(&[])));
}

#[test]
fn optional_identifiers() {
    let a = Some("a".to_string());
    let b = Some("b".to_string());
    assert!(same_id(&a, &a.clone()));
    assert!(!same_id(&a, &b));
    assert!(!same_id(&a, &None));
    assert!(!same_id(&None, &b));
    assert!(same_id(&None, &None));
    assert_eq!(copy_id(&a), a);
    assert_eq!(copy_id(&None), None);
}

#[test]
fn scratchpad_entries() {
    let list = entries(&[("t", "x"), ("u", "y"), ("t", "z"), ("v", "x")]);
    assert_eq!(position_named(&list, &"t".to_string()), Some(0));
    assert_eq!(position_named(&list, &"v".to_string()), Some(3));
    assert_eq!(position_named(&list, &"w".to_string()), None);
    assert_eq!(copy_entries(&list), list);
    assert!(same_entries(&list, &list.clone()));
    assert!(!same_entries(&list, &entries(&[("t", "x")])));
    assert!(!same_entries(&entries(&[("t", "x")]), &entries(&[("t", "y")])));
    assert!(!same_entries(&entries(&[("t", "x")]), &entries(&[("u", "x")])));
    let mut by_name = list.clone();
    remove_entries_named(&mut by_name, &"t".to_string());
    assert_eq!(by_name, entries(&[("u", "y"), ("v", "x")]));
    let mut by_window = list.clone();
    remove_entries_holding(&mut by_window, &"x".to_string());
    assert_eq!(by_window, entries(&[("u", "y"), ("t", "z")]));
}

#[test]
fn workspace_changes() {
    let mut ws = workspace(&["a", "b"], &["b", "a"], Some("a"));
    add_window_to_workspace(&mut ws, "c");
    assert_eq!(ws, workspace(&["a", "b", "c"], &["b", "a", "c"], Some("a")));
    focus_window_on_workspace(&mut ws, "b");
    assert_eq!(ws, workspace(&["a", "b", "c"], &["a", "c", "b"], Some("a")));
    remove_window_from_workspace(&mut ws, "c");
    assert_eq!(ws, workspace(&["a", "b"], &["a", "b"], Some("a")));
    remove_window_from_workspace(&mut ws, "a");
    assert_eq!(ws, workspace(&["b"], &["b"], None));
    remove_window_from_workspace(&mut ws, "zzz");
    assert_eq!(ws, workspace(&["b"], &["b"], None));
}

#[test]
fn focused_position_is_the_place_of_the_last_focused_window() {
    assert_eq!(focused_position(&workspace(&["a", "b", "c"], &["c", "a", "b"], None)), 1);
    assert_eq!(focused_position(&workspace(&["a", "b", "c"], &["c", "b", "a"], None)), 0);
    assert_eq!(focused_position(&workspace(&["a"], &["a"], None)), 0);
}

#[test]
fn target_index_follows_the_columns() {
    let left = "LEFT".to_string();
    let right = "RIGHT".to_string();
    let up = "UP".to_string();
    let down = "DOWN".to_string();
    assert_eq!(target_index(&right, 4, 0), Some(2));
    assert_eq!(target_index(&left, 4, 2), Some(0));
    assert_eq!(target_index(&down, 4, 0), Some(1));
    assert_eq!(target_index(&up, 4, 1), Some(0));
    assert_eq!(target_index(&up, 4, 3), Some(2));
    assert_eq!(target_index(&left, 4, 0), None);
    assert_eq!(target_index(&left, 7, 3), Some(0));
    assert_eq!(target_index(&left, 7, 4), Some(0));
    assert_eq!(target_index(&left, 7, 6), Some(2));
    assert_eq!(target_index(&right, 7, 2), Some(5));
    assert_eq!(target_index(&down, 7, 2), None);
    assert_eq!(target_index(&down, 7, 6), None);
    assert_eq!(target_index(&up, 7, 3), None);
    assert_eq!(target_index(&"".to_string(), 7, 3), None);
}

#[test]
fn creation_is_recognised() {
    let created = Event::Window(WindowEvent {
        window_id: "w".to_string(),
        event_type: WindowEventType::CreateNotify,
    });
    assert!(follows_creation(&created, &"w".to_string()));
    assert!(!follows_creation(&created, &"v".to_string()));
    assert!(!follows_creation(&Event::Unknown, &"w".to_string()));
    let mapped = Event::Window(WindowEvent {
        window_id: "w".to_string(),
        event_type: WindowEventType::MapNotify,
    });
    assert!(!follows_creation(&mapped, &"w".to_string()));
}

#[test]
fn snapshots_are_equal_and_apart() {
    let mut state = WMState::new(2);
    state.workspaces[1] = workspace(&["a", "b"], &["b", "a"], Some("b"));
    state.scratchpad =
        ScratchpadState { windows: entries(&[("t", "x")]), shown: Some("t".to_string()) };
    state.focused_workspace = 1;
    state.focused_window = Some("x".to_string());
    let mut copy = state.snapshot();
    assert_eq!(copy, state);
    copy.workspaces[1].windows.push("c".to_string());
    assert_eq!(state.workspaces[1].windows, names(&["a", "b"]));
    assert_eq!(state.workspaces[1].snapshot(), state.workspaces[1]);
    for event in [
        Event::Unknown,
        Event::Window(WindowEvent {
            window_id: "w".to_string(),
            event_type: WindowEventType::FocusIn,
        }),
        Event::Workspace(WorkspaceEvent::MoveWindow(3)),
        Event::Workspace(WorkspaceEvent::Focus(2)),
        Event::Workspace(WorkspaceEvent::FocusWindow("UP".to_string())),
        Event::Workspace(WorkspaceEvent::FullscreenToggle),
        Event::Workspace(WorkspaceEvent::Cycle),
        Event::Scratchpad(ScratchpadEvent::AddWindow("t".to_string())),
        Event::Scratchpad(ScratchpadEvent::RemoveWindow("t".to_string())),
        Event::Scratchpad(ScratchpadEvent::ToggleWindow("t".to_string())),
    ] {
        assert_eq!(event.snapshot(), event);
    }
}

#[test]
fn handle_event_goes_by_the_kind_of_event() {
    let mut state = WMState::new(2);
    state.workspaces[0] = workspace(&["a", "b"], &["a", "b"], None);
    state.focused_window = Some("b".to_string());
    let before = state.clone();
    assert!(!handle_event(&mut state, Event::Unknown, &Event::Unknown, false));
    assert_eq!(state, before);
    assert!(handle_event(
        &mut state,
        Event::Workspace(WorkspaceEvent::Cycle),
        &Event::Unknown,
        false
    ));
    assert_eq!(state.workspaces[0].windows, names(&["b", "a"]));
    assert!(handle_event(
        &mut state,
        Event::Scratchpad(ScratchpadEvent::AddWindow("t".to_string())),
        &Event::Unknown,
        false
    ));
    assert_eq!(state.scratchpad.windows, entries(&[("t", "b")]));
    assert!(handle_event(
        &mut state,
        Event::Window(WindowEvent {
            window_id: "a".to_string(),
            event_type: WindowEventType::DestroyNotify
        }),
        &Event::Unknown,
        false
    ));
    assert!(state.workspaces[0].windows.is_empty());
}
