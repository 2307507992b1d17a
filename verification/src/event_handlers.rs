use crate::event::{
    Event, EventView, ScratchpadEvent, ScratchpadEventView, WindowEvent, WindowEventType,
    WindowEventView, WorkspaceEvent, WorkspaceEventView,
};
use crate::ids::{
    contains_id, copy_id, lemma_push_contains, lemma_rotated_contains, lemma_without_contains,
    remove_id, rotated, same_id, without, Id,
};
use crate::state::{
    holding_another, lemma_window_named, named_otherwise, position_named, remove_entries_holding,
    remove_entries_named, window_named, ScratchpadView, WMState, WMView, WorkspaceState,
    WorkspaceView,
};
use vstd::prelude::*;

verus! {

/// Where focus goes from the window at place `at` of `n` tiled windows.
///
/// The first `n / 2` windows form the left column, the others the right
/// one, each from top to bottom. `LEFT` and `RIGHT` change column and keep
/// the row, `UP` and `DOWN` move within a column and stop at its ends.
/// `None` where the direction leads nowhere or is not one of the four.
pub open spec fn navigation_target(direction: Seq<char>, n: int, at: int) -> Option<int> {
    let left_n = n / 2;
    let right_n = n - left_n;
    if direction == "LEFT"@ {
        if at >= left_n {
            Some(
                if right_n > at {
                    0
                } else {
                    at - right_n
                },
            )
        } else {
            None
        }
    } else if direction == "RIGHT"@ {
        if at < left_n {
            Some(at + left_n)
        } else {
            None
        }
    } else if direction == "UP"@ {
        if at != 0 && at != left_n {
            Some(at - 1)
        } else {
            None
        }
    } else if direction == "DOWN"@ {
        if at != left_n - 1 && at != n - 1 {
            Some(at + 1)
        } else {
            None
        }
    } else {
        None
    }
}

impl WorkspaceView {
    /// The place in `windows` of the window that had focus last.
    pub open spec fn focused_index(self) -> int {
        self.windows.index_of_first(self.focus_history.last()).unwrap()
    }
}

/// The state after a request to bring workspace `ws` into focus, and
/// whether the request was accepted.
pub open spec fn after_workspace_focus(s: WMView, ws: int) -> (WMView, bool) {
    if ws == s.focused_workspace || ws >= s.workspaces.len() {
        (s, false)
    } else {
        (WMView { focused_workspace: ws, ..s }, true)
    }
}

/// The state after a request to move the focused window to workspace `ws`.
pub open spec fn after_move_window(s: WMView, ws: int) -> (WMView, bool) {
    if ws == s.focused_workspace || ws >= s.workspaces.len() {
        (s, false)
    } else {
        match s.focused_window {
            Some(w) => {
                let left = s.with_focused(s.focused().without_window(w));
                (left.with_workspace(ws, left.workspaces[ws].with_window(w)), true)
            },
            None => (s, false),
        }
    }
}

/// The state after a request to switch fullscreen on or off.
pub open spec fn after_fullscreen_toggle(s: WMView) -> WMView {
    let ws = s.focused();
    if ws.fullscreen is Some {
        s.with_focused(WorkspaceView { fullscreen: None, ..ws })
    } else {
        match s.focused_window {
            Some(w) => s.with_focused(WorkspaceView { fullscreen: Some(w), ..ws }),
            None => s,
        }
    }
}

/// The state after a request to cycle the focused workspace's windows.
pub open spec fn after_cycle(s: WMView) -> WMView {
    let ws = s.focused();
    s.with_focused(WorkspaceView { windows: rotated(ws.windows), ..ws })
}

/// The state after a request to move focus in `direction`. Rejected while
/// a window fills the screen, while the scratchpad is on display, with
/// fewer than two windows, and where the direction leads nowhere.
pub open spec fn after_focus_window(s: WMView, direction: Seq<char>) -> (WMView, bool) {
    let ws = s.focused();
    if ws.fullscreen is Some || s.scratchpad.shown is Some || ws.windows.len() < 2 {
        (s, false)
    } else {
        match navigation_target(direction, ws.windows.len() as int, ws.focused_index()) {
            Some(i) => (s.with_focused(ws.with_focus_on(ws.windows[i])), true),
            None => (s, false),
        }
    }
}

/// The state that a workspace request leads to, and whether the request
/// was accepted. A rejected request leaves the state as it was.
pub open spec fn workspace_step(s: WMView, e: WorkspaceEventView) -> (WMView, bool) {
    match e {
        WorkspaceEventView::Focus(ws) => after_workspace_focus(s, ws as int),
        WorkspaceEventView::MoveWindow(ws) => after_move_window(s, ws as int),
        WorkspaceEventView::FullscreenToggle => (after_fullscreen_toggle(s), true),
        WorkspaceEventView::Cycle => (after_cycle(s), true),
        WorkspaceEventView::FocusWindow(direction) => after_focus_window(s, direction),
    }
}

/// Takes `window_id` out of the workspace: out of its windows, out of its
/// focus history, and out of fullscreen if it was there.
pub fn remove_window_from_workspace(state: &mut WorkspaceState, window_id: &str)
    ensures
        final(state)@ == old(state)@.without_window(window_id@),
{
    let wid = window_id.to_owned();
    remove_id(&mut state.windows, &wid);
    remove_id(&mut state.focus_history, &wid);
    let clear = match &state.fullscreen {
        Some(fullscreen) => *fullscreen == wid,
        None => false,
    };
    if clear {
        state.fullscreen = None;
    }
}

/// Appends `window_id` to the workspace's windows and to its focus history.
pub fn add_window_to_workspace(state: &mut WorkspaceState, window_id: &str)
    ensures
        final(state)@ == old(state)@.with_window(window_id@),
{
    let ghost before = state@;
    state.windows.push(window_id.to_owned());
    state.focus_history.push(window_id.to_owned());
    proof {
        assert(state@.windows =~= before.windows.push(window_id@));
        assert(state@.focus_history =~= before.focus_history.push(window_id@));
    }
}

/// Makes `window_id` the most recently focused window of the workspace.
pub fn focus_window_on_workspace(state: &mut WorkspaceState, window_id: &str)
    ensures
        final(state)@ == old(state)@.with_focus_on(window_id@),
{
    let wid = window_id.to_owned();
    remove_id(&mut state.focus_history, &wid);
    let ghost before = state@;
    state.focus_history.push(wid);
    proof {
        assert(state@.focus_history =~= before.focus_history.push(window_id@));
    }
}

/// A workspace that a window left is well-formed if it was before.
pub proof fn lemma_without_window_wf(ws: WorkspaceView, w: Id)
    requires
        ws.wf(),
    ensures
        ws.without_window(w).wf(),
{
    assert forall|x: Id|
        ws.without_window(w).windows.contains(x) <==> ws.without_window(w).focus_history.contains(
            x,
        ) by {
        lemma_without_contains(ws.windows, w, x);
        lemma_without_contains(ws.focus_history, w, x);
    }
}

/// A workspace that a window joined is well-formed if it was before.
pub proof fn lemma_with_window_wf(ws: WorkspaceView, w: Id)
    requires
        ws.wf(),
    ensures
        ws.with_window(w).wf(),
{
    assert forall|x: Id|
        ws.with_window(w).windows.contains(x) <==> ws.with_window(w).focus_history.contains(
            x,
        ) by {
        lemma_push_contains(ws.windows, w, x);
        lemma_push_contains(ws.focus_history, w, x);
    }
}

/// A workspace stays well-formed when focus moves to one of its windows.
pub proof fn lemma_with_focus_on_wf(ws: WorkspaceView, w: Id)
    requires
        ws.wf(),
        ws.windows.contains(w),
    ensures
        ws.with_focus_on(w).wf(),
{
    assert forall|x: Id|
        ws.with_focus_on(w).windows.contains(x) <==> ws.with_focus_on(w).focus_history.contains(
            x,
        ) by {
        lemma_without_contains(ws.focus_history, w, x);
        lemma_push_contains(without(ws.focus_history, w), w, x);
    }
}

/// In a workspace with a window, the window that had focus last is one of
/// its windows, and `focused_index` is the first place at which it stands.
pub proof fn lemma_focused_index(ws: WorkspaceView)
    requires
        ws.wf(),
        ws.windows.len() > 0,
    ensures
        ws.focus_history.len() > 0,
        0 <= ws.focused_index() < ws.windows.len(),
        ws.windows[ws.focused_index()] == ws.focus_history.last(),
        forall|j: int| 0 <= j < ws.focused_index() ==> ws.windows[j] != ws.focus_history.last(),
{
    assert(ws.windows.contains(ws.windows[0]));
    let x = ws.windows[0];
    assert(ws.focus_history.contains(x));
    let last = ws.focus_history.last();
    assert(ws.focus_history[ws.focus_history.len() - 1] == last);
    assert(ws.focus_history.contains(last));
    assert(ws.windows.contains(last));
    ws.windows.index_of_first_ensures(last);
}

/// A workspace request leads from a well-formed state to a well-formed one.
pub proof fn lemma_workspace_step_wf(s: WMView, e: WorkspaceEventView)
    requires
        s.wf(),
    ensures
        workspace_step(s, e).0.wf(),
{
    let ws = s.focused();
    match e {
        WorkspaceEventView::Focus(target) => {},
        WorkspaceEventView::MoveWindow(target) => {
            if let Some(w) = s.focused_window {
                if target as int != s.focused_workspace && (target as int) < s.workspaces.len() {
                    lemma_without_window_wf(ws, w);
                    lemma_with_window_wf(s.workspaces[target as int], w);
                }
            }
        },
        WorkspaceEventView::FullscreenToggle => {
            let t = after_fullscreen_toggle(s);
            assert(t.focused().windows == ws.windows);
            assert(t.focused().focus_history == ws.focus_history);
        },
        WorkspaceEventView::Cycle => {
            assert forall|x: Id|
                rotated(ws.windows).contains(x) <==> ws.focus_history.contains(x) by {
                lemma_rotated_contains(ws.windows, x);
            }
        },
        WorkspaceEventView::FocusWindow(direction) => {
            if ws.windows.len() >= 2 {
                lemma_focused_index(ws);
                match navigation_target(direction, ws.windows.len() as int, ws.focused_index()) {
                    Some(i) => {
                        lemma_navigation_target(
                            direction,
                            ws.windows.len() as int,
                            ws.focused_index(),
                        );
                        assert(ws.windows.contains(ws.windows[i]));
                        lemma_with_focus_on_wf(ws, ws.windows[i]);
                    },
                    None => {},
                }
            }
        },
    }
}

/// A navigation target is the place of a window.
pub proof fn lemma_navigation_target(direction: Seq<char>, n: int, at: int)
    requires
        n >= 2,
        0 <= at < n,
    ensures
        match navigation_target(direction, n, at) {
            Some(i) => 0 <= i < n,
            None => true,
        },
{
}

/// The place among the workspace's windows of the one that had focus last.
pub fn focused_position(ws: &WorkspaceState) -> (at: usize)
    requires
        ws@.wf(),
        ws@.windows.len() > 0,
    ensures
        at as int == ws@.focused_index(),
        at < ws.windows.len(),
{
    proof {
        lemma_focused_index(ws@);
    }
    let last = &ws.focus_history[ws.focus_history.len() - 1];
    let mut at: usize = 0;
    while ws.windows[at] != *last
        invariant
            at < ws.windows.len(),
            at <= ws@.focused_index() < ws.windows.len(),
            ws@.windows[ws@.focused_index()] == last@,
            forall|j: int| 0 <= j < at ==> ws@.windows[j] != last@,
        decreases ws.windows.len() - at,
    {
        at += 1;
    }
    assert(ws@.windows[at as int] == last@);
    at
}

/// Applies a workspace request to the state and says whether it was
/// accepted. A request that names the focused workspace or one that does
/// not exist, a move with no window in focus, and a change of focus that
/// leads nowhere, or that comes while a window fills the screen, while the
/// scratchpad is on display or with fewer than two windows, are rejected.
pub fn handle_workspace_event(now: &mut WMState, event: WorkspaceEvent) -> (accepted: bool)
    requires
        old(now)@.wf(),
    ensures
        final(now)@ == workspace_step(old(now)@, event@).0,
        accepted == workspace_step(old(now)@, event@).1,
        final(now)@.wf(),
{
    proof {
        lemma_workspace_step_wf(now@, event@);
    }
    let fw = now.focused_workspace;
    match event {
        WorkspaceEvent::Focus(ws) => {
            if fw == ws || ws >= now.workspaces.len() {
                return false;
            }
            now.focused_workspace = ws;
            true
        },
        WorkspaceEvent::MoveWindow(ws) => {
            if fw == ws || ws >= now.workspaces.len() {
                return false;
            }
            match copy_id(&now.focused_window) {
                None => false,
                Some(w) => {
                    remove_window_from_workspace(&mut now.workspaces[fw], w.as_str());
                    add_window_to_workspace(&mut now.workspaces[ws], w.as_str());
                    proof {
                        assert(now@.workspaces =~= after_move_window(
                            old(now)@,
                            ws as int,
                        ).0.workspaces);
                    }
                    true
                },
            }
        },
        WorkspaceEvent::FullscreenToggle => {
            if now.workspaces[fw].fullscreen.is_some() {
                now.workspaces[fw].fullscreen = None;
            } else {
                match copy_id(&now.focused_window) {
                    Some(w) => {
                        now.workspaces[fw].fullscreen = Some(w);
                    },
                    None => {},
                }
            }
            proof {
                assert(now@.workspaces =~= after_fullscreen_toggle(old(now)@).workspaces);
            }
            true
        },
        WorkspaceEvent::Cycle => {
            let ghost before = now.workspaces[fw as int]@.windows;
            match now.workspaces[fw].windows.pop() {
                Some(last) => {
                    now.workspaces[fw].windows.insert(0, last);
                    assert(now.workspaces[fw as int]@.windows =~= rotated(before));
                },
                None => {
                    assert(now.workspaces[fw as int]@.windows =~= rotated(before));
                },
            }
            proof {
                assert(now@.workspaces =~= after_cycle(old(now)@).workspaces);
            }
            true
        },
        WorkspaceEvent::FocusWindow(direction) => {
            if now.workspaces[fw].fullscreen.is_some() || now.scratchpad.shown.is_some() {
                return false;
            }
            let n = now.workspaces[fw].windows.len();
            if n < 2 {
                return false;
            }
            let at = focused_position(&now.workspaces[fw]);
            match target_index(&direction, n, at) {
                Some(i) => {
                    let to = now.workspaces[fw].windows[i].clone();
                    focus_window_on_workspace(&mut now.workspaces[fw], to.as_str());
                    proof {
                        assert(now@.workspaces =~= after_focus_window(
                            old(now)@,
                            direction@,
                        ).0.workspaces);
                    }
                    true
                },
                None => false,
            }
        },
    }
}

/// Where focus goes from the window at place `at` of `n` tiled windows.
pub fn target_index(direction: &String, n: usize, at: usize) -> (to: Option<usize>)
    requires
        n >= 2,
        at < n,
    ensures
        match navigation_target(direction@, n as int, at as int) {
            Some(i) => to == Some(i as usize) && i < n,
            None => to is None,
        },
{
    let left_n = n / 2;
    let right_n = n - left_n;
    if *direction == "LEFT".to_owned() {
        if at >= left_n {
            Some(
                if right_n > at {
                    0
                } else {
                    at - right_n
                },
            )
        } else {
            None
        }
    } else if *direction == "RIGHT".to_owned() {
        if at < left_n {
            Some(at + left_n)
        } else {
            None
        }
    } else if *direction == "UP".to_owned() {
        if at != 0 && at != left_n {
            Some(at - 1)
        } else {
            None
        }
    } else if *direction == "DOWN".to_owned() {
        if at != left_n - 1 && at != n - 1 {
            Some(at + 1)
        } else {
            None
        }
    } else {
        None
    }
}

/// The state after a request to put the focused window into the
/// scratchpad under `name`.
pub open spec fn after_add_window(s: WMView, name: Id) -> WMView {
    match s.focused_window {
        Some(w) => s.with_focused(s.focused().without_window(w)).with_scratchpad(
            ScratchpadView { windows: s.scratchpad.windows.push((name, w)), ..s.scratchpad },
        ),
        None => s,
    }
}

/// The state after a request to take the entries called `name` out of the
/// scratchpad: the window of the first of them goes to the focused
/// workspace. Rejected where no entry has that name.
pub open spec fn after_remove_window(s: WMView, name: Id) -> (WMView, bool) {
    match window_named(s.scratchpad.windows, name) {
        Some(w) => (
            s.with_focused(s.focused().with_window(w)).with_scratchpad(
                ScratchpadView {
                    windows: s.scratchpad.windows.filter(named_otherwise(name)),
                    shown: if s.scratchpad.shown == Some(name) {
                        None
                    } else {
                        s.scratchpad.shown
                    },
                },
            ),
            true,
        ),
        None => (s, false),
    }
}

/// The state after a request to toggle the entry called `name`: it is shown,
/// or put away if it is the one on display.
/// Rejected where no entry has that name. Where an entry is on display and
/// its window fills the focused workspace's screen, fullscreen ends.
pub open spec fn after_toggle_window(s: WMView, name: Id) -> (WMView, bool) {
    if window_named(s.scratchpad.windows, name) is None {
        (s, false)
    } else {
        match s.scratchpad.shown {
            Some(current) => {
                let ws = s.focused();
                let fullscreen = if ws.fullscreen is Some && ws.fullscreen
                    == s.scratchpad.shown_window() {
                    None
                } else {
                    ws.fullscreen
                };
                let shown = if current == name {
                    None
                } else {
                    Some(name)
                };
                (
                    s.with_focused(WorkspaceView { fullscreen, ..ws }).with_scratchpad(
                        ScratchpadView { shown, ..s.scratchpad },
                    ),
                    true,
                )
            },
            None => (
                s.with_scratchpad(ScratchpadView { shown: Some(name), ..s.scratchpad }),
                true,
            ),
        }
    }
}

/// The state that a scratchpad request leads to, and whether the request
/// was accepted. A rejected request leaves the state as it was.
pub open spec fn scratchpad_step(s: WMView, e: ScratchpadEventView) -> (WMView, bool) {
    match e {
        ScratchpadEventView::AddWindow(name) => (after_add_window(s, name), true),
        ScratchpadEventView::RemoveWindow(name) => after_remove_window(s, name),
        ScratchpadEventView::ToggleWindow(name) => after_toggle_window(s, name),
    }
}

/// An entry of a given name is found wherever some entry has that name.
pub proof fn lemma_window_named_some(entries: Seq<(Id, Id)>, name: Id, i: int)
    requires
        0 <= i < entries.len(),
        entries[i].0 == name,
    ensures
        window_named(entries, name) is Some,
{
    lemma_window_named(entries, name);
}

/// A scratchpad request leads from a well-formed state to a well-formed one.
pub proof fn lemma_scratchpad_step_wf(s: WMView, e: ScratchpadEventView)
    requires
        s.wf(),
    ensures
        scratchpad_step(s, e).0.wf(),
{
    let ws = s.focused();
    let entries = s.scratchpad.windows;
    match e {
        ScratchpadEventView::AddWindow(name) => {
            if let Some(w) = s.focused_window {
                lemma_without_window_wf(ws, w);
                if let Some(shown) = s.scratchpad.shown {
                    lemma_window_named(entries, shown);
                    let i = choose|i: int| 0 <= i < entries.len() && entries[i].0 == shown;
                    assert(entries.push((name, w))[i].0 == shown);
                    lemma_window_named_some(entries.push((name, w)), shown, i);
                }
            }
        },
        ScratchpadEventView::RemoveWindow(name) => {
            if let Some(w) = window_named(entries, name) {
                lemma_with_window_wf(ws, w);
                if let Some(shown) = s.scratchpad.shown {
                    if shown != name {
                        lemma_window_named(entries, shown);
                        let i = choose|i: int| 0 <= i < entries.len() && entries[i].0 == shown;
                        let kept = entries.filter(named_otherwise(name));
                        entries.lemma_filter_contains(named_otherwise(name), i);
                        let k = choose|k: int| 0 <= k < kept.len() && kept[k] == entries[i];
                        lemma_window_named_some(kept, shown, k);
                    }
                }
            }
        },
        ScratchpadEventView::ToggleWindow(name) => {
            let t = after_toggle_window(s, name).0;
            if window_named(entries, name) is Some && s.scratchpad.shown is Some {
                assert(t.focused().windows == ws.windows);
                assert(t.focused().focus_history == ws.focus_history);
            }
        },
    }
}

/// Applies a scratchpad request to the state and says whether it was
/// accepted. Taking out or toggling a name that no entry has is rejected.
pub fn handle_scratchpad_event(now: &mut WMState, event: ScratchpadEvent) -> (accepted: bool)
    requires
        old(now)@.wf(),
    ensures
        final(now)@ == scratchpad_step(old(now)@, event@).0,
        accepted == scratchpad_step(old(now)@, event@).1,
        final(now)@.wf(),
{
    proof {
        lemma_scratchpad_step_wf(now@, event@);
    }
    let fw = now.focused_workspace;
    match event {
        ScratchpadEvent::AddWindow(name) => {
            match copy_id(&now.focused_window) {
                Some(w) => {
                    remove_window_from_workspace(&mut now.workspaces[fw], w.as_str());
                    let ghost entries = now.scratchpad.windows.deep_view();
                    now.scratchpad.windows.push((name, w));
                    proof {
                        assert(now.scratchpad.windows.deep_view() =~= entries.push((name@, w@)));
                        assert(now@.workspaces =~= after_add_window(old(now)@, name@).workspaces);
                    }
                },
                None => {},
            }
            true
        },
        ScratchpadEvent::RemoveWindow(name) => {
            match position_named(&now.scratchpad.windows, &name) {
                Some(i) => {
                    let w = now.scratchpad.windows[i].1.clone();
                    add_window_to_workspace(&mut now.workspaces[fw], w.as_str());
                    remove_entries_named(&mut now.scratchpad.windows, &name);
                    let conceal = match &now.scratchpad.shown {
                        Some(shown) => *shown == name,
                        None => false,
                    };
                    if conceal {
                        now.scratchpad.shown = None;
                    }
                    proof {
                        assert(now@.workspaces =~= after_remove_window(
                            old(now)@,
                            name@,
                        ).0.workspaces);
                    }
                    true
                },
                None => false,
            }
        },
        ScratchpadEvent::ToggleWindow(name) => {
            if position_named(&now.scratchpad.windows, &name).is_none() {
                return false;
            }
            match copy_id(&now.scratchpad.shown) {
                Some(current) => {
                    let shown_wid = match position_named(&now.scratchpad.windows, &current) {
                        Some(i) => Some(now.scratchpad.windows[i].1.clone()),
                        None => None,
                    };
                    if now.workspaces[fw].fullscreen.is_some() && same_id(
                        &now.workspaces[fw].fullscreen,
                        &shown_wid,
                    ) {
                        now.workspaces[fw].fullscreen = None;
                    }
                    if current == name {
                        now.scratchpad.shown = None;
                    } else {
                        now.scratchpad.shown = Some(name);
                    }
                    proof {
                        assert(now@.workspaces =~= after_toggle_window(
                            old(now)@,
                            name@,
                        ).0.workspaces);
                    }
                },
                None => {
                    now.scratchpad.shown = Some(name);
                },
            }
            true
        },
    }
}

/// Whether `last` reports the creation of window `w`.
pub open spec fn is_creation_of(last: EventView, w: Id) -> bool {
    last == EventView::Window(
        WindowEventView { window_id: w, event_type: WindowEventType::CreateNotify },
    )
}

/// The state after window `w` was mapped, `last` being the event handled
/// before. Only a window whose creation was the event before is taken in:
/// it joins the focused workspace, unless it is one to ignore, in which
/// case the event is rejected.
pub open spec fn after_map(s: WMView, w: Id, last: EventView, ignored: bool) -> (WMView, bool) {
    if is_creation_of(last, w) {
        if ignored {
            (s, false)
        } else {
            (s.with_focused(s.focused().with_window(w)), true)
        }
    } else {
        (s, true)
    }
}

/// The state after window `w` was destroyed: no workspace and no scratchpad
/// entry holds it, no workspace shows it fullscreen, the scratchpad does
/// not display it, and it is not the focused window.
pub open spec fn after_destroy(s: WMView, w: Id) -> WMView {
    WMView {
        workspaces: s.workspaces.map_values(|ws: WorkspaceView| ws.without_window(w)),
        scratchpad: ScratchpadView {
            windows: s.scratchpad.windows.filter(holding_another(w)),
            shown: if s.scratchpad.shown_window() == Some(w) {
                None
            } else {
                s.scratchpad.shown
            },
        },
        focused_workspace: s.focused_workspace,
        focused_window: if s.focused_window == Some(w) {
            None
        } else {
            s.focused_window
        },
    }
}

/// The state after window `w` received focus: a window that the focused
/// workspace knows becomes its most recently focused one, any other becomes
/// the focused window.
pub open spec fn after_focus_in(s: WMView, w: Id) -> WMView {
    if s.focused().focus_history.contains(w) {
        s.with_focused(s.focused().with_focus_on(w))
    } else {
        WMView { focused_window: Some(w), ..s }
    }
}

/// The state that a window event leads to, and whether the event was
/// accepted. `last` is the event handled before this one, and `ignored`
/// says whether the window is of a kind that is not managed.
pub open spec fn window_step(s: WMView, e: WindowEventView, last: EventView, ignored: bool) -> (
    WMView,
    bool,
) {
    match e.event_type {
        WindowEventType::CreateNotify => (s, true),
        WindowEventType::MapNotify => after_map(s, e.window_id, last, ignored),
        WindowEventType::DestroyNotify => (after_destroy(s, e.window_id), true),
        WindowEventType::FocusIn => (after_focus_in(s, e.window_id), true),
        WindowEventType::FocusOut => (s, false),
    }
}

/// A window event leads from a well-formed state to a well-formed one.
pub proof fn lemma_window_step_wf(s: WMView, e: WindowEventView, last: EventView, ignored: bool)
    requires
        s.wf(),
    ensures
        window_step(s, e, last, ignored).0.wf(),
{
    let ws = s.focused();
    let w = e.window_id;
    let entries = s.scratchpad.windows;
    match e.event_type {
        WindowEventType::CreateNotify => {},
        WindowEventType::MapNotify => {
            lemma_with_window_wf(ws, w);
        },
        WindowEventType::DestroyNotify => {
            let t = after_destroy(s, w);
            assert forall|i: int| 0 <= i < t.workspaces.len() implies (
            #[trigger] t.workspaces[i]).wf() by {
                lemma_without_window_wf(s.workspaces[i], w);
            }
            if let Some(shown) = t.scratchpad.shown {
                lemma_window_named(entries, shown);
                let i = choose|i: int|
                    0 <= i < entries.len() && entries[i] == (shown, window_named(entries, shown)->0)
                        && forall|j: int| 0 <= j < i ==> entries[j].0 != shown;
                entries.lemma_filter_contains(holding_another(w), i);
                let kept = t.scratchpad.windows;
                let k = choose|k: int| 0 <= k < kept.len() && kept[k] == entries[i];
                lemma_window_named_some(kept, shown, k);
            }
        },
        WindowEventType::FocusIn => {
            if ws.focus_history.contains(w) {
                lemma_with_focus_on_wf(ws, w);
            }
        },
        WindowEventType::FocusOut => {},
    }
}

/// Whether `last` reports the creation of the window called `window_id`.
pub fn follows_creation(last: &Event, window_id: &String) -> (b: bool)
    ensures
        b == is_creation_of(last@, window_id@),
{
    match last {
        Event::Window(e) => e.event_type == WindowEventType::CreateNotify && e.window_id
            == *window_id,
        _ => false,
    }
}

/// Applies a window event to the state and says whether it was accepted.
/// `last_event` is the event handled before this one; `ignored` says
/// whether the window is of a kind that is not managed, and is read only for
/// a window that is mapped right after its creation.
pub fn handle_window_event(
    now: &mut WMState,
    event: WindowEvent,
    last_event: &Event,
    ignored: bool,
) -> (accepted: bool)
    requires
        old(now)@.wf(),
    ensures
        final(now)@ == window_step(old(now)@, event@, last_event@, ignored).0,
        accepted == window_step(old(now)@, event@, last_event@, ignored).1,
        final(now)@.wf(),
{
    proof {
        lemma_window_step_wf(now@, event@, last_event@, ignored);
    }
    let fw = now.focused_workspace;
    match event.event_type {
        WindowEventType::CreateNotify => true,
        WindowEventType::MapNotify => {
            if follows_creation(last_event, &event.window_id) {
                if ignored {
                    return false;
                }
                add_window_to_workspace(&mut now.workspaces[fw], event.window_id.as_str());
                proof {
                    assert(now@.workspaces =~= after_map(
                        old(now)@,
                        event@.window_id,
                        last_event@,
                        ignored,
                    ).0.workspaces);
                }
            }
            true
        },
        WindowEventType::DestroyNotify => {
            let ghost w = event.window_id@;
            let mut i: usize = 0;
            while i < now.workspaces.len()
                invariant
                    i <= now.workspaces.len(),
                    now.workspaces.len() == old(now).workspaces.len(),
                    now.scratchpad == old(now).scratchpad,
                    now.focused_workspace == old(now).focused_workspace,
                    now.focused_window == old(now).focused_window,
                    w == event.window_id@,
                    forall|j: int|
                        0 <= j < i ==> (#[trigger] now.workspaces[j])@ == old(
                            now,
                        ).workspaces[j]@.without_window(w),
                    forall|j: int|
                        i <= j < now.workspaces.len() ==> (#[trigger] now.workspaces[j]) == old(
                            now,
                        ).workspaces[j],
                decreases now.workspaces.len() - i,
            {
                remove_window_from_workspace(&mut now.workspaces[i], event.window_id.as_str());
                i += 1;
            }
            let shown_wid = match &now.scratchpad.shown {
                Some(shown) => match position_named(&now.scratchpad.windows, shown) {
                    Some(k) => Some(now.scratchpad.windows[k].1.clone()),
                    None => None,
                },
                None => None,
            };
            let conceal = match &shown_wid {
                Some(wid) => *wid == event.window_id,
                None => false,
            };
            if conceal {
                now.scratchpad.shown = None;
            }
            remove_entries_holding(&mut now.scratchpad.windows, &event.window_id);
            let unfocus = match &now.focused_window {
                Some(focused) => *focused == event.window_id,
                None => false,
            };
            if unfocus {
                now.focused_window = None;
            }
            proof {
                assert(now@.workspaces =~= after_destroy(old(now)@, w).workspaces);
            }
            true
        },
        WindowEventType::FocusIn => {
            if contains_id(&now.workspaces[fw].focus_history, &event.window_id) {
                focus_window_on_workspace(&mut now.workspaces[fw], event.window_id.as_str());
                proof {
                    assert(now@.workspaces =~= after_focus_in(
                        old(now)@,
                        event@.window_id,
                    ).workspaces);
                }
            } else {
                now.focused_window = Some(event.window_id);
            }
            true
        },
        WindowEventType::FocusOut => false,
    }
}

/// The state that an event leads to, and whether the event was accepted.
/// `last` is the event handled before this one, and `ignored` says whether
/// the window of a window event is of a kind that is not managed. An event
/// that is not accepted leaves the state as it was.
pub open spec fn step(s: WMView, e: EventView, last: EventView, ignored: bool) -> (WMView, bool) {
    match e {
        EventView::Window(e) => window_step(s, e, last, ignored),
        EventView::Workspace(e) => workspace_step(s, e),
        EventView::Scratchpad(e) => scratchpad_step(s, e),
        EventView::Unknown => (s, false),
    }
}

/// Whether handling `e` after `last` needs to know if the window of `e` is
/// of a kind that is not managed: only a window that is mapped right after
/// its creation is looked at.
pub open spec fn asks_classification(e: EventView, last: EventView) -> bool {
    match e {
        EventView::Window(e) => e.event_type == WindowEventType::MapNotify && is_creation_of(
            last,
            e.window_id,
        ),
        _ => false,
    }
}

/// Whether the window of `event` has to be classified before the event is
/// handled. Where it has not, `handle_event` does not read `ignored`.
pub fn needs_classification(event: &Event, last_event: &Event) -> (asks: bool)
    ensures
        asks == asks_classification(event@, last_event@),
        !asks ==> forall|s: WMView|
            step(s, event@, last_event@, true) == step(s, event@, last_event@, false),
{
    match event {
        Event::Window(e) => e.event_type == WindowEventType::MapNotify && follows_creation(
            last_event,
            &e.window_id,
        ),
        _ => false,
    }
}

/// Applies an event to the state and says whether it was accepted; where
/// it was not, the state is as it was and nothing needs to be displayed
/// anew.
pub fn handle_event(
    now: &mut WMState,
    event: Event,
    last_event: &Event,
    ignored: bool,
) -> (accepted: bool)
    requires
        old(now)@.wf(),
    ensures
        final(now)@ == step(old(now)@, event@, last_event@, ignored).0,
        accepted == step(old(now)@, event@, last_event@, ignored).1,
        final(now)@.wf(),
        !accepted ==> final(now)@ == old(now)@,
{
    proof {
        lemma_rejected_unchanged(now@, event@, last_event@, ignored);
    }
    match event {
        Event::Window(e) => handle_window_event(now, e, last_event, ignored),
        Event::Workspace(e) => handle_workspace_event(now, e),
        Event::Scratchpad(e) => handle_scratchpad_event(now, e),
        Event::Unknown => false,
    }
}

/// An event that is not accepted changes nothing.
pub proof fn lemma_rejected_unchanged(s: WMView, e: EventView, last: EventView, ignored: bool)
    ensures
        !step(s, e, last, ignored).1 ==> step(s, e, last, ignored).0 == s,
{
}

} // verus!
