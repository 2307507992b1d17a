use crate::event::{EventView, ScratchpadEventView, WindowEventType, WorkspaceEventView};
use crate::event_handlers::{
    lemma_focused_index, lemma_navigation_target, navigation_target, step,
};
use crate::ids::{
    lemma_push_contains, lemma_push_no_duplicates, lemma_rotated_contains,
    lemma_without_contains, lemma_without_no_duplicates, without, Id,
};
use crate::ownership::places_unheld_window;
use crate::state::{lemma_window_named, window_named, windows_of, WMView, WorkspaceView};
use vstd::prelude::*;

verus! {

impl WorkspaceView {
    /// No window stands twice in the focus history.
    pub open spec fn history_distinct(self) -> bool {
        self.focus_history.no_duplicates()
    }

    /// The fullscreen window, if there is one, is a window of the workspace.
    pub open spec fn fullscreen_within(self) -> bool {
        self.fullscreen is Some ==> self.windows.contains(self.fullscreen->0)
    }
}

impl WMView {
    /// No focus history lists a window twice.
    pub open spec fn histories_distinct(self) -> bool {
        forall|i: int|
            0 <= i < self.workspaces.len() ==> (#[trigger] self.workspaces[i]).history_distinct()
    }

    /// Each fullscreen window is a window of its workspace.
    pub open spec fn fullscreen_within(self) -> bool {
        forall|i: int|
            0 <= i < self.workspaces.len() ==> (#[trigger] self.workspaces[i]).fullscreen_within()
    }
}

/// Whether event `e` lets only a window of the focused workspace fill its
/// screen: a fullscreen toggle that turns fullscreen on finds the focused
/// window among the workspace's windows.
pub open spec fn fills_with_own_window(s: WMView, e: EventView) -> bool {
    match e {
        EventView::Workspace(WorkspaceEventView::FullscreenToggle) => s.focused().fullscreen
            is None && s.focused_window is Some ==> s.focused().windows.contains(
            s.focused_window->0,
        ),
        _ => true,
    }
}

/// A window that the workspace did not hold is new to its focus history.
proof fn lemma_history_after_joining(ws: WorkspaceView, w: Id)
    requires
        ws.wf(),
        ws.history_distinct(),
        !ws.windows.contains(w),
    ensures
        ws.with_window(w).history_distinct(),
{
    lemma_push_no_duplicates(ws.focus_history, w);
}

/// Taking a window out of a focus history brings no repetition into it.
proof fn lemma_history_after_leaving(ws: WorkspaceView, w: Id)
    requires
        ws.history_distinct(),
    ensures
        ws.without_window(w).history_distinct(),
{
    lemma_without_no_duplicates(ws.focus_history, w);
}

/// A window that received focus stands once in the focus history, at its
/// end.
proof fn lemma_history_after_focus(ws: WorkspaceView, w: Id)
    requires
        ws.history_distinct(),
    ensures
        ws.with_focus_on(w).history_distinct(),
{
    lemma_without_no_duplicates(ws.focus_history, w);
    lemma_without_contains(ws.focus_history, w, w);
    lemma_push_no_duplicates(without(ws.focus_history, w), w);
}

/// No focus history lists a window twice after an event if none did
/// before, every window was held once, and the window that the event gives
/// a new holder has no other holder.
pub proof fn law_histories_distinct(s: WMView, e: EventView, last: EventView, ignored: bool)
    requires
        s.wf(),
        s.held_once(),
        s.histories_distinct(),
        places_unheld_window(s, e, last, ignored),
    ensures
        step(s, e, last, ignored).0.histories_distinct(),
{
    let t = step(s, e, last, ignored).0;
    let fw = s.focused_workspace;
    assert forall|i: int| 0 <= i < t.workspaces.len() implies (
    #[trigger] t.workspaces[i]).history_distinct() by {
        let ws = s.workspaces[i];
        match e {
            EventView::Window(we) => {
                let w = we.window_id;
                match we.event_type {
                    WindowEventType::MapNotify => {
                        if t != s && i == fw {
                            assert(!s.in_workspace(fw, w));
                            lemma_history_after_joining(ws, w);
                        }
                    },
                    WindowEventType::DestroyNotify => {
                        lemma_history_after_leaving(ws, w);
                    },
                    WindowEventType::FocusIn => {
                        lemma_history_after_focus(ws, w);
                    },
                    _ => {},
                }
            },
            EventView::Workspace(we) => {
                match we {
                    WorkspaceEventView::MoveWindow(to) => {
                        if t != s {
                            let w = s.focused_window->0;
                            lemma_history_after_leaving(s.focused(), w);
                            if i == to {
                                assert(s.in_workspace(i, w) ==> s.held_outside_focus(w));
                                lemma_history_after_joining(ws, w);
                            }
                        }
                    },
                    WorkspaceEventView::FocusWindow(direction) => {
                        if t != s && i == fw {
                            lemma_focused_index(ws);
                            let n = ws.windows.len() as int;
                            lemma_navigation_target(direction, n, ws.focused_index());
                            let k = navigation_target(direction, n, ws.focused_index())->0;
                            lemma_history_after_focus(ws, ws.windows[k]);
                        }
                    },
                    _ => {},
                }
            },
            EventView::Scratchpad(se) => {
                match se {
                    ScratchpadEventView::AddWindow(name) => {
                        if let Some(w) = s.focused_window {
                            lemma_history_after_leaving(s.focused(), w);
                        }
                    },
                    ScratchpadEventView::RemoveWindow(name) => {
                        if let Some(w) = window_named(s.scratchpad.windows, name) {
                            if i == fw {
                                lemma_window_named(s.scratchpad.windows, name);
                                let k = choose|k: int|
                                    0 <= k < s.scratchpad.windows.len() && s.scratchpad.windows[k]
                                        == (name, w);
                                assert(windows_of(s.scratchpad.windows)[k] == w);
                                assert(s.in_scratchpad(w));
                                assert(!s.in_workspace(fw, w));
                                lemma_history_after_joining(ws, w);
                            }
                        }
                    },
                    _ => {},
                }
            },
            EventView::Unknown => {},
        }
    }
}

/// Each fullscreen window is a window of its workspace after an event if
/// that was so before and the event lets only a window of the focused
/// workspace fill its screen.
///
/// A fullscreen toggle while the focused window belongs to the scratchpad
/// or to another workspace makes that window fullscreen on the focused
/// workspace; such a toggle is left out.
pub proof fn law_fullscreen_within(s: WMView, e: EventView, last: EventView, ignored: bool)
    requires
        s.wf(),
        s.fullscreen_within(),
        fills_with_own_window(s, e),
    ensures
        step(s, e, last, ignored).0.fullscreen_within(),
{
    let t = step(s, e, last, ignored).0;
    let fw = s.focused_workspace;
    assert forall|i: int| 0 <= i < t.workspaces.len() implies (
    #[trigger] t.workspaces[i]).fullscreen_within() by {
        let ws = s.workspaces[i];
        assert(ws.fullscreen_within());
        if let Some(f) = t.workspaces[i].fullscreen {
            match e {
                EventView::Window(we) => {
                    let w = we.window_id;
                    lemma_push_contains(ws.windows, w, f);
                    lemma_without_contains(ws.windows, w, f);
                },
                EventView::Workspace(we) => {
                    match we {
                        WorkspaceEventView::MoveWindow(to) => {
                            if t != s {
                                let w = s.focused_window->0;
                                lemma_without_contains(s.focused().windows, w, f);
                                let left = s.with_focused(s.focused().without_window(w));
                                lemma_push_contains(left.workspaces[to as int].windows, w, f);
                            }
                        },
                        WorkspaceEventView::Cycle => {
                            lemma_rotated_contains(ws.windows, f);
                        },
                        _ => {},
                    }
                },
                EventView::Scratchpad(se) => {
                    match se {
                        ScratchpadEventView::AddWindow(name) => {
                            if let Some(w) = s.focused_window {
                                lemma_without_contains(ws.windows, w, f);
                            }
                        },
                        ScratchpadEventView::RemoveWindow(name) => {
                            if let Some(w) = window_named(s.scratchpad.windows, name) {
                                lemma_push_contains(ws.windows, w, f);
                            }
                        },
                        _ => {},
                    }
                },
                EventView::Unknown => {},
            }
        }
    }
}

} // verus!
