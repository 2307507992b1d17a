use crate::action::{absent_from, visibility_plan, ActionView};
use crate::config::ConfigView;
use crate::event::WorkspaceEventView;
use crate::event_handlers::{after_destroy, after_toggle_window, workspace_step};
use crate::ids::{lemma_without_contains, Id};
use crate::reconciler::{
    diff_plan, display_plan, focus_plan, focuses_history, fullscreen_plan, new_window_plan,
    reshow_plan, resolved_focus, scratchpad_plan, switch_plan, tiling_plan, unfocus_plan,
    unfullscreen_plan,
};
use crate::state::{holding_another, lemma_window_named, window_named, windows_of, WMView};
use vstd::prelude::*;

verus! {

/// No window of a list is absent from that list.
pub proof fn lemma_none_absent_from_itself(windows: Seq<Id>, k: int)
    requires
        0 <= k <= windows.len(),
    ensures
        windows.take(k).filter(absent_from(windows)) == Seq::<Id>::empty(),
    decreases k,
{
    reveal(Seq::filter);
    if k > 0 {
        lemma_none_absent_from_itself(windows, k - 1);
        assert(windows.take(k).drop_last() =~= windows.take(k - 1));
        assert(windows.take(k).last() == windows[k - 1]);
        assert(windows.contains(windows[k - 1]));
    } else {
        assert(windows.take(0) =~= Seq::<Id>::empty());
    }
}

/// Reconciling a state with itself changes nothing on the display but the
/// focus, and the focus only where the focused workspace shows its tiled
/// windows: no window fullscreen, none from the scratchpad, and a focus
/// history to go by. Then the most recently focused window is focused
/// anew. In every other state the plan is empty and the focused window
/// stays.
pub proof fn law_reconcile_same(s: WMView, cfg: ConfigView)
    requires
        s.wf(),
    ensures
        !focuses_history(s) ==> display_plan(s, s, cfg) == Seq::<ActionView>::empty()
            && resolved_focus(s, s) == s.focused_window,
        focuses_history(s) ==> display_plan(s, s, cfg) == unfocus_plan(s, cfg).push(
            ActionView::BorderWindow {
                window_id: s.focused().focus_history.last(),
                color: cfg.focused_border,
            },
        ).push(ActionView::FocusWindow(s.focused().focus_history.last())) && resolved_focus(s, s)
            == Some(s.focused().focus_history.last()),
{
    let nothing = Seq::<ActionView>::empty();
    let windows = s.focused().windows;
    lemma_none_absent_from_itself(windows, windows.len() as int);
    assert(windows.take(windows.len() as int) =~= windows);
    assert(visibility_plan(Seq::<Id>::empty(), false) =~= nothing);
    assert(visibility_plan(Seq::<Id>::empty(), true) =~= nothing);
    assert(switch_plan(s, s) == nothing);
    assert(scratchpad_plan(s, s, cfg) == nothing);
    assert(diff_plan(s, s) =~= nothing);
    assert(new_window_plan(s, s, cfg) == nothing);
    assert(unfullscreen_plan(s, s, cfg) == nothing);
    assert(tiling_plan(s, s, cfg) == nothing);
    assert(reshow_plan(s, s, cfg) == nothing);
    assert(fullscreen_plan(s, s, cfg) == nothing);
    assert(display_plan(s, s, cfg) =~= focus_plan(s, s, cfg));
}

/// After window `w` was destroyed, nothing refers to it: no workspace
/// lists it among its windows or in its focus history or shows it
/// fullscreen, no scratchpad entry holds it, the scratchpad does not
/// display it, and it is not the focused window. A name on display whose
/// window was `w` is on display no more. Every other window stays where it
/// was.
pub proof fn law_destroy_cleanup(s: WMView, w: Id)
    requires
        s.wf(),
    ensures
        ({
            let t = after_destroy(s, w);
            &&& t.workspaces.len() == s.workspaces.len()
            &&& forall|i: int|
                0 <= i < t.workspaces.len() ==> {
                    let ws = #[trigger] t.workspaces[i];
                    &&& !ws.windows.contains(w)
                    &&& !ws.focus_history.contains(w)
                    &&& ws.fullscreen != Some(w)
                }
            &&& !windows_of(t.scratchpad.windows).contains(w)
            &&& t.scratchpad.shown_window() != Some(w)
            &&& s.scratchpad.shown_window() == Some(w) ==> t.scratchpad.shown is None
            &&& t.focused_window != Some(w)
            &&& forall|i: int, x: Id|
                0 <= i < t.workspaces.len() && x != w ==> (#[trigger] t.workspaces[i].windows
                    .contains(x) <==> s.workspaces[i].windows.contains(x))
            &&& forall|x: Id|
                x != w ==> (#[trigger] windows_of(t.scratchpad.windows).contains(x) <==> windows_of(
                    s.scratchpad.windows,
                ).contains(x))
        }),
{
    let t = after_destroy(s, w);
    let entries = s.scratchpad.windows;
    let kept = t.scratchpad.windows;
    assert forall|i: int| 0 <= i < t.workspaces.len() implies {
        let ws = #[trigger] t.workspaces[i];
        &&& !ws.windows.contains(w)
        &&& !ws.focus_history.contains(w)
        &&& ws.fullscreen != Some(w)
    } by {
        lemma_without_contains(s.workspaces[i].windows, w, w);
        lemma_without_contains(s.workspaces[i].focus_history, w, w);
    }
    assert forall|i: int, x: Id| 0 <= i < t.workspaces.len() && x != w implies (
    #[trigger] t.workspaces[i].windows.contains(x) <==> s.workspaces[i].windows.contains(x)) by {
        lemma_without_contains(s.workspaces[i].windows, w, x);
    }
    lemma_kept_windows(entries, w);
    if let Some(name) = t.scratchpad.shown {
        lemma_window_named(kept, name);
        if let Some(x) = window_named(kept, name) {
            let i = choose|i: int| 0 <= i < kept.len() && kept[i] == (name, x);
            assert(windows_of(kept)[i] == x);
        }
    }
}

/// The entries that hold another window than `w` hold every window but
/// `w` that the entries held.
pub proof fn lemma_kept_windows(entries: Seq<(Id, Id)>, w: Id)
    ensures
        forall|x: Id|
            #[trigger] windows_of(entries.filter(holding_another(w))).contains(x) <==> (windows_of(
                entries,
            ).contains(x) && x != w),
{
    let kept = entries.filter(holding_another(w));
    assert forall|x: Id| #[trigger]
        windows_of(kept).contains(x) <==> (windows_of(entries).contains(x) && x != w) by {
        if windows_of(kept).contains(x) {
            let i = choose|i: int| 0 <= i < kept.len() && windows_of(kept)[i] == x;
            entries.lemma_filter_pred(holding_another(w), i);
            assert(kept.contains(kept[i]));
            entries.lemma_filter_contains_rev(holding_another(w), kept[i]);
            let j = choose|j: int| 0 <= j < entries.len() && entries[j] == kept[i];
            assert(windows_of(entries)[j] == x);
        }
        if windows_of(entries).contains(x) && x != w {
            let j = choose|j: int| 0 <= j < entries.len() && windows_of(entries)[j] == x;
            entries.lemma_filter_contains(holding_another(w), j);
            let i = choose|i: int| 0 <= i < kept.len() && kept[i] == entries[j];
            assert(windows_of(kept)[i] == x);
        }
    }
}

/// Toggling the same name twice brings back the name that was on display,
/// where nothing was on display, where that very name was, or where no
/// entry has the name. (Where another name was on display, the first
/// toggle replaces it and the second leaves nothing on display.)
pub proof fn law_toggle_twice(s: WMView, name: Id)
    requires
        s.wf(),
        s.scratchpad.shown is None || s.scratchpad.shown == Some(name) || window_named(
            s.scratchpad.windows,
            name,
        ) is None,
    ensures
        ({
            let once = after_toggle_window(s, name).0;
            let twice = after_toggle_window(once, name).0;
            &&& twice.scratchpad.shown == s.scratchpad.shown
            &&& twice.scratchpad.windows == s.scratchpad.windows
        }),
{
}

/// A request to focus the workspace that is in focus already is rejected
/// and leaves the state as it was.
pub proof fn law_refocus_rejected(s: WMView, ws: usize)
    requires
        ws as int == s.focused_workspace,
    ensures
        workspace_step(s, WorkspaceEventView::Focus(ws)) == (s, false),
{
}

/// Where the window that the scratchpad displays also fills the focused
/// workspace's screen, a toggle of any name that has an entry ends
/// fullscreen on that workspace.
pub proof fn law_toggle_ends_fullscreen(s: WMView, name: Id, x: Id)
    requires
        s.wf(),
        s.scratchpad.shown_window() == Some(x),
        s.focused().fullscreen == Some(x),
        window_named(s.scratchpad.windows, name) is Some,
    ensures
        after_toggle_window(s, name).1,
        after_toggle_window(s, name).0.focused().fullscreen is None,
{
}

} // verus!
