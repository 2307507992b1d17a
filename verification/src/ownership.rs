use crate::driver::{advanced, lemma_step_wf, remembered};
use crate::event::{EventView, ScratchpadEventView, WindowEventType, WorkspaceEventView};
use crate::event_handlers::{after_map, after_move_window, is_creation_of, step};
use crate::ids::{
    lemma_drop_last_no_duplicates, lemma_push_contains, lemma_push_no_duplicates,
    lemma_push_repeats, lemma_rotated_contains, lemma_rotated_no_duplicates,
    lemma_without_contains, lemma_without_no_duplicates, Id,
};
use crate::state::{
    holding_another, lemma_window_named, named_otherwise, window_named, windows_of,
    ScratchpadView, WMView,
};
use vstd::prelude::*;

verus! {

impl WMView {
    /// Whether the scratchpad holds window `w`.
    pub open spec fn in_scratchpad(self, w: Id) -> bool {
        windows_of(self.scratchpad.windows).contains(w)
    }

    /// Whether the workspace at index `i` holds window `w`.
    pub open spec fn in_workspace(self, i: int, w: Id) -> bool {
        0 <= i < self.workspaces.len() && self.workspaces[i].windows.contains(w)
    }

    /// Whether the scratchpad or a workspace other than the focused one
    /// holds window `w`.
    pub open spec fn held_outside_focus(self, w: Id) -> bool {
        self.in_scratchpad(w) || exists|i: int|
            i != self.focused_workspace && #[trigger] self.in_workspace(i, w)
    }

    /// Whether anything holds window `w`.
    pub open spec fn held(self, w: Id) -> bool {
        self.held_outside_focus(w) || self.in_workspace(self.focused_workspace, w)
    }

    /// Every window has one holder at most, and one place there: no
    /// workspace and no scratchpad lists a window twice, no two workspaces
    /// list the same window, and no workspace lists a window of the
    /// scratchpad.
    pub open spec fn held_once(self) -> bool {
        &&& forall|i: int|
            0 <= i < self.workspaces.len() ==> (#[trigger] self.workspaces[i]).windows
                .no_duplicates()
        &&& windows_of(self.scratchpad.windows).no_duplicates()
        &&& forall|i: int, j: int, w: Id|
            i != j && #[trigger] self.in_workspace(i, w) ==> !#[trigger] self.in_workspace(j, w)
        &&& forall|i: int, w: Id| #[trigger] self.in_workspace(i, w) ==> !self.in_scratchpad(w)
    }
}

/// The window that an event gives a new holder takes no holder along:
/// a window that is mapped into the focused workspace is held by nothing
/// yet, and a window that moves from the focused workspace to another or to
/// the scratchpad is held by nothing outside the focused workspace.
pub open spec fn places_unheld_window(
    s: WMView,
    e: EventView,
    last: EventView,
    ignored: bool,
) -> bool {
    match e {
        EventView::Window(e) => e.event_type == WindowEventType::MapNotify && is_creation_of(
            last,
            e.window_id,
        ) && !ignored ==> !s.held(e.window_id),
        EventView::Workspace(WorkspaceEventView::MoveWindow(ws)) => after_move_window(
            s,
            ws as int,
        ).1 ==> !s.held_outside_focus(s.focused_window->0),
        EventView::Scratchpad(ScratchpadEventView::AddWindow(_)) => s.focused_window is Some
            ==> !s.held_outside_focus(s.focused_window->0),
        _ => true,
    }
}

/// The windows of the entries that pass a test are among the windows of
/// all entries, and repeat none where those repeat none.
pub proof fn lemma_kept_entries(entries: Seq<(Id, Id)>, keep: spec_fn((Id, Id)) -> bool)
    ensures
        forall|x: Id| #[trigger]
            windows_of(entries.filter(keep)).contains(x) ==> windows_of(entries).contains(x),
        windows_of(entries).no_duplicates() ==> windows_of(entries.filter(keep)).no_duplicates(),
    decreases entries.len(),
{
    reveal(Seq::filter);
    if entries.len() > 0 {
        let init = entries.drop_last();
        let last = entries.last();
        lemma_kept_entries(init, keep);
        assert(windows_of(entries) =~= windows_of(init).push(last.1));
        let kept = entries.filter(keep);
        assert forall|x: Id| #[trigger] windows_of(kept).contains(x) implies windows_of(
            entries,
        ).contains(x) by {
            lemma_push_contains(windows_of(init), last.1, x);
            if keep(last) {
                assert(kept == init.filter(keep).push(last));
                assert(windows_of(kept) =~= windows_of(init.filter(keep)).push(last.1));
                lemma_push_contains(windows_of(init.filter(keep)), last.1, x);
                assert(windows_of(init.filter(keep)).contains(x) || x == last.1);
            } else {
                assert(kept == init.filter(keep));
                assert(windows_of(init.filter(keep)).contains(x));
            }
            assert(windows_of(init).contains(x) || x == last.1);
        }
        if windows_of(entries).no_duplicates() {
            lemma_drop_last_no_duplicates(windows_of(entries));
            assert(windows_of(entries).drop_last() =~= windows_of(init));
            if keep(last) {
                assert(windows_of(kept) =~= windows_of(init.filter(keep)).push(last.1));
                lemma_push_no_duplicates(windows_of(init.filter(keep)), last.1);
            }
        }
    } else {
        assert(windows_of(entries.filter(keep)) =~= Seq::<Id>::empty());
    }
}

/// Where no two entries hold the same window, the entries under other
/// names do not hold the window of an entry called `name`.
pub proof fn lemma_named_window_leaves(entries: Seq<(Id, Id)>, name: Id, i: int)
    requires
        windows_of(entries).no_duplicates(),
        0 <= i < entries.len(),
        entries[i].0 == name,
    ensures
        !windows_of(entries.filter(named_otherwise(name))).contains(entries[i].1),
{
    let kept = entries.filter(named_otherwise(name));
    if windows_of(kept).contains(entries[i].1) {
        let k = choose|k: int| 0 <= k < kept.len() && windows_of(kept)[k] == entries[i].1;
        entries.lemma_filter_pred(named_otherwise(name), k);
        assert(kept.contains(kept[k]));
        entries.lemma_filter_contains_rev(named_otherwise(name), kept[k]);
        let j = choose|j: int| 0 <= j < entries.len() && entries[j] == kept[k];
        assert(windows_of(entries)[j] == windows_of(entries)[i]);
    }
}

/// A state whose holders list what they listed in a state where every
/// window is held once holds every window once too.
pub proof fn lemma_same_windows(s: WMView, t: WMView)
    requires
        s.held_once(),
        t.workspaces.len() == s.workspaces.len(),
        forall|i: int|
            0 <= i < s.workspaces.len() ==> (#[trigger] t.workspaces[i]).windows
                == s.workspaces[i].windows,
        t.scratchpad.windows == s.scratchpad.windows,
    ensures
        t.held_once(),
{
    assert forall|i: int, j: int, w: Id|
        i != j && #[trigger] t.in_workspace(i, w) implies !#[trigger] t.in_workspace(j, w) by {
        assert(s.in_workspace(i, w));
        if t.in_workspace(j, w) {
            assert(s.in_workspace(j, w));
        }
    }
    assert forall|i: int, w: Id| #[trigger] t.in_workspace(i, w) implies !t.in_scratchpad(w) by {
        assert(s.in_workspace(i, w));
    }
}

/// A state whose holders list no window twice and only what they listed in
/// a state where every window is held once holds every window once too.
pub proof fn lemma_fewer_windows(s: WMView, t: WMView)
    requires
        s.held_once(),
        t.workspaces.len() == s.workspaces.len(),
        forall|i: int|
            0 <= i < t.workspaces.len() ==> (#[trigger] t.workspaces[i]).windows.no_duplicates(),
        windows_of(t.scratchpad.windows).no_duplicates(),
        forall|i: int, w: Id| #[trigger] t.in_workspace(i, w) ==> s.in_workspace(i, w),
        forall|w: Id| #[trigger] t.in_scratchpad(w) ==> s.in_scratchpad(w),
    ensures
        t.held_once(),
{
    assert forall|i: int, j: int, w: Id|
        i != j && #[trigger] t.in_workspace(i, w) implies !#[trigger] t.in_workspace(j, w) by {
        assert(s.in_workspace(i, w));
        if t.in_workspace(j, w) {
            assert(s.in_workspace(j, w));
        }
    }
    assert forall|i: int, w: Id| #[trigger] t.in_workspace(i, w) implies !t.in_scratchpad(w) by {
        assert(s.in_workspace(i, w));
        if t.in_scratchpad(w) {
            assert(s.in_scratchpad(w));
        }
    }
}

/// A window that nothing holds can join a workspace.
pub proof fn lemma_joins_workspace(s: WMView, to: int, w: Id)
    requires
        s.held_once(),
        0 <= to < s.workspaces.len(),
        !s.in_scratchpad(w),
        forall|i: int| !#[trigger] s.in_workspace(i, w),
    ensures
        s.with_workspace(to, s.workspaces[to].with_window(w)).held_once(),
{
    let t = s.with_workspace(to, s.workspaces[to].with_window(w));
    assert(!s.in_workspace(to, w));
    lemma_push_no_duplicates(s.workspaces[to].windows, w);
    assert forall|i: int, x: Id| #[trigger] t.in_workspace(i, x) implies s.in_workspace(i, x) || (i
        == to && x == w) by {
        if i == to {
            lemma_push_contains(s.workspaces[to].windows, w, x);
        }
    }
    assert forall|i: int, j: int, x: Id|
        i != j && #[trigger] t.in_workspace(i, x) implies !#[trigger] t.in_workspace(j, x) by {
        if t.in_workspace(j, x) {
            if x == w {
                assert(!s.in_workspace(i, x));
                assert(!s.in_workspace(j, x));
            } else {
                assert(s.in_workspace(i, x));
                assert(s.in_workspace(j, x));
            }
        }
    }
    assert forall|i: int, x: Id| #[trigger] t.in_workspace(i, x) implies !t.in_scratchpad(x) by {
        if x != w {
            assert(s.in_workspace(i, x));
        }
    }
    assert forall|i: int| 0 <= i < t.workspaces.len() implies (
    #[trigger] t.workspaces[i]).windows.no_duplicates() by {
        if i != to {
            assert(t.workspaces[i] == s.workspaces[i]);
        }
    }
}

/// Once a window has left the focused workspace, which alone held it,
/// nothing holds it, and every other window is held once as before.
pub proof fn lemma_leaves_focus(s: WMView, w: Id)
    requires
        s.wf(),
        s.held_once(),
        !s.held_outside_focus(w),
    ensures
        ({
            let t = s.with_focused(s.focused().without_window(w));
            &&& t.held_once()
            &&& !t.in_scratchpad(w)
            &&& forall|i: int| !#[trigger] t.in_workspace(i, w)
        }),
{
    let fw = s.focused_workspace;
    let t = s.with_focused(s.focused().without_window(w));
    lemma_without_no_duplicates(s.focused().windows, w);
    assert forall|i: int, x: Id| #[trigger] t.in_workspace(i, x) implies s.in_workspace(i, x) && x
        != w by {
        if i == fw {
            lemma_without_contains(s.focused().windows, w, x);
        } else {
            assert(t.workspaces[i] == s.workspaces[i]);
            if x == w {
                assert(s.in_workspace(i, w));
            }
        }
    }
    assert forall|i: int| 0 <= i < t.workspaces.len() implies (
    #[trigger] t.workspaces[i]).windows.no_duplicates() by {
        if i != fw {
            assert(t.workspaces[i] == s.workspaces[i]);
        }
    }
    lemma_fewer_windows(s, t);
    assert forall|i: int| !#[trigger] t.in_workspace(i, w) by {
        if t.in_workspace(i, w) {
            assert(s.in_workspace(i, w) && w != w);
        }
    }
}

/// Every window is held once after an event if it was so before and the
/// window that the event gives a new holder has no other holder.
///
/// A map of a window that something holds already, and a move of a focused
/// window that the focused workspace does not hold alone, would give that
/// window a second place; such events are left out.
pub proof fn law_ownership(s: WMView, e: EventView, last: EventView, ignored: bool)
    requires
        s.wf(),
        s.held_once(),
        places_unheld_window(s, e, last, ignored),
    ensures
        step(s, e, last, ignored).0.held_once(),
{
    let t = step(s, e, last, ignored).0;
    let fw = s.focused_workspace;
    match e {
        EventView::Window(we) => {
            let w = we.window_id;
            match we.event_type {
                WindowEventType::MapNotify => {
                    if after_map(s, w, last, ignored).0 != s {
                        assert forall|i: int| !#[trigger] s.in_workspace(i, w) by {
                            if s.in_workspace(i, w) {
                                assert(s.held(w));
                            }
                        }
                        lemma_joins_workspace(s, fw, w);
                    }
                },
                WindowEventType::DestroyNotify => {
                    lemma_kept_entries(s.scratchpad.windows, holding_another(w));
                    assert forall|i: int| 0 <= i < t.workspaces.len() implies (
                    #[trigger] t.workspaces[i]).windows.no_duplicates() by {
                        lemma_without_no_duplicates(s.workspaces[i].windows, w);
                    }
                    assert forall|i: int, x: Id| #[trigger]
                        t.in_workspace(i, x) implies s.in_workspace(i, x) by {
                        lemma_without_contains(s.workspaces[i].windows, w, x);
                    }
                    lemma_fewer_windows(s, t);
                },
                WindowEventType::FocusIn => {
                    lemma_same_windows(s, t);
                },
                _ => {},
            }
        },
        EventView::Workspace(we) => {
            match we {
                WorkspaceEventView::MoveWindow(to) => {
                    if after_move_window(s, to as int).1 {
                        let w = s.focused_window->0;
                        lemma_leaves_focus(s, w);
                        let left = s.with_focused(s.focused().without_window(w));
                        lemma_joins_workspace(left, to as int, w);
                    }
                },
                WorkspaceEventView::Cycle => {
                    let windows = s.focused().windows;
                    lemma_rotated_no_duplicates(windows);
                    assert forall|i: int| 0 <= i < t.workspaces.len() implies (
                    #[trigger] t.workspaces[i]).windows.no_duplicates() by {
                        if i != fw {
                            assert(t.workspaces[i] == s.workspaces[i]);
                        }
                    }
                    assert forall|i: int, x: Id| #[trigger]
                        t.in_workspace(i, x) implies s.in_workspace(i, x) by {
                        if i == fw {
                            lemma_rotated_contains(windows, x);
                        }
                    }
                    lemma_fewer_windows(s, t);
                },
                _ => {
                    lemma_same_windows(s, t);
                },
            }
        },
        EventView::Scratchpad(se) => {
            let entries = s.scratchpad.windows;
            match se {
                ScratchpadEventView::AddWindow(name) => {
                    if let Some(w) = s.focused_window {
                        lemma_leaves_focus(s, w);
                        let left = s.with_focused(s.focused().without_window(w));
                        assert(windows_of(entries.push((name, w))) =~= windows_of(entries).push(w));
                        lemma_push_no_duplicates(windows_of(entries), w);
                        assert forall|x: Id| #[trigger]
                            t.in_scratchpad(x) implies left.in_scratchpad(x) || x == w by {
                            lemma_push_contains(windows_of(entries), w, x);
                        }
                        assert forall|i: int, x: Id| #[trigger]
                            t.in_workspace(i, x) implies left.in_workspace(i, x) by {}
                        assert forall|i: int, j: int, x: Id|
                            i != j && #[trigger] t.in_workspace(i, x) implies !#[trigger] t
                                .in_workspace(j, x) by {
                            assert(left.in_workspace(i, x));
                            if t.in_workspace(j, x) {
                                assert(left.in_workspace(j, x));
                            }
                        }
                        assert forall|i: int, x: Id| #[trigger]
                            t.in_workspace(i, x) implies !t.in_scratchpad(x) by {
                            assert(left.in_workspace(i, x));
                        }
                    }
                },
                ScratchpadEventView::RemoveWindow(name) => {
                    if let Some(w) = window_named(entries, name) {
                        lemma_window_named(entries, name);
                        let k = choose|k: int| 0 <= k < entries.len() && entries[k] == (name, w);
                        assert(windows_of(entries)[k] == w);
                        assert(s.in_scratchpad(w));
                        lemma_named_window_leaves(entries, name, k);
                        lemma_kept_entries(entries, named_otherwise(name));
                        let kept = entries.filter(named_otherwise(name));
                        let put_away = s.with_scratchpad(
                            ScratchpadView { windows: kept, ..s.scratchpad },
                        );
                        assert forall|i: int, x: Id| #[trigger]
                            put_away.in_workspace(i, x) implies s.in_workspace(i, x) by {}
                        lemma_fewer_windows(s, put_away);
                        assert forall|i: int| !#[trigger] put_away.in_workspace(i, w) by {
                            if put_away.in_workspace(i, w) {
                                assert(s.in_workspace(i, w));
                            }
                        }
                        lemma_joins_workspace(put_away, fw, w);
                        let joined = put_away.with_workspace(
                            fw,
                            put_away.workspaces[fw].with_window(w),
                        );
                        lemma_same_windows(joined, t);
                    }
                },
                ScratchpadEventView::ToggleWindow(name) => {
                    lemma_same_windows(s, t);
                },
            }
        },
        EventView::Unknown => {},
    }
}

/// The condition of `law_ownership` leaves out no event that it could
/// take in: an event that gives a new holder to a window with another
/// holder leads to a state where that window is held twice.
pub proof fn law_ownership_converse(s: WMView, e: EventView, last: EventView, ignored: bool)
    requires
        s.wf(),
        s.held_once(),
        !places_unheld_window(s, e, last, ignored),
    ensures
        !step(s, e, last, ignored).0.held_once(),
{
    let t = step(s, e, last, ignored).0;
    let fw = s.focused_workspace;
    let entries = s.scratchpad.windows;
    match e {
        EventView::Window(we) => {
            let w = we.window_id;
            lemma_push_contains(s.focused().windows, w, w);
            assert(t.in_workspace(fw, w));
            if s.in_workspace(fw, w) {
                lemma_push_repeats(s.focused().windows, w);
            } else if s.in_scratchpad(w) {
            } else {
                let i = choose|i: int| i != fw && #[trigger] s.in_workspace(i, w);
                assert(t.workspaces[i] == s.workspaces[i]);
                assert(t.in_workspace(i, w));
            }
        },
        EventView::Workspace(WorkspaceEventView::MoveWindow(to)) => {
            let w = s.focused_window->0;
            let left = s.with_focused(s.focused().without_window(w));
            lemma_push_contains(left.workspaces[to as int].windows, w, w);
            assert(t.in_workspace(to as int, w));
            if s.in_scratchpad(w) {
            } else {
                let i = choose|i: int| i != fw && #[trigger] s.in_workspace(i, w);
                assert(left.workspaces[i] == s.workspaces[i]);
                if i == to {
                    lemma_push_repeats(left.workspaces[i].windows, w);
                } else {
                    assert(t.workspaces[i] == s.workspaces[i]);
                    assert(t.in_workspace(i, w));
                }
            }
        },
        EventView::Scratchpad(ScratchpadEventView::AddWindow(name)) => {
            let w = s.focused_window->0;
            assert(windows_of(entries.push((name, w))) =~= windows_of(entries).push(w));
            lemma_push_contains(windows_of(entries), w, w);
            assert(t.in_scratchpad(w));
            if s.in_scratchpad(w) {
                lemma_push_repeats(windows_of(entries), w);
            } else {
                let i = choose|i: int| i != fw && #[trigger] s.in_workspace(i, w);
                assert(t.workspaces[i] == s.workspaces[i]);
                assert(t.in_workspace(i, w));
            }
        },
        _ => {},
    }
}

/// The state that the window manager reaches from its start with `count`
/// workspaces when it is given `inputs` one after the other, each an event
/// and whether the event's window is of a kind that is not managed; and the
/// event that it then counts as handled last.
pub open spec fn reached(count: nat, inputs: Seq<(EventView, bool)>) -> (WMView, EventView)
    decreases inputs.len(),
{
    if inputs.len() == 0 {
        (WMView::initial(count), EventView::Unknown)
    } else {
        let (s, last) = reached(count, inputs.drop_last());
        let (e, ignored) = inputs.last();
        (advanced(s, last, e, ignored), remembered(s, last, e, ignored))
    }
}

/// Whether each of `inputs`, in the state in which it arrives, gives a new
/// holder only to a window that has no other.
pub open spec fn places_unheld_windows(count: nat, inputs: Seq<(EventView, bool)>) -> bool {
    forall|k: int|
        0 <= k < inputs.len() ==> places_unheld_window(
            reached(count, #[trigger] inputs.take(k)).0,
            inputs[k].0,
            reached(count, inputs.take(k)).1,
            inputs[k].1,
        )
}

/// In every state that the window manager reaches, each window is held
/// once at most, provided that no event on the way gave a new holder to a
/// window that had another. Every such state is well-formed as well.
pub proof fn law_reached_held_once(count: nat, inputs: Seq<(EventView, bool)>)
    requires
        count > 0,
        places_unheld_windows(count, inputs),
    ensures
        reached(count, inputs).0.wf(),
        reached(count, inputs).0.held_once(),
    decreases inputs.len(),
{
    if inputs.len() == 0 {
        let s = WMView::initial(count);
        assert(windows_of(s.scratchpad.windows) =~= Seq::<Id>::empty());
        assert forall|i: int, w: Id| !#[trigger] s.in_workspace(i, w) by {}
    } else {
        let before = inputs.drop_last();
        assert forall|k: int| 0 <= k < before.len() implies places_unheld_window(
            reached(count, #[trigger] before.take(k)).0,
            before[k].0,
            reached(count, before.take(k)).1,
            before[k].1,
        ) by {
            assert(before.take(k) =~= inputs.take(k));
        }
        law_reached_held_once(count, before);
        let (s, last) = reached(count, before);
        let (e, ignored) = inputs.last();
        assert(inputs.take(inputs.len() - 1) =~= before);
        law_ownership(s, e, last, ignored);
        lemma_step_wf(s, e, last, ignored);
        let t = step(s, e, last, ignored).0;
        lemma_same_windows(t, advanced(s, last, e, ignored));
    }
}

} // verus!
