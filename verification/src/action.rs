use crate::ids::{contains_id, Id};
use crate::state::WindowId;
use vstd::prelude::*;

verus! {

/// One thing to do to the display. Positions and sizes are in pixels.
#[derive(Debug, Clone, PartialEq, Eq)]
pub enum Action {
    /// Make the window visible.
    MapWindow(WindowId),
    /// Hide the window.
    UnmapWindow(WindowId),
    /// Draw the window's border in this colour.
    BorderWindow { window_id: WindowId, color: String },
    /// Put the window's corner at `x`, `y` and give it width `w`, height `h`.
    MoveWindow { window_id: WindowId, x: usize, y: usize, w: usize, h: usize },
    /// Give the window the input focus.
    FocusWindow(WindowId),
    /// Raise the window above the others.
    ForegroundWindow(WindowId),
    /// Let the window fill a screen of this width and height, without a border.
    FullscreenWindow { window_id: WindowId, width: usize, height: usize },
    /// Lay these windows out in two columns on a screen of this width and
    /// height, with this gap between them and this much height left free.
    TileWindows { windows: Vec<WindowId>, gap: usize, width: usize, height: usize, panel: usize },
}

/// An action as contracts see it: identifiers as characters, numbers
/// without bounds.
pub enum ActionView {
    MapWindow(Id),
    UnmapWindow(Id),
    BorderWindow { window_id: Id, color: Seq<char> },
    MoveWindow { window_id: Id, x: int, y: int, w: int, h: int },
    FocusWindow(Id),
    ForegroundWindow(Id),
    FullscreenWindow { window_id: Id, width: int, height: int },
    TileWindows { windows: Seq<Id>, gap: int, width: int, height: int, panel: int },
}

impl View for Action {
    type V = ActionView;

    open spec fn view(&self) -> ActionView {
        match *self {
            Action::MapWindow(w) => ActionView::MapWindow(w@),
            Action::UnmapWindow(w) => ActionView::UnmapWindow(w@),
            Action::BorderWindow { window_id, color } => ActionView::BorderWindow {
                window_id: window_id@,
                color: color@,
            },
            Action::MoveWindow { window_id, x, y, w, h } => ActionView::MoveWindow {
                window_id: window_id@,
                x: x as int,
                y: y as int,
                w: w as int,
                h: h as int,
            },
            Action::FocusWindow(w) => ActionView::FocusWindow(w@),
            Action::ForegroundWindow(w) => ActionView::ForegroundWindow(w@),
            Action::FullscreenWindow { window_id, width, height } => ActionView::FullscreenWindow {
                window_id: window_id@,
                width: width as int,
                height: height as int,
            },
            Action::TileWindows { windows, gap, width, height, panel } => ActionView::TileWindows {
                windows: windows.deep_view(),
                gap: gap as int,
                width: width as int,
                height: height as int,
                panel: panel as int,
            },
        }
    }
}

impl DeepView for Action {
    type V = ActionView;

    open spec fn deep_view(&self) -> ActionView {
        self.view()
    }
}

/// Appends `action` to `plan`.
pub fn emit(plan: &mut Vec<Action>, action: Action)
    ensures
        final(plan).deep_view() == old(plan).deep_view().push(action@),
{
    let ghost before = plan.deep_view();
    plan.push(action);
    assert(plan.deep_view() =~= before.push(action@));
}

/// The test that a window passes when `others` does not hold it.
pub open spec fn absent_from(others: Seq<Id>) -> spec_fn(Id) -> bool {
    |w: Id| !others.contains(w)
}

/// One action per window, in order: a map for each where `show` is set, an
/// unmap for each where it is not.
pub open spec fn visibility_plan(windows: Seq<Id>, show: bool) -> Seq<ActionView> {
    windows.map_values(
        |w: Id|
            if show {
                ActionView::MapWindow(w)
            } else {
                ActionView::UnmapWindow(w)
            },
    )
}

/// No window is held by an empty list, so such a list hides none.
pub proof fn lemma_absent_from_nothing(windows: Seq<Id>)
    ensures
        windows.filter(absent_from(Seq::empty())) == windows,
    decreases windows.len(),
{
    reveal(Seq::filter);
    if windows.len() > 0 {
        lemma_absent_from_nothing(windows.drop_last());
        assert(windows.drop_last().push(windows.last()) =~= windows);
    }
}

/// Appends to `plan` a map (where `show` is set) or an unmap for each of
/// `windows` that `others` does not hold.
pub fn emit_visibility(
    plan: &mut Vec<Action>,
    windows: &Vec<WindowId>,
    others: &Vec<WindowId>,
    show: bool,
)
    ensures
        final(plan).deep_view() == old(plan).deep_view() + visibility_plan(
            windows.deep_view().filter(absent_from(others.deep_view())),
            show,
        ),
{
    let ghost base = plan.deep_view();
    let ghost all = windows.deep_view();
    let ghost keep = absent_from(others.deep_view());
    let mut i: usize = 0;
    proof {
        reveal(Seq::filter);
        assert(all.take(0) =~= Seq::<Id>::empty());
        assert(plan.deep_view() =~= base + visibility_plan(all.take(0).filter(keep), show));
    }
    while i < windows.len()
        invariant
            i <= windows.len(),
            all == windows.deep_view(),
            keep == absent_from(others.deep_view()),
            plan.deep_view() == base + visibility_plan(all.take(i as int).filter(keep), show),
        decreases windows.len() - i,
    {
        let ghost so_far = all.take(i as int).filter(keep);
        proof {
            assert(all.take(i + 1) =~= all.take(i as int).push(all[i as int]));
            all.take(i as int).lemma_filter_push(all[i as int], keep);
        }
        if !contains_id(others, &windows[i]) {
            if show {
                emit(plan, Action::MapWindow(windows[i].clone()));
            } else {
                emit(plan, Action::UnmapWindow(windows[i].clone()));
            }
            assert(plan.deep_view() =~= base + visibility_plan(so_far.push(all[i as int]), show));
        }
        i += 1;
    }
    assert(all.take(windows.len() as int) =~= all);
}

} // verus!
