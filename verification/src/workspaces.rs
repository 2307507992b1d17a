use crate::action::{
    emit, emit_visibility, lemma_absent_from_nothing, visibility_plan, Action, ActionView,
};
use crate::ids::{contains_id, copy_ids, refocused, remove_id, without, Id};
use crate::state::WorkspaceView;
use crate::tiling::{tile_windows, tiling, tiling_fits};
use vstd::prelude::*;

verus! {

/// The gap between tiled windows.
pub const GAP: usize = 10;

/// The border colour of the focused window.
pub const FOCUSED: &'static str = "0xff0000";

/// The border colour of every other window.
pub const UNFOCUSED: &'static str = "0x888888";

/// The width of the screen.
pub const WIDTH: usize = 500;

/// The height of the screen.
pub const HEIGHT: usize = 300;

/// A workspace that manages its windows alone: their tiling order, the
/// order in which they last had focus, and the one that fills the screen.
#[derive(Debug, Clone)]
pub struct Workspace {
    pub workspace: Vec<String>,
    focus_history: Vec<String>,
    pub fullscreen: Option<String>,
}

/// The workspaces and the index of the one in focus.
#[derive(Debug, Clone)]
pub struct Workspaces {
    pub workspaces: Vec<Workspace>,
    pub focused_workspace: usize,
}

/// The workspaces as contracts see them.
pub struct WorkspacesView {
    pub workspaces: Seq<WorkspaceView>,
    pub focused_workspace: int,
}

impl View for Workspace {
    type V = WorkspaceView;

    closed spec fn view(&self) -> WorkspaceView {
        WorkspaceView {
            windows: self.workspace.deep_view(),
            focus_history: self.focus_history.deep_view(),
            fullscreen: self.fullscreen.deep_view(),
        }
    }
}

impl DeepView for Workspace {
    type V = WorkspaceView;

    open spec fn deep_view(&self) -> WorkspaceView {
        self.view()
    }
}

impl View for Workspaces {
    type V = WorkspacesView;

    open spec fn view(&self) -> WorkspacesView {
        WorkspacesView {
            workspaces: self.workspaces.deep_view(),
            focused_workspace: self.focused_workspace as int,
        }
    }
}

/// Whether `n` windows can be tiled on the screen with gap `gap`.
pub open spec fn fits_screen(n: int, gap: int) -> bool {
    tiling_fits(n, gap, WIDTH as int, HEIGHT as int, 0)
}

/// The moves that tile `windows` on the screen with gap `gap`.
pub open spec fn screen_tiling(windows: Seq<Id>, gap: int) -> Seq<ActionView> {
    tiling(windows, gap, WIDTH as int, HEIGHT as int, 0)
}

/// One border per window, all in the same colour.
pub open spec fn border_plan(windows: Seq<Id>, color: Seq<char>) -> Seq<ActionView> {
    windows.map_values(|w: Id| ActionView::BorderWindow { window_id: w, color })
}

/// What gives focus back to the workspace's most recently focused window:
/// every window is bordered as unfocused, then that one is bordered as
/// focused and focused.
pub open spec fn focus_last_plan(ws: WorkspaceView) -> Seq<ActionView> {
    border_plan(ws.windows, UNFOCUSED@) + if ws.focus_history.len() > 0 {
        seq![
            ActionView::BorderWindow { window_id: ws.focus_history.last(), color: FOCUSED@ },
            ActionView::FocusWindow(ws.focus_history.last()),
        ]
    } else {
        Seq::empty()
    }
}

/// What ends fullscreen on a workspace: the fullscreen window is bordered
/// as focused and the windows are tiled anew. Nothing where no window is
/// fullscreen.
pub open spec fn unfullscreen_plan(ws: WorkspaceView) -> Seq<ActionView> {
    match ws.fullscreen {
        Some(w) => seq![ActionView::BorderWindow { window_id: w, color: FOCUSED@ }]
            + screen_tiling(ws.windows, GAP as int),
        None => Seq::empty(),
    }
}

impl WorkspacesView {
    /// The workspace in focus exists.
    pub open spec fn wf(self) -> bool {
        0 <= self.focused_workspace < self.workspaces.len()
    }

    /// The workspace in focus.
    pub open spec fn focused(self) -> WorkspaceView {
        self.workspaces[self.focused_workspace]
    }

    /// The workspaces after window `w` moved from the focused one to the
    /// one at `to`: fullscreen ends on the focused workspace, `w` leaves its
    /// windows, and `w` becomes the last and most recently focused window
    /// of the other.
    pub open spec fn moved(self, w: Id, to: int) -> WorkspacesView {
        let from = self.focused();
        let left = self.workspaces.update(
            self.focused_workspace,
            WorkspaceView { windows: without(from.windows, w), fullscreen: None, ..from },
        );
        let target = left[to];
        WorkspacesView {
            workspaces: left.update(
                to,
                WorkspaceView {
                    windows: target.windows.push(w),
                    focus_history: refocused(target.focus_history, w),
                    ..target
                },
            ),
            ..self
        }
    }

    /// What the move of window `w` to the workspace at `to` does to the
    /// display: `w` is unmapped, the window last focused on the other
    /// workspace is bordered as unfocused, and fullscreen ends on the
    /// focused workspace.
    pub open spec fn move_plan(self, w: Id, to: int) -> Seq<ActionView> {
        let target = self.workspaces[to];
        seq![ActionView::UnmapWindow(w)] + (if target.focus_history.len() > 0 {
            seq![
                ActionView::BorderWindow {
                    window_id: target.focus_history.last(),
                    color: UNFOCUSED@,
                },
            ]
        } else {
            Seq::empty()
        }) + unfullscreen_plan(self.focused())
    }

    /// What a change of focus to the workspace at `to` does to the display:
    /// the windows of the workspace left are unmapped, those of the other
    /// are mapped, focus goes to its most recently focused window, it is
    /// tiled, and its fullscreen window is given the screen.
    pub open spec fn focus_plan(self, to: int) -> Seq<ActionView> {
        if to == self.focused_workspace {
            Seq::empty()
        } else {
            let target = self.workspaces[to];
            visibility_plan(self.focused().windows, false) + visibility_plan(target.windows, true)
                + focus_last_plan(target) + screen_tiling(target.windows, GAP as int)
                + match target.fullscreen {
                Some(w) => seq![
                    ActionView::FullscreenWindow {
                        window_id: w,
                        width: WIDTH as int,
                        height: HEIGHT as int,
                    },
                ],
                None => Seq::empty(),
            }
        }
    }
}

impl Workspace {
    /// A workspace without windows.
    pub fn new() -> (ws: Workspace)
        ensures
            ws@ == WorkspaceView::empty(),
    {
        let ws = Workspace { workspace: Vec::new(), focus_history: Vec::new(), fullscreen: None };
        assert(ws@.windows =~= Seq::empty());
        assert(ws@.focus_history =~= Seq::empty());
        ws
    }

    /// The moves that tile the workspace's windows with gap `gap`.
    pub fn tile(&self, gap: usize) -> (plan: Vec<Action>)
        requires
            fits_screen(self@.windows.len() as int, gap as int),
        ensures
            plan.deep_view() == screen_tiling(self@.windows, gap as int),
    {
        tile_windows(copy_ids(&self.workspace), gap, self.size(), 0)
    }

    /// Makes `window_id` the most recently focused window.
    pub fn focus_window(&mut self, window_id: &str)
        ensures
            final(self)@ == old(self)@.with_focus_on(window_id@),
    {
        let wid = window_id.to_owned();
        remove_id(&mut self.focus_history, &wid);
        let ghost before = self.focus_history.deep_view();
        self.focus_history.push(wid);
        assert(self.focus_history.deep_view() =~= before.push(window_id@));
    }

    /// What gives focus back to the most recently focused window.
    pub fn focus_last_window(&self) -> (plan: Vec<Action>)
        ensures
            plan.deep_view() == focus_last_plan(self@),
    {
        let mut plan: Vec<Action> = Vec::new();
        let ghost windows = self@.windows;
        let mut i: usize = 0;
        assert(plan.deep_view() =~= border_plan(windows.take(0), UNFOCUSED@));
        while i < self.workspace.len()
            invariant
                i <= self.workspace.len(),
                windows == self@.windows,
                plan.deep_view() == border_plan(windows.take(i as int), UNFOCUSED@),
            decreases self.workspace.len() - i,
        {
            emit(
                &mut plan,
                Action::BorderWindow {
                    window_id: self.workspace[i].clone(),
                    color: UNFOCUSED.to_owned(),
                },
            );
            assert(plan.deep_view() =~= border_plan(windows.take(i + 1), UNFOCUSED@));
            i += 1;
        }
        assert(windows.take(self.workspace.len() as int) =~= windows);
        let ghost borders = plan.deep_view();
        let n = self.focus_history.len();
        if n > 0 {
            let wid = &self.focus_history[n - 1];
            emit(
                &mut plan,
                Action::BorderWindow { window_id: wid.clone(), color: FOCUSED.to_owned() },
            );
            emit(&mut plan, Action::FocusWindow(wid.clone()));
        }
        assert(plan.deep_view() =~= focus_last_plan(self@));
        plan
    }

    /// Lets `window_id` fill the screen.
    pub fn fullscreen_window(&mut self, window_id: &str) -> (plan: Vec<Action>)
        ensures
            final(self)@ == (WorkspaceView { fullscreen: Some(window_id@), ..old(self)@ }),
            plan.deep_view() == seq![
                ActionView::FullscreenWindow {
                    window_id: window_id@,
                    width: WIDTH as int,
                    height: HEIGHT as int,
                },
            ],
    {
        self.fullscreen = Some(window_id.to_owned());
        let size = self.size();
        let mut plan: Vec<Action> = Vec::new();
        emit(
            &mut plan,
            Action::FullscreenWindow {
                window_id: window_id.to_owned(),
                width: size.0,
                height: size.1,
            },
        );
        assert(plan.deep_view() =~= seq![
            ActionView::FullscreenWindow {
                window_id: window_id@,
                width: WIDTH as int,
                height: HEIGHT as int,
            },
        ]);
        plan
    }

    /// Ends fullscreen: the window that filled the screen gets its border
    /// back and the windows are tiled anew.
    pub fn unfullscreen_window(&mut self) -> (plan: Vec<Action>)
        requires
            old(self)@.fullscreen is Some ==> fits_screen(
                old(self)@.windows.len() as int,
                GAP as int,
            ),
        ensures
            final(self)@ == (WorkspaceView { fullscreen: None, ..old(self)@ }),
            plan.deep_view() == unfullscreen_plan(old(self)@),
    {
        let mut plan: Vec<Action> = Vec::new();
        assert(plan.deep_view() =~= Seq::empty());
        match &self.fullscreen {
            Some(wid) => {
                emit(
                    &mut plan,
                    Action::BorderWindow { window_id: wid.clone(), color: FOCUSED.to_owned() },
                );
                let mut moves = self.tile(GAP);
                let ghost border = plan.deep_view();
                let ghost tiles = moves.deep_view();
                plan.append(&mut moves);
                assert(plan.deep_view() =~= border + tiles);
            },
            None => {},
        }
        self.fullscreen = None;
        assert(plan.deep_view() =~= unfullscreen_plan(old(self)@));
        plan
    }

    /// The size of the screen, as width and height.
    pub fn size(&self) -> (size: (usize, usize))
        ensures
            size == (WIDTH, HEIGHT),
    {
        (WIDTH, HEIGHT)
    }

    /// Takes `window_id` out of the windows and out of the focus history.
    /// A fullscreen window stays recorded as such.
    pub fn delete_window(&mut self, window_id: &str)
        ensures
            final(self)@ == (WorkspaceView {
                windows: without(old(self)@.windows, window_id@),
                focus_history: without(old(self)@.focus_history, window_id@),
                ..old(self)@
            }),
    {
        let wid = window_id.to_owned();
        remove_id(&mut self.workspace, &wid);
        remove_id(&mut self.focus_history, &wid);
    }
}

impl WorkspacesView {
    /// The workspaces after window `w` joined the focused one as its last
    /// window. Its focus history stays as it is.
    pub open spec fn with_window(self, w: Id) -> WorkspacesView {
        let ws = self.focused();
        WorkspacesView {
            workspaces: self.workspaces.update(
                self.focused_workspace,
                WorkspaceView { windows: ws.windows.push(w), ..ws },
            ),
            ..self
        }
    }

    /// The workspaces after window `w` left them all. Fullscreen windows
    /// stay recorded as such.
    pub open spec fn without_window(self, w: Id) -> WorkspacesView {
        WorkspacesView {
            workspaces: self.workspaces.map_values(
                |ws: WorkspaceView|
                    WorkspaceView {
                        windows: without(ws.windows, w),
                        focus_history: without(ws.focus_history, w),
                        ..ws
                    },
            ),
            ..self
        }
    }
}

impl Workspaces {
    /// `workspace_count` workspaces without windows, the first in focus.
    pub fn new(workspace_count: usize) -> (all: Workspaces)
        ensures
            all@.focused_workspace == 0,
            all@.workspaces == Seq::new(workspace_count as nat, |i: int| WorkspaceView::empty()),
    {
        let mut workspaces: Vec<Workspace> = Vec::new();
        let mut i: usize = 0;
        while i < workspace_count
            invariant
                i <= workspace_count,
                workspaces.len() == i,
                forall|j: int| 0 <= j < i ==> (#[trigger] workspaces[j])@ == WorkspaceView::empty(),
            decreases workspace_count - i,
        {
            workspaces.push(Workspace::new());
            i += 1;
        }
        let all = Workspaces { workspaces, focused_workspace: 0 };
        assert(all@.workspaces =~= Seq::new(
            workspace_count as nat,
            |i: int| WorkspaceView::empty(),
        ));
        all
    }

    /// Moves `window_id` from the focused workspace to the one at
    /// `to_workspace`, where it becomes the most recently focused window.
    pub fn move_window(&mut self, window_id: &str, to_workspace: usize) -> (plan: Vec<Action>)
        requires
            old(self)@.wf(),
            to_workspace < old(self)@.workspaces.len(),
            old(self)@.focused().fullscreen is Some ==> fits_screen(
                old(self)@.focused().windows.len() as int,
                GAP as int,
            ),
        ensures
            final(self)@ == old(self)@.moved(window_id@, to_workspace as int),
            plan.deep_view() == old(self)@.move_plan(window_id@, to_workspace as int),
    {
        let wid = window_id.to_owned();
        let fw = self.focused_workspace;
        let mut plan: Vec<Action> = Vec::new();
        emit(&mut plan, Action::UnmapWindow(window_id.to_owned()));
        let n = self.workspaces[to_workspace].focus_history.len();
        if n > 0 {
            emit(
                &mut plan,
                Action::BorderWindow {
                    window_id: self.workspaces[to_workspace].focus_history[n - 1].clone(),
                    color: UNFOCUSED.to_owned(),
                },
            );
        }
        let ghost first = plan.deep_view();
        let mut more = self.workspaces[fw].unfullscreen_window();
        let ghost rest = more.deep_view();
        plan.append(&mut more);
        assert(plan.deep_view() =~= first + rest);
        remove_id(&mut self.workspaces[fw].workspace, &wid);
        let ghost target = self.workspaces[to_workspace as int]@;
        self.workspaces[to_workspace].workspace.push(wid);
        assert(self.workspaces[to_workspace as int]@.windows =~= target.windows.push(window_id@));
        self.workspaces[to_workspace].focus_window(window_id);
        proof {
            assert(self@.workspaces =~= old(self)@.moved(
                window_id@,
                to_workspace as int,
            ).workspaces);
            assert(plan.deep_view() =~= old(self)@.move_plan(window_id@, to_workspace as int));
        }
        plan
    }

    /// Brings the workspace at index `workspace` into focus. Nothing
    /// happens where it is in focus already.
    pub fn focus(&mut self, workspace: usize) -> (plan: Vec<Action>)
        requires
            old(self)@.wf(),
            workspace < old(self)@.workspaces.len(),
            workspace != old(self)@.focused_workspace ==> fits_screen(
                old(self)@.workspaces[workspace as int].windows.len() as int,
                GAP as int,
            ),
        ensures
            final(self)@ == (WorkspacesView { focused_workspace: workspace as int, ..old(self)@ }),
            plan.deep_view() == old(self)@.focus_plan(workspace as int),
    {
        let mut plan: Vec<Action> = Vec::new();
        assert(plan.deep_view() =~= Seq::empty());
        if workspace != self.focused_workspace {
            let nothing: Vec<String> = Vec::new();
            proof {
                assert(nothing.deep_view() =~= Seq::empty());
                lemma_absent_from_nothing(self@.focused().windows);
                lemma_absent_from_nothing(self@.workspaces[workspace as int].windows);
            }
            emit_visibility(
                &mut plan,
                &self.workspaces[self.focused_workspace].workspace,
                &nothing,
                false,
            );
            self.focused_workspace = workspace;
            emit_visibility(&mut plan, &self.workspaces[workspace].workspace, &nothing, true);
            let ghost remapped = plan.deep_view();
            let mut borders = self.workspaces[workspace].focus_last_window();
            let ghost bordered = borders.deep_view();
            plan.append(&mut borders);
            let mut moves = self.workspaces[workspace].tile(GAP);
            let ghost tiled = moves.deep_view();
            plan.append(&mut moves);
            assert(plan.deep_view() =~= remapped + bordered + tiled);
            let fullscreen = match &self.workspaces[workspace].fullscreen {
                Some(wid) => Some(wid.clone()),
                None => None,
            };
            match fullscreen {
                Some(wid) => {
                    let mut fill = self.workspaces[workspace].fullscreen_window(wid.as_str());
                    let ghost filled = fill.deep_view();
                    plan.append(&mut fill);
                    assert(plan.deep_view() =~= remapped + bordered + tiled + filled);
                },
                None => {
                    assert(plan.deep_view() =~= remapped + bordered + tiled + Seq::<
                        ActionView,
                    >::empty());
                },
            }
            assert(self@.workspaces =~= old(self)@.workspaces);
        }
        plan
    }

    /// Appends `window_id` to the windows of the focused workspace.
    pub fn add_window(&mut self, window_id: &str)
        requires
            old(self)@.wf(),
        ensures
            final(self)@ == old(self)@.with_window(window_id@),
    {
        let fw = self.focused_workspace;
        let ghost before = self.workspaces[fw as int]@;
        self.workspaces[fw].workspace.push(window_id.to_owned());
        assert(self.workspaces[fw as int]@.windows =~= before.windows.push(window_id@));
        assert(self@.workspaces =~= old(self)@.with_window(window_id@).workspaces);
    }

    /// Takes `window_id` out of every workspace. Gives the index of the
    /// focused workspace where that one held the window, and 0 otherwise.
    pub fn delete_window(&mut self, window_id: &str) -> (changed_workspace: usize)
        ensures
            final(self)@ == old(self)@.without_window(window_id@),
            changed_workspace == if old(self)@.wf() && old(self)@.focused().windows.contains(
                window_id@,
            ) {
                old(self)@.focused_workspace
            } else {
                0
            },
    {
        let wid = window_id.to_owned();
        let mut changed_workspace: usize = 0;
        let mut i: usize = 0;
        while i < self.workspaces.len()
            invariant
                i <= self.workspaces.len(),
                self.workspaces.len() == old(self).workspaces.len(),
                self.focused_workspace == old(self).focused_workspace,
                wid@ == window_id@,
                changed_workspace == if old(self).focused_workspace < i && old(
                    self,
                )@.focused().windows.contains(window_id@) {
                    old(self)@.focused_workspace
                } else {
                    0
                },
                forall|j: int|
                    0 <= j < i ==> (#[trigger] self.workspaces[j])@ == old(
                        self,
                    )@.without_window(window_id@).workspaces[j],
                forall|j: int|
                    i <= j < self.workspaces.len() ==> (#[trigger] self.workspaces[j]) == old(
                        self,
                    ).workspaces[j],
            decreases self.workspaces.len() - i,
        {
            if contains_id(&self.workspaces[i].workspace, &wid) {
                if i == self.focused_workspace {
                    changed_workspace = i;
                }
            }
            self.workspaces[i].delete_window(window_id);
            i += 1;
        }
        assert(self@.workspaces =~= old(self)@.without_window(window_id@).workspaces);
        changed_workspace
    }

    /// The workspace at index `workspace`, if there is one.
    pub fn get(&self, workspace: usize) -> (ws: Option<&Workspace>)
        ensures
            match ws {
                Some(ws) => workspace < self@.workspaces.len() && ws@
                    == self@.workspaces[workspace as int],
                None => workspace >= self@.workspaces.len(),
            },
    {
        if workspace < self.workspaces.len() {
            Some(&self.workspaces[workspace])
        } else {
            None
        }
    }

    /// The workspace in focus.
    pub fn focused(&self) -> (ws: &Workspace)
        requires
            self@.wf(),
        ensures
            ws@ == self@.focused(),
    {
        &self.workspaces[self.focused_workspace]
    }

    /// The workspace in focus, to be changed in place.
    pub fn focused_mut(&mut self) -> (ws: &mut Workspace)
        requires
            old(self)@.wf(),
        ensures
            ws@ == old(self)@.focused(),
            final(self)@.focused_workspace == old(self)@.focused_workspace,
            final(self)@.workspaces == old(self)@.workspaces.update(
                old(self)@.focused_workspace,
                final(ws)@,
            ),
    {
        &mut self.workspaces[self.focused_workspace]
    }
}

} // verus!
