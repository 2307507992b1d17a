use crate::ids::{copy_id, copy_ids, refocused, without, Id};
use vstd::prelude::*;

verus! {

/// The name under which the scratchpad keeps a window.
pub type ScratchpadName = String;

/// The identifier of a window, as the display hands it out.
pub type WindowId = String;

/// The windows kept aside under names, and the name of the one on display.
#[derive(Debug, Clone, PartialEq, Eq)]
pub struct ScratchpadState {
    pub windows: Vec<(ScratchpadName, WindowId)>,
    pub shown: Option<ScratchpadName>,
}

/// One workspace: its windows in tiling order, the order in which they last
/// had focus (most recent last), and the window that fills the screen.
#[derive(Debug, Clone, PartialEq, Eq)]
pub struct WorkspaceState {
    pub windows: Vec<WindowId>,
    pub focus_history: Vec<WindowId>,
    pub fullscreen: Option<WindowId>,
}

/// A snapshot of everything the window manager tracks.
#[derive(Debug, Clone, PartialEq, Eq)]
pub struct WMState {
    pub workspaces: Vec<WorkspaceState>,
    pub scratchpad: ScratchpadState,
    pub focused_workspace: usize,
    pub focused_window: Option<WindowId>,
}

/// The scratchpad as contracts see it.
pub struct ScratchpadView {
    pub windows: Seq<(Id, Id)>,
    pub shown: Option<Id>,
}

/// A workspace as contracts see it.
pub struct WorkspaceView {
    pub windows: Seq<Id>,
    pub focus_history: Seq<Id>,
    pub fullscreen: Option<Id>,
}

/// A snapshot as contracts see it.
pub struct WMView {
    pub workspaces: Seq<WorkspaceView>,
    pub scratchpad: ScratchpadView,
    pub focused_workspace: int,
    pub focused_window: Option<Id>,
}

impl View for ScratchpadState {
    type V = ScratchpadView;

    open spec fn view(&self) -> ScratchpadView {
        ScratchpadView { windows: self.windows.deep_view(), shown: self.shown.deep_view() }
    }
}

impl View for WorkspaceState {
    type V = WorkspaceView;

    open spec fn view(&self) -> WorkspaceView {
        WorkspaceView {
            windows: self.windows.deep_view(),
            focus_history: self.focus_history.deep_view(),
            fullscreen: self.fullscreen.deep_view(),
        }
    }
}

impl DeepView for WorkspaceState {
    type V = WorkspaceView;

    open spec fn deep_view(&self) -> WorkspaceView {
        self.view()
    }
}

impl View for WMState {
    type V = WMView;

    open spec fn view(&self) -> WMView {
        WMView {
            workspaces: self.workspaces.deep_view(),
            scratchpad: self.scratchpad@,
            focused_workspace: self.focused_workspace as int,
            focused_window: self.focused_window.deep_view(),
        }
    }
}

/// The window of the first entry called `name`, if there is one.
pub open spec fn window_named(entries: Seq<(Id, Id)>, name: Id) -> Option<Id>
    decreases entries.len(),
{
    if entries.len() == 0 {
        None
    } else if entries[0].0 == name {
        Some(entries[0].1)
    } else {
        window_named(entries.drop_first(), name)
    }
}

/// The test that an entry passes when it is not called `name`.
pub open spec fn named_otherwise(name: Id) -> spec_fn((Id, Id)) -> bool {
    |e: (Id, Id)| e.0 != name
}

/// The test that an entry passes when it does not hold window `w`.
pub open spec fn holding_another(w: Id) -> spec_fn((Id, Id)) -> bool {
    |e: (Id, Id)| e.1 != w
}

/// The windows that the entries hold, in order.
pub open spec fn windows_of(entries: Seq<(Id, Id)>) -> Seq<Id> {
    entries.map_values(|e: (Id, Id)| e.1)
}

impl WorkspaceView {
    /// A workspace without windows.
    pub open spec fn empty() -> WorkspaceView {
        WorkspaceView { windows: Seq::empty(), focus_history: Seq::empty(), fullscreen: None }
    }

    /// Every window has a place in the focus history, and the history lists
    /// no window that the workspace does not hold.
    pub open spec fn wf(self) -> bool {
        forall|w: Id| self.windows.contains(w) <==> self.focus_history.contains(w)
    }

    /// The workspace once `w` has left it.
    pub open spec fn without_window(self, w: Id) -> WorkspaceView {
        WorkspaceView {
            windows: without(self.windows, w),
            focus_history: without(self.focus_history, w),
            fullscreen: if self.fullscreen == Some(w) {
                None
            } else {
                self.fullscreen
            },
        }
    }

    /// The workspace once `w` has joined it, as its last and most recently
    /// focused window.
    pub open spec fn with_window(self, w: Id) -> WorkspaceView {
        WorkspaceView {
            windows: self.windows.push(w),
            focus_history: self.focus_history.push(w),
            fullscreen: self.fullscreen,
        }
    }

    /// The workspace once focus has moved to `w`.
    pub open spec fn with_focus_on(self, w: Id) -> WorkspaceView {
        WorkspaceView {
            windows: self.windows,
            focus_history: refocused(self.focus_history, w),
            fullscreen: self.fullscreen,
        }
    }
}

impl ScratchpadView {
    /// A scratchpad without entries.
    pub open spec fn empty() -> ScratchpadView {
        ScratchpadView { windows: Seq::empty(), shown: None }
    }

    /// The name on display belongs to an entry.
    pub open spec fn wf(self) -> bool {
        self.shown is Some ==> window_named(self.windows, self.shown->0) is Some
    }

    /// The window on display.
    pub open spec fn shown_window(self) -> Option<Id> {
        match self.shown {
            Some(name) => window_named(self.windows, name),
            None => None,
        }
    }
}

impl WMView {
    /// The state at startup: `count` empty workspaces, the first in focus.
    pub open spec fn initial(count: nat) -> WMView {
        WMView {
            workspaces: Seq::new(count, |i: int| WorkspaceView::empty()),
            scratchpad: ScratchpadView::empty(),
            focused_workspace: 0,
            focused_window: None,
        }
    }

    /// The focused workspace exists, the name on display belongs to a
    /// scratchpad entry, and each workspace's focus history lists exactly
    /// its windows. Every transition keeps this.
    pub open spec fn wf(self) -> bool {
        &&& 0 <= self.focused_workspace < self.workspaces.len()
        &&& self.scratchpad.wf()
        &&& forall|i: int| 0 <= i < self.workspaces.len() ==> (#[trigger] self.workspaces[i]).wf()
    }

    /// The workspace in focus.
    pub open spec fn focused(self) -> WorkspaceView {
        self.workspaces[self.focused_workspace]
    }

    /// The state with `ws` in place of the workspace at index `i`.
    pub open spec fn with_workspace(self, i: int, ws: WorkspaceView) -> WMView {
        WMView { workspaces: self.workspaces.update(i, ws), ..self }
    }

    /// The state with `ws` in place of the workspace in focus.
    pub open spec fn with_focused(self, ws: WorkspaceView) -> WMView {
        self.with_workspace(self.focused_workspace, ws)
    }

    /// The state with another scratchpad.
    pub open spec fn with_scratchpad(self, scratchpad: ScratchpadView) -> WMView {
        WMView { scratchpad, ..self }
    }
}

/// `window_named` finds the first entry of that name, and finds none only
/// where no entry has it.
pub proof fn lemma_window_named(entries: Seq<(Id, Id)>, name: Id)
    ensures
        match window_named(entries, name) {
            Some(w) => exists|i: int|
                0 <= i < entries.len() && entries[i] == (name, w) && forall|j: int|
                    0 <= j < i ==> entries[j].0 != name,
            None => forall|j: int| 0 <= j < entries.len() ==> entries[j].0 != name,
        },
    decreases entries.len(),
{
    if entries.len() == 0 {
    } else if entries[0].0 == name {
        assert(entries[0] == (name, entries[0].1));
    } else {
        let rest = entries.drop_first();
        lemma_window_named(rest, name);
        match window_named(rest, name) {
            Some(w) => {
                let i = choose|i: int|
                    0 <= i < rest.len() && rest[i] == (name, w) && forall|j: int|
                        0 <= j < i ==> rest[j].0 != name;
                assert(entries[i + 1] == (name, w));
                assert forall|j: int| 0 <= j < i + 1 implies entries[j].0 != name by {
                    if j > 0 {
                        assert(rest[j - 1].0 != name);
                    }
                }
            },
            None => {
                assert forall|j: int| 0 <= j < entries.len() implies entries[j].0 != name by {
                    if j > 0 {
                        assert(rest[j - 1].0 != name);
                    }
                }
            },
        }
    }
}

/// The entry at `i` is the one that `window_named` finds when no earlier
/// entry has that name.
pub proof fn lemma_window_named_at(entries: Seq<(Id, Id)>, i: int)
    requires
        0 <= i < entries.len(),
        forall|j: int| 0 <= j < i ==> (#[trigger] entries[j]).0 != entries[i].0,
    ensures
        window_named(entries, entries[i].0) == Some(entries[i].1),
    decreases i,
{
    if i > 0 {
        let rest = entries.drop_first();
        assert(entries[0].0 != entries[i].0);
        assert(rest[i - 1] == entries[i]);
        assert forall|j: int| 0 <= j < i - 1 implies (#[trigger] rest[j]).0 != rest[i - 1].0 by {
            assert(rest[j] == entries[j + 1]);
        }
        lemma_window_named_at(rest, i - 1);
    }
}

impl WMState {
    /// The state at startup: `workspace_count` empty workspaces, the first
    /// in focus, nothing in the scratchpad.
    pub fn new(workspace_count: usize) -> (state: WMState)
        ensures
            state@ == WMView::initial(workspace_count as nat),
            workspace_count > 0 ==> state@.wf(),
    {
        let mut workspaces: Vec<WorkspaceState> = Vec::new();
        let mut i: usize = 0;
        while i < workspace_count
            invariant
                i <= workspace_count,
                workspaces.len() == i,
                forall|j: int| 0 <= j < i ==> (#[trigger] workspaces[j])@ == WorkspaceView::empty(),
            decreases workspace_count - i,
        {
            let ws = WorkspaceState {
                windows: Vec::new(),
                focus_history: Vec::new(),
                fullscreen: None,
            };
            assert(ws@.windows =~= Seq::empty());
            assert(ws@.focus_history =~= Seq::empty());
            workspaces.push(ws);
            i += 1;
        }
        let state = WMState {
            workspaces,
            scratchpad: ScratchpadState { windows: Vec::new(), shown: None },
            focused_workspace: 0,
            focused_window: None,
        };
        proof {
            assert(state@.workspaces =~= WMView::initial(workspace_count as nat).workspaces);
            assert(state@.scratchpad.windows =~= Seq::empty());
        }
        state
    }
}

/// The place of the first entry called `name`.
pub fn position_named(entries: &Vec<(ScratchpadName, WindowId)>, name: &String) -> (at: Option<
    usize,
>)
    ensures
        match at {
            Some(i) => i < entries.len() && window_named(entries.deep_view(), name@) == Some(
                entries.deep_view()[i as int].1,
            ) && entries.deep_view()[i as int].0 == name@,
            None => window_named(entries.deep_view(), name@) is None,
        },
{
    let mut i: usize = 0;
    while i < entries.len()
        invariant
            i <= entries.len(),
            forall|j: int| 0 <= j < i ==> (#[trigger] entries.deep_view()[j]).0 != name@,
        decreases entries.len() - i,
    {
        if entries[i].0 == *name {
            proof {
                assert(entries.deep_view()[i as int].0 == name@);
                lemma_window_named_at(entries.deep_view(), i as int);
            }
            return Some(i);
        }
        i += 1;
    }
    proof {
        lemma_window_named(entries.deep_view(), name@);
    }
    None
}

/// Takes every entry called `name` out of `entries`.
pub fn remove_entries_named(entries: &mut Vec<(ScratchpadName, WindowId)>, name: &String)
    ensures
        final(entries).deep_view() == old(entries).deep_view().filter(named_otherwise(name@)),
{
    let mut out: Vec<(ScratchpadName, WindowId)> = Vec::new();
    let mut i: usize = 0;
    proof {
        reveal(Seq::filter);
        assert(entries.deep_view().take(0) =~= Seq::<(Id, Id)>::empty());
        assert(out.deep_view() =~= Seq::<(Id, Id)>::empty());
    }
    while i < entries.len()
        invariant
            i <= entries.len(),
            out.deep_view() == entries.deep_view().take(i as int).filter(named_otherwise(name@)),
        decreases entries.len() - i,
    {
        let ghost before = out.deep_view();
        let ghost e = entries.deep_view()[i as int];
        proof {
            assert(entries.deep_view().take(i + 1) =~= entries.deep_view().take(i as int).push(e));
            entries.deep_view().take(i as int).lemma_filter_push(e, named_otherwise(name@));
        }
        if entries[i].0 != *name {
            out.push((entries[i].0.clone(), entries[i].1.clone()));
            assert(out.deep_view() =~= before.push(e));
        }
        i += 1;
    }
    assert(entries.deep_view().take(entries.len() as int) =~= entries.deep_view());
    *entries = out;
}

/// Takes every entry that holds window `w` out of `entries`.
pub fn remove_entries_holding(entries: &mut Vec<(ScratchpadName, WindowId)>, w: &String)
    ensures
        final(entries).deep_view() == old(entries).deep_view().filter(holding_another(w@)),
{
    let mut out: Vec<(ScratchpadName, WindowId)> = Vec::new();
    let mut i: usize = 0;
    proof {
        reveal(Seq::filter);
        assert(entries.deep_view().take(0) =~= Seq::<(Id, Id)>::empty());
        assert(out.deep_view() =~= Seq::<(Id, Id)>::empty());
    }
    while i < entries.len()
        invariant
            i <= entries.len(),
            out.deep_view() == entries.deep_view().take(i as int).filter(holding_another(w@)),
        decreases entries.len() - i,
    {
        let ghost before = out.deep_view();
        let ghost e = entries.deep_view()[i as int];
        proof {
            assert(entries.deep_view().take(i + 1) =~= entries.deep_view().take(i as int).push(e));
            entries.deep_view().take(i as int).lemma_filter_push(e, holding_another(w@));
        }
        if entries[i].1 != *w {
            out.push((entries[i].0.clone(), entries[i].1.clone()));
            assert(out.deep_view() =~= before.push(e));
        }
        i += 1;
    }
    assert(entries.deep_view().take(entries.len() as int) =~= entries.deep_view());
    *entries = out;
}

/// Whether two lists hold the same entries in the same order.
pub fn same_entries(
    a: &Vec<(ScratchpadName, WindowId)>,
    b: &Vec<(ScratchpadName, WindowId)>,
) -> (same: bool)
    ensures
        same == (a.deep_view() == b.deep_view()),
{
    if a.len() != b.len() {
        assert(a.deep_view().len() != b.deep_view().len());
        return false;
    }
    let mut i: usize = 0;
    while i < a.len()
        invariant
            i <= a.len(),
            a.len() == b.len(),
            forall|j: int| 0 <= j < i ==> a.deep_view()[j] == b.deep_view()[j],
        decreases a.len() - i,
    {
        if a[i].0 != b[i].0 || a[i].1 != b[i].1 {
            assert(a.deep_view()[i as int] != b.deep_view()[i as int]);
            return false;
        }
        i += 1;
    }
    assert(a.deep_view() =~= b.deep_view());
    true
}

/// A copy of `entries`, string by string.
pub fn copy_entries(entries: &Vec<(ScratchpadName, WindowId)>) -> (out: Vec<
    (ScratchpadName, WindowId),
>)
    ensures
        out.deep_view() == entries.deep_view(),
{
    let mut out: Vec<(ScratchpadName, WindowId)> = Vec::new();
    let mut i: usize = 0;
    while i < entries.len()
        invariant
            i <= entries.len(),
            out.len() == i,
            forall|j: int| 0 <= j < i ==> out.deep_view()[j] == entries.deep_view()[j],
        decreases entries.len() - i,
    {
        out.push((entries[i].0.clone(), entries[i].1.clone()));
        i += 1;
    }
    assert(out.deep_view() =~= entries.deep_view());
    out
}

impl WorkspaceState {
    /// A copy of the workspace.
    pub fn snapshot(&self) -> (copy: WorkspaceState)
        ensures
            copy@ == self@,
    {
        WorkspaceState {
            windows: copy_ids(&self.windows),
            focus_history: copy_ids(&self.focus_history),
            fullscreen: copy_id(&self.fullscreen),
        }
    }
}

impl WMState {
    /// A copy of the state, to be changed while the state itself is kept
    /// for comparison.
    pub fn snapshot(&self) -> (copy: WMState)
        ensures
            copy@ == self@,
    {
        let mut workspaces: Vec<WorkspaceState> = Vec::new();
        let mut i: usize = 0;
        while i < self.workspaces.len()
            invariant
                i <= self.workspaces.len(),
                workspaces.len() == i,
                forall|j: int| 0 <= j < i ==> (#[trigger] workspaces[j])@ == self.workspaces[j]@,
            decreases self.workspaces.len() - i,
        {
            workspaces.push(self.workspaces[i].snapshot());
            i += 1;
        }
        let copy = WMState {
            workspaces,
            scratchpad: ScratchpadState {
                windows: copy_entries(&self.scratchpad.windows),
                shown: copy_id(&self.scratchpad.shown),
            },
            focused_workspace: self.focused_workspace,
            focused_window: copy_id(&self.focused_window),
        };
        assert(copy@.workspaces =~= self@.workspaces);
        copy
    }
}

} // verus!
