use crate::action::{emit, Action, ActionView};
use crate::ids::Id;
use crate::state::{named_otherwise, position_named, remove_entries_named, window_named};
use vstd::prelude::*;

verus! {

/// The border colour of the window on display.
pub const FOCUSED: &'static str = "0xff0000";

/// A pool of windows kept aside under names, one of which can be on
/// display. It manages its windows alone, apart from any workspace.
pub struct Scratchpad {
    windows: Vec<(String, String)>,
    shown: Option<(String, String)>,
}

/// The pool as contracts see it.
pub struct ScratchpadPool {
    /// The entries, each a name and a window, in the order they came.
    pub windows: Seq<(Id, Id)>,
    /// The entry on display.
    pub shown: Option<(Id, Id)>,
}

impl View for Scratchpad {
    type V = ScratchpadPool;

    closed spec fn view(&self) -> ScratchpadPool {
        ScratchpadPool { windows: self.windows.deep_view(), shown: self.shown.deep_view() }
    }
}

/// What puts window `w` on display: it is mapped, bordered as focused,
/// moved to its place and focused.
pub open spec fn display_plan(w: Id) -> Seq<ActionView> {
    seq![
        ActionView::MapWindow(w),
        ActionView::BorderWindow { window_id: w, color: FOCUSED@ },
        ActionView::MoveWindow { window_id: w, x: 200, y: 100, w: 100, h: 100 },
        ActionView::FocusWindow(w),
    ]
}

impl ScratchpadPool {
    /// The pool after a toggle of `name`. The entry on display is hidden;
    /// unless it is the one called `name`, the first entry of that name
    /// takes its place. Where no entry has that name, the entry on display
    /// stays recorded as such.
    pub open spec fn toggled(self, name: Id) -> ScratchpadPool {
        let found = window_named(self.windows, name);
        let shown = match self.shown {
            Some(current) => if current.0 == name {
                None
            } else if found is Some {
                Some((name, found->0))
            } else {
                self.shown
            },
            None => if found is Some {
                Some((name, found->0))
            } else {
                None
            },
        };
        ScratchpadPool { shown, ..self }
    }

    /// What a toggle of `name` does to the display: the window on display
    /// is unmapped, and the window that takes its place is shown.
    pub open spec fn toggle_plan(self, name: Id) -> Seq<ActionView> {
        let found = window_named(self.windows, name);
        let unmapping = match self.shown {
            Some(current) => seq![ActionView::UnmapWindow(current.1)],
            None => Seq::empty(),
        };
        let replaced = match self.shown {
            Some(current) => current.0 != name,
            None => true,
        };
        if replaced && found is Some {
            unmapping + display_plan(found->0)
        } else {
            unmapping
        }
    }
}

impl Scratchpad {
    /// A pool without windows.
    pub fn new() -> (pool: Scratchpad)
        ensures
            pool@.windows == Seq::<(Id, Id)>::empty(),
            pool@.shown is None,
    {
        let pool = Scratchpad { windows: Vec::new(), shown: None };
        assert(pool.windows.deep_view() =~= Seq::empty());
        pool
    }

    /// Takes `window_id` into the pool under `name`; the window is to be
    /// unmapped.
    pub fn add_window(&mut self, name: &str, window_id: &str) -> (plan: Vec<Action>)
        ensures
            final(self)@.windows == old(self)@.windows.push((name@, window_id@)),
            final(self)@.shown == old(self)@.shown,
            plan.deep_view() == seq![ActionView::UnmapWindow(window_id@)],
    {
        let ghost before = self.windows.deep_view();
        self.windows.push((name.to_owned(), window_id.to_owned()));
        assert(self.windows.deep_view() =~= before.push((name@, window_id@)));
        let mut plan: Vec<Action> = Vec::new();
        assert(plan.deep_view() =~= Seq::empty());
        emit(&mut plan, Action::UnmapWindow(window_id.to_owned()));
        assert(plan.deep_view() =~= seq![ActionView::UnmapWindow(window_id@)]);
        plan
    }

    /// Drops every entry called `name`.
    pub fn remove_window(&mut self, name: &str)
        ensures
            final(self)@.windows == old(self)@.windows.filter(named_otherwise(name@)),
            final(self)@.shown == old(self)@.shown,
    {
        let name = name.to_owned();
        remove_entries_named(&mut self.windows, &name);
    }

    /// Shows the first entry called `name`, or hides it if it is the one on
    /// display; an entry shown before is hidden either way.
    pub fn toggle_window(&mut self, name: &str) -> (plan: Vec<Action>)
        ensures
            final(self)@ == old(self)@.toggled(name@),
            plan.deep_view() == old(self)@.toggle_plan(name@),
    {
        let name = name.to_owned();
        let mut plan: Vec<Action> = Vec::new();
        assert(plan.deep_view() =~= Seq::empty());
        let found = match position_named(&self.windows, &name) {
            Some(i) => Some(self.windows[i].1.clone()),
            None => None,
        };
        let replaced = match &self.shown {
            Some(current) => {
                emit(&mut plan, Action::UnmapWindow(current.1.clone()));
                current.0 != name
            },
            None => true,
        };
        let ghost unmapping = plan.deep_view();
        if replaced {
            match found {
                Some(wid) => {
                    emit(&mut plan, Action::MapWindow(wid.clone()));
                    emit(
                        &mut plan,
                        Action::BorderWindow { window_id: wid.clone(), color: FOCUSED.to_owned() },
                    );
                    emit(
                        &mut plan,
                        Action::MoveWindow {
                            window_id: wid.clone(),
                            x: 200,
                            y: 100,
                            w: 100,
                            h: 100,
                        },
                    );
                    emit(&mut plan, Action::FocusWindow(wid.clone()));
                    assert(plan.deep_view() =~= unmapping + display_plan(wid@));
                    self.shown = Some((name, wid));
                },
                None => {},
            }
        } else {
            self.shown = None;
        }
        assert(plan.deep_view() =~= old(self)@.toggle_plan(name@));
        plan
    }
}

} // verus!
