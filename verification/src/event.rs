use crate::ids::Id;
use vstd::prelude::*;

verus! {

/// What happened to a window.
#[derive(Debug, Clone, Copy, PartialEq, Eq, Structural)]
pub enum WindowEventType {
    CreateNotify,
    DestroyNotify,
    MapNotify,
    FocusIn,
    FocusOut,
}

/// A request that concerns the workspaces.
#[derive(Debug, Clone, PartialEq, Eq)]
pub enum WorkspaceEvent {
    /// Move the focused window to the workspace with this index.
    MoveWindow(usize),
    /// Bring the workspace with this index into focus.
    Focus(usize),
    /// Move focus within the focused workspace: `LEFT`, `RIGHT`, `UP` or `DOWN`.
    FocusWindow(String),
    FullscreenToggle,
    Cycle,
}

/// A request that concerns the scratchpad; each carries the entry's name.
#[derive(Debug, Clone, PartialEq, Eq)]
pub enum ScratchpadEvent {
    AddWindow(String),
    RemoveWindow(String),
    ToggleWindow(String),
}

/// Something that happened to the window called `window_id`.
#[derive(Debug, Clone, PartialEq, Eq)]
pub struct WindowEvent {
    pub window_id: String,
    pub event_type: WindowEventType,
}

/// One event of the protocol. `Unknown` stands for every line that is not
/// an event.
#[derive(Debug, Clone, PartialEq, Eq)]
pub enum Event {
    Window(WindowEvent),
    Workspace(WorkspaceEvent),
    Scratchpad(ScratchpadEvent),
    Unknown,
}

/// A workspace request as contracts see it.
pub enum WorkspaceEventView {
    MoveWindow(usize),
    Focus(usize),
    FocusWindow(Seq<char>),
    FullscreenToggle,
    Cycle,
}

/// A scratchpad request as contracts see it.
pub enum ScratchpadEventView {
    AddWindow(Id),
    RemoveWindow(Id),
    ToggleWindow(Id),
}

/// A window event as contracts see it.
pub struct WindowEventView {
    pub window_id: Id,
    pub event_type: WindowEventType,
}

/// An event as contracts see it.
pub enum EventView {
    Window(WindowEventView),
    Workspace(WorkspaceEventView),
    Scratchpad(ScratchpadEventView),
    Unknown,
}

impl View for WorkspaceEvent {
    type V = WorkspaceEventView;

    open spec fn view(&self) -> WorkspaceEventView {
        match *self {
            WorkspaceEvent::MoveWindow(ws) => WorkspaceEventView::MoveWindow(ws),
            WorkspaceEvent::Focus(ws) => WorkspaceEventView::Focus(ws),
            WorkspaceEvent::FocusWindow(direction) => WorkspaceEventView::FocusWindow(direction@),
            WorkspaceEvent::FullscreenToggle => WorkspaceEventView::FullscreenToggle,
            WorkspaceEvent::Cycle => WorkspaceEventView::Cycle,
        }
    }
}

impl View for ScratchpadEvent {
    type V = ScratchpadEventView;

    open spec fn view(&self) -> ScratchpadEventView {
        match *self {
            ScratchpadEvent::AddWindow(name) => ScratchpadEventView::AddWindow(name@),
            ScratchpadEvent::RemoveWindow(name) => ScratchpadEventView::RemoveWindow(name@),
            ScratchpadEvent::ToggleWindow(name) => ScratchpadEventView::ToggleWindow(name@),
        }
    }
}

impl View for WindowEvent {
    type V = WindowEventView;

    open spec fn view(&self) -> WindowEventView {
        WindowEventView { window_id: self.window_id@, event_type: self.event_type }
    }
}

impl View for Event {
    type V = EventView;

    open spec fn view(&self) -> EventView {
        match *self {
            Event::Window(e) => EventView::Window(e@),
            Event::Workspace(e) => EventView::Workspace(e@),
            Event::Scratchpad(e) => EventView::Scratchpad(e@),
            Event::Unknown => EventView::Unknown,
        }
    }
}

impl Event {
    /// A copy of the event.
    pub fn snapshot(&self) -> (copy: Event)
        ensures
            copy@ == self@,
    {
        match self {
            Event::Window(e) => Event::Window(
                WindowEvent { window_id: e.window_id.clone(), event_type: e.event_type },
            ),
            Event::Workspace(e) => Event::Workspace(
                match e {
                    WorkspaceEvent::MoveWindow(ws) => WorkspaceEvent::MoveWindow(*ws),
                    WorkspaceEvent::Focus(ws) => WorkspaceEvent::Focus(*ws),
                    WorkspaceEvent::FocusWindow(direction) => WorkspaceEvent::FocusWindow(
                        direction.clone(),
                    ),
                    WorkspaceEvent::FullscreenToggle => WorkspaceEvent::FullscreenToggle,
                    WorkspaceEvent::Cycle => WorkspaceEvent::Cycle,
                },
            ),
            Event::Scratchpad(e) => Event::Scratchpad(
                match e {
                    ScratchpadEvent::AddWindow(name) => ScratchpadEvent::AddWindow(name.clone()),
                    ScratchpadEvent::RemoveWindow(name) => ScratchpadEvent::RemoveWindow(
                        name.clone(),
                    ),
                    ScratchpadEvent::ToggleWindow(name) => ScratchpadEvent::ToggleWindow(
                        name.clone(),
                    ),
                },
            ),
            Event::Unknown => Event::Unknown,
        }
    }
}

} // verus!
