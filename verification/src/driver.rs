use crate::action::{Action, ActionView};
use crate::config::{Config, ConfigView};
use crate::event::{Event, EventView};
use crate::event_handlers::{
    handle_event, lemma_scratchpad_step_wf, lemma_window_step_wf, lemma_workspace_step_wf, step,
};
use crate::reconciler::{actualize_screen, display_plan, resolved_focus};
use crate::state::{WMState, WMView};
use vstd::prelude::*;

verus! {

/// An event leads from a well-formed state to a well-formed one.
pub proof fn lemma_step_wf(s: WMView, e: EventView, last: EventView, ignored: bool)
    requires
        s.wf(),
    ensures
        step(s, e, last, ignored).0.wf(),
        step(s, e, last, ignored).0.workspaces.len() == s.workspaces.len(),
{
    match e {
        EventView::Window(e) => lemma_window_step_wf(s, e, last, ignored),
        EventView::Workspace(e) => lemma_workspace_step_wf(s, e),
        EventView::Scratchpad(e) => lemma_scratchpad_step_wf(s, e),
        EventView::Unknown => {},
    }
}

/// The state after event `e` went through the window manager: the event
/// is applied and, where it was accepted, the window that the display then
/// focuses becomes the focused window.
pub open spec fn advanced(s: WMView, last: EventView, e: EventView, ignored: bool) -> WMView {
    let (t, accepted) = step(s, e, last, ignored);
    if accepted {
        WMView { focused_window: resolved_focus(s, t), ..t }
    } else {
        s
    }
}

/// The event that counts as handled last after event `e`: `e` itself where
/// it was accepted, the one before where it was not.
pub open spec fn remembered(s: WMView, last: EventView, e: EventView, ignored: bool) -> EventView {
    if step(s, e, last, ignored).1 {
        e
    } else {
        last
    }
}

/// What to do to the display after event `e`: nothing where it was not
/// accepted, else what shows the new state in place of the old one.
pub open spec fn reaction(
    s: WMView,
    last: EventView,
    e: EventView,
    ignored: bool,
    cfg: ConfigView,
) -> Seq<ActionView> {
    let (t, accepted) = step(s, e, last, ignored);
    if accepted {
        display_plan(s, t, cfg)
    } else {
        Seq::empty()
    }
}

/// Takes one event through the window manager: applies it to `state`,
/// works out what to do to the display, and records the window that ends up
/// focused and the event as the one handled last. An event that is not
/// accepted changes nothing and asks for nothing.
pub fn process_event(
    state: &mut WMState,
    last_event: &mut Event,
    event: Event,
    ignored: bool,
    config: &Config,
) -> (plan: Vec<Action>)
    requires
        old(state)@.wf(),
        config@.scratchpad_fits(),
    ensures
        final(state)@ == advanced(old(state)@, old(last_event)@, event@, ignored),
        final(last_event)@ == remembered(old(state)@, old(last_event)@, event@, ignored),
        plan.deep_view() == reaction(old(state)@, old(last_event)@, event@, ignored, config@),
        final(state)@.wf(),
{
    proof {
        lemma_step_wf(state@, event@, last_event@, ignored);
    }
    let mut now = state.snapshot();
    let handled = event.snapshot();
    if !handle_event(&mut now, event, last_event, ignored) {
        let plan: Vec<Action> = Vec::new();
        assert(plan.deep_view() =~= Seq::empty());
        return plan;
    }
    let (plan, focus) = actualize_screen(state, &now, config);
    now.focused_window = focus;
    *last_event = handled;
    *state = now;
    plan
}

} // verus!
