use crate::action::{
    absent_from, emit, emit_visibility, lemma_absent_from_nothing, visibility_plan, Action,
    ActionView,
};
use crate::config::{Config, ConfigView};
use crate::ids::{copy_id, copy_ids, same_id, same_ids, Id};
use crate::state::{
    position_named, same_entries, ScratchpadState, ScratchpadView, WMState, WMView, WindowId,
    WorkspaceView,
};
use vstd::prelude::*;

verus! {

/// What puts the scratchpad's window on display: it is mapped, centred on
/// the screen in the scratchpad size, raised, and bordered as focused.
/// Nothing where no window is on display.
pub open spec fn show_scratchpad_plan(scratchpad: ScratchpadView, cfg: ConfigView) -> Seq<
    ActionView,
> {
    match scratchpad.shown_window() {
        Some(w) => seq![
            ActionView::MapWindow(w),
            ActionView::MoveWindow {
                window_id: w,
                x: (cfg.workspace_size.0 - cfg.scratchpad_size.0) / 2,
                y: (cfg.workspace_size.1 - cfg.scratchpad_size.1) / 2,
                w: cfg.scratchpad_size.0,
                h: cfg.scratchpad_size.1,
            },
            ActionView::ForegroundWindow(w),
            ActionView::BorderWindow { window_id: w, color: cfg.focused_border },
        ],
        None => Seq::empty(),
    }
}

/// The workspace of `before` that stands where the focused one of `now` does.
pub open spec fn counterpart(before: WMView, now: WMView) -> WorkspaceView {
    before.workspaces[now.focused_workspace]
}

/// Whether the focused workspace had a fullscreen window and has none now.
pub open spec fn left_fullscreen(before: WMView, now: WMView) -> bool {
    counterpart(before, now).fullscreen is Some && now.focused().fullscreen is None
}

/// On a change of workspace: the windows of the one left are unmapped, those
/// of the one entered are mapped.
pub open spec fn switch_plan(before: WMView, now: WMView) -> Seq<ActionView> {
    if before.focused_workspace != now.focused_workspace {
        visibility_plan(before.focused().windows, false) + visibility_plan(
            now.focused().windows,
            true,
        )
    } else {
        Seq::empty()
    }
}

/// On a change of the scratchpad name on display: the window shown before
/// is unmapped, the one shown now is put on display.
pub open spec fn scratchpad_plan(before: WMView, now: WMView, cfg: ConfigView) -> Seq<ActionView> {
    if before.scratchpad.shown != now.scratchpad.shown {
        (match before.scratchpad.shown_window() {
            Some(w) => seq![ActionView::UnmapWindow(w)],
            None => Seq::empty(),
        }) + show_scratchpad_plan(now.scratchpad, cfg)
    } else {
        Seq::empty()
    }
}

/// The windows that left the focused workspace are unmapped, those that
/// joined it are mapped.
pub open spec fn diff_plan(before: WMView, now: WMView) -> Seq<ActionView> {
    let was = counterpart(before, now).windows;
    let is = now.focused().windows;
    visibility_plan(was.filter(absent_from(is)), false) + visibility_plan(
        is.filter(absent_from(was)),
        true,
    )
}

/// Where the focused workspace has more windows than before, the newest is
/// bordered as unfocused.
pub open spec fn new_window_plan(before: WMView, now: WMView, cfg: ConfigView) -> Seq<ActionView> {
    if counterpart(before, now).windows.len() < now.focused().windows.len() {
        seq![
            ActionView::BorderWindow {
                window_id: now.focused().windows.last(),
                color: cfg.unfocused_border,
            },
        ]
    } else {
        Seq::empty()
    }
}

/// A window that left fullscreen is bordered as unfocused.
pub open spec fn unfullscreen_plan(before: WMView, now: WMView, cfg: ConfigView) -> Seq<
    ActionView,
> {
    if left_fullscreen(before, now) {
        seq![
            ActionView::BorderWindow {
                window_id: counterpart(before, now).fullscreen->0,
                color: cfg.unfocused_border,
            },
        ]
    } else {
        Seq::empty()
    }
}

/// The focused workspace is tiled anew where its windows differ from those
/// that were in focus before, where a window left fullscreen, or where the
/// scratchpad's entries changed.
pub open spec fn tiling_plan(before: WMView, now: WMView, cfg: ConfigView) -> Seq<ActionView> {
    if before.focused().windows != now.focused().windows || left_fullscreen(before, now)
        || now.scratchpad.windows != before.scratchpad.windows {
        seq![
            ActionView::TileWindows {
                windows: now.focused().windows,
                gap: cfg.gaps,
                width: cfg.workspace_size.0,
                height: cfg.workspace_size.1,
                panel: cfg.panel_width,
            },
        ]
    } else {
        Seq::empty()
    }
}

/// Where the window that left fullscreen is the one the scratchpad
/// displays, it is put on display again.
pub open spec fn reshow_plan(before: WMView, now: WMView, cfg: ConfigView) -> Seq<ActionView> {
    if left_fullscreen(before, now) && now.scratchpad.shown_window() == counterpart(
        before,
        now,
    ).fullscreen {
        show_scratchpad_plan(now.scratchpad, cfg)
    } else {
        Seq::empty()
    }
}

/// Where the fullscreen window or the workspace changed and a window is
/// fullscreen now, it is given the whole screen and raised.
pub open spec fn fullscreen_plan(before: WMView, now: WMView, cfg: ConfigView) -> Seq<ActionView> {
    if (counterpart(before, now).fullscreen != now.focused().fullscreen || before.focused_workspace
        != now.focused_workspace) && now.focused().fullscreen is Some {
        seq![
            ActionView::FullscreenWindow {
                window_id: now.focused().fullscreen->0,
                width: cfg.workspace_size.0,
                height: cfg.workspace_size.1,
            },
            ActionView::ForegroundWindow(now.focused().fullscreen->0),
        ]
    } else {
        Seq::empty()
    }
}

/// Whether focus goes to the fullscreen window: it became fullscreen, or
/// the workspace changed to one that has it.
pub open spec fn focuses_fullscreen(before: WMView, now: WMView) -> bool {
    now.focused().fullscreen is Some && (counterpart(before, now).fullscreen is None
        || before.focused_workspace != now.focused_workspace)
}

/// Whether focus goes to the scratchpad's window: no window is fullscreen,
/// one is on display, and the name on display or the workspace changed.
pub open spec fn focuses_scratchpad(before: WMView, now: WMView) -> bool {
    now.focused().fullscreen is None && now.scratchpad.shown is Some && (before.scratchpad.shown
        != now.scratchpad.shown || before.focused_workspace != now.focused_workspace)
}

/// Whether focus goes to the window that had it last on the focused
/// workspace: no window is fullscreen, none is on display from the
/// scratchpad, and the workspace has a focus history.
pub open spec fn focuses_history(now: WMView) -> bool {
    now.focused().fullscreen is None && now.scratchpad.shown is None
        && now.focused().focus_history.len() > 0
}

/// The window that ends up focused. A fullscreen window comes before the
/// scratchpad's, that before the workspace's most recently focused one;
/// where none of them is to be focused, the focused window stays.
pub open spec fn resolved_focus(before: WMView, now: WMView) -> Option<Id> {
    if focuses_fullscreen(before, now) {
        now.focused().fullscreen
    } else if focuses_scratchpad(before, now) {
        now.scratchpad.shown_window()
    } else if focuses_history(now) {
        Some(now.focused().focus_history.last())
    } else {
        now.focused_window
    }
}

/// The border that the window focused so far gets when focus moves on.
pub open spec fn unfocus_plan(now: WMView, cfg: ConfigView) -> Seq<ActionView> {
    match now.focused_window {
        Some(w) => seq![ActionView::BorderWindow { window_id: w, color: cfg.unfocused_border }],
        None => Seq::empty(),
    }
}

/// What moves focus: the window focused so far is bordered as unfocused,
/// then the new one is focused; unless it is a fullscreen window, it is
/// bordered as focused first. Nothing where focus stays.
pub open spec fn focus_plan(before: WMView, now: WMView, cfg: ConfigView) -> Seq<ActionView> {
    if focuses_fullscreen(before, now) {
        unfocus_plan(now, cfg).push(ActionView::FocusWindow(now.focused().fullscreen->0))
    } else if focuses_scratchpad(before, now) || focuses_history(now) {
        let w = resolved_focus(before, now)->0;
        unfocus_plan(now, cfg).push(
            ActionView::BorderWindow { window_id: w, color: cfg.focused_border },
        ).push(ActionView::FocusWindow(w))
    } else {
        Seq::empty()
    }
}

/// Everything to do to the display so that it shows `now` where it showed
/// `before`, in the order in which it is to be done.
pub open spec fn display_plan(before: WMView, now: WMView, cfg: ConfigView) -> Seq<ActionView> {
    switch_plan(before, now) + scratchpad_plan(before, now, cfg) + diff_plan(before, now)
        + new_window_plan(before, now, cfg) + unfullscreen_plan(before, now, cfg) + tiling_plan(
        before,
        now,
        cfg,
    ) + reshow_plan(before, now, cfg) + fullscreen_plan(before, now, cfg) + focus_plan(
        before,
        now,
        cfg,
    )
}

/// The window that the scratchpad displays.
pub fn scratchpad_shown_wid(scratchpad: &ScratchpadState) -> (wid: Option<&str>)
    requires
        scratchpad@.wf(),
    ensures
        match wid {
            Some(w) => scratchpad@.shown_window() == Some(w@),
            None => scratchpad@.shown_window() is None,
        },
{
    match &scratchpad.shown {
        Some(shown) => match position_named(&scratchpad.windows, shown) {
            Some(i) => Some(scratchpad.windows[i].1.as_str()),
            None => None,
        },
        None => None,
    }
}

/// Appends to `plan` what puts the scratchpad's window on display.
pub fn show_scratchpad(plan: &mut Vec<Action>, scratchpad: &ScratchpadState, config: &Config)
    requires
        scratchpad@.wf(),
        config@.scratchpad_fits(),
    ensures
        final(plan).deep_view() == old(plan).deep_view() + show_scratchpad_plan(
            scratchpad@,
            config@,
        ),
{
    let ghost base = plan.deep_view();
    match scratchpad_shown_wid(scratchpad) {
        Some(shown_wid) => {
            emit(plan, Action::MapWindow(shown_wid.to_owned()));
            emit(
                plan,
                Action::MoveWindow {
                    window_id: shown_wid.to_owned(),
                    x: (config.workspace_size.0 - config.scratchpad_size.0) / 2,
                    y: (config.workspace_size.1 - config.scratchpad_size.1) / 2,
                    w: config.scratchpad_size.0,
                    h: config.scratchpad_size.1,
                },
            );
            emit(plan, Action::ForegroundWindow(shown_wid.to_owned()));
            emit(
                plan,
                Action::BorderWindow {
                    window_id: shown_wid.to_owned(),
                    color: config.focused_border.clone(),
                },
            );
            assert(plan.deep_view() =~= base + show_scratchpad_plan(scratchpad@, config@));
        },
        None => {
            assert(plan.deep_view() =~= base + show_scratchpad_plan(scratchpad@, config@));
        },
    }
}

/// Appends to `plan` the border that the window focused so far gets when
/// focus moves on.
fn emit_unfocus(plan: &mut Vec<Action>, now: &WMState, config: &Config)
    ensures
        final(plan).deep_view() == old(plan).deep_view() + unfocus_plan(now@, config@),
{
    let ghost base = plan.deep_view();
    match &now.focused_window {
        Some(w) => {
            emit(
                plan,
                Action::BorderWindow {
                    window_id: w.clone(),
                    color: config.unfocused_border.clone(),
                },
            );
        },
        None => {},
    }
    assert(plan.deep_view() =~= base + unfocus_plan(now@, config@));
}

/// What the reconciler asks of two snapshots: both are well-formed and
/// they have the same number of workspaces.
pub open spec fn comparable(before: WMView, now: WMView) -> bool {
    before.wf() && now.wf() && before.workspaces.len() == now.workspaces.len()
}

/// Appends to `plan` the remapping on a change of workspace.
fn emit_switch(plan: &mut Vec<Action>, before: &WMState, now: &WMState)
    requires
        comparable(before@, now@),
    ensures
        final(plan).deep_view() == old(plan).deep_view() + switch_plan(before@, now@),
{
    let ghost base = plan.deep_view();
    if before.focused_workspace != now.focused_workspace {
        let left = &before.workspaces[before.focused_workspace].windows;
        let entered = &now.workspaces[now.focused_workspace].windows;
        let nothing: Vec<WindowId> = Vec::new();
        proof {
            assert(nothing.deep_view() =~= Seq::empty());
            lemma_absent_from_nothing(left.deep_view());
            lemma_absent_from_nothing(entered.deep_view());
        }
        emit_visibility(plan, left, &nothing, false);
        emit_visibility(plan, entered, &nothing, true);
    }
    assert(plan.deep_view() =~= base + switch_plan(before@, now@));
}

/// Appends to `plan` what a change of the name on display asks for.
fn emit_scratchpad(plan: &mut Vec<Action>, before: &WMState, now: &WMState, config: &Config)
    requires
        comparable(before@, now@),
        config@.scratchpad_fits(),
    ensures
        final(plan).deep_view() == old(plan).deep_view() + scratchpad_plan(
            before@,
            now@,
            config@,
        ),
{
    let ghost base = plan.deep_view();
    if !same_id(&before.scratchpad.shown, &now.scratchpad.shown) {
        match scratchpad_shown_wid(&before.scratchpad) {
            Some(shown_before_wid) => {
                emit(plan, Action::UnmapWindow(shown_before_wid.to_owned()));
            },
            None => {},
        }
        show_scratchpad(plan, &now.scratchpad, config);
    }
    assert(plan.deep_view() =~= base + scratchpad_plan(before@, now@, config@));
}

/// Appends to `plan` the unmaps and maps of the windows that left and
/// joined the focused workspace.
fn emit_diff(plan: &mut Vec<Action>, before: &WMState, now: &WMState)
    requires
        comparable(before@, now@),
    ensures
        final(plan).deep_view() == old(plan).deep_view() + diff_plan(before@, now@),
{
    let ghost base = plan.deep_view();
    let was = &before.workspaces[now.focused_workspace].windows;
    let is = &now.workspaces[now.focused_workspace].windows;
    emit_visibility(plan, was, is, false);
    emit_visibility(plan, is, was, true);
    assert(plan.deep_view() =~= base + diff_plan(before@, now@));
}

/// Appends to `plan` the border of a window new to the focused workspace.
fn emit_new_window(plan: &mut Vec<Action>, before: &WMState, now: &WMState, config: &Config)
    requires
        comparable(before@, now@),
    ensures
        final(plan).deep_view() == old(plan).deep_view() + new_window_plan(
            before@,
            now@,
            config@,
        ),
{
    let ghost base = plan.deep_view();
    let was = &before.workspaces[now.focused_workspace].windows;
    let is = &now.workspaces[now.focused_workspace].windows;
    if was.len() < is.len() {
        emit(
            plan,
            Action::BorderWindow {
                window_id: is[is.len() - 1].clone(),
                color: config.unfocused_border.clone(),
            },
        );
    }
    assert(plan.deep_view() =~= base + new_window_plan(before@, now@, config@));
}

/// Whether the focused workspace had a fullscreen window and has none now.
fn has_left_fullscreen(before: &WMState, now: &WMState) -> (left: bool)
    requires
        comparable(before@, now@),
    ensures
        left == left_fullscreen(before@, now@),
{
    before.workspaces[now.focused_workspace].fullscreen.is_some()
        && now.workspaces[now.focused_workspace].fullscreen.is_none()
}

/// Appends to `plan` the border of a window that left fullscreen.
fn emit_unfullscreen(plan: &mut Vec<Action>, before: &WMState, now: &WMState, config: &Config)
    requires
        comparable(before@, now@),
    ensures
        final(plan).deep_view() == old(plan).deep_view() + unfullscreen_plan(
            before@,
            now@,
            config@,
        ),
{
    let ghost base = plan.deep_view();
    if has_left_fullscreen(before, now) {
        match &before.workspaces[now.focused_workspace].fullscreen {
            Some(wid) => {
                emit(
                    plan,
                    Action::BorderWindow {
                        window_id: wid.clone(),
                        color: config.unfocused_border.clone(),
                    },
                );
            },
            None => {},
        }
    }
    assert(plan.deep_view() =~= base + unfullscreen_plan(before@, now@, config@));
}

/// Appends to `plan` the tiling of the focused workspace, where it is due.
fn emit_tiling(plan: &mut Vec<Action>, before: &WMState, now: &WMState, config: &Config)
    requires
        comparable(before@, now@),
    ensures
        final(plan).deep_view() == old(plan).deep_view() + tiling_plan(before@, now@, config@),
{
    let ghost base = plan.deep_view();
    let is = &now.workspaces[now.focused_workspace].windows;
    if !same_ids(&before.workspaces[before.focused_workspace].windows, is) || has_left_fullscreen(
        before,
        now,
    ) || !same_entries(&now.scratchpad.windows, &before.scratchpad.windows) {
        emit(
            plan,
            Action::TileWindows {
                windows: copy_ids(is),
                gap: config.gaps,
                width: config.workspace_size.0,
                height: config.workspace_size.1,
                panel: config.panel_width,
            },
        );
    }
    assert(plan.deep_view() =~= base + tiling_plan(before@, now@, config@));
}

/// Appends to `plan` what shows the scratchpad's window again after it
/// left fullscreen.
fn emit_reshow(plan: &mut Vec<Action>, before: &WMState, now: &WMState, config: &Config)
    requires
        comparable(before@, now@),
        config@.scratchpad_fits(),
    ensures
        final(plan).deep_view() == old(plan).deep_view() + reshow_plan(before@, now@, config@),
{
    let ghost base = plan.deep_view();
    if has_left_fullscreen(before, now) {
        let same = match (
            scratchpad_shown_wid(&now.scratchpad),
            &before.workspaces[now.focused_workspace].fullscreen,
        ) {
            (Some(shown_wid), Some(fullscreen)) => shown_wid.to_owned() == *fullscreen,
            _ => false,
        };
        if same {
            show_scratchpad(plan, &now.scratchpad, config);
        }
    }
    assert(plan.deep_view() =~= base + reshow_plan(before@, now@, config@));
}

/// Appends to `plan` what lets the fullscreen window fill the screen.
fn emit_fullscreen(plan: &mut Vec<Action>, before: &WMState, now: &WMState, config: &Config)
    requires
        comparable(before@, now@),
    ensures
        final(plan).deep_view() == old(plan).deep_view() + fullscreen_plan(
            before@,
            now@,
            config@,
        ),
{
    let ghost base = plan.deep_view();
    let is = &now.workspaces[now.focused_workspace];
    if !same_id(&before.workspaces[now.focused_workspace].fullscreen, &is.fullscreen)
        || before.focused_workspace != now.focused_workspace {
        match &is.fullscreen {
            Some(fullscreen) => {
                emit(
                    plan,
                    Action::FullscreenWindow {
                        window_id: fullscreen.clone(),
                        width: config.workspace_size.0,
                        height: config.workspace_size.1,
                    },
                );
                emit(plan, Action::ForegroundWindow(fullscreen.clone()));
            },
            None => {},
        }
    }
    assert(plan.deep_view() =~= base + fullscreen_plan(before@, now@, config@));
}

/// Appends to `plan` what borders `wid` as focused and focuses it, after
/// the window focused so far lost its border.
fn emit_refocus(plan: &mut Vec<Action>, now: &WMState, config: &Config, wid: &str)
    ensures
        final(plan).deep_view() == old(plan).deep_view() + unfocus_plan(now@, config@).push(
            ActionView::BorderWindow { window_id: wid@, color: config@.focused_border },
        ).push(ActionView::FocusWindow(wid@)),
{
    let ghost base = plan.deep_view();
    emit_unfocus(plan, now, config);
    emit(
        plan,
        Action::BorderWindow { window_id: wid.to_owned(), color: config.focused_border.clone() },
    );
    emit(plan, Action::FocusWindow(wid.to_owned()));
    assert(plan.deep_view() =~= base + unfocus_plan(now@, config@).push(
        ActionView::BorderWindow { window_id: wid@, color: config@.focused_border },
    ).push(ActionView::FocusWindow(wid@)));
}

/// Appends to `plan` what moves focus, and gives the window that ends up
/// focused.
fn emit_focus(plan: &mut Vec<Action>, before: &WMState, now: &WMState, config: &Config) -> (focus:
    Option<WindowId>)
    requires
        comparable(before@, now@),
    ensures
        final(plan).deep_view() == old(plan).deep_view() + focus_plan(before@, now@, config@),
        focus.deep_view() == resolved_focus(before@, now@),
{
    let ghost base = plan.deep_view();
    let is = &now.workspaces[now.focused_workspace];
    let workspace_changed = before.focused_workspace != now.focused_workspace;
    assert(base =~= base + Seq::<ActionView>::empty());
    match &is.fullscreen {
        Some(fullscreen) => {
            if before.workspaces[now.focused_workspace].fullscreen.is_none() || workspace_changed {
                emit_unfocus(plan, now, config);
                emit(plan, Action::FocusWindow(fullscreen.clone()));
                assert(plan.deep_view() =~= base + focus_plan(before@, now@, config@));
                return Some(fullscreen.clone());
            }
            return copy_id(&now.focused_window);
        },
        None => {},
    }
    match scratchpad_shown_wid(&now.scratchpad) {
        Some(shown_wid) => {
            if !same_id(&before.scratchpad.shown, &now.scratchpad.shown) || workspace_changed {
                emit_refocus(plan, now, config, shown_wid);
                return Some(shown_wid.to_owned());
            }
            return copy_id(&now.focused_window);
        },
        None => {},
    }
    let history_len = is.focus_history.len();
    if history_len > 0 {
        let wid = &is.focus_history[history_len - 1];
        emit_refocus(plan, now, config, wid.as_str());
        return Some(wid.clone());
    }
    copy_id(&now.focused_window)
}

/// Works out what to do to the display so that it shows `now` where it
/// showed `before`, and which window ends up focused.
///
/// The plan lists, in this order: the remapping on a change of workspace,
/// the scratchpad window hidden and the one shown, the windows that left
/// and joined the focused workspace, the border of a new window, the border
/// of a window that left fullscreen, the tiling, the scratchpad window shown
/// again after fullscreen, the fullscreen window, and the change of focus.
pub fn actualize_screen(before: &WMState, now: &WMState, config: &Config) -> (out: (
    Vec<Action>,
    Option<WindowId>,
))
    requires
        comparable(before@, now@),
        config@.scratchpad_fits(),
    ensures
        out.0.deep_view() == display_plan(before@, now@, config@),
        out.1.deep_view() == resolved_focus(before@, now@),
{
    let mut plan: Vec<Action> = Vec::new();
    assert(plan.deep_view() =~= Seq::empty());
    emit_switch(&mut plan, before, now);
    assert(plan.deep_view() =~= switch_plan(before@, now@));
    emit_scratchpad(&mut plan, before, now, config);
    emit_diff(&mut plan, before, now);
    emit_new_window(&mut plan, before, now, config);
    emit_unfullscreen(&mut plan, before, now, config);
    emit_tiling(&mut plan, before, now, config);
    emit_reshow(&mut plan, before, now, config);
    emit_fullscreen(&mut plan, before, now, config);
    let focus = emit_focus(&mut plan, before, now, config);
    (plan, focus)
}

} // verus!
