use crate::action::{emit, Action, ActionView};
use crate::ids::Id;
use crate::state::WindowId;
use vstd::prelude::*;

verus! {

/// Whether `n` windows can be tiled on a screen of this width and height:
/// the gaps, and the height left free for the panel, leave no negative room.
pub open spec fn tiling_fits(n: int, gap: int, width: int, height: int, panel: int) -> bool {
    if n <= 0 {
        true
    } else if n == 1 {
        2 * gap <= width && 2 * gap + panel <= height
    } else {
        3 * gap <= width && (n - n / 2 + 1) * gap + panel <= height
    }
}

/// The height of each window in a column of `count` windows: what the
/// gaps and the panel leave of the screen's height, shared equally.
pub open spec fn column_height(count: int, gap: int, height: int, panel: int) -> int {
    (height - (count + 1) * gap - panel) / count
}

/// Where the window at place `i` of `n` tiled windows goes.
///
/// A single window fills the screen within the gaps. Of several, the first
/// `n / 2` form the left column and the others the right one; the columns
/// are equally wide, and within a column the windows are equally high and
/// stacked from the top, a gap apart.
pub open spec fn tile_of(
    windows: Seq<Id>,
    i: int,
    gap: int,
    width: int,
    height: int,
    panel: int,
) -> ActionView {
    let n = windows.len() as int;
    if n == 1 {
        ActionView::MoveWindow {
            window_id: windows[i],
            x: gap,
            y: gap,
            w: width - 2 * gap,
            h: height - 2 * gap - panel,
        }
    } else {
        let half_w = (width - 3 * gap) / 2;
        let left_n = n / 2;
        if i < left_n {
            let h = column_height(left_n, gap, height, panel);
            ActionView::MoveWindow {
                window_id: windows[i],
                x: gap,
                y: gap * (i + 1) + h * i,
                w: half_w,
                h,
            }
        } else {
            let row = i - left_n;
            let h = column_height(n - left_n, gap, height, panel);
            ActionView::MoveWindow {
                window_id: windows[i],
                x: half_w + gap * 2,
                y: gap * (row + 1) + h * row,
                w: half_w,
                h,
            }
        }
    }
}

/// The moves that tile `windows`, one for each, in their order.
pub open spec fn tiling(windows: Seq<Id>, gap: int, width: int, height: int, panel: int) -> Seq<
    ActionView,
> {
    Seq::new(windows.len(), |i: int| tile_of(windows, i, gap, width, height, panel))
}

/// Within a column of `count` windows that fits the screen, the window in
/// row `row` starts and ends on the screen.
proof fn lemma_row_fits(count: int, row: int, gap: int, height: int, panel: int)
    requires
        0 <= row < count,
        0 <= gap,
        0 <= panel,
        (count + 1) * gap + panel <= height,
    ensures
        0 <= column_height(count, gap, height, panel),
        0 <= gap * (row + 1) <= height,
        0 <= column_height(count, gap, height, panel) * row,
        gap * (row + 1) + column_height(count, gap, height, panel) * row <= height,
{
    let room = height - (count + 1) * gap - panel;
    let h = room / count;
    assert(0 <= h && h * count <= room) by (nonlinear_arith)
        requires
            h == room / count,
            count > 0,
            room >= 0,
    ;
    assert(0 <= h * row <= h * count) by (nonlinear_arith)
        requires
            0 <= h,
            0 <= row < count,
    ;
    assert(0 <= gap * (row + 1) <= (count + 1) * gap) by (nonlinear_arith)
        requires
            0 <= gap,
            0 <= row < count,
    ;
}

/// Whether `n` windows can be tiled on a screen of this size, with this
/// gap and this much height left free for the panel.
pub fn can_tile(n: usize, gap: usize, size: (usize, usize), panel_size: usize) -> (fits: bool)
    ensures
        fits == tiling_fits(
            n as int,
            gap as int,
            size.0 as int,
            size.1 as int,
            panel_size as int,
        ),
{
    if n == 0 {
        return true;
    }
    let (across, rows): (usize, usize) = if n == 1 {
        (2, 2)
    } else {
        (3, n - n / 2 + 1)
    };
    let wide = match across.checked_mul(gap) {
        Some(gaps) => gaps <= size.0,
        None => false,
    };
    let high = match rows.checked_mul(gap) {
        Some(gaps) => match gaps.checked_add(panel_size) {
            Some(taken) => taken <= size.1,
            None => false,
        },
        None => false,
    };
    wide && high
}

/// Lays `windows` out on a screen of size `size`: a single window fills it
/// within the gaps, several stand in two columns. `panel_size` is the
/// height left free at the bottom.
pub fn tile_windows(
    windows: Vec<WindowId>,
    gap: usize,
    size: (usize, usize),
    panel_size: usize,
) -> (moves: Vec<Action>)
    requires
        tiling_fits(
            windows.len() as int,
            gap as int,
            size.0 as int,
            size.1 as int,
            panel_size as int,
        ),
    ensures
        moves.deep_view() == tiling(
            windows.deep_view(),
            gap as int,
            size.0 as int,
            size.1 as int,
            panel_size as int,
        ),
{
    let (wsw, wsh) = size;
    let n = windows.len();
    let ghost want = tiling(
        windows.deep_view(),
        gap as int,
        wsw as int,
        wsh as int,
        panel_size as int,
    );
    let mut moves: Vec<Action> = Vec::new();
    if n == 0 {
        assert(moves.deep_view() =~= want);
        return moves;
    }
    if n == 1 {
        let full_w = wsw - 2 * gap;
        let full_h = wsh - 2 * gap - panel_size;
        emit(
            &mut moves,
            Action::MoveWindow {
                window_id: windows[0].clone(),
                x: gap,
                y: gap,
                w: full_w,
                h: full_h,
            },
        );
        assert(moves.deep_view() =~= want);
        return moves;
    }
    let half_w = (wsw - 3 * gap) / 2;
    let left_n = n / 2;
    let right_n = n - left_n;
    proof {
        assert((left_n + 1) * gap <= (right_n + 1) * gap) by (nonlinear_arith)
            requires
                left_n <= right_n,
                0 <= gap,
        ;
    }
    let left_h = (wsh - (left_n + 1) * gap - panel_size) / left_n;
    let right_h = (wsh - (right_n + 1) * gap - panel_size) / right_n;
    assert(moves.deep_view() =~= want.take(0));
    let mut i: usize = 0;
    while i < n
        invariant
            i <= n,
            n == windows.len(),
            n >= 2,
            left_n == n / 2,
            right_n == n - left_n,
            half_w == (wsw - 3 * gap) / 2,
            3 * gap <= wsw,
            (left_n + 1) * gap + panel_size <= wsh,
            (right_n + 1) * gap + panel_size <= wsh,
            left_h == column_height(left_n as int, gap as int, wsh as int, panel_size as int),
            right_h == column_height(right_n as int, gap as int, wsh as int, panel_size as int),
            want == tiling(
                windows.deep_view(),
                gap as int,
                wsw as int,
                wsh as int,
                panel_size as int,
            ),
            moves.deep_view() == want.take(i as int),
        decreases n - i,
    {
        let ghost so_far = moves.deep_view();
        if i < left_n {
            proof {
                lemma_row_fits(left_n as int, i as int, gap as int, wsh as int, panel_size as int);
            }
            emit(
                &mut moves,
                Action::MoveWindow {
                    window_id: windows[i].clone(),
                    x: gap,
                    y: gap * (i + 1) + left_h * i,
                    w: half_w,
                    h: left_h,
                },
            );
        } else {
            let row = i - left_n;
            proof {
                lemma_row_fits(
                    right_n as int,
                    row as int,
                    gap as int,
                    wsh as int,
                    panel_size as int,
                );
            }
            emit(
                &mut moves,
                Action::MoveWindow {
                    window_id: windows[i].clone(),
                    x: half_w + gap * 2,
                    y: gap * (row + 1) + right_h * row,
                    w: half_w,
                    h: right_h,
                },
            );
        }
        assert(moves.deep_view() =~= want.take(i + 1));
        i += 1;
    }
    assert(want.take(n as int) =~= want);
    moves
}

} // verus!
