//! Where a restored window may be placed: a saved position is used only when
//! the window would still be reachable on one of the monitors.

use vstd::prelude::*;

verus! {

/// A monitor's area in physical pixels.
#[derive(Debug, Clone, Copy, PartialEq, Eq, Structural)]
pub struct MonitorArea {
    pub x: i32,
    pub y: i32,
    pub width: i32,
    pub height: i32,
}

/// Whether a window at `(x, y)` of size `w`×`h` overlaps the monitor by more
/// than a 40-pixel margin on every side, so that it can still be grabbed.
pub open spec fn reachable_on(x: int, y: int, w: int, h: int, m: MonitorArea) -> bool {
    x + w > m.x + 40 && x < m.x + m.width - 40 && y + h > m.y + 40 && y < m.y + m.height - 40
}

/// A window lying entirely inside a monitor, larger than the margin in both
/// directions, is reachable on it.
pub proof fn law_window_inside_a_monitor_is_reachable(x: int, y: int, w: int, h: int, m: MonitorArea)
    requires
        m.x <= x,
        x + w <= m.x + m.width,
        m.y <= y,
        y + h <= m.y + m.height,
        w > 40,
        h > 40,
    ensures
        reachable_on(x, y, w, h, m),
{
}

/// A window whose grab margin lies past any edge of a monitor is not
/// reachable on it: its left side at or beyond the right edge less the
/// margin, its top at or below the bottom edge less the margin, or its
/// right or bottom side not past the left or top edge plus the margin.
pub proof fn law_window_past_an_edge_is_unreachable(x: int, y: int, w: int, h: int, m: MonitorArea)
    requires
        x >= m.x + m.width - 40 || y >= m.y + m.height - 40 || x + w <= m.x + 40 || y + h <= m.y + 40,
    ensures
        !reachable_on(x, y, w, h, m),
{
}

/// A saved position below (or right of) every monitor's reachable area is
/// refused, as after unplugging the monitor it was on.
pub proof fn law_position_past_every_monitor_is_refused(
    x: int,
    y: int,
    w: int,
    h: int,
    monitors: Seq<MonitorArea>,
)
    requires
        forall|i: int| 0 <= i < monitors.len() ==> y >= (#[trigger] monitors[i]).y + monitors[i].height - 40,
    ensures
        !exists|i: int| 0 <= i < monitors.len() && reachable_on(x, y, w, h, #[trigger] monitors[i]),
{
}

/// Whether a saved window position is still reachable on some monitor (a
/// monitor may have been unplugged since it was saved).
pub fn position_on_screen(x: i32, y: i32, w: i32, h: i32, monitors: &Vec<MonitorArea>) -> (r: bool)
    ensures
        r == exists|i: int| 0 <= i < monitors@.len() && reachable_on(x as int, y as int, w as int, h as int, #[trigger] monitors@[i]),
{
    let mut i: usize = 0;
    while i < monitors.len()
        invariant
            i <= monitors.len(),
            forall|j: int| 0 <= j < i ==> !reachable_on(x as int, y as int, w as int, h as int, #[trigger] monitors@[j]),
        decreases monitors.len() - i,
    {
        let m = monitors[i];
        let (xx, yy, ww, hh) = (x as i64, y as i64, w as i64, h as i64);
        if xx + ww > m.x as i64 + 40 && xx < m.x as i64 + m.width as i64 - 40 && yy + hh > m.y as i64
            + 40 && yy < m.y as i64 + m.height as i64 - 40 {
            assert(reachable_on(x as int, y as int, w as int, h as int, monitors@[i as int]));
            return true;
        }
        i = i + 1;
    }
    false
}

} // verus!
