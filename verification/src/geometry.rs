//! Window geometry: the saved rectangle, its JSON persistence format, and
//! the placement the shell applies on startup. A saved position is restored
//! only while it is still at least partly visible on some monitor; otherwise
//! the window is centered on the primary (or first) monitor, and without a
//! saved rectangle it keeps the default size.

use vstd::prelude::*;

verus! {

/// The width a window gets when no geometry was saved.
pub const DEFAULT_WINDOW_WIDTH: u32 = 1280;

/// The height a window gets when no geometry was saved.
pub const DEFAULT_WINDOW_HEIGHT: u32 = 900;

/// The smallest width the window may be resized to.
pub const MIN_WINDOW_WIDTH: u32 = 1280;

/// The smallest height the window may be resized to.
pub const MIN_WINDOW_HEIGHT: u32 = 900;

/// A window rectangle: outer position and outer size, in physical pixels.
#[derive(Clone, Copy, PartialEq, Eq, Structural, Debug)]
pub struct WindowGeometry {
    pub x: i32,
    pub y: i32,
    pub width: u32,
    pub height: u32,
}

/// A monitor's rectangle: position of its top-left corner and its size.
#[derive(Clone, Copy, PartialEq, Eq, Structural, Debug)]
pub struct MonitorRect {
    pub x: i32,
    pub y: i32,
    pub width: u32,
    pub height: u32,
}

/// The window rectangle and the monitor's rectangle share some area, in
/// exact integer arithmetic.
pub open spec fn overlaps(m: MonitorRect, x: int, y: int, width: int, height: int) -> bool {
    &&& x < m.x + m.width
    &&& x + width > m.x
    &&& y < m.y + m.height
    &&& y + height > m.y
}

/// A saved rectangle counts as in bounds when it overlaps some monitor, or
/// when there is no monitor to check against.
pub open spec fn spec_in_bounds(monitors: Seq<MonitorRect>, g: WindowGeometry) -> bool {
    monitors.len() == 0 || exists|i: int|
        0 <= i < monitors.len() && overlaps(
            monitors[i],
            g.x as int,
            g.y as int,
            g.width as int,
            g.height as int,
        )
}

/// Whether the rectangle `g` is at least partly visible on some monitor of
/// `monitors` (or the list is empty, when nothing can be checked).
pub fn position_in_bounds(monitors: &Vec<MonitorRect>, g: &WindowGeometry) -> (r: bool)
    ensures
        r == spec_in_bounds(monitors@, *g),
{
    if monitors.len() == 0 {
        return true;
    }
    let n = monitors.len();
    let mut i: usize = 0;
    while i < n
        invariant
            i <= n,
            n == monitors@.len(),
            forall|j: int|
                0 <= j < i ==> !overlaps(
                    monitors@[j],
                    g.x as int,
                    g.y as int,
                    g.width as int,
                    g.height as int,
                ),
        decreases n - i,
    {
        let m = monitors[i];
        let hit = (g.x as i64) < (m.x as i64) + (m.width as i64) && (g.x as i64) + (g.width
            as i64) > (m.x as i64) && (g.y as i64) < (m.y as i64) + (m.height as i64) && (g.y
            as i64) + (g.height as i64) > (m.y as i64);
        if hit {
            assert(overlaps(monitors@[i as int], g.x as int, g.y as int, g.width as int, g.height as int));
            return true;
        }
        i = i + 1;
    }
    false
}

/// The monitor a lost window is brought to: the primary where the shell
/// knows one, else the first available.
pub open spec fn spec_fallback_monitor(
    primary: Option<MonitorRect>,
    monitors: Seq<MonitorRect>,
) -> Option<MonitorRect> {
    match primary {
        Some(m) => Some(m),
        None => if monitors.len() > 0 {
            Some(monitors[0])
        } else {
            None
        },
    }
}

/// Picks the monitor to center a lost window on.
pub fn fallback_monitor(primary: Option<MonitorRect>, monitors: &Vec<MonitorRect>) -> (r: Option<
    MonitorRect,
>)
    ensures
        r == spec_fallback_monitor(primary, monitors@),
{
    match primary {
        Some(m) => Some(m),
        None => if monitors.len() > 0 {
            Some(monitors[0])
        } else {
            None
        },
    }
}

/// Halving that rounds toward zero, as the shell's division does.
pub open spec fn half_toward_zero(d: int) -> int {
    if d >= 0 {
        d / 2
    } else {
        -((-d) / 2)
    }
}

/// `v` brought into the range of an `i32`.
pub open spec fn clamp_i32(v: int) -> int {
    if v < i32::MIN {
        i32::MIN as int
    } else if v > i32::MAX {
        i32::MAX as int
    } else {
        v
    }
}

/// The coordinate that centers a span of `size` on the monitor span starting
/// at `start` with length `extent`, clamped to the coordinate range.
pub open spec fn centered_coord(start: int, extent: int, size: int) -> int {
    clamp_i32(start + half_toward_zero(extent - size))
}

/// Centers one axis: see `centered_coord`.
fn center_on_axis(start: i32, extent: u32, size: u32) -> (r: i32)
    ensures
        r as int == centered_coord(start as int, extent as int, size as int),
{
    let diff: i64 = (extent as i64) - (size as i64);
    let half: i64 = if diff >= 0 {
        ((diff as u64) / 2) as i64
    } else {
        -((((-diff) as u64) / 2) as i64)
    };
    let v: i64 = (start as i64) + half;
    if v < i32::MIN as i64 {
        i32::MIN
    } else if v > i32::MAX as i64 {
        i32::MAX
    } else {
        v as i32
    }
}

/// The position that centers a window of the given size on monitor `m`.
pub fn centered_position(m: &MonitorRect, width: u32, height: u32) -> (r: (i32, i32))
    ensures
        r.0 as int == centered_coord(m.x as int, m.width as int, width as int),
        r.1 as int == centered_coord(m.y as int, m.height as int, height as int),
{
    (center_on_axis(m.x, m.width, width), center_on_axis(m.y, m.height, height))
}

/// What the shell does with the window when it starts.
#[derive(Clone, Copy, PartialEq, Eq, Structural, Debug)]
pub enum Placement {
    /// No saved geometry: the window keeps the default size.
    DefaultSize { width: u32, height: u32 },
    /// The saved rectangle is still visible: size and position are restored.
    Restore { geometry: WindowGeometry },
    /// The saved position is off every monitor: the saved size is kept and
    /// the window is centered on the fallback monitor.
    Centered { width: u32, height: u32, x: i32, y: i32 },
    /// Off every monitor, and no monitor to center on: only the size is
    /// restored.
    SizeOnly { width: u32, height: u32 },
}

/// The placement the shell owes the window on startup.
pub open spec fn spec_initial_placement(
    saved: Option<WindowGeometry>,
    monitors: Seq<MonitorRect>,
    primary: Option<MonitorRect>,
) -> Placement {
    match saved {
        None => Placement::DefaultSize { width: DEFAULT_WINDOW_WIDTH, height: DEFAULT_WINDOW_HEIGHT },
        Some(g) => if spec_in_bounds(monitors, g) {
            Placement::Restore { geometry: g }
        } else {
            match spec_fallback_monitor(primary, monitors) {
                Some(m) => Placement::Centered {
                    width: g.width,
                    height: g.height,
                    x: centered_coord(m.x as int, m.width as int, g.width as int) as i32,
                    y: centered_coord(m.y as int, m.height as int, g.height as int) as i32,
                },
                None => Placement::SizeOnly { width: g.width, height: g.height },
            }
        },
    }
}

/// Decides the startup placement from the saved geometry, the monitors the
/// shell sees, and the primary monitor if it knows one.
pub fn initial_placement(
    saved: Option<WindowGeometry>,
    monitors: &Vec<MonitorRect>,
    primary: Option<MonitorRect>,
) -> (r: Placement)
    ensures
        r == spec_initial_placement(saved, monitors@, primary),
{
    match saved {
        None => Placement::DefaultSize { width: DEFAULT_WINDOW_WIDTH, height: DEFAULT_WINDOW_HEIGHT },
        Some(g) => {
            if position_in_bounds(monitors, &g) {
                Placement::Restore { geometry: g }
            } else {
                match fallback_monitor(primary, monitors) {
                    Some(m) => {
                        let (x, y) = centered_position(&m, g.width, g.height);
                        Placement::Centered { width: g.width, height: g.height, x, y }
                    },
                    None => Placement::SizeOnly { width: g.width, height: g.height },
                }
            }
        },
    }
}

} // verus!
