//! Size and position checks for the main window after its state is restored.
use vstd::prelude::*;

verus! {

/// Default (and smallest accepted) width in logical pixels.
pub const DEFAULT_WIDTH: u32 = 1280;

/// Default (and smallest accepted) height in logical pixels.
pub const DEFAULT_HEIGHT: u32 = 1440;

/// Largest accepted width in logical pixels.
pub const MAX_WIDTH: u32 = 3840;

/// Largest accepted height in logical pixels.
pub const MAX_HEIGHT: u32 = 2160;

/// `v` moved into `[lo, hi]` (below `lo` gives `lo`, above `hi` gives `hi`).
pub open spec fn bounded(v: u32, lo: u32, hi: u32) -> u32 {
    if v < lo {
        lo
    } else if v > hi {
        hi
    } else {
        v
    }
}

/// The corrected logical size: below the default goes up to the default,
/// above the maximum goes down to the maximum.
pub fn correct_size(width: u32, height: u32) -> (r: (u32, u32))
    ensures
        r == (bounded(width, DEFAULT_WIDTH, MAX_WIDTH), bounded(height, DEFAULT_HEIGHT, MAX_HEIGHT)),
{
    let w = if width < DEFAULT_WIDTH {
        DEFAULT_WIDTH
    } else if width > MAX_WIDTH {
        MAX_WIDTH
    } else {
        width
    };
    let h = if height < DEFAULT_HEIGHT {
        DEFAULT_HEIGHT
    } else if height > MAX_HEIGHT {
        MAX_HEIGHT
    } else {
        height
    };
    (w, h)
}

/// A monitor's bounds in logical pixels.
#[derive(Clone, Copy, Debug)]
pub struct MonitorBounds {
    pub x: i32,
    pub y: i32,
    pub width: u32,
    pub height: u32,
}

pub open spec fn fits_in(x: int, y: int, width: int, height: int, m: MonitorBounds) -> bool {
    &&& x >= m.x
    &&& x + width <= m.x + m.width
    &&& y >= m.y
    &&& y + height <= m.y + m.height
}

/// Whether a window at `(x, y)` of the given logical size lies wholly
/// within one of the monitors; when it does not, the shell centers it.
pub fn position_is_visible(x: i32, y: i32, width: u32, height: u32, monitors: &[MonitorBounds]) -> (r:
    bool)
    ensures
        r == exists|i: int|
            0 <= i < monitors@.len() && fits_in(
                x as int,
                y as int,
                width as int,
                height as int,
                #[trigger] monitors@[i],
            ),
{
    let mut i: usize = 0;
    while i < monitors.len()
        invariant
            i <= monitors@.len(),
            forall|j: int|
                0 <= j < i ==> !fits_in(
                    x as int,
                    y as int,
                    width as int,
                    height as int,
                    #[trigger] monitors@[j],
                ),
        decreases monitors@.len() - i,
    {
        let m = monitors[i];
        let x64 = x as i64;
        let y64 = y as i64;
        if x64 >= m.x as i64 && x64 + width as i64 <= m.x as i64 + m.width as i64 && y64
            >= m.y as i64 && y64 + height as i64 <= m.y as i64 + m.height as i64 {
            return true;
        }
        i = i + 1;
    }
    false
}

} // verus!
