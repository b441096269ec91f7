use vstd::prelude::*;

verus! {

/// Width of the window.
pub const WINDOW_WIDTH: u32 = 1024;

/// Height of the window.
pub const WINDOW_HEIGHT: u32 = 768;

/// Where the window goes on a monitor of the given size: a third of the free
/// width from the left and a quarter of the free height from the top.
pub fn get_center(monitor_width: u32, monitor_height: u32) -> (origin: (u32, u32))
    requires
        monitor_width >= WINDOW_WIDTH,
        monitor_height >= WINDOW_HEIGHT,
    ensures
        origin.0 == (monitor_width - WINDOW_WIDTH) / 3,
        origin.1 == (monitor_height - WINDOW_HEIGHT) / 4,
{
    let x: u32 = (monitor_width - WINDOW_WIDTH) / 3;
    let y: u32 = (monitor_height - WINDOW_HEIGHT) / 4;
    (x, y)
}

} // verus!
