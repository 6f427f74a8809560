//! Fixed panel geometry of the reMarkable 1.
use vstd::prelude::*;

verus! {

/// Visible width of the panel in pixels (portrait orientation).
pub const SCREEN_W: usize = 1404;

/// Visible height of the panel in pixels (portrait orientation).
pub const SCREEN_H: usize = 1872;

/// `v` held within `lo..=hi`.
pub open spec fn clamp(v: int, lo: int, hi: int) -> int {
    if v < lo {
        lo
    } else if v > hi {
        hi
    } else {
        v
    }
}

} // verus!
