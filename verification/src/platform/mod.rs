//! Per-platform conversion of recorded wheel deltas into replay scroll
//! amounts.
//!
//! Recording side: positive `delta_y` scrolls up, positive `delta_x` scrolls
//! right. Replay side: a positive vertical amount scrolls down, a positive
//! horizontal amount scrolls right.
pub mod macos;
pub mod windows;
