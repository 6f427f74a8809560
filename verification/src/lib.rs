//! Input decoding, pen tracking and e-paper refresh planning for the
//! reMarkable 1 (1404 x 1872 portrait panel).

pub mod geometry;
pub mod evdev;
pub mod rm1fb;
pub mod pen;
pub mod display;
