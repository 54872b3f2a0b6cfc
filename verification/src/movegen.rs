//! Move generation: rays, pseudo-legal moves, and the legality filter.

pub mod alike;
pub mod frame;
pub mod legal;
pub mod raw;
pub mod sound;
pub mod walk;

pub use crate::movegen::legal::Legal;
pub use crate::movegen::raw::{CaptureInfo, Raw, RawMove, RawMoveInfo};
pub use crate::movegen::walk::{Walk, DD, HD, VD};
