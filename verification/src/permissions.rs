//! Who may swipe into which room, and when.

use vstd::prelude::*;
use crate::users::AuthLevel;

verus! {

/// The rooms with a card reader.
#[derive(Clone, Copy, Debug, Default, PartialEq, Eq)]
pub enum SwipeGroup {
    #[default]
    Makerspace,
    Studio,
    Laser3D,
    SprayPaint,
    Composite,
}

/// One rule of access: the least level that opens the room, and the span
/// of time in which it does.
#[derive(Clone, Copy, Debug, Default)]
pub struct AccessRule {
    pub swipe_group: SwipeGroup,
    pub auth_level: AuthLevel,
    pub timestamp_start: u64,
    pub timestamp_end: u64,
}

} // verus!
