//! Weave patterns for a Jacquard-style loom, and the records that a
//! makerspace keeps beside it.
//!
//! The loom side turns a picture into a black-and-white raster that can be
//! woven: `loom` runs the whole conversion, and `canvas`, `tone`, `dither`,
//! `weave` and `tabby` are its stages. `codec` reads and writes picture
//! containers. The other modules keep the makerspace's records: checkouts,
//! storage slots, printers, quizzes, users, inventory, schedule.

pub mod grid;
pub mod dither;
pub mod weave;
pub mod tabby;
pub mod tone;
pub mod canvas;
pub mod codec;
pub mod loom;
pub mod clock;
pub mod student_storage;
pub mod quizzes;
pub mod users;
pub mod ids;
pub mod checkout;
pub mod permissions;
pub mod usage;
pub mod printers;
pub mod schedule;
pub mod workshops;
pub mod inventory;
pub mod text;
