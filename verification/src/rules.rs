//! What each operation decides: on which states it is refused and with what,
//! and which state it leaves behind when it is not.

pub mod admin;
pub mod bills;
pub mod cycles;
