//! The rules of a small farming sandbox, in integers.
//!
//! A player walks around, buys pigs, and is paid when a pig's lifetime
//! runs out. This crate holds the rules only: movement requests, the
//! reaction of pigs to being touched, their wandering, their expiry and the
//! money that changes hands. Collision resolution, input devices and
//! drawing belong to the program around it, which reports contacts and
//! elapsed time and carries out what the rules decide.
//!
//! All quantities are integers. Lengths and vector components are counted
//! in thousandths of a world unit, time in milliseconds, speeds in world
//! units per second, so that `speed * milliseconds` is a length in
//! thousandths with nothing to round.

pub mod fixed;
pub mod vector;
pub mod timer;
pub mod economy;
pub mod player;
pub mod random;
pub mod pig;
pub mod world;
pub mod run;
