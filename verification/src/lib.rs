//! Core of a cooldown heads-up display: per-character recast timers that are
//! restarted by how long an activation key was held, and the per-tick values
//! that a gauge renderer draws from them.
//!
//! A host polls the keyboard and the clock once per frame and hands both to
//! [`session::Session::tick`]. The session moves the active slot, follows the
//! activation key, restarts the cooldown of the character that a released
//! hold is for, and brings every record up to the clock. The host then reads
//! each slot's [`gauge::GaugeReading`] and draws it as [`gauge::gauge_style`]
//! says.
//!
//! Time is counted in integers throughout: readings of the clock in
//! nanoseconds, holds and cooldowns in milliseconds, and the completion of a
//! cooldown as a ratio of two such counts.

pub mod clock;
pub mod cooldown;
pub mod gauge;
pub mod input;
pub mod loading;
mod prefix;
pub mod session;
pub mod tables;
