//! Daylog core: a daily wake scheduler with minute resolution.
//!
//! The library models wall-clock times, calendar dates, and the "next wake
//! target" computation that decides, for a set of users with local send
//! times in IANA timezones, when the scheduler should act next. It also
//! holds the pure decision logic of the scheduler's control loop, the
//! message-identity codec, and the mail-reply processing rules. All
//! file, database, network and signal handling lives outside the library.

pub mod config;
pub mod control;
pub mod date;
pub mod db;
pub mod digits;
pub mod ingest;
pub mod mail;
pub mod maildir;
pub mod message_id;
pub mod sched;
pub mod text;
pub mod time;
pub mod send;
pub mod tz;
pub mod user;
