//! A deterministic rollback simulation for a two-player space duel.
//!
//! `input` packs each player's controls into three bytes and reads intents
//! back; `game` runs one frame of the simulation on integer state; `rollback`
//! keeps snapshots, advances frames and replays them after a correction;
//! `components` holds the records and their checksums; `snapshot` what a
//! whole state is hashed from and how it is copied; `math` the wrapping
//! geometry; `radar` what the local player sees of the others; `session`
//! sorts the network session's notifications.

pub mod math;
pub mod input;
pub mod components;
pub mod game;
pub mod snapshot;
pub mod rollback;
pub mod radar;
pub mod session;
