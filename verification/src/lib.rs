//! Event-derivation core for a StarCraft: Remastered companion app.
//!
//! The library turns low-level signals from the game client (its process,
//! a listening TCP port, and the URLs recorded in its embedded browser
//! cache) into a small set of domain events: profile selected, match
//! found, game ended, local API service up or down.

pub mod cache;
pub mod classify;
pub mod deriver;
pub mod replay;
pub mod scr_events;
pub mod scr_process;
pub mod snapshot;
pub mod star_cache;
pub mod strutil;
