//! The core of a manager for a fleet of game servers that run in panes of a
//! terminal multiplexer: it reads what their logs gain and relays the chat
//! in them, reads the commands of a control socket, and decides when a
//! backup is due and which archives are to go.
//!
//! Nothing here touches a file, a socket or a process. Each function takes
//! what was read as plain values and hands back what is to be done.
use vstd::prelude::*;

pub mod args;
pub mod backup;
pub mod bridge;
pub mod config;
pub mod counting;
pub mod decimal;
pub mod order;
pub mod retention;
pub mod text;
pub mod utils;
pub mod ws;

verus! {

/// Advances the scheduler clock by one second, wrapping at the top of the range.
pub fn next_tick(clock: u64) -> (next: u64)
    ensures
        next as int == (clock as int + 1) % 0x1_0000_0000_0000_0000,
{
    clock.wrapping_add(1)
}

} // verus!
