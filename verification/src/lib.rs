//! Wire protocol and control logic of the Roborock S5 Max hardware driver.
//!
//! Everything here is a function of plain values: bytes in, decisions out. The
//! program around the library owns the UARTs, the clock and the threads.

pub mod acks;
pub mod bytes;
pub mod commands;
pub mod control;
pub mod crc;
pub mod decoder;
pub mod driver;
pub mod error;
pub mod frame;
pub mod groups;
pub mod guard;
pub mod handoff;
pub mod ieee;
pub mod lds;
pub mod lds_motor;
pub mod lds_reader;
pub mod lifecycle;
pub mod logs;
pub mod packet;
pub mod reports;
pub mod revolution;
pub mod safety;
pub mod sensors;
pub mod session;
pub mod text;
pub mod tty;
pub mod watchdog;
pub mod worker;

use vstd::prelude::*;

verus! {

} // verus!
