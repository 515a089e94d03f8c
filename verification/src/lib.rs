//! The control logic of a small realtime synthesiser.
//!
//! The engine pulls blocks of stereo frames through a graph of nodes and
//! plays FM voices from MIDI events and from pings seen on the network.
//! This crate holds the parts of it that move frames and decide things:
//! the delay line and the input block, the stages of an envelope, what a
//! MIDI message asks of a voice, the bank that shares notes among voices,
//! the figure that pings play, and the command line. The arithmetic on
//! samples and the devices are the program's own business.

pub mod base;
pub mod cli;
pub mod delay;
pub mod fm;
pub mod input;
pub mod midi;
pub mod node;
pub mod number;
pub mod options;
pub mod ping;
