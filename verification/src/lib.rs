//! Base library: the collections that the components of the system share, and what its tools on
//! a Linux host hand to the driver of the TCU and to the programs that they start.
//!
//! The library computes and decides; it opens no file and calls no driver. What it returns is
//! for the caller to hand on.

pub mod col;
pub mod linux;
pub mod lxclient;
pub mod starter;
pub mod util;
