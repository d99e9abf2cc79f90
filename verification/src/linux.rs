//! The interface to the TCU on Linux.

pub mod ioctl;
