//! What the tools that run on the host share.

pub mod ioctl;
pub mod mmap;
