//! The requests that the driver of the TCU takes through its device file.
//!
//! The functions say what is to be handed to the driver; handing it over is left to the caller.

use vstd::prelude::*;

verus! {

// this is defined in linux/drivers/tcu/tcu.cc (and the right value will be printed on driver
// initialization during boot time)
/// The request to register the calling process as an activity
pub const IOCTL_RGSTR_ACT: u64 = 0x0000_7101;

/// The request to insert an entry into the TLB
pub const IOCTL_TLB_INSRT: u64 = 0x4008_7102;

/// The request to unregister the activity of the calling process
pub const IOCTL_UNREG_ACT: u64 = 0x0000_7103;

/// The argument of the request to insert an entry into the TLB
#[derive(Clone, Copy, Debug, PartialEq, Eq, Structural)]
pub struct TlbInsert {
    /// The virtual address to insert the entry for
    pub virt: u64,
    /// The permissions of the entry
    pub perm: u8,
}

/// A request to the driver: its number and, where it has one, its argument
#[derive(Clone, Copy, Debug, PartialEq, Eq, Structural)]
pub struct Request {
    /// The number of the request
    pub magic: u64,
    /// The argument that the driver reads
    pub arg: Option<TlbInsert>,
}

/// Returns the request that registers the calling process as an activity
pub fn register_act() -> (req: Request)
    ensures
        req == (Request { magic: IOCTL_RGSTR_ACT, arg: None }),
{
    Request { magic: IOCTL_RGSTR_ACT, arg: None }
}

/// Returns the request that inserts an entry for `virt` with the permissions `perm` into the TLB
pub fn tlb_insert_addr(virt: u64, perm: u8) -> (req: Request)
    ensures
        req == (Request { magic: IOCTL_TLB_INSRT, arg: Some(TlbInsert { virt, perm }) }),
{
    let arg = TlbInsert { virt, perm };
    Request { magic: IOCTL_TLB_INSRT, arg: Some(arg) }
}

/// Returns the request that unregisters the activity of the calling process
pub fn unregister_act() -> (req: Request)
    ensures
        req == (Request { magic: IOCTL_UNREG_ACT, arg: None }),
{
    Request { magic: IOCTL_UNREG_ACT, arg: None }
}

} // verus!
