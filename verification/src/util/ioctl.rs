//! The requests that the tools on the host make to the driver of the TCU.
//!
//! The functions say what is to be handed to the driver; handing it over is left to the caller.

use vstd::prelude::*;

verus! {

// this is defined in linux/drivers/tcu.cc (and the right value will be printed on driver
// initialization during boot time)
/// The request to register an activity
pub const IOCTL_RGSTR_ACT: u64 = 0x4008_7101;

/// The request to switch to the mode of TileMux
pub const IOCTL_TO_TMX_MD: u64 = 0x0000_7102;

/// The request to switch to the mode of the user
pub const IOCTL_TO_USR_MD: u64 = 0x0000_7103;

/// The request to insert an entry into the TLB
pub const IOCTL_TLB_INSRT: u64 = 0x4008_7104;

/// The request to unregister the activity
pub const IOCTL_UNREG_ACT: u64 = 0x0000_7105;

/// The argument of the request to insert an entry into the TLB
#[derive(Clone, Copy, Debug, PartialEq, Eq, Structural)]
pub struct TlbInsert {
    /// The physical address that the entry leads to
    pub phys: u64,
    /// The virtual address to insert the entry for
    pub virt: u32,
}

/// What the driver reads along with the number of a request
#[derive(Clone, Copy, Debug, PartialEq, Eq, Structural)]
pub enum Arg {
    /// The id of an activity
    ActId(u16),
    /// An entry of the TLB
    TlbInsert(TlbInsert),
}

/// A request to the driver: its number and, where it has one, its argument
#[derive(Clone, Copy, Debug, PartialEq, Eq, Structural)]
pub struct Request {
    /// The number of the request
    pub magic: u64,
    /// The argument that the driver reads
    pub arg: Option<Arg>,
}

/// Returns the request that registers the activity with the id `actid`
pub fn register_act(actid: u16) -> (req: Request)
    ensures
        req == (Request { magic: IOCTL_RGSTR_ACT, arg: Some(Arg::ActId(actid)) }),
{
    Request { magic: IOCTL_RGSTR_ACT, arg: Some(Arg::ActId(actid)) }
}

/// Returns the request that switches to the mode of TileMux
pub fn switch_to_tm_mode() -> (req: Request)
    ensures
        req == (Request { magic: IOCTL_TO_TMX_MD, arg: None }),
{
    Request { magic: IOCTL_TO_TMX_MD, arg: None }
}

/// Returns the request that switches to the mode of the user
pub fn switch_to_user_mode() -> (req: Request)
    ensures
        req == (Request { magic: IOCTL_TO_USR_MD, arg: None }),
{
    Request { magic: IOCTL_TO_USR_MD, arg: None }
}

/// Returns the request that inserts an entry from `virt` to `phys` into the TLB
///
/// The driver takes virtual addresses of 32 bits.
pub fn tlb_insert_addr(virt: usize, phys: usize) -> (req: Request)
    requires
        virt <= u32::MAX,
    ensures
        req.magic == IOCTL_TLB_INSRT,
        req.arg == Some(Arg::TlbInsert(TlbInsert { phys: phys as u64, virt: virt as u32 })),
        phys as u64 == phys,
        virt as u32 == virt,
{
    let arg = TlbInsert { phys: phys as u64, virt: virt as u32 };
    Request { magic: IOCTL_TLB_INSRT, arg: Some(Arg::TlbInsert(arg)) }
}

/// Returns the request that unregisters the activity
pub fn unregister_act() -> (req: Request)
    ensures
        req == (Request { magic: IOCTL_UNREG_ACT, arg: None }),
{
    Request { magic: IOCTL_UNREG_ACT, arg: None }
}

} // verus!
