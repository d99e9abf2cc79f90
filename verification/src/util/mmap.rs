//! What is mapped from the TCU into the address space of a tool, and whether mapping it worked.

use vstd::prelude::*;
use vstd::std_specs::convert::FromSpecImpl;

verus! {

/// The address that stands for a mapping that failed
pub const MAP_FAILED: usize = usize::MAX;

/// The kinds of memory that the driver maps
#[derive(Copy, Clone, Debug, Eq, PartialEq, Structural)]
pub enum MemType {
    /// The registers of the TCU
    TCU,
    /// The environment of the activity
    Environment,
    /// The standard receive buffers
    StdRecvBuf,
}

impl MemType {
    /// The number by which the driver knows the kind
    pub open spec fn number(self) -> usize {
        match self {
            MemType::TCU => 0,
            MemType::Environment => 1,
            MemType::StdRecvBuf => 2,
        }
    }

    /// Returns the offset into the device file at which the driver maps the memory of this
    /// kind: the start of the page with the number of the kind
    pub fn offset(self) -> (off: i64)
        ensures
            off == self.number() * 4096,
    {
        let page: i64 = match self {
            MemType::TCU => 0,
            MemType::Environment => 1,
            MemType::StdRecvBuf => 2,
        };
        assert(page << 12 == page * 4096) by (bit_vector)
            requires
                0 <= page <= 2,
        ;
        page << 12
    }
}

impl From<MemType> for usize {
    fn from(ty: MemType) -> (n: usize) {
        match ty {
            MemType::TCU => 0,
            MemType::Environment => 1,
            MemType::StdRecvBuf => 2,
        }
    }
}

impl FromSpecImpl<MemType> for usize {
    open spec fn obeys_from_spec() -> bool {
        true
    }

    open spec fn from_spec(ty: MemType) -> usize {
        ty.number()
    }
}

/// Why there is no mapping
#[derive(Copy, Clone, Debug, Eq, PartialEq, Structural)]
pub enum MmapError {
    /// The memory could not be mapped
    Failed,
    /// The memory was mapped elsewhere than asked for
    WrongAddress,
}

impl MmapError {
    /// Returns the words that describe the error
    pub fn message(&self) -> (msg: &'static str)
        ensures
            msg@ == (match self {
                MmapError::Failed => "mmap failed"@,
                MmapError::WrongAddress => "mmap: didn't return the right virtual address"@,
            }),
    {
        match self {
            MmapError::Failed => "mmap failed",
            MmapError::WrongAddress => "mmap: didn't return the right virtual address",
        }
    }
}

/// A region of memory that is mapped at a fixed virtual address
#[derive(Debug)]
pub struct Mmap {
    len: usize,
    virt: usize,
}

impl Mmap {
    /// The description of the region: where it starts and how many bytes it has
    pub closed spec fn region(&self) -> (usize, usize) {
        (self.virt, self.len)
    }

    /// Tells what became of the request to map `len` bytes at `virt`, given the address `base`
    /// that the system answered with
    pub fn from_mapped(virt: usize, len: usize, base: usize) -> (res: Result<Mmap, MmapError>)
        ensures
            base == MAP_FAILED ==> res == Err::<Mmap, MmapError>(MmapError::Failed),
            base != MAP_FAILED && base != virt ==> res == Err::<Mmap, MmapError>(
                MmapError::WrongAddress,
            ),
            base != MAP_FAILED && base == virt ==> res is Ok && res.unwrap().region() == (
                virt,
                len,
            ),
    {
        if base == MAP_FAILED {
            Err(MmapError::Failed)
        } else if base == virt {
            Ok(Mmap { len, virt })
        } else {
            Err(MmapError::WrongAddress)
        }
    }

    /// Returns the address at which the region starts
    pub fn addr(&self) -> (virt: usize)
        ensures
            virt == self.region().0,
    {
        self.virt
    }

    /// Returns the number of bytes of the region
    pub fn len(&self) -> (len: usize)
        ensures
            len == self.region().1,
    {
        self.len
    }
}

} // verus!
