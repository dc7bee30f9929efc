//! PCI functions: configuration space addresses, device ids and the
//! allocation of memory windows to BARs.
use crate::pcie::header::Bar;
use vstd::prelude::*;

verus! {

/// The id under which drivers and devices are matched: vendor id in the
/// upper half, device id in the lower half.
pub fn pci_id(vendor_id: u16, device_id: u16) -> (r: u32)
    ensures
        r == vendor_id as u32 * 0x10000 + device_id as u32,
{
    let r = (vendor_id as u32) << 16u32 | device_id as u32;
    assert(((vendor_id as u32) << 16u32 | device_id as u32) == vendor_id as u32 * 0x10000
        + device_id as u32) by (bit_vector);
    r
}

/// The configuration space of one function.
#[derive(Clone, Copy, PartialEq, Eq, Structural, Debug)]
pub struct ConfigSpace {
    pub bus: u8,
    pub device: u8,
    pub function: u8,
    pub base: usize,
}

/// A PCI segment group: a range of buses and where their configuration
/// spaces start.
#[derive(Clone, Copy, PartialEq, Eq, Structural, Debug)]
pub struct SegmentGroup {
    pub id: usize,
    pub bus_start: u8,
    pub bus_end: u8,
    pub base_address: usize,
}

impl SegmentGroup {
    pub fn new(id: usize, bus_start: u8, bus_end: u8, base_address: usize) -> (r: SegmentGroup)
        ensures
            r == (SegmentGroup { id, bus_start, bus_end, base_address }),
    {
        SegmentGroup { id, bus_start, bus_end, base_address }
    }

    /// The configuration space of `bus:device.function`, 1 MiB per bus,
    /// 32 KiB per device and 4 KiB per function from the group's base; none
    /// when the bus is outside the group.
    pub fn get_conf_space(&self, bus: u8, device: u8, function: u8) -> (r: Option<ConfigSpace>)
        requires
            self.base_address + 0x2000_0000 <= usize::MAX,
        ensures
            !(self.bus_start <= bus <= self.bus_end) ==> r is None,
            self.bus_start <= bus <= self.bus_end ==> r == Some(
                ConfigSpace {
                    bus,
                    device,
                    function,
                    base: (self.base_address + bus as int * 0x100000 + device as int * 0x8000
                        + function as int * 0x1000) as usize,
                },
            ),
    {
        if self.bus_start <= bus && bus <= self.bus_end {
            let base = self.base_address + (bus as usize) * 0x100000 + (device as usize) * 0x8000
                + (function as usize) * 0x1000;
            Some(ConfigSpace { bus, device, function, base })
        } else {
            None
        }
    }
}

/// The least power of two that is at least `x` (1 for 0).
pub open spec fn next_pow2(x: nat) -> nat
    decreases x,
{
    if x <= 1 {
        1
    } else {
        2 * next_pow2(((x + 1) / 2) as nat)
    }
}

proof fn lemma_next_pow2_pos(x: nat)
    ensures
        next_pow2(x) >= 1,
    decreases x,
{
    if x > 1 {
        lemma_next_pow2_pos(((x + 1) / 2) as nat);
    }
}

/// The least power of two not below `x`, if it fits in 32 bits.
fn next_power_of_two_u32(x: usize) -> (r: Option<u32>)
    ensures
        r matches Some(p) ==> p as nat == next_pow2(x as nat),
        r is None ==> next_pow2(x as nat) > u32::MAX,
    decreases x,
{
    if x <= 1 {
        return Some(1);
    }
    let half = (x - 1) / 2 + 1;
    match next_power_of_two_u32(half) {
        Some(p) => {
            if p <= 0x7fff_ffff {
                Some(p * 2)
            } else {
                None
            }
        },
        None => None,
    }
}

/// `x` rounded up to a multiple of `a`.
pub open spec fn round_up(x: int, a: int) -> int {
    if x % a == 0 {
        x
    } else {
        x - x % a + a
    }
}

/// A bump allocator for the memory windows of BARs, handing out
/// power-of-two sized blocks from `start` up to `end`.
pub struct PciMemoryAllocator {
    pub start: u32,
    pub end: u32,
}

/// Whether `allocate(size)` can run without an arithmetic overflow.
pub open spec fn allocation_fits(start: u32, end: u32, size: usize) -> bool {
    let p = next_pow2(size as nat);
    p <= u32::MAX ==> start + p - 1 <= u32::MAX && round_up(start as int, p as int) <= end
}

impl PciMemoryAllocator {
    /// An allocator for the physical range `start..end`; addresses keep
    /// their low 32 bits.
    pub fn new(start: usize, end: usize) -> (r: PciMemoryAllocator)
        ensures
            r.start == start as u32,
            r.end == end as u32,
    {
        PciMemoryAllocator { start: start as u32, end: end as u32 }
    }

    /// Hand out a block of `size` bytes rounded up to a power of two.
    /// Refused (`None`) when that power does not fit in 32 bits or exceeds
    /// the room above `start` rounded up to it. The block starts at the
    /// current `start` (which is then moved past it); a block at address
    /// zero reads as `None` though `start` moves.
    pub fn allocate(&mut self, size: usize) -> (r: Option<u32>)
        requires
            allocation_fits(old(self).start, old(self).end, size),
        ensures
            final(self).end == old(self).end,
            ({
                let p = next_pow2(size as nat);
                if p > u32::MAX || p > old(self).end - round_up(old(self).start as int, p as int) {
                    r is None && final(self).start == old(self).start
                } else {
                    &&& final(self).start == old(self).start + p
                    &&& r == if old(self).start == 0 {
                        None
                    } else {
                        Some(old(self).start)
                    }
                }
            }),
    {
        let requested = size;
        let size = match next_power_of_two_u32(requested) {
            Some(p) => p,
            None => return None,
        };
        proof {
            lemma_next_pow2_pos(requested as nat);
            assert(size as nat == next_pow2(requested as nat));
            assert(self.start + size - 1 <= u32::MAX);
        }
        let rem = self.start % size;
        let real_start = if rem == 0 {
            self.start
        } else {
            assert(rem <= self.start) by {
                vstd::arithmetic::div_mod::lemma_mod_decreases(self.start as nat, size as nat);
            }
            self.start - rem + size
        };
        if size == 0 || size > self.end - real_start {
            return None;
        }
        let base = self.start;
        self.start = self.start + size;
        if base == 0 {
            None
        } else {
            Some(base)
        }
    }
}

/// The allocator could not give a block of `size` bytes to a BAR: the
/// request was refused (and the allocator is unchanged), or the block would
/// start at address zero (and the allocator moved past it).
pub open spec fn bar_refused(before: PciMemoryAllocator, after: PciMemoryAllocator, size: nat) -> bool {
    let p = next_pow2(size);
    if p > u32::MAX || p > before.end - round_up(before.start as int, p as int) {
        after == before
    } else {
        before.start == 0 && after.start == before.start + p && after.end == before.end
    }
}

/// What `configure_io` does with one BAR.
#[derive(Clone, Copy, PartialEq, Eq, Structural, Debug)]
pub enum BarAssignment {
    /// The BAR keeps its address.
    Keep,
    /// Store this BAR.
    Assign(Bar),
    /// No memory window could be found for it.
    OutOfSpace,
}

/// Give a memory BAR without an address a window from `allocator`; I/O
/// BARs and BARs with an address keep theirs.
pub fn assign_bar(allocator: &mut PciMemoryAllocator, bar: Bar) -> (r: BarAssignment)
    requires
        bar matches Bar::MemoryMapped32 { base: None, size } ==> allocation_fits(
            old(allocator).start,
            old(allocator).end,
            size as usize,
        ),
        bar matches Bar::MemoryMapped64 { base: None, size } ==> size <= usize::MAX
            && allocation_fits(old(allocator).start, old(allocator).end, size as usize),
    ensures
        r == BarAssignment::Keep <==> !(bar matches Bar::MemoryMapped32 { base: None, .. })
            && !(bar matches Bar::MemoryMapped64 { base: None, .. }),
        r == BarAssignment::Keep ==> *final(allocator) == *old(allocator),
        r matches BarAssignment::Assign(b) ==> match bar {
            Bar::MemoryMapped32 { size, .. } => b matches Bar::MemoryMapped32 {
                base: Some(a),
                size: s,
            } && s == size && a == old(allocator).start && final(allocator).start
                == old(allocator).start + next_pow2(size as nat),
            Bar::MemoryMapped64 { size, .. } => b matches Bar::MemoryMapped64 {
                base: Some(a),
                size: s,
            } && s == size && a == old(allocator).start as u64 && final(allocator).start
                == old(allocator).start + next_pow2(size as nat),
            _ => false,
        },
        r == BarAssignment::OutOfSpace ==> match bar {
            Bar::MemoryMapped32 { base: None, size } => bar_refused(*old(allocator), *final(allocator), size as nat),
            Bar::MemoryMapped64 { base: None, size } => bar_refused(*old(allocator), *final(allocator), size as nat),
            _ => false,
        },
        (bar matches Bar::MemoryMapped32 { base: None, size } && bar_refused(*old(allocator), *final(allocator), size as nat))
            ==> r == BarAssignment::OutOfSpace,
        (bar matches Bar::MemoryMapped64 { base: None, size } && bar_refused(*old(allocator), *final(allocator), size as nat))
            ==> r == BarAssignment::OutOfSpace,
{
    match bar {
        Bar::MemoryMapped32 { base: None, size } => match allocator.allocate(size as usize) {
            Some(a) => BarAssignment::Assign(Bar::MemoryMapped32 { base: Some(a), size }),
            None => BarAssignment::OutOfSpace,
        },
        Bar::MemoryMapped64 { base: None, size } => match allocator.allocate(size as usize) {
            Some(a) => BarAssignment::Assign(Bar::MemoryMapped64 { base: Some(a as u64), size }),
            None => BarAssignment::OutOfSpace,
        },
        _ => BarAssignment::Keep,
    }
}

} // verus!
