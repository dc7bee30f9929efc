//! PCI configuration headers and base address registers (BARs).
use vstd::prelude::*;

verus! {

/// A flag type kept in a 16-bit configuration register.
pub trait BitFlag: Sized + Copy {
    spec fn bits_of(self) -> u16;

    fn from_bits(value: u16) -> (r: Self)
        ensures
            r.bits_of() == value,
    ;

    fn into_bits(self) -> (r: u16)
        ensures
            r == self.bits_of(),
    ;

    fn and(self, other: Self) -> (r: Self)
        ensures
            r.bits_of() == self.bits_of() & other.bits_of(),
    {
        let a = self.into_bits();
        let b = other.into_bits();
        Self::from_bits(a & b)
    }

    fn or(self, other: Self) -> (r: Self)
        ensures
            r.bits_of() == self.bits_of() | other.bits_of(),
    {
        let a = self.into_bits();
        let b = other.into_bits();
        Self::from_bits(a | b)
    }

    fn not(self) -> (r: Self)
        ensures
            r.bits_of() == !self.bits_of(),
    {
        let a = self.into_bits();
        Self::from_bits(!a)
    }
}

/// The command register.
#[derive(Clone, Copy, PartialEq, Eq, Structural, Debug)]
pub struct Command {
    pub bits: u16,
}

impl Command {
    pub const IO_ACCESS_ENABLE: u16 = 1;
    pub const MEMORY_ACCESS_ENABLE: u16 = 2;
    pub const BUS_MASTER_ENABLE: u16 = 4;
    pub const SPECIAL_CYCLE_ENABLE: u16 = 8;
    pub const MEMORY_WRITE_AND_INVALIDATE_ENABLE: u16 = 16;
    pub const PALETTE_SNOOPING_ENABLE: u16 = 32;
    pub const PARITY_ERROR_RESPONSE_ENABLE: u16 = 64;
    pub const SERR_ENABLE: u16 = 256;
    pub const FAST_BACK_TO_BACK_ENABLE: u16 = 512;
    pub const INTERRUPT_DISABLE: u16 = 1024;
}

impl BitFlag for Command {
    open spec fn bits_of(self) -> u16 {
        self.bits
    }

    fn from_bits(value: u16) -> (r: Self) {
        Command { bits: value }
    }

    fn into_bits(self) -> (r: u16) {
        self.bits
    }
}

/// The status register.
#[derive(Clone, Copy, PartialEq, Eq, Structural, Debug)]
pub struct Status {
    pub bits: u16,
}

impl Status {
    pub const INTERRUPT_STATUS: u16 = 8;
    pub const CAPABILITIES_LIST: u16 = 16;
    pub const SIXTY_SIX_MHZ_CAPABLE: u16 = 32;
    pub const FAST_BACK_TO_BACK_CAPABLE: u16 = 128;
    pub const MASTER_DATA_PARITY_ERROR: u16 = 256;
    pub const DEVICE_SELECT_TIMING: u16 = 1536;
    pub const SIGNALLED_TARGET_ABORT: u16 = 2048;
    pub const RECEIVED_TARGET_ABORT: u16 = 4096;
    pub const RECEIVED_MASTER_ABORT: u16 = 8192;
    pub const SIGNALLED_SYSTEM_ERROR: u16 = 16384;
    pub const DETECTED_PARITY_ERROR: u16 = 32768;
}

impl BitFlag for Status {
    open spec fn bits_of(self) -> u16 {
        self.bits
    }

    fn from_bits(value: u16) -> (r: Self) {
        Status { bits: value }
    }

    fn into_bits(self) -> (r: u16) {
        self.bits
    }
}

/// A 16-bit configuration register holding flags of type `T`.
pub struct Register<T> {
    pub value: u16,
    pub kind: core::marker::PhantomData<T>,
}

impl<T: BitFlag> Register<T> {
    /// The flags in the register.
    pub fn read(&self) -> (r: T)
        ensures
            r.bits_of() == self.value,
    {
        T::from_bits(self.value)
    }

    /// Store `value`.
    pub fn write(&mut self, value: T)
        ensures
            final(self).value == value.bits_of(),
    {
        self.value = value.into_bits();
    }

    /// Set the flags of `value`, keeping the others.
    pub fn set(&mut self, value: T)
        ensures
            final(self).value == old(self).value | value.bits_of(),
    {
        let current = self.read();
        self.write(current.or(value));
    }

    /// Clear the flags of `value`, keeping the others.
    pub fn clear(&mut self, value: T)
        ensures
            final(self).value == old(self).value & !value.bits_of(),
    {
        let current = self.read();
        self.write(current.and(value.not()));
    }
}

/// A decoded base address register. A base of `None` means the BAR has not
/// been given an address yet.
#[derive(Clone, Copy, PartialEq, Eq, Structural, Debug)]
#[allow(inconsistent_fields)]
pub enum Bar {
    IOMapped { base: Option<u32>, size: u32 },
    MemoryMapped32 { base: Option<u32>, size: u32 },
    MemoryMapped64 { base: Option<u64>, size: u64 },
    Absent,
}

/// `Some(x)` unless `x` is zero.
pub open spec fn nonzero32(x: u32) -> Option<u32> {
    if x == 0 {
        None
    } else {
        Some(x)
    }
}

/// `Some(x)` unless `x` is zero.
pub open spec fn nonzero64(x: u64) -> Option<u64> {
    if x == 0 {
        None
    } else {
        Some(x)
    }
}

/// Whether a BAR value selects I/O space.
pub open spec fn is_io(reg: u32) -> bool {
    reg & 1 != 0
}

/// Whether a memory BAR value is the low half of a 64-bit BAR.
pub open spec fn is_64bit(reg: u32) -> bool {
    reg & 4 == 4
}

/// The BAR described by its value `reg1` and the value `probe1` read back
/// after writing all ones; for a 64-bit BAR also the upper register's value
/// `reg2` and read-back `probe2`. The size is the two's complement of the
/// read-back with the flag bits cleared; a zero read-back means no BAR.
pub open spec fn spec_decode_bar(reg1: u32, probe1: u32, reg2: u32, probe2: u32) -> Bar {
    if is_io(reg1) {
        let mask = probe1 & !3u32;
        if mask == 0 {
            Bar::Absent
        } else {
            Bar::IOMapped { base: nonzero32(reg1 & !3u32), size: (!mask + 1) as u32 }
        }
    } else if is_64bit(reg1) {
        let mask = ((probe1 as u64) & !0xfu64) | ((probe2 as u64) << 32u64);
        if mask == 0 {
            Bar::Absent
        } else {
            Bar::MemoryMapped64 {
                base: nonzero64(((reg1 as u64) & !0xfu64) | ((reg2 as u64) << 32u64)),
                size: (!mask + 1) as u64,
            }
        }
    } else {
        let mask = probe1 & !0xfu32;
        if mask == 0 {
            Bar::Absent
        } else {
            Bar::MemoryMapped32 { base: nonzero32(reg1 & !0xfu32), size: (!mask + 1) as u32 }
        }
    }
}

/// Decode a BAR from its register values and the values read back after
/// writing all ones. A 64-bit BAR needs its upper register.
pub fn decode_bar(reg1: u32, probe1: u32, upper: Option<(u32, u32)>) -> (r: Bar)
    requires
        !is_io(reg1) && is_64bit(reg1) ==> upper is Some,
    ensures
        r == (match upper {
            Some((reg2, probe2)) => spec_decode_bar(reg1, probe1, reg2, probe2),
            None => spec_decode_bar(reg1, probe1, 0, 0),
        }),
{
    let (reg2, probe2) = match upper {
        Some(p) => p,
        None => (0u32, 0u32),
    };
    if reg1 & 1 != 0 {
        let mask = probe1 & !3u32;
        if mask == 0 {
            return Bar::Absent;
        }
        assert(!mask < u32::MAX) by (bit_vector)
            requires
                mask != 0,
        ;
        let base = reg1 & !3u32;
        Bar::IOMapped { base: if base == 0 { None } else { Some(base) }, size: !mask + 1 }
    } else if reg1 & 4 == 4 {
        let mask = ((probe1 as u64) & !0xfu64) | ((probe2 as u64) << 32u64);
        if mask == 0 {
            return Bar::Absent;
        }
        assert(!mask < u64::MAX) by (bit_vector)
            requires
                mask != 0,
        ;
        let base = ((reg1 as u64) & !0xfu64) | ((reg2 as u64) << 32u64);
        Bar::MemoryMapped64 { base: if base == 0 { None } else { Some(base) }, size: !mask + 1 }
    } else {
        let mask = probe1 & !0xfu32;
        if mask == 0 {
            return Bar::Absent;
        }
        assert(!mask < u32::MAX) by (bit_vector)
            requires
                mask != 0,
        ;
        let base = reg1 & !0xfu32;
        Bar::MemoryMapped32 { base: if base == 0 { None } else { Some(base) }, size: !mask + 1 }
    }
}

/// The register values that give a BAR the base of `bar`, keeping the
/// flag bits of the old values `old1` (and `old2` for the upper half of a
/// 64-bit BAR).
pub open spec fn spec_encode_bar(old1: u32, old2: u32, bar: Bar) -> (u32, u32) {
    match bar {
        Bar::IOMapped { base, .. } => {
            let b = match base {
                Some(x) => x,
                None => 0,
            };
            ((old1 & 3u32) | (b & !3u32), old2)
        },
        Bar::MemoryMapped32 { base, .. } => {
            let b = match base {
                Some(x) => x,
                None => 0,
            };
            ((old1 & 0xfu32) | (b & !0xfu32), old2)
        },
        Bar::MemoryMapped64 { base, .. } => {
            let b = match base {
                Some(x) => x,
                None => 0,
            } & !0xfu64;
            ((old1 & 0xfu32) | (b as u32), old2 | ((b >> 32u64) as u32))
        },
        Bar::Absent => (old1, old2),
    }
}

/// One BAR: the index of its register, and of the upper register of a
/// 64-bit BAR.
#[derive(Clone, Copy, PartialEq, Eq, Structural, Debug)]
pub struct BarsEntry {
    pub reg1: usize,
    pub reg2: Option<usize>,
}

impl BarsEntry {
    /// Decode this BAR from the register values `values` and the values
    /// `probes` read back after writing all ones to every register.
    pub fn get(&self, values: &Vec<u32>, probes: &Vec<u32>) -> (r: Bar)
        requires
            self.reg1 < values@.len(),
            values@.len() == probes@.len(),
            self.reg2 matches Some(i) ==> i < values@.len(),
            !is_io(values@[self.reg1 as int]) && is_64bit(values@[self.reg1 as int])
                ==> self.reg2 is Some,
        ensures
            r == (match self.reg2 {
                Some(i) => spec_decode_bar(values@[self.reg1 as int], probes@[self.reg1 as int], values@[i as int], probes@[i as int]),
                None => spec_decode_bar(values@[self.reg1 as int], probes@[self.reg1 as int], 0, 0),
            }),
    {
        let upper = match self.reg2 {
            Some(i) => Some((values[i], probes[i])),
            None => None,
        };
        decode_bar(values[self.reg1], probes[self.reg1], upper)
    }

    /// The values to store to give this BAR the base of `bar`.
    pub fn set(&self, values: &Vec<u32>, bar: Bar) -> (r: (u32, Option<u32>))
        requires
            self.reg1 < values@.len(),
            self.reg2 matches Some(i) ==> i < values@.len(),
            !(bar is Absent),
            bar is MemoryMapped64 ==> self.reg2 is Some,
        ensures
            ({
                let old2 = match self.reg2 {
                    Some(i) => values@[i as int],
                    None => 0,
                };
                let (v1, v2) = spec_encode_bar(values@[self.reg1 as int], old2, bar);
                r.0 == v1 && r.1 == (if bar is MemoryMapped64 {
                    Some(v2)
                } else {
                    None::<u32>
                })
            }),
    {
        let old1 = values[self.reg1];
        match bar {
            Bar::IOMapped { base, .. } => {
                let b = match base {
                    Some(x) => x,
                    None => 0,
                };
                ((old1 & 3u32) | (b & !3u32), None)
            },
            Bar::MemoryMapped32 { base, .. } => {
                let b = match base {
                    Some(x) => x,
                    None => 0,
                };
                ((old1 & 0xfu32) | (b & !0xfu32), None)
            },
            Bar::MemoryMapped64 { base, .. } => {
                let old2 = match self.reg2 {
                    Some(i) => values[i],
                    None => 0,
                };
                let b = match base {
                    Some(x) => x,
                    None => 0,
                } & !0xfu64;
                ((old1 & 0xfu32) | (b as u32), Some(old2 | ((b >> 32u64) as u32)))
            },
            Bar::Absent => (old1, None),
        }
    }
}

/// How the BAR registers pair up, walking from `pos`: a register whose
/// value marks a 64-bit BAR takes the next one as its upper half.
pub open spec fn bar_entries(values: Seq<u32>, pos: int) -> Seq<BarsEntry>
    decreases values.len() + 1 - pos,
{
    if pos >= values.len() || pos < 0 {
        Seq::empty()
    } else if is_64bit(values[pos]) {
        seq![BarsEntry { reg1: pos as usize, reg2: Some((pos + 1) as usize) }] + bar_entries(
            values,
            pos + 2,
        )
    } else {
        seq![BarsEntry { reg1: pos as usize, reg2: None }] + bar_entries(values, pos + 1)
    }
}

/// Whether the walk from `pos` never pairs the last register with one
/// past the end.
pub open spec fn bars_pair_up(values: Seq<u32>, pos: int) -> bool
    decreases values.len() + 1 - pos,
{
    if pos >= values.len() || pos < 0 {
        true
    } else if is_64bit(values[pos]) {
        pos + 1 < values.len() && bars_pair_up(values, pos + 2)
    } else {
        bars_pair_up(values, pos + 1)
    }
}

/// The base address registers of a device.
pub struct Bars {
    pub bars: Vec<u32>,
}

impl Bars {
    /// The BARs, in register order.
    pub fn iter(&self) -> (r: Vec<BarsEntry>)
        requires
            bars_pair_up(self.bars@, 0),
        ensures
            r@ == bar_entries(self.bars@, 0),
    {
        let mut out: Vec<BarsEntry> = Vec::new();
        let mut pos: usize = 0;
        while pos < self.bars.len()
            invariant
                pos <= self.bars@.len() + 1,
                bars_pair_up(self.bars@, pos as int),
                out@ + bar_entries(self.bars@, pos as int) == bar_entries(self.bars@, 0),
            decreases self.bars@.len() + 1 - pos,
        {
            let ghost p = pos;
            if self.bars[pos] & 4 == 4 {
                out.push(BarsEntry { reg1: pos, reg2: Some(pos + 1) });
                pos = pos + 2;
            } else {
                out.push(BarsEntry { reg1: pos, reg2: None });
                pos = pos + 1;
            }
            assert(out@ + bar_entries(self.bars@, pos as int) =~= out@.drop_last() + bar_entries(self.bars@, p as int));
        }
        assert(bar_entries(self.bars@, pos as int) =~= Seq::<BarsEntry>::empty());
        assert(out@ =~= out@ + bar_entries(self.bars@, pos as int));
        out
    }
}

/// The header fields every PCI function has.
#[derive(Clone, Copy, PartialEq, Eq, Structural, Debug)]
pub struct CommonHeader {
    pub vendor_id: u16,
    pub device_id: u16,
    pub command: u16,
    pub status: u16,
    pub revision_id: u8,
    pub prog_if: u8,
    pub subclass: u8,
    pub class: u8,
    pub cache_line_size: u8,
    pub latency_timer: u8,
    pub header_type: u8,
    pub bist: u8,
}

/// The header of an ordinary device (header type 0).
#[derive(Clone, Copy, PartialEq, Eq, Debug)]
pub struct Endpoint {
    pub header: CommonHeader,
    pub bar_values: [u32; 6],
    pub cardbus_cis_pointer: u32,
    pub subsystem_vendor_id: u16,
    pub subsystem_id: u16,
    pub expansion_rom_address: u32,
    pub capabilities_pointer: u8,
    pub interrupt_line: u8,
    pub interrupt_pin: u8,
    pub min_grant: u8,
    pub max_latency: u8,
}

impl Endpoint {
    /// The device's six base address registers.
    pub fn bars(&self) -> (r: Bars)
        ensures
            r.bars@ == self.bar_values@,
    {
        let mut bars: Vec<u32> = Vec::new();
        let mut i: usize = 0;
        while i < 6
            invariant
                i <= 6,
                bars@ == self.bar_values@.subrange(0, i as int),
            decreases 6 - i,
        {
            bars.push(self.bar_values[i]);
            i = i + 1;
        }
        assert(bars@ =~= self.bar_values@);
        Bars { bars }
    }
}

/// A configuration header.
#[derive(Clone, Copy, PartialEq, Eq, Debug)]
pub enum Header {
    Unknown(CommonHeader),
    Endpoint(Endpoint),
}

impl Header {
    /// The common part of the header.
    pub fn common(&self) -> (r: CommonHeader)
        ensures
            r == (match *self {
                Header::Unknown(h) => h,
                Header::Endpoint(e) => e.header,
            }),
    {
        match self {
            Header::Unknown(h) => *h,
            Header::Endpoint(e) => e.header,
        }
    }
}

/// The kind of header a function has.
#[derive(Clone, Copy, PartialEq, Eq, Structural, Debug)]
pub enum HeaderKind {
    Endpoint,
    Unknown,
}

/// The header kind for the vendor id and header type read from a
/// function: none when the vendor id is all ones (no function there), an
/// endpoint for type 0 (bit 7, the multi-function bit, ignored), unknown
/// for types other than 0, 1 and 2. Bridges (types 1 and 2) are not
/// supported.
pub fn header_kind(vendor_id: u16, header_type: u8) -> (r: Option<HeaderKind>)
    requires
        vendor_id != 0xffff ==> (header_type & 0x7f) != 1 && (header_type & 0x7f) != 2,
    ensures
        vendor_id == 0xffff ==> r is None,
        vendor_id != 0xffff ==> r == Some(
            if header_type & 0x7f == 0 {
                HeaderKind::Endpoint
            } else {
                HeaderKind::Unknown
            },
        ),
{
    if vendor_id == 0xffff {
        return None;
    }
    let t = header_type & 0x7f;
    if t == 0 {
        Some(HeaderKind::Endpoint)
    } else {
        Some(HeaderKind::Unknown)
    }
}

} // verus!
