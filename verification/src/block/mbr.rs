//! The MBR partition table in the first sector of a disk.
use crate::errno::ENODEV;
use vstd::prelude::*;

verus! {

/// Bytes in a sector.
pub const SECTOR_SIZE: usize = 512;

/// Where the four partition entries start.
pub const ENTRIES_OFFSET: usize = 446;

/// A primary partition entry.
#[derive(Clone, Copy, PartialEq, Eq, Structural, Debug)]
pub struct MBREntry {
    pub attr: u8,
    pub part_type: u8,
    pub lba_start: u32,
    pub cnt: u32,
}

/// A partition of a disk, in sectors.
#[derive(Clone, Copy, PartialEq, Eq, Structural, Debug)]
pub struct Partition {
    pub lba_offset: u64,
    pub sector_count: u64,
}

/// The little-endian 32-bit value at `at`.
pub open spec fn le32(b: Seq<u8>, at: int) -> u32 {
    (b[at] as int + b[at + 1] as int * 0x100 + b[at + 2] as int * 0x10000 + b[at + 3] as int
        * 0x1000000) as u32
}

/// The entry `i` of a sector.
pub open spec fn entry_at(b: Seq<u8>, i: int) -> MBREntry {
    let at = ENTRIES_OFFSET + 16 * i;
    MBREntry {
        attr: b[at],
        part_type: b[at + 4],
        lba_start: le32(b, at + 8),
        cnt: le32(b, at + 12),
    }
}

fn read_le32(b: &Vec<u8>, at: usize) -> (r: u32)
    requires
        at + 4 <= b@.len(),
        b@.len() == SECTOR_SIZE,
    ensures
        r == le32(b@, at as int),
{
    let v: u64 = b[at] as u64 + b[at + 1] as u64 * 0x100 + b[at + 2] as u64 * 0x10000 + b[at + 3] as u64
        * 0x1000000;
    v as u32
}

/// The little-endian value of four bytes is the whole 32-bit number they
/// encode: the bytes of any `v`, lowest first, read back as `v`, and the
/// value read gives back each of the four bytes (so no byte, the top one
/// included, is lost: a count of `0x03ff_f800` reads as that).
pub proof fn law_le32_round_trip(b: Seq<u8>, at: int, v: u32)
    requires
        0 <= at,
        at + 4 <= b.len(),
    ensures
        b[at] as int == v % 256 && b[at + 1] as int == (v / 256) % 256 && b[at + 2] as int == (v / 65536)
            % 256 && b[at + 3] as int == v / 16777216 ==> le32(b, at) == v,
        le32(b, at) % 256 == b[at] as int,
        (le32(b, at) / 256) % 256 == b[at + 1] as int,
        (le32(b, at) / 65536) % 256 == b[at + 2] as int,
        le32(b, at) / 16777216 == b[at + 3] as int,
{
    let x0: u8 = b[at];
    let x1: u8 = b[at + 1];
    let x2: u8 = b[at + 2];
    let x3: u8 = b[at + 3];
    let r: u32 = le32(b, at);
    assert(r == (x0 as int + x1 as int * 0x100 + x2 as int * 0x10000 + x3 as int * 0x1000000) as u32);
    assert(r % 256 == x0 && (r / 256) % 256 == x1 && (r / 65536) % 256 == x2 && r / 16777216 == x3) by (bit_vector)
        requires
            r == (x0 as int + x1 as int * 0x100 + x2 as int * 0x10000 + x3 as int * 0x1000000) as u32,
    ;
    assert(x0 == v % 256 && x1 == (v / 256) % 256 && x2 == (v / 65536) % 256 && x3 == v / 16777216 ==> r == v)
        by (bit_vector)
        requires
            r == (x0 as int + x1 as int * 0x100 + x2 as int * 0x10000 + x3 as int * 0x1000000) as u32,
    ;
}

/// An MBR partition table.
pub struct MBRPartTable {
    pub entries: [MBREntry; 4],
}

impl MBRPartTable {
    /// Read the table from the first sector of a disk: `ENODEV` unless it
    /// ends with the `55 aa` signature.
    pub fn from_sector(sector: &Vec<u8>) -> (r: Result<MBRPartTable, u32>)
        requires
            sector@.len() == SECTOR_SIZE,
        ensures
            r is Ok <==> sector@[510] == 0x55 && sector@[511] == 0xaa,
            r matches Err(e) ==> e == ENODEV,
            r matches Ok(t) ==> forall|i: int| 0 <= i < 4 ==> t.entries@[i] == entry_at(sector@, i),
    {
        if sector[510] != 0x55 || sector[511] != 0xaa {
            return Err(ENODEV);
        }
        let e0 = MBRPartTable::entry(sector, 0);
        let e1 = MBRPartTable::entry(sector, 1);
        let e2 = MBRPartTable::entry(sector, 2);
        let e3 = MBRPartTable::entry(sector, 3);
        Ok(MBRPartTable { entries: [e0, e1, e2, e3] })
    }

    fn entry(sector: &Vec<u8>, i: usize) -> (r: MBREntry)
        requires
            sector@.len() == SECTOR_SIZE,
            i < 4,
        ensures
            r == entry_at(sector@, i as int),
    {
        let at = ENTRIES_OFFSET + 16 * i;
        MBREntry {
            attr: sector[at],
            part_type: sector[at + 4],
            lba_start: read_le32(sector, at + 8),
            cnt: read_le32(sector, at + 12),
        }
    }

    /// The partitions: the entries with a non-zero type, in order.
    pub fn partitions(&self) -> (r: Vec<Partition>)
        ensures
            r@ == self.entries@.filter(|e: MBREntry| e.part_type != 0).map_values(
                |e: MBREntry| Partition { lba_offset: e.lba_start as u64, sector_count: e.cnt as u64 },
            ),
    {
        let mut out: Vec<Partition> = Vec::new();
        let mut i: usize = 0;
        while i < 4
            invariant
                i <= 4,
                out@ == self.entries@.subrange(0, i as int).filter(|e: MBREntry| e.part_type != 0).map_values(
                    |e: MBREntry| Partition { lba_offset: e.lba_start as u64, sector_count: e.cnt as u64 },
                ),
            decreases 4 - i,
        {
            let e = self.entries[i];
            proof {
                reveal(Seq::filter);
                let pre = self.entries@.subrange(0, i as int);
                assert(self.entries@.subrange(0, i + 1).drop_last() =~= pre);
                assert(self.entries@.subrange(0, i + 1).last() == e);
            }
            if e.part_type != 0 {
                out.push(Partition { lba_offset: e.lba_start as u64, sector_count: e.cnt as u64 });
            }
            i = i + 1;
            proof {
                let f = self.entries@.subrange(0, i as int).filter(|e: MBREntry| e.part_type != 0);
                assert(out@ =~= f.map_values(
                    |e: MBREntry| Partition { lba_offset: e.lba_start as u64, sector_count: e.cnt as u64 },
                ));
            }
        }
        assert(self.entries@.subrange(0, 4) =~= self.entries@);
        out
    }
}

} // verus!
