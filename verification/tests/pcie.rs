use core::marker::PhantomData;
use eonix::pcie::device::{assign_bar, pci_id, BarAssignment, ConfigSpace, PciMemoryAllocator, SegmentGroup};
use eonix::pcie::header::{
    decode_bar, header_kind, Bar, Bars, BarsEntry, BitFlag, Command, HeaderKind, Register, Status,
};

#[test]
fn pci_id_packs_vendor_and_device() {
    assert_eq!(pci_id(0x8086, 0x100e), 0x8086_100e);
    assert_eq!(pci_id(0, 0), 0);
}

#[test]
fn configuration_space_addresses() {
    let g = SegmentGroup::new(0, 0, 10, 0x3000_0000);
    assert_eq!(
        g.get_conf_space(1, 2, 3),
        Some(ConfigSpace { bus: 1, device: 2, function: 3, base: 0x3000_0000 + 0x100000 + 0x10000 + 0x3000 })
    );
    assert_eq!(g.get_conf_space(11, 0, 0), None);
    let h = SegmentGroup::new(1, 5, 10, 0);
    assert_eq!(h.get_conf_space(4, 0, 0), None);
}

#[test]
fn command_register_bits() {
    let mut r: Register<Command> = Register { value: Command::IO_ACCESS_ENABLE, kind: PhantomData };
    r.set(Command::from_bits(Command::MEMORY_ACCESS_ENABLE | Command::BUS_MASTER_ENABLE));
    assert_eq!(r.value, 7);
    r.clear(Command::from_bits(Command::IO_ACCESS_ENABLE));
    assert_eq!(r.read().into_bits(), 6);
    r.write(Command::from_bits(Command::INTERRUPT_DISABLE));
    assert_eq!(r.value, 1024);
    let s = Status::from_bits(Status::CAPABILITIES_LIST).or(Status::from_bits(Status::INTERRUPT_STATUS));
    assert_eq!(s.into_bits(), 24);
    assert_eq!(s.and(Status::from_bits(8)).into_bits(), 8);
    assert_eq!(Command::from_bits(0).not().into_bits(), 0xffff);
}

#[test]
fn decode_io_and_memory_bars() {
    assert_eq!(decode_bar(0xc001, 0xffff_ffe1, None), Bar::IOMapped { base: Some(0xc000), size: 0x20 });
    assert_eq!(decode_bar(0xfebf_0000, 0xffff_f000, None), Bar::MemoryMapped32 { base: Some(0xfebf_0000), size: 0x1000 });
    assert_eq!(decode_bar(0, 0xffff_f000, None), Bar::MemoryMapped32 { base: None, size: 0x1000 });
    assert_eq!(decode_bar(0, 0, None), Bar::Absent);
    assert_eq!(
        decode_bar(0xfe00_000c, 0xffff_c00c, Some((0x1, 0xffff_ffff))),
        Bar::MemoryMapped64 { base: Some(0x1_fe00_0000), size: 0x4000 }
    );
}

#[test]
fn bars_pair_64bit_registers() {
    let bars = Bars { bars: vec![0x4, 0, 0x1, 0, 0, 0] };
    let es = bars.iter();
    assert_eq!(es.len(), 5);
    assert_eq!(es[0], BarsEntry { reg1: 0, reg2: Some(1) });
    assert_eq!(es[1], BarsEntry { reg1: 2, reg2: None });
    let values = vec![0xfe00_000c, 0x1, 0, 0, 0, 0];
    let probes = vec![0xffff_c00c, 0xffff_ffff, 0, 0, 0, 0];
    assert_eq!(es[0].get(&values, &probes), Bar::MemoryMapped64 { base: Some(0x1_fe00_0000), size: 0x4000 });
    let (lo, hi) = es[0].set(&values, Bar::MemoryMapped64 { base: Some(0x2_0000_0000), size: 0x4000 });
    assert_eq!(lo, 0xc);
    assert_eq!(hi, Some(0x3));
}

#[test]
fn header_kinds() {
    assert_eq!(header_kind(0xffff, 0), None);
    assert_eq!(header_kind(0x8086, 0x80), Some(HeaderKind::Endpoint));
    assert_eq!(header_kind(0x8086, 0x05), Some(HeaderKind::Unknown));
}

#[test]
fn allocator_rounds_to_powers_of_two() {
    let mut a = PciMemoryAllocator::new(0x1000, 0x10000);
    assert_eq!(a.allocate(0x800), Some(0x1000));
    assert_eq!(a.start, 0x1800);
    assert_eq!(a.allocate(0x1000), Some(0x1800));
    assert_eq!(a.start, 0x2800);
    assert_eq!(a.allocate(0x10000), None);
    assert_eq!(a.start, 0x2800);
}

#[test]
fn bars_get_windows() {
    let mut a = PciMemoryAllocator::new(0x4000, 0x100000);
    assert_eq!(assign_bar(&mut a, Bar::IOMapped { base: None, size: 0x20 }), BarAssignment::Keep);
    assert_eq!(
        assign_bar(&mut a, Bar::MemoryMapped32 { base: Some(0x9000), size: 0x1000 }),
        BarAssignment::Keep
    );
    assert_eq!(
        assign_bar(&mut a, Bar::MemoryMapped32 { base: None, size: 0x1000 }),
        BarAssignment::Assign(Bar::MemoryMapped32 { base: Some(0x4000), size: 0x1000 })
    );
    assert_eq!(
        assign_bar(&mut a, Bar::MemoryMapped64 { base: None, size: 0x2000 }),
        BarAssignment::Assign(Bar::MemoryMapped64 { base: Some(0x5000), size: 0x2000 })
    );
    let mut small = PciMemoryAllocator::new(0x1000, 0x8000);
    assert_eq!(
        assign_bar(&mut small, Bar::MemoryMapped32 { base: None, size: 0x8000 }),
        BarAssignment::OutOfSpace
    );
}
