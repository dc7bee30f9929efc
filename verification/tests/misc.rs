use eonix::block::mbr::{MBRPartTable, Partition};
use eonix::errno::{EADDRINUSE, EFAULT, ENODEV};
use eonix::net::device::{NetDev, NetDevError};
use eonix::net::iface::{SocketType, UsedPorts, IP_LOCAL_PORT_START};
use eonix::net::loopback::Loopback;
use eonix::net::route::{get_ephemeral_iface, get_relate_iface, IfaceAddrs, IpAddress};
use eonix::net::netdev::{alloc_id, NetdevIds, NetdevRegistry};
use eonix::rtc::{Instant, RealTimeClock, PSEUDO_EPOCH_SECS};
use eonix::sync::arcswap::ArcSwap;
use std::sync::Arc;

struct FixedClock;

impl RealTimeClock for FixedClock {
    fn now(&self) -> Instant {
        Instant::new(1_700_000_000, 42)
    }
}

#[test]
fn time_without_a_clock_counts_from_the_pseudo_epoch() {
    assert_eq!(PSEUDO_EPOCH_SECS, 1_737_072_000);
    let t = Instant::now::<FixedClock>(None, 10, 5);
    assert_eq!(t, Instant { secs: 1_737_072_010, nanos: 5 });
}

#[test]
fn time_from_the_clock() {
    let c = FixedClock;
    assert_eq!(Instant::now(Some(&c), 10, 5), Instant { secs: 1_700_000_000, nanos: 42 });
}

fn put_entry(s: &mut [u8], i: usize, attr: u8, ty: u8, lba: u32, cnt: u32) {
    let at = 446 + 16 * i;
    s[at] = attr;
    s[at + 4] = ty;
    s[at + 8..at + 12].copy_from_slice(&lba.to_le_bytes());
    s[at + 12..at + 16].copy_from_slice(&cnt.to_le_bytes());
}

#[test]
fn mbr_partitions_with_a_type() {
    let mut s = vec![0u8; 512];
    put_entry(&mut s, 0, 0x80, 0x83, 2048, 0x1000);
    put_entry(&mut s, 2, 0, 0x0c, 0x10000, 5);
    s[510] = 0x55;
    s[511] = 0xaa;
    let t = MBRPartTable::from_sector(&s).unwrap();
    assert_eq!(t.entries[0].attr, 0x80);
    assert_eq!(t.entries[0].part_type, 0x83);
    assert_eq!(t.entries[1].part_type, 0);
    assert_eq!(
        t.partitions(),
        vec![
            Partition { lba_offset: 2048, sector_count: 0x1000 },
            Partition { lba_offset: 0x10000, sector_count: 5 },
        ]
    );
}

#[test]
fn mbr_without_signature_is_no_device() {
    let mut s = vec![0u8; 512];
    put_entry(&mut s, 0, 0x80, 0x83, 2048, 0x1000);
    assert_eq!(MBRPartTable::from_sector(&s).err(), Some(ENODEV));
    s[510] = 0x55;
    assert_eq!(MBRPartTable::from_sector(&s).err(), Some(ENODEV));
}

#[test]
fn ports_are_bound_and_released() {
    let mut p = UsedPorts::new();
    assert_eq!(p.bind(0, SocketType::Tcp), Ok(IP_LOCAL_PORT_START));
    assert_eq!(p.bind(0, SocketType::Tcp), Ok(IP_LOCAL_PORT_START + 1));
    assert_eq!(p.bind(80, SocketType::Tcp), Ok(80));
    assert_eq!(p.bind(80, SocketType::Tcp), Err(EADDRINUSE));
    assert_eq!(p.bind(80, SocketType::Udp), Ok(80));
    p.release(SocketType::Tcp, IP_LOCAL_PORT_START);
    assert_eq!(p.bind(0, SocketType::Tcp), Ok(IP_LOCAL_PORT_START));
    assert_eq!(p.alloc_port(SocketType::Udp), Some(IP_LOCAL_PORT_START));
    p.release(SocketType::Tcp, 80);
    assert_eq!(p.bind(80, SocketType::Tcp), Ok(80));
}

#[test]
fn loopback_gives_back_what_was_sent() {
    let mut l = Loopback::new();
    assert!(!l.has_packet());
    assert_eq!(l.receive(), Err(NetDevError::Unknown));
    assert_eq!(l.transmit(b"one"), Ok(()));
    assert_eq!(l.transmit(b"two"), Ok(()));
    assert!(l.has_packet());
    assert_eq!(l.receive(), Ok(b"two".to_vec()));
    assert_eq!(l.receive(), Ok(b"one".to_vec()));
    assert!(!l.has_packet());
}

#[test]
fn loopback_as_a_device() {
    let mut l = Loopback::new();
    assert_eq!(l.mac_addr(), [0; 6]);
    assert!(l.can_send());
    assert!(!l.can_receive());
    assert_eq!(NetDev::send(&mut l, b"x"), Ok(()));
    assert!(l.can_receive());
    assert_eq!(l.recv(), Ok(b"x".to_vec()));
}

#[test]
fn device_ids_count_up() {
    let mut ids = NetdevIds::new();
    assert_eq!(alloc_id(&mut ids), 0);
    assert_eq!(alloc_id(&mut ids), 1);
}

#[test]
fn devices_register_once_per_id() {
    let mut r: NetdevRegistry<&str> = NetdevRegistry::new();
    assert_eq!(r.register_netdev(0, "eth0"), Ok(()));
    assert_eq!(r.register_netdev(1, "lo"), Ok(()));
    assert_eq!(r.register_netdev(0, "other"), Err(EFAULT));
    assert_eq!(r.get_netdev(0), Some(&"eth0"));
    assert_eq!(r.get_netdev(1), Some(&"lo"));
    assert_eq!(r.get_netdev(2), None);
}

#[test]
fn arc_swap_hands_back_the_old_pointer() {
    let mut s = ArcSwap::new(5);
    assert_eq!(s.try_borrow().map(|p| **p), Some(5));
    assert_eq!(**s.borrow(), 5);
    let old = s.swap(None);
    assert_eq!(old.map(|p| *p), Some(5));
    assert!(s.try_borrow().is_none());
    let six = Arc::new(6);
    assert!(s.swap(Some(six.clone())).is_none());
    assert!(Arc::ptr_eq(s.borrow(), &six));
    let w = ArcSwap::with_pointer(six.clone());
    assert!(Arc::ptr_eq(w.borrow(), &six));
}

#[test]
fn a_sent_packet_comes_back_and_the_queue_is_restored() {
    let mut l = Loopback::new();
    l.transmit(b"first").unwrap();
    l.transmit(b"second").unwrap();
    assert_eq!(l.receive(), Ok(b"second".to_vec()));
    assert!(l.has_packet());
    assert_eq!(l.receive(), Ok(b"first".to_vec()));
    assert!(!l.has_packet());
}

fn iface(name: &[u8], addrs: Vec<IpAddress>) -> IfaceAddrs {
    IfaceAddrs { name: name.to_vec(), addrs }
}

#[test]
fn interfaces_are_chosen_by_address() {
    let ifaces = vec![
        iface(b"lo", vec![IpAddress::V4(0x7f00_0001)]),
        iface(b"virtio-net", vec![IpAddress::V4(0x0a00_020f), IpAddress::V6(1)]),
    ];
    assert_eq!(get_relate_iface(&ifaces, IpAddress::V4(0x7f00_0001)), Some(0));
    assert_eq!(get_relate_iface(&ifaces, IpAddress::V6(1)), Some(1));
    assert_eq!(get_relate_iface(&ifaces, IpAddress::V4(0x0a00_0201)), None);
    assert_eq!(get_ephemeral_iface(&ifaces, Some(IpAddress::V4(0x7f00_0001)), b"virtio-net"), Some(0));
    assert_eq!(get_ephemeral_iface(&ifaces, Some(IpAddress::V4(0x0808_0808)), b"virtio-net"), Some(1));
    assert_eq!(get_ephemeral_iface(&ifaces, None, b"virtio-net"), Some(1));
    assert_eq!(get_ephemeral_iface(&ifaces, None, b"eth9"), None);
}
