//! Choosing the network interface a socket uses, by address.
use vstd::prelude::*;

verus! {

/// An IP address.
#[derive(Clone, Copy, PartialEq, Eq, Structural, Debug)]
pub enum IpAddress {
    V4(u32),
    V6(u128),
}

/// An interface as routing sees it: its name and its addresses.
pub struct IfaceAddrs {
    pub name: Vec<u8>,
    pub addrs: Vec<IpAddress>,
}

/// Whether interface `i` of `ifaces` has address `ip`.
pub open spec fn has_addr(ifaces: Seq<IfaceAddrs>, i: int, ip: IpAddress) -> bool {
    ifaces[i].addrs@.contains(ip)
}

/// The first interface, in table order, that has address `ip`.
pub open spec fn first_with_addr(ifaces: Seq<IfaceAddrs>, ip: IpAddress) -> Option<int> {
    if exists|i: int| 0 <= i < ifaces.len() && has_addr(ifaces, i, ip) {
        Some(
            choose|i: int|
                0 <= i < ifaces.len() && has_addr(ifaces, i, ip) && forall|j: int|
                    0 <= j < i ==> !has_addr(ifaces, j, ip),
        )
    } else {
        None
    }
}

fn addrs_contain(addrs: &Vec<IpAddress>, ip: IpAddress) -> (r: bool)
    ensures
        r == addrs@.contains(ip),
{
    let mut k: usize = 0;
    while k < addrs.len()
        invariant
            k <= addrs@.len(),
            forall|j: int| 0 <= j < k ==> addrs@[j] != ip,
        decreases addrs@.len() - k,
    {
        if addrs[k] == ip {
            assert(addrs@[k as int] == ip);
            return true;
        }
        k = k + 1;
    }
    false
}

/// The interface, among `ifaces` in name order, that owns address `ip`:
/// the first that has it, if any.
pub fn get_relate_iface(ifaces: &Vec<IfaceAddrs>, ip: IpAddress) -> (r: Option<usize>)
    ensures
        r matches Some(i) ==> i < ifaces@.len() && has_addr(ifaces@, i as int, ip) && forall|j: int|
            0 <= j < i ==> !has_addr(ifaces@, j, ip),
        r is None ==> forall|j: int| 0 <= j < ifaces@.len() ==> !has_addr(ifaces@, j, ip),
        r is Some <==> first_with_addr(ifaces@, ip) is Some,
        r matches Some(i) ==> first_with_addr(ifaces@, ip) == Some(i as int),
{
    let mut i: usize = 0;
    while i < ifaces.len()
        invariant
            i <= ifaces@.len(),
            forall|j: int| 0 <= j < i ==> !has_addr(ifaces@, j, ip),
        decreases ifaces@.len() - i,
    {
        if addrs_contain(&ifaces[i].addrs, ip) {
            proof {
                assert(has_addr(ifaces@, i as int, ip));
                let c = choose|c: int|
                    0 <= c < ifaces@.len() && has_addr(ifaces@, c, ip) && forall|j: int|
                        0 <= j < c ==> !has_addr(ifaces@, j, ip);
                assert(c == i) by {
                    if c < i {
                    } else if c > i {
                        assert(!has_addr(ifaces@, i as int, ip));
                    }
                }
            }
            return Some(i);
        }
        i = i + 1;
    }
    None
}

fn name_is(name: &Vec<u8>, want: &[u8]) -> (r: bool)
    ensures
        r == (name@ == want@),
{
    if name.len() != want.len() {
        return false;
    }
    let mut k: usize = 0;
    while k < name.len()
        invariant
            k <= name@.len(),
            name@.len() == want@.len(),
            forall|j: int| 0 <= j < k ==> name@[j] == want@[j],
        decreases name@.len() - k,
    {
        if name[k] != want[k] {
            return false;
        }
        k = k + 1;
    }
    assert(name@ =~= want@);
    true
}

/// The interface a socket without a local address uses: the one owning
/// `remote` when it is given and some interface has it, else the first one
/// named `default_name`, if any.
pub fn get_ephemeral_iface(ifaces: &Vec<IfaceAddrs>, remote: Option<IpAddress>, default_name: &[u8]) -> (r:
    Option<usize>)
    requires
        ifaces@.len() > 0,
    ensures
        match remote {
            Some(ip) => (first_with_addr(ifaces@, ip) matches Some(i) ==> r == Some(i as usize)),
            None => true,
        },
        (match remote {
            Some(ip) => first_with_addr(ifaces@, ip) is None,
            None => true,
        }) ==> {
            &&& r matches Some(i) ==> i < ifaces@.len() && ifaces@[i as int].name@ == default_name@
                && forall|j: int| 0 <= j < i ==> ifaces@[j].name@ != default_name@
            &&& r is None ==> forall|j: int| 0 <= j < ifaces@.len() ==> ifaces@[j].name@ != default_name@
        },
{
    match remote {
        Some(ip) => match get_relate_iface(ifaces, ip) {
            Some(i) => return Some(i),
            None => {},
        },
        None => {},
    }
    let mut i: usize = 0;
    while i < ifaces.len()
        invariant
            i <= ifaces@.len(),
            forall|j: int| 0 <= j < i ==> ifaces@[j].name@ != default_name@,
            match remote {
                Some(ip) => first_with_addr(ifaces@, ip) is None,
                None => true,
            },
        decreases ifaces@.len() - i,
    {
        if name_is(&ifaces[i].name, default_name) {
            return Some(i);
        }
        i = i + 1;
    }
    None
}

} // verus!
