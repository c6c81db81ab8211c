//! The network interfaces of the host, and which of their addresses count
//! as addresses of the host.

use vstd::prelude::*;

use crate::net::{
    in6_is_addr_linklocal, in6_is_addr_mc_linklocal, is_link_local, is_multicast_link_local,
};

verus! {

/// An address that is configured on a network interface.
#[derive(Debug, Clone, Copy, PartialEq, Eq)]
pub enum SocketAddress {
    /// An IPv4 address.
    Inet([u8; 4]),
    /// An IPv6 address, with the scope that goes with it.
    Inet6 { address: [u8; 16], scope_id: u32 },
    /// An address of a family that is not supported, by its number.
    Unsupported(i32),
}

/// An address on a network interface as the system reports it.
#[derive(Debug, Clone, Copy, PartialEq, Eq)]
pub struct InterfaceAddress {
    /// The address.
    pub address: SocketAddress,
    /// The size of the socket address, where the system states one.
    pub size: Option<i32>,
}

/// One network interface: whether it is up, whether it is the loopback
/// interface, whether it speaks IPv4 or IPv6 at all, and the addresses
/// configured on it, in the order in which the system reports them.
#[derive(Debug, PartialEq, Eq)]
pub struct InterfaceRecord {
    /// Whether the interface is up.
    pub up: bool,
    /// Whether the interface is the loopback interface.
    pub loopback: bool,
    /// Whether IPv4 or IPv6 is enabled on the interface. A system that
    /// does not say so has it enabled.
    pub ip_enabled: bool,
    /// The addresses that are configured on the interface.
    pub addresses: Vec<InterfaceAddress>,
}

/// Whether a socket address is of a kind that counts: every IPv4 address
/// is, and every IPv6 address that is neither link-local unicast nor
/// link-local multicast.
pub open spec fn socket_address_counts(address: SocketAddress) -> bool {
    match address {
        SocketAddress::Inet(_) => true,
        SocketAddress::Inet6 { address, .. } => !is_link_local(address@)
            && !is_multicast_link_local(address@),
        SocketAddress::Unsupported(_) => false,
    }
}

/// Whether an address of an interface counts: its size, where the system
/// states one, is not negative, and its socket address is of a kind that
/// counts.
pub open spec fn address_counts(address: InterfaceAddress) -> bool {
    &&& match address.size {
        Some(size) => size >= 0,
        None => true,
    }
    &&& socket_address_counts(address.address)
}

/// Whether an interface counts: it is up, it is not the loopback interface,
/// it has an address, and IPv4 or IPv6 is enabled on it.
pub open spec fn interface_counts(record: InterfaceRecord) -> bool {
    record.up && !record.loopback && record.addresses@.len() > 0 && record.ip_enabled
}

/// The socket addresses of those among `addresses` that count, in their
/// order.
pub open spec fn counted(addresses: Seq<InterfaceAddress>) -> Seq<SocketAddress>
    decreases addresses.len(),
{
    if addresses.len() == 0 {
        Seq::empty()
    } else if address_counts(addresses.last()) {
        counted(addresses.drop_last()).push(addresses.last().address)
    } else {
        counted(addresses.drop_last())
    }
}

/// The addresses of the host: of every interface that counts, the addresses
/// that count, in the order of the interfaces and of their addresses.
pub open spec fn host_addresses(interfaces: Seq<InterfaceRecord>) -> Seq<SocketAddress>
    decreases interfaces.len(),
{
    if interfaces.len() == 0 {
        Seq::empty()
    } else if interface_counts(interfaces.last()) {
        host_addresses(interfaces.drop_last()) + counted(interfaces.last().addresses@)
    } else {
        host_addresses(interfaces.drop_last())
    }
}

/// Whether the addresses of this interface are looked at.
pub fn filter_interface_addresses(record: &InterfaceRecord) -> (r: bool)
    ensures
        r == interface_counts(*record),
{
    record.up && !record.loopback && record.addresses.len() > 0 && record.ip_enabled
}

/// The socket address of an address of an interface, where the address
/// counts as an address of the host.
pub fn filter_map_interface_addresses(address: &InterfaceAddress) -> (r: Option<SocketAddress>)
    ensures
        r == if address_counts(*address) {
            Some(address.address)
        } else {
            None
        },
{
    let sized = match address.size {
        Some(size) => size >= 0,
        None => true,
    };
    if !sized {
        return None;
    }
    match address.address {
        SocketAddress::Inet(_) => Some(address.address),
        SocketAddress::Inet6 { address: octets, .. } => {
            if !in6_is_addr_linklocal(&octets) && !in6_is_addr_mc_linklocal(&octets) {
                Some(address.address)
            } else {
                None
            }
        },
        SocketAddress::Unsupported(_) => None,
    }
}

/// The addresses of the host among those of its interfaces.
pub fn eligible_addresses(interfaces: &Vec<InterfaceRecord>) -> (r: Vec<SocketAddress>)
    ensures
        r@ == host_addresses(interfaces@),
{
    let mut r: Vec<SocketAddress> = Vec::new();
    let mut i: usize = 0;
    while i < interfaces.len()
        invariant
            i <= interfaces.len(),
            r@ == host_addresses(interfaces@.take(i as int)),
        decreases interfaces.len() - i,
    {
        let record = &interfaces[i];
        let ghost before = r@;
        assert(interfaces@.take(i + 1).drop_last() =~= interfaces@.take(i as int));
        assert(interfaces@.take(i + 1).last() == *record);
        if filter_interface_addresses(record) {
            let mut j: usize = 0;
            while j < record.addresses.len()
                invariant
                    j <= record.addresses.len(),
                    r@ == before + counted(record.addresses@.take(j as int)),
                decreases record.addresses.len() - j,
            {
                assert(record.addresses@.take(j + 1).drop_last() =~= record.addresses@.take(
                    j as int,
                ));
                assert(record.addresses@.take(j + 1).last() == record.addresses@[j as int]);
                match filter_map_interface_addresses(&record.addresses[j]) {
                    Some(address) => {
                        r.push(address);
                    },
                    None => {},
                }
                j += 1;
                assert(r@ =~= before + counted(record.addresses@.take(j as int)));
            }
            assert(record.addresses@.take(record.addresses.len() as int) =~= record.addresses@);
        }
        i += 1;
    }
    assert(interfaces@.take(interfaces.len() as int) =~= interfaces@);
    r
}

/// What `counted` keeps are the socket addresses of addresses that count,
/// out of `addresses`.
pub proof fn lemma_counted(addresses: Seq<InterfaceAddress>, k: int)
    requires
        0 <= k < counted(addresses).len(),
    ensures
        exists|j: int|
            0 <= j < addresses.len() && address_counts(#[trigger] addresses[j]) && addresses[j].address
                == counted(addresses)[k],
    decreases addresses.len(),
{
    let front = addresses.drop_last();
    if address_counts(addresses.last()) && k == counted(front).len() {
        let j = addresses.len() - 1;
        assert(address_counts(addresses[j]) && addresses[j].address == counted(addresses)[k]);
    } else {
        lemma_counted(front, k);
        let j = choose|j: int|
            0 <= j < front.len() && address_counts(#[trigger] front[j]) && front[j].address
                == counted(front)[k];
        assert(addresses[j] == front[j]);
        assert(address_counts(addresses[j]) && addresses[j].address == counted(addresses)[k]);
    }
}

/// Every address of the host is the socket address of an address that
/// counts, on an interface that counts.
pub proof fn lemma_host_addresses_count(interfaces: Seq<InterfaceRecord>, k: int)
    requires
        0 <= k < host_addresses(interfaces).len(),
    ensures
        socket_address_counts(host_addresses(interfaces)[k]),
        exists|i: int, j: int|
            0 <= i < interfaces.len() && interface_counts(#[trigger] interfaces[i]) && 0 <= j
                < interfaces[i].addresses@.len() && address_counts(
                #[trigger] interfaces[i].addresses@[j],
            ) && interfaces[i].addresses@[j].address == host_addresses(interfaces)[k],
    decreases interfaces.len(),
{
    let front = interfaces.drop_last();
    let last = interfaces.last();
    if interface_counts(last) && k >= host_addresses(front).len() {
        let m = k - host_addresses(front).len();
        lemma_counted(last.addresses@, m);
        let j = choose|j: int|
            0 <= j < last.addresses@.len() && address_counts(#[trigger] last.addresses@[j])
                && last.addresses@[j].address == counted(last.addresses@)[m];
        let i = interfaces.len() - 1;
        assert(interface_counts(interfaces[i]));
        assert(address_counts(interfaces[i].addresses@[j]) && interfaces[i].addresses@[j].address
            == host_addresses(interfaces)[k]);
    } else {
        lemma_host_addresses_count(front, k);
        let (i, j) = choose|i: int, j: int|
            0 <= i < front.len() && interface_counts(#[trigger] front[i]) && 0 <= j
                < front[i].addresses@.len() && address_counts(#[trigger] front[i].addresses@[j])
                && front[i].addresses@[j].address == host_addresses(front)[k];
        assert(interfaces[i] == front[i]);
        assert(interface_counts(interfaces[i]));
        assert(address_counts(interfaces[i].addresses@[j]) && interfaces[i].addresses@[j].address
            == host_addresses(interfaces)[k]);
    }
}

/// The order of the interfaces is the order of the addresses: the addresses
/// of two lists of interfaces, one after the other, are the addresses of the
/// first list followed by those of the second.
pub proof fn lemma_host_addresses_in_order(first: Seq<InterfaceRecord>, second: Seq<InterfaceRecord>)
    ensures
        host_addresses(first + second) == host_addresses(first) + host_addresses(second),
    decreases second.len(),
{
    if second.len() == 0 {
        assert(first + second =~= first);
        assert(host_addresses(first) + host_addresses(second) =~= host_addresses(first));
    } else {
        assert((first + second).drop_last() =~= first + second.drop_last());
        assert((first + second).last() == second.last());
        lemma_host_addresses_in_order(first, second.drop_last());
        assert(host_addresses(first + second) =~= host_addresses(first) + host_addresses(second));
    }
}

/// Where no interface counts, the host has no addresses.
pub proof fn lemma_no_interface_no_address(interfaces: Seq<InterfaceRecord>)
    requires
        forall|i: int| 0 <= i < interfaces.len() ==> !interface_counts(#[trigger] interfaces[i]),
    ensures
        host_addresses(interfaces) == Seq::<SocketAddress>::empty(),
    decreases interfaces.len(),
{
    if interfaces.len() > 0 {
        let front = interfaces.drop_last();
        assert forall|i: int| 0 <= i < front.len() implies !interface_counts(
            #[trigger] front[i],
        ) by {
            assert(front[i] == interfaces[i]);
        }
        lemma_no_interface_no_address(front);
    }
}

} // verus!
