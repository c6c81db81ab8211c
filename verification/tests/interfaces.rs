use hostname::interfaces::{
    eligible_addresses, filter_interface_addresses, filter_map_interface_addresses,
    InterfaceAddress, InterfaceRecord, SocketAddress,
};

fn v6(first: u8, second: u8) -> SocketAddress {
    let mut address = [0u8; 16];
    address[0] = first;
    address[1] = second;
    address[15] = 1;
    SocketAddress::Inet6 { address, scope_id: 0 }
}

const LOCALHOST: SocketAddress = SocketAddress::Inet([127, 0, 0, 1]);
const LAN: SocketAddress = SocketAddress::Inet([192, 168, 1, 10]);
const WAN: SocketAddress = SocketAddress::Inet([203, 0, 113, 7]);

/// An address as a system reports it that states no size.
fn on(address: SocketAddress) -> InterfaceAddress {
    InterfaceAddress { address, size: None }
}

fn interface(up: bool, loopback: bool, addresses: &[SocketAddress]) -> InterfaceRecord {
    InterfaceRecord {
        up,
        loopback,
        ip_enabled: true,
        addresses: addresses.iter().copied().map(on).collect(),
    }
}

#[test]
fn interface_counts_when_up_not_loopback_and_with_an_address() {
    assert!(filter_interface_addresses(&interface(true, false, &[LAN])));
}

#[test]
fn interface_that_is_down_does_not_count() {
    assert!(!filter_interface_addresses(&interface(false, false, &[LAN])));
}

#[test]
fn loopback_interface_does_not_count() {
    assert!(!filter_interface_addresses(&interface(true, true, &[LOCALHOST])));
}

#[test]
fn interface_without_an_address_does_not_count() {
    assert!(!filter_interface_addresses(&interface(true, false, &[])));
}

#[test]
fn interface_without_ipv4_and_ipv6_does_not_count() {
    let record = InterfaceRecord {
        up: true,
        loopback: false,
        ip_enabled: false,
        addresses: vec![on(LAN), on(v6(0x20, 0x01))],
    };
    assert!(!filter_interface_addresses(&record));
    assert_eq!(eligible_addresses(&vec![record]), Vec::new());
}

#[test]
fn every_ipv4_address_counts() {
    assert_eq!(filter_map_interface_addresses(&on(LAN)), Some(LAN));
    assert_eq!(filter_map_interface_addresses(&on(LOCALHOST)), Some(LOCALHOST));
    let link_local_v4 = SocketAddress::Inet([169, 254, 0, 1]);
    assert_eq!(filter_map_interface_addresses(&on(link_local_v4)), Some(link_local_v4));
}

#[test]
fn global_ipv6_address_counts() {
    let global = v6(0x20, 0x01);
    assert_eq!(filter_map_interface_addresses(&on(global)), Some(global));
    let unique_local = v6(0xfd, 0x00);
    assert_eq!(filter_map_interface_addresses(&on(unique_local)), Some(unique_local));
    let site_local = v6(0xfe, 0xc0);
    assert_eq!(filter_map_interface_addresses(&on(site_local)), Some(site_local));
    let global_multicast = v6(0xff, 0x0e);
    assert_eq!(filter_map_interface_addresses(&on(global_multicast)), Some(global_multicast));
}

#[test]
fn link_local_ipv6_addresses_do_not_count() {
    assert_eq!(filter_map_interface_addresses(&on(v6(0xfe, 0x80))), None);
    assert_eq!(filter_map_interface_addresses(&on(v6(0xfe, 0xbf))), None);
    assert_eq!(filter_map_interface_addresses(&on(v6(0xff, 0x02))), None);
    assert_eq!(filter_map_interface_addresses(&on(v6(0xff, 0x12))), None);
}

#[test]
fn scope_of_an_ipv6_address_is_kept() {
    let mut address = [0u8; 16];
    address[0] = 0x20;
    let scoped = SocketAddress::Inet6 { address, scope_id: 7 };
    assert_eq!(filter_map_interface_addresses(&on(scoped)), Some(scoped));
}

#[test]
fn address_of_another_family_does_not_count() {
    assert_eq!(filter_map_interface_addresses(&on(SocketAddress::Unsupported(17))), None);
    assert_eq!(filter_map_interface_addresses(&on(SocketAddress::Unsupported(0))), None);
}

#[test]
fn address_with_a_size_that_is_not_negative_counts() {
    let sized = |size| InterfaceAddress { address: LAN, size: Some(size) };
    assert_eq!(filter_map_interface_addresses(&sized(16)), Some(LAN));
    assert_eq!(filter_map_interface_addresses(&sized(0)), Some(LAN));
    assert_eq!(filter_map_interface_addresses(&sized(i32::MAX)), Some(LAN));
    let global = InterfaceAddress { address: v6(0x20, 0x01), size: Some(28) };
    assert_eq!(filter_map_interface_addresses(&global), Some(v6(0x20, 0x01)));
}

#[test]
fn address_with_a_negative_size_does_not_count() {
    let sized = |size| InterfaceAddress { address: LAN, size: Some(size) };
    assert_eq!(filter_map_interface_addresses(&sized(-1)), None);
    assert_eq!(filter_map_interface_addresses(&sized(i32::MIN)), None);
    let global = InterfaceAddress { address: v6(0x20, 0x01), size: Some(-28) };
    assert_eq!(filter_map_interface_addresses(&global), None);
}

#[test]
fn size_does_not_make_an_address_count_that_does_not() {
    let link_local = InterfaceAddress { address: v6(0xfe, 0x80), size: Some(28) };
    assert_eq!(filter_map_interface_addresses(&link_local), None);
    let other = InterfaceAddress { address: SocketAddress::Unsupported(17), size: Some(16) };
    assert_eq!(filter_map_interface_addresses(&other), None);
}

#[test]
fn host_addresses_keep_the_order_of_the_system() {
    let interfaces = vec![
        interface(true, true, &[LOCALHOST]),
        interface(true, false, &[SocketAddress::Unsupported(17)]),
        interface(true, false, &[WAN]),
        interface(true, false, &[v6(0xfe, 0x80)]),
        interface(false, false, &[LAN]),
        interface(
            true,
            false,
            &[LAN, v6(0xff, 0x02), v6(0x20, 0x01), SocketAddress::Unsupported(3)],
        ),
        interface(true, false, &[]),
        InterfaceRecord {
            up: true,
            loopback: false,
            ip_enabled: false,
            addresses: vec![on(LAN)],
        },
        InterfaceRecord {
            up: true,
            loopback: false,
            ip_enabled: true,
            addresses: vec![
                InterfaceAddress { address: LAN, size: Some(-1) },
                InterfaceAddress { address: WAN, size: Some(16) },
            ],
        },
    ];
    assert_eq!(eligible_addresses(&interfaces), vec![WAN, LAN, v6(0x20, 0x01), WAN]);
}

#[test]
fn interface_whose_only_address_has_a_negative_size_gives_no_address() {
    let interfaces = vec![InterfaceRecord {
        up: true,
        loopback: false,
        ip_enabled: true,
        addresses: vec![InterfaceAddress { address: LAN, size: Some(-1) }],
    }];
    assert!(filter_interface_addresses(&interfaces[0]));
    assert_eq!(eligible_addresses(&interfaces), Vec::new());
}

#[test]
fn host_without_interfaces_has_no_addresses() {
    assert_eq!(eligible_addresses(&Vec::new()), Vec::new());
}

#[test]
fn host_with_only_the_loopback_interface_has_no_addresses() {
    let loopback_v6 = SocketAddress::Inet6 {
        address: [0, 0, 0, 0, 0, 0, 0, 0, 0, 0, 0, 0, 0, 0, 0, 1],
        scope_id: 0,
    };
    let interfaces =
        vec![interface(true, true, &[LOCALHOST]), interface(true, true, &[loopback_v6])];
    assert_eq!(eligible_addresses(&interfaces), Vec::new());
}
