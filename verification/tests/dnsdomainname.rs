use hostname::dnsdomainname::{address_info, request, Platform};
use hostname::errors::IoFailure;
use hostname::net::{AddressInfo, AddressRecord};
use hostname::print::{Addresses, DomainHostName, Listing, NameForm, OutputMode, Request};

#[test]
fn dns_domain_name_utility_shows_the_domain() {
    assert_eq!(request(false, Platform::PosixLike), Ok(Request::Print(OutputMode::Domain)));
    assert_eq!(request(true, Platform::PosixLike), Ok(Request::Print(OutputMode::Domain)));
}

#[test]
fn dns_domain_name_utility_is_not_supported_on_a_system_like_windows() {
    assert_eq!(request(false, Platform::WindowsLike), Err(IoFailure::Unsupported));
    assert_eq!(request(true, Platform::WindowsLike), Err(IoFailure::Unsupported));
}

#[test]
fn dns_domain_name_of_a_host_without_a_dot_is_an_empty_line() {
    assert_eq!(DomainHostName.print_host_name(Some(b"host")), b"\n".to_vec());
}

#[test]
fn dns_domain_name_of_a_host() {
    assert_eq!(
        DomainHostName.print_host_name(Some(b"host.example.com")),
        b"example.com\n".to_vec()
    );
}

fn record(canonical_name: Option<&[u8]>) -> AddressRecord {
    AddressRecord {
        family: 10,
        address: vec![0; 28],
        canonical_name: canonical_name.map(<[u8]>::to_vec),
    }
}

#[test]
fn dns_resolution_failure_is_an_error_of_the_system() {
    assert_eq!(address_info(-2, Vec::new()), Err(IoFailure::Raw(-2)));
    assert_eq!(address_info(4, vec![record(None)]), Err(IoFailure::Raw(4)));
}

#[test]
fn dns_resolution_without_a_record_is_invalid_data() {
    assert_eq!(address_info(0, Vec::new()), Err(IoFailure::InvalidData));
}

#[test]
fn dns_resolution_with_records_succeeds() {
    assert_eq!(
        address_info(0, vec![record(Some(b"host"))]),
        Ok(AddressInfo { addresses: vec![record(Some(b"host"))] })
    );
}

#[test]
fn dns_domain_name_comes_from_the_first_record() {
    let info = address_info(0, vec![record(Some(b"host.example.com")), record(Some(b"x.y"))])
        .unwrap();
    let canonical_name = info.canonical_name().map(Vec::as_slice);
    assert_eq!(DomainHostName.print_host_name(canonical_name), b"example.com\n".to_vec());
}

#[test]
fn lookups_of_each_mode() {
    assert_eq!(OutputMode::Alias.lookups(), Some((Addresses::OfHostName, NameForm::Name)));
    assert_eq!(OutputMode::IpAddress.lookups(), Some((Addresses::OfHostName, NameForm::Numeric)));
    assert_eq!(OutputMode::AllFqdn.lookups(), Some((Addresses::OfInterfaces, NameForm::Name)));
    assert_eq!(
        OutputMode::AllIpAddresses.lookups(),
        Some((Addresses::OfInterfaces, NameForm::Numeric))
    );
    for mode in [
        OutputMode::Default,
        OutputMode::Domain,
        OutputMode::Fqdn,
        OutputMode::Short,
        OutputMode::Nis,
    ] {
        assert_eq!(mode.lookups(), None);
    }
}

#[test]
fn list_starts_with_the_host_name_for_the_aliases_only() {
    assert_eq!(Listing::start(OutputMode::Alias, b"host"), b"host".to_vec());
    assert_eq!(Listing::start(OutputMode::IpAddress, b"host"), Vec::<u8>::new());
    assert_eq!(Listing::start(OutputMode::AllFqdn, b"host"), Vec::<u8>::new());
    assert_eq!(Listing::start(OutputMode::AllIpAddresses, b"host"), Vec::<u8>::new());
}

#[test]
fn list_ends_with_a_line_feed() {
    let listing = Listing::new(OutputMode::AllFqdn, -2).unwrap();
    assert_eq!(listing.finish(), b"\n".to_vec());
}
