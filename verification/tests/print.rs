use hostname::errors::{GetNameOrAddrInfoError, HostNameError};
use hostname::net::{Family, Hints, SocketType};
use hostname::print::{
    print_line, request, AliasHostName, AllFqdnHostName, AllIpAddressesHostName, DefaultHostName,
    DomainHostName, Emit, FqdnHostName, IpAddressHostName, Listing, ModeFlags, NisHostName,
    OnFailure, OutputMode, Printed, Request, ShortHostName,
};

const EAI_NONAME: i32 = -2;
const EAI_AGAIN: i32 = -3;

const NONE: ModeFlags = ModeFlags {
    alias: false,
    domain: false,
    fqdn: false,
    all_fqdns: false,
    ip_address: false,
    all_ip_addresses: false,
    short: false,
    nis: false,
};

fn found(name: &str) -> Result<Vec<u8>, HostNameError> {
    Ok(name.as_bytes().to_vec())
}

fn failed(status: i32) -> Result<Vec<u8>, HostNameError> {
    Err(HostNameError::GetNameOrAddrInfo(GetNameOrAddrInfoError(status)))
}

fn printed(output: &str, error: Option<HostNameError>) -> Printed {
    Printed { output: output.as_bytes().to_vec(), error }
}

#[test]
fn no_flag_selects_the_default_mode() {
    assert_eq!(OutputMode::from_flags(&NONE), OutputMode::Default);
}

#[test]
fn each_flag_selects_its_mode() {
    assert_eq!(OutputMode::from_flags(&ModeFlags { alias: true, ..NONE }), OutputMode::Alias);
    assert_eq!(OutputMode::from_flags(&ModeFlags { domain: true, ..NONE }), OutputMode::Domain);
    assert_eq!(OutputMode::from_flags(&ModeFlags { fqdn: true, ..NONE }), OutputMode::Fqdn);
    assert_eq!(OutputMode::from_flags(&ModeFlags { all_fqdns: true, ..NONE }), OutputMode::AllFqdn);
    assert_eq!(
        OutputMode::from_flags(&ModeFlags { ip_address: true, ..NONE }),
        OutputMode::IpAddress
    );
    assert_eq!(
        OutputMode::from_flags(&ModeFlags { all_ip_addresses: true, ..NONE }),
        OutputMode::AllIpAddresses
    );
    assert_eq!(OutputMode::from_flags(&ModeFlags { short: true, ..NONE }), OutputMode::Short);
    assert_eq!(OutputMode::from_flags(&ModeFlags { nis: true, ..NONE }), OutputMode::Nis);
}

#[test]
fn earlier_flag_wins_over_a_later_one() {
    assert_eq!(
        OutputMode::from_flags(&ModeFlags { alias: true, nis: true, ..NONE }),
        OutputMode::Alias
    );
    assert_eq!(
        OutputMode::from_flags(&ModeFlags { short: true, nis: true, ..NONE }),
        OutputMode::Short
    );
    assert_eq!(
        OutputMode::from_flags(&ModeFlags { fqdn: true, all_fqdns: true, ..NONE }),
        OutputMode::Fqdn
    );
}

#[test]
fn request_to_set_comes_before_any_mode() {
    let flags = ModeFlags { short: true, ..NONE };
    assert_eq!(request(true, false, &flags), Request::SetFromFile);
    assert_eq!(request(false, true, &flags), Request::SetFromArgument);
    assert_eq!(request(true, true, &flags), Request::SetFromFile);
    assert_eq!(request(false, false, &flags), Request::Print(OutputMode::Short));
    assert_eq!(request(false, false, &NONE), Request::Print(OutputMode::Default));
}

fn hints(canonical_name: bool) -> Hints {
    Hints {
        family: Family::Unspecified,
        socket_type: SocketType::Datagram,
        protocol: 0,
        canonical_name,
    }
}

#[test]
fn hints_of_each_mode() {
    assert_eq!(OutputMode::Alias.hints(), Some(hints(false)));
    assert_eq!(OutputMode::IpAddress.hints(), Some(hints(false)));
    assert_eq!(OutputMode::Domain.hints(), Some(hints(true)));
    assert_eq!(OutputMode::Fqdn.hints(), Some(hints(true)));
    assert_eq!(OutputMode::Default.hints(), None);
    assert_eq!(OutputMode::AllFqdn.hints(), None);
    assert_eq!(OutputMode::AllIpAddresses.hints(), None);
    assert_eq!(OutputMode::Short.hints(), None);
    assert_eq!(OutputMode::Nis.hints(), None);
}

#[test]
fn line_ends_with_one_line_feed() {
    assert_eq!(print_line(b"host"), b"host\n".to_vec());
    assert_eq!(print_line(b""), b"\n".to_vec());
    assert_eq!(print_line(b"host\n"), b"host\n\n".to_vec());
}

#[test]
fn default_mode_shows_the_host_name() {
    assert_eq!(
        DefaultHostName.print_host_name(b"server.internal.example.com"),
        b"server.internal.example.com\n".to_vec()
    );
}

#[test]
fn short_mode_shows_the_name_up_to_the_first_dot() {
    assert_eq!(
        ShortHostName.print_host_name(b"server.internal.example.com"),
        b"server\n".to_vec()
    );
    assert_eq!(ShortHostName.print_host_name(b"server"), b"server\n".to_vec());
}

#[test]
fn domain_mode_shows_what_follows_the_first_dot() {
    assert_eq!(
        DomainHostName.print_host_name(Some(b"server.internal.example.com")),
        b"internal.example.com\n".to_vec()
    );
    assert_eq!(DomainHostName.print_host_name(Some(b"a.b")), b"b\n".to_vec());
    assert_eq!(DomainHostName.print_host_name(Some(b"a.")), b"\n".to_vec());
    assert_eq!(DomainHostName.print_host_name(Some(b".b")), b"b\n".to_vec());
}

#[test]
fn domain_mode_without_a_dot_shows_an_empty_line() {
    assert_eq!(DomainHostName.print_host_name(Some(b"host")), b"\n".to_vec());
    assert_eq!(DomainHostName.print_host_name(Some(b"")), b"\n".to_vec());
}

#[test]
fn domain_mode_without_a_canonical_name_shows_an_empty_line() {
    assert_eq!(DomainHostName.print_host_name(None), b"\n".to_vec());
}

#[test]
fn fqdn_mode_shows_the_canonical_name_as_it_is() {
    assert_eq!(
        FqdnHostName.print_host_name(Some(b"server.internal.example.com")),
        b"server.internal.example.com\n".to_vec()
    );
    assert_eq!(FqdnHostName.print_host_name(Some(b"host")), b"host\n".to_vec());
    assert_eq!(FqdnHostName.print_host_name(None), b"\n".to_vec());
}

#[test]
fn nis_mode_shows_the_domain_name() {
    assert_eq!(NisHostName.print_host_name(Some(b"nis.example")), Ok(b"nis.example\n".to_vec()));
    assert_eq!(NisHostName.print_host_name(Some(b"")), Ok(b"\n".to_vec()));
}

#[test]
fn nis_mode_without_a_domain_name_fails() {
    let r = NisHostName.print_host_name(None);
    assert_eq!(r, Err(HostNameError::NoLocalDomainName));
    let error = r.unwrap_err();
    assert_eq!(error.code(), 1);
    assert_eq!(error.message(None), "local domain name not set");
}

#[test]
fn alias_mode_shows_the_host_name_and_the_names_of_its_addresses() {
    assert_eq!(
        AliasHostName.print_host_name(b"host", &vec![found("alias1"), found("alias2")]),
        printed("host alias1 alias2\n", None)
    );
    assert_eq!(AliasHostName.print_host_name(b"host", &Vec::new()), printed("host\n", None));
}

#[test]
fn alias_mode_ends_with_the_first_failure() {
    assert_eq!(
        AliasHostName.print_host_name(
            b"host",
            &vec![found("alias1"), failed(EAI_NONAME), found("alias2"), failed(EAI_AGAIN)]
        ),
        printed(
            "host alias1",
            Some(HostNameError::GetNameOrAddrInfo(GetNameOrAddrInfoError(EAI_NONAME)))
        )
    );
    assert_eq!(
        AliasHostName.print_host_name(b"host", &vec![Err(HostNameError::HostNameTooLong)]),
        printed("host", Some(HostNameError::HostNameTooLong))
    );
}

#[test]
fn ip_address_mode_shows_the_addresses_separated_by_spaces() {
    assert_eq!(
        IpAddressHostName.print_host_name(&vec![found("192.0.2.1"), found("2001:db8::1")]),
        printed("192.0.2.1 2001:db8::1\n", None)
    );
    assert_eq!(
        IpAddressHostName.print_host_name(&vec![found("192.0.2.1")]),
        printed("192.0.2.1\n", None)
    );
    assert_eq!(IpAddressHostName.print_host_name(&Vec::new()), printed("\n", None));
}

#[test]
fn ip_address_mode_ends_with_the_first_failure() {
    assert_eq!(
        IpAddressHostName.print_host_name(&vec![
            found("192.0.2.1"),
            found("192.0.2.2"),
            failed(EAI_AGAIN),
            found("192.0.2.3")
        ]),
        printed(
            "192.0.2.1 192.0.2.2",
            Some(HostNameError::GetNameOrAddrInfo(GetNameOrAddrInfoError(EAI_AGAIN)))
        )
    );
    assert_eq!(
        IpAddressHostName.print_host_name(&vec![failed(EAI_NONAME), found("192.0.2.3")]),
        printed("", Some(HostNameError::GetNameOrAddrInfo(GetNameOrAddrInfoError(EAI_NONAME))))
    );
}

#[test]
fn all_fqdn_mode_leaves_out_what_has_no_name() {
    assert_eq!(
        AllFqdnHostName.print_host_name(&vec![
            failed(EAI_NONAME),
            found("a.example"),
            failed(EAI_AGAIN),
            Err(HostNameError::HostNameTooLong),
            found("b.example")
        ]),
        b"a.example b.example\n".to_vec()
    );
    assert_eq!(AllFqdnHostName.print_host_name(&vec![failed(EAI_NONAME)]), b"\n".to_vec());
    assert_eq!(AllFqdnHostName.print_host_name(&Vec::new()), b"\n".to_vec());
}

#[test]
fn all_ip_addresses_mode_leaves_out_an_address_without_a_name() {
    assert_eq!(
        AllIpAddressesHostName.print_host_name(
            &vec![failed(EAI_NONAME), found("192.0.2.1"), failed(EAI_NONAME), found("2001:db8::1")],
            EAI_NONAME
        ),
        printed("192.0.2.1 2001:db8::1\n", None)
    );
    assert_eq!(
        AllIpAddressesHostName.print_host_name(&vec![failed(EAI_NONAME)], EAI_NONAME),
        printed("\n", None)
    );
    assert_eq!(AllIpAddressesHostName.print_host_name(&Vec::new(), EAI_NONAME), printed("\n", None));
}

#[test]
fn all_ip_addresses_mode_ends_with_any_other_failure() {
    assert_eq!(
        AllIpAddressesHostName.print_host_name(
            &vec![found("192.0.2.1"), failed(EAI_NONAME), failed(EAI_AGAIN), found("192.0.2.2")],
            EAI_NONAME
        ),
        printed(
            "192.0.2.1",
            Some(HostNameError::GetNameOrAddrInfo(GetNameOrAddrInfoError(EAI_AGAIN)))
        )
    );
    assert_eq!(
        AllIpAddressesHostName.print_host_name(
            &vec![Err(HostNameError::HostNameTooLong), found("192.0.2.2")],
            EAI_NONAME
        ),
        printed("", Some(HostNameError::HostNameTooLong))
    );
}

#[test]
fn all_ip_addresses_mode_knows_no_name_by_the_number_given() {
    assert_eq!(
        AllIpAddressesHostName.print_host_name(&vec![failed(EAI_NONAME), found("192.0.2.1")], 8),
        printed("", Some(HostNameError::GetNameOrAddrInfo(GetNameOrAddrInfoError(EAI_NONAME))))
    );
    assert_eq!(
        AllIpAddressesHostName.print_host_name(&vec![failed(8), found("192.0.2.1")], 8),
        printed("192.0.2.1\n", None)
    );
}

#[test]
fn empty_names_are_listed_with_their_spaces() {
    assert_eq!(
        IpAddressHostName.print_host_name(&vec![found(""), found("a"), found("")]),
        printed(" a \n", None)
    );
    assert_eq!(AliasHostName.print_host_name(b"", &vec![found("a")]), printed(" a\n", None));
}

#[test]
fn listings_of_the_list_modes() {
    assert_eq!(
        Listing::new(OutputMode::Alias, EAI_NONAME),
        Some(Listing { on_failure: OnFailure::Stop, no_name: EAI_NONAME, separate: true })
    );
    assert_eq!(
        Listing::new(OutputMode::IpAddress, EAI_NONAME),
        Some(Listing { on_failure: OnFailure::Stop, no_name: EAI_NONAME, separate: false })
    );
    assert_eq!(
        Listing::new(OutputMode::AllFqdn, EAI_NONAME),
        Some(Listing { on_failure: OnFailure::Pass, no_name: EAI_NONAME, separate: false })
    );
    assert_eq!(
        Listing::new(OutputMode::AllIpAddresses, EAI_NONAME),
        Some(Listing { on_failure: OnFailure::PassNoName, no_name: EAI_NONAME, separate: false })
    );
    for mode in [
        OutputMode::Default,
        OutputMode::Domain,
        OutputMode::Fqdn,
        OutputMode::Short,
        OutputMode::Nis,
    ] {
        assert_eq!(Listing::new(mode, EAI_NONAME), None);
    }
}

#[test]
fn listing_writes_a_space_before_every_name_but_the_first() {
    let mut listing = Listing::new(OutputMode::IpAddress, EAI_NONAME).unwrap();
    assert_eq!(listing.next(&found("192.0.2.1")), Emit::Write(b"192.0.2.1".to_vec()));
    assert_eq!(listing.next(&found("192.0.2.2")), Emit::Write(b" 192.0.2.2".to_vec()));
    assert_eq!(listing.next(&found("192.0.2.3")), Emit::Write(b" 192.0.2.3".to_vec()));
}

#[test]
fn listing_of_aliases_writes_a_space_before_every_name() {
    let mut listing = Listing::new(OutputMode::Alias, EAI_NONAME).unwrap();
    assert_eq!(listing.next(&found("alias1")), Emit::Write(b" alias1".to_vec()));
    assert_eq!(listing.next(&found("alias2")), Emit::Write(b" alias2".to_vec()));
}

#[test]
fn listing_that_passes_over_a_failure_keeps_its_place() {
    let mut listing = Listing::new(OutputMode::AllFqdn, EAI_NONAME).unwrap();
    assert_eq!(listing.next(&failed(EAI_AGAIN)), Emit::Pass);
    assert_eq!(listing.next(&found("a.example")), Emit::Write(b"a.example".to_vec()));
    assert_eq!(listing.next(&failed(EAI_NONAME)), Emit::Pass);
    assert_eq!(listing.next(&found("b.example")), Emit::Write(b" b.example".to_vec()));
}

#[test]
fn listing_of_all_addresses_stops_at_a_failure_other_than_no_name() {
    let mut listing = Listing::new(OutputMode::AllIpAddresses, EAI_NONAME).unwrap();
    assert_eq!(listing.next(&failed(EAI_NONAME)), Emit::Pass);
    assert_eq!(
        listing.next(&failed(EAI_AGAIN)),
        Emit::Stop(HostNameError::GetNameOrAddrInfo(GetNameOrAddrInfoError(EAI_AGAIN)))
    );
    assert_eq!(
        listing.next(&Err(HostNameError::HostNameTooLong)),
        Emit::Stop(HostNameError::HostNameTooLong)
    );
}

#[test]
fn listing_step_by_step_writes_what_the_whole_list_writes() {
    let lookups = vec![
        failed(EAI_NONAME),
        found("192.0.2.1"),
        found("192.0.2.2"),
        failed(EAI_NONAME),
        found("2001:db8::1"),
        failed(EAI_AGAIN),
        found("192.0.2.3"),
    ];
    let mut listing = Listing::new(OutputMode::AllIpAddresses, EAI_NONAME).unwrap();
    let mut output = Vec::new();
    let mut error = None;
    for lookup in &lookups {
        match listing.next(lookup) {
            Emit::Write(bytes) => output.extend_from_slice(&bytes),
            Emit::Pass => {}
            Emit::Stop(failure) => {
                error = Some(failure);
                break;
            }
        }
    }
    if error.is_none() {
        output.push(b'\n');
    }
    assert_eq!(
        Printed { output, error },
        AllIpAddressesHostName.print_host_name(&lookups, EAI_NONAME)
    );
}
