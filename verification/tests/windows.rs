use hostname::errors::IoFailure;
use hostname::net::windows::{
    address_info, address_size_for_call, capacity_for_call, domain_name, get_adapters_addresses,
    get_computer_name_ex_w, get_name_info, set_answer, short_host_name, size_for_call,
    AdaptersCodes, CapacityStep, SetCodes, WideStep,
};
use hostname::net::{AddressInfo, AddressRecord, SetAnswer};

const WSAENAMETOOLONG: i32 = 10063;
const WSAENOBUFS: i32 = 10055;
const ERROR_MORE_DATA: i32 = 234;

const ADAPTERS: AdaptersCodes = AdaptersCodes { no_data: 232, buffer_overflow: 111, success: 0 };
const SET: SetCodes = SetCodes { access_denied: 5, invalid_parameter: 87, invalid_name: 123 };

fn wide(text: &str) -> Vec<u16> {
    text.encode_utf16().collect()
}

fn buffer_with(name: &str, len: usize) -> Vec<u16> {
    let mut buffer = wide(name);
    buffer.resize(len, 0);
    buffer
}

#[test]
fn capacity_fits_the_call_or_the_name_is_too_long() {
    assert_eq!(capacity_for_call(256, WSAENAMETOOLONG), Ok(256));
    assert_eq!(capacity_for_call(0, WSAENAMETOOLONG), Ok(0));
    assert_eq!(capacity_for_call(u32::MAX as usize, WSAENAMETOOLONG), Ok(u32::MAX));
    if usize::BITS > 32 {
        assert_eq!(
            capacity_for_call(u32::MAX as usize + 1, WSAENAMETOOLONG),
            Err(IoFailure::Raw(WSAENAMETOOLONG))
        );
    }
}

#[test]
fn computer_name_after_a_success_has_the_reported_length() {
    assert_eq!(
        get_computer_name_ex_w(None, ERROR_MORE_DATA, 9, 256),
        CapacityStep::Done(Some(9))
    );
    assert_eq!(
        get_computer_name_ex_w(None, ERROR_MORE_DATA, 0, 256),
        CapacityStep::Done(Some(0))
    );
}

#[test]
fn computer_name_that_needs_more_room() {
    assert_eq!(
        get_computer_name_ex_w(Some(ERROR_MORE_DATA), ERROR_MORE_DATA, 300, 256),
        CapacityStep::Reserve(44)
    );
    assert_eq!(
        get_computer_name_ex_w(Some(ERROR_MORE_DATA), ERROR_MORE_DATA, 256, 256),
        CapacityStep::Reserve(0)
    );
    assert_eq!(
        get_computer_name_ex_w(Some(ERROR_MORE_DATA), ERROR_MORE_DATA, 100, 256),
        CapacityStep::Reserve(0)
    );
}

#[test]
fn computer_name_after_another_error() {
    assert_eq!(
        get_computer_name_ex_w(Some(87), ERROR_MORE_DATA, 0, 256),
        CapacityStep::Failed(IoFailure::Last)
    );
}

#[test]
fn empty_domain_name_is_no_domain_name() {
    assert_eq!(domain_name(Vec::new()), None);
    assert_eq!(domain_name(wide("example.com")), Some(wide("example.com")));
    assert_eq!(domain_name(wide("(none)")), Some(wide("(none)")));
}

#[test]
fn wide_short_name_is_the_name_up_to_the_first_dot() {
    assert_eq!(short_host_name(&wide("server.internal.example.com")), wide("server"));
    assert_eq!(short_host_name(&wide("server")), wide("server"));
    assert_eq!(short_host_name(&wide(".b")), Vec::<u16>::new());
    assert_eq!(short_host_name(&wide("")), Vec::<u16>::new());
    assert_eq!(short_host_name(&[0x61, 0x012e, 0x62, 0x2e, 0x63]), vec![0x61, 0x012e, 0x62]);
}

#[test]
fn refusals_of_the_setter_by_their_numbers() {
    assert_eq!(set_answer(None, &SET), SetAnswer::Done);
    assert_eq!(set_answer(Some(5), &SET), SetAnswer::PermissionDenied);
    assert_eq!(set_answer(Some(87), &SET), SetAnswer::InvalidInput);
    assert_eq!(set_answer(Some(123), &SET), SetAnswer::InvalidInput);
    assert_eq!(set_answer(Some(2), &SET), SetAnswer::OtherError);
    assert_eq!(set_answer(Some(0), &SET), SetAnswer::OtherError);
}

#[test]
fn socket_address_sizes() {
    assert_eq!(address_size_for_call(28), Ok(28));
    assert_eq!(address_size_for_call(i32::MAX as usize), Ok(i32::MAX));
    assert_eq!(address_size_for_call(i32::MAX as usize + 1), Err(IoFailure::InvalidInput));
}

#[test]
fn wide_name_info_after_a_success_has_no_zero_at_its_end() {
    assert_eq!(
        get_name_info(buffer_with("192.0.2.1", 1025), 0, WSAENOBUFS, WSAENAMETOOLONG),
        WideStep::Done(wide("192.0.2.1"))
    );
    assert_eq!(
        get_name_info(vec![0u16; 1025], 0, WSAENOBUFS, WSAENAMETOOLONG),
        WideStep::Done(Vec::new())
    );
}

#[test]
fn wide_name_info_buffer_grows() {
    let buffer = vec![0x78u16; 1025];
    let mut next = buffer.clone();
    next.resize(1025 + 4096, 0);
    assert_eq!(
        get_name_info(buffer.clone(), 0, WSAENOBUFS, WSAENAMETOOLONG),
        WideStep::Retry(next.clone())
    );
    assert_eq!(
        get_name_info(buffer.clone(), WSAENOBUFS, WSAENOBUFS, WSAENAMETOOLONG),
        WideStep::Retry(next.clone())
    );
    assert_eq!(
        get_name_info(buffer, WSAENAMETOOLONG, WSAENOBUFS, WSAENAMETOOLONG),
        WideStep::Retry(next)
    );
    let named = buffer_with("name", 8);
    let mut next = named.clone();
    next.resize(8 + 4096, 0);
    assert_eq!(
        get_name_info(named, WSAENOBUFS, WSAENOBUFS, WSAENAMETOOLONG),
        WideStep::Retry(next)
    );
}

#[test]
fn wide_name_info_after_another_status() {
    assert_eq!(
        get_name_info(buffer_with("name", 1025), 11001, WSAENOBUFS, WSAENAMETOOLONG),
        WideStep::Failed(IoFailure::Last)
    );
    assert_eq!(
        get_name_info(vec![0x78u16; 4], -1, WSAENOBUFS, WSAENAMETOOLONG),
        WideStep::Failed(IoFailure::Last)
    );
}

#[test]
fn size_for_the_adapters_call() {
    assert_eq!(size_for_call(32768), 32768);
    assert_eq!(size_for_call(0), 0);
    assert_eq!(size_for_call(u32::MAX as usize), u32::MAX);
    if usize::BITS > 32 {
        assert_eq!(size_for_call(u32::MAX as usize + 1), u32::MAX);
        assert_eq!(size_for_call(usize::MAX), u32::MAX);
    }
}

#[test]
fn adapters_without_addresses() {
    assert_eq!(get_adapters_addresses(232, &ADAPTERS, 0, 32768), CapacityStep::Done(None));
    assert_eq!(get_adapters_addresses(232, &ADAPTERS, 100, 32768), CapacityStep::Done(None));
    assert_eq!(get_adapters_addresses(111, &ADAPTERS, 0, 32768), CapacityStep::Done(None));
    assert_eq!(get_adapters_addresses(0, &ADAPTERS, 0, 32768), CapacityStep::Done(None));
}

#[test]
fn adapters_that_fit_the_buffer() {
    assert_eq!(
        get_adapters_addresses(0, &ADAPTERS, 1200, 32768),
        CapacityStep::Done(Some(1200))
    );
}

#[test]
fn adapters_that_need_more_room() {
    assert_eq!(get_adapters_addresses(111, &ADAPTERS, 40000, 32768), CapacityStep::Reserve(7232));
    assert_eq!(get_adapters_addresses(111, &ADAPTERS, 32768, 32768), CapacityStep::Reserve(0));
    assert_eq!(get_adapters_addresses(111, &ADAPTERS, 1, 32768), CapacityStep::Reserve(0));
}

#[test]
fn adapters_call_that_failed() {
    assert_eq!(
        get_adapters_addresses(87, &ADAPTERS, 0, 32768),
        CapacityStep::Failed(IoFailure::Raw(87))
    );
    assert_eq!(
        get_adapters_addresses(0x8000_0000, &ADAPTERS, 0, 32768),
        CapacityStep::Failed(IoFailure::Raw(i32::MIN))
    );
    assert_eq!(
        get_adapters_addresses(u32::MAX, &ADAPTERS, 0, 32768),
        CapacityStep::Failed(IoFailure::Raw(-1))
    );
    assert_eq!(
        get_adapters_addresses(0x7fff_ffff, &ADAPTERS, 0, 32768),
        CapacityStep::Failed(IoFailure::Raw(i32::MAX))
    );
}

#[test]
fn wide_resolution_by_its_status() {
    let record = || AddressRecord { family: 23, address: vec![0; 28], canonical_name: None };
    assert_eq!(address_info(0, vec![record()]), Ok(AddressInfo { addresses: vec![record()] }));
    assert_eq!(address_info(0, Vec::new()), Err(IoFailure::InvalidData));
    assert_eq!(address_info(11001, Vec::new()), Err(IoFailure::Last));
    assert_eq!(address_info(11001, vec![record()]), Err(IoFailure::Last));
}
