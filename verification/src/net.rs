//! The decisions around the calls into the operating system for the host
//! name utility: how large a buffer to offer, what to do when a call is
//! done, what a failure means. The calls themselves are the caller's.

pub mod windows;

use vstd::prelude::*;

use crate::ascii::{DOT, NUL};
use crate::bytes::{find, lemma_position, position, prefix};
use crate::errors::{Failure, GetNameOrAddrInfoError, HostNameError, IoFailure};

verus! {

/// The length that every system allows a host name to have.
pub const POSIX_HOST_NAME_MAX: usize = 255;

/// By how many bytes a buffer grows when it was too small.
pub const BUFFER_GROWTH: usize = 4096;

/// The first size of a buffer for a domain name.
pub const DOMAIN_NAME_BUFFER_SIZE: usize = 256;

/// Stands for the network library in its started state.
#[derive(Debug, Clone, Copy, PartialEq, Eq, Structural)]
pub struct LibraryGuard;

impl LibraryGuard {
    /// Loads the network library on a system where there is nothing to
    /// start: this cannot fail.
    pub fn load() -> (r: Result<LibraryGuard, i32>)
        ensures
            r == Ok::<LibraryGuard, i32>(LibraryGuard),
    {
        Ok(LibraryGuard)
    }

    /// The version of the network library to ask for at start-up: 2.2.
    pub fn requested_version() -> (version: u16)
        ensures
            version == 0x0202,
    {
        make_word(2, 2)
    }

    /// What a start-up that ended with `status` gives: the guard for
    /// status 0, else the status as the error.
    pub fn started(status: i32) -> (r: Result<LibraryGuard, i32>)
        ensures
            status == 0 ==> r == Ok::<LibraryGuard, i32>(LibraryGuard),
            status != 0 ==> r == Err::<LibraryGuard, i32>(status),
    {
        if status == 0 {
            Ok(LibraryGuard)
        } else {
            Err(status)
        }
    }
}

/// The 16-bit word with `high` as its upper and `low` as its lower byte.
pub fn make_word(low: u8, high: u8) -> (word: u16)
    ensures
        word == high * 256 + low,
{
    let word = ((high as u16) << 8) | (low as u16);
    assert(((high as u16) << 8) | (low as u16) == high * 256 + low) by (bit_vector);
    word
}

/// The size of a buffer that holds the longest host name with its zero
/// byte, for a system that reports `limit` as the longest host name: one
/// more than the larger of `limit` and what every system allows, as far as
/// the machine can count.
pub open spec fn host_name_size(limit: i64) -> int {
    let longest = if POSIX_HOST_NAME_MAX <= limit <= usize::MAX {
        limit as int
    } else {
        POSIX_HOST_NAME_MAX as int
    };
    if longest < usize::MAX {
        longest + 1
    } else {
        usize::MAX as int
    }
}

/// The size of the first buffer for a host name. `limit` is what the system
/// reports as the longest host name; a negative one, as for "no limit" or
/// "unknown", does not count.
pub fn max_host_name_size(limit: i64) -> (size: usize)
    ensures
        size == host_name_size(limit),
{
    let longest: usize = if limit >= 255 && (limit as u64) <= (usize::MAX as u64) {
        limit as usize
    } else {
        POSIX_HOST_NAME_MAX
    };
    if longest < usize::MAX {
        longest + 1
    } else {
        usize::MAX
    }
}

/// The size of the first buffer for the name of an address, where the call
/// takes no buffer longer than `longest`.
pub fn first_name_info_size(limit: i64, longest: usize) -> (size: usize)
    ensures
        size == if host_name_size(limit) <= longest {
            host_name_size(limit)
        } else {
            longest as int
        },
{
    let size = max_host_name_size(limit);
    if size <= longest {
        size
    } else {
        longest
    }
}

/// `n` zero bytes.
pub open spec fn zeros(n: nat) -> Seq<u8> {
    Seq::new(n, |i: int| NUL)
}

/// Whether `buffer` holds a name: whether a zero byte stands in it.
pub open spec fn holds_name(buffer: Seq<u8>) -> bool {
    position(buffer, NUL) < buffer.len()
}

/// The name in `buffer`, ended by its zero byte: all up to and with the
/// first zero byte.
pub open spec fn name_in_buffer(buffer: Seq<u8>) -> Seq<u8> {
    buffer.subrange(0, position(buffer, NUL) + 1)
}

/// The buffer that follows `buffer` when it was too small.
pub open spec fn grown(buffer: Seq<u8>) -> Seq<u8> {
    buffer + zeros(BUFFER_GROWTH as nat)
}

/// Whether a buffer of `len` bytes can grow where no buffer may be longer
/// than `longest`.
pub open spec fn can_grow(len: nat, longest: usize) -> bool {
    len + BUFFER_GROWTH <= longest
}

/// What follows a call that was to fill a buffer with a name.
#[derive(Debug, PartialEq, Eq)]
pub enum Step<T, E> {
    /// The name is there.
    Done(T),
    /// The buffer was too small: call again with this one.
    Retry(Vec<u8>),
    /// There will be no name.
    Failed(E),
}

/// Takes the name out of a buffer that a call has filled: the bytes up to
/// and with the first zero byte. A buffer without a zero byte comes back as
/// it is.
pub fn take_name(buffer: Vec<u8>) -> (r: Result<Vec<u8>, Vec<u8>>)
    ensures
        match r {
            Ok(name) => holds_name(buffer@) && name@ == name_in_buffer(buffer@),
            Err(same) => !holds_name(buffer@) && same@ == buffer@,
        },
{
    match find(buffer.as_slice(), NUL) {
        Some(index) => {
            assert(index < buffer.len());
            let mut name = buffer;
            name.truncate(index + 1);
            Ok(name)
        },
        None => Err(buffer),
    }
}

/// The step after a buffer proved too small: a retry with the buffer grown,
/// or, where the grown buffer would be longer than `longest`, the end with
/// the failure `too_long`.
pub fn grow<T, E>(buffer: Vec<u8>, longest: usize, too_long: E) -> (r: Step<T, E>)
    ensures
        match r {
            Step::Done(_) => false,
            Step::Retry(next) => can_grow(buffer@.len(), longest) && next@ == grown(buffer@),
            Step::Failed(failure) => !can_grow(buffer@.len(), longest) && failure == too_long,
        },
{
    if longest < BUFFER_GROWTH || buffer.len() > longest - BUFFER_GROWTH {
        return Step::Failed(too_long);
    }
    let mut next = buffer;
    let mut added: usize = 0;
    while added < BUFFER_GROWTH
        invariant
            added <= BUFFER_GROWTH,
            buffer@.len() + BUFFER_GROWTH <= usize::MAX,
            next@ == buffer@ + zeros(added as nat),
        decreases BUFFER_GROWTH - added,
    {
        next.push(NUL);
        added += 1;
        assert(next@ =~= buffer@ + zeros(added as nat));
    }
    Step::Retry(next)
}

/// Whether a call for a name into `buffer` that ended with `error` has to
/// be made again with a longer buffer: the system said that the buffer was
/// too small, or it reported success and left no zero byte.
pub open spec fn name_cut_off(buffer: Seq<u8>, error: Option<i32>, name_too_long: i32) -> bool {
    match error {
        Some(number) => number == name_too_long,
        None => !holds_name(buffer),
    }
}

/// What follows a call for the host name of the system.
///
/// `error` is `None` where the call reported success, else the number of
/// its error. `name_too_long` is the number by which the system says that
/// the buffer was too small.
///
/// After a success the name is what the buffer holds up to its first zero
/// byte. Without a zero byte the name was cut off and the buffer has to
/// grow, as it has when the system said so. Any other error ends the matter
/// and is the system's own.
pub fn host_name(buffer: Vec<u8>, error: Option<i32>, name_too_long: i32) -> (r: Step<
    Vec<u8>,
    Failure<HostNameError>,
>)
    ensures
        match r {
            Step::Done(name) => error is None && holds_name(buffer@) && name@ == name_in_buffer(
                buffer@,
            ),
            Step::Retry(next) => name_cut_off(buffer@, error, name_too_long) && can_grow(
                buffer@.len(),
                usize::MAX,
            ) && next@ == grown(buffer@),
            Step::Failed(failure) => if name_cut_off(buffer@, error, name_too_long) {
                !can_grow(buffer@.len(), usize::MAX) && failure == Failure::Named(
                    HostNameError::HostNameTooLong,
                )
            } else {
                error is Some && failure == Failure::<HostNameError>::Io(IoFailure::Last)
            },
        },
{
    match error {
        Some(number) => {
            if number == name_too_long {
                grow(buffer, usize::MAX, Failure::Named(HostNameError::HostNameTooLong))
            } else {
                Step::Failed(Failure::Io(IoFailure::Last))
            }
        },
        None => match take_name(buffer) {
            Ok(name) => Step::Done(name),
            Err(buffer) => grow(buffer, usize::MAX, Failure::Named(HostNameError::HostNameTooLong)),
        },
    }
}

/// The name by which a system says that it has no domain name: `(none)`,
/// ended by a zero byte.
pub open spec fn none_marker() -> Seq<u8> {
    seq![0x28u8, 0x6eu8, 0x6fu8, 0x6eu8, 0x65u8, 0x29u8, NUL]
}

/// Whether `name` is the name by which a system says that it has no domain
/// name.
pub fn is_none_marker(name: &[u8]) -> (r: bool)
    ensures
        r == (name@ == none_marker()),
{
    let r = name.len() == 7 && name[0] == 0x28 && name[1] == 0x6e && name[2] == 0x6f && name[3]
        == 0x6e && name[4] == 0x65 && name[5] == 0x29 && name[6] == NUL;
    assert(r ==> name@ =~= none_marker());
    r
}

/// What follows a call for the domain name of the system.
///
/// `error` is `None` where the call reported success, else the number of
/// its error. `name_too_long` is the number by which the system says that
/// the buffer was too small, `longest` the longest buffer that the call
/// takes.
///
/// The steps are those for the host name. A system that has no domain name
/// gives `(none)` in its place: that name is not handed on.
pub fn domain_name(buffer: Vec<u8>, error: Option<i32>, name_too_long: i32, longest: usize) -> (r:
    Step<Option<Vec<u8>>, Failure<HostNameError>>)
    ensures
        match r {
            Step::Done(found) => error is None && holds_name(buffer@) && match found {
                Some(name) => name@ == name_in_buffer(buffer@) && name@ != none_marker(),
                None => name_in_buffer(buffer@) == none_marker(),
            },
            Step::Retry(next) => name_cut_off(buffer@, error, name_too_long) && can_grow(
                buffer@.len(),
                longest,
            ) && next@ == grown(buffer@),
            Step::Failed(failure) => if name_cut_off(buffer@, error, name_too_long) {
                !can_grow(buffer@.len(), longest) && failure == Failure::Named(
                    HostNameError::HostNameTooLong,
                )
            } else {
                error is Some && failure == Failure::<HostNameError>::Io(IoFailure::Last)
            },
        },
{
    match error {
        Some(number) => {
            if number == name_too_long {
                grow(buffer, longest, Failure::Named(HostNameError::HostNameTooLong))
            } else {
                Step::Failed(Failure::Io(IoFailure::Last))
            }
        },
        None => match take_name(buffer) {
            Ok(name) => {
                if is_none_marker(name.as_slice()) {
                    Step::Done(None)
                } else {
                    Step::Done(Some(name))
                }
            },
            Err(buffer) => grow(buffer, longest, Failure::Named(HostNameError::HostNameTooLong)),
        },
    }
}

/// The part of `name` before its first `.`; all of `name` if it holds none.
pub open spec fn short_name(name: Seq<u8>) -> Seq<u8> {
    name.subrange(0, position(name, DOT))
}

/// The short form of a host name: the name up to its first `.`.
pub fn short_host_name(host_name: &[u8]) -> (short: Vec<u8>)
    ensures
        short@ == short_name(host_name@),
{
    proof {
        lemma_position(host_name@, DOT);
    }
    match find(host_name, DOT) {
        Some(index) => prefix(host_name, index),
        None => prefix(host_name, host_name.len()),
    }
}

/// The length of the name that `name` starts with: the number of bytes
/// before the first zero byte.
pub open spec fn name_length(name: Seq<u8>) -> int {
    position(name, NUL)
}

/// The length to give for `host_name` in the call that sets the host name,
/// where the call takes no length beyond `longest`.
pub fn host_name_length(host_name: &[u8], longest: usize) -> (r: Result<usize, HostNameError>)
    ensures
        match r {
            Ok(length) => length == name_length(host_name@) && length <= longest,
            Err(e) => name_length(host_name@) > longest && e == HostNameError::HostNameTooLong,
        },
{
    let length = match find(host_name, NUL) {
        Some(index) => index,
        None => host_name.len(),
    };
    if length <= longest {
        Ok(length)
    } else {
        Err(HostNameError::HostNameTooLong)
    }
}

/// How the operating system answered the request to set a name.
#[derive(Debug, Clone, Copy, PartialEq, Eq, Structural)]
pub enum SetAnswer {
    /// The name is set.
    Done,
    /// The caller may not set the name.
    PermissionDenied,
    /// The system does not take the name.
    InvalidInput,
    /// Any other error.
    OtherError,
}

/// What the answer of the operating system to the request to set the host
/// name means: a refusal for want of permission is "denied", a refusal of
/// the name is "too long", any other error is the system's own.
pub fn set_host_name(answer: SetAnswer) -> (r: Result<(), Failure<HostNameError>>)
    ensures
        r == match answer {
            SetAnswer::Done => Ok::<(), Failure<HostNameError>>(()),
            SetAnswer::PermissionDenied => Err(Failure::Named(HostNameError::SetHostNameDenied)),
            SetAnswer::InvalidInput => Err(Failure::Named(HostNameError::HostNameTooLong)),
            SetAnswer::OtherError => Err(Failure::Io(IoFailure::Last)),
        },
{
    match answer {
        SetAnswer::Done => Ok(()),
        SetAnswer::PermissionDenied => Err(Failure::Named(HostNameError::SetHostNameDenied)),
        SetAnswer::InvalidInput => Err(Failure::Named(HostNameError::HostNameTooLong)),
        SetAnswer::OtherError => Err(Failure::Io(IoFailure::Last)),
    }
}

/// Whether a lookup of the name of an address into `buffer` that ended with
/// `status` has to be made again with a longer buffer: the resolver said
/// that the buffer was too small, or it reported success and left no zero
/// byte. `overflow` is the status by which the resolver says the former.
pub open spec fn lookup_cut_off(buffer: Seq<u8>, status: i32, overflow: i32) -> bool {
    status == overflow || (status == 0 && !holds_name(buffer))
}

/// What follows a lookup of the name of an address.
///
/// `status` is what the resolver returned, `overflow` the status by which
/// it says that the buffer was too small, `longest` the longest buffer that
/// the call takes.
///
/// Status 0 is success, and the name is what the buffer holds up to its
/// first zero byte: a lookup that answered 0 and left a zero byte never
/// fails. A buffer that was too small grows, up to `longest`. Any other
/// status, and no other, is the failure of the lookup.
pub fn get_name_info(buffer: Vec<u8>, status: i32, overflow: i32, longest: usize) -> (r: Step<
    Vec<u8>,
    HostNameError,
>)
    ensures
        match r {
            Step::Done(name) => status != overflow && status == 0 && holds_name(buffer@) && name@
                == name_in_buffer(buffer@),
            Step::Retry(next) => lookup_cut_off(buffer@, status, overflow) && can_grow(
                buffer@.len(),
                longest,
            ) && next@ == grown(buffer@),
            Step::Failed(failure) => if lookup_cut_off(buffer@, status, overflow) {
                !can_grow(buffer@.len(), longest) && failure == HostNameError::HostNameTooLong
            } else {
                status != 0 && failure == HostNameError::GetNameOrAddrInfo(
                    GetNameOrAddrInfoError(status),
                )
            },
        },
{
    if status == overflow {
        grow(buffer, longest, HostNameError::HostNameTooLong)
    } else if status == 0 {
        match take_name(buffer) {
            Ok(name) => Step::Done(name),
            Err(buffer) => grow(buffer, longest, HostNameError::HostNameTooLong),
        }
    } else {
        Step::Failed(HostNameError::GetNameOrAddrInfo(GetNameOrAddrInfoError(status)))
    }
}

/// One record of what a resolver gives for a host: the family of an
/// address, the address itself in the form in which name lookups take it,
/// and the canonical name of the host where the record holds it.
#[derive(Debug, PartialEq, Eq)]
pub struct AddressRecord {
    /// The number of the address family.
    pub family: i32,
    /// The bytes of the socket address.
    pub address: Vec<u8>,
    /// The canonical name of the host, where the record holds one.
    pub canonical_name: Option<Vec<u8>>,
}

/// What a resolver gave for a host name: its records, in the order of the
/// resolver.
#[derive(Debug, PartialEq, Eq)]
pub struct AddressInfo {
    /// The records.
    pub addresses: Vec<AddressRecord>,
}

/// The family of the addresses that a resolver is asked for.
#[derive(Debug, Clone, Copy, PartialEq, Eq, Structural)]
pub enum Family {
    /// Addresses of any family.
    Unspecified,
    /// IPv4 addresses.
    Inet,
    /// IPv6 addresses.
    Inet6,
}

/// The type of the sockets that a resolver is asked for.
#[derive(Debug, Clone, Copy, PartialEq, Eq, Structural)]
pub enum SocketType {
    /// Stream sockets.
    Stream,
    /// Datagram sockets.
    Datagram,
}

/// What a resolver is asked for a host name.
#[derive(Debug, Clone, Copy, PartialEq, Eq, Structural)]
pub struct Hints {
    /// The family of the addresses.
    pub family: Family,
    /// The type of the sockets.
    pub socket_type: SocketType,
    /// The number of the protocol, 0 for any.
    pub protocol: i32,
    /// Whether the canonical name of the host is asked for.
    pub canonical_name: bool,
}

impl AddressInfo {
    /// The canonical name of the host: the one that the first record
    /// holds, if there is a first record and it holds one.
    pub open spec fn canonical(self) -> Option<Seq<u8>> {
        if self.addresses@.len() > 0 {
            match self.addresses@[0].canonical_name {
                Some(name) => Some(name@),
                None => None,
            }
        } else {
            None
        }
    }

    /// What a resolution that ended with `status` means. `addresses` holds
    /// the records that the resolver gave.
    ///
    /// Status 0 with records is success. Status 0 without a record is
    /// answered as invalid data. Any other status is the failure of the
    /// resolution.
    pub fn new(status: i32, addresses: Vec<AddressRecord>) -> (r: Result<
        AddressInfo,
        Failure<HostNameError>,
    >)
        ensures
            r == if status != 0 {
                Err::<AddressInfo, Failure<HostNameError>>(
                    Failure::Named(
                        HostNameError::GetNameOrAddrInfo(GetNameOrAddrInfoError(status)),
                    ),
                )
            } else if addresses@.len() == 0 {
                Err(Failure::Io(IoFailure::InvalidData))
            } else {
                Ok(AddressInfo { addresses })
            },
    {
        if status != 0 {
            Err(Failure::Named(HostNameError::GetNameOrAddrInfo(GetNameOrAddrInfoError(status))))
        } else if addresses.len() == 0 {
            Err(Failure::Io(IoFailure::InvalidData))
        } else {
            Ok(AddressInfo { addresses })
        }
    }

    /// The first record, if there is one.
    pub fn first(&self) -> (r: Option<&AddressRecord>)
        ensures
            r == if self.addresses@.len() > 0 {
                Some(&self.addresses@[0])
            } else {
                None
            },
    {
        if self.addresses.len() > 0 {
            Some(&self.addresses[0])
        } else {
            None
        }
    }

    /// The canonical name of the host: the one that the first record
    /// holds. No later record is asked.
    pub fn canonical_name(&self) -> (r: Option<&Vec<u8>>)
        ensures
            self.canonical() == match r {
                Some(name) => Some(name@),
                None => None,
            },
    {
        match self.first() {
            Some(record) => match &record.canonical_name {
                Some(name) => Some(name),
                None => None,
            },
            None => None,
        }
    }
}

/// Whether the first byte of an IPv6 address marks a multicast address.
pub open spec fn is_multicast(addr: Seq<u8>) -> bool {
    addr[0] == 0xff
}

/// Whether an IPv6 address is a link-local unicast address: one of
/// `fe80::/10`, that is, the first byte is `fe` and the second has `10` as
/// its two highest bits.
pub open spec fn is_link_local(addr: Seq<u8>) -> bool {
    addr[0] == 0xfe && 0x80 <= addr[1] <= 0xbf
}

/// Whether an IPv6 address is a link-local multicast address: the first
/// byte is `ff` and the lower half of the second byte, the scope, is 2.
pub open spec fn is_multicast_link_local(addr: Seq<u8>) -> bool {
    is_multicast(addr) && addr[1] % 16 == 2
}

/// Whether `addr` is an IPv6 multicast address.
pub fn in6_is_addr_multicast(addr: &[u8; 16]) -> (r: bool)
    ensures
        r == is_multicast(addr@),
{
    addr[0] == 0xff
}

/// Whether `addr` is an IPv6 link-local unicast address.
pub fn in6_is_addr_linklocal(addr: &[u8; 16]) -> (r: bool)
    ensures
        r == is_link_local(addr@),
{
    let second = addr[1];
    assert(((second & 0xc0) == 0x80) == (0x80 <= second <= 0xbf)) by (bit_vector);
    addr[0] == 0xfe && ((second & 0xc0) == 0x80)
}

/// Whether `addr` is an IPv6 link-local multicast address.
pub fn in6_is_addr_mc_linklocal(addr: &[u8; 16]) -> (r: bool)
    ensures
        r == is_multicast_link_local(addr@),
{
    let second = addr[1];
    assert(((second & 0xf) == 0x2) == (second % 16 == 2)) by (bit_vector);
    in6_is_addr_multicast(addr) && ((second & 0xf) == 0x2)
}

} // verus!
