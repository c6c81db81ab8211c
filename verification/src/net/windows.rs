//! The decisions around the calls into an operating system that gives its
//! names as UTF-16 and says how much room a call needs.

use vstd::prelude::*;

use crate::ascii::DOT;
use crate::bytes::{find_unit, lemma_position, position};
use crate::errors::IoFailure;
use crate::net::{AddressInfo, AddressRecord, SetAnswer, BUFFER_GROWTH};

verus! {

/// The first capacity of a buffer for a computer name.
pub const COMPUTER_NAME_CAPACITY: usize = 256;

/// The first size of a buffer for the name of an address.
pub const NAME_INFO_BUFFER_SIZE: usize = 1025;

/// The first capacity of a buffer for the addresses of the adapters.
pub const ADAPTERS_CAPACITY: usize = 32768;

/// What follows a call that fills a buffer and says how much it filled or
/// needs.
#[derive(Debug, Clone, Copy, PartialEq, Eq, Structural)]
pub enum CapacityStep {
    /// The buffer holds this many items; `None` where there is nothing.
    Done(Option<usize>),
    /// The buffer was too small: make room for this many more items and
    /// call again.
    Reserve(usize),
    /// The call failed for good.
    Failed(IoFailure),
}

/// What follows a call that was to fill a buffer with a name in UTF-16.
#[derive(Debug, PartialEq, Eq)]
pub enum WideStep {
    /// The name, without a zero at its end.
    Done(Vec<u16>),
    /// The buffer was too small: call again with this one.
    Retry(Vec<u16>),
    /// There will be no name.
    Failed(IoFailure),
}

/// The numbers by which the list of adapters is answered.
#[derive(Debug, Clone, Copy, PartialEq, Eq, Structural)]
pub struct AdaptersCodes {
    /// There are no addresses.
    pub no_data: u32,
    /// The buffer was too small.
    pub buffer_overflow: u32,
    /// The buffer is filled.
    pub success: u32,
}

/// The numbers by which a request to set a name is refused.
#[derive(Debug, Clone, Copy, PartialEq, Eq, Structural)]
pub struct SetCodes {
    /// The caller may not set the name.
    pub access_denied: u32,
    /// The system does not take the name.
    pub invalid_parameter: u32,
    /// The system does not take the name.
    pub invalid_name: u32,
}

/// How many more items a buffer of `capacity` items needs to hold `needed`.
pub open spec fn missing(needed: u32, capacity: usize) -> int {
    if needed > capacity {
        needed - capacity
    } else {
        0
    }
}

/// The capacity to state in a call that takes it as 32 bits. A buffer of a
/// larger capacity is answered as the error that the system has under
/// `name_too_long`.
pub fn capacity_for_call(capacity: usize, name_too_long: i32) -> (r: Result<u32, IoFailure>)
    ensures
        r == if capacity <= u32::MAX {
            Ok::<u32, IoFailure>(capacity as u32)
        } else {
            Err(IoFailure::Raw(name_too_long))
        },
{
    if capacity <= u32::MAX as usize {
        Ok(capacity as u32)
    } else {
        Err(IoFailure::Raw(name_too_long))
    }
}

/// What follows a call for a name of the computer into a buffer of
/// `capacity` items.
///
/// `error` is `None` where the call reported success, else the number of
/// its error; `more_data` is the number by which the system says that the
/// buffer was too small. `reported` is the number that the call left: the
/// length of the name after a success, the room needed after "more data".
pub fn get_computer_name_ex_w(error: Option<i32>, more_data: i32, reported: u32, capacity: usize) -> (r:
    CapacityStep)
    ensures
        r == match error {
            None => CapacityStep::Done(Some(reported as usize)),
            Some(number) => if number == more_data {
                CapacityStep::Reserve(missing(reported, capacity) as usize)
            } else {
                CapacityStep::Failed(IoFailure::Last)
            },
        },
{
    match error {
        None => CapacityStep::Done(Some(reported as usize)),
        Some(number) => {
            if number == more_data {
                let needed = reported as usize;
                if needed > capacity {
                    CapacityStep::Reserve(needed - capacity)
                } else {
                    CapacityStep::Reserve(0)
                }
            } else {
                CapacityStep::Failed(IoFailure::Last)
            }
        },
    }
}

/// The domain name of the computer, if it has one: an empty name says that
/// it has none.
pub fn domain_name(name: Vec<u16>) -> (r: Option<Vec<u16>>)
    ensures
        match r {
            Some(same) => name@.len() > 0 && same@ == name@,
            None => name@.len() == 0,
        },
{
    if name.len() > 0 {
        Some(name)
    } else {
        None
    }
}

/// The part of `name` before its first `.`; all of `name` if it holds none.
pub open spec fn short_wide_name(name: Seq<u16>) -> Seq<u16> {
    name.subrange(0, position(name, DOT as u16))
}

/// The short form of a host name: the name up to its first `.`.
pub fn short_host_name(host_name: &[u16]) -> (short: Vec<u16>)
    ensures
        short@ == short_wide_name(host_name@),
{
    proof {
        lemma_position(host_name@, DOT as u16);
    }
    let end = match find_unit(host_name, DOT as u16) {
        Some(index) => index,
        None => host_name.len(),
    };
    let mut short: Vec<u16> = Vec::new();
    let mut i: usize = 0;
    while i < end
        invariant
            i <= end <= host_name@.len(),
            short@ == host_name@.subrange(0, i as int),
        decreases end - i,
    {
        short.push(host_name[i]);
        i += 1;
        assert(short@ =~= host_name@.subrange(0, i as int));
    }
    short
}

/// What the outcome of the request to set a name means. `error` is `None`
/// where the call reported success, else the number of its error.
pub fn set_answer(error: Option<u32>, codes: &SetCodes) -> (answer: SetAnswer)
    ensures
        answer == match error {
            None => SetAnswer::Done,
            Some(number) => if number == codes.access_denied {
                SetAnswer::PermissionDenied
            } else if number == codes.invalid_parameter || number == codes.invalid_name {
                SetAnswer::InvalidInput
            } else {
                SetAnswer::OtherError
            },
        },
{
    match error {
        None => SetAnswer::Done,
        Some(number) => {
            if number == codes.access_denied {
                SetAnswer::PermissionDenied
            } else if number == codes.invalid_parameter || number == codes.invalid_name {
                SetAnswer::InvalidInput
            } else {
                SetAnswer::OtherError
            }
        },
    }
}

/// The size of a socket address for a call that takes it as a signed
/// number of 32 bits. A larger size is answered as invalid input.
pub fn address_size_for_call(size: usize) -> (r: Result<i32, IoFailure>)
    ensures
        r == if size <= i32::MAX {
            Ok::<i32, IoFailure>(size as i32)
        } else {
            Err(IoFailure::InvalidInput)
        },
{
    if size <= i32::MAX as usize {
        Ok(size as i32)
    } else {
        Err(IoFailure::InvalidInput)
    }
}

/// What a resolution that ended with `status` means. `addresses` holds the
/// records that the resolver gave.
///
/// Status 0 with records is success. Status 0 without a record is answered
/// as invalid data. Any other status is the failure of the resolution,
/// reported as the error that the call left behind.
pub fn address_info(status: i32, addresses: Vec<AddressRecord>) -> (r: Result<
    AddressInfo,
    IoFailure,
>)
    ensures
        r == if status != 0 {
            Err::<AddressInfo, IoFailure>(IoFailure::Last)
        } else if addresses@.len() == 0 {
            Err(IoFailure::InvalidData)
        } else {
            Ok(AddressInfo { addresses })
        },
{
    if status != 0 {
        Err(IoFailure::Last)
    } else if addresses.len() == 0 {
        Err(IoFailure::InvalidData)
    } else {
        Ok(AddressInfo { addresses })
    }
}

/// `n` zero code units.
pub open spec fn wide_zeros(n: nat) -> Seq<u16> {
    Seq::new(n, |i: int| 0u16)
}

/// Whether a lookup of the name of an address into `buffer` that ended with
/// `status` has to be made again with a longer buffer: the system said that
/// the buffer was too small, by `no_buffers` or by `name_too_long`, or it
/// reported success and left no zero.
pub open spec fn wide_lookup_cut_off(
    buffer: Seq<u16>,
    status: i32,
    no_buffers: i32,
    name_too_long: i32,
) -> bool {
    status == no_buffers || status == name_too_long || (status == 0 && position(buffer, 0u16)
        == buffer.len())
}

/// What follows a lookup of the name of an address.
///
/// `status` is what the call returned; `no_buffers` and `name_too_long`
/// are the two numbers by which the system says that the buffer was too
/// small.
///
/// Status 0 is success, and the name is what the buffer holds before its
/// first zero. A buffer that was too small grows, as long as its length
/// fits in 32 bits; beyond that the answer is the error that the system has
/// under `name_too_long`. Any other status is the failure of the lookup,
/// reported as the error that the call left behind.
pub fn get_name_info(buffer: Vec<u16>, status: i32, no_buffers: i32, name_too_long: i32) -> (r:
    WideStep)
    ensures
        match r {
            WideStep::Done(name) => !wide_lookup_cut_off(
                buffer@,
                status,
                no_buffers,
                name_too_long,
            ) && status == 0 && name@ == buffer@.subrange(0, position(buffer@, 0u16)),
            WideStep::Retry(next) => wide_lookup_cut_off(buffer@, status, no_buffers, name_too_long)
                && buffer@.len() + BUFFER_GROWTH <= u32::MAX && next@ == buffer@ + wide_zeros(
                BUFFER_GROWTH as nat,
            ),
            WideStep::Failed(failure) => if wide_lookup_cut_off(
                buffer@,
                status,
                no_buffers,
                name_too_long,
            ) {
                buffer@.len() + BUFFER_GROWTH > u32::MAX && failure == IoFailure::Raw(name_too_long)
            } else {
                status != 0 && failure == IoFailure::Last
            },
        },
{
    proof {
        lemma_position(buffer@, 0u16);
    }
    if status != no_buffers && status != name_too_long {
        if status != 0 {
            return WideStep::Failed(IoFailure::Last);
        }
        match find_unit(buffer.as_slice(), 0u16) {
            Some(index) => {
                let mut name = buffer;
                name.truncate(index);
                return WideStep::Done(name);
            },
            None => {},
        }
    }
    if buffer.len() > u32::MAX as usize - BUFFER_GROWTH {
        return WideStep::Failed(IoFailure::Raw(name_too_long));
    }
    let mut next = buffer;
    let mut added: usize = 0;
    while added < BUFFER_GROWTH
        invariant
            added <= BUFFER_GROWTH,
            buffer@.len() + BUFFER_GROWTH <= u32::MAX,
            next@ == buffer@ + wide_zeros(added as nat),
        decreases BUFFER_GROWTH - added,
    {
        next.push(0u16);
        added += 1;
        assert(next@ =~= buffer@ + wide_zeros(added as nat));
    }
    WideStep::Retry(next)
}

/// The size to state in the call for the addresses of the adapters, which
/// takes it as 32 bits: the capacity of the buffer, as far as 32 bits can
/// say it.
pub fn size_for_call(capacity: usize) -> (size: u32)
    ensures
        size == if capacity <= u32::MAX {
            capacity as int
        } else {
            u32::MAX as int
        },
{
    if capacity <= u32::MAX as usize {
        capacity as u32
    } else {
        u32::MAX
    }
}

/// `status` as the number of an error of the system.
pub open spec fn as_error_number(status: u32) -> i32 {
    if status <= i32::MAX {
        status as i32
    } else {
        (status - 0x1_0000_0000) as i32
    }
}

/// What follows a call for the addresses of the adapters into a buffer of
/// `capacity` bytes.
///
/// `status` is what the call returned, `reported` the size that it left:
/// the size of what it wrote after a success, the size needed after "buffer
/// overflow". "No data" and a size of zero mean that there are no
/// addresses. Any other status is the error that the system has under that
/// number.
pub fn get_adapters_addresses(status: u32, codes: &AdaptersCodes, reported: u32, capacity: usize) -> (r:
    CapacityStep)
    ensures
        r == if status == codes.no_data {
            CapacityStep::Done(None)
        } else if status == codes.buffer_overflow {
            if reported == 0 {
                CapacityStep::Done(None)
            } else {
                CapacityStep::Reserve(missing(reported, capacity) as usize)
            }
        } else if status == codes.success {
            if reported == 0 {
                CapacityStep::Done(None)
            } else {
                CapacityStep::Done(Some(reported as usize))
            }
        } else {
            CapacityStep::Failed(IoFailure::Raw(as_error_number(status)))
        },
{
    if status == codes.no_data {
        CapacityStep::Done(None)
    } else if status == codes.buffer_overflow {
        if reported == 0 {
            CapacityStep::Done(None)
        } else {
            let needed = reported as usize;
            if needed > capacity {
                CapacityStep::Reserve(needed - capacity)
            } else {
                CapacityStep::Reserve(0)
            }
        }
    } else if status == codes.success {
        if reported == 0 {
            CapacityStep::Done(None)
        } else {
            CapacityStep::Done(Some(reported as usize))
        }
    } else {
        let number: i32 = if status <= 0x7fff_ffff {
            status as i32
        } else {
            ((status - 0x8000_0000) as i32) - 0x7fff_ffff - 1
        };
        CapacityStep::Failed(IoFailure::Raw(number))
    }
}

} // verus!
