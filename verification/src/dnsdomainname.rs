//! The decisions of the DNS domain name utility, which shows the domain
//! part of the canonical name of the host.

use vstd::prelude::*;

use crate::errors::IoFailure;
use crate::net::{AddressInfo, AddressRecord};
use crate::print::{OutputMode, Request};

verus! {

/// The kind of system that the utility runs on.
#[derive(Debug, Clone, Copy, PartialEq, Eq, Structural)]
pub enum Platform {
    /// A system that names its hosts as POSIX says.
    PosixLike,
    /// A system that names its computers as Windows does.
    WindowsLike,
}

/// What the command line of the DNS domain name utility asks for: the
/// domain of the host, whether or not it asks for it verbosely. On a system
/// like Windows the utility is not supported.
pub fn request(verbose: bool, platform: Platform) -> (r: Result<Request, IoFailure>)
    ensures
        r == match platform {
            Platform::PosixLike => Ok::<Request, IoFailure>(Request::Print(OutputMode::Domain)),
            Platform::WindowsLike => Err(IoFailure::Unsupported),
        },
{
    match platform {
        Platform::PosixLike => Ok(Request::Print(OutputMode::Domain)),
        Platform::WindowsLike => Err(IoFailure::Unsupported),
    }
}

/// What a resolution that ended with `status` means. `addresses` holds the
/// records that the resolver gave.
///
/// Status 0 with records is success. Status 0 without a record is answered
/// as invalid data. Any other status is reported as the error that the
/// system has under that number.
pub fn address_info(status: i32, addresses: Vec<AddressRecord>) -> (r: Result<
    AddressInfo,
    IoFailure,
>)
    ensures
        r == if status != 0 {
            Err::<AddressInfo, IoFailure>(IoFailure::Raw(status))
        } else if addresses@.len() == 0 {
            Err(IoFailure::InvalidData)
        } else {
            Ok(AddressInfo { addresses })
        },
{
    if status != 0 {
        Err(IoFailure::Raw(status))
    } else if addresses.len() == 0 {
        Err(IoFailure::InvalidData)
    } else {
        Ok(AddressInfo { addresses })
    }
}

} // verus!
