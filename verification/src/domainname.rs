//! The decisions of the domain name utility, which shows or sets the NIS
//! domain name of the system.

use vstd::prelude::*;

use crate::ascii::NUL;
use crate::bytes::find;
use crate::errors::{DomainNameError, Failure, IoFailure};
use crate::net::{
    can_grow, grow, grown, holds_name, name_cut_off, name_in_buffer, name_length, take_name,
    SetAnswer, Step,
};
use crate::print::{line, print_line, OutputMode, Request};

verus! {

/// What the command line of the domain name utility asks for. `file` and
/// `domain_name` say whether a file and a name were given to set the name
/// from; a file comes first. Without either the domain name is shown.
pub fn request(file: bool, domain_name: bool) -> (r: Request)
    ensures
        r == if file {
            Request::SetFromFile
        } else if domain_name {
            Request::SetFromArgument
        } else {
            Request::Print(OutputMode::Nis)
        },
{
    if file {
        Request::SetFromFile
    } else if domain_name {
        Request::SetFromArgument
    } else {
        Request::Print(OutputMode::Nis)
    }
}

/// What follows a call for the domain name of the system.
///
/// `error` is `None` where the call reported success, else the number of
/// its error. `name_too_long` is the number by which the system says that
/// the buffer was too small, `longest` the longest buffer that the call
/// takes.
///
/// After a success the name is what the buffer holds up to its first zero
/// byte, whatever it is. Without a zero byte the name was cut off and the
/// buffer has to grow, as it has when the system said so. Any other error
/// ends the matter and is the system's own.
pub fn domain_name(buffer: Vec<u8>, error: Option<i32>, name_too_long: i32, longest: usize) -> (r:
    Step<Option<Vec<u8>>, Failure<DomainNameError>>)
    ensures
        match r {
            Step::Done(found) => error is None && holds_name(buffer@) && (found matches Some(name)
                && name@ == name_in_buffer(buffer@)),
            Step::Retry(next) => name_cut_off(buffer@, error, name_too_long) && can_grow(
                buffer@.len(),
                longest,
            ) && next@ == grown(buffer@),
            Step::Failed(failure) => if name_cut_off(buffer@, error, name_too_long) {
                !can_grow(buffer@.len(), longest) && failure == Failure::Named(
                    DomainNameError::DomainNameTooLong,
                )
            } else {
                error is Some && failure == Failure::<DomainNameError>::Io(IoFailure::Last)
            },
        },
{
    match error {
        Some(number) => {
            if number == name_too_long {
                grow(buffer, longest, Failure::Named(DomainNameError::DomainNameTooLong))
            } else {
                Step::Failed(Failure::Io(IoFailure::Last))
            }
        },
        None => match take_name(buffer) {
            Ok(name) => Step::Done(Some(name)),
            Err(buffer) => grow(buffer, longest, Failure::Named(DomainNameError::DomainNameTooLong)),
        },
    }
}

/// The length to give for `domain_name` in the call that sets the domain
/// name, where the call takes no length beyond `longest`.
pub fn domain_name_length(domain_name: &[u8], longest: usize) -> (r: Result<
    usize,
    DomainNameError,
>)
    ensures
        match r {
            Ok(length) => length == name_length(domain_name@) && length <= longest,
            Err(e) => name_length(domain_name@) > longest && e
                == DomainNameError::DomainNameTooLong,
        },
{
    let length = match find(domain_name, NUL) {
        Some(index) => index,
        None => domain_name.len(),
    };
    if length <= longest {
        Ok(length)
    } else {
        Err(DomainNameError::DomainNameTooLong)
    }
}

/// What the answer of the operating system to the request to set the
/// domain name means: a refusal for want of permission is "denied", a
/// refusal of the name is "too long", any other error is the system's own.
pub fn set_domain_name(answer: SetAnswer) -> (r: Result<(), Failure<DomainNameError>>)
    ensures
        r == match answer {
            SetAnswer::Done => Ok::<(), Failure<DomainNameError>>(()),
            SetAnswer::PermissionDenied => Err(
                Failure::Named(DomainNameError::SetDomainNameDenied),
            ),
            SetAnswer::InvalidInput => Err(Failure::Named(DomainNameError::DomainNameTooLong)),
            SetAnswer::OtherError => Err(Failure::Io(IoFailure::Last)),
        },
{
    match answer {
        SetAnswer::Done => Ok(()),
        SetAnswer::PermissionDenied => Err(Failure::Named(DomainNameError::SetDomainNameDenied)),
        SetAnswer::InvalidInput => Err(Failure::Named(DomainNameError::DomainNameTooLong)),
        SetAnswer::OtherError => Err(Failure::Io(IoFailure::Last)),
    }
}

/// The line with the domain name. That the system has none is a failure.
pub fn print_domain_name(domain_name: Option<&[u8]>) -> (r: Result<Vec<u8>, DomainNameError>)
    ensures
        match r {
            Ok(out) => domain_name matches Some(name) && out@ == line(name@),
            Err(e) => domain_name is None && e == DomainNameError::NoLocalDomainName,
        },
{
    match domain_name {
        Some(name) => Ok(print_line(name)),
        None => Err(DomainNameError::NoLocalDomainName),
    }
}

} // verus!
