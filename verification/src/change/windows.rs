//! Names of UTF-16 code units, ended by a zero.

use vstd::prelude::*;

use crate::change::unix;
use crate::errors::{DomainNameError, HostNameError};
use crate::name_file::{name_in_file, parse_domain_name_file, parse_host_name_file};
use crate::syntax::{trimmed, valid_name};
use crate::wide::{
    is_valid_wide_name, lemma_bytes_and_wide_agree, trim_wide, valid_wide_name, widen,
    wide_terminated, wide_trimmed, widened,
};

verus! {

/// Checks a host name that has been trimmed already. A name that breaks a
/// rule is refused and nothing else is.
pub fn validate_host_name(host_name: &[u16]) -> (r: Result<(), HostNameError>)
    ensures
        match r {
            Ok(_) => valid_wide_name(host_name@),
            Err(e) => !valid_wide_name(host_name@) && e == HostNameError::InvalidHostName,
        },
{
    if is_valid_wide_name(host_name) {
        Ok(())
    } else {
        Err(HostNameError::InvalidHostName)
    }
}

/// Checks a domain name that has been trimmed already. A name that breaks a
/// rule is refused and nothing else is.
pub fn validate_domain_name(domain_name: &[u16]) -> (r: Result<(), DomainNameError>)
    ensures
        match r {
            Ok(_) => valid_wide_name(domain_name@),
            Err(e) => !valid_wide_name(domain_name@) && e == DomainNameError::InvalidDomainName,
        },
{
    if is_valid_wide_name(domain_name) {
        Ok(())
    } else {
        Err(DomainNameError::InvalidDomainName)
    }
}

/// What to hand to the operating system for a host name given as an
/// argument: the argument trimmed and ended by a zero, if what is left after
/// trimming is a valid name.
pub fn host_name_from_argument(host_name: &[u16]) -> (r: Result<Vec<u16>, HostNameError>)
    ensures
        match r {
            Ok(name) => valid_wide_name(wide_trimmed(host_name@)) && name@ == wide_terminated(
                wide_trimmed(host_name@),
            ),
            Err(e) => !valid_wide_name(wide_trimmed(host_name@)) && e
                == HostNameError::InvalidHostName,
        },
{
    let mut name = trim_wide(host_name);
    match validate_host_name(name.as_slice()) {
        Ok(_) => {
            name.push(0u16);
            Ok(name)
        },
        Err(e) => Err(e),
    }
}

/// What to hand to the operating system for a domain name given as an
/// argument: the argument trimmed and ended by a zero, if what is left after
/// trimming is a valid name.
pub fn domain_name_from_argument(domain_name: &[u16]) -> (r: Result<Vec<u16>, DomainNameError>)
    ensures
        match r {
            Ok(name) => valid_wide_name(wide_trimmed(domain_name@)) && name@ == wide_terminated(
                wide_trimmed(domain_name@),
            ),
            Err(e) => !valid_wide_name(wide_trimmed(domain_name@)) && e
                == DomainNameError::InvalidDomainName,
        },
{
    let mut name = trim_wide(domain_name);
    match validate_domain_name(name.as_slice()) {
        Ok(_) => {
            name.push(0u16);
            Ok(name)
        },
        Err(e) => Err(e),
    }
}

/// What to hand to the operating system for a host name given as bytes of
/// text in UTF-8, as a file holds it: the name trimmed, in UTF-16 and ended
/// by a zero, if what is left after trimming is a valid name.
///
/// A byte beyond ASCII belongs to no valid name, whatever text it is part
/// of. So the bytes are judged as they stand, and only a valid name, which
/// is ASCII, is turned into code units.
pub fn host_name_from_bytes(host_name: &[u8]) -> (r: Result<Vec<u16>, HostNameError>)
    ensures
        match r {
            Ok(name) => valid_name(trimmed(host_name@)) && name@ == wide_terminated(
                widened(trimmed(host_name@)),
            ),
            Err(e) => !valid_name(trimmed(host_name@)) && e == HostNameError::InvalidHostName,
        },
{
    match unix::host_name_from_argument(host_name) {
        Ok(name) => {
            let wide = widen(name.as_slice());
            assert(wide@ =~= wide_terminated(widened(trimmed(host_name@))));
            Ok(wide)
        },
        Err(e) => Err(e),
    }
}

/// What to hand to the operating system for a domain name given as bytes
/// of text in UTF-8, as a file holds it. The bytes are judged as for a host
/// name.
pub fn domain_name_from_bytes(domain_name: &[u8]) -> (r: Result<Vec<u16>, DomainNameError>)
    ensures
        match r {
            Ok(name) => valid_name(trimmed(domain_name@)) && name@ == wide_terminated(
                widened(trimmed(domain_name@)),
            ),
            Err(e) => !valid_name(trimmed(domain_name@)) && e
                == DomainNameError::InvalidDomainName,
        },
{
    match unix::domain_name_from_argument(domain_name) {
        Ok(name) => {
            let wide = widen(name.as_slice());
            assert(wide@ =~= wide_terminated(widened(trimmed(domain_name@))));
            Ok(wide)
        },
        Err(e) => Err(e),
    }
}

/// What to hand to the operating system for the host name that a file with
/// these contents holds.
pub fn host_name_from_file(contents: &[u8]) -> (r: Result<Vec<u16>, HostNameError>)
    ensures
        match r {
            Ok(name) => valid_name(trimmed(name_in_file(contents@))) && name@ == wide_terminated(
                widened(trimmed(name_in_file(contents@))),
            ),
            Err(e) => !valid_name(trimmed(name_in_file(contents@))) && e
                == HostNameError::InvalidHostName,
        },
{
    let raw = parse_host_name_file(contents);
    host_name_from_bytes(raw.as_slice())
}

/// What to hand to the operating system for the domain name that a file
/// with these contents holds.
pub fn domain_name_from_file(contents: &[u8]) -> (r: Result<Vec<u16>, DomainNameError>)
    ensures
        match r {
            Ok(name) => valid_name(trimmed(name_in_file(contents@))) && name@ == wide_terminated(
                widened(trimmed(name_in_file(contents@))),
            ),
            Err(e) => !valid_name(trimmed(name_in_file(contents@))) && e
                == DomainNameError::InvalidDomainName,
        },
{
    let raw = parse_domain_name_file(contents);
    domain_name_from_bytes(raw.as_slice())
}

/// A name from a file is accepted in UTF-16 exactly when the same bytes as
/// an argument are accepted as bytes, and what is handed on is the same name.
pub proof fn lemma_file_name_as_wide(raw: Seq<u8>)
    ensures
        valid_wide_name(wide_trimmed(widened(raw))) == valid_name(trimmed(raw)),
        wide_terminated(wide_trimmed(widened(raw))) == wide_terminated(widened(trimmed(raw))),
{
    lemma_bytes_and_wide_agree(raw);
    lemma_bytes_and_wide_agree(trimmed(raw));
}

} // verus!
