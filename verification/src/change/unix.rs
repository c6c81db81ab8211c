//! Names of bytes, ended by a zero byte.

use vstd::prelude::*;

use crate::ascii::NUL;
use crate::errors::{DomainNameError, HostNameError};
use crate::name_file::{name_in_file, parse_domain_name_file, parse_host_name_file};
use crate::syntax::{is_valid_name, terminated, trim_ascii, trimmed, valid_name};

verus! {

/// Checks a host name that has been trimmed already and ends it with a zero
/// byte. A name that breaks a rule is refused and nothing else is.
pub fn validate_host_name(host_name: Vec<u8>) -> (r: Result<Vec<u8>, HostNameError>)
    ensures
        match r {
            Ok(name) => valid_name(host_name@) && name@ == terminated(host_name@),
            Err(e) => !valid_name(host_name@) && e == HostNameError::InvalidHostName,
        },
{
    if !is_valid_name(host_name.as_slice()) {
        return Err(HostNameError::InvalidHostName);
    }
    let mut host_name = host_name;
    host_name.push(NUL);
    Ok(host_name)
}

/// Checks a domain name that has been trimmed already and ends it with a
/// zero byte. A name that breaks a rule is refused and nothing else is.
pub fn validate_domain_name(domain_name: Vec<u8>) -> (r: Result<Vec<u8>, DomainNameError>)
    ensures
        match r {
            Ok(name) => valid_name(domain_name@) && name@ == terminated(domain_name@),
            Err(e) => !valid_name(domain_name@) && e == DomainNameError::InvalidDomainName,
        },
{
    if !is_valid_name(domain_name.as_slice()) {
        return Err(DomainNameError::InvalidDomainName);
    }
    let mut domain_name = domain_name;
    domain_name.push(NUL);
    Ok(domain_name)
}

/// What to hand to the operating system for a host name given as an
/// argument: the argument trimmed and ended by a zero byte, if what is left
/// after trimming is a valid name.
pub fn host_name_from_argument(host_name: &[u8]) -> (r: Result<Vec<u8>, HostNameError>)
    ensures
        match r {
            Ok(name) => valid_name(trimmed(host_name@)) && name@ == terminated(
                trimmed(host_name@),
            ),
            Err(e) => !valid_name(trimmed(host_name@)) && e == HostNameError::InvalidHostName,
        },
{
    validate_host_name(trim_ascii(host_name))
}

/// What to hand to the operating system for a domain name given as an
/// argument: the argument trimmed and ended by a zero byte, if what is left
/// after trimming is a valid name.
pub fn domain_name_from_argument(domain_name: &[u8]) -> (r: Result<Vec<u8>, DomainNameError>)
    ensures
        match r {
            Ok(name) => valid_name(trimmed(domain_name@)) && name@ == terminated(
                trimmed(domain_name@),
            ),
            Err(e) => !valid_name(trimmed(domain_name@)) && e
                == DomainNameError::InvalidDomainName,
        },
{
    validate_domain_name(trim_ascii(domain_name))
}

/// What to hand to the operating system for the host name that a file with
/// these contents holds.
pub fn host_name_from_file(contents: &[u8]) -> (r: Result<Vec<u8>, HostNameError>)
    ensures
        match r {
            Ok(name) => valid_name(trimmed(name_in_file(contents@))) && name@ == terminated(
                trimmed(name_in_file(contents@)),
            ),
            Err(e) => !valid_name(trimmed(name_in_file(contents@))) && e
                == HostNameError::InvalidHostName,
        },
{
    let raw = parse_host_name_file(contents);
    host_name_from_argument(raw.as_slice())
}

/// What to hand to the operating system for the domain name that a file
/// with these contents holds.
pub fn domain_name_from_file(contents: &[u8]) -> (r: Result<Vec<u8>, DomainNameError>)
    ensures
        match r {
            Ok(name) => valid_name(trimmed(name_in_file(contents@))) && name@ == terminated(
                trimmed(name_in_file(contents@)),
            ),
            Err(e) => !valid_name(trimmed(name_in_file(contents@))) && e
                == DomainNameError::InvalidDomainName,
        },
{
    let raw = parse_domain_name_file(contents);
    domain_name_from_argument(raw.as_slice())
}

} // verus!
