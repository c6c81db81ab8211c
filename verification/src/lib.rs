//! Verified core of the host name and domain name utilities: the syntax of
//! names, the reading of name files, and the decisions behind each way of
//! presenting a host's names and addresses.

pub mod ascii;
pub mod bytes;
pub mod change;
pub mod dnsdomainname;
pub mod domainname;
pub mod errors;
pub mod interfaces;
pub mod name_file;
pub mod net;
pub mod print;
pub mod syntax;
pub mod wide;
