use hostname::change::unix::{domain_name_from_argument, domain_name_from_file};
use hostname::domainname::set_domain_name;
use hostname::errors::{DomainNameError, Failure};
use hostname::net::SetAnswer;

/// What the utility writes to standard error when it ends with `failure`.
fn stderr_of(failure: Failure<DomainNameError>) -> String {
    match failure {
        Failure::Named(error) => error.message(),
        Failure::Io(failure) => format!("{failure:?}"),
    }
}

#[test]
fn test_set_domainname_without_superuser() {
    let name = domain_name_from_argument(b"random-domainname").unwrap();
    assert_eq!(name, b"random-domainname\0".to_vec());
    let failure = set_domain_name(SetAnswer::PermissionDenied).unwrap_err();
    assert!(stderr_of(failure).contains("you must be root to change the domain name"));
}

#[test]
fn test_set_invalid_domainname() {
    let error = domain_name_from_argument(b"invalid_domain_name").unwrap_err();
    assert_eq!(error.code(), 1);
    assert!(error.message().contains("the specified domainname is invalid"));
}

#[test]
fn test_set_domainname_from_empty_file() {
    let error = domain_name_from_file(b"").unwrap_err();
    assert_eq!(error.code(), 1);
    assert!(error.message().contains("the specified domainname is invalid"));
}

#[test]
fn test_set_domainname_from_file_without_superuser() {
    let name = domain_name_from_file(b"example.com").unwrap();
    assert_eq!(name, b"example.com\0".to_vec());
    let failure = set_domain_name(SetAnswer::PermissionDenied).unwrap_err();
    assert!(stderr_of(failure).contains("you must be root to change the domain name"));
}
