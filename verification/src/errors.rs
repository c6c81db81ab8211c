//! What can go wrong, and the words in which each failure is reported.

use vstd::prelude::*;
use vstd::string::*;

verus! {

/// A failure of the resolver, by the number under which the resolver
/// reports it.
#[derive(Debug, Clone, Copy, PartialEq, Eq, Structural)]
pub struct GetNameOrAddrInfoError(pub i32);

/// Why a host name could not be shown or changed.
#[derive(Debug, Clone, Copy, PartialEq, Eq, Structural)]
pub enum HostNameError {
    InvalidHostName,
    HostNameTooLong,
    NoLocalDomainName,
    SetHostNameDenied,
    GetNameOrAddrInfo(GetNameOrAddrInfoError),
}

/// Why a domain name could not be shown or changed.
#[derive(Debug, Clone, Copy, PartialEq, Eq, Structural)]
pub enum DomainNameError {
    InvalidDomainName,
    DomainNameTooLong,
    NoLocalDomainName,
    SetDomainNameDenied,
}

/// An error of the operating system, by the way in which it came about.
#[derive(Debug, Clone, Copy, PartialEq, Eq, Structural)]
pub enum IoFailure {
    /// The error that the failed call left behind; the caller holds it.
    Last,
    /// The call reported success and gave nothing.
    InvalidData,
    /// A value does not fit the call.
    InvalidInput,
    /// The error that the system has under this number.
    Raw(i32),
    /// This system cannot do what was asked.
    Unsupported,
}

impl IoFailure {
    /// The exit status that reports this failure.
    pub fn code(&self) -> (r: i32)
        ensures
            r == 1,
    {
        1
    }
}

/// A failure to report: one that this library names, or one of the
/// operating system.
#[derive(Debug, PartialEq, Eq)]
pub enum Failure<E> {
    /// A failure that this library names.
    Named(E),
    /// An error of the operating system.
    Io(IoFailure),
}

/// The character that stands for the digit `d`.
pub open spec fn digit_char(d: int) -> char {
    if d == 0 {
        '0'
    } else if d == 1 {
        '1'
    } else if d == 2 {
        '2'
    } else if d == 3 {
        '3'
    } else if d == 4 {
        '4'
    } else if d == 5 {
        '5'
    } else if d == 6 {
        '6'
    } else if d == 7 {
        '7'
    } else if d == 8 {
        '8'
    } else {
        '9'
    }
}

/// The decimal digits of `n`, most significant first, without leading zeros.
pub open spec fn decimal_digits(n: nat) -> Seq<char>
    decreases n,
{
    if n < 10 {
        seq![digit_char(n as int)]
    } else {
        decimal_digits(n / 10).push(digit_char((n % 10) as int))
    }
}

/// `n` in decimal, with `-` in front of a negative number.
pub open spec fn decimal(n: int) -> Seq<char> {
    if n < 0 {
        seq!['-'] + decimal_digits((-n) as nat)
    } else {
        decimal_digits(n as nat)
    }
}

/// The digit `d` as text.
fn digit_text(d: u32) -> (text: &'static str)
    requires
        d < 10,
    ensures
        text@ == seq![digit_char(d as int)],
{
    proof {
        reveal_strlit("0");
        reveal_strlit("1");
        reveal_strlit("2");
        reveal_strlit("3");
        reveal_strlit("4");
        reveal_strlit("5");
        reveal_strlit("6");
        reveal_strlit("7");
        reveal_strlit("8");
        reveal_strlit("9");
    }
    let text = if d == 0 {
        "0"
    } else if d == 1 {
        "1"
    } else if d == 2 {
        "2"
    } else if d == 3 {
        "3"
    } else if d == 4 {
        "4"
    } else if d == 5 {
        "5"
    } else if d == 6 {
        "6"
    } else if d == 7 {
        "7"
    } else if d == 8 {
        "8"
    } else {
        "9"
    };
    assert(text@ =~= seq![digit_char(d as int)]);
    text
}

/// Appends the decimal digits of `n` to `text`.
fn append_decimal_digits(text: &mut String, n: u32)
    ensures
        final(text)@ == old(text)@ + decimal_digits(n as nat),
    decreases n,
{
    if n >= 10 {
        append_decimal_digits(text, n / 10);
    }
    text.append(digit_text(n % 10));
    assert(text@ =~= old(text)@ + decimal_digits(n as nat));
}

/// Appends `n` in decimal to `text`.
pub fn append_decimal(text: &mut String, n: i32)
    ensures
        final(text)@ == old(text)@ + decimal(n as int),
{
    if n < 0 {
        proof {
            reveal_strlit("-");
        }
        text.append("-");
        let magnitude: u32 = if n == i32::MIN {
            2147483648u32
        } else {
            (-n) as u32
        };
        append_decimal_digits(text, magnitude);
        assert(text@ =~= old(text)@ + decimal(n as int));
    } else {
        append_decimal_digits(text, n as u32);
    }
}

impl GetNameOrAddrInfoError {
    /// What is said of this failure when the resolver has no words for it.
    pub open spec fn fallback_text(self) -> Seq<char> {
        "domain name resolution failed: error "@ + decimal(self.0 as int)
    }

    /// The words of this failure, `resolver_text` being what the resolver
    /// itself says of the number, if it says anything.
    pub open spec fn text(self, resolver_text: Option<Seq<char>>) -> Seq<char> {
        match resolver_text {
            Some(words) => words,
            None => self.fallback_text(),
        }
    }

    /// The message for this failure: the resolver's own words where it has
    /// any, else the number of the failure.
    pub fn message(&self, resolver_text: Option<&str>) -> (r: String)
        ensures
            r@ == self.text(
                match resolver_text {
                    Some(words) => Some(words@),
                    None => None,
                },
            ),
    {
        match resolver_text {
            Some(words) => words.to_owned(),
            None => {
                let mut r = "domain name resolution failed: error ".to_owned();
                append_decimal(&mut r, self.0);
                r
            },
        }
    }
}

impl HostNameError {
    /// The words of this failure.
    pub open spec fn text(self, resolver_text: Option<Seq<char>>) -> Seq<char> {
        match self {
            HostNameError::InvalidHostName => "the specified hostname is invalid"@,
            HostNameError::HostNameTooLong => "name too long"@,
            HostNameError::NoLocalDomainName => "local domain name not set"@,
            HostNameError::SetHostNameDenied => "you must be root to change the host name"@,
            HostNameError::GetNameOrAddrInfo(r) => r.text(resolver_text),
        }
    }

    /// The message for this failure. `resolver_text` is read for a failure
    /// of the resolver only.
    pub fn message(&self, resolver_text: Option<&str>) -> (r: String)
        ensures
            r@ == self.text(
                match resolver_text {
                    Some(words) => Some(words@),
                    None => None,
                },
            ),
    {
        match self {
            HostNameError::InvalidHostName => "the specified hostname is invalid".to_owned(),
            HostNameError::HostNameTooLong => "name too long".to_owned(),
            HostNameError::NoLocalDomainName => "local domain name not set".to_owned(),
            HostNameError::SetHostNameDenied => "you must be root to change the host name".to_owned(),
            HostNameError::GetNameOrAddrInfo(r) => r.message(resolver_text),
        }
    }

    /// The exit status that reports this failure.
    pub fn code(&self) -> (r: i32)
        ensures
            r == 1,
    {
        1
    }

    /// Whether the usage text follows the message.
    pub fn usage(&self) -> (r: bool)
        ensures
            !r,
    {
        false
    }
}

impl DomainNameError {
    /// The words of this failure.
    pub open spec fn text(self) -> Seq<char> {
        match self {
            DomainNameError::InvalidDomainName => "the specified domainname is invalid"@,
            DomainNameError::DomainNameTooLong => "name too long"@,
            DomainNameError::NoLocalDomainName => "local domain name not set"@,
            DomainNameError::SetDomainNameDenied => "you must be root to change the domain name"@,
        }
    }

    /// The message for this failure.
    pub fn message(&self) -> (r: String)
        ensures
            r@ == self.text(),
    {
        match self {
            DomainNameError::InvalidDomainName => "the specified domainname is invalid".to_owned(),
            DomainNameError::DomainNameTooLong => "name too long".to_owned(),
            DomainNameError::NoLocalDomainName => "local domain name not set".to_owned(),
            DomainNameError::SetDomainNameDenied => "you must be root to change the domain name".to_owned(),
        }
    }

    /// The exit status that reports this failure.
    pub fn code(&self) -> (r: i32)
        ensures
            r == 1,
    {
        1
    }

    /// Whether the usage text follows the message.
    pub fn usage(&self) -> (r: bool)
        ensures
            !r,
    {
        false
    }
}

} // verus!
