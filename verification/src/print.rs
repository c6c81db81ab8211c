//! The ways of showing the names and addresses of the host: which one a
//! command line asks for, what each one needs from the resolver, and what
//! each one writes.
//!
//! Every way that ends well writes one line: what there is to show,
//! separated by single spaces, then a line feed; the line feed alone where
//! there is nothing to show. A list of looked-up names meets failed lookups
//! in one of three ways, fixed per mode: for the aliases and the addresses of
//! the host name the first failure ends the command; for the names of all
//! interfaces a failed lookup is left out; for the addresses of all
//! interfaces an address without a name is left out and any other failure
//! ends the command. What was written before a failure stays written.

use vstd::prelude::*;

use crate::ascii::{DOT, LINE_FEED, SPACE};
use crate::bytes::{append, find, lemma_position, position};
use crate::errors::{GetNameOrAddrInfoError, HostNameError};
use crate::net::{short_host_name, short_name, Family, Hints, SocketType};

verus! {

/// What to show of the host.
#[derive(Debug, Clone, Copy, PartialEq, Eq, Structural)]
pub enum OutputMode {
    /// The host name as the system has it.
    Default,
    /// The host name and the names of its addresses.
    Alias,
    /// The domain part of the canonical name.
    Domain,
    /// The canonical name.
    Fqdn,
    /// The names of the addresses of all interfaces.
    AllFqdn,
    /// The addresses of the host name.
    IpAddress,
    /// The addresses of all interfaces.
    AllIpAddresses,
    /// The host name up to its first dot.
    Short,
    /// The NIS domain name.
    Nis,
}

/// The mode flags of a command line, each true where the flag was given.
#[derive(Debug, Clone, Copy, PartialEq, Eq, Structural)]
pub struct ModeFlags {
    /// `-a`: the alias names.
    pub alias: bool,
    /// `-d`: the DNS domain name.
    pub domain: bool,
    /// `-f`: the long host name.
    pub fqdn: bool,
    /// `-A`: all long host names.
    pub all_fqdns: bool,
    /// `-i`: the addresses of the host name.
    pub ip_address: bool,
    /// `-I`: all addresses of the host.
    pub all_ip_addresses: bool,
    /// `-s`: the short host name.
    pub short: bool,
    /// `-y`: the NIS domain name.
    pub nis: bool,
}

/// What a command line asks for.
#[derive(Debug, Clone, Copy, PartialEq, Eq, Structural)]
pub enum Request {
    /// Set the name that a file holds.
    SetFromFile,
    /// Set the name given as an argument.
    SetFromArgument,
    /// Show the host in this mode.
    Print(OutputMode),
}

/// How many of the mode flags are given.
pub open spec fn flags_given(flags: ModeFlags) -> int {
    (if flags.alias { 1int } else { 0 }) + (if flags.domain { 1int } else { 0 }) + (if flags.fqdn {
        1int
    } else {
        0
    }) + (if flags.all_fqdns { 1int } else { 0 }) + (if flags.ip_address { 1int } else { 0 }) + (
    if flags.all_ip_addresses { 1int } else { 0 }) + (if flags.short { 1int } else { 0 }) + (
    if flags.nis { 1int } else { 0 })
}

/// The mode that the flags select: that of the first flag given, in the
/// order alias, domain, FQDN, all FQDNs, IP address, all IP addresses,
/// short, NIS; the default mode where none is given.
pub open spec fn selected_mode(flags: ModeFlags) -> OutputMode {
    if flags.alias {
        OutputMode::Alias
    } else if flags.domain {
        OutputMode::Domain
    } else if flags.fqdn {
        OutputMode::Fqdn
    } else if flags.all_fqdns {
        OutputMode::AllFqdn
    } else if flags.ip_address {
        OutputMode::IpAddress
    } else if flags.all_ip_addresses {
        OutputMode::AllIpAddresses
    } else if flags.short {
        OutputMode::Short
    } else if flags.nis {
        OutputMode::Nis
    } else {
        OutputMode::Default
    }
}

/// A command line gives at most one mode flag. The mode is then the one of
/// the flag that is given, whatever the order in which the flags are asked.
pub proof fn lemma_one_flag_one_mode(flags: ModeFlags)
    requires
        flags_given(flags) <= 1,
    ensures
        flags.alias <==> selected_mode(flags) == OutputMode::Alias,
        flags.domain <==> selected_mode(flags) == OutputMode::Domain,
        flags.fqdn <==> selected_mode(flags) == OutputMode::Fqdn,
        flags.all_fqdns <==> selected_mode(flags) == OutputMode::AllFqdn,
        flags.ip_address <==> selected_mode(flags) == OutputMode::IpAddress,
        flags.all_ip_addresses <==> selected_mode(flags) == OutputMode::AllIpAddresses,
        flags.short <==> selected_mode(flags) == OutputMode::Short,
        flags.nis <==> selected_mode(flags) == OutputMode::Nis,
        flags_given(flags) == 0 <==> selected_mode(flags) == OutputMode::Default,
{
}

impl OutputMode {
    /// The mode that the flags of a command line select.
    pub fn from_flags(flags: &ModeFlags) -> (mode: OutputMode)
        ensures
            mode == selected_mode(*flags),
    {
        if flags.alias {
            OutputMode::Alias
        } else if flags.domain {
            OutputMode::Domain
        } else if flags.fqdn {
            OutputMode::Fqdn
        } else if flags.all_fqdns {
            OutputMode::AllFqdn
        } else if flags.ip_address {
            OutputMode::IpAddress
        } else if flags.all_ip_addresses {
            OutputMode::AllIpAddresses
        } else if flags.short {
            OutputMode::Short
        } else if flags.nis {
            OutputMode::Nis
        } else {
            OutputMode::Default
        }
    }

    /// What this mode asks of the resolver for the host name, if it asks the
    /// resolver at all: addresses of any family for datagram sockets, and
    /// with them the canonical name for the domain and the FQDN, the
    /// addresses alone for the aliases and the IP addresses. Each mode makes
    /// its own request.
    pub fn hints(&self) -> (r: Option<Hints>)
        ensures
            r == match *self {
                OutputMode::Alias | OutputMode::IpAddress => Some(address_hints(false)),
                OutputMode::Domain | OutputMode::Fqdn => Some(address_hints(true)),
                _ => None,
            },
    {
        match self {
            OutputMode::Alias | OutputMode::IpAddress => Some(
                Hints {
                    family: Family::Unspecified,
                    socket_type: SocketType::Datagram,
                    protocol: 0,
                    canonical_name: false,
                },
            ),
            OutputMode::Domain | OutputMode::Fqdn => Some(
                Hints {
                    family: Family::Unspecified,
                    socket_type: SocketType::Datagram,
                    protocol: 0,
                    canonical_name: true,
                },
            ),
            _ => None,
        }
    }
}

/// The request for the addresses of a host: of any family, for datagram
/// sockets of any protocol, with or without the canonical name.
pub open spec fn address_hints(canonical_name: bool) -> Hints {
    Hints {
        family: Family::Unspecified,
        socket_type: SocketType::Datagram,
        protocol: 0,
        canonical_name,
    }
}

/// Whose addresses a mode looks up.
#[derive(Debug, Clone, Copy, PartialEq, Eq, Structural)]
pub enum Addresses {
    /// The addresses that the resolver gives for the host name.
    OfHostName,
    /// The addresses of the network interfaces that count.
    OfInterfaces,
}

/// What a lookup is to give for an address.
#[derive(Debug, Clone, Copy, PartialEq, Eq, Structural)]
pub enum NameForm {
    /// The name of the address; an address without a name is a failure.
    Name,
    /// The address itself in its numeric form.
    Numeric,
}

impl OutputMode {
    /// Which addresses this mode looks up and in what form, if it looks up
    /// any: the aliases are the names of the addresses of the host name,
    /// the IP addresses their numeric forms; for all FQDNs and all IP
    /// addresses the same holds of the addresses of the interfaces.
    pub fn lookups(&self) -> (r: Option<(Addresses, NameForm)>)
        ensures
            r == match *self {
                OutputMode::Alias => Some((Addresses::OfHostName, NameForm::Name)),
                OutputMode::IpAddress => Some((Addresses::OfHostName, NameForm::Numeric)),
                OutputMode::AllFqdn => Some((Addresses::OfInterfaces, NameForm::Name)),
                OutputMode::AllIpAddresses => Some((Addresses::OfInterfaces, NameForm::Numeric)),
                _ => None,
            },
    {
        match self {
            OutputMode::Alias => Some((Addresses::OfHostName, NameForm::Name)),
            OutputMode::IpAddress => Some((Addresses::OfHostName, NameForm::Numeric)),
            OutputMode::AllFqdn => Some((Addresses::OfInterfaces, NameForm::Name)),
            OutputMode::AllIpAddresses => Some((Addresses::OfInterfaces, NameForm::Numeric)),
            _ => None,
        }
    }
}

/// What the command line of the host name utility asks for. `file` and
/// `host_name` say whether a file and a name were given to set the name
/// from; a file comes first. Without either the host is shown.
pub fn request(file: bool, host_name: bool, flags: &ModeFlags) -> (r: Request)
    ensures
        r == if file {
            Request::SetFromFile
        } else if host_name {
            Request::SetFromArgument
        } else {
            Request::Print(selected_mode(*flags))
        },
{
    if file {
        Request::SetFromFile
    } else if host_name {
        Request::SetFromArgument
    } else {
        Request::Print(OutputMode::from_flags(flags))
    }
}

/// `text` as a line: `text`, then a line feed.
pub open spec fn line(text: Seq<u8>) -> Seq<u8> {
    text.push(LINE_FEED)
}

/// `names` separated by single spaces.
pub open spec fn joined(names: Seq<Seq<u8>>) -> Seq<u8>
    decreases names.len(),
{
    if names.len() == 0 {
        Seq::empty()
    } else if names.len() == 1 {
        names[0]
    } else {
        joined(names.drop_last()) + seq![SPACE] + names.last()
    }
}

/// The part of a canonical name after its first `.`: the domain. `None`
/// where the name holds no `.`.
pub open spec fn domain_of(canonical_name: Seq<u8>) -> Option<Seq<u8>> {
    if position(canonical_name, DOT) < canonical_name.len() {
        Some(canonical_name.subrange(position(canonical_name, DOT) + 1, canonical_name.len() as int))
    } else {
        None
    }
}

/// What a mode writes that shows one name or nothing.
pub open spec fn optional_line(name: Option<Seq<u8>>) -> Seq<u8> {
    match name {
        Some(name) => line(name),
        None => line(Seq::empty()),
    }
}

/// `name` as a line.
pub fn print_line(name: &[u8]) -> (out: Vec<u8>)
    ensures
        out@ == line(name@),
{
    let mut out: Vec<u8> = Vec::new();
    append(&mut out, name);
    out.push(LINE_FEED);
    assert(out@ =~= line(name@));
    out
}

/// How a list of looked-up names meets a lookup that failed.
#[derive(Debug, Clone, Copy, PartialEq, Eq, Structural)]
pub enum OnFailure {
    /// The failure ends the command.
    Stop,
    /// The failure is passed over: the address is left out.
    Pass,
    /// An address without a name is left out; any other failure ends the
    /// command.
    PassNoName,
}

/// Whether a list that meets failures as `on_failure` says passes over the
/// failure `error`. `no_name` is the number by which the resolver says that
/// an address has no name.
pub open spec fn passed_over(error: HostNameError, on_failure: OnFailure, no_name: i32) -> bool {
    match on_failure {
        OnFailure::Stop => false,
        OnFailure::Pass => true,
        OnFailure::PassNoName => error == HostNameError::GetNameOrAddrInfo(
            GetNameOrAddrInfoError(no_name),
        ),
    }
}

/// Whether `lookup` ends the list.
pub open spec fn stops(
    lookup: Result<Vec<u8>, HostNameError>,
    on_failure: OnFailure,
    no_name: i32,
) -> bool {
    match lookup {
        Ok(_) => false,
        Err(error) => !passed_over(error, on_failure, no_name),
    }
}

/// The index of the first lookup that ends the list; `lookups.len()` if none
/// does.
pub open spec fn first_stop(
    lookups: Seq<Result<Vec<u8>, HostNameError>>,
    on_failure: OnFailure,
    no_name: i32,
) -> int
    decreases lookups.len(),
{
    if lookups.len() == 0 || stops(lookups.first(), on_failure, no_name) {
        0
    } else {
        1 + first_stop(lookups.drop_first(), on_failure, no_name)
    }
}

/// The names that the lookups gave, in their order; failed lookups give
/// none.
pub open spec fn names_found(lookups: Seq<Result<Vec<u8>, HostNameError>>) -> Seq<Seq<u8>>
    decreases lookups.len(),
{
    if lookups.len() == 0 {
        Seq::empty()
    } else {
        match lookups.last() {
            Ok(name) => names_found(lookups.drop_last()).push(name@),
            Err(_) => names_found(lookups.drop_last()),
        }
    }
}

/// What a list writes and how it ends.
#[derive(Debug, PartialEq, Eq)]
pub struct Printed {
    /// What is written.
    pub output: Vec<u8>,
    /// The failure that ended the command, if one did.
    pub error: Option<HostNameError>,
}

/// What a list mode writes for `lookups`, after `lead` where the mode puts
/// a name of its own first: the names found before the first lookup that
/// ends the list, separated by spaces; then a line feed unless a lookup
/// ended the list.
pub open spec fn list_output(
    lead: Seq<Seq<u8>>,
    lookups: Seq<Result<Vec<u8>, HostNameError>>,
    on_failure: OnFailure,
    no_name: i32,
) -> Seq<u8> {
    let stop = first_stop(lookups, on_failure, no_name);
    let names = joined(lead + names_found(lookups.take(stop)));
    if stop < lookups.len() {
        names
    } else {
        line(names)
    }
}

/// The failure that ends the list for `lookups`: that of the first lookup
/// that is not passed over.
pub open spec fn list_error(
    lookups: Seq<Result<Vec<u8>, HostNameError>>,
    on_failure: OnFailure,
    no_name: i32,
) -> Option<HostNameError> {
    let stop = first_stop(lookups, on_failure, no_name);
    if stop < lookups.len() {
        Some(lookups[stop]->Err_0)
    } else {
        None
    }
}

/// `first_stop` is the one index before which no lookup ends the list and
/// at which one does, or the number of lookups.
pub proof fn lemma_first_stop(
    lookups: Seq<Result<Vec<u8>, HostNameError>>,
    on_failure: OnFailure,
    no_name: i32,
)
    ensures
        0 <= first_stop(lookups, on_failure, no_name) <= lookups.len(),
        forall|k: int|
            0 <= k < first_stop(lookups, on_failure, no_name) ==> !stops(
                #[trigger] lookups[k],
                on_failure,
                no_name,
            ),
        first_stop(lookups, on_failure, no_name) < lookups.len() ==> stops(
            lookups[first_stop(lookups, on_failure, no_name)],
            on_failure,
            no_name,
        ),
    decreases lookups.len(),
{
    if lookups.len() > 0 && !stops(lookups.first(), on_failure, no_name) {
        let rest = lookups.drop_first();
        lemma_first_stop(rest, on_failure, no_name);
        assert forall|k: int| 0 <= k < first_stop(lookups, on_failure, no_name) implies !stops(
            #[trigger] lookups[k],
            on_failure,
            no_name,
        ) by {
            if k > 0 {
                assert(lookups[k] == rest[k - 1]);
            }
        }
        if first_stop(lookups, on_failure, no_name) < lookups.len() {
            assert(lookups[first_stop(lookups, on_failure, no_name)] == rest[first_stop(
                rest,
                on_failure,
                no_name,
            )]);
        }
    }
}

/// An index before which no lookup ends the list, and at which one does
/// unless it is the number of lookups, is `first_stop`.
pub proof fn lemma_first_stop_unique(
    lookups: Seq<Result<Vec<u8>, HostNameError>>,
    on_failure: OnFailure,
    no_name: i32,
    i: int,
)
    requires
        0 <= i <= lookups.len(),
        forall|k: int| 0 <= k < i ==> !stops(#[trigger] lookups[k], on_failure, no_name),
        i < lookups.len() ==> stops(lookups[i], on_failure, no_name),
    ensures
        first_stop(lookups, on_failure, no_name) == i,
{
    lemma_first_stop(lookups, on_failure, no_name);
    let stop = first_stop(lookups, on_failure, no_name);
    if stop < i {
        assert(!stops(lookups[stop], on_failure, no_name));
    } else if i < stop {
        assert(!stops(lookups[i], on_failure, no_name));
    }
}

/// One more name in a list costs one space and the name; the first name
/// costs the name alone.
pub proof fn lemma_joined_push(names: Seq<Seq<u8>>, name: Seq<u8>)
    ensures
        joined(names.push(name)) == if names.len() == 0 {
            name
        } else {
            joined(names) + seq![SPACE] + name
        },
{
    assert(names.push(name).drop_last() =~= names);
}

/// Where every lookup gives a name, the list is those names, separated by
/// single spaces, and a line feed, however failures would be met.
pub proof fn lemma_list_of_names(
    lookups: Seq<Result<Vec<u8>, HostNameError>>,
    on_failure: OnFailure,
    no_name: i32,
)
    requires
        forall|k: int| 0 <= k < lookups.len() ==> (#[trigger] lookups[k]) is Ok,
    ensures
        list_output(Seq::empty(), lookups, on_failure, no_name) == line(
            joined(names_found(lookups)),
        ),
        list_error(lookups, on_failure, no_name) is None,
        names_found(lookups).len() == lookups.len(),
        forall|k: int|
            0 <= k < lookups.len() ==> #[trigger] names_found(lookups)[k] == (lookups[k]->Ok_0)@,
{
    lemma_first_stop_unique(lookups, on_failure, no_name, lookups.len() as int);
    assert(lookups.take(lookups.len() as int) =~= lookups);
    assert(Seq::<Seq<u8>>::empty() + names_found(lookups) =~= names_found(lookups));
    lemma_names_of_successes(lookups);
}

/// Where every lookup gives a name, the names found are those names.
proof fn lemma_names_of_successes(lookups: Seq<Result<Vec<u8>, HostNameError>>)
    requires
        forall|k: int| 0 <= k < lookups.len() ==> (#[trigger] lookups[k]) is Ok,
    ensures
        names_found(lookups).len() == lookups.len(),
        forall|k: int|
            0 <= k < lookups.len() ==> #[trigger] names_found(lookups)[k] == (lookups[k]->Ok_0)@,
    decreases lookups.len(),
{
    if lookups.len() > 0 {
        let front = lookups.drop_last();
        assert forall|k: int| 0 <= k < front.len() implies (#[trigger] front[k]) is Ok by {
            assert(front[k] == lookups[k]);
        }
        lemma_names_of_successes(front);
        assert(lookups.last() == lookups[lookups.len() - 1]);
        assert forall|k: int| 0 <= k < lookups.len() implies #[trigger] names_found(lookups)[k] == (
        lookups[k]->Ok_0)@ by {
            if k < front.len() {
                assert(front[k] == lookups[k]);
            }
        }
    }
}

/// What to do about one lookup in a list.
#[derive(Debug, PartialEq, Eq)]
pub enum Emit {
    /// Write these bytes.
    Write(Vec<u8>),
    /// Write nothing and go on.
    Pass,
    /// End the command with this failure.
    Stop(HostNameError),
}

/// A list of looked-up names in the writing.
#[derive(Debug, Clone, Copy, PartialEq, Eq, Structural)]
pub struct Listing {
    /// How the list meets a lookup that failed.
    pub on_failure: OnFailure,
    /// The number by which the resolver says that an address has no name.
    pub no_name: i32,
    /// Whether the next name is written after a space.
    pub separate: bool,
}

impl Listing {
    /// The list of a mode that lists looked-up names, at its start. The
    /// list of aliases follows the host name and so starts with a space.
    pub fn new(mode: OutputMode, no_name: i32) -> (r: Option<Listing>)
        ensures
            r == match mode {
                OutputMode::Alias => Some(
                    Listing { on_failure: OnFailure::Stop, no_name, separate: true },
                ),
                OutputMode::IpAddress => Some(
                    Listing { on_failure: OnFailure::Stop, no_name, separate: false },
                ),
                OutputMode::AllFqdn => Some(
                    Listing { on_failure: OnFailure::Pass, no_name, separate: false },
                ),
                OutputMode::AllIpAddresses => Some(
                    Listing { on_failure: OnFailure::PassNoName, no_name, separate: false },
                ),
                _ => None,
            },
    {
        match mode {
            OutputMode::Alias => Some(
                Listing { on_failure: OnFailure::Stop, no_name, separate: true },
            ),
            OutputMode::IpAddress => Some(
                Listing { on_failure: OnFailure::Stop, no_name, separate: false },
            ),
            OutputMode::AllFqdn => Some(
                Listing { on_failure: OnFailure::Pass, no_name, separate: false },
            ),
            OutputMode::AllIpAddresses => Some(
                Listing { on_failure: OnFailure::PassNoName, no_name, separate: false },
            ),
            _ => None,
        }
    }

    /// What the list writes before the first lookup: the host name where
    /// the list is the list of aliases, else nothing.
    pub fn start(mode: OutputMode, host_name: &[u8]) -> (out: Vec<u8>)
        ensures
            out@ == if mode == OutputMode::Alias {
                host_name@
            } else {
                Seq::empty()
            },
    {
        let mut out: Vec<u8> = Vec::new();
        match mode {
            OutputMode::Alias => {
                append(&mut out, host_name);
            },
            _ => {},
        }
        out
    }

    /// What the list writes after the last lookup, unless a failure ended
    /// the command: the line feed.
    pub fn finish(&self) -> (out: Vec<u8>)
        ensures
            out@ == seq![LINE_FEED],
    {
        let mut out: Vec<u8> = Vec::new();
        out.push(LINE_FEED);
        out
    }

    /// What to do about the next lookup: a name is written, after a space
    /// unless it is the first thing on the line; a failure is passed over or
    /// ends the command, as the list meets failures.
    pub fn next(&mut self, lookup: &Result<Vec<u8>, HostNameError>) -> (r: Emit)
        ensures
            final(self).on_failure == old(self).on_failure,
            final(self).no_name == old(self).no_name,
            match r {
                Emit::Write(bytes) => *lookup matches Ok(name) && bytes@ == (if old(self).separate {
                    seq![SPACE] + name@
                } else {
                    name@
                }) && final(self).separate,
                Emit::Pass => *lookup matches Err(error) && passed_over(
                    error,
                    old(self).on_failure,
                    old(self).no_name,
                ) && final(self).separate == old(self).separate,
                Emit::Stop(failure) => *lookup matches Err(error) && !passed_over(
                    error,
                    old(self).on_failure,
                    old(self).no_name,
                ) && failure == error && final(self).separate == old(self).separate,
            },
    {
        match lookup {
            Ok(name) => {
                let mut bytes: Vec<u8> = Vec::new();
                if self.separate {
                    bytes.push(SPACE);
                }
                append(&mut bytes, name.as_slice());
                self.separate = true;
                assert(bytes@ =~= (if old(self).separate {
                    seq![SPACE] + name@
                } else {
                    name@
                }));
                Emit::Write(bytes)
            },
            Err(error) => {
                let pass = match self.on_failure {
                    OnFailure::Stop => false,
                    OnFailure::Pass => true,
                    OnFailure::PassNoName => *error == HostNameError::GetNameOrAddrInfo(
                        GetNameOrAddrInfoError(self.no_name),
                    ),
                };
                if pass {
                    Emit::Pass
                } else {
                    Emit::Stop(*error)
                }
            },
        }
    }
}

/// Writes the list of `lookups` behind what `out` holds, which is the
/// names of `lead` joined.
fn print_list(
    out: Vec<u8>,
    Ghost(lead): Ghost<Seq<Seq<u8>>>,
    lookups: &Vec<Result<Vec<u8>, HostNameError>>,
    listing: Listing,
) -> (printed: Printed)
    requires
        out@ == joined(lead),
        listing.separate == (lead.len() > 0),
    ensures
        printed.output@ == list_output(lead, lookups@, listing.on_failure, listing.no_name),
        printed.error == list_error(lookups@, listing.on_failure, listing.no_name),
{
    let mut out = out;
    let mut state = listing;
    let mut i: usize = 0;
    while i < lookups.len()
        invariant
            i <= lookups.len(),
            state.on_failure == listing.on_failure,
            state.no_name == listing.no_name,
            forall|k: int|
                0 <= k < i ==> !stops(#[trigger] lookups@[k], listing.on_failure, listing.no_name),
            out@ == joined(lead + names_found(lookups@.take(i as int))),
            state.separate == ((lead + names_found(lookups@.take(i as int))).len() > 0),
        decreases lookups.len() - i,
    {
        let ghost names = lead + names_found(lookups@.take(i as int));
        assert(lookups@.take(i + 1).drop_last() =~= lookups@.take(i as int));
        assert(lookups@.take(i + 1).last() == lookups@[i as int]);
        match state.next(&lookups[i]) {
            Emit::Write(bytes) => {
                let ghost name = (lookups@[i as int]->Ok_0)@;
                append(&mut out, bytes.as_slice());
                proof {
                    lemma_joined_push(names, name);
                    assert(lead + names_found(lookups@.take(i + 1)) =~= names.push(name));
                    assert(out@ =~= joined(names.push(name)));
                }
            },
            Emit::Pass => {},
            Emit::Stop(failure) => {
                proof {
                    lemma_first_stop_unique(
                        lookups@,
                        listing.on_failure,
                        listing.no_name,
                        i as int,
                    );
                }
                return Printed { output: out, error: Some(failure) };
            },
        }
        i += 1;
    }
    proof {
        lemma_first_stop_unique(lookups@, listing.on_failure, listing.no_name, i as int);
    }
    out.push(LINE_FEED);
    Printed { output: out, error: None }
}

/// Shows the host name as the system has it.
pub struct DefaultHostName;

/// Shows the host name and the names of its addresses.
pub struct AliasHostName;

/// Shows the domain part of the canonical name of the host.
pub struct DomainHostName;

/// Shows the canonical name of the host.
pub struct FqdnHostName;

/// Shows the names of the addresses of all interfaces.
pub struct AllFqdnHostName;

/// Shows the addresses of the host name.
pub struct IpAddressHostName;

/// Shows the addresses of all interfaces.
pub struct AllIpAddressesHostName;

/// Shows the host name up to its first dot.
pub struct ShortHostName;

/// Shows the NIS domain name.
pub struct NisHostName;

impl DefaultHostName {
    /// The line with the host name.
    pub fn print_host_name(&self, host_name: &[u8]) -> (out: Vec<u8>)
        ensures
            out@ == line(host_name@),
    {
        print_line(host_name)
    }
}

impl ShortHostName {
    /// The line with the host name up to its first `.`.
    pub fn print_host_name(&self, host_name: &[u8]) -> (out: Vec<u8>)
        ensures
            out@ == line(short_name(host_name@)),
    {
        let short = short_host_name(host_name);
        print_line(short.as_slice())
    }
}

impl DomainHostName {
    /// The line with the domain of the host: what follows the first `.` of
    /// its canonical name. A host without a canonical name, or with one
    /// that holds no `.`, has an empty line; that is no failure.
    pub fn print_host_name(&self, canonical_name: Option<&[u8]>) -> (out: Vec<u8>)
        ensures
            out@ == optional_line(
                match canonical_name {
                    Some(name) => domain_of(name@),
                    None => None,
                },
            ),
    {
        let mut out: Vec<u8> = Vec::new();
        match canonical_name {
            Some(name) => {
                proof {
                    lemma_position(name@, DOT);
                }
                match find(name, DOT) {
                    Some(dot) => {
                        assert(dot < name.len());
                        let mut i: usize = dot + 1;
                        while i < name.len()
                            invariant
                                dot < i <= name.len(),
                                out@ == name@.subrange(dot + 1, i as int),
                            decreases name.len() - i,
                        {
                            out.push(name[i]);
                            i += 1;
                            assert(out@ =~= name@.subrange(dot + 1, i as int));
                        }
                    },
                    None => {},
                }
            },
            None => {},
        }
        out.push(LINE_FEED);
        out
    }
}

impl FqdnHostName {
    /// The line with the canonical name of the host, as it is. A host
    /// without a canonical name has an empty line; that is no failure.
    pub fn print_host_name(&self, canonical_name: Option<&[u8]>) -> (out: Vec<u8>)
        ensures
            out@ == optional_line(
                match canonical_name {
                    Some(name) => Some(name@),
                    None => None,
                },
            ),
    {
        match canonical_name {
            Some(name) => print_line(name),
            None => {
                let mut out: Vec<u8> = Vec::new();
                out.push(LINE_FEED);
                assert(out@ =~= line(Seq::empty()));
                out
            },
        }
    }
}

impl NisHostName {
    /// The line with the NIS domain name. That the system has none is a
    /// failure.
    pub fn print_host_name(&self, domain_name: Option<&[u8]>) -> (r: Result<
        Vec<u8>,
        HostNameError,
    >)
        ensures
            match r {
                Ok(out) => domain_name matches Some(name) && out@ == line(name@),
                Err(e) => domain_name is None && e == HostNameError::NoLocalDomainName,
            },
    {
        match domain_name {
            Some(name) => Ok(print_line(name)),
            None => Err(HostNameError::NoLocalDomainName),
        }
    }
}

impl AliasHostName {
    /// The host name, then the name of each of its addresses, each after a
    /// space. `lookups` holds what the lookup of the name of each address of
    /// the host name gave, in the order of the addresses. The first lookup
    /// that failed ends the command.
    pub fn print_host_name(
        &self,
        host_name: &[u8],
        lookups: &Vec<Result<Vec<u8>, HostNameError>>,
    ) -> (printed: Printed)
        ensures
            printed.output@ == list_output(seq![host_name@], lookups@, OnFailure::Stop, 0),
            printed.error == list_error(lookups@, OnFailure::Stop, 0),
    {
        let mut out: Vec<u8> = Vec::new();
        append(&mut out, host_name);
        let ghost lead = seq![host_name@];
        assert(out@ =~= joined(lead));
        print_list(
            out,
            Ghost(lead),
            lookups,
            Listing { on_failure: OnFailure::Stop, no_name: 0, separate: true },
        )
    }
}

impl IpAddressHostName {
    /// The addresses of the host name, separated by spaces. `lookups` holds
    /// what the lookup of the numeric form of each address gave, in the
    /// order of the addresses. The first lookup that failed ends the
    /// command.
    pub fn print_host_name(&self, lookups: &Vec<Result<Vec<u8>, HostNameError>>) -> (printed:
        Printed)
        ensures
            printed.output@ == list_output(Seq::empty(), lookups@, OnFailure::Stop, 0),
            printed.error == list_error(lookups@, OnFailure::Stop, 0),
    {
        print_list(
            Vec::new(),
            Ghost(Seq::empty()),
            lookups,
            Listing { on_failure: OnFailure::Stop, no_name: 0, separate: false },
        )
    }
}

impl AllFqdnHostName {
    /// The names of the addresses of all interfaces, separated by spaces.
    /// `lookups` holds what the lookup of the name of each address of the
    /// host gave, in the order of the addresses. An address whose lookup
    /// failed is left out, so this way never fails.
    pub fn print_host_name(&self, lookups: &Vec<Result<Vec<u8>, HostNameError>>) -> (out: Vec<u8>)
        ensures
            out@ == line(joined(names_found(lookups@))),
    {
        let printed = print_list(
            Vec::new(),
            Ghost(Seq::empty()),
            lookups,
            Listing { on_failure: OnFailure::Pass, no_name: 0, separate: false },
        );
        proof {
            lemma_first_stop_unique(lookups@, OnFailure::Pass, 0, lookups@.len() as int);
            assert(lookups@.take(lookups@.len() as int) =~= lookups@);
            assert(Seq::<Seq<u8>>::empty() + names_found(lookups@) =~= names_found(lookups@));
        }
        printed.output
    }
}

impl AllIpAddressesHostName {
    /// The addresses of all interfaces, separated by spaces. `lookups`
    /// holds what the lookup of the numeric form of each address of the host
    /// gave, in the order of the addresses. `no_name` is the number by which
    /// the resolver says that an address has no name: such an address is
    /// left out. Any other failure ends the command.
    pub fn print_host_name(
        &self,
        lookups: &Vec<Result<Vec<u8>, HostNameError>>,
        no_name: i32,
    ) -> (printed: Printed)
        ensures
            printed.output@ == list_output(Seq::empty(), lookups@, OnFailure::PassNoName, no_name),
            printed.error == list_error(lookups@, OnFailure::PassNoName, no_name),
    {
        print_list(
            Vec::new(),
            Ghost(Seq::empty()),
            lookups,
            Listing { on_failure: OnFailure::PassNoName, no_name, separate: false },
        )
    }
}

} // verus!
