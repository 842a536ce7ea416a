//! Opening a channel: the request is checked in full, and the peer is
//! connected where needed, before the engine hears of it.

use crate::decimal::{parse_u64, parsed_unsigned};
use crate::hex_utils::{compressed_key_of, is_hex_digit, to_compressed_pubkey};
use crate::peer::is_connected;
use crate::words::{chars_of, same_text, texts};
use bitcoin::secp256k1::PublicKey;
use vstd::prelude::*;
use vstd::string::*;

verus! {

/// The number of characters of `s` before its first `@`, or its length
/// where it has none.
pub open spec fn until_at(s: Seq<char>) -> nat
    decreases s.len(),
{
    if s.len() == 0 || s[0] == '@' {
        0
    } else {
        1 + until_at(s.skip(1))
    }
}

/// The part of a peer text that names the peer: what stands before the
/// first `@`.
pub open spec fn peer_part(s: Seq<char>) -> Seq<char> {
    s.take(until_at(s) as int)
}

/// The part of a peer text that names the address: what stands between
/// the first `@` and the next, or the end. `None` where there is no `@`.
pub open spec fn address_part(s: Seq<char>) -> Option<Seq<char>> {
    let k = until_at(s);
    if k < s.len() {
        let rest = s.skip(k as int + 1);
        Some(rest.take(until_at(rest) as int))
    } else {
        None
    }
}

/// The position of the first `@` at or after `from`, or the length of the
/// text.
fn find_at(chars: &Vec<char>, from: usize) -> (r: usize)
    requires
        from <= chars@.len(),
    ensures
        from <= r <= chars@.len(),
        r - from == until_at(chars@.skip(from as int)),
{
    let n: usize = chars.len();
    let mut j: usize = from;
    while j < n && chars[j] != '@'
        invariant
            n == chars@.len(),
            from <= j <= n,
            until_at(chars@.skip(from as int)) == (j - from) + until_at(chars@.skip(j as int)),
        decreases n - j,
    {
        assert(chars@.skip(j as int).skip(1) =~= chars@.skip(j + 1));
        j = j + 1;
    }
    j
}

/// Splits a peer text of the form `pubkey` or `pubkey@host:port`.
pub fn split_peer_text(text: &str) -> (r: (String, Option<String>))
    ensures
        r.0@ == peer_part(text@),
        r.1.is_some() == address_part(text@).is_some(),
        r.1 matches Some(address) ==> address_part(text@) == Some(address@),
{
    let chars = chars_of(text);
    let n: usize = chars.len();
    assert(chars@.skip(0) =~= chars@);
    let k = find_at(&chars, 0);
    let peer = String::from_str(text.substring_char(0, k));
    assert(text@.subrange(0, k as int) =~= text@.take(k as int));
    if k < n {
        let end = find_at(&chars, k + 1);
        let address = String::from_str(text.substring_char(k + 1, end));
        assert(text@.subrange(k + 1, end as int) =~= text@.skip(k + 1).take(end - (k + 1)));
        (peer, Some(address))
    } else {
        (peer, None)
    }
}

/// What the flags after the amount ask for.
pub struct OpenFlags {
    /// Whether the channel is announced to the network.
    pub announce: bool,
    /// Whether the channel uses anchor outputs.
    pub with_anchors: bool,
    /// How many of the words were no flag. Each is reported and skipped.
    pub invalid: nat,
}

/// The flags after one more word. `--public` and `--with-anchors`, alone
/// or with `=true`, switch on; with `=false` they switch off; any other
/// word counts as invalid and changes nothing else.
pub open spec fn flags_with(flags: OpenFlags, word: Seq<char>) -> OpenFlags {
    if word == "--public"@ || word == "--public=true"@ {
        OpenFlags { announce: true, ..flags }
    } else if word == "--public=false"@ {
        OpenFlags { announce: false, ..flags }
    } else if word == "--with-anchors"@ || word == "--with-anchors=true"@ {
        OpenFlags { with_anchors: true, ..flags }
    } else if word == "--with-anchors=false"@ {
        OpenFlags { with_anchors: false, ..flags }
    } else {
        OpenFlags { invalid: flags.invalid + 1, ..flags }
    }
}

/// The flags that a list of words asks for, read from left to right, so
/// that a later word overrides an earlier one. Both flags start off.
pub open spec fn flags_of(words: Seq<Seq<char>>) -> OpenFlags
    decreases words.len(),
{
    if words.len() == 0 {
        OpenFlags { announce: false, with_anchors: false, invalid: 0 }
    } else {
        flags_with(flags_of(words.drop_last()), words.last())
    }
}

/// A channel to open, with every argument checked.
#[derive(Debug, PartialEq, Eq)]
pub struct ChannelOpenRequest {
    pub peer: PublicKey,
    /// The address to reach the peer at, as the operator gave it.
    pub address: Option<String>,
    /// Whether the peer has to be connected before the channel is opened.
    /// Never set without an address.
    pub connect: bool,
    /// The channel's value, or `None` where the operator's text is no
    /// amount: the request is then refused once the peer is connected.
    pub amount_sat: Option<u64>,
    pub announce: bool,
    pub with_anchors: bool,
    /// How many flag words were invalid.
    pub invalid_flags: usize,
    /// The peer text as given, kept for the peer directory.
    pub peer_text: String,
}

/// What a request says, in mathematical terms.
pub struct ChannelOpenRequestView {
    pub peer: PublicKey,
    pub address: Option<Seq<char>>,
    pub connect: bool,
    pub amount_sat: Option<u64>,
    pub flags: OpenFlags,
    pub peer_text: Seq<char>,
}

impl View for ChannelOpenRequest {
    type V = ChannelOpenRequestView;

    open spec fn view(&self) -> ChannelOpenRequestView {
        ChannelOpenRequestView {
            peer: self.peer,
            address: match self.address {
                Some(address) => Some(address@),
                None => None,
            },
            connect: self.connect,
            amount_sat: self.amount_sat,
            flags: OpenFlags {
                announce: self.announce,
                with_anchors: self.with_anchors,
                invalid: self.invalid_flags as nat,
            },
            peer_text: self.peer_text@,
        }
    }
}

/// Why a channel is not opened.
#[derive(Copy, Clone, Debug, PartialEq, Eq, Structural)]
pub enum OpenChannelError {
    /// The peer or the amount is missing.
    MissingArguments,
    /// The peer text names no public key.
    InvalidPeer,
    /// No address was given and the peer is not connected.
    NotConnected,
    /// The address given is no address.
    InvalidAddress,
    /// The peer could not be connected.
    ConnectionFailed,
    /// The amount is no number of satoshis.
    InvalidAmount,
}

/// The amount that a text names, if it names one.
pub open spec fn amount_of(text: Seq<char>) -> Option<u64> {
    match parsed_unsigned(text, u64::MAX as nat) {
        Some(amount) => Some(amount as u64),
        None => None,
    }
}

/// What the words after `openchannel` say, before the peer is looked up.
#[derive(Debug, PartialEq, Eq)]
pub struct OpenArguments {
    /// The part of the peer text that should name the peer's key.
    pub key_text: String,
    /// The part of the peer text that names the address, if there is one.
    pub address: Option<String>,
    /// The amount, or `None` where the text is no amount.
    pub amount_sat: Option<u64>,
    pub announce: bool,
    pub with_anchors: bool,
    /// How many flag words were invalid.
    pub invalid_flags: usize,
    /// The peer text as given.
    pub peer_text: String,
}

/// What the arguments say, in mathematical terms.
pub struct OpenArgumentsView {
    pub key_text: Seq<char>,
    pub address: Option<Seq<char>>,
    pub amount_sat: Option<u64>,
    pub flags: OpenFlags,
    pub peer_text: Seq<char>,
}

impl View for OpenArguments {
    type V = OpenArgumentsView;

    open spec fn view(&self) -> OpenArgumentsView {
        OpenArgumentsView {
            key_text: self.key_text@,
            address: match self.address {
                Some(address) => Some(address@),
                None => None,
            },
            amount_sat: self.amount_sat,
            flags: OpenFlags {
                announce: self.announce,
                with_anchors: self.with_anchors,
                invalid: self.invalid_flags as nat,
            },
            peer_text: self.peer_text@,
        }
    }
}

/// What the words after `openchannel` say: the first is the peer text,
/// the second the amount, the rest are flags. `None` where the peer or
/// the amount is missing.
pub open spec fn open_arguments_of(args: Seq<Seq<char>>) -> Option<OpenArgumentsView> {
    if args.len() < 2 {
        None
    } else {
        Some(
            OpenArgumentsView {
                key_text: peer_part(args[0]),
                address: address_part(args[0]),
                amount_sat: amount_of(args[1]),
                flags: flags_of(args.skip(2)),
                peer_text: args[0],
            },
        )
    }
}

/// The request that arguments make, given what the key text turned out
/// to name and the peers that are connected.
///
/// The key text must name a public key, and a peer without an address
/// must be connected. A peer with an address is connected first where it
/// is not connected yet. The amount is judged only after that, so a bad
/// amount is carried along.
pub open spec fn open_request_for(
    arguments: OpenArgumentsView,
    peer: Option<PublicKey>,
    connected: Seq<PublicKey>,
) -> Result<ChannelOpenRequestView, OpenChannelError> {
    match peer {
        None => Err(OpenChannelError::InvalidPeer),
        Some(peer) => if arguments.address.is_none() && !connected.contains(peer) {
            Err(OpenChannelError::NotConnected)
        } else {
            Ok(
                ChannelOpenRequestView {
                    peer,
                    address: arguments.address,
                    connect: arguments.address.is_some() && !connected.contains(peer),
                    amount_sat: arguments.amount_sat,
                    flags: arguments.flags,
                    peer_text: arguments.peer_text,
                },
            )
        },
    }
}

/// The request that the words after `openchannel` make, given the peers
/// that are connected: the peer and the amount must be there, and the
/// rest is as `open_request_for` says of the key that the key text names.
pub open spec fn open_request_of(args: Seq<Seq<char>>, connected: Seq<PublicKey>) -> Result<
    ChannelOpenRequestView,
    OpenChannelError,
> {
    match open_arguments_of(args) {
        None => Err(OpenChannelError::MissingArguments),
        Some(arguments) => open_request_for(
            arguments,
            compressed_key_of(arguments.key_text),
            connected,
        ),
    }
}

/// The view of arguments, where there are any.
pub open spec fn open_arguments_view(r: Option<OpenArguments>) -> Option<OpenArgumentsView> {
    match r {
        Some(arguments) => Some(arguments@),
        None => None,
    }
}

/// The view of a request, or the error.
pub open spec fn open_request_view(r: Result<ChannelOpenRequest, OpenChannelError>) -> Result<
    ChannelOpenRequestView,
    OpenChannelError,
> {
    match r {
        Ok(request) => Ok(request@),
        Err(reason) => Err(reason),
    }
}

/// Reads the flags of `openchannel`: the words from the third on.
fn read_flags(args: &Vec<String>) -> (r: (bool, bool, usize))
    requires
        args@.len() >= 2,
    ensures
        flags_of(texts(args@).skip(2)) == (OpenFlags {
            announce: r.0,
            with_anchors: r.1,
            invalid: r.2 as nat,
        }),
{
    let n: usize = args.len();
    let mut announce = false;
    let mut with_anchors = false;
    let mut invalid: usize = 0;
    let mut i: usize = 2;
    let ghost words = texts(args@).skip(2);
    assert(words.take(0) =~= Seq::<Seq<char>>::empty());
    while i < n
        invariant
            n == args@.len(),
            2 <= i <= n,
            words == texts(args@).skip(2),
            invalid <= i - 2,
            flags_of(words.take(i - 2)) == (OpenFlags {
                announce,
                with_anchors,
                invalid: invalid as nat,
            }),
        decreases n - i,
    {
        let word = args[i].as_str();
        proof {
            let upto = words.take(i - 2 + 1);
            assert(upto.drop_last() =~= words.take(i - 2));
            assert(upto.last() == word@);
        }
        if same_text(word, "--public") || same_text(word, "--public=true") {
            announce = true;
        } else if same_text(word, "--public=false") {
            announce = false;
        } else if same_text(word, "--with-anchors") || same_text(word, "--with-anchors=true") {
            with_anchors = true;
        } else if same_text(word, "--with-anchors=false") {
            with_anchors = false;
        } else {
            invalid = invalid + 1;
        }
        i = i + 1;
    }
    assert(words.take(n - 2) =~= words);
    (announce, with_anchors, invalid)
}

/// Reads the words after `openchannel`.
pub fn read_open_arguments(args: &Vec<String>) -> (r: Option<OpenArguments>)
    ensures
        open_arguments_view(r) == open_arguments_of(texts(args@)),
{
    if args.len() < 2 {
        return None;
    }
    let (key_text, address) = split_peer_text(args[0].as_str());
    let amount_sat = parse_u64(args[1].as_str());
    let (announce, with_anchors, invalid_flags) = read_flags(args);
    let arguments = OpenArguments {
        key_text,
        address,
        amount_sat,
        announce,
        with_anchors,
        invalid_flags,
        peer_text: args[0].clone(),
    };
    assert(arguments@.address == address_part(args@[0]@));
    Some(arguments)
}

/// Checks arguments against the key that the key text turned out to name
/// and against the peers that are connected.
pub fn check_open_request(
    arguments: OpenArguments,
    peer: Option<PublicKey>,
    connected: &Vec<PublicKey>,
) -> (r: Result<ChannelOpenRequest, OpenChannelError>)
    ensures
        open_request_view(r) == open_request_for(arguments@, peer, connected@),
{
    let peer = match peer {
        Some(peer) => peer,
        None => {
            return Err(OpenChannelError::InvalidPeer);
        },
    };
    let known = is_connected(connected, &peer);
    if arguments.address.is_none() && !known {
        return Err(OpenChannelError::NotConnected);
    }
    let connect = arguments.address.is_some() && !known;
    Ok(
        ChannelOpenRequest {
            peer,
            address: arguments.address,
            connect,
            amount_sat: arguments.amount_sat,
            announce: arguments.announce,
            with_anchors: arguments.with_anchors,
            invalid_flags: arguments.invalid_flags,
            peer_text: arguments.peer_text,
        },
    )
}

/// Reads the words after `openchannel` and checks them against the peers
/// that are connected. Nothing is asked of the engine here.
pub fn plan_open_channel(args: &Vec<String>, connected: &Vec<PublicKey>) -> (r: Result<
    ChannelOpenRequest,
    OpenChannelError,
>)
    ensures
        open_request_view(r) == open_request_of(texts(args@), connected@),
{
    match read_open_arguments(args) {
        None => Err(OpenChannelError::MissingArguments),
        Some(arguments) => {
            let peer = to_compressed_pubkey(arguments.key_text.as_str());
            check_open_request(arguments, peer, connected)
        },
    }
}

/// What the opening of a channel is waiting for.
#[derive(Copy, Clone, Debug, PartialEq, Eq, Structural)]
pub enum OpenPhase {
    /// For the peer to be reached at the address given.
    Connecting,
    /// For the engine's answer to the request.
    Opening,
    /// For the peer's address to be written to the peer directory.
    Saving,
    /// For nothing: the request is over.
    Finished,
}

/// What the caller reports back while a channel is opened.
#[derive(Copy, Clone, Debug, PartialEq, Eq, Structural)]
pub enum OpenEvent {
    /// The address given could not be resolved.
    AddressRejected,
    /// The peer is connected now, or could not be connected.
    Connected { ok: bool },
    /// The engine took the request, or refused it.
    Opened { ok: bool },
    /// The peer directory was written, or the attempt to write it failed.
    Saved,
}

/// How the opening of a channel ended.
#[derive(Copy, Clone, Debug, PartialEq, Eq, Structural)]
pub enum OpenOutcome {
    /// The engine has the request.
    Initiated,
    /// The engine refused the request.
    Refused,
    /// The request did not reach the engine.
    Rejected(OpenChannelError),
}

/// What the caller has to do next while a channel is opened.
#[derive(Copy, Clone, Debug, PartialEq, Eq, Structural)]
pub enum OpenAction {
    /// Resolve the address and, where the request says so, connect the
    /// peer; then report `AddressRejected` or `Connected`.
    Connect,
    /// Ask the engine to open the channel, then report `Opened`.
    Open,
    /// Add the peer text to the peer directory, then report `Saved`
    /// whether or not that worked.
    SavePeer,
    /// Tell the operator how the request ended.
    Report(OpenOutcome),
    /// Nothing: the request is over.
    Rest,
}

/// The opening of a channel on its way from request to outcome.
#[derive(Copy, Clone, Debug, PartialEq, Eq, Structural)]
pub struct OpenChannel {
    pub phase: OpenPhase,
    /// Whether the request came with an address.
    pub has_address: bool,
    /// Whether the request's amount is a number.
    pub has_amount: bool,
}

/// The action that a phase is waiting for.
pub open spec fn open_awaited(phase: OpenPhase) -> OpenAction {
    match phase {
        OpenPhase::Connecting => OpenAction::Connect,
        OpenPhase::Opening => OpenAction::Open,
        OpenPhase::Saving => OpenAction::SavePeer,
        OpenPhase::Finished => OpenAction::Rest,
    }
}

/// The step that judges the amount: a request whose amount is a number
/// goes to the engine, any other ends here.
pub open spec fn amount_step(has_address: bool, has_amount: bool) -> (OpenChannel, OpenAction) {
    if has_amount {
        (OpenChannel { phase: OpenPhase::Opening, has_address, has_amount }, OpenAction::Open)
    } else {
        (
            OpenChannel { phase: OpenPhase::Finished, has_address, has_amount },
            OpenAction::Report(OpenOutcome::Rejected(OpenChannelError::InvalidAmount)),
        )
    }
}

/// How the opening starts: with the connection where an address was
/// given, else with the amount.
pub open spec fn open_first_step(has_address: bool, has_amount: bool) -> (
    OpenChannel,
    OpenAction,
) {
    if has_address {
        (OpenChannel { phase: OpenPhase::Connecting, has_address, has_amount }, OpenAction::Connect)
    } else {
        amount_step(has_address, has_amount)
    }
}

/// How the opening goes on when the caller reports `event`.
///
/// The amount is judged once the peer is connected. A request that the
/// engine took and that came with an address has the address saved
/// before the operator is told; whether saving worked changes nothing.
/// An event that the phase does not wait for changes nothing and repeats
/// the request.
pub open spec fn open_next_step(state: OpenChannel, event: OpenEvent) -> (OpenChannel, OpenAction) {
    match (state.phase, event) {
        (OpenPhase::Connecting, OpenEvent::AddressRejected) => (
            OpenChannel { phase: OpenPhase::Finished, ..state },
            OpenAction::Report(OpenOutcome::Rejected(OpenChannelError::InvalidAddress)),
        ),
        (OpenPhase::Connecting, OpenEvent::Connected { ok: false }) => (
            OpenChannel { phase: OpenPhase::Finished, ..state },
            OpenAction::Report(OpenOutcome::Rejected(OpenChannelError::ConnectionFailed)),
        ),
        (OpenPhase::Connecting, OpenEvent::Connected { ok: true }) => amount_step(
            state.has_address,
            state.has_amount,
        ),
        (OpenPhase::Opening, OpenEvent::Opened { ok: false }) => (
            OpenChannel { phase: OpenPhase::Finished, ..state },
            OpenAction::Report(OpenOutcome::Refused),
        ),
        (OpenPhase::Opening, OpenEvent::Opened { ok: true }) => if state.has_address {
            (OpenChannel { phase: OpenPhase::Saving, ..state }, OpenAction::SavePeer)
        } else {
            (
                OpenChannel { phase: OpenPhase::Finished, ..state },
                OpenAction::Report(OpenOutcome::Initiated),
            )
        },
        (OpenPhase::Saving, OpenEvent::Saved) => (
            OpenChannel { phase: OpenPhase::Finished, ..state },
            OpenAction::Report(OpenOutcome::Initiated),
        ),
        _ => (state, open_awaited(state.phase)),
    }
}

impl OpenChannel {
    /// Starts the opening of a channel and says what to do first.
    pub fn begin(request: &ChannelOpenRequest) -> (r: (OpenChannel, OpenAction))
        ensures
            r == open_first_step(request@.address.is_some(), request@.amount_sat.is_some()),
    {
        let has_address = request.address.is_some();
        let has_amount = request.amount_sat.is_some();
        if has_address {
            (
                OpenChannel { phase: OpenPhase::Connecting, has_address, has_amount },
                OpenAction::Connect,
            )
        } else {
            Self::judge_amount(has_address, has_amount)
        }
    }

    fn judge_amount(has_address: bool, has_amount: bool) -> (r: (OpenChannel, OpenAction))
        ensures
            r == amount_step(has_address, has_amount),
    {
        if has_amount {
            (OpenChannel { phase: OpenPhase::Opening, has_address, has_amount }, OpenAction::Open)
        } else {
            (
                OpenChannel { phase: OpenPhase::Finished, has_address, has_amount },
                OpenAction::Report(OpenOutcome::Rejected(OpenChannelError::InvalidAmount)),
            )
        }
    }

    /// Takes the caller's report and says what to do next.
    pub fn advance(self, event: OpenEvent) -> (r: (OpenChannel, OpenAction))
        ensures
            r == open_next_step(self, event),
    {
        let finished = OpenChannel {
            phase: OpenPhase::Finished,
            has_address: self.has_address,
            has_amount: self.has_amount,
        };
        match (self.phase, event) {
            (OpenPhase::Connecting, OpenEvent::AddressRejected) => (
                finished,
                OpenAction::Report(OpenOutcome::Rejected(OpenChannelError::InvalidAddress)),
            ),
            (OpenPhase::Connecting, OpenEvent::Connected { ok: false }) => (
                finished,
                OpenAction::Report(OpenOutcome::Rejected(OpenChannelError::ConnectionFailed)),
            ),
            (OpenPhase::Connecting, OpenEvent::Connected { ok: true }) => Self::judge_amount(
                self.has_address,
                self.has_amount,
            ),
            (OpenPhase::Opening, OpenEvent::Opened { ok: false }) => (
                finished,
                OpenAction::Report(OpenOutcome::Refused),
            ),
            (OpenPhase::Opening, OpenEvent::Opened { ok: true }) => if self.has_address {
                (
                    OpenChannel {
                        phase: OpenPhase::Saving,
                        has_address: self.has_address,
                        has_amount: self.has_amount,
                    },
                    OpenAction::SavePeer,
                )
            } else {
                (finished, OpenAction::Report(OpenOutcome::Initiated))
            },
            (OpenPhase::Saving, OpenEvent::Saved) => (
                finished,
                OpenAction::Report(OpenOutcome::Initiated),
            ),
            (phase, _) => (
                self,
                match phase {
                    OpenPhase::Connecting => OpenAction::Connect,
                    OpenPhase::Opening => OpenAction::Open,
                    OpenPhase::Saving => OpenAction::SavePeer,
                    OpenPhase::Finished => OpenAction::Rest,
                },
            ),
        }
    }
}

/// The state after the caller has reported `events`, one after the other.
pub open spec fn open_state_after(start: OpenChannel, events: Seq<OpenEvent>) -> OpenChannel
    decreases events.len(),
{
    if events.len() == 0 {
        start
    } else {
        open_next_step(open_state_after(start, events.drop_last()), events.last()).0
    }
}

/// The engine is asked to open a channel only for a request whose amount
/// is a number, and the peer directory is written only for a request that
/// came with an address: whatever was reported, in turn or out of turn.
pub proof fn lemma_open_actions(
    has_address: bool,
    has_amount: bool,
    events: Seq<OpenEvent>,
    event: OpenEvent,
)
    ensures
        ({
            let start = open_first_step(has_address, has_amount);
            let state = open_state_after(start.0, events);
            let next = open_next_step(state, event);
            &&& state.has_address == has_address && state.has_amount == has_amount
            &&& state.phase == OpenPhase::Opening ==> has_amount
            &&& state.phase == OpenPhase::Saving ==> has_address && has_amount
            &&& state.phase == OpenPhase::Connecting ==> has_address
            &&& start.1 == OpenAction::Open || next.1 == OpenAction::Open ==> has_amount
            &&& next.1 == OpenAction::SavePeer ==> has_address && has_amount
            &&& start.1 == OpenAction::Connect || next.1 == OpenAction::Connect ==> has_address
        }),
    decreases events.len(),
{
    if events.len() > 0 {
        lemma_open_actions(has_address, has_amount, events.drop_last(), events.last());
    }
}

/// The longest delay that a peer may ask the node to wait before it can
/// claim its own funds, in blocks.
pub const MAX_PEER_TO_SELF_DELAY: u16 = 2016;

impl OpenChannelError {
    /// What the operator is told.
    pub open spec fn message_text(self) -> Seq<char> {
        match self {
            OpenChannelError::MissingArguments =>
                "ERROR: openchannel has 2 required arguments: `openchannel pubkey@host:port channel_amt_satoshis` [--public] [--with-anchors]"@,
            OpenChannelError::InvalidPeer => "ERROR: unable to parse given pubkey for node"@,
            OpenChannelError::NotConnected =>
                "ERROR: Peer address not provided and peer is not connected"@,
            OpenChannelError::InvalidAddress =>
                "ERROR: couldn't parse pubkey@host:port into a socket address"@,
            OpenChannelError::ConnectionFailed => "ERROR: failed to connect to peer"@,
            OpenChannelError::InvalidAmount => "ERROR: channel amount must be a number"@,
        }
    }

    /// Writes what the operator is told.
    pub fn message(&self) -> (r: String)
        ensures
            r@ == self.message_text(),
    {
        match self {
            OpenChannelError::MissingArguments => String::from_str(
                "ERROR: openchannel has 2 required arguments: `openchannel pubkey@host:port channel_amt_satoshis` [--public] [--with-anchors]",
            ),
            OpenChannelError::InvalidPeer => String::from_str(
                "ERROR: unable to parse given pubkey for node",
            ),
            OpenChannelError::NotConnected => String::from_str(
                "ERROR: Peer address not provided and peer is not connected",
            ),
            OpenChannelError::InvalidAddress => String::from_str(
                "ERROR: couldn't parse pubkey@host:port into a socket address",
            ),
            OpenChannelError::ConnectionFailed => String::from_str(
                "ERROR: failed to connect to peer",
            ),
            OpenChannelError::InvalidAmount => String::from_str(
                "ERROR: channel amount must be a number",
            ),
        }
    }
}

/// What is said of each word after the amount that is no flag.
pub fn invalid_flag_message() -> (r: String)
    ensures
        r@ == "ERROR: invalid boolean flag format. Valid formats: `--option`, `--option=true` `--option=false`"@,
{
    String::from_str(
        "ERROR: invalid boolean flag format. Valid formats: `--option`, `--option=true` `--option=false`",
    )
}

impl OpenOutcome {
    /// What the operator is told at the end, for a peer written as
    /// `peer`.
    pub open spec fn message_text(self, peer: Seq<char>) -> Seq<char> {
        match self {
            OpenOutcome::Initiated => "EVENT: initiated channel with peer "@ + peer + ". "@,
            OpenOutcome::Refused => "ERROR: failed to open channel"@,
            OpenOutcome::Rejected(reason) => reason.message_text(),
        }
    }

    /// Writes what the operator is told at the end.
    pub fn message(&self, peer: &str) -> (r: String)
        ensures
            r@ == self.message_text(peer@),
    {
        match self {
            OpenOutcome::Initiated => {
                let mut out = String::from_str("EVENT: initiated channel with peer ");
                out.append(peer);
                out.append(". ");
                out
            },
            OpenOutcome::Refused => String::from_str("ERROR: failed to open channel"),
            OpenOutcome::Rejected(reason) => reason.message(),
        }
    }
}

/// A text without `@` names a peer and no address: it is its own peer
/// part.
pub proof fn lemma_text_without_at(s: Seq<char>)
    requires
        forall|i: int| 0 <= i < s.len() ==> #[trigger] s[i] != '@',
    ensures
        until_at(s) == s.len(),
        peer_part(s) == s,
        address_part(s).is_none(),
    decreases s.len(),
{
    if s.len() > 0 {
        assert(s[0] != '@');
        assert forall|i: int| 0 <= i < s.skip(1).len() implies #[trigger] s.skip(1)[i] != '@' by {
            assert(s.skip(1)[i] == s[i + 1]);
        }
        lemma_text_without_at(s.skip(1));
    }
    assert(s.take(s.len() as int) =~= s);
}

/// A channel is not opened with a peer that is given by its key alone and
/// is not connected: where the first word is the text of a public key and
/// that key is not among the connected peers, the request is refused as
/// `NotConnected`, whatever the amount and the flags.
pub proof fn lemma_unconnected_key_refused(args: Seq<Seq<char>>, connected: Seq<PublicKey>)
    requires
        args.len() >= 2,
        compressed_key_of(args[0]) matches Some(peer) && !connected.contains(peer),
    ensures
        open_request_of(args, connected) == Err::<ChannelOpenRequestView, OpenChannelError>(
            OpenChannelError::NotConnected,
        ),
{
    assert forall|i: int| 0 <= i < args[0].len() implies #[trigger] args[0][i] != '@' by {
        assert(is_hex_digit(args[0][i]));
    }
    lemma_text_without_at(args[0]);
}

/// A channel is not opened with a peer that is given without an address
/// and is not connected: the request is refused as `NotConnected`,
/// whatever the amount and the flags.
pub proof fn lemma_unconnected_peer_refused(args: Seq<Seq<char>>, connected: Seq<PublicKey>)
    requires
        args.len() >= 2,
        address_part(args[0]).is_none(),
        compressed_key_of(peer_part(args[0])) matches Some(peer) && !connected.contains(peer),
    ensures
        open_request_of(args, connected) == Err::<ChannelOpenRequestView, OpenChannelError>(
            OpenChannelError::NotConnected,
        ),
{
}

} // verus!
