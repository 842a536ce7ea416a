//! Closing a channel, together with the peer or by force.

use crate::hex_utils::{compressed_key_of, identifier_of, to_compressed_pubkey, to_identifier};
use crate::words::texts;
use bitcoin::secp256k1::PublicKey;
use vstd::prelude::*;
use vstd::string::*;

verus! {

/// How a channel is closed.
#[derive(Copy, Clone, Debug, PartialEq, Eq, Structural)]
pub enum CloseKind {
    /// Together with the peer.
    Cooperative,
    /// Alone, by broadcasting the latest state.
    Force,
}

/// A channel to close, with both arguments checked.
#[derive(Debug, PartialEq, Eq)]
pub struct CloseRequest {
    pub kind: CloseKind,
    pub channel_id: [u8; 32],
    pub peer: PublicKey,
}

/// What a request says, in mathematical terms.
pub struct CloseRequestView {
    pub kind: CloseKind,
    pub channel_id: Seq<u8>,
    pub peer: PublicKey,
}

impl View for CloseRequest {
    type V = CloseRequestView;

    open spec fn view(&self) -> CloseRequestView {
        CloseRequestView { kind: self.kind, channel_id: self.channel_id@, peer: self.peer }
    }
}

/// Why a channel is not closed.
#[derive(Copy, Clone, Debug, PartialEq, Eq, Structural)]
pub enum CloseChannelError {
    MissingChannelId,
    /// The channel id is not the text of 32 bytes.
    InvalidChannelId,
    MissingPeer,
    /// The peer text names no public key.
    InvalidPeer,
}

/// The request to close the channel `channel_id` with the peer that the
/// peer text turned out to name, if it names one.
pub open spec fn close_request_for(
    kind: CloseKind,
    channel_id: Seq<u8>,
    peer: Option<PublicKey>,
) -> Result<CloseRequestView, CloseChannelError> {
    match peer {
        None => Err(CloseChannelError::InvalidPeer),
        Some(peer) => Ok(CloseRequestView { kind, channel_id, peer }),
    }
}

/// The request that the words after `closechannel` or `forceclosechannel`
/// make. The channel id is looked at first, then the peer.
pub open spec fn close_request_of(kind: CloseKind, args: Seq<Seq<char>>) -> Result<
    CloseRequestView,
    CloseChannelError,
> {
    if args.len() == 0 {
        Err(CloseChannelError::MissingChannelId)
    } else {
        match identifier_of(args[0]) {
            None => Err(CloseChannelError::InvalidChannelId),
            Some(channel_id) => if args.len() == 1 {
                Err(CloseChannelError::MissingPeer)
            } else {
                close_request_for(kind, channel_id, compressed_key_of(args[1]))
            },
        }
    }
}

/// The view of a request, or the error.
pub open spec fn close_request_view(r: Result<CloseRequest, CloseChannelError>) -> Result<
    CloseRequestView,
    CloseChannelError,
> {
    match r {
        Ok(request) => Ok(request@),
        Err(reason) => Err(reason),
    }
}

/// Makes the request to close a channel with the peer that the peer text
/// turned out to name.
pub fn check_close_request(kind: CloseKind, channel_id: [u8; 32], peer: Option<PublicKey>) -> (r:
    Result<CloseRequest, CloseChannelError>)
    ensures
        close_request_view(r) == close_request_for(kind, channel_id@, peer),
{
    match peer {
        Some(peer) => Ok(CloseRequest { kind, channel_id, peer }),
        None => Err(CloseChannelError::InvalidPeer),
    }
}

/// Reads the words after `closechannel` or `forceclosechannel`. Nothing is
/// asked of the engine here; a request that comes back stands for one
/// call of the engine.
pub fn parse_close_channel(kind: CloseKind, args: &Vec<String>) -> (r: Result<
    CloseRequest,
    CloseChannelError,
>)
    ensures
        close_request_view(r) == close_request_of(kind, texts(args@)),
{
    if args.len() == 0 {
        return Err(CloseChannelError::MissingChannelId);
    }
    let channel_id = match to_identifier(args[0].as_str()) {
        Some(channel_id) => channel_id,
        None => {
            return Err(CloseChannelError::InvalidChannelId);
        },
    };
    if args.len() == 1 {
        return Err(CloseChannelError::MissingPeer);
    }
    check_close_request(kind, channel_id, to_compressed_pubkey(args[1].as_str()))
}

/// The reason given to the engine when a channel is closed by force.
pub fn force_close_reason() -> (r: String)
    ensures
        r@ == "Manually force-closed"@,
{
    String::from_str("Manually force-closed")
}

impl CloseChannelError {
    /// What the operator is told, for the command that was given.
    pub open spec fn message_text(self, kind: CloseKind) -> Seq<char> {
        match (self, kind) {
            (CloseChannelError::MissingChannelId, CloseKind::Cooperative) =>
                "ERROR: closechannel requires a channel ID: `closechannel <channel_id> <peer_pubkey>`"@,
            (CloseChannelError::MissingChannelId, CloseKind::Force) =>
                "ERROR: forceclosechannel requires a channel ID: `forceclosechannel <channel_id> <peer_pubkey>`"@,
            (CloseChannelError::InvalidChannelId, _) => "ERROR: couldn't parse channel_id"@,
            (CloseChannelError::MissingPeer, CloseKind::Cooperative) =>
                "ERROR: closechannel requires a peer pubkey: `closechannel <channel_id> <peer_pubkey>`"@,
            (CloseChannelError::MissingPeer, CloseKind::Force) =>
                "ERROR: forceclosechannel requires a peer pubkey: `forceclosechannel <channel_id> <peer_pubkey>`"@,
            (CloseChannelError::InvalidPeer, _) => "ERROR: couldn't parse peer_pubkey"@,
        }
    }

    /// Writes what the operator is told.
    pub fn message(&self, kind: CloseKind) -> (r: String)
        ensures
            r@ == self.message_text(kind),
    {
        match (self, kind) {
            (CloseChannelError::MissingChannelId, CloseKind::Cooperative) => String::from_str(
                "ERROR: closechannel requires a channel ID: `closechannel <channel_id> <peer_pubkey>`",
            ),
            (CloseChannelError::MissingChannelId, CloseKind::Force) => String::from_str(
                "ERROR: forceclosechannel requires a channel ID: `forceclosechannel <channel_id> <peer_pubkey>`",
            ),
            (CloseChannelError::InvalidChannelId, _) => String::from_str(
                "ERROR: couldn't parse channel_id",
            ),
            (CloseChannelError::MissingPeer, CloseKind::Cooperative) => String::from_str(
                "ERROR: closechannel requires a peer pubkey: `closechannel <channel_id> <peer_pubkey>`",
            ),
            (CloseChannelError::MissingPeer, CloseKind::Force) => String::from_str(
                "ERROR: forceclosechannel requires a peer pubkey: `forceclosechannel <channel_id> <peer_pubkey>`",
            ),
            (CloseChannelError::InvalidPeer, _) => String::from_str(
                "ERROR: couldn't parse peer_pubkey",
            ),
        }
    }
}

/// What the operator is told once the engine has answered a request to
/// close: that the close is under way, or the engine's own words for why
/// it is not. Never both.
pub open spec fn close_report_text(kind: CloseKind, refusal: Option<Seq<char>>) -> Seq<char> {
    match (kind, refusal) {
        (CloseKind::Cooperative, None) => "EVENT: initiating channel close"@,
        (CloseKind::Force, None) => "EVENT: initiating channel force-close"@,
        (CloseKind::Cooperative, Some(reason)) => "ERROR: failed to close channel: "@ + reason,
        (CloseKind::Force, Some(reason)) => "ERROR: failed to force-close channel: "@ + reason,
    }
}

/// Writes what the operator is told once the engine has answered a
/// request to close. `refusal` holds the engine's words where it refused.
pub fn close_report(kind: CloseKind, refusal: Option<&str>) -> (r: String)
    ensures
        r@ == close_report_text(
            kind,
            match refusal {
                Some(reason) => Some(reason@),
                None => None,
            },
        ),
{
    match (kind, refusal) {
        (CloseKind::Cooperative, None) => String::from_str("EVENT: initiating channel close"),
        (CloseKind::Force, None) => String::from_str("EVENT: initiating channel force-close"),
        (CloseKind::Cooperative, Some(reason)) => {
            let mut out = String::from_str("ERROR: failed to close channel: ");
            out.append(reason);
            out
        },
        (CloseKind::Force, Some(reason)) => {
            let mut out = String::from_str("ERROR: failed to force-close channel: ");
            out.append(reason);
            out
        },
    }
}

} // verus!
