//! The wire vocabulary shared by the relay and its peers.
//!
//! Every frame carries one [`WsMessage`]. Playback positions travel as whole
//! microseconds, so that both sides can compare and store them exactly.

use vstd::prelude::*;

verus! {

/// A protocol version: three numbers, a pre-release tag and build metadata.
/// An empty `pre` marks an ordinary release.
#[derive(Clone, Debug, PartialEq, Eq)]
pub struct Version {
    pub major: u64,
    pub minor: u64,
    pub patch: u64,
    pub pre: String,
    pub build: String,
}

/// The mathematical content of a [`Version`].
pub struct VersionView {
    pub major: u64,
    pub minor: u64,
    pub patch: u64,
    pub pre: Seq<char>,
    pub build: Seq<char>,
}

impl VersionView {
    /// The release `major.minor.patch`, without pre-release tag or build metadata.
    pub open spec fn release(major: u64, minor: u64, patch: u64) -> VersionView {
        VersionView { major, minor, patch, pre: Seq::empty(), build: Seq::empty() }
    }

    /// Whether this version is not older than the release `major.minor.patch`.
    ///
    /// The three numbers are compared from left to right. Where all three are
    /// equal, a version with a pre-release tag is older than the release itself;
    /// build metadata never makes a version older than the bare release.
    pub open spec fn at_least(self, major: u64, minor: u64, patch: u64) -> bool {
        if self.major != major {
            self.major > major
        } else if self.minor != minor {
            self.minor > minor
        } else if self.patch != patch {
            self.patch > patch
        } else {
            self.pre.len() == 0
        }
    }
}

impl View for Version {
    type V = VersionView;

    open spec fn view(&self) -> VersionView {
        VersionView {
            major: self.major,
            minor: self.minor,
            patch: self.patch,
            pre: self.pre@,
            build: self.build@,
        }
    }
}

impl Version {
    /// The release `major.minor.patch`.
    pub fn new(major: u64, minor: u64, patch: u64) -> (v: Version)
        ensures
            v@ == VersionView::release(major, minor, patch),
    {
        Version { major, minor, patch, pre: String::new(), build: String::new() }
    }

    /// Whether this version is not older than the release `major.minor.patch`.
    pub fn at_least(&self, major: u64, minor: u64, patch: u64) -> (r: bool)
        ensures
            r == self@.at_least(major, minor, patch),
    {
        if self.major != major {
            self.major > major
        } else if self.minor != minor {
            self.minor > minor
        } else if self.patch != patch {
            self.patch > patch
        } else {
            self.pre.as_str().is_empty()
        }
    }

    /// An independent copy with the same content.
    pub fn duplicate(&self) -> (r: Version)
        ensures
            r@ == self@,
    {
        Version {
            major: self.major,
            minor: self.minor,
            patch: self.patch,
            pre: self.pre.clone(),
            build: self.build.clone(),
        }
    }
}

/// The first protocol version whose peers understand chat.
pub const CHAT_MIN_MAJOR: u64 = 2;

pub const CHAT_MIN_MINOR: u64 = 3;

pub const CHAT_MIN_PATCH: u64 = 0;

/// The version a connection is taken to speak until it announces another.
pub const DEFAULT_MAJOR: u64 = 2;

pub const DEFAULT_MINOR: u64 = 0;

pub const DEFAULT_PATCH: u64 = 0;

/// Whether a peer at version `v` takes part in chat.
pub open spec fn chat_capable(v: VersionView) -> bool {
    v.at_least(CHAT_MIN_MAJOR, CHAT_MIN_MINOR, CHAT_MIN_PATCH)
}

/// Executable form of [`chat_capable`].
pub fn supports_chat(v: &Version) -> (r: bool)
    ensures
        r == chat_capable(v@),
{
    v.at_least(CHAT_MIN_MAJOR, CHAT_MIN_MINOR, CHAT_MIN_PATCH)
}

/// One protocol message.
#[derive(Clone, Debug, PartialEq, Eq)]
pub enum WsMessage {
    /// Free-form version and repository text; informational only.
    Info(String),
    /// Announces the sender's protocol version.
    Info2 { version: Version },
    /// Peer to relay: enter the named room; the empty name leaves the current one.
    Join(String),
    /// Relay to peer: the number of members in the peer's room.
    Party(u32),
    /// Unpause. A peer asks for it; the relay confirms it to every member.
    Resume,
    /// Pause and seek to the given position, in microseconds.
    AbsoluteSeek(i64),
    /// Liveness probe carrying an opaque token.
    Ping(String),
    /// Reply to a probe, echoing its token.
    Pong(String),
    /// Encrypted chat text, base64-encoded.
    Chat(String),
    /// Relay to peer: the salt mixed into the room's chat key.
    RoomRandomChatSalt(String),
}

/// The mathematical content of a [`WsMessage`].
pub enum MessageView {
    Info(Seq<char>),
    Info2 { version: VersionView },
    Join(Seq<char>),
    Party(u32),
    Resume,
    AbsoluteSeek(i64),
    Ping(Seq<char>),
    Pong(Seq<char>),
    Chat(Seq<char>),
    RoomRandomChatSalt(Seq<char>),
}

impl View for WsMessage {
    type V = MessageView;

    open spec fn view(&self) -> MessageView {
        match self {
            WsMessage::Info(s) => MessageView::Info(s@),
            WsMessage::Info2 { version } => MessageView::Info2 { version: version@ },
            WsMessage::Join(s) => MessageView::Join(s@),
            WsMessage::Party(n) => MessageView::Party(*n),
            WsMessage::Resume => MessageView::Resume,
            WsMessage::AbsoluteSeek(t) => MessageView::AbsoluteSeek(*t),
            WsMessage::Ping(s) => MessageView::Ping(s@),
            WsMessage::Pong(s) => MessageView::Pong(s@),
            WsMessage::Chat(s) => MessageView::Chat(s@),
            WsMessage::RoomRandomChatSalt(s) => MessageView::RoomRandomChatSalt(s@),
        }
    }
}

impl MessageView {
    /// Messages that a relay acts on when a peer sends them. The others are
    /// meant for peers only and a relay lets them pass without effect.
    pub open spec fn relay_bound(self) -> bool {
        !(self is Party || self is Ping || self is RoomRandomChatSalt)
    }

    /// Messages that a peer acts on when the relay sends them.
    pub open spec fn peer_bound(self) -> bool {
        !(self is Join || self is Pong)
    }

    /// Heartbeat traffic, which is too frequent to be worth recording.
    pub open spec fn is_heartbeat(self) -> bool {
        self is Ping || self is Pong
    }
}

impl WsMessage {
    /// An independent copy with the same content.
    pub fn duplicate(&self) -> (r: WsMessage)
        ensures
            r@ == self@,
    {
        match self {
            WsMessage::Info(s) => WsMessage::Info(s.clone()),
            WsMessage::Info2 { version } => WsMessage::Info2 { version: version.duplicate() },
            WsMessage::Join(s) => WsMessage::Join(s.clone()),
            WsMessage::Party(n) => WsMessage::Party(*n),
            WsMessage::Resume => WsMessage::Resume,
            WsMessage::AbsoluteSeek(t) => WsMessage::AbsoluteSeek(*t),
            WsMessage::Ping(s) => WsMessage::Ping(s.clone()),
            WsMessage::Pong(s) => WsMessage::Pong(s.clone()),
            WsMessage::Chat(s) => WsMessage::Chat(s.clone()),
            WsMessage::RoomRandomChatSalt(s) => WsMessage::RoomRandomChatSalt(s.clone()),
        }
    }

    /// Whether a relay acts on this message when a peer sends it.
    pub fn is_relay_bound(&self) -> (r: bool)
        ensures
            r == self@.relay_bound(),
    {
        match self {
            WsMessage::Party(_) | WsMessage::Ping(_) | WsMessage::RoomRandomChatSalt(_) => false,
            _ => true,
        }
    }

    /// Whether a peer acts on this message when the relay sends it.
    pub fn is_peer_bound(&self) -> (r: bool)
        ensures
            r == self@.peer_bound(),
    {
        match self {
            WsMessage::Join(_) | WsMessage::Pong(_) => false,
            _ => true,
        }
    }

    /// Whether this is heartbeat traffic.
    pub fn is_heartbeat(&self) -> (r: bool)
        ensures
            r == self@.is_heartbeat(),
    {
        match self {
            WsMessage::Ping(_) | WsMessage::Pong(_) => true,
            _ => false,
        }
    }
}

} // verus!
