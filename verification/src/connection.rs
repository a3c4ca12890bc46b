//! The relay's side of one connection: what it keeps about the peer, and what
//! it does with each message and each tick of the heartbeat.

use crate::clock::{
    format_rfc3339_millis, parse_rfc3339, rfc3339_instant, rfc3339_millis, round_trip,
    round_trip_of, silence, silence_between, Clock, Instant,
};
use crate::message::{
    MessageView, Version, VersionView, WsMessage, DEFAULT_MAJOR, DEFAULT_MINOR, DEFAULT_PATCH,
};
use crate::registry::{
    chat_deliveries, join_notices, joined, latency_from_rtt, leave_notices, left, pending_batch,
    pong_recorded, resume_requested, resume_sends, seek_deliveries, sought, Registry, RegistryView,
};
use crate::room::{deliveries_view, Delivery, DeliveryView, Member, MemberView, ScheduledResume};
use vstd::prelude::*;
use vstd::string::StringExecFns;

verus! {

/// The time between two probes, in nanoseconds.
pub const HEARTBEAT_INTERVAL: u64 = 1_000_000_000;

/// How long a peer may stay silent before its connection counts as lost, in
/// nanoseconds.
pub const HEARTBEAT_TIMEOUT: u64 = 10_000_000_000;

/// The largest message a connection accepts, in bytes.
pub const MAX_MESSAGE_SIZE: usize = 1024;

/// The largest frame a connection accepts, in bytes.
pub const MAX_FRAME_SIZE: usize = 800;

/// Whether a connection accepts unmasked frames.
pub const ACCEPT_UNMASKED_FRAMES: bool = false;

/// Whether the peer has been silent for too long.
pub open spec fn timed_out(last_heard: u64, now: u64) -> bool {
    silence(last_heard, now) > HEARTBEAT_TIMEOUT
}

/// What the relay says of itself when asked.
#[derive(Clone, Debug, PartialEq, Eq)]
pub struct RelayInfo {
    /// The relay's own version.
    pub version: String,
    /// Where the relay's source can be had.
    pub repo_url: String,
}

/// The text of the relay's answer to an `Info` message.
pub open spec fn info_text(version: Seq<char>, repo_url: Seq<char>) -> Seq<char> {
    "version "@ + version + " repo "@ + repo_url
}

impl RelayInfo {
    /// The text of the relay's answer to an `Info` message.
    pub fn text(&self) -> (r: String)
        ensures
            r@ == info_text(self.version@, self.repo_url@),
    {
        let mut r = String::from_str("version ");
        r.append(self.version.as_str());
        r.append(" repo ");
        r.append(self.repo_url.as_str());
        r
    }
}

/// The source of connection identifiers: each one is larger than all that
/// were given out before it.
#[derive(Debug)]
pub struct ConnectionIds {
    latest: u64,
}

impl View for ConnectionIds {
    type V = u64;

    /// The identifier that was given out last; zero if none was.
    closed spec fn view(&self) -> u64 {
        self.latest
    }
}

impl ConnectionIds {
    /// A source that has given out nothing yet.
    pub fn new() -> (r: ConnectionIds)
        ensures
            r@ == 0,
    {
        ConnectionIds { latest: 0 }
    }

    /// The identifier for the next connection: one more than the last. There
    /// is none once the numbers are used up.
    pub fn next(&mut self) -> (r: Option<u64>)
        ensures
            old(self)@ < u64::MAX ==> r == Some((old(self)@ + 1) as u64) && final(self)@ == old(self)@
                + 1,
            old(self)@ == u64::MAX ==> r is None && final(self)@ == old(self)@,
    {
        if self.latest == u64::MAX {
            None
        } else {
            self.latest = self.latest + 1;
            Some(self.latest)
        }
    }
}

/// What a tick of the heartbeat calls for.
#[derive(Clone, Debug, PartialEq, Eq)]
pub enum Tick {
    /// The peer has been silent for too long: close the connection.
    Lost,
    /// Send this probe to the peer.
    Probe(WsMessage),
    /// Nothing to send: the calendar clock shows no date.
    Idle,
}

/// What the relay does in answer to a message.
#[derive(Clone, Debug, PartialEq, Eq)]
pub struct Reaction {
    /// Messages to send now, in this order.
    pub deliveries: Vec<Delivery>,
    /// Timers to start. When one runs out, report it to
    /// [`Registry::resume_due`] under the room the connection was in when it
    /// asked.
    pub scheduled: Vec<ScheduledResume>,
    /// The batch whose timers can be stopped.
    pub cancelled: Option<u64>,
}

/// The mathematical content of a [`Reaction`].
pub struct ReactionView {
    pub deliveries: Seq<DeliveryView>,
    pub scheduled: Seq<ScheduledResume>,
    pub cancelled: Option<u64>,
}

impl View for Reaction {
    type V = ReactionView;

    open spec fn view(&self) -> ReactionView {
        ReactionView {
            deliveries: deliveries_view(self.deliveries@),
            scheduled: self.scheduled@,
            cancelled: self.cancelled,
        }
    }
}

impl ReactionView {
    /// Nothing to do.
    pub open spec fn nothing() -> ReactionView {
        ReactionView { deliveries: Seq::empty(), scheduled: Seq::empty(), cancelled: None }
    }

    /// Only these messages to send.
    pub open spec fn sending(deliveries: Seq<DeliveryView>) -> ReactionView {
        ReactionView { deliveries, scheduled: Seq::empty(), cancelled: None }
    }
}

impl Reaction {
    fn nothing() -> (r: Reaction)
        ensures
            r@ == ReactionView::nothing(),
    {
        let r = Reaction { deliveries: Vec::new(), scheduled: Vec::new(), cancelled: None };
        assert(r@.deliveries =~= Seq::empty());
        r
    }

    fn sending(deliveries: Vec<Delivery>) -> (r: Reaction)
        ensures
            r@ == ReactionView::sending(deliveries_view(deliveries@)),
    {
        Reaction { deliveries, scheduled: Vec::new(), cancelled: None }
    }
}

/// What the relay keeps about one connection.
#[derive(Debug)]
pub struct Connection {
    id: u64,
    current_room: String,
    latency: u64,
    version: Version,
    last_pong: u64,
}

/// The mathematical content of a [`Connection`].
pub struct ConnectionView {
    /// The connection's identifier.
    pub id: u64,
    /// The room the connection has joined; empty while it is in none.
    pub current_room: Seq<char>,
    /// The latest latency estimate, in nanoseconds.
    pub latency: u64,
    /// The protocol version the peer has announced.
    pub version: VersionView,
    /// What the monotonic clock showed when the peer was last heard.
    pub last_pong: u64,
}

impl View for Connection {
    type V = ConnectionView;

    closed spec fn view(&self) -> ConnectionView {
        ConnectionView {
            id: self.id,
            current_room: self.current_room@,
            latency: self.latency,
            version: self.version@,
            last_pong: self.last_pong,
        }
    }
}

impl ConnectionView {
    /// The record under which the connection joins a room.
    pub open spec fn member(self) -> MemberView {
        MemberView { id: self.id, latency: self.latency, version: self.version }
    }

    /// The connection after it has moved to room `room`.
    pub open spec fn in_room(self, room: Seq<char>) -> ConnectionView {
        ConnectionView { current_room: room, ..self }
    }

    /// The connection after it has announced version `version`.
    pub open spec fn speaking(self, version: VersionView) -> ConnectionView {
        ConnectionView { version, ..self }
    }

    /// The connection after a probe has come back at `now` that took `rtt`
    /// nanoseconds.
    pub open spec fn heard(self, rtt: u64, now: u64) -> ConnectionView {
        ConnectionView { latency: latency_from_rtt(rtt), last_pong: now, ..self }
    }
}

/// A connection and the table after a message, and what is to be done.
pub struct Handled {
    pub connection: ConnectionView,
    pub table: RegistryView,
    pub reaction: ReactionView,
}

/// What the answer to a probe does, given the instant `sent` that its token
/// denotes, if any.
///
/// A token that is no timestamp, or one from the future, is passed over: the
/// connection stays open and nothing changes, so that a peer which sends
/// nothing better is lost to the heartbeat in the end. Otherwise the time the
/// probe took gives the connection's new latency estimate, which is also
/// written to its record in the table if it has joined a room, and the peer
/// counts as heard at `now`. Nothing is sent in either case.
pub open spec fn pong_handled(c: ConnectionView, r: RegistryView, sent: Option<Instant>, now: Clock) -> Handled {
    let unchanged = Handled { connection: c, table: r, reaction: ReactionView::nothing() };
    match sent {
        None => unchanged,
        Some(at) => match round_trip_of(at, now.calendar) {
            None => unchanged,
            Some(rtt) => Handled {
                connection: c.heard(rtt, now.monotonic),
                table: if c.current_room.len() == 0 {
                    r
                } else {
                    RegistryView {
                        rooms: pong_recorded(r.rooms, c.id, rtt),
                        next_batch: r.next_batch,
                    }
                },
                reaction: ReactionView::nothing(),
            },
        },
    }
}

/// What a message from the peer does to its connection `c` and the table `r`,
/// and what the relay does in answer.
pub open spec fn handled(
    c: ConnectionView,
    r: RegistryView,
    msg: MessageView,
    now: Clock,
    info: Seq<char>,
) -> Handled {
    let unchanged = Handled { connection: c, table: r, reaction: ReactionView::nothing() };
    match msg {
        MessageView::Info(_) => Handled {
            connection: c,
            table: r,
            reaction: ReactionView::sending(
                seq![DeliveryView { to: c.id, message: MessageView::Info(info) }],
            ),
        },
        MessageView::Info2 { version } => Handled {
            connection: c.speaking(version),
            table: r,
            reaction: ReactionView::nothing(),
        },
        MessageView::Join(room) => if room == c.current_room {
            unchanged
        } else {
            Handled {
                connection: c.in_room(room),
                table: RegistryView {
                    rooms: joined(r.rooms, c.member(), room),
                    next_batch: r.next_batch,
                },
                reaction: ReactionView::sending(join_notices(r.rooms, c.member(), room)),
            }
        },
        MessageView::Resume => if c.current_room.len() == 0 {
            unchanged
        } else {
            Handled {
                connection: c,
                table: resume_requested(r, c.current_room),
                reaction: ReactionView {
                    deliveries: Seq::empty(),
                    scheduled: resume_sends(r, c.current_room),
                    cancelled: None,
                },
            }
        },
        MessageView::AbsoluteSeek(time) => if c.current_room.len() == 0 {
            unchanged
        } else {
            Handled {
                connection: c,
                table: RegistryView { rooms: sought(r.rooms, c.current_room), next_batch: r.next_batch },
                reaction: ReactionView {
                    deliveries: seek_deliveries(r.rooms, c.current_room, time, c.id),
                    scheduled: Seq::empty(),
                    cancelled: pending_batch(r.rooms, c.current_room),
                },
            }
        },
        MessageView::Pong(token) => pong_handled(c, r, rfc3339_instant(token), now),
        MessageView::Chat(text) => if c.current_room.len() == 0 {
            unchanged
        } else {
            Handled {
                connection: c,
                table: r,
                reaction: ReactionView::sending(chat_deliveries(r.rooms, c.current_room, c.id, text)),
            }
        },
        MessageView::Party(_) | MessageView::Ping(_) | MessageView::RoomRandomChatSalt(_) => unchanged,
    }
}

impl Connection {
    /// A connection that was accepted at `now` under identifier `id`. It is in
    /// no room, its latency is unknown and taken as zero, and until the peer
    /// says otherwise it speaks the oldest version of the protocol.
    pub fn new(id: u64, now: Clock) -> (c: Connection)
        ensures
            c@ == (ConnectionView {
                id,
                current_room: Seq::empty(),
                latency: 0,
                version: VersionView::release(DEFAULT_MAJOR, DEFAULT_MINOR, DEFAULT_PATCH),
                last_pong: now.monotonic,
            }),
    {
        Connection {
            id,
            current_room: String::new(),
            latency: 0,
            version: Version::new(DEFAULT_MAJOR, DEFAULT_MINOR, DEFAULT_PATCH),
            last_pong: now.monotonic,
        }
    }

    /// The connection's identifier.
    pub fn id(&self) -> (r: u64)
        ensures
            r == self@.id,
    {
        self.id
    }

    /// The room the connection has joined; empty while it is in none.
    pub fn current_room(&self) -> (r: &str)
        ensures
            r@ == self@.current_room,
    {
        self.current_room.as_str()
    }

    /// The latest latency estimate, in nanoseconds.
    pub fn latency(&self) -> (r: u64)
        ensures
            r == self@.latency,
    {
        self.latency
    }

    /// The protocol version the peer has announced.
    pub fn version(&self) -> (r: &Version)
        ensures
            r@ == self@.version,
    {
        &self.version
    }

    /// One tick of the heartbeat at `now`.
    ///
    /// A peer that has not answered a probe for longer than
    /// [`HEARTBEAT_TIMEOUT`] is lost. Any other is sent a probe whose token is
    /// the timestamp of `now`.
    pub fn on_tick(&self, now: Clock) -> (r: Tick)
        ensures
            timed_out(self@.last_pong, now.monotonic) ==> r is Lost,
            !timed_out(self@.last_pong, now.monotonic) ==> match rfc3339_millis(
                now.calendar.secs,
                now.calendar.nanos,
            ) {
                Some(token) => r matches Tick::Probe(m) && m@ == MessageView::Ping(token),
                None => r is Idle,
            },
    {
        if silence_between(self.last_pong, now.monotonic) > HEARTBEAT_TIMEOUT {
            Tick::Lost
        } else {
            probe(format_rfc3339_millis(now.calendar))
        }
    }

    /// Takes in the answer to a probe, given the instant `sent` that its token
    /// denotes, if any; see [`pong_handled`].
    pub fn pong_received(&mut self, registry: &mut Registry, sent: Option<Instant>, now: Clock)
        requires
            old(registry).wf(),
        ensures
            final(registry).wf(),
            final(self)@ == pong_handled(old(self)@, old(registry)@, sent, now).connection,
            final(registry)@ == pong_handled(old(self)@, old(registry)@, sent, now).table,
    {
        let at = match sent {
            Some(at) => at,
            None => {
                return;
            },
        };
        let rtt = match round_trip(at, now.calendar) {
            Some(rtt) => rtt,
            None => {
                return;
            },
        };
        self.latency = rtt / 2;
        self.last_pong = now.monotonic;
        if !self.current_room.as_str().is_empty() {
            registry.record_pong(self.id, rtt);
        }
    }

    /// Takes in one message from the peer; see [`handled`].
    ///
    /// `Info` is answered with the relay's own description. `Info2` sets the
    /// version the peer speaks. `Join` moves the connection to the named room,
    /// unless it is there already, and has the rooms concerned told their new
    /// counts. `Resume` asks for a synchronised resume in the connection's
    /// room, and `AbsoluteSeek` relays the seek to the others in it and cancels
    /// a pending resume; `Chat` is relayed to the members that understand it.
    /// These three do nothing while the connection is in no room. `Pong`
    /// updates the latency estimate, unless its token is no timestamp or one
    /// from the future, in which case it is passed over. The messages that
    /// only a relay sends are let pass without effect. No message closes the
    /// connection.
    pub fn handle(&mut self, registry: &mut Registry, msg: WsMessage, now: Clock, info: &RelayInfo) -> (r:
        Reaction)
        requires
            old(registry).wf(),
        ensures
            final(registry).wf(),
            final(self)@ == handled(
                old(self)@,
                old(registry)@,
                msg@,
                now,
                info_text(info.version@, info.repo_url@),
            ).connection,
            final(registry)@ == handled(
                old(self)@,
                old(registry)@,
                msg@,
                now,
                info_text(info.version@, info.repo_url@),
            ).table,
            r@ == handled(
                old(self)@,
                old(registry)@,
                msg@,
                now,
                info_text(info.version@, info.repo_url@),
            ).reaction,
    {
        match msg {
            WsMessage::Info(_) => {
                let mut deliveries: Vec<Delivery> = Vec::new();
                deliveries.push(Delivery { to: self.id, message: WsMessage::Info(info.text()) });
                assert(deliveries_view(deliveries@) =~= seq![
                    DeliveryView {
                        to: self.id,
                        message: MessageView::Info(info_text(info.version@, info.repo_url@)),
                    },
                ]);
                Reaction::sending(deliveries)
            },
            WsMessage::Info2 { version } => {
                self.version = version;
                Reaction::nothing()
            },
            WsMessage::Join(room) => {
                if room == self.current_room {
                    Reaction::nothing()
                } else {
                    let me = Member {
                        id: self.id,
                        latency: self.latency,
                        version: self.version.duplicate(),
                    };
                    let deliveries = registry.join(me, room.as_str());
                    self.current_room = room;
                    Reaction::sending(deliveries)
                }
            },
            WsMessage::Resume => {
                if self.current_room.as_str().is_empty() {
                    Reaction::nothing()
                } else {
                    let scheduled = registry.schedule_resume(self.current_room.as_str());
                    let r = Reaction { deliveries: Vec::new(), scheduled, cancelled: None };
                    assert(r@.deliveries =~= Seq::empty());
                    r
                }
            },
            WsMessage::AbsoluteSeek(time) => {
                if self.current_room.as_str().is_empty() {
                    Reaction::nothing()
                } else {
                    let (deliveries, cancelled) = registry.broadcast_seek(
                        self.current_room.as_str(),
                        time,
                        self.id,
                    );
                    Reaction { deliveries, scheduled: Vec::new(), cancelled }
                }
            },
            WsMessage::Pong(token) => {
                let sent = parse_rfc3339(token.as_str());
                self.pong_received(registry, sent, now);
                Reaction::nothing()
            },
            WsMessage::Chat(text) => {
                if self.current_room.as_str().is_empty() {
                    Reaction::nothing()
                } else {
                    let deliveries = registry.relay_chat(self.current_room.as_str(), self.id, &text);
                    Reaction::sending(deliveries)
                }
            },
            WsMessage::Party(_) | WsMessage::Ping(_) | WsMessage::RoomRandomChatSalt(_) => Reaction::nothing(),
        }
    }

    /// Ends the connection: it leaves the room it is in, if any, and the
    /// members who stay are told the new count. A second call does nothing.
    pub fn on_disconnect(&mut self, registry: &mut Registry) -> (out: Vec<Delivery>)
        requires
            old(registry).wf(),
        ensures
            final(registry).wf(),
            final(self)@ == old(self)@.in_room(Seq::empty()),
            final(registry)@.next_batch == old(registry)@.next_batch,
            final(registry)@.rooms == if old(self)@.current_room.len() == 0 {
                old(registry)@.rooms
            } else {
                left(old(registry)@.rooms, old(self)@.id, old(self)@.current_room)
            },
            deliveries_view(out@) == if old(self)@.current_room.len() == 0 {
                Seq::empty()
            } else {
                leave_notices(old(registry)@.rooms, old(self)@.id, old(self)@.current_room)
            },
    {
        if self.current_room.as_str().is_empty() {
            assert(self@.current_room =~= Seq::empty());
            let out: Vec<Delivery> = Vec::new();
            out
        } else {
            let (_, out) = registry.leave(self.id, self.current_room.as_str());
            self.current_room = String::new();
            out
        }
    }
}

/// The probe that carries `token`, if there is one.
fn probe(token: Option<String>) -> (r: Tick)
    ensures
        match token {
            Some(t) => r matches Tick::Probe(m) && m@ == MessageView::Ping(t@),
            None => r is Idle,
        },
{
    match token {
        Some(t) => Tick::Probe(WsMessage::Ping(t)),
        None => Tick::Idle,
    }
}

} // verus!
