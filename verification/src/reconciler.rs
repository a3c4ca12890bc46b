//! The peer's side: one state that both the local player and the relay act on.
//!
//! Every event, from the player or from the relay, is one step: it changes the
//! state and yields the effects that are to follow, in order. The caller holds
//! the state under its lock for the length of the step and carries the effects
//! out after it has let go.

use crate::chat::{
    base64_bytes, decrypt_chat, encrypt_chat, envelope_text, is_envelope_of, ChatError,
};
use crate::clock::{silence, silence_between};
use crate::message::{MessageView, Version, VersionView, WsMessage};
use crate::room_code::{get_room_chat_key, get_room_hash, room_chat_key, room_hash};
use vstd::prelude::*;
use vstd::string::StringExecFns;

verus! {

/// A playback position that differs from the recorded one by more than this
/// many microseconds was reached by a seek.
pub const SEEK_THRESHOLD: i64 = 30_000;

/// How long to let the player settle after it reports a seek before its
/// position is read, in nanoseconds.
pub const SEEK_SETTLE: u64 = 100_000_000;

/// How long the relay may stay silent before the connection counts as lost,
/// in nanoseconds.
pub const RELAY_TIMEOUT: u64 = 10_000_000_000;

/// How long to wait before connecting anew after the connection was lost, in
/// nanoseconds.
pub const RECONNECT_DELAY: u64 = 3_141_592_653;

/// How long the party count stays on screen, in milliseconds.
pub const PARTY_COUNT_DURATION: u32 = 2000;

/// How long a chat message stays on screen, in milliseconds.
pub const CHAT_DURATION: u32 = 5000;

/// The request by which the player's user asks for a synchronised resume.
pub open spec fn queue_resume_request() -> Seq<char> {
    "queue_resume"@
}

/// The value that marks the request channel as read.
pub open spec fn request_read_mark() -> Seq<char> {
    "."@
}

/// Something for the local player to do.
#[derive(Clone, Debug, PartialEq, Eq)]
pub enum PlayerCommand {
    /// Pause or unpause.
    SetPause(bool),
    /// Play at normal speed.
    ResetSpeed,
    /// Pause, and seek to exactly this position, in microseconds, showing the
    /// seek bar: one command, which the player carries out as a whole.
    PauseAndSeek(i64),
    /// Show the party count on screen for [`PARTY_COUNT_DURATION`].
    ShowPartyCount(u32),
    /// Show a chat message on screen for [`CHAT_DURATION`].
    ShowChat(String),
    /// Make the party count known to the player's scripts.
    PublishPartyCount(u32),
    /// Make the room identifier known to the player's scripts.
    PublishRoomHash(String),
    /// Make the custom room code known to the player's scripts.
    PublishCustomRoomCode(String),
    /// Make the latest chat message known to the player's scripts.
    PublishChat(String),
    /// Mark the request channel as read.
    AcknowledgeRequest,
}

/// The mathematical content of a [`PlayerCommand`].
pub enum CommandView {
    SetPause(bool),
    ResetSpeed,
    PauseAndSeek(i64),
    ShowPartyCount(u32),
    ShowChat(Seq<char>),
    PublishPartyCount(u32),
    PublishRoomHash(Seq<char>),
    PublishCustomRoomCode(Seq<char>),
    PublishChat(Seq<char>),
    AcknowledgeRequest,
}

impl View for PlayerCommand {
    type V = CommandView;

    open spec fn view(&self) -> CommandView {
        match self {
            PlayerCommand::SetPause(b) => CommandView::SetPause(*b),
            PlayerCommand::ResetSpeed => CommandView::ResetSpeed,
            PlayerCommand::PauseAndSeek(t) => CommandView::PauseAndSeek(*t),
            PlayerCommand::ShowPartyCount(n) => CommandView::ShowPartyCount(*n),
            PlayerCommand::ShowChat(s) => CommandView::ShowChat(s@),
            PlayerCommand::PublishPartyCount(n) => CommandView::PublishPartyCount(*n),
            PlayerCommand::PublishRoomHash(s) => CommandView::PublishRoomHash(s@),
            PlayerCommand::PublishCustomRoomCode(s) => CommandView::PublishCustomRoomCode(s@),
            PlayerCommand::PublishChat(s) => CommandView::PublishChat(s@),
            PlayerCommand::AcknowledgeRequest => CommandView::AcknowledgeRequest,
        }
    }
}

/// One thing that is to follow a step.
#[derive(Clone, Debug, PartialEq, Eq)]
pub enum Effect {
    /// Have the player do this. If it fails, give up the effects that remain
    /// and report the failure.
    Player(PlayerCommand),
    /// Have the player do this, and go on whether it worked or not.
    PlayerIfPossible(PlayerCommand),
    /// Send this to the relay.
    Send(WsMessage),
    /// Read the player's position and send it to the relay as an
    /// `AbsoluteSeek`, so that a newcomer can catch up. If the position cannot
    /// be read, send nothing.
    AnnouncePosition,
}

/// The mathematical content of an [`Effect`].
pub enum EffectView {
    Player(CommandView),
    PlayerIfPossible(CommandView),
    Send(MessageView),
    AnnouncePosition,
}

impl View for Effect {
    type V = EffectView;

    open spec fn view(&self) -> EffectView {
        match self {
            Effect::Player(c) => EffectView::Player(c@),
            Effect::PlayerIfPossible(c) => EffectView::PlayerIfPossible(c@),
            Effect::Send(m) => EffectView::Send(m@),
            Effect::AnnouncePosition => EffectView::AnnouncePosition,
        }
    }
}

/// The contents of a list of effects, in order.
pub open spec fn effects_view(v: Seq<Effect>) -> Seq<EffectView> {
    v.map_values(|e: Effect| e@)
}

/// Something that happened at the local player.
#[derive(Clone, Debug, PartialEq, Eq)]
pub enum PlayerEvent {
    /// The player was paused or unpaused while its position was `time`.
    PauseChanged { paused: bool, time: i64 },
    /// The player reported a seek; once it had settled its position was `time`
    /// and it was paused or not.
    Seeked { time: i64, paused: bool },
    /// The player loaded the file of this name.
    FileChanged { filename: String },
    /// The player's user made this request.
    Request(String),
    /// The player's user chose this room code; empty to go back to the file's.
    CustomRoomCode(String),
    /// The player's user typed this chat message.
    ChatTyped(String),
}

/// The mathematical content of a [`PlayerEvent`].
pub enum PlayerEventView {
    PauseChanged { paused: bool, time: i64 },
    Seeked { time: i64, paused: bool },
    FileChanged { filename: Seq<char> },
    Request(Seq<char>),
    CustomRoomCode(Seq<char>),
    ChatTyped(Seq<char>),
}

impl View for PlayerEvent {
    type V = PlayerEventView;

    open spec fn view(&self) -> PlayerEventView {
        match self {
            PlayerEvent::PauseChanged { paused, time } => PlayerEventView::PauseChanged {
                paused: *paused,
                time: *time,
            },
            PlayerEvent::Seeked { time, paused } => PlayerEventView::Seeked {
                time: *time,
                paused: *paused,
            },
            PlayerEvent::FileChanged { filename } => PlayerEventView::FileChanged {
                filename: filename@,
            },
            PlayerEvent::Request(s) => PlayerEventView::Request(s@),
            PlayerEvent::CustomRoomCode(s) => PlayerEventView::CustomRoomCode(s@),
            PlayerEvent::ChatTyped(s) => PlayerEventView::ChatTyped(s@),
        }
    }
}

/// What a peer knows of its own synchronisation.
#[derive(Debug)]
pub struct Reconciler {
    party_count: u32,
    paused: bool,
    time: i64,
    room_code: String,
    custom_room_code: String,
    room_hash: String,
    chat_salt: String,
    relay_room: String,
    last_ping: u64,
}

/// The mathematical content of a [`Reconciler`].
pub struct PeerView {
    /// The number of members in the peer's room, as the relay last told it;
    /// zero while the peer has not been told.
    pub party_count: u32,
    /// Whether the peer takes its player to be paused.
    pub paused: bool,
    /// The last playback position the peer has recorded, in microseconds.
    pub time: i64,
    /// The room code that comes from the file being played.
    pub room_code: Seq<char>,
    /// The room code that the user chose; empty if none.
    pub custom_room_code: Seq<char>,
    /// The identifier of the room the peer asks to be in.
    pub room_hash: Seq<char>,
    /// The salt that the relay issued for the room's chat key.
    pub chat_salt: Seq<char>,
    /// The relay's namespace.
    pub relay_room: Seq<char>,
    /// What the monotonic clock showed when the relay was last heard.
    pub last_ping: u64,
}

impl View for Reconciler {
    type V = PeerView;

    closed spec fn view(&self) -> PeerView {
        PeerView {
            party_count: self.party_count,
            paused: self.paused,
            time: self.time,
            room_code: self.room_code@,
            custom_room_code: self.custom_room_code@,
            room_hash: self.room_hash@,
            chat_salt: self.chat_salt@,
            relay_room: self.relay_room@,
            last_ping: self.last_ping,
        }
    }
}

/// A state and the effects of the step that led to it.
pub struct Stepped {
    pub state: PeerView,
    pub effects: Seq<EffectView>,
}

impl PeerView {
    /// The room code in force: the user's own if there is one, else the file's.
    pub open spec fn code(self) -> Seq<char> {
        if self.custom_room_code.len() == 0 {
            self.room_code
        } else {
            self.custom_room_code
        }
    }

    /// The room identifier is the one that the room code in force and the
    /// relay's namespace give.
    pub open spec fn wf(self) -> bool {
        self.room_hash == room_hash(self.code(), self.relay_room)
    }

    /// The chat key of the peer's room.
    pub open spec fn chat_key(self) -> Seq<u8> {
        room_chat_key(self.code(), self.relay_room, self.chat_salt)
    }

    /// This state, with nothing to follow.
    pub open spec fn quiet(self) -> Stepped {
        Stepped { state: self, effects: Seq::empty() }
    }

    /// The state at the start: alone, playing, at position zero, with the room
    /// that `code` names.
    pub open spec fn initial(code: Seq<char>, relay_room: Seq<char>) -> PeerView {
        PeerView {
            party_count: 0,
            paused: false,
            time: 0,
            room_code: code,
            custom_room_code: Seq::empty(),
            room_hash: room_hash(code, relay_room),
            chat_salt: Seq::empty(),
            relay_room,
            last_ping: 0,
        }
    }

    /// Whether position `time` is further from the recorded one than a playing
    /// or paused player drifts: whether the player has seeked.
    pub open spec fn has_seeked(self, time: i64) -> bool {
        time - self.time > SEEK_THRESHOLD || self.time - time > SEEK_THRESHOLD
    }

    /// The player was paused or unpaused at position `time`.
    ///
    /// A change that the state shows already is the echo of a command and is
    /// passed over. Otherwise the position is recorded. Alone, the peer
    /// follows its player. In a party it stays paused: a pause is announced to
    /// the others as a seek to the position, and every unpause is undone and a
    /// synchronised resume asked for in its place.
    pub open spec fn pause_changed(self, paused: bool, time: i64) -> Stepped {
        if paused == self.paused {
            self.quiet()
        } else {
            let recorded = PeerView { time, ..self };
            if self.party_count < 2 {
                PeerView { paused, ..recorded }.quiet()
            } else if paused {
                Stepped {
                    state: PeerView { paused: true, ..recorded },
                    effects: seq![EffectView::Send(MessageView::AbsoluteSeek(time))],
                }
            } else {
                Stepped {
                    state: PeerView { paused: true, ..recorded },
                    effects: seq![
                        EffectView::Player(CommandView::SetPause(true)),
                        EffectView::Send(MessageView::Resume),
                    ],
                }
            }
        }
    }

    /// The player reported a seek and was found at position `time`, paused or
    /// not.
    ///
    /// Nothing happens unless the position shows that the player has seeked.
    /// Then the position is recorded, and in a party the peer pauses, has its
    /// player pause if it is not paused, and announces the seek to the others.
    pub open spec fn seeked(self, time: i64, paused: bool) -> Stepped {
        if !self.has_seeked(time) {
            self.quiet()
        } else {
            let in_party = self.party_count > 1;
            let publish = seq![
                EffectView::Player(CommandView::PublishPartyCount(self.party_count)),
            ];
            let pause = if in_party && !paused {
                seq![EffectView::Player(CommandView::SetPause(true))]
            } else {
                Seq::empty()
            };
            let announce = if in_party {
                seq![EffectView::Send(MessageView::AbsoluteSeek(time))]
            } else {
                Seq::empty()
            };
            Stepped {
                state: PeerView { time, paused: in_party || self.paused, ..self },
                effects: publish + pause + announce,
            }
        }
    }

    /// What follows a change of room: the player's scripts are told the count
    /// and the identifier, and the relay is asked for the room.
    pub open spec fn room_effects(self) -> Seq<EffectView> {
        seq![
            EffectView::Player(CommandView::PublishPartyCount(0)),
            EffectView::Player(CommandView::PublishRoomHash(self.room_hash)),
            EffectView::Send(MessageView::Join(self.room_hash)),
        ]
    }

    /// The player loaded the file `filename`.
    ///
    /// While the user's own room code is in force the room stays. Otherwise
    /// the peer counts as alone again, takes the file's name for its room code
    /// unless the name is empty, and asks for that room.
    pub open spec fn file_changed(self, filename: Seq<char>) -> Stepped {
        if self.custom_room_code.len() > 0 {
            self.quiet()
        } else {
            let state = if filename.len() == 0 {
                PeerView { party_count: 0, ..self }
            } else {
                PeerView {
                    party_count: 0,
                    room_code: filename,
                    room_hash: room_hash(filename, self.relay_room),
                    ..self
                }
            };
            Stepped { state, effects: state.room_effects() }
        }
    }

    /// The player's user made the request `request`.
    ///
    /// The mark that a request was read is no request. Any other is marked as
    /// read. A request to resume unpauses the player at once if the peer is
    /// alone, and asks the relay for a synchronised resume if it is in a party.
    pub open spec fn requested(self, request: Seq<char>) -> Stepped {
        if request == request_read_mark() {
            self.quiet()
        } else {
            let ack = seq![EffectView::Player(CommandView::AcknowledgeRequest)];
            Stepped {
                state: self,
                effects: if request != queue_resume_request() {
                    ack
                } else if self.party_count < 2 {
                    ack + seq![EffectView::Player(CommandView::SetPause(false))]
                } else {
                    ack + seq![EffectView::Send(MessageView::Resume)]
                },
            }
        }
    }

    /// The player's user chose the room code `code`; empty to go back to the
    /// file's. The peer asks for the room of the code now in force.
    pub open spec fn custom_code_chosen(self, code: Seq<char>) -> Stepped {
        let chosen = PeerView { custom_room_code: code, ..self };
        let state = PeerView { room_hash: room_hash(chosen.code(), self.relay_room), ..chosen };
        Stepped {
            state,
            effects: seq![
                EffectView::Player(CommandView::PublishCustomRoomCode(code)),
                EffectView::Player(CommandView::PublishRoomHash(state.room_hash)),
                EffectView::Send(MessageView::Join(state.room_hash)),
            ],
        }
    }

    /// The relay told the peer that its room has `count` members.
    ///
    /// The peer pauses, unless it was alone or new and is told that it is
    /// alone. It records the count. A paused peer has its player pause, play
    /// at normal speed and show the count; not so a peer that was paused
    /// already and is told the count it knows, which has asked all that of
    /// its player before. A peer that was in a room and sees the count grow
    /// announces its position, so that the newcomer can catch up. All that is
    /// asked of the player here is asked if possible only.
    pub open spec fn party(self, count: u32) -> Stepped {
        let paused = if self.party_count < 2 && count == 1 {
            self.paused
        } else {
            true
        };
        let repeated = self.paused && count == self.party_count;
        let publish = seq![EffectView::PlayerIfPossible(CommandView::PublishPartyCount(count))];
        let pause = if paused && !repeated {
            seq![
                EffectView::PlayerIfPossible(CommandView::SetPause(true)),
                EffectView::PlayerIfPossible(CommandView::ResetSpeed),
                EffectView::PlayerIfPossible(CommandView::ShowPartyCount(count)),
            ]
        } else {
            Seq::empty()
        };
        let announce = if self.party_count > 0 && count > self.party_count {
            seq![EffectView::AnnouncePosition]
        } else {
            Seq::empty()
        };
        Stepped {
            state: PeerView { party_count: count, paused, ..self },
            effects: publish + pause + announce,
        }
    }

    /// The relay confirmed a synchronised resume: the peer and its player
    /// unpause.
    pub open spec fn resumed(self) -> Stepped {
        Stepped {
            state: PeerView { paused: false, ..self },
            effects: seq![EffectView::Player(CommandView::SetPause(false))],
        }
    }

    /// The relay passed on a seek to `time`: the peer pauses and records the
    /// position, and its player is told, in one command, to pause and to seek
    /// there.
    pub open spec fn sought(self, time: i64) -> Stepped {
        Stepped {
            state: PeerView { paused: true, time, ..self },
            effects: seq![EffectView::Player(CommandView::PauseAndSeek(time))],
        }
    }

    /// The relay probed the peer at `now`: the relay counts as heard and the
    /// probe is answered with its own token.
    pub open spec fn pinged(self, token: Seq<char>, now: u64) -> Stepped {
        Stepped {
            state: PeerView { last_ping: now, ..self },
            effects: seq![EffectView::Send(MessageView::Pong(token))],
        }
    }

    /// The relay passed on a chat envelope, which gave `text` or failed to
    /// open. A message that opened is made known to the player's scripts and
    /// shown on screen; one that did not is passed over.
    pub open spec fn chat_received(self, text: Result<Seq<char>, ChatError>) -> Stepped {
        match text {
            Ok(t) => Stepped {
                state: self,
                effects: seq![
                    EffectView::Player(CommandView::PublishChat(t)),
                    EffectView::PlayerIfPossible(CommandView::ShowChat(t)),
                ],
            },
            Err(_) => self.quiet(),
        }
    }

    /// The relay issued the salt `salt` for the room's chat key.
    pub open spec fn salted(self, salt: Seq<char>) -> Stepped {
        PeerView { chat_salt: salt, ..self }.quiet()
    }

    /// What a message from the relay does at `now`. The messages that only a
    /// peer sends, and those that merely inform, are passed over.
    pub open spec fn relay_message(self, msg: MessageView, now: u64) -> Stepped {
        match msg {
            MessageView::Party(count) => self.party(count),
            MessageView::Resume => self.resumed(),
            MessageView::AbsoluteSeek(time) => self.sought(time),
            MessageView::Ping(token) => self.pinged(token, now),
            MessageView::Chat(envelope) => self.chat_received(
                envelope_text(base64_bytes(envelope), self.chat_key()),
            ),
            MessageView::RoomRandomChatSalt(salt) => self.salted(salt),
            MessageView::Info(_) | MessageView::Info2 { .. } | MessageView::Join(_) | MessageView::Pong(
                _,
            ) => self.quiet(),
        }
    }

    /// Whether `effects` can follow the typing of the chat message `text`:
    /// one envelope of it, sealed under the chat key of the peer's room, is
    /// sent to the relay, or nothing at all where sealing failed.
    pub open spec fn follows_chat(self, effects: Seq<EffectView>, text: Seq<char>) -> bool {
        effects.len() == 0 || exists|e: Seq<char>|
            #[trigger] is_envelope_of(e, text, self.chat_key()) && effects == self.chat_typed(
                Some(e),
            ).effects
    }

    /// What the typing of a chat message leads to, given the envelope that
    /// sealing it gave, if any: the envelope is sent to the relay.
    pub open spec fn chat_typed(self, envelope: Option<Seq<char>>) -> Stepped {
        match envelope {
            Some(e) => Stepped { state: self, effects: seq![EffectView::Send(MessageView::Chat(e))] },
            None => self.quiet(),
        }
    }

    /// The state after the connection to the relay was lost: membership is
    /// not taken to outlast the connection.
    pub open spec fn disconnected(self) -> PeerView {
        PeerView { party_count: 0, ..self }
    }

    /// What the peer says when a connection to the relay is made: its version,
    /// as text and as a number, and the room it wants.
    pub open spec fn greeting(self, version_text: Seq<char>, version: VersionView) -> Seq<
        MessageView,
    > {
        seq![
            MessageView::Info(version_text),
            MessageView::Info2 { version },
            MessageView::Join(self.room_hash),
        ]
    }
}

/// Whether `text` is a number of 64 bits written in decimal: one to twenty
/// digits.
pub open spec fn is_decimal_number(text: Seq<char>) -> bool {
    &&& 1 <= text.len() <= 20
    &&& forall|i: int| 0 <= i < text.len() ==> '0' <= #[trigger] text[i] <= '9'
}

/// `rand::random` for a 64-bit number, written in decimal by `u64::to_string`:
/// the room code of a peer whose player plays no file. Every call may give
/// another; of every outcome this holds: it is one to twenty decimal digits.
/// The call panics where the system's source of randomness fails.
#[verifier::external_body]
fn random_room_code() -> (r: String)
    ensures
        is_decimal_number(r@),
{
    rand::random::<u64>().to_string()
}

/// Adds one effect at the end.
fn put(out: &mut Vec<Effect>, e: Effect)
    ensures
        effects_view(final(out)@) == effects_view(old(out)@).push(e@),
{
    out.push(e);
}

/// No effects.
fn no_effects() -> (out: Vec<Effect>)
    ensures
        effects_view(out@) == Seq::<EffectView>::empty(),
{
    let out: Vec<Effect> = Vec::new();
    out
}

impl Reconciler {
    /// The invariant of the state; see [`PeerView::wf`].
    pub open spec fn wf(&self) -> bool {
        self@.wf()
    }

    /// The state at the start, for a player that plays the file `code`, under
    /// the relay namespace `relay_room`, and what the player's scripts are
    /// told of it.
    pub fn with_room_code(code: String, relay_room: String) -> (r: (Reconciler, Vec<Effect>))
        ensures
            r.0.wf(),
            r.0@ == PeerView::initial(code@, relay_room@),
            effects_view(r.1@) == seq![
                EffectView::Player(CommandView::PublishPartyCount(0)),
                EffectView::Player(CommandView::PublishCustomRoomCode(Seq::empty())),
                EffectView::Player(CommandView::PublishRoomHash(room_hash(code@, relay_room@))),
            ],
    {
        let hash = get_room_hash(code.as_str(), relay_room.as_str());
        let mut out = no_effects();
        put(&mut out, Effect::Player(PlayerCommand::PublishPartyCount(0)));
        put(&mut out, Effect::Player(PlayerCommand::PublishCustomRoomCode(String::new())));
        put(&mut out, Effect::Player(PlayerCommand::PublishRoomHash(hash.clone())));
        let state = Reconciler {
            party_count: 0,
            paused: false,
            time: 0,
            room_code: code,
            custom_room_code: String::new(),
            room_hash: hash,
            chat_salt: String::new(),
            relay_room,
            last_ping: 0,
        };
        (state, out)
    }

    /// The state at the start. The room code is the name of the file that the
    /// player plays; a peer whose player plays none gets a number drawn at
    /// random for its code, so that it is alone in its room. Drawing the
    /// number panics where the system's source of randomness fails.
    pub fn start(filename: Option<String>, relay_room: String) -> (r: (Reconciler, Vec<Effect>))
        ensures
            r.0.wf(),
            r.0@ == PeerView::initial(r.0@.room_code, relay_room@),
            filename matches Some(f) ==> r.0@.room_code == f@,
            filename is None ==> is_decimal_number(r.0@.room_code),
            effects_view(r.1@) == seq![
                EffectView::Player(CommandView::PublishPartyCount(0)),
                EffectView::Player(CommandView::PublishCustomRoomCode(Seq::empty())),
                EffectView::Player(CommandView::PublishRoomHash(r.0@.room_hash)),
            ],
    {
        let code = match filename {
            Some(f) => f,
            None => random_room_code(),
        };
        Reconciler::with_room_code(code, relay_room)
    }

    /// The number of members in the peer's room, as the relay last told it.
    pub fn party_count(&self) -> (r: u32)
        ensures
            r == self@.party_count,
    {
        self.party_count
    }

    /// Whether the peer takes its player to be paused.
    pub fn paused(&self) -> (r: bool)
        ensures
            r == self@.paused,
    {
        self.paused
    }

    /// The last playback position the peer has recorded, in microseconds.
    pub fn time(&self) -> (r: i64)
        ensures
            r == self@.time,
    {
        self.time
    }

    /// The identifier of the room the peer asks to be in.
    pub fn room_hash(&self) -> (r: &str)
        ensures
            r@ == self@.room_hash,
    {
        self.room_hash.as_str()
    }

    /// The room code in force: the user's own if there is one, else the file's.
    pub fn code(&self) -> (r: &str)
        ensures
            r@ == self@.code(),
    {
        if self.custom_room_code.as_str().is_empty() {
            self.room_code.as_str()
        } else {
            self.custom_room_code.as_str()
        }
    }

    /// Whether position `time` shows that the player has seeked; see
    /// [`PeerView::has_seeked`].
    pub fn has_seeked(&self, time: i64) -> (r: bool)
        ensures
            r == self@.has_seeked(time),
    {
        let delta: i128 = time as i128 - self.time as i128;
        delta > SEEK_THRESHOLD as i128 || -delta > SEEK_THRESHOLD as i128
    }

    fn on_pause_changed(&mut self, paused: bool, time: i64) -> (out: Vec<Effect>)
        ensures
            final(self)@ == old(self)@.pause_changed(paused, time).state,
            effects_view(out@) == old(self)@.pause_changed(paused, time).effects,
    {
        let mut out = no_effects();
        if paused == self.paused {
            return out;
        }
        self.time = time;
        if self.party_count < 2 {
            self.paused = paused;
            return out;
        }
        self.paused = true;
        if paused {
            put(&mut out, Effect::Send(WsMessage::AbsoluteSeek(time)));
        } else {
            put(&mut out, Effect::Player(PlayerCommand::SetPause(true)));
            put(&mut out, Effect::Send(WsMessage::Resume));
        }
        out
    }

    fn on_seeked(&mut self, time: i64, paused: bool) -> (out: Vec<Effect>)
        ensures
            final(self)@ == old(self)@.seeked(time, paused).state,
            effects_view(out@) == old(self)@.seeked(time, paused).effects,
    {
        let mut out = no_effects();
        if !self.has_seeked(time) {
            return out;
        }
        self.time = time;
        let in_party = self.party_count > 1;
        if in_party {
            self.paused = true;
        }
        put(&mut out, Effect::Player(PlayerCommand::PublishPartyCount(self.party_count)));
        if in_party && !paused {
            put(&mut out, Effect::Player(PlayerCommand::SetPause(true)));
        }
        if in_party {
            put(&mut out, Effect::Send(WsMessage::AbsoluteSeek(time)));
        }
        out
    }

    fn room_effects(&self) -> (out: Vec<Effect>)
        ensures
            effects_view(out@) == self@.room_effects(),
    {
        let mut out = no_effects();
        put(&mut out, Effect::Player(PlayerCommand::PublishPartyCount(0)));
        put(&mut out, Effect::Player(PlayerCommand::PublishRoomHash(self.room_hash.clone())));
        put(&mut out, Effect::Send(WsMessage::Join(self.room_hash.clone())));
        out
    }

    fn on_file_changed(&mut self, filename: String) -> (out: Vec<Effect>)
        ensures
            old(self).wf() ==> final(self).wf(),
            final(self)@ == old(self)@.file_changed(filename@).state,
            effects_view(out@) == old(self)@.file_changed(filename@).effects,
    {
        if !self.custom_room_code.as_str().is_empty() {
            return no_effects();
        }
        self.party_count = 0;
        if !filename.as_str().is_empty() {
            self.room_hash = get_room_hash(filename.as_str(), self.relay_room.as_str());
            self.room_code = filename;
        }
        self.room_effects()
    }

    fn on_request(&self, request: String) -> (out: Vec<Effect>)
        ensures
            effects_view(out@) == self@.requested(request@).effects,
            self@.requested(request@).state == self@,
    {
        let mut out = no_effects();
        if request == String::from_str(".") {
            return out;
        }
        put(&mut out, Effect::Player(PlayerCommand::AcknowledgeRequest));
        if request == String::from_str("queue_resume") {
            if self.party_count < 2 {
                put(&mut out, Effect::Player(PlayerCommand::SetPause(false)));
            } else {
                put(&mut out, Effect::Send(WsMessage::Resume));
            }
        }
        out
    }

    fn on_custom_code(&mut self, code: String) -> (out: Vec<Effect>)
        ensures
            final(self).wf(),
            final(self)@ == old(self)@.custom_code_chosen(code@).state,
            effects_view(out@) == old(self)@.custom_code_chosen(code@).effects,
    {
        let mut out = no_effects();
        put(&mut out, Effect::Player(PlayerCommand::PublishCustomRoomCode(code.clone())));
        self.custom_room_code = code;
        self.room_hash = get_room_hash(self.code(), self.relay_room.as_str());
        put(&mut out, Effect::Player(PlayerCommand::PublishRoomHash(self.room_hash.clone())));
        put(&mut out, Effect::Send(WsMessage::Join(self.room_hash.clone())));
        out
    }

    /// What the typing of a chat message leads to, given the envelope that
    /// sealing it gave, if any; see [`PeerView::chat_typed`].
    pub fn chat_sealed(&self, envelope: Option<String>) -> (out: Vec<Effect>)
        ensures
            effects_view(out@) == self@.chat_typed(
                match envelope {
                    Some(e) => Some(e@),
                    None => None,
                },
            ).effects,
    {
        let mut out = no_effects();
        match envelope {
            Some(e) => {
                put(&mut out, Effect::Send(WsMessage::Chat(e)));
            },
            None => {},
        }
        out
    }

    fn on_chat_typed(&self, text: String) -> (out: Vec<Effect>)
        ensures
            self@.follows_chat(effects_view(out@), text@),
    {
        let key = get_room_chat_key(
            self.code(),
            self.relay_room.as_str(),
            self.chat_salt.as_str(),
        );
        match encrypt_chat(text, key) {
            Some(s) => {
                let ghost e = s@;
                assert(is_envelope_of(e, text@, self@.chat_key()));
                let out = self.chat_sealed(Some(s));
                out
            },
            None => no_effects(),
        }
    }

    /// Takes in one event from the local player.
    ///
    /// See [`PeerView::pause_changed`], [`PeerView::seeked`],
    /// [`PeerView::file_changed`], [`PeerView::requested`] and
    /// [`PeerView::custom_code_chosen`] for what each does. A typed chat
    /// message is sealed under the room's chat key and sent to the relay; the
    /// state stays as it is, and nothing is sent only where sealing failed.
    pub fn on_player_event(&mut self, event: PlayerEvent) -> (out: Vec<Effect>)
        ensures
            old(self).wf() ==> final(self).wf(),
            match event@ {
                PlayerEventView::PauseChanged { paused, time } => Stepped {
                    state: final(self)@,
                    effects: effects_view(out@),
                } == old(self)@.pause_changed(paused, time),
                PlayerEventView::Seeked { time, paused } => Stepped {
                    state: final(self)@,
                    effects: effects_view(out@),
                } == old(self)@.seeked(time, paused),
                PlayerEventView::FileChanged { filename } => Stepped {
                    state: final(self)@,
                    effects: effects_view(out@),
                } == old(self)@.file_changed(filename),
                PlayerEventView::Request(request) => Stepped {
                    state: final(self)@,
                    effects: effects_view(out@),
                } == old(self)@.requested(request),
                PlayerEventView::CustomRoomCode(code) => Stepped {
                    state: final(self)@,
                    effects: effects_view(out@),
                } == old(self)@.custom_code_chosen(code),
                PlayerEventView::ChatTyped(text) => {
                    &&& final(self)@ == old(self)@
                    &&& old(self)@.follows_chat(effects_view(out@), text)
                },
            },
    {
        match event {
            PlayerEvent::PauseChanged { paused, time } => self.on_pause_changed(paused, time),
            PlayerEvent::Seeked { time, paused } => self.on_seeked(time, paused),
            PlayerEvent::FileChanged { filename } => self.on_file_changed(filename),
            PlayerEvent::Request(request) => self.on_request(request),
            PlayerEvent::CustomRoomCode(code) => self.on_custom_code(code),
            PlayerEvent::ChatTyped(text) => self.on_chat_typed(text),
        }
    }

    fn on_party(&mut self, count: u32) -> (out: Vec<Effect>)
        ensures
            final(self)@ == old(self)@.party(count).state,
            effects_view(out@) == old(self)@.party(count).effects,
    {
        let announce = self.party_count > 0 && count > self.party_count;
        let repeated = self.paused && count == self.party_count;
        if !(self.party_count < 2 && count == 1) {
            self.paused = true;
        }
        self.party_count = count;
        let mut out = no_effects();
        put(&mut out, Effect::PlayerIfPossible(PlayerCommand::PublishPartyCount(count)));
        if self.paused && !repeated {
            put(&mut out, Effect::PlayerIfPossible(PlayerCommand::SetPause(true)));
            put(&mut out, Effect::PlayerIfPossible(PlayerCommand::ResetSpeed));
            put(&mut out, Effect::PlayerIfPossible(PlayerCommand::ShowPartyCount(count)));
        }
        if announce {
            put(&mut out, Effect::AnnouncePosition);
        }
        out
    }

    /// Takes in a chat envelope from the relay, given what it opened to; see
    /// [`PeerView::chat_received`].
    pub fn chat_opened(&self, text: Result<String, ChatError>) -> (out: Vec<Effect>)
        ensures
            effects_view(out@) == self@.chat_received(
                match text {
                    Ok(t) => Ok(t@),
                    Err(e) => Err(e),
                },
            ).effects,
    {
        let mut out = no_effects();
        match text {
            Ok(t) => {
                put(&mut out, Effect::Player(PlayerCommand::PublishChat(t.clone())));
                put(&mut out, Effect::PlayerIfPossible(PlayerCommand::ShowChat(t)));
            },
            Err(_) => {},
        }
        out
    }

    /// Takes in one message from the relay at `now` on the monotonic clock;
    /// see [`PeerView::relay_message`].
    pub fn on_relay_message(&mut self, msg: WsMessage, now: u64) -> (out: Vec<Effect>)
        ensures
            old(self).wf() ==> final(self).wf(),
            final(self)@ == old(self)@.relay_message(msg@, now).state,
            effects_view(out@) == old(self)@.relay_message(msg@, now).effects,
    {
        match msg {
            WsMessage::Party(count) => self.on_party(count),
            WsMessage::Resume => {
                self.paused = false;
                let mut out = no_effects();
                put(&mut out, Effect::Player(PlayerCommand::SetPause(false)));
                out
            },
            WsMessage::AbsoluteSeek(time) => {
                self.paused = true;
                self.time = time;
                let mut out = no_effects();
                put(&mut out, Effect::Player(PlayerCommand::PauseAndSeek(time)));
                out
            },
            WsMessage::Ping(token) => {
                self.last_ping = now;
                let mut out = no_effects();
                put(&mut out, Effect::Send(WsMessage::Pong(token)));
                out
            },
            WsMessage::Chat(envelope) => {
                let key = get_room_chat_key(
                    self.code(),
                    self.relay_room.as_str(),
                    self.chat_salt.as_str(),
                );
                let text = decrypt_chat(envelope.as_str(), key);
                self.chat_opened(text)
            },
            WsMessage::RoomRandomChatSalt(salt) => {
                self.chat_salt = salt;
                no_effects()
            },
            WsMessage::Info(_) | WsMessage::Info2 { .. } | WsMessage::Join(_) | WsMessage::Pong(_) => {
                no_effects()
            },
        }
    }

    /// Whether the relay has been silent for longer than [`RELAY_TIMEOUT`] at
    /// `now` on the monotonic clock, so that the connection counts as lost.
    pub fn relay_lost(&self, now: u64) -> (r: bool)
        ensures
            r == (silence(self@.last_ping, now) > RELAY_TIMEOUT),
    {
        silence_between(self.last_ping, now) > RELAY_TIMEOUT
    }

    /// A connection to the relay was made at `now` on the monotonic clock.
    /// The relay counts as heard, and the result is what the peer says first;
    /// see [`PeerView::greeting`].
    pub fn on_connected(&mut self, now: u64, version_text: String, version: Version) -> (out: Vec<
        WsMessage,
    >)
        ensures
            old(self).wf() ==> final(self).wf(),
            final(self)@ == (PeerView { last_ping: now, ..old(self)@ }),
            out@.map_values(|m: WsMessage| m@) == old(self)@.greeting(version_text@, version@),
    {
        self.last_ping = now;
        let mut out: Vec<WsMessage> = Vec::new();
        out.push(WsMessage::Info(version_text));
        out.push(WsMessage::Info2 { version });
        out.push(WsMessage::Join(self.room_hash.clone()));
        out
    }

    /// The connection to the relay was lost: the peer counts as alone until
    /// the relay tells it otherwise.
    pub fn on_connection_lost(&mut self)
        ensures
            old(self).wf() ==> final(self).wf(),
            final(self)@ == old(self)@.disconnected(),
    {
        self.party_count = 0;
    }
}

} // verus!
