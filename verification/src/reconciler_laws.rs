//! What holds of the peer's state whatever the events.

use crate::message::MessageView;
use crate::reconciler::{CommandView, EffectView, PeerView, Stepped, SEEK_THRESHOLD};
use vstd::prelude::*;

verus! {

/// An effect that sends something to the relay, now or once the player's
/// position has been read.
pub open spec fn reaches_relay(e: EffectView) -> bool {
    e is Send || e is AnnouncePosition
}

/// A reported seek leads to something exactly if the player is found more
/// than the threshold away from the recorded position, in either direction. A
/// position that is off by the threshold itself changes nothing; in a party
/// one that is off by more is recorded and announced to the relay.
pub proof fn law_seek_threshold(s: PeerView, time: i64, paused: bool)
    ensures
        s.has_seeked(time) <==> time - s.time > SEEK_THRESHOLD || s.time - time > SEEK_THRESHOLD,
        !s.has_seeked(time) ==> s.seeked(time, paused) == s.quiet(),
        time - s.time == SEEK_THRESHOLD || s.time - time == SEEK_THRESHOLD ==> s.seeked(time, paused)
            == s.quiet(),
        s.has_seeked(time) ==> s.seeked(time, paused).state.time == time && s.seeked(
            time,
            paused,
        ).effects.len() > 0,
        s.has_seeked(time) && s.party_count > 1 ==> s.seeked(time, paused).state.paused && s.seeked(
            time,
            paused,
        ).effects.last() == EffectView::Send(MessageView::AbsoluteSeek(time)),
        s.has_seeked(time) && s.party_count <= 1 ==> s.seeked(time, paused).state.paused == s.paused
            && s.seeked(time, paused).effects == seq![
            EffectView::Player(CommandView::PublishPartyCount(s.party_count)),
        ],
{
}

/// Hearing the same party count a second time changes nothing in the state,
/// sends nothing to the relay and asks nothing of the player but to make the
/// count known to its scripts: the peer does not pause twice and does not
/// announce its position twice.
pub proof fn law_party_twice(s: PeerView, count: u32)
    ensures
        s.party(count).state.party(count).state == s.party(count).state,
        s.party(count).state.party(count).effects == seq![
            EffectView::PlayerIfPossible(CommandView::PublishPartyCount(count)),
        ],
        s.paused && count == s.party_count ==> s.party(count) == (Stepped {
            state: s,
            effects: seq![EffectView::PlayerIfPossible(CommandView::PublishPartyCount(count))],
        }),
{
}

/// A party of two or more pauses the peer, and a peer that was in a room
/// before announces its position when the count grows; a peer that opens
/// alone is left as it is.
pub proof fn law_party_forms(s: PeerView, count: u32)
    ensures
        s.party(count).state.party_count == count,
        count >= 2 ==> s.party(count).state.paused,
        s.party_count >= 2 ==> s.party(count).state.paused,
        s.party_count < 2 && count == 1 ==> s.party(count).state.paused == s.paused,
        s.party_count > 0 && count > s.party_count ==> s.party(count).effects.last()
            == EffectView::AnnouncePosition,
        !(s.party_count > 0 && count > s.party_count) ==> forall|k: int|
            0 <= k < s.party(count).effects.len() ==> !reaches_relay(#[trigger] s.party(count).effects[k]),
{
}

/// What the relay makes the player do does not come back to the relay. When
/// the player reports the pause that a relayed seek caused, or the unpause
/// that a confirmed resume caused, or a seek that ended within the threshold
/// of the relayed position, the peer passes it over.
pub proof fn law_no_echo(s: PeerView, time: i64, reported: i64, paused: bool)
    ensures
        s.sought(time).state.pause_changed(true, reported) == s.sought(time).state.quiet(),
        s.resumed().state.pause_changed(false, reported) == s.resumed().state.quiet(),
        reported - time <= SEEK_THRESHOLD && time - reported <= SEEK_THRESHOLD ==> s.sought(
            time,
        ).state.seeked(reported, paused) == s.sought(time).state.quiet(),
{
}

/// In a party the player never runs on its own account: whatever the player
/// reports, the peer stays paused, and every unpause, the first as any later
/// one, is answered by pausing the player again and asking the relay for a
/// resume.
pub proof fn law_party_stays_paused(s: PeerView, paused: bool, time: i64)
    requires
        s.party_count >= 2,
        s.paused,
    ensures
        s.pause_changed(paused, time).state.paused,
        !paused ==> s.pause_changed(paused, time).effects == seq![
            EffectView::Player(CommandView::SetPause(true)),
            EffectView::Send(MessageView::Resume),
        ],
        paused ==> s.pause_changed(paused, time) == s.quiet(),
{
}

/// A seek that the relay passed on reaches the player as one command, and
/// nothing goes back to the relay.
pub proof fn law_relayed_seek_is_one_command(s: PeerView, time: i64, now: u64)
    ensures
        s.relay_message(MessageView::AbsoluteSeek(time), now).effects == seq![
            EffectView::Player(CommandView::PauseAndSeek(time)),
        ],
        s.relay_message(MessageView::AbsoluteSeek(time), now).state == (PeerView {
            paused: true,
            time,
            ..s
        }),
{
}

/// Every step keeps the room identifier in line with the room code in force.
pub proof fn law_room_hash_follows_code(s: PeerView, filename: Seq<char>, code: Seq<char>, count: u32, msg: MessageView, now: u64)
    requires
        s.wf(),
    ensures
        s.file_changed(filename).state.wf(),
        s.custom_code_chosen(code).state.wf(),
        s.relay_message(msg, now).state.wf(),
        s.disconnected().wf(),
{
}

} // verus!
