use simulcast_mpv::chat::{decrypt_chat, encrypt_chat, ChatError};
use simulcast_mpv::message::{Version, WsMessage};
use simulcast_mpv::reconciler::{
    Effect, PlayerCommand, PlayerEvent, Reconciler, RECONNECT_DELAY, RELAY_TIMEOUT, SEEK_SETTLE,
    SEEK_THRESHOLD,
};
use simulcast_mpv::room_code::{get_room_chat_key, get_room_hash};

fn peer(file: &str) -> Reconciler {
    Reconciler::with_room_code(file.to_string(), "ns".to_string()).0
}

fn in_party(file: &str, count: u32) -> Reconciler {
    let mut p = peer(file);
    p.on_relay_message(WsMessage::Party(count), 0);
    p
}

fn player(c: PlayerCommand) -> Effect {
    Effect::Player(c)
}

fn maybe(c: PlayerCommand) -> Effect {
    Effect::PlayerIfPossible(c)
}

fn pause(p: &mut Reconciler, paused: bool, time: i64) -> Vec<Effect> {
    p.on_player_event(PlayerEvent::PauseChanged { paused, time })
}

fn seek(p: &mut Reconciler, time: i64, paused: bool) -> Vec<Effect> {
    p.on_player_event(PlayerEvent::Seeked { time, paused })
}

#[test]
fn constants_of_the_peer() {
    assert_eq!(SEEK_THRESHOLD, 30_000);
    assert_eq!(SEEK_SETTLE, 100_000_000);
    assert_eq!(RELAY_TIMEOUT, 10_000_000_000);
    assert_eq!(RECONNECT_DELAY, 3_141_592_653);
}

#[test]
fn start_takes_the_file_for_the_room_code() {
    let (p, effects) = Reconciler::start(Some("Movie.mkv".to_string()), "ns".to_string());
    assert_eq!(p.party_count(), 0);
    assert!(!p.paused());
    assert_eq!(p.time(), 0);
    assert_eq!(p.code(), "Movie.mkv");
    assert_eq!(p.room_hash(), get_room_hash("Movie.mkv", "ns"));
    assert_eq!(
        effects,
        vec![
            player(PlayerCommand::PublishPartyCount(0)),
            player(PlayerCommand::PublishCustomRoomCode(String::new())),
            player(PlayerCommand::PublishRoomHash(get_room_hash("Movie.mkv", "ns"))),
        ]
    );
}

#[test]
fn start_without_a_file_draws_a_number() {
    let (p, effects) = Reconciler::start(None, "ns".to_string());
    assert!(p.code().parse::<u64>().is_ok());
    assert!((1..=20).contains(&p.code().len()));
    assert!(p.code().chars().all(|c| c.is_ascii_digit()));
    assert_eq!(p.room_hash(), get_room_hash(p.code(), "ns"));
    assert_eq!(effects.len(), 3);
    let (q, _) = Reconciler::start(None, "ns".to_string());
    let (r, _) = Reconciler::start(None, "ns".to_string());
    assert!(p.code() != q.code() || q.code() != r.code());
}

#[test]
fn alone_the_peer_follows_its_player() {
    let mut p = peer("f");
    assert_eq!(pause(&mut p, true, 5_000_000), vec![]);
    assert!(p.paused());
    assert_eq!(p.time(), 5_000_000);
    assert_eq!(pause(&mut p, false, 6_000_000), vec![]);
    assert!(!p.paused());
    assert_eq!(p.time(), 6_000_000);
    let mut q = in_party("f", 1);
    assert_eq!(pause(&mut q, true, 1), vec![]);
    assert!(q.paused());
}

#[test]
fn a_pause_that_the_state_shows_is_passed_over() {
    let mut p = in_party("f", 2);
    assert!(p.paused());
    assert_eq!(pause(&mut p, true, 9_000_000), vec![]);
    assert_eq!(p.time(), 0);
    let mut q = peer("f");
    assert_eq!(pause(&mut q, false, 9_000_000), vec![]);
    assert_eq!(q.time(), 0);
}

#[test]
fn in_a_party_a_pause_is_announced_as_a_seek() {
    let mut p = in_party("f", 2);
    p.on_relay_message(WsMessage::Resume, 0);
    assert!(!p.paused());
    assert_eq!(pause(&mut p, true, 12_500_000), vec![Effect::Send(WsMessage::AbsoluteSeek(12_500_000))]);
    assert!(p.paused());
    assert_eq!(p.time(), 12_500_000);
}

#[test]
fn every_unpause_in_a_party_is_undone_and_asks_for_a_resume() {
    let mut p = in_party("f", 2);
    assert_eq!(
        pause(&mut p, false, 3_000_000),
        vec![player(PlayerCommand::SetPause(true)), Effect::Send(WsMessage::Resume)]
    );
    assert!(p.paused());
    assert_eq!(p.time(), 3_000_000);
    assert_eq!(
        pause(&mut p, false, 4_000_000),
        vec![player(PlayerCommand::SetPause(true)), Effect::Send(WsMessage::Resume)]
    );
    assert!(p.paused());
    assert_eq!(p.time(), 4_000_000);
}

#[test]
fn an_unpause_alone_goes_through() {
    let mut p = peer("f");
    pause(&mut p, true, 1);
    assert_eq!(pause(&mut p, false, 2), vec![]);
    assert!(!p.paused());
    p.on_relay_message(WsMessage::Party(2), 0);
    assert_eq!(
        pause(&mut p, false, 3),
        vec![player(PlayerCommand::SetPause(true)), Effect::Send(WsMessage::Resume)]
    );
}

#[test]
fn a_position_off_by_the_threshold_is_no_seek() {
    let mut p = in_party("f", 2);
    p.on_relay_message(WsMessage::AbsoluteSeek(10_000_000), 0);
    assert!(!p.has_seeked(10_030_000));
    assert!(!p.has_seeked(9_970_000));
    assert!(!p.has_seeked(10_000_000));
    assert_eq!(seek(&mut p, 10_030_000, true), vec![]);
    assert_eq!(seek(&mut p, 9_970_000, false), vec![]);
    assert_eq!(p.time(), 10_000_000);
}

#[test]
fn a_position_off_by_more_than_the_threshold_is_a_seek() {
    let mut p = in_party("f", 2);
    p.on_relay_message(WsMessage::AbsoluteSeek(10_000_000), 0);
    assert!(p.has_seeked(10_031_000));
    assert!(p.has_seeked(9_969_000));
    assert!(p.has_seeked(10_030_001));
    assert_eq!(
        seek(&mut p, 10_031_000, true),
        vec![
            player(PlayerCommand::PublishPartyCount(2)),
            Effect::Send(WsMessage::AbsoluteSeek(10_031_000)),
        ]
    );
    assert_eq!(p.time(), 10_031_000);
    assert_eq!(
        seek(&mut p, 10_000_000, false),
        vec![
            player(PlayerCommand::PublishPartyCount(2)),
            player(PlayerCommand::SetPause(true)),
            Effect::Send(WsMessage::AbsoluteSeek(10_000_000)),
        ]
    );
}

#[test]
fn seeks_at_the_ends_of_the_range_do_not_overflow() {
    let mut p = peer("f");
    assert!(p.has_seeked(i64::MAX));
    assert!(p.has_seeked(i64::MIN));
    seek(&mut p, i64::MAX, false);
    assert_eq!(p.time(), i64::MAX);
    assert!(p.has_seeked(i64::MIN));
    assert!(!p.has_seeked(i64::MAX - 30_000));
    assert!(p.has_seeked(i64::MAX - 30_001));
}

#[test]
fn alone_a_seek_is_only_recorded() {
    let mut p = peer("f");
    assert_eq!(seek(&mut p, 50_000_000, false), vec![player(PlayerCommand::PublishPartyCount(0))]);
    assert_eq!(p.time(), 50_000_000);
    assert!(!p.paused());
}

#[test]
fn a_new_file_asks_for_its_room() {
    let mut p = in_party("old.mkv", 3);
    let hash = get_room_hash("new.mkv", "ns");
    assert_eq!(
        p.on_player_event(PlayerEvent::FileChanged { filename: "new.mkv".to_string() }),
        vec![
            player(PlayerCommand::PublishPartyCount(0)),
            player(PlayerCommand::PublishRoomHash(hash.clone())),
            Effect::Send(WsMessage::Join(hash.clone())),
        ]
    );
    assert_eq!(p.party_count(), 0);
    assert_eq!(p.room_hash(), hash);
    assert_eq!(p.code(), "new.mkv");
}

#[test]
fn an_empty_file_name_keeps_the_room() {
    let mut p = in_party("old.mkv", 3);
    let hash = get_room_hash("old.mkv", "ns");
    assert_eq!(
        p.on_player_event(PlayerEvent::FileChanged { filename: String::new() }),
        vec![
            player(PlayerCommand::PublishPartyCount(0)),
            player(PlayerCommand::PublishRoomHash(hash.clone())),
            Effect::Send(WsMessage::Join(hash)),
        ]
    );
    assert_eq!(p.party_count(), 0);
    assert_eq!(p.code(), "old.mkv");
}

#[test]
fn a_custom_code_outlasts_new_files() {
    let mut p = in_party("old.mkv", 2);
    let custom = get_room_hash("our room", "ns");
    assert_eq!(
        p.on_player_event(PlayerEvent::CustomRoomCode("our room".to_string())),
        vec![
            player(PlayerCommand::PublishCustomRoomCode("our room".to_string())),
            player(PlayerCommand::PublishRoomHash(custom.clone())),
            Effect::Send(WsMessage::Join(custom.clone())),
        ]
    );
    assert_eq!(p.code(), "our room");
    assert_eq!(p.party_count(), 2);
    assert_eq!(p.on_player_event(PlayerEvent::FileChanged { filename: "new.mkv".to_string() }), vec![]);
    assert_eq!(p.room_hash(), custom);
    assert_eq!(p.party_count(), 2);
    let back = get_room_hash("old.mkv", "ns");
    assert_eq!(
        p.on_player_event(PlayerEvent::CustomRoomCode(String::new())),
        vec![
            player(PlayerCommand::PublishCustomRoomCode(String::new())),
            player(PlayerCommand::PublishRoomHash(back.clone())),
            Effect::Send(WsMessage::Join(back.clone())),
        ]
    );
    assert_eq!(p.room_hash(), back);
}

#[test]
fn requests_are_marked_as_read() {
    let mut p = peer("f");
    assert_eq!(p.on_player_event(PlayerEvent::Request(".".to_string())), vec![]);
    assert_eq!(
        p.on_player_event(PlayerEvent::Request("something".to_string())),
        vec![player(PlayerCommand::AcknowledgeRequest)]
    );
    assert_eq!(
        p.on_player_event(PlayerEvent::Request(String::new())),
        vec![player(PlayerCommand::AcknowledgeRequest)]
    );
}

#[test]
fn a_resume_request_unpauses_alone_and_asks_in_a_party() {
    let mut p = peer("f");
    assert_eq!(
        p.on_player_event(PlayerEvent::Request("queue_resume".to_string())),
        vec![player(PlayerCommand::AcknowledgeRequest), player(PlayerCommand::SetPause(false))]
    );
    let mut q = in_party("f", 2);
    assert_eq!(
        q.on_player_event(PlayerEvent::Request("queue_resume".to_string())),
        vec![player(PlayerCommand::AcknowledgeRequest), Effect::Send(WsMessage::Resume)]
    );
    assert!(q.paused());
}

#[test]
fn typed_chat_is_sealed_under_the_room_key() {
    let mut p = peer("Movie.mkv");
    p.on_relay_message(WsMessage::RoomRandomChatSalt("salt".to_string()), 0);
    let effects = p.on_player_event(PlayerEvent::ChatTyped("hello there".to_string()));
    assert_eq!(effects.len(), 1);
    let envelope = match &effects[0] {
        Effect::Send(WsMessage::Chat(e)) => e.clone(),
        other => panic!("unexpected effect {:?}", other),
    };
    let key = get_room_chat_key("Movie.mkv", "ns", "salt");
    assert_eq!(decrypt_chat(&envelope, key), Ok("hello there".to_string()));
    assert_eq!(
        decrypt_chat(&envelope, get_room_chat_key("Movie.mkv", "ns", "")),
        Err(ChatError::NotAuthentic)
    );
}

#[test]
fn chat_sealed_sends_the_envelope() {
    let p = peer("f");
    assert_eq!(p.chat_sealed(Some("abc".to_string())), vec![Effect::Send(WsMessage::Chat("abc".to_string()))]);
    assert_eq!(p.chat_sealed(None), vec![]);
}

#[test]
fn received_chat_is_opened_and_shown() {
    let mut p = peer("Movie.mkv");
    let mut q = peer("Movie.mkv");
    let sent = p.on_player_event(PlayerEvent::ChatTyped("  hi all ".to_string()));
    let message = match &sent[0] {
        Effect::Send(m) => m.clone(),
        other => panic!("unexpected effect {:?}", other),
    };
    assert_eq!(
        q.on_relay_message(message, 0),
        vec![
            player(PlayerCommand::PublishChat("hi all".to_string())),
            maybe(PlayerCommand::ShowChat("hi all".to_string())),
        ]
    );
}

#[test]
fn chat_that_does_not_open_is_passed_over() {
    let mut p = peer("Movie.mkv");
    let foreign = encrypt_chat("hi".to_string(), get_room_chat_key("Other.mkv", "ns", "")).unwrap();
    assert_eq!(p.on_relay_message(WsMessage::Chat(foreign), 0), vec![]);
    assert_eq!(p.on_relay_message(WsMessage::Chat("???".to_string()), 0), vec![]);
    assert_eq!(p.on_relay_message(WsMessage::Chat(String::new()), 0), vec![]);
}

#[test]
fn chat_opened_takes_the_opened_text() {
    let p = peer("f");
    assert_eq!(
        p.chat_opened(Ok("x".to_string())),
        vec![player(PlayerCommand::PublishChat("x".to_string())), maybe(PlayerCommand::ShowChat("x".to_string()))]
    );
    assert_eq!(p.chat_opened(Err(ChatError::NotAuthentic)), vec![]);
    assert_eq!(p.chat_opened(Err(ChatError::NotBase64)), vec![]);
    assert_eq!(p.chat_opened(Err(ChatError::TooShort)), vec![]);
    assert_eq!(p.chat_opened(Err(ChatError::NotText)), vec![]);
}

#[test]
fn a_salt_changes_the_chat_key_only() {
    let mut p = peer("Movie.mkv");
    let hash = p.room_hash().to_string();
    assert_eq!(p.on_relay_message(WsMessage::RoomRandomChatSalt("s".to_string()), 0), vec![]);
    assert_eq!(p.room_hash(), hash);
    let unsalted = encrypt_chat("hi".to_string(), get_room_chat_key("Movie.mkv", "ns", "")).unwrap();
    assert_eq!(p.on_relay_message(WsMessage::Chat(unsalted), 0), vec![]);
}

#[test]
fn opening_alone_does_not_pause() {
    let mut p = peer("f");
    assert_eq!(
        p.on_relay_message(WsMessage::Party(1), 0),
        vec![maybe(PlayerCommand::PublishPartyCount(1))]
    );
    assert!(!p.paused());
    assert_eq!(p.party_count(), 1);
}

#[test]
fn a_party_pauses_the_peer() {
    let mut p = peer("f");
    assert_eq!(
        p.on_relay_message(WsMessage::Party(2), 0),
        vec![
            maybe(PlayerCommand::PublishPartyCount(2)),
            maybe(PlayerCommand::SetPause(true)),
            maybe(PlayerCommand::ResetSpeed),
            maybe(PlayerCommand::ShowPartyCount(2)),
        ]
    );
    assert!(p.paused());
    assert_eq!(p.party_count(), 2);
}

#[test]
fn a_growing_party_makes_the_peer_announce_its_position() {
    let mut p = in_party("f", 1);
    let effects = p.on_relay_message(WsMessage::Party(2), 0);
    assert_eq!(effects.last(), Some(&Effect::AnnouncePosition));
    assert_eq!(effects.len(), 5);
    let effects = p.on_relay_message(WsMessage::Party(3), 0);
    assert_eq!(effects.last(), Some(&Effect::AnnouncePosition));
}

#[test]
fn a_shrinking_party_pauses_without_announcing() {
    let mut p = in_party("f", 3);
    let effects = p.on_relay_message(WsMessage::Party(2), 0);
    assert!(!effects.contains(&Effect::AnnouncePosition));
    assert!(p.paused());
    let mut q = in_party("f", 2);
    q.on_relay_message(WsMessage::Resume, 0);
    let effects = q.on_relay_message(WsMessage::Party(1), 0);
    assert!(q.paused());
    assert_eq!(
        effects,
        vec![
            maybe(PlayerCommand::PublishPartyCount(1)),
            maybe(PlayerCommand::SetPause(true)),
            maybe(PlayerCommand::ResetSpeed),
            maybe(PlayerCommand::ShowPartyCount(1)),
        ]
    );
}

#[test]
fn the_same_count_twice_changes_nothing_more() {
    for (before, count) in [(0u32, 1u32), (0, 2), (1, 2), (2, 3), (3, 2), (2, 1), (0, 0), (5, 5)] {
        let mut p = peer("f");
        if before > 0 {
            p.on_relay_message(WsMessage::Party(before), 0);
        }
        p.on_relay_message(WsMessage::Party(count), 0);
        let (paused, time, party) = (p.paused(), p.time(), p.party_count());
        let again = p.on_relay_message(WsMessage::Party(count), 0);
        assert_eq!((p.paused(), p.time(), p.party_count()), (paused, time, party));
        assert_eq!(again, vec![maybe(PlayerCommand::PublishPartyCount(count))]);
    }
}

#[test]
fn a_repeated_count_does_not_pause_a_second_time() {
    let mut p = peer("f");
    let first = p.on_relay_message(WsMessage::Party(2), 0);
    assert!(first.contains(&maybe(PlayerCommand::SetPause(true))));
    let second = p.on_relay_message(WsMessage::Party(2), 0);
    assert!(!second.contains(&maybe(PlayerCommand::SetPause(true))));
    assert!(!second.contains(&maybe(PlayerCommand::ResetSpeed)));
    assert!(!second.contains(&maybe(PlayerCommand::ShowPartyCount(2))));
    assert!(!second.contains(&Effect::AnnouncePosition));
    let changed = p.on_relay_message(WsMessage::Party(3), 0);
    assert!(changed.contains(&maybe(PlayerCommand::SetPause(true))));
}

#[test]
fn resume_unpauses() {
    let mut p = in_party("f", 2);
    assert_eq!(p.on_relay_message(WsMessage::Resume, 0), vec![player(PlayerCommand::SetPause(false))]);
    assert!(!p.paused());
    assert_eq!(pause(&mut p, false, 1_000_000), vec![]);
}

#[test]
fn a_relayed_seek_pauses_and_seeks() {
    let mut p = in_party("f", 2);
    p.on_relay_message(WsMessage::Resume, 0);
    assert_eq!(
        p.on_relay_message(WsMessage::AbsoluteSeek(77_000_000), 0),
        vec![player(PlayerCommand::PauseAndSeek(77_000_000))]
    );
    assert!(p.paused());
    assert_eq!(p.time(), 77_000_000);
    assert_eq!(pause(&mut p, true, 77_000_100), vec![]);
    assert_eq!(seek(&mut p, 77_000_100, true), vec![]);
}

#[test]
fn a_probe_is_answered_with_its_token() {
    let mut p = peer("f");
    assert_eq!(
        p.on_relay_message(WsMessage::Ping("2018-01-26T18:30:09.453Z".to_string()), 5),
        vec![Effect::Send(WsMessage::Pong("2018-01-26T18:30:09.453Z".to_string()))]
    );
}

#[test]
fn the_relay_is_lost_after_ten_seconds_without_a_probe() {
    let mut p = peer("f");
    p.on_connected(1_000, "3.0.0".to_string(), Version::new(3, 0, 0));
    assert!(!p.relay_lost(10_000_001_000));
    assert!(p.relay_lost(10_000_001_001));
    p.on_relay_message(WsMessage::Ping("t".to_string()), 9_000_000_000);
    assert!(!p.relay_lost(19_000_000_000));
    assert!(p.relay_lost(19_000_000_001));
    assert!(!p.relay_lost(0));
}

#[test]
fn messages_for_relays_pass_without_effect() {
    let mut p = in_party("f", 2);
    for m in [
        WsMessage::Info("version 3.0.0 repo x".to_string()),
        WsMessage::Info2 { version: Version::new(3, 0, 0) },
        WsMessage::Join("abc".to_string()),
        WsMessage::Pong("t".to_string()),
    ] {
        assert_eq!(p.on_relay_message(m, 0), vec![]);
    }
    assert_eq!(p.party_count(), 2);
    assert!(p.paused());
}

#[test]
fn the_greeting_names_version_and_room() {
    let mut p = peer("Movie.mkv");
    assert_eq!(
        p.on_connected(5, "3.0.0".to_string(), Version::new(3, 0, 0)),
        vec![
            WsMessage::Info("3.0.0".to_string()),
            WsMessage::Info2 { version: Version::new(3, 0, 0) },
            WsMessage::Join(get_room_hash("Movie.mkv", "ns")),
        ]
    );
}

#[test]
fn a_lost_connection_resets_the_party() {
    let mut p = in_party("f", 4);
    p.on_connection_lost();
    assert_eq!(p.party_count(), 0);
    assert!(p.paused());
    let effects = p.on_relay_message(WsMessage::Party(4), 0);
    assert!(!effects.contains(&Effect::AnnouncePosition));
}
