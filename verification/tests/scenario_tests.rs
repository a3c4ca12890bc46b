use simulcast_mpv::clock::{Clock, Instant};
use simulcast_mpv::connection::{Connection, Reaction, RelayInfo};
use simulcast_mpv::message::{Version, WsMessage};
use simulcast_mpv::reconciler::{Effect, PlayerCommand, PlayerEvent, Reconciler};
use simulcast_mpv::registry::Registry;
use simulcast_mpv::room::Delivery;

const T0: i64 = 1_516_991_409;

fn now() -> Clock {
    Clock { monotonic: 0, calendar: Instant { secs: T0, nanos: 500_000_000 } }
}

fn info() -> RelayInfo {
    RelayInfo { version: "3.0.0".to_string(), repo_url: "https://example.org".to_string() }
}

fn send(c: &mut Connection, r: &mut Registry, m: WsMessage) -> Reaction {
    c.handle(r, m, now(), &info())
}

fn sent(effects: &[Effect]) -> Vec<WsMessage> {
    effects
        .iter()
        .filter_map(|e| match e {
            Effect::Send(m) => Some(m.clone()),
            _ => None,
        })
        .collect()
}

fn to(deliveries: &[Delivery], conn: u64) -> Vec<WsMessage> {
    deliveries.iter().filter(|d| d.to == conn).map(|d| d.message.clone()).collect()
}

#[test]
fn two_peers_meet_seek_and_resume_together() {
    let mut relay = Registry::new();
    let mut conn_a = Connection::new(1, now());
    let mut conn_b = Connection::new(2, now());
    let (mut a, _) = Reconciler::start(Some("Movie.mkv".to_string()), "ns".to_string());
    let (mut b, _) = Reconciler::start(Some("Movie.mkv".to_string()), "ns".to_string());
    let room = a.room_hash().to_string();
    assert_eq!(room, b.room_hash());

    // A joins first and is told it is alone.
    let greeting = a.on_connected(0, "3.0.0".to_string(), Version::new(3, 0, 0));
    let mut told = Vec::new();
    for m in greeting {
        told.extend(send(&mut conn_a, &mut relay, m).deliveries);
    }
    assert_eq!(to(&told, 1).last(), Some(&WsMessage::Party(1)));
    let effects = a.on_relay_message(WsMessage::Party(1), 0);
    assert!(!a.paused());
    assert_eq!(sent(&effects), vec![]);

    // B joins: both are told there are two.
    let mut told = Vec::new();
    for m in b.on_connected(0, "3.0.0".to_string(), Version::new(3, 0, 0)) {
        told.extend(send(&mut conn_b, &mut relay, m).deliveries);
    }
    assert_eq!(to(&told, 1), vec![WsMessage::Party(2)]);
    assert_eq!(to(&told, 2).last(), Some(&WsMessage::Party(2)));

    // A is paused and announces its position; B is paused and does not.
    let effects_a = a.on_relay_message(WsMessage::Party(2), 0);
    assert!(a.paused());
    assert_eq!(effects_a.last(), Some(&Effect::AnnouncePosition));
    let effects_b = b.on_relay_message(WsMessage::Party(2), 0);
    assert!(b.paused());
    assert!(!effects_b.contains(&Effect::AnnouncePosition));

    // The relay passes A's position on to B only; B seeks there and pauses.
    let seek = send(&mut conn_a, &mut relay, WsMessage::AbsoluteSeek(61_500_000));
    assert_eq!(seek.deliveries, vec![Delivery { to: 2, message: WsMessage::AbsoluteSeek(61_500_000) }]);
    let effects_b = b.on_relay_message(WsMessage::AbsoluteSeek(61_500_000), 0);
    assert_eq!(
        effects_b,
        vec![Effect::Player(PlayerCommand::PauseAndSeek(61_500_000))]
    );
    assert_eq!(b.time(), 61_500_000);
    assert!(b.paused());
    // B's player reports the pause and the seek it was told to make: no echo.
    assert_eq!(b.on_player_event(PlayerEvent::PauseChanged { paused: true, time: 61_500_000 }), vec![]);
    assert_eq!(b.on_player_event(PlayerEvent::Seeked { time: 61_500_010, paused: true }), vec![]);

    // The relay has measured both peers.
    send(&mut conn_a, &mut relay, WsMessage::Pong("2018-01-26T18:30:09.480Z".to_string()));
    send(&mut conn_b, &mut relay, WsMessage::Pong("2018-01-26T18:30:09.300Z".to_string()));
    assert_eq!(relay.latency_of(1), Some(10_000_000));
    assert_eq!(relay.latency_of(2), Some(100_000_000));

    // Both press play; each player is paused again and a resume is asked for.
    let effects_a = a.on_player_event(PlayerEvent::PauseChanged { paused: false, time: 61_500_000 });
    assert_eq!(
        effects_a,
        vec![Effect::Player(PlayerCommand::SetPause(true)), Effect::Send(WsMessage::Resume)]
    );
    assert!(a.paused());
    let first = send(&mut conn_a, &mut relay, WsMessage::Resume);
    assert_eq!(first.scheduled.len(), 2);
    let effects_b = b.on_player_event(PlayerEvent::PauseChanged { paused: false, time: 61_500_000 });
    assert_eq!(sent(&effects_b), vec![WsMessage::Resume]);
    let second = send(&mut conn_b, &mut relay, WsMessage::Resume);
    assert_eq!(second.scheduled, vec![]);

    // The resumes are timed so that they arrive together.
    let arrivals: Vec<u64> = first
        .scheduled
        .iter()
        .map(|s| s.delay + relay.latency_of(s.to).unwrap())
        .collect();
    assert_eq!(arrivals, vec![100_000_000, 100_000_000]);
    for s in &first.scheduled {
        let d = relay.resume_due(&room, s.batch, s.to).unwrap();
        assert_eq!(d, Delivery { to: s.to, message: WsMessage::Resume });
    }
    assert_eq!(
        a.on_relay_message(WsMessage::Resume, 0),
        vec![Effect::Player(PlayerCommand::SetPause(false))]
    );
    b.on_relay_message(WsMessage::Resume, 0);
    assert!(!a.paused() && !b.paused());
    // The players report the unpause they were told to make: no echo.
    assert_eq!(a.on_player_event(PlayerEvent::PauseChanged { paused: false, time: 61_500_000 }), vec![]);
    assert_eq!(b.on_player_event(PlayerEvent::PauseChanged { paused: false, time: 61_500_000 }), vec![]);
}

#[test]
fn a_seek_overtakes_a_resume_in_flight() {
    let mut relay = Registry::new();
    let mut conn_a = Connection::new(1, now());
    let mut conn_b = Connection::new(2, now());
    send(&mut conn_a, &mut relay, WsMessage::Join("r".to_string()));
    send(&mut conn_b, &mut relay, WsMessage::Join("r".to_string()));
    send(&mut conn_a, &mut relay, WsMessage::Pong("2018-01-26T18:30:09.000Z".to_string()));
    send(&mut conn_b, &mut relay, WsMessage::Pong("2018-01-26T18:30:09.500Z".to_string()));

    let resume = send(&mut conn_b, &mut relay, WsMessage::Resume);
    assert_eq!(resume.scheduled.len(), 2);
    let for_b = resume.scheduled.iter().find(|s| s.to == 2).unwrap();
    assert_eq!(for_b.delay, 250_000_000);

    // A's resume has no delay and fires at once; B's is still in flight.
    let for_a = resume.scheduled.iter().find(|s| s.to == 1).unwrap();
    assert_eq!(for_a.delay, 0);
    assert!(relay.resume_due("r", for_a.batch, 1).is_some());

    // A seeks.
    let seek = send(&mut conn_a, &mut relay, WsMessage::AbsoluteSeek(5_000_000));
    assert_eq!(seek.cancelled, Some(for_b.batch));
    assert_eq!(seek.deliveries, vec![Delivery { to: 2, message: WsMessage::AbsoluteSeek(5_000_000) }]);

    // B's timer runs out afterwards: B gets no stale resume.
    assert_eq!(relay.resume_due("r", for_b.batch, 2), None);
    assert_eq!(relay.resume_due("r", for_b.batch, 2), None);

    // A later resume is a batch of its own; the old timer stays silent.
    let next = send(&mut conn_a, &mut relay, WsMessage::Resume);
    assert_eq!(next.scheduled.len(), 2);
    assert_ne!(next.scheduled[0].batch, for_b.batch);
    assert_eq!(relay.resume_due("r", for_b.batch, 2), None);
    assert!(relay.resume_due("r", next.scheduled[1].batch, 2).is_some());
}

#[test]
fn chat_stays_among_peers_that_understand_it() {
    let mut relay = Registry::new();
    let mut old = Connection::new(1, now());
    let mut new_a = Connection::new(2, now());
    let mut new_b = Connection::new(3, now());
    send(&mut old, &mut relay, WsMessage::Info2 { version: Version::new(2, 2, 9) });
    send(&mut new_a, &mut relay, WsMessage::Info2 { version: Version::new(2, 3, 0) });
    send(&mut new_b, &mut relay, WsMessage::Info2 { version: Version::new(3, 0, 0) });
    for c in [&mut old, &mut new_a, &mut new_b] {
        send(c, &mut relay, WsMessage::Join("r".to_string()));
    }

    // From a peer below the minimum: relayed to no one.
    let from_old = send(&mut old, &mut relay, WsMessage::Chat("b2xk".to_string()));
    assert_eq!(from_old.deliveries, vec![]);

    // From a peer at the minimum: to the peers at or above it only.
    let from_new = send(&mut new_a, &mut relay, WsMessage::Chat("bmV3".to_string()));
    assert_eq!(
        from_new.deliveries,
        vec![
            Delivery { to: 2, message: WsMessage::Chat("bmV3".to_string()) },
            Delivery { to: 3, message: WsMessage::Chat("bmV3".to_string()) },
        ]
    );
    assert_eq!(to(&from_new.deliveries, 1), vec![]);
}

#[test]
fn a_peer_that_never_announced_a_version_gets_no_chat() {
    let mut relay = Registry::new();
    let mut silent = Connection::new(1, now());
    let mut modern = Connection::new(2, now());
    send(&mut modern, &mut relay, WsMessage::Info2 { version: Version::new(3, 0, 0) });
    send(&mut silent, &mut relay, WsMessage::Join("r".to_string()));
    send(&mut modern, &mut relay, WsMessage::Join("r".to_string()));
    let out = send(&mut modern, &mut relay, WsMessage::Chat("eA==".to_string()));
    assert_eq!(out.deliveries, vec![Delivery { to: 2, message: WsMessage::Chat("eA==".to_string()) }]);
}

#[test]
fn the_version_at_the_first_join_is_the_one_that_counts() {
    let mut relay = Registry::new();
    let mut c = Connection::new(1, now());
    send(&mut c, &mut relay, WsMessage::Join("r".to_string()));
    send(&mut c, &mut relay, WsMessage::Info2 { version: Version::new(3, 0, 0) });
    send(&mut c, &mut relay, WsMessage::Join("s".to_string()));
    assert_eq!(relay.members_of("s")[0].version, Version::new(2, 0, 0));
    assert_eq!(send(&mut c, &mut relay, WsMessage::Chat("eA==".to_string())).deliveries, vec![]);
}
