use simulcast_mpv::room_code::{get_room_chat_key, get_room_hash, normalize_room_code};

#[test]
fn separators_become_spaces() {
    assert_eq!(normalize_room_code("a_b-c+d.e", ""), "a b c d e");
    assert_eq!(normalize_room_code("My.Movie_2020-part+1.mkv", "abcd1234"), "My Movie 2020 part 1 mkvabcd1234");
}

#[test]
fn other_characters_stay() {
    assert_eq!(normalize_room_code("plain text", "ns"), "plain textns");
    assert_eq!(normalize_room_code("", "ns"), "ns");
    assert_eq!(normalize_room_code("", ""), "");
    assert_eq!(normalize_room_code("映画_第1話.mkv", "部屋"), "映画 第1話 mkv部屋");
    assert_eq!(normalize_room_code("a/b\\c:d", "x"), "a/b\\c:dx");
}

#[test]
fn namespace_is_not_normalised() {
    assert_eq!(normalize_room_code("a.b", "c.d_e"), "a bc.d_e");
}

#[test]
fn room_hash_of_nothing_is_the_hash_of_the_empty_input() {
    assert_eq!(
        get_room_hash("", ""),
        "af1349b9f5f9a1a6a0404dea36dcc9499bcb25c9adc112b7cc9a93cae41f3262"
    );
}

#[test]
fn room_hash_is_hex_of_blake3_of_the_normalised_text() {
    let expected = blake3::hash("My Movie mkvabcd1234".as_bytes()).to_hex().to_string();
    assert_eq!(get_room_hash("My_Movie.mkv", "abcd1234"), expected);
    assert_eq!(get_room_hash("My_Movie.mkv", "abcd1234").len(), 64);
    assert!(get_room_hash("My_Movie.mkv", "abcd1234")
        .chars()
        .all(|c| c.is_ascii_digit() || ('a'..='f').contains(&c)));
}

#[test]
fn codes_that_normalise_alike_share_a_room() {
    assert_eq!(get_room_hash("a_b.c", "ns"), get_room_hash("a-b+c", "ns"));
    assert_eq!(get_room_hash("a b c", "ns"), get_room_hash("a.b.c", "ns"));
    assert_ne!(get_room_hash("a_b.c", "ns"), get_room_hash("a_b.c", "other"));
    assert_ne!(get_room_hash("abc", "ns"), get_room_hash("abd", "ns"));
}

#[test]
fn chat_key_is_blake3_of_text_separator_and_salt() {
    let expected = *blake3::hash("a bnschattychatsalt".as_bytes()).as_bytes();
    assert_eq!(get_room_chat_key("a_b", "ns", "salt"), expected);
    let unsalted = *blake3::hash("a bnschattychat".as_bytes()).as_bytes();
    assert_eq!(get_room_chat_key("a_b", "ns", ""), unsalted);
    assert_ne!(get_room_chat_key("a_b", "ns", "salt"), get_room_chat_key("a_b", "ns", "pepper"));
}

#[test]
fn chat_key_differs_from_the_room_hash_input() {
    let hash = get_room_hash("a_b", "ns");
    let key = get_room_chat_key("a_b", "ns", "");
    let key_hex: String = key.iter().map(|b| format!("{:02x}", b)).collect();
    assert_ne!(hash, key_hex);
}

#[test]
fn room_hash_has_64_hex_digits() {
    for (code, ns) in [("", ""), ("a", "b"), ("映画_第1話.mkv", "部屋"), ("x.y-z", "abcd1234")] {
        let hash = get_room_hash(code, ns);
        assert_eq!(hash.len(), 64);
        assert!(hash.chars().all(|c| c.is_ascii_digit() || ('a'..='f').contains(&c)));
    }
}
