use simulcast_mpv::chat::{
    chat_text, decrypt_chat, encrypt_chat, open_envelope, pad_chat, seal_envelope, ChatError,
    NONCE_LEN, PAD_SIZE, PAD_TO, TAG_LEN,
};

fn key(seed: u8) -> [u8; 32] {
    let mut k = [0u8; 32];
    for (i, b) in k.iter_mut().enumerate() {
        *b = seed.wrapping_add(i as u8);
    }
    k
}

fn decoded(text: &str) -> Vec<u8> {
    base64::Engine::decode(&base64::prelude::BASE64_STANDARD, text).unwrap()
}

fn encoded(bytes: &[u8]) -> String {
    base64::Engine::encode(&base64::prelude::BASE64_STANDARD, bytes)
}

#[test]
fn padding_brings_short_messages_to_460_bytes_or_more() {
    assert_eq!(PAD_TO, 480);
    assert_eq!(PAD_SIZE, 20);
    assert_eq!(pad_chat(String::new()), " ".repeat(460));
    assert_eq!(pad_chat("hi".to_string()), format!("hi{}", " ".repeat(460)));
    assert_eq!(pad_chat("hi".to_string()).len(), 462);
    assert_eq!(pad_chat("x".repeat(19)).len(), 479);
    assert_eq!(pad_chat("x".repeat(20)).len(), 460);
    assert_eq!(pad_chat("x".repeat(21)).len(), 461);
    assert_eq!(pad_chat("x".repeat(459)).len(), 479);
}

#[test]
fn padding_leaves_long_messages_alone() {
    assert_eq!(pad_chat("x".repeat(460)), "x".repeat(460));
    assert_eq!(pad_chat("x".repeat(461)), "x".repeat(461));
    assert_eq!(pad_chat("x".repeat(2000)), "x".repeat(2000));
}

#[test]
fn padding_counts_bytes_not_characters() {
    let message = "é".repeat(225);
    assert_eq!(message.len(), 450);
    assert_eq!(pad_chat(message.clone()), format!("{}{}", message, " ".repeat(20)));
    let longer = "é".repeat(230);
    assert_eq!(pad_chat(longer.clone()), longer);
}

#[test]
fn envelope_is_sealed_bytes_then_nonce_in_base64() {
    assert_eq!(seal_envelope(vec![1, 2, 3, 4, 5], &[9u8; 12]), "AQIDBAUJCQkJCQkJCQkJCQk=");
    assert_eq!(seal_envelope(b"hello world".to_vec(), b"!!!!"), "aGVsbG8gd29ybGQhISEh");
    assert_eq!(seal_envelope(vec![], &[]), "");
}

#[test]
fn open_envelope_splits_off_the_nonce() {
    let bytes: Vec<u8> = (0u8..40).collect();
    let (sealed, nonce) = open_envelope(bytes).unwrap();
    assert_eq!(sealed, (0u8..28).collect::<Vec<u8>>());
    assert_eq!(nonce, (28u8..40).collect::<Vec<u8>>());
    let (sealed, nonce) = open_envelope((0u8..15).collect()).unwrap();
    assert_eq!(sealed, vec![0, 1, 2]);
    assert_eq!(nonce.len(), NONCE_LEN);
}

#[test]
fn open_envelope_refuses_short_input() {
    assert_eq!(open_envelope(vec![]), Err(ChatError::TooShort));
    assert_eq!(open_envelope(vec![0; 12]), Err(ChatError::TooShort));
    assert_eq!(open_envelope(vec![0; 14]), Err(ChatError::TooShort));
    assert!(open_envelope(vec![0; 15]).is_ok());
}

#[test]
fn chat_text_trims_and_checks_utf8() {
    assert_eq!(chat_text(b"  hello there   ".to_vec()), Ok("hello there".to_string()));
    assert_eq!(chat_text(b"\t\nhi\r\n".to_vec()), Ok("hi".to_string()));
    assert_eq!(chat_text(b"   ".to_vec()), Ok(String::new()));
    assert_eq!(chat_text(vec![]), Ok(String::new()));
    assert_eq!(chat_text("grüße  ".as_bytes().to_vec()), Ok("grüße".to_string()));
    assert_eq!(chat_text(vec![0xff, 0xfe]), Err(ChatError::NotText));
    assert_eq!(chat_text(vec![b'a', 0xc3]), Err(ChatError::NotText));
}

#[test]
fn what_is_encrypted_decrypts_to_the_message() {
    for message in ["hello", "", "  padded already  ", "grüße, 世界", &"long ".repeat(200)] {
        let envelope = encrypt_chat(message.to_string(), key(1)).unwrap();
        assert_eq!(decrypt_chat(&envelope, key(1)), Ok(message.trim().to_string()));
    }
}

#[test]
fn envelope_has_tag_and_nonce_after_the_padded_message() {
    let envelope = encrypt_chat("hi".to_string(), key(1)).unwrap();
    assert_eq!(decoded(&envelope).len(), 462 + TAG_LEN + NONCE_LEN);
    let envelope = encrypt_chat("x".repeat(1000), key(1)).unwrap();
    assert_eq!(decoded(&envelope).len(), 1000 + TAG_LEN + NONCE_LEN);
}

#[test]
fn envelope_does_not_show_the_message() {
    let envelope = encrypt_chat("attack at dawn".to_string(), key(1)).unwrap();
    let bytes = decoded(&envelope);
    assert!(!bytes.windows(14).any(|w| w == b"attack at dawn"));
    assert_ne!(envelope, "attack at dawn");
}

#[test]
fn two_envelopes_of_one_message_differ() {
    let a = encrypt_chat("same".to_string(), key(1)).unwrap();
    let b = encrypt_chat("same".to_string(), key(1)).unwrap();
    assert_ne!(a, b);
    assert_eq!(decrypt_chat(&a, key(1)), decrypt_chat(&b, key(1)));
}

#[test]
fn decrypt_refuses_what_is_not_base64() {
    assert_eq!(decrypt_chat("not base64!", key(1)), Err(ChatError::NotBase64));
    assert_eq!(decrypt_chat("AQID*", key(1)), Err(ChatError::NotBase64));
    assert_eq!(decrypt_chat("AQIDBA", key(1)), Err(ChatError::NotBase64));
}

#[test]
fn decrypt_refuses_short_envelopes() {
    assert_eq!(decrypt_chat("", key(1)), Err(ChatError::TooShort));
    assert_eq!(decrypt_chat(&encoded(&[0u8; 14]), key(1)), Err(ChatError::TooShort));
}

#[test]
fn decrypt_refuses_the_wrong_key_and_altered_envelopes() {
    let envelope = encrypt_chat("hello".to_string(), key(1)).unwrap();
    assert_eq!(decrypt_chat(&envelope, key(2)), Err(ChatError::NotAuthentic));
    let mut bytes = decoded(&envelope);
    bytes[0] ^= 1;
    assert_eq!(decrypt_chat(&encoded(&bytes), key(1)), Err(ChatError::NotAuthentic));
    let mut bytes = decoded(&envelope);
    let last = bytes.len() - 1;
    bytes[last] ^= 1;
    assert_eq!(decrypt_chat(&encoded(&bytes), key(1)), Err(ChatError::NotAuthentic));
    assert_eq!(decrypt_chat(&encoded(&[0u8; 15]), key(1)), Err(ChatError::NotAuthentic));
    assert_eq!(decrypt_chat(&encoded(&[7u8; 100]), key(1)), Err(ChatError::NotAuthentic));
}

#[test]
fn decrypt_refuses_sealed_bytes_that_are_no_text() {
    let sealing =
        aws_lc_rs::aead::RandomizedNonceKey::new(&aws_lc_rs::aead::AES_256_GCM, &key(3)).unwrap();
    let mut in_out = vec![0xffu8, 0xfe, 0xfd];
    let nonce = sealing.seal_in_place_append_tag(aws_lc_rs::aead::Aad::empty(), &mut in_out).unwrap();
    let envelope = seal_envelope(in_out, nonce.as_ref());
    assert_eq!(decrypt_chat(&envelope, key(3)), Err(ChatError::NotText));
}

#[test]
fn decrypt_reads_envelopes_sealed_elsewhere() {
    let sealing =
        aws_lc_rs::aead::RandomizedNonceKey::new(&aws_lc_rs::aead::AES_256_GCM, &key(4)).unwrap();
    let mut in_out = b"  from another peer          ".to_vec();
    let nonce = sealing.seal_in_place_append_tag(aws_lc_rs::aead::Aad::empty(), &mut in_out).unwrap();
    in_out.extend_from_slice(nonce.as_ref());
    assert_eq!(decrypt_chat(&encoded(&in_out), key(4)), Ok("from another peer".to_string()));
}

#[test]
fn trimming_takes_off_every_kind_of_white_space() {
    let text = "\u{9}\u{a}\u{b}\u{c}\u{d} \u{85}\u{a0}\u{1680}\u{2000}\u{200a}\u{2028}\u{2029}\u{202f}\u{205f}\u{3000}word \u{3000}";
    assert_eq!(chat_text(text.as_bytes().to_vec()), Ok("word".to_string()));
    assert_eq!(chat_text("\u{200b}x\u{180e}".as_bytes().to_vec()), Ok("\u{200b}x\u{180e}".to_string()));
    assert_eq!(chat_text("a \u{a0} b".as_bytes().to_vec()), Ok("a \u{a0} b".to_string()));
}

#[test]
fn the_padding_goes_when_a_message_is_read() {
    for message in ["hi", "  hi", "hi  ", "", "x y"] {
        let padded = pad_chat(message.to_string());
        assert_eq!(chat_text(padded.into_bytes()), Ok(message.trim().to_string()));
    }
}
