//! Room codes and the identifiers derived from them.
//!
//! Peers that pick the same code under the same relay namespace arrive at the
//! same room identifier, and nothing of the code itself goes over the wire.

use vstd::prelude::*;
use vstd::string::StringExecFns;
use vstd::utf8::encode_utf8;

verus! {

/// What a single character of a room code becomes when the code is normalised:
/// the separators `_`, `-`, `+` and `.` turn into a space, anything else stays.
pub open spec fn normalize_char(c: char) -> char {
    if c == '_' || c == '-' || c == '+' || c == '.' {
        ' '
    } else {
        c
    }
}

/// A room code with its separators turned into spaces.
pub open spec fn normalized_code(code: Seq<char>) -> Seq<char> {
    code.map_values(|c: char| normalize_char(c))
}

/// The text that stands for a room: the normalised code, followed by the
/// relay's namespace.
pub open spec fn normalized(code: Seq<char>, relay_room: Seq<char>) -> Seq<char> {
    normalized_code(code) + relay_room
}

/// The text from which a room's chat key is made: the text that stands for the
/// room, a fixed separator, and the salt that the relay issued for the room.
pub open spec fn chat_key_text(code: Seq<char>, relay_room: Seq<char>, chat_salt: Seq<char>) -> Seq<
    char,
> {
    normalized(code, relay_room) + "chattychat"@ + chat_salt
}

/// The BLAKE3 hash of `input`, as the `blake3` crate computes it: 32 bytes.
pub uninterp spec fn blake3_digest(input: Seq<u8>) -> Seq<u8>;

/// The sixteen digits of lower-case hexadecimal.
pub open spec fn hex_digits() -> Seq<char> {
    seq!['0', '1', '2', '3', '4', '5', '6', '7', '8', '9', 'a', 'b', 'c', 'd', 'e', 'f']
}

/// `bytes` in lower-case hexadecimal: two digits for each byte, the high half
/// first.
pub open spec fn hex_lower(bytes: Seq<u8>) -> Seq<char> {
    Seq::new(
        2 * bytes.len(),
        |i: int|
            if i % 2 == 0 {
                hex_digits()[bytes[i / 2] as int / 16]
            } else {
                hex_digits()[bytes[i / 2] as int % 16]
            },
    )
}

/// The identifier of the room that `code` names under the namespace
/// `relay_room`.
pub open spec fn room_hash(code: Seq<char>, relay_room: Seq<char>) -> Seq<char> {
    hex_lower(blake3_digest(encode_utf8(normalized(code, relay_room))))
}

/// The chat key of the room that `code` names under the namespace
/// `relay_room`, with the salt `chat_salt`.
pub open spec fn room_chat_key(code: Seq<char>, relay_room: Seq<char>, chat_salt: Seq<char>) -> Seq<
    u8,
> {
    blake3_digest(encode_utf8(chat_key_text(code, relay_room, chat_salt)))
}

/// Normalising keeps the length of a code and changes nothing in a code that
/// is normalised already.
pub proof fn law_normalized_is_stable(code: Seq<char>)
    ensures
        normalized_code(code).len() == code.len(),
        normalized_code(normalized_code(code)) == normalized_code(code),
        forall|i: int|
            0 <= i < code.len() ==> #[trigger] normalized_code(code)[i] == normalize_char(code[i]),
{
}

/// Codes that differ in their separators only name the same room and have the
/// same chat key, under one namespace and one salt.
pub proof fn law_separators_are_alike(
    a: Seq<char>,
    b: Seq<char>,
    relay_room: Seq<char>,
    chat_salt: Seq<char>,
)
    requires
        a.len() == b.len(),
        forall|i: int| 0 <= i < a.len() ==> normalize_char(#[trigger] a[i]) == normalize_char(b[i]),
    ensures
        room_hash(a, relay_room) == room_hash(b, relay_room),
        room_chat_key(a, relay_room, chat_salt) == room_chat_key(b, relay_room, chat_salt),
{
    assert(normalized_code(a) =~= normalized_code(b));
}

/// `String::push`: appends one character.
#[verifier::external_body]
fn push_char(s: &mut String, c: char)
    ensures
        final(s)@ == old(s)@.push(c),
{
    s.push(c)
}

/// `blake3::hash`. The result is the 32 bytes of the hash, and is a function
/// of the input alone.
#[verifier::external_body]
fn blake3_hash(input: &[u8]) -> (out: [u8; 32])
    ensures
        out@ == blake3_digest(input@),
{
    *blake3::hash(input).as_bytes()
}

/// `blake3::Hash::to_hex`: the 32 bytes in lower-case hexadecimal, 64 digits.
#[verifier::external_body]
fn digest_to_hex(digest: [u8; 32]) -> (r: String)
    ensures
        r@ == hex_lower(digest@),
{
    blake3::Hash::from_bytes(digest).to_hex().to_string()
}

/// Normalises `code` and appends the relay's namespace.
pub fn normalize_room_code(code: &str, relay_room: &str) -> (r: String)
    ensures
        r@ == normalized(code@, relay_room@),
{
    let mut out = String::new();
    for c in it: code.chars()
        invariant
            it.seq() == code@,
            out@ == normalized_code(code@.take(it.index())),
    {
        let mapped = if c == '_' || c == '-' || c == '+' || c == '.' {
            ' '
        } else {
            c
        };
        push_char(&mut out, mapped);
    }
    out.append(relay_room);
    out
}

/// Whether `c` is a digit of lower-case hexadecimal.
pub open spec fn is_lower_hex(c: char) -> bool {
    ('0' <= c <= '9') || ('a' <= c <= 'f')
}

/// Hexadecimal has two digits for each byte, and no other characters.
pub proof fn lemma_hex_lower(bytes: Seq<u8>)
    ensures
        hex_lower(bytes).len() == 2 * bytes.len(),
        forall|i: int| 0 <= i < hex_lower(bytes).len() ==> is_lower_hex(#[trigger] hex_lower(bytes)[i]),
{
    assert forall|i: int| 0 <= i < hex_lower(bytes).len() implies is_lower_hex(
        #[trigger] hex_lower(bytes)[i],
    ) by {
        let d = if i % 2 == 0 {
            bytes[i / 2] as int / 16
        } else {
            bytes[i / 2] as int % 16
        };
        assert(0 <= d < 16);
        assert(hex_lower(bytes)[i] == hex_digits()[d]);
    }
}

/// The identifier of the room that `code` names under the namespace
/// `relay_room`: the hash of the normalised text, in hexadecimal. It has 64
/// digits, and it is the same wherever the same code and namespace are given.
pub fn get_room_hash(code: &str, relay_room: &str) -> (r: String)
    ensures
        r@ == room_hash(code@, relay_room@),
        r@.len() == 64,
        forall|i: int| 0 <= i < r@.len() ==> is_lower_hex(#[trigger] r@[i]),
{
    let text = normalize_room_code(code, relay_room);
    let digest = blake3_hash(text.as_str().as_bytes());
    proof {
        lemma_hex_lower(digest@);
    }
    digest_to_hex(digest)
}

/// The chat key of the room that `code` names under the namespace
/// `relay_room`, with the salt `chat_salt`.
pub fn get_room_chat_key(code: &str, relay_room: &str, chat_salt: &str) -> (r: [u8; 32])
    ensures
        r@ == room_chat_key(code@, relay_room@, chat_salt@),
{
    let mut text = normalize_room_code(code, relay_room);
    text.append("chattychat");
    text.append(chat_salt);
    blake3_hash(text.as_str().as_bytes())
}

} // verus!
