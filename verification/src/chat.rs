//! The envelope that chat text travels in.
//!
//! A message is padded with spaces, sealed with AES-256-GCM under the room's
//! chat key and a fresh nonce, followed by that nonce, and written in base64.

use vstd::prelude::*;
use vstd::string::{StrSliceExecFns, StringExecFns};
use vstd::utf8::{decode_utf8, encode_utf8, valid_utf8};

verus! {

/// Messages are padded until they are at most this much shorter than 480
/// bytes, which hides the length of short messages.
pub const PAD_TO: usize = 480;

/// The padding comes in blocks of this many spaces.
pub const PAD_SIZE: usize = 20;

/// The bytes of a nonce.
pub const NONCE_LEN: usize = 12;

/// The bytes of the tag that sealing appends.
pub const TAG_LEN: usize = 16;

/// Why an envelope gave no message.
#[derive(Clone, Copy, Debug, PartialEq, Eq, Structural)]
pub enum ChatError {
    /// The text is not base64.
    NotBase64,
    /// The envelope is too short to hold a nonce and a message.
    TooShort,
    /// The envelope was not sealed under this key, or was altered.
    NotAuthentic,
    /// The message is not UTF-8.
    NotText,
}

/// `n` spaces.
pub open spec fn spaces(n: nat) -> Seq<char> {
    Seq::new(n, |i: int| ' ')
}

/// The blocks of padding that a message of `len` bytes gets: as few as bring
/// it to `PAD_TO - PAD_SIZE` bytes or more.
pub open spec fn pad_blocks(len: nat) -> nat {
    if len >= PAD_TO - PAD_SIZE {
        0
    } else {
        ((PAD_TO - PAD_SIZE - len + PAD_SIZE - 1) / PAD_SIZE as int) as nat
    }
}

/// A message with its padding.
pub open spec fn padded(message: Seq<char>) -> Seq<char> {
    message + spaces(PAD_SIZE as nat * pad_blocks(encode_utf8(message).len()))
}

/// The base64 text of `bytes`, in the standard alphabet with padding, as the
/// `base64` crate writes it.
pub uninterp spec fn base64_text(bytes: Seq<u8>) -> Seq<char>;

/// The bytes that the base64 text `text` stands for, as the `base64` crate
/// reads it; none where the text is not base64.
pub uninterp spec fn base64_bytes(text: Seq<char>) -> Option<Seq<u8>>;

/// What AES-256-GCM, as `aws-lc-rs` computes it, opens `sealed` to under `key`
/// and `nonce` with no additional data; none where the key or the nonce has
/// the wrong length or `sealed` does not authenticate.
pub uninterp spec fn aes256_gcm_open(key: Seq<u8>, nonce: Seq<u8>, sealed: Seq<u8>) -> Option<Seq<u8>>;

/// What AES-256-GCM, as `aws-lc-rs` computes it, seals `plaintext` to under
/// `key` and `nonce` with no additional data: the ciphertext, followed by the
/// tag.
pub uninterp spec fn aes256_gcm_sealed(key: Seq<u8>, nonce: Seq<u8>, plaintext: Seq<u8>) -> Seq<u8>;

/// Whether `c` is white space: one of the characters that have the Unicode
/// property `White_Space`.
pub open spec fn is_white_space(c: char) -> bool {
    let u = c as u32;
    ||| 0x09 <= u <= 0x0D
    ||| u == 0x20
    ||| u == 0x85
    ||| u == 0xA0
    ||| u == 0x1680
    ||| 0x2000 <= u <= 0x200A
    ||| u == 0x2028
    ||| u == 0x2029
    ||| u == 0x202F
    ||| u == 0x205F
    ||| u == 0x3000
}

/// `text` without the white space at its end.
pub open spec fn trimmed_end(text: Seq<char>) -> Seq<char>
    decreases text.len(),
{
    if text.len() > 0 && is_white_space(text.last()) {
        trimmed_end(text.drop_last())
    } else {
        text
    }
}

/// `text` without the white space at its start.
pub open spec fn trimmed_start(text: Seq<char>) -> Seq<char>
    decreases text.len(),
{
    if text.len() > 0 && is_white_space(text.first()) {
        trimmed_start(text.drop_first())
    } else {
        text
    }
}

/// `text` without the white space at its start and at its end.
pub open spec fn trimmed(text: Seq<char>) -> Seq<char> {
    trimmed_start(trimmed_end(text))
}

/// `base64::Engine::encode` of the standard engine. The result is a function
/// of the bytes alone. (The call cannot run out of room for the length of its
/// result: a slice is never longer than `isize::MAX` bytes.)
#[verifier::external_body]
fn base64_encode(bytes: &[u8]) -> (r: String)
    ensures
        r@ == base64_text(bytes@),
{
    base64::Engine::encode(&base64::prelude::BASE64_STANDARD, bytes)
}

/// `base64::Engine::decode` of the standard engine. The result is a function
/// of the text alone; an error of the crate becomes `None`.
#[verifier::external_body]
fn base64_decode(text: &str) -> (r: Option<Vec<u8>>)
    ensures
        match r {
            Some(v) => base64_bytes(text@) == Some(v@),
            None => base64_bytes(text@) is None,
        },
{
    match base64::Engine::decode(&base64::prelude::BASE64_STANDARD, text) {
        Ok(v) => Some(v),
        Err(_) => None,
    }
}

/// `aws_lc_rs::aead::RandomizedNonceKey::seal_in_place_append_tag` under an
/// AES-256-GCM key made of `key`, with no additional data. The nonce is drawn
/// at random, so two calls differ, and the call may fail. Of every outcome
/// this holds: where the call succeeds, the nonce that was used comes back
/// with the sealed bytes, these are what the plaintext seals to under the key
/// and that nonce, and they are `TAG_LEN` longer than the plaintext.
#[verifier::external_body]
fn aead_seal(key: &[u8; 32], plaintext: Vec<u8>) -> (r: Option<(Vec<u8>, [u8; 12])>)
    ensures
        r matches Some((sealed, nonce)) ==> sealed@ == aes256_gcm_sealed(
            key@,
            nonce@,
            plaintext@,
        ) && sealed.len() == plaintext.len() + TAG_LEN,
{
    let mut in_out = plaintext;
    let sealing = match aws_lc_rs::aead::RandomizedNonceKey::new(&aws_lc_rs::aead::AES_256_GCM, key) {
        Ok(k) => k,
        Err(_) => return None,
    };
    match sealing.seal_in_place_append_tag(aws_lc_rs::aead::Aad::empty(), &mut in_out) {
        Ok(nonce) => Some((in_out, *nonce.as_ref())),
        Err(_) => None,
    }
}

/// `aws_lc_rs::aead::RandomizedNonceKey::open_in_place` under an AES-256-GCM
/// key made of `key`, with the nonce `nonce` and no additional data. The
/// result is a function of key, nonce and sealed bytes alone; an error of the
/// crate, at the key, the nonce or the opening, becomes `None`.
#[verifier::external_body]
fn aead_open(key: &[u8; 32], nonce: &[u8], sealed: Vec<u8>) -> (r: Option<Vec<u8>>)
    ensures
        match r {
            Some(v) => aes256_gcm_open(key@, nonce@, sealed@) == Some(v@),
            None => aes256_gcm_open(key@, nonce@, sealed@) is None,
        },
{
    let mut in_out = sealed;
    let opening = match aws_lc_rs::aead::RandomizedNonceKey::new(&aws_lc_rs::aead::AES_256_GCM, key) {
        Ok(k) => k,
        Err(_) => return None,
    };
    let nonce = match aws_lc_rs::aead::Nonce::try_assume_unique_for_key(nonce) {
        Ok(n) => n,
        Err(_) => return None,
    };
    match opening.open_in_place(nonce, aws_lc_rs::aead::Aad::empty(), &mut in_out) {
        Ok(plain) => Some(plain.to_vec()),
        Err(_) => None,
    }
}

/// `String::from_utf8`: the text that the bytes encode, if they are UTF-8.
#[verifier::external_body]
fn string_from_utf8(bytes: Vec<u8>) -> (r: Option<String>)
    ensures
        match r {
            Some(s) => valid_utf8(bytes@) && s@ == decode_utf8(bytes@),
            None => !valid_utf8(bytes@),
        },
{
    match String::from_utf8(bytes) {
        Ok(s) => Some(s),
        Err(_) => None,
    }
}

/// `str::trim`: the text without the white space at its start and at its
/// end, where white space is what has the Unicode property `White_Space`.
#[verifier::external_body]
fn trim(text: &str) -> (r: &str)
    ensures
        r@ == trimmed(text@),
{
    text.trim()
}

/// Pads `message` with blocks of spaces; see [`padded`].
pub fn pad_chat(message: String) -> (r: String)
    ensures
        r@ == padded(message@),
{
    let mut out = message;
    let n = out.as_str().as_bytes().len();
    let mut len = n;
    let mut blocks: usize = 0;
    proof {
        reveal_strlit("                    ");
    }
    while len < PAD_TO - PAD_SIZE
        invariant
            n == encode_utf8(message@).len(),
            len == n + PAD_SIZE * blocks,
            blocks <= pad_blocks(n as nat),
            len < PAD_TO - PAD_SIZE ==> blocks < pad_blocks(n as nat),
            out@ == message@ + spaces(PAD_SIZE as nat * blocks as nat),
            "                    "@ == spaces(PAD_SIZE as nat),
        decreases PAD_TO - len,
    {
        out.append("                    ");
        len += PAD_SIZE;
        blocks += 1;
    }
    out
}

/// Spaces at the end of a text go when it is trimmed.
pub proof fn lemma_trailing_spaces_go(text: Seq<char>, n: nat)
    ensures
        trimmed_end(text + spaces(n)) == trimmed_end(text),
    decreases n,
{
    if n > 0 {
        let all = text + spaces(n);
        assert(all.last() == ' ');
        assert(all.drop_last() =~= text + spaces((n - 1) as nat));
        lemma_trailing_spaces_go(text, (n - 1) as nat);
    } else {
        assert(text + spaces(0) =~= text);
    }
}

/// The padding that a chat message is given goes when the message is read
/// again: the padded message trims to what the message itself trims to.
pub proof fn law_padding_goes(message: Seq<char>)
    ensures
        trimmed(padded(message)) == trimmed(message),
{
    lemma_trailing_spaces_go(message, PAD_SIZE as nat * pad_blocks(encode_utf8(message).len()));
}

/// Puts sealed bytes and their nonce in an envelope: the sealed bytes, then
/// the nonce, in base64.
pub fn seal_envelope(sealed: Vec<u8>, nonce: &[u8]) -> (r: String)
    ensures
        r@ == base64_text(sealed@ + nonce@),
{
    let mut bytes = sealed;
    let mut i: usize = 0;
    while i < nonce.len()
        invariant
            i <= nonce.len(),
            bytes@ == sealed@ + nonce@.take(i as int),
        decreases nonce.len() - i,
    {
        bytes.push(nonce[i]);
        i += 1;
    }
    assert(nonce@.take(nonce.len() as int) =~= nonce@);
    base64_encode(bytes.as_slice())
}

/// The bytes that are sealed for the chat message `message`: the UTF-8 bytes
/// of the message with its padding.
pub open spec fn chat_plaintext(message: Seq<char>) -> Seq<u8> {
    encode_utf8(padded(message))
}

/// The envelope of the chat message `message` under `key` and `nonce`: what
/// the padded message seals to, then the nonce, in base64.
pub open spec fn envelope_of(message: Seq<char>, key: Seq<u8>, nonce: Seq<u8>) -> Seq<char> {
    base64_text(aes256_gcm_sealed(key, nonce, chat_plaintext(message)) + nonce)
}

/// Whether `envelope` is an envelope of the chat message `message` under
/// `key`: the one that some nonce gives, whose sealed part is a tag longer
/// than the padded message.
pub open spec fn is_envelope_of(envelope: Seq<char>, message: Seq<char>, key: Seq<u8>) -> bool {
    exists|nonce: Seq<u8>|
        nonce.len() == NONCE_LEN && envelope == #[trigger] envelope_of(message, key, nonce)
            && aes256_gcm_sealed(key, nonce, chat_plaintext(message)).len() == chat_plaintext(
            message,
        ).len() + TAG_LEN
}

/// Encrypts chat text under `key`.
///
/// The message is padded, its bytes are sealed under the key and a nonce drawn
/// at random, and the sealed bytes are put in an envelope with that nonce. Two
/// calls on one message give different envelopes. Sealing may fail, and then
/// the result is `None`.
pub fn encrypt_chat(message: String, key: [u8; 32]) -> (r: Option<String>)
    ensures
        r matches Some(s) ==> is_envelope_of(s@, message@, key@),
{
    let text = pad_chat(message);
    let plaintext = text.as_str().as_bytes_vec();
    match aead_seal(&key, plaintext) {
        Some((sealed, nonce)) => {
            let r = seal_envelope(sealed, nonce.as_slice());
            assert(r@ == envelope_of(message@, key@, nonce@));
            Some(r)
        },
        None => None,
    }
}

/// The two parts of an envelope of `bytes`: the sealed bytes and, after them,
/// the nonce. An envelope is at least three bytes longer than a nonce.
pub open spec fn envelope_parts(bytes: Seq<u8>) -> Option<(Seq<u8>, Seq<u8>)> {
    if bytes.len() > NONCE_LEN + 2 {
        Some((bytes.take(bytes.len() - NONCE_LEN), bytes.skip(bytes.len() - NONCE_LEN)))
    } else {
        None
    }
}

/// Takes an envelope apart; see [`envelope_parts`].
pub fn open_envelope(bytes: Vec<u8>) -> (r: Result<(Vec<u8>, Vec<u8>), ChatError>)
    ensures
        match r {
            Ok((sealed, nonce)) => envelope_parts(bytes@) == Some((sealed@, nonce@)),
            Err(e) => e == ChatError::TooShort && envelope_parts(bytes@) is None,
        },
{
    let mut sealed = bytes;
    if sealed.len() > NONCE_LEN + 2 {
        let at = sealed.len() - NONCE_LEN;
        let nonce = sealed.split_off(at);
        Ok((sealed, nonce))
    } else {
        Err(ChatError::TooShort)
    }
}

/// The chat text that the opened bytes `plain` hold: their text without the
/// padding, if they are UTF-8.
pub open spec fn chat_text_of(plain: Seq<u8>) -> Result<Seq<char>, ChatError> {
    if valid_utf8(plain) {
        Ok(trimmed(decode_utf8(plain)))
    } else {
        Err(ChatError::NotText)
    }
}

/// What the envelope `envelope` gives under `key`, given the bytes that its
/// base64 text stands for.
pub open spec fn envelope_text(bytes: Option<Seq<u8>>, key: Seq<u8>) -> Result<Seq<char>, ChatError> {
    match bytes {
        None => Err(ChatError::NotBase64),
        Some(b) => match envelope_parts(b) {
            None => Err(ChatError::TooShort),
            Some((sealed, nonce)) => match aes256_gcm_open(key, nonce, sealed) {
                None => Err(ChatError::NotAuthentic),
                Some(plain) => chat_text_of(plain),
            },
        },
    }
}

/// Whether a result is the given one.
pub open spec fn text_is(r: Result<String, ChatError>, want: Result<Seq<char>, ChatError>) -> bool {
    match r {
        Ok(s) => want == Ok::<Seq<char>, ChatError>(s@),
        Err(e) => want == Err::<Seq<char>, ChatError>(e),
    }
}

/// Reads the chat text out of opened bytes; see [`chat_text_of`].
pub fn chat_text(plain: Vec<u8>) -> (r: Result<String, ChatError>)
    ensures
        text_is(r, chat_text_of(plain@)),
{
    match string_from_utf8(plain) {
        Some(s) => Ok(trim(s.as_str()).to_owned()),
        None => Err(ChatError::NotText),
    }
}

/// Decrypts a chat envelope under `key`.
///
/// The text must be base64, the bytes it stands for must make an envelope,
/// the sealed part must open under the key and the nonce, and what it opens
/// to must be UTF-8. The result is that text without its padding.
pub fn decrypt_chat(b64: &str, key: [u8; 32]) -> (r: Result<String, ChatError>)
    ensures
        text_is(r, envelope_text(base64_bytes(b64@), key@)),
{
    let bytes = match base64_decode(b64) {
        Some(b) => b,
        None => {
            return Err(ChatError::NotBase64);
        },
    };
    let (sealed, nonce) = match open_envelope(bytes) {
        Ok(parts) => parts,
        Err(e) => {
            return Err(e);
        },
    };
    match aead_open(&key, nonce.as_slice(), sealed) {
        Some(plain) => chat_text(plain),
        None => Err(ChatError::NotAuthentic),
    }
}

} // verus!
