//! Identity tokens and credentials.
//!
//! A token is the keyed message authentication code of a caller's
//! identifiers under the server's secret, written as lowercase hexadecimal.
//! It is the only link between the identifiers and a progression record.
//!
//! Credentials reach the service in an authorization header of the basic
//! scheme, which is taken apart here.

use crate::text::{chars_of, push_char, same_text, text_between};
use crypto::hmac::Hmac;
use crypto::mac::Mac;
use crypto::sha1::Sha1;
use vstd::prelude::*;
use vstd::utf8::{encode_utf8, valid_utf8};

verus! {

/// HMAC-SHA1 of `message` under `key`.
pub uninterp spec fn hmac_sha1(key: Seq<u8>, message: Seq<u8>) -> Seq<u8>;

/// SHA-1 counts its input in bits in 64 bits, so it takes fewer than 2^61
/// bytes.
pub const MAC_INPUT_LIMIT: u64 = 0x2000_0000_0000_0000;

/// The block of SHA-1 in bytes: the MAC hashes one block of key material
/// before the message.
pub const MAC_BLOCK_BYTES: u64 = 64;

/// The bytes of a MAC code.
pub const MAC_CODE_BYTES: usize = 20;

/// The key and the message are short enough for the MAC.
pub open spec fn mac_input_fits(key: Seq<u8>, message: Seq<u8>) -> bool {
    key.len() < MAC_INPUT_LIMIT && message.len() + MAC_BLOCK_BYTES < MAC_INPUT_LIMIT
}

/// Computes HMAC-SHA1 with the `crypto` crate: `Hmac::new` over `Sha1::new`,
/// one `input`, then `result` and its `code`.
///
/// Trusted: the code is the HMAC-SHA1 of the message under the key, a
/// function of the two alone, and it is as long as SHA-1's output, 20 bytes.
/// The digest refuses inputs of 2^61 bytes or more, which are left out.
#[verifier::external_body]
fn hmac_sha1_code(key: &[u8], message: &[u8]) -> (code: Vec<u8>)
    requires
        mac_input_fits(key@, message@),
    ensures
        code@ == hmac_sha1(key@, message@),
        code@.len() == MAC_CODE_BYTES,
{
    let mut mac = Hmac::new(Sha1::new(), key);
    mac.input(message);
    mac.result().code().to_vec()
}

/// The hexadecimal digits, each at the place of its value.
pub const HEX_DIGITS: &'static str = "0123456789abcdef";

/// The lowercase hexadecimal digit of a value below sixteen.
pub open spec fn hex_digit(value: int) -> char {
    HEX_DIGITS@[value]
}

/// Bytes written in hexadecimal: two lowercase digits a byte, the high half
/// first.
pub open spec fn hex_lower(bytes: Seq<u8>) -> Seq<char> {
    Seq::new(
        2 * bytes.len(),
        |at: int|
            if at % 2 == 0 {
                hex_digit(bytes[at / 2] as int / 16)
            } else {
                hex_digit(bytes[at / 2] as int % 16)
            },
    )
}

/// The texts of a list of strings.
pub open spec fn texts_of(parts: Seq<String>) -> Seq<Seq<char>> {
    parts.map_values(|part: String| part@)
}

/// The message that is authenticated for a list of parts: their UTF-8
/// bytes, one part after the other. Nothing marks where a part ends, so
/// lists of parts that join to the same text have the same message.
pub open spec fn token_message(parts: Seq<Seq<char>>) -> Seq<u8> {
    parts.map_values(|part: Seq<char>| encode_utf8(part)).flatten()
}

/// The token of `parts` under `secret`.
pub open spec fn token_text(secret: Seq<char>, parts: Seq<Seq<char>>) -> Seq<char> {
    hex_lower(hmac_sha1(encode_utf8(secret), token_message(parts)))
}

/// The secret and the parts are short enough for the MAC.
pub open spec fn token_input_fits(secret: Seq<char>, parts: Seq<Seq<char>>) -> bool {
    mac_input_fits(encode_utf8(secret), token_message(parts))
}

/// Why no token could be derived.
#[derive(Clone, Copy, Debug, PartialEq, Eq, Structural)]
pub enum TokenDerivationError {
    /// The server holds no secret.
    SecretAbsent,
}

fn hex_digit_of(value: u8) -> (digit: char)
    requires
        value < 16,
    ensures
        digit == hex_digit(value as int),
{
    proof {
        reveal_strlit("0123456789abcdef");
    }
    HEX_DIGITS.get_char(value as usize)
}

/// Writes bytes in lowercase hexadecimal.
pub fn encode_hex(bytes: &Vec<u8>) -> (text: String)
    ensures
        text@ == hex_lower(bytes@),
{
    let mut text: String = String::new();
    let mut next: usize = 0;
    while next < bytes.len()
        invariant
            next <= bytes.len(),
            text@ == hex_lower(bytes@.take(next as int)),
        decreases bytes.len() - next,
    {
        let byte: u8 = bytes[next];
        push_char(&mut text, hex_digit_of(byte / 16));
        push_char(&mut text, hex_digit_of(byte % 16));
        assert(text@ == hex_lower(bytes@.take(next + 1))) by {
            let before = bytes@.take(next as int);
            let after = bytes@.take(next + 1);
            assert(after == before.push(byte));
            assert forall|at: int| 0 <= at < text@.len() implies text@[at] == hex_lower(after)[at] by {
                if at < 2 * next {
                    assert(text@[at] == hex_lower(before)[at]);
                    assert(after[at / 2] == before[at / 2]);
                }
            }
        }
        next = next + 1;
    }
    assert(bytes@.take(next as int) == bytes@);
    text
}

/// Appends the UTF-8 bytes of `part` to `message`.
fn push_bytes(message: &mut Vec<u8>, part: &str)
    ensures
        final(message)@ == old(message)@ + encode_utf8(part@),
{
    let bytes: &[u8] = part.as_bytes();
    let mut next: usize = 0;
    while next < bytes.len()
        invariant
            next <= bytes.len(),
            bytes@ == encode_utf8(part@),
            message@ == old(message)@ + bytes@.take(next as int),
        decreases bytes.len() - next,
    {
        message.push(bytes[next]);
        assert(bytes@.take(next + 1) == bytes@.take(next as int).push(bytes@[next as int]));
        next = next + 1;
    }
    assert(bytes@.take(next as int) == bytes@);
}

/// Gathers the message that is authenticated for `parts`.
pub fn message_of(parts: &Vec<String>) -> (message: Vec<u8>)
    ensures
        message@ == token_message(texts_of(parts@)),
{
    let mut message: Vec<u8> = Vec::new();
    let mut next: usize = 0;
    let ghost texts = texts_of(parts@);
    let ghost encoded = texts.map_values(|part: Seq<char>| encode_utf8(part));
    assert(encoded.take(0).flatten() == Seq::<u8>::empty());
    while next < parts.len()
        invariant
            next <= parts.len(),
            texts == texts_of(parts@),
            encoded == texts.map_values(|part: Seq<char>| encode_utf8(part)),
            message@ == encoded.take(next as int).flatten(),
        decreases parts.len() - next,
    {
        push_bytes(&mut message, parts[next].as_str());
        proof {
            let before = encoded.take(next as int);
            assert(encoded.take(next + 1) == before.push(encode_utf8(parts@[next as int]@)));
            before.lemma_flatten_push(encode_utf8(parts@[next as int]@));
        }
        next = next + 1;
    }
    assert(encoded.take(next as int) == encoded);
    message
}

/// Whether the secret and the message are short enough for the MAC.
pub fn fits_mac(secret: &str, message: &Vec<u8>) -> (fits: bool)
    ensures
        fits == mac_input_fits(encode_utf8(secret@), message@),
{
    let key: &[u8] = secret.as_bytes();
    let limit: u64 = MAC_INPUT_LIMIT - MAC_BLOCK_BYTES;
    (key.len() as u64) < MAC_INPUT_LIMIT && (message.len() as u64) < limit
}

/// Derives the identity token of `parts` under `secret`.
///
/// The same secret and parts always give the same token, forty lowercase
/// hexadecimal digits. An absent secret is the only failure; the content of
/// the parts never is.
pub fn derive_token(secret: Option<&str>, parts: &Vec<String>) -> (derived: Result<
    String,
    TokenDerivationError,
>)
    requires
        secret is Some ==> token_input_fits(secret->0@, texts_of(parts@)),
    ensures
        secret is None ==> derived == Err::<String, TokenDerivationError>(
            TokenDerivationError::SecretAbsent,
        ),
        secret is Some ==> derived is Ok && derived->Ok_0@ == token_text(
            secret->0@,
            texts_of(parts@),
        ) && derived->Ok_0@.len() == 2 * MAC_CODE_BYTES,
{
    match secret {
        None => Err(TokenDerivationError::SecretAbsent),
        Some(secret) => {
            let message: Vec<u8> = message_of(parts);
            let code: Vec<u8> = hmac_sha1_code(secret.as_bytes(), message.as_slice());
            Ok(encode_hex(&code))
        },
    }
}

/// The token of a player: the MAC of their email followed by their player
/// token, under the server's secret.
pub fn encode_user_token(email: &str, token: &str, userdata_auth: &str) -> (user_token: String)
    requires
        token_input_fits(userdata_auth@, seq![email@, token@]),
    ensures
        user_token@ == token_text(userdata_auth@, seq![email@, token@]),
        user_token@.len() == 2 * MAC_CODE_BYTES,
{
    let mut message: Vec<u8> = Vec::new();
    push_bytes(&mut message, email);
    push_bytes(&mut message, token);
    proof {
        lemma_message_of_two_parts(email@, token@);
    }
    let code: Vec<u8> = hmac_sha1_code(userdata_auth.as_bytes(), message.as_slice());
    encode_hex(&code)
}

/// The token is a function of the secret and the parts: the same secret and
/// the same parts have the same token, however long they are.
pub proof fn lemma_token_is_deterministic(
    first_secret: Seq<char>,
    first_parts: Seq<Seq<char>>,
    second_secret: Seq<char>,
    second_parts: Seq<Seq<char>>,
)
    requires
        first_secret == second_secret,
        first_parts == second_parts,
    ensures
        token_text(first_secret, first_parts) == token_text(second_secret, second_parts),
{
}

/// Different values below sixteen have different digits.
proof fn lemma_hex_digits_differ(first: int, second: int)
    requires
        0 <= first < 16,
        0 <= second < 16,
        hex_digit(first) == hex_digit(second),
    ensures
        first == second,
{
    reveal_strlit("0123456789abcdef");
}

/// Writing in hexadecimal loses nothing: bytes that are written alike are
/// alike.
pub proof fn lemma_hex_is_injective(first: Seq<u8>, second: Seq<u8>)
    requires
        hex_lower(first) == hex_lower(second),
    ensures
        first == second,
{
    assert(hex_lower(first).len() == 2 * first.len());
    assert(hex_lower(second).len() == 2 * second.len());
    assert forall|at: int| 0 <= at < first.len() implies first[at] == second[at] by {
        let high = 2 * at;
        let low = 2 * at + 1;
        assert(high / 2 == at && high % 2 == 0);
        assert(low / 2 == at && low % 2 == 1);
        assert(hex_lower(first)[high] == hex_digit(first[at] as int / 16));
        assert(hex_lower(second)[high] == hex_digit(second[at] as int / 16));
        assert(hex_lower(first)[low] == hex_digit(first[at] as int % 16));
        assert(hex_lower(second)[low] == hex_digit(second[at] as int % 16));
        lemma_hex_digits_differ(first[at] as int / 16, second[at] as int / 16);
        lemma_hex_digits_differ(first[at] as int % 16, second[at] as int % 16);
    }
    assert(first =~= second);
}

/// Two tokens under one secret are the same exactly if the codes of their
/// messages are.
pub proof fn lemma_tokens_differ_as_codes_do(
    secret: Seq<char>,
    first: Seq<Seq<char>>,
    second: Seq<Seq<char>>,
)
    ensures
        token_text(secret, first) == token_text(secret, second) <==> hmac_sha1(
            encode_utf8(secret),
            token_message(first),
        ) == hmac_sha1(encode_utf8(secret), token_message(second)),
{
    if token_text(secret, first) == token_text(secret, second) {
        lemma_hex_is_injective(
            hmac_sha1(encode_utf8(secret), token_message(first)),
            hmac_sha1(encode_utf8(secret), token_message(second)),
        );
    }
}

/// The bytes of two texts in a row are the bytes of the one, then the bytes
/// of the other.
proof fn lemma_bytes_of_joined_texts(first: Seq<char>, second: Seq<char>)
    ensures
        encode_utf8(first + second) == encode_utf8(first) + encode_utf8(second),
    decreases first.len(),
{
    if first.len() == 0 {
        assert(first + second == second);
    } else {
        assert((first + second).drop_first() == first.drop_first() + second);
        lemma_bytes_of_joined_texts(first.drop_first(), second);
    }
}

/// The message of two parts is the bytes of the first, then the bytes of
/// the second.
proof fn lemma_message_of_two_parts(first: Seq<char>, second: Seq<char>)
    ensures
        token_message(seq![first, second]) == encode_utf8(first) + encode_utf8(second),
{
    let encoded = seq![first, second].map_values(|part: Seq<char>| encode_utf8(part));
    assert(encoded == Seq::<Seq<u8>>::empty().push(encode_utf8(first)).push(encode_utf8(second)));
    Seq::<Seq<u8>>::empty().lemma_flatten_push(encode_utf8(first));
    Seq::<Seq<u8>>::empty().push(encode_utf8(first)).lemma_flatten_push(encode_utf8(second));
    assert(Seq::<Seq<u8>>::empty().flatten() == Seq::<u8>::empty());
}

/// Where one part ends and the next begins does not reach the token: text
/// moved from the end of a part to the start of the next leaves the token
/// as it was. Parts are told apart only by what they hold together.
pub proof fn lemma_part_boundaries_are_not_marked(
    secret: Seq<char>,
    head: Seq<char>,
    moved: Seq<char>,
    tail: Seq<char>,
)
    ensures
        token_text(secret, seq![head + moved, tail]) == token_text(secret, seq![head, moved + tail]),
{
    lemma_message_of_two_parts(head + moved, tail);
    lemma_message_of_two_parts(head, moved + tail);
    lemma_bytes_of_joined_texts(head, moved);
    lemma_bytes_of_joined_texts(moved, tail);
    assert((encode_utf8(head) + encode_utf8(moved)) + encode_utf8(tail) == encode_utf8(head) + (
    encode_utf8(moved) + encode_utf8(tail)));
}

/// Lists of byte strings that agree from `from` on and flatten alike up to
/// `upto` flatten alike up to `from`.
proof fn lemma_flatten_cancels_tail(
    first: Seq<Seq<u8>>,
    second: Seq<Seq<u8>>,
    from: int,
    upto: int,
)
    requires
        first.len() == second.len(),
        0 <= from <= upto <= first.len(),
        forall|at: int| from <= at < upto ==> first[at] == second[at],
        first.take(upto).flatten() == second.take(upto).flatten(),
    ensures
        first.take(from).flatten() == second.take(from).flatten(),
    decreases upto - from,
{
    if from < upto {
        let last = first[upto - 1];
        assert(first.take(upto) == first.take(upto - 1).push(last));
        assert(second.take(upto) == second.take(upto - 1).push(last));
        first.take(upto - 1).lemma_flatten_push(last);
        second.take(upto - 1).lemma_flatten_push(last);
        let left = first.take(upto - 1).flatten();
        let right = second.take(upto - 1).flatten();
        assert(left + last == right + last);
        assert(left.len() == right.len()) by {
            assert((left + last).len() == left.len() + last.len());
            assert((right + last).len() == right.len() + last.len());
        }
        assert forall|at: int| 0 <= at < left.len() implies left[at] == right[at] by {
            assert((left + last)[at] == left[at]);
            assert((right + last)[at] == right[at]);
        }
        assert(left =~= right);
        lemma_flatten_cancels_tail(first, second, from, upto - 1);
    }
}

/// Changing one part, and no other, changes the message that is
/// authenticated.
pub proof fn lemma_changed_part_changes_message(
    first: Seq<Seq<char>>,
    second: Seq<Seq<char>>,
    changed: int,
)
    requires
        first.len() == second.len(),
        0 <= changed < first.len(),
        first[changed] != second[changed],
        forall|at: int| 0 <= at < first.len() && at != changed ==> first[at] == second[at],
    ensures
        token_message(first) != token_message(second),
{
    let left = first.map_values(|part: Seq<char>| encode_utf8(part));
    let right = second.map_values(|part: Seq<char>| encode_utf8(part));
    if left.flatten() == right.flatten() {
        assert(left.take(left.len() as int) == left);
        assert(right.take(right.len() as int) == right);
        assert forall|at: int| changed + 1 <= at < left.len() implies left[at] == right[at] by {
            assert(first[at] == second[at]);
        }
        lemma_flatten_cancels_tail(left, right, changed + 1, left.len() as int);
        assert(left.take(changed) == right.take(changed)) by {
            assert forall|at: int| 0 <= at < changed implies left.take(changed)[at] == right.take(
                changed,
            )[at] by {
                assert(first[at] == second[at]);
            }
            assert(left.take(changed) =~= right.take(changed));
        }
        let before = left.take(changed).flatten();
        assert(left.take(changed + 1) == left.take(changed).push(left[changed]));
        assert(right.take(changed + 1) == right.take(changed).push(right[changed]));
        left.take(changed).lemma_flatten_push(left[changed]);
        right.take(changed).lemma_flatten_push(right[changed]);
        assert(before + left[changed] == before + right[changed]);
        assert(left[changed].len() == right[changed].len()) by {
            assert((before + left[changed]).len() == before.len() + left[changed].len());
            assert((before + right[changed]).len() == before.len() + right[changed].len());
        }
        assert forall|at: int| 0 <= at < left[changed].len() implies left[changed][at]
            == right[changed][at] by {
            assert((before + left[changed])[before.len() + at] == left[changed][at]);
            assert((before + right[changed])[before.len() + at] == right[changed][at]);
        }
        assert(left[changed] =~= right[changed]);
        vstd::utf8::encode_utf8_decode_utf8(first[changed]);
        vstd::utf8::encode_utf8_decode_utf8(second[changed]);
        assert(false);
    }
}

/// Why a request's headers were refused.
#[derive(Clone, Copy, Debug, PartialEq, Eq, Structural)]
pub enum HeaderError {
    /// The authorization header is missing or malformed.
    InvalidAuthorization,
    /// Another header is missing or malformed.
    InvalidHeader,
}

pub const INVALID_AUTHORIZATION: &'static str = "Invalid authorization header";

pub const INVALID_HEADER: &'static str = "Invalid header";

impl HeaderError {
    /// What the caller is told.
    pub fn message(self) -> (message: &'static str)
        ensures
            message == match self {
                HeaderError::InvalidAuthorization => INVALID_AUTHORIZATION,
                HeaderError::InvalidHeader => INVALID_HEADER,
            },
    {
        match self {
            HeaderError::InvalidAuthorization => INVALID_AUTHORIZATION,
            HeaderError::InvalidHeader => INVALID_HEADER,
        }
    }
}

/// Values that may be missing, read as parts of a request's headers.
pub trait InvalidItems<T>: Sized {
    /// The value, where there is one.
    spec fn item(self) -> Option<T>;

    /// The value, or the refusal of the authorization header.
    fn invalid_auth(self) -> (checked: Result<T, HeaderError>)
        ensures
            checked == match self.item() {
                Some(value) => Ok::<T, HeaderError>(value),
                None => Err(HeaderError::InvalidAuthorization),
            },
    ;

    /// The value, or the refusal of a header.
    fn invalid_header(self) -> (checked: Result<T, HeaderError>)
        ensures
            checked == match self.item() {
                Some(value) => Ok::<T, HeaderError>(value),
                None => Err(HeaderError::InvalidHeader),
            },
    ;
}

impl<T> InvalidItems<T> for Option<T> {
    open spec fn item(self) -> Option<T> {
        self
    }

    fn invalid_auth(self) -> (checked: Result<T, HeaderError>) {
        match self {
            Some(value) => Ok(value),
            None => Err(HeaderError::InvalidAuthorization),
        }
    }

    fn invalid_header(self) -> (checked: Result<T, HeaderError>) {
        match self {
            Some(value) => Ok(value),
            None => Err(HeaderError::InvalidHeader),
        }
    }
}

impl<T, E> InvalidItems<T> for Result<T, E> {
    open spec fn item(self) -> Option<T> {
        match self {
            Ok(value) => Some(value),
            Err(_) => None,
        }
    }

    fn invalid_auth(self) -> (checked: Result<T, HeaderError>) {
        match self {
            Ok(value) => Ok(value),
            Err(_) => Err(HeaderError::InvalidAuthorization),
        }
    }

    fn invalid_header(self) -> (checked: Result<T, HeaderError>) {
        match self {
            Ok(value) => Ok(value),
            Err(_) => Err(HeaderError::InvalidHeader),
        }
    }
}

/// The credentials of a player.
#[derive(Clone, Debug)]
pub struct AuthData {
    pub email: String,
    pub token: String,
}

/// Whether a character is white space: one of the characters to which
/// Unicode gives the property `White_Space`.
pub open spec fn white_space(c: char) -> bool {
    let code = c as u32;
    ||| 0x09 <= code <= 0x0D
    ||| code == 0x20
    ||| code == 0x85
    ||| code == 0xA0
    ||| code == 0x1680
    ||| 0x2000 <= code <= 0x200A
    ||| code == 0x2028
    ||| code == 0x2029
    ||| code == 0x202F
    ||| code == 0x205F
    ||| code == 0x3000
}

/// Asks `char::is_whitespace` of the standard library.
///
/// Trusted, as the library documents it: the answer is whether the
/// character has the property `White_Space` of the Unicode character
/// database.
#[verifier::external_body]
fn is_white_space(c: char) -> (space: bool)
    ensures
        space == white_space(c),
{
    c.is_whitespace()
}

/// What `base64::decode` makes of a text in the standard alphabet, with
/// padding: the bytes it stands for, or nothing where it is malformed.
pub uninterp spec fn base64_decoded(input: Seq<u8>) -> Option<Seq<u8>>;

/// The error of the `base64` crate's decoder.
#[verifier::external_type_specification]
#[verifier::external_body]
pub struct ExDecodeError(base64::DecodeError);

/// The longest input that the decoder is given: it sizes its buffers by the
/// input's length rounded up, and no buffer may exceed half the address
/// space.
pub open spec fn decoder_takes(length: nat) -> bool {
    length <= usize::MAX / 2
}

/// Decodes with `base64::decode`. Trusted: whether the input decodes, and to
/// which bytes, depends on the input alone. Inputs too long for the decoder's
/// buffers are left out.
#[verifier::external_body]
fn decode_base64(input: &str) -> (decoded: Result<Vec<u8>, base64::DecodeError>)
    requires
        decoder_takes(encode_utf8(input@).len()),
    ensures
        match decoded {
            Ok(bytes) => base64_decoded(encode_utf8(input@)) == Some(bytes@),
            Err(_) => base64_decoded(encode_utf8(input@)) is None,
        },
{
    base64::decode(input)
}

/// Reads bytes as UTF-8 with `String::from_utf8` of the standard library.
/// Trusted: bytes that are valid UTF-8, and no others, are read, and the
/// text that is read has exactly these bytes.
#[verifier::external_body]
fn text_from_utf8(bytes: Vec<u8>) -> (text: Option<String>)
    ensures
        text is Some <==> valid_utf8(bytes@),
        text is Some ==> encode_utf8(text->0@) == bytes@,
{
    String::from_utf8(bytes).ok()
}

/// Which characters of a text are white space.
pub open spec fn space_marks(text: Seq<char>) -> Seq<bool> {
    text.map_values(|c: char| white_space(c))
}

/// The first position at or after `from` that is not marked as white space,
/// or the length of the marks.
pub open spec fn spaces_end(marks: Seq<bool>, from: int) -> int
    decreases marks.len() - from,
{
    if 0 <= from < marks.len() && marks[from] {
        spaces_end(marks, from + 1)
    } else {
        from
    }
}

/// The first position at or after `from` that is marked as white space, or
/// the length of the marks.
pub open spec fn word_end(marks: Seq<bool>, from: int) -> int
    decreases marks.len() - from,
{
    if 0 <= from < marks.len() && !marks[from] {
        word_end(marks, from + 1)
    } else {
        from
    }
}

/// The first position at or after `from` that holds a colon, or the length
/// of the text.
pub open spec fn field_end(text: Seq<char>, from: int) -> int
    decreases text.len() - from,
{
    if 0 <= from < text.len() && text[from] != ':' {
        field_end(text, from + 1)
    } else {
        from
    }
}

pub const BASIC_SCHEME: &'static str = "Basic";

/// The second word of a text whose first word is `Basic`. Words are parted
/// by the characters that are marked as white space.
pub open spec fn word_after_basic(text: Seq<char>, marks: Seq<bool>) -> Option<Seq<char>> {
    let scheme_start = spaces_end(marks, 0);
    let scheme_end = word_end(marks, scheme_start);
    let start = spaces_end(marks, scheme_end);
    let end = word_end(marks, start);
    if text.subrange(scheme_start, scheme_end) == BASIC_SCHEME@ && start < text.len() {
        Some(text.subrange(start, end))
    } else {
        None
    }
}

/// The encoded credentials of a header: its second word, where its first
/// word is `Basic`. Words are parted by white space.
pub open spec fn basic_credentials(header: Seq<char>) -> Option<Seq<char>> {
    word_after_basic(header, space_marks(header))
}

/// The email and the token of decoded credentials: what stands before the
/// first colon, and what stands between it and the next colon or the end.
/// Credentials without a colon name neither.
pub open spec fn split_credentials(text: Seq<char>) -> Option<(Seq<char>, Seq<char>)> {
    let email_end = field_end(text, 0);
    if email_end < text.len() {
        Some(
            (
                text.subrange(0, email_end),
                text.subrange(email_end + 1, field_end(text, email_end + 1)),
            ),
        )
    } else {
        None
    }
}

/// The credentials that a header carries: its encoded word, decoded from
/// base64, read as UTF-8 and split at the colon. Nothing where a step
/// fails, or where the word is too long to be decoded.
pub open spec fn header_credentials(header: Seq<char>) -> Option<(Seq<char>, Seq<char>)> {
    match basic_credentials(header) {
        None => None,
        Some(word) => if !decoder_takes(encode_utf8(word).len()) {
            None
        } else {
            match base64_decoded(encode_utf8(word)) {
                None => None,
                Some(bytes) => if valid_utf8(bytes) {
                    split_credentials(vstd::utf8::decode_utf8(bytes))
                } else {
                    None
                },
            }
        },
    }
}

/// Marks the characters that are white space.
pub fn mark_spaces(text: &Vec<char>) -> (marks: Vec<bool>)
    ensures
        marks@ == space_marks(text@),
{
    let mut marks: Vec<bool> = Vec::new();
    let mut next: usize = 0;
    while next < text.len()
        invariant
            next <= text.len(),
            marks@ == space_marks(text@.take(next as int)),
        decreases text.len() - next,
    {
        marks.push(is_white_space(text[next]));
        assert(text@.take(next + 1) == text@.take(next as int).push(text@[next as int]));
        next = next + 1;
    }
    assert(text@.take(next as int) == text@);
    marks
}

fn skip_spaces(marks: &Vec<bool>, from: usize) -> (end: usize)
    requires
        from <= marks.len(),
    ensures
        end == spaces_end(marks@, from as int),
        from <= end <= marks.len(),
{
    let mut next: usize = from;
    while next < marks.len() && marks[next]
        invariant
            from <= next <= marks.len(),
            spaces_end(marks@, from as int) == spaces_end(marks@, next as int),
        decreases marks.len() - next,
    {
        next = next + 1;
    }
    next
}

fn skip_word(marks: &Vec<bool>, from: usize) -> (end: usize)
    requires
        from <= marks.len(),
    ensures
        end == word_end(marks@, from as int),
        from <= end <= marks.len(),
{
    let mut next: usize = from;
    while next < marks.len() && !marks[next]
        invariant
            from <= next <= marks.len(),
            word_end(marks@, from as int) == word_end(marks@, next as int),
        decreases marks.len() - next,
    {
        next = next + 1;
    }
    next
}

fn skip_field(text: &Vec<char>, from: usize) -> (end: usize)
    requires
        from <= text.len(),
    ensures
        end == field_end(text@, from as int),
        from <= end <= text.len(),
{
    let mut next: usize = from;
    while next < text.len() && text[next] != ':'
        invariant
            from <= next <= text.len(),
            field_end(text@, from as int) == field_end(text@, next as int),
        decreases text.len() - next,
    {
        next = next + 1;
    }
    next
}

/// The second word of a text whose first word is `Basic`, where `marks`
/// tells which characters part the words.
pub fn second_word(text: &Vec<char>, marks: &Vec<bool>) -> (word: Option<String>)
    requires
        marks.len() == text.len(),
    ensures
        match word {
            Some(word) => word_after_basic(text@, marks@) == Some(word@),
            None => word_after_basic(text@, marks@) is None,
        },
{
    let scheme_start: usize = skip_spaces(marks, 0);
    let scheme_end: usize = skip_word(marks, scheme_start);
    let start: usize = skip_spaces(marks, scheme_end);
    let end: usize = skip_word(marks, start);
    let scheme: String = text_between(text, scheme_start, scheme_end);
    if same_text(scheme.as_str(), BASIC_SCHEME) && start < text.len() {
        Some(text_between(text, start, end))
    } else {
        None
    }
}

/// The encoded credentials of a header.
pub fn basic_word(header: &str) -> (word: Option<String>)
    ensures
        match word {
            Some(word) => basic_credentials(header@) == Some(word@),
            None => basic_credentials(header@) is None,
        },
{
    let chars: Vec<char> = chars_of(header);
    let marks: Vec<bool> = mark_spaces(&chars);
    second_word(&chars, &marks)
}

/// The email and the token of decoded credentials.
pub fn split_auth(credentials: &str) -> (auth: Option<AuthData>)
    ensures
        match auth {
            Some(auth) => split_credentials(credentials@) == Some((auth.email@, auth.token@)),
            None => split_credentials(credentials@) is None,
        },
{
    let chars: Vec<char> = chars_of(credentials);
    let email_end: usize = skip_field(&chars, 0);
    if email_end < chars.len() {
        let token_end: usize = skip_field(&chars, email_end + 1);
        Some(
            AuthData {
                email: text_between(&chars, 0, email_end),
                token: text_between(&chars, email_end + 1, token_end),
            },
        )
    } else {
        None
    }
}

/// Reads the decoded bytes of credentials as an email and a token.
pub fn read_credentials(decoded: Option<Vec<u8>>) -> (auth: Result<AuthData, HeaderError>)
    ensures
        match auth {
            Ok(auth) => decoded is Some && valid_utf8(decoded->0@) && split_credentials(
                vstd::utf8::decode_utf8(decoded->0@),
            ) == Some((auth.email@, auth.token@)),
            Err(error) => error == HeaderError::InvalidAuthorization && (decoded is None
                || !valid_utf8(decoded->0@) || split_credentials(
                vstd::utf8::decode_utf8(decoded->0@),
            ) is None),
        },
{
    let bytes: Vec<u8> = decoded.invalid_auth()?;
    let text: String = text_from_utf8(bytes).invalid_auth()?;
    proof {
        vstd::utf8::encode_utf8_decode_utf8(text@);
    }
    split_auth(text.as_str()).invalid_auth()
}

/// Reads the email and the token from an authorization header of the shape
/// `Basic {base64(email:player_token)}`.
///
/// Every header that is not of this shape is refused as an invalid
/// authorization header.
pub fn safe_basic_auth_decoder(auth_header: &str) -> (auth: Result<AuthData, HeaderError>)
    ensures
        match auth {
            Ok(auth) => header_credentials(auth_header@) == Some((auth.email@, auth.token@)),
            Err(error) => error == HeaderError::InvalidAuthorization && header_credentials(
                auth_header@,
            ) is None,
        },
{
    let word: String = basic_word(auth_header).invalid_auth()?;
    if word.as_str().as_bytes().len() > usize::MAX / 2 {
        return Err(HeaderError::InvalidAuthorization);
    }
    let decoded: Option<Vec<u8>> = match decode_base64(word.as_str()) {
        Ok(bytes) => Some(bytes),
        Err(_) => None,
    };
    read_credentials(decoded)
}

impl AuthData {
    /// The credentials of an authorization header that carries some: of a
    /// header that the authorization has let through.
    pub fn from_header(auth_header: &str) -> (auth: AuthData)
        requires
            header_credentials(auth_header@) is Some,
        ensures
            header_credentials(auth_header@) == Some((auth.email@, auth.token@)),
    {
        match safe_basic_auth_decoder(auth_header) {
            Ok(auth) => auth,
            Err(_) => vstd::pervasive::unreached(),
        }
    }

    /// The credentials of an authorization header, or nothing where it
    /// carries none.
    pub fn try_from_header(auth_header: &str) -> (auth: Option<AuthData>)
        ensures
            match auth {
                Some(auth) => header_credentials(auth_header@) == Some(
                    (auth.email@, auth.token@),
                ),
                None => header_credentials(auth_header@) is None,
            },
    {
        match safe_basic_auth_decoder(auth_header) {
            Ok(_) => Some(AuthData::from_header(auth_header)),
            Err(_) => None,
        }
    }
}

} // verus!
