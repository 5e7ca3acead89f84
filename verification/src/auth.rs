//! Logging in: reading HTTP basic credentials and mapping the outcome of the
//! credential lookup to the error codes of the request handlers.
use vstd::prelude::*;
use vstd::utf8::{decode_utf8, valid_utf8};
use crate::text::{
    after_first, before_first, chars_of, find_char, first_index, has_prefix, slice_chars,
    starts_with, string_of,
};

verus! {

/// The bytes that the standard base64 alphabet (with padding) decodes `input` to,
/// or `None` when `input` is not valid base64; as computed by `base64::decode`.
pub uninterp spec fn base64_decoded(input: Seq<char>) -> Option<Seq<u8>>;

/// `base64::decode(input)` with the crate's standard configuration: the decoded
/// bytes, or `None` where the crate reports a decoding error. The result is a
/// function of `input` alone and is named `base64_decoded`; the decoding itself is
/// not restated here.
#[verifier::external_body]
fn base64_decode(input: &str) -> (r: Option<Vec<u8>>)
    ensures
        match r {
            Some(v) => base64_decoded(input@) == Some(v@),
            None => base64_decoded(input@) is None,
        },
{
    base64::decode(input).ok()
}

/// `String::from_utf8(bytes)`: the text that `bytes` encode, or `None` when they are
/// not valid UTF-8 (the function's documented error case).
#[verifier::external_body]
pub(crate) fn utf8_text(bytes: Vec<u8>) -> (r: Option<String>)
    ensures
        r is Some <==> valid_utf8(bytes@),
        r matches Some(s) ==> s@ == decode_utf8(bytes@),
{
    String::from_utf8(bytes).ok()
}

/// What the value of an `Authorization` header holds.
pub enum Credentials {
    /// A user name and password.
    Parsed(String, String),
    /// The decoded text has no `:` between a user name and a password.
    NoSeparator,
}

/// The encoded part of an `Authorization` value: what follows `Basic `, or nothing
/// when the value does not begin with it.
pub open spec fn basic_payload(value: Seq<char>) -> Seq<char> {
    if has_prefix(value, "Basic "@) {
        value.skip(6)
    } else {
        Seq::empty()
    }
}

/// The text that an `Authorization` value decodes to, if it decodes.
pub open spec fn decoded_credentials(value: Seq<char>) -> Option<Seq<char>> {
    match base64_decoded(basic_payload(value)) {
        Some(bytes) => if valid_utf8(bytes) { Some(decode_utf8(bytes)) } else { None },
        None => None,
    }
}

/// User name and password in decoded credentials: the text before the first `:`
/// and the text between the first and the second `:` (or the end).
pub open spec fn split_user_pass(text: Seq<char>) -> (Seq<char>, Seq<char>) {
    (before_first(text, ':'), before_first(after_first(text, ':'), ':'))
}

/// The user name and password in `text`, which holds a `:`.
pub fn split_credentials(text: &str) -> (r: (String, String))
    requires
        first_index(text@, ':') < text@.len(),
    ensures
        r.0@ == split_user_pass(text@).0,
        r.1@ == split_user_pass(text@).1,
{
    let t = chars_of(text);
    let k = find_char(&t, ':');
    let user = slice_chars(&t, 0, k);
    let rest = slice_chars(&t, k + 1, t.len());
    let end = find_char(&rest, ':');
    let pass = slice_chars(&rest, 0, end);
    assert(rest@ =~= after_first(text@, ':'));
    (string_of(&user), string_of(&pass))
}

/// The credentials in the value of an `Authorization` header: the text after
/// `Basic `, base64-decoded, read as UTF-8, split at `:`. `Err(-1)` when it does not
/// decode.
pub fn basic_credentials(value: &str) -> (r: Result<Credentials, i8>)
    ensures
        match decoded_credentials(value@) {
            None => r == Err::<Credentials, i8>(-1i8),
            Some(text) => if first_index(text, ':') < text.len() {
                r matches Ok(Credentials::Parsed(u, p)) && u@ == split_user_pass(text).0
                    && p@ == split_user_pass(text).1
            } else {
                r matches Ok(Credentials::NoSeparator)
            },
        },
{
    let v = chars_of(value);
    let prefix = chars_of("Basic ");
    proof {
        reveal_strlit("Basic ");
    }
    let coded = if starts_with(&v, &prefix) {
        slice_chars(&v, 6, v.len())
    } else {
        Vec::new()
    };
    let coded_str = string_of(&coded);
    proof {
        assert(coded@ =~= basic_payload(value@));
    }
    let bytes = match base64_decode(coded_str.as_str()) {
        Some(b) => b,
        None => {
            return Err(-1);
        },
    };
    let text = match utf8_text(bytes) {
        Some(t) => t,
        None => {
            return Err(-1);
        },
    };
    let t = chars_of(text.as_str());
    if find_char(&t, ':') < t.len() {
        let (u, p) = split_credentials(text.as_str());
        Ok(Credentials::Parsed(u, p))
    } else {
        Ok(Credentials::NoSeparator)
    }
}

/// The credentials of a request from its `Authorization` header: `Err(-1)` when
/// there is no such header (`None`) or it does not decode, `Err(-4)` when its value
/// is not visible ASCII text (`Some(None)`).
pub fn get_uid_credentials(header: Option<Option<String>>) -> (r: Result<Credentials, i8>)
    ensures
        match header {
            None => r == Err::<Credentials, i8>(-1i8),
            Some(None) => r == Err::<Credentials, i8>(-4i8),
            Some(Some(value)) => match decoded_credentials(value@) {
                None => r == Err::<Credentials, i8>(-1i8),
                Some(text) => if first_index(text, ':') < text.len() {
                    r matches Ok(Credentials::Parsed(u, p)) && u@ == split_user_pass(text).0
                        && p@ == split_user_pass(text).1
                } else {
                    r matches Ok(Credentials::NoSeparator)
                },
            },
        },
{
    match header {
        None => Err(-1),
        Some(None) => Err(-4),
        Some(Some(value)) => basic_credentials(value.as_str()),
    }
}

/// The user id of a request from the result of the credential lookup: the id when
/// it succeeded, `Err(-2)` when no user matched (`-5`), `Err(-3)` for any other failure.
pub fn get_uid(lookup: Result<u64, i8>) -> (r: Result<u64, i8>)
    ensures
        match lookup {
            Ok(id) => r == Ok::<u64, i8>(id),
            Err(e) => r == Err::<u64, i8>(if e == -5 { -2i8 } else { -3i8 }),
        },
{
    match lookup {
        Ok(i) => Ok(i),
        Err(-5) => Err(-2),
        Err(_) => Err(-3),
    }
}

} // verus!

verus! {

/// What a client encodes is what is read back: the decoded text `user:pass`, where
/// neither part holds a `:`, yields `user` and `pass`.
pub proof fn law_credentials_roundtrip(user: Seq<char>, pass: Seq<char>)
    requires
        forall|i: int| 0 <= i < user.len() ==> user[i] != ':',
        forall|i: int| 0 <= i < pass.len() ==> pass[i] != ':',
    ensures
        first_index(user + seq![':'] + pass, ':') < (user + seq![':'] + pass).len(),
        split_user_pass(user + seq![':'] + pass) == (user, pass),
{
    let t = user + seq![':'] + pass;
    crate::text::lemma_first_index_unique(t, ':', user.len() as int);
    assert(before_first(t, ':') =~= user);
    assert(after_first(t, ':') =~= pass);
    crate::text::lemma_first_index_unique(pass, ':', pass.len() as int);
    assert(before_first(pass, ':') =~= pass);
}

} // verus!
