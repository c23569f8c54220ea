//! Text helpers shared by requests and responses: cutting a line at a
//! space, testing a prefix, copying header lines and bodies, and reading a
//! body as UTF-8 text.

use crate::results::{CabotError, CabotResult};
use std::string::FromUtf8Error;
use vstd::prelude::*;
use vstd::string::{StrSliceExecFns, StringExecFns};
use vstd::utf8::{decode_utf8, encode_utf8, encode_utf8_decode_utf8, valid_utf8};

verus! {

/// Number of characters of `s` before its first space; the length of `s`
/// where it holds no space.
pub open spec fn before_space(s: Seq<char>) -> nat
    decreases s.len(),
{
    if s.len() == 0 || s[0] == ' ' {
        0
    } else {
        1 + before_space(s.drop_first())
    }
}

/// `s` cut at its first space: what stands before the space and what stands
/// after it, the space itself left out. Nothing where `s` holds no space.
pub open spec fn split_at_space(s: Seq<char>) -> Option<(Seq<char>, Seq<char>)> {
    let at = before_space(s) as int;
    if at < s.len() {
        Some((s.subrange(0, at), s.subrange(at + 1, s.len() as int)))
    } else {
        None
    }
}

/// `before_space` is the one position that has a space, or the end, after
/// characters that are no space.
pub proof fn lemma_before_space(s: Seq<char>, at: int)
    requires
        0 <= at <= s.len(),
        forall|j: int| 0 <= j < at ==> s[j] != ' ',
        at < s.len() ==> s[at] == ' ',
    ensures
        before_space(s) == at,
    decreases s.len(),
{
    if at > 0 {
        let rest = s.drop_first();
        assert forall|j: int| 0 <= j < at - 1 implies rest[j] != ' ' by {
            assert(rest[j] == s[j + 1]);
        }
        lemma_before_space(rest, at - 1);
    }
}

/// Cuts `s` at its first space.
pub fn cut_at_space(s: &str) -> (parts: Option<(&str, &str)>)
    ensures
        match parts {
            Some((head, tail)) => split_at_space(s@) == Some((head@, tail@)),
            None => split_at_space(s@) is None,
        },
{
    let len = s.unicode_len();
    let mut at: usize = 0;
    for c in it: s.chars()
        invariant_except_break
            at == it.index(),
        invariant
            len == s@.len(),
            it.seq() == s@,
            forall|j: int| 0 <= j < at ==> s@[j] != ' ',
        ensures
            at <= len,
            forall|j: int| 0 <= j < at ==> s@[j] != ' ',
            at < len ==> s@[at as int] == ' ',
    {
        if c == ' ' {
            break ;
        }
        at = at + 1;
    }
    proof {
        lemma_before_space(s@, at as int);
    }
    if at < len {
        Some((s.substring_char(0, at), s.substring_char(at + 1, len)))
    } else {
        None
    }
}

/// True when `s` begins with `prefix`.
pub fn starts_with(s: &str, prefix: &str) -> (found: bool)
    ensures
        found == prefix@.is_prefix_of(s@),
{
    let len = prefix.unicode_len();
    if s.unicode_len() < len {
        return false;
    }
    let mut i: usize = 0;
    for c in it: s.chars()
        invariant_except_break
            i == it.index(),
        invariant
            it.seq() == s@,
            len == prefix@.len(),
            len <= s@.len(),
            i <= len,
            forall|j: int| 0 <= j < i ==> s@[j] == prefix@[j],
        ensures
            i <= len,
            forall|j: int| 0 <= j < i ==> s@[j] == prefix@[j],
            i < len ==> s@[i as int] != prefix@[i as int],
    {
        if i == len || c != prefix.get_char(i) {
            break ;
        }
        i = i + 1;
    }
    if i == len {
        assert(prefix@ =~= s@.subrange(0, len as int));
        true
    } else {
        false
    }
}

/// A copy of `lines`.
pub fn copy_lines(lines: &Vec<String>) -> (copy: Vec<String>)
    ensures
        copy.deep_view() == lines.deep_view(),
{
    let mut copy: Vec<String> = Vec::new();
    let mut i: usize = 0;
    while i < lines.len()
        invariant
            i <= lines.len(),
            copy.len() == i,
            forall|j: int| 0 <= j < i ==> copy@[j]@ == lines@[j]@,
        decreases lines.len() - i,
    {
        copy.push(lines[i].clone());
        i = i + 1;
    }
    assert(copy.deep_view() =~= lines.deep_view());
    copy
}

/// The bytes of a body that may be absent.
pub open spec fn body_bytes(body: Option<Vec<u8>>) -> Option<Seq<u8>> {
    match body {
        Some(bytes) => Some(bytes@),
        None => None,
    }
}

/// A copy of `body`.
pub fn copy_body(body: &Option<Vec<u8>>) -> (copy: Option<Vec<u8>>)
    ensures
        body_bytes(copy) == body_bytes(*body),
{
    match body {
        Some(bytes) => Some(bytes.clone()),
        None => None,
    }
}

/// True when `pattern` stands in `text` from position `at` on.
pub open spec fn occurs_at(text: Seq<char>, pattern: Seq<char>, at: int) -> bool {
    0 <= at && at + pattern.len() <= text.len() && text.subrange(at, at + pattern.len())
        == pattern
}

/// True when `pattern` stands somewhere in `text`.
pub open spec fn occurs_in(text: Seq<char>, pattern: Seq<char>) -> bool {
    exists|at: int| occurs_at(text, pattern, at)
}

/// The encoding of two texts, one after the other, is the encoding of the
/// first followed by that of the second.
pub proof fn lemma_encode_concat(first: Seq<char>, second: Seq<char>)
    ensures
        encode_utf8(first + second) == encode_utf8(first) + encode_utf8(second),
    decreases first.len(),
{
    if first.len() == 0 {
        assert(first + second =~= second);
        assert(encode_utf8(first) + encode_utf8(second) =~= encode_utf8(second));
    } else {
        assert((first + second).drop_first() =~= first.drop_first() + second);
        lemma_encode_concat(first.drop_first(), second);
        assert(encode_utf8(first + second) =~= encode_utf8(first) + encode_utf8(second));
    }
}

/// `std::string::FromUtf8Error`, the decoder's reason for refusing bytes.
/// It is carried as it comes; nothing is known of what it holds.
#[verifier::external_type_specification]
#[verifier::external_body]
pub struct ExFromUtf8Error(FromUtf8Error);

/// `String::from_utf8`: succeeds exactly on valid UTF-8, and the text it
/// returns is made of the bytes it was given.
#[verifier::external_body]
fn string_from_utf8(bytes: Vec<u8>) -> (r: Result<String, FromUtf8Error>)
    ensures
        r is Ok <==> valid_utf8(bytes@),
        r matches Ok(text) ==> encode_utf8(text@) == bytes@,
{
    String::from_utf8(bytes)
}

/// What an encoding error says before it quotes the decoder.
pub open spec fn encoding_error_prefix() -> Seq<char> {
    "Cannot decode utf8: "@
}

/// Reads `bytes` as UTF-8 text.
///
/// Fails with `EncodingError` exactly where the bytes are not valid UTF-8;
/// the error then quotes the decoder after a fixed prefix.
pub fn decode_text(bytes: &Vec<u8>) -> (r: CabotResult<String>)
    ensures
        match r {
            Ok(text) => valid_utf8(bytes@) && text@ == decode_utf8(bytes@),
            Err(CabotError::EncodingError(detail)) => !valid_utf8(bytes@)
                && encoding_error_prefix().is_prefix_of(detail@),
            Err(_) => false,
        },
{
    match string_from_utf8(bytes.clone()) {
        Ok(text) => {
            proof {
                encode_utf8_decode_utf8(text@);
            }
            Ok(text)
        },
        Err(error) => {
            let mut detail = "Cannot decode utf8: ".to_owned();
            detail.append(error.to_string().as_str());
            Err(CabotError::EncodingError(detail))
        },
    }
}

} // verus!
