//! Whitespace-separated tokens: the parts that a status line is made of.

use vstd::prelude::*;
use vstd::string::StrSliceExecFns;

verus! {

/// True for the characters that Unicode calls white space: tab, line feed,
/// vertical tab, form feed, carriage return, space, next line, no-break
/// space, and the spaces and separators from U+1680 to U+3000.
pub open spec fn is_whitespace(c: char) -> bool {
    let code = c as u32;
    ||| 0x09 <= code <= 0x0d
    ||| code == 0x20
    ||| code == 0x85
    ||| code == 0xa0
    ||| code == 0x1680
    ||| 0x2000 <= code <= 0x200a
    ||| code == 0x2028
    ||| code == 0x2029
    ||| code == 0x202f
    ||| code == 0x205f
    ||| code == 0x3000
}

/// Number of white-space characters that `s` begins with.
pub open spec fn blank_len(s: Seq<char>) -> nat
    decreases s.len(),
{
    if s.len() == 0 || !is_whitespace(s[0]) {
        0
    } else {
        1 + blank_len(s.drop_first())
    }
}

/// Number of characters other than white space that `s` begins with.
pub open spec fn word_len(s: Seq<char>) -> nat
    decreases s.len(),
{
    if s.len() == 0 || is_whitespace(s[0]) {
        0
    } else {
        1 + word_len(s.drop_first())
    }
}

/// The first token of `s` and what follows it: white space at the start is
/// passed over, and the token runs up to the next white space or the end.
/// Nothing where `s` holds white space only.
pub open spec fn first_token(s: Seq<char>) -> Option<(Seq<char>, Seq<char>)> {
    let from = blank_len(s) as int;
    let to = from + word_len(s.skip(from));
    if from < to {
        Some((s.subrange(from, to), s.skip(to)))
    } else {
        None
    }
}

/// The tokens of `s`: its maximal runs of characters other than white
/// space, in their order.
pub open spec fn tokens(s: Seq<char>) -> Seq<Seq<char>>
    decreases s.len(),
    via tokens_terminates
{
    match first_token(s) {
        None => Seq::empty(),
        Some((token, rest)) => seq![token] + tokens(rest),
    }
}

#[via_fn]
proof fn tokens_terminates(s: Seq<char>) {
    lemma_first_token(s);
}

/// `words` one after the other, with a single space between each two.
pub open spec fn joined(words: Seq<Seq<char>>) -> Seq<char>
    decreases words.len(),
{
    if words.len() == 0 {
        Seq::empty()
    } else if words.len() == 1 {
        words[0]
    } else {
        joined(words.drop_last()) + " "@ + words.last()
    }
}

/// `blank_len` is the position of the first character that is no white
/// space, or the end.
pub proof fn lemma_blank_len(s: Seq<char>, at: int)
    requires
        0 <= at <= s.len(),
        forall|j: int| 0 <= j < at ==> is_whitespace(s[j]),
        at < s.len() ==> !is_whitespace(s[at]),
    ensures
        blank_len(s) == at,
    decreases s.len(),
{
    if at > 0 {
        let rest = s.drop_first();
        assert forall|j: int| 0 <= j < at - 1 implies is_whitespace(rest[j]) by {
            assert(rest[j] == s[j + 1]);
        }
        lemma_blank_len(rest, at - 1);
    }
}

/// `word_len` is the position of the first white space, or the end.
pub proof fn lemma_word_len(s: Seq<char>, at: int)
    requires
        0 <= at <= s.len(),
        forall|j: int| 0 <= j < at ==> !is_whitespace(s[j]),
        at < s.len() ==> is_whitespace(s[at]),
    ensures
        word_len(s) == at,
    decreases s.len(),
{
    if at > 0 {
        let rest = s.drop_first();
        assert forall|j: int| 0 <= j < at - 1 implies !is_whitespace(rest[j]) by {
            assert(rest[j] == s[j + 1]);
        }
        lemma_word_len(rest, at - 1);
    }
}

/// What `blank_len` counts is white space, and what follows is none.
pub proof fn lemma_blank_len_counts(s: Seq<char>)
    ensures
        blank_len(s) <= s.len(),
        forall|j: int| 0 <= j < blank_len(s) ==> is_whitespace(s[j]),
        blank_len(s) < s.len() ==> !is_whitespace(s[blank_len(s) as int]),
    decreases s.len(),
{
    if s.len() != 0 && is_whitespace(s[0]) {
        let rest = s.drop_first();
        lemma_blank_len_counts(rest);
        assert forall|j: int| 0 <= j < blank_len(s) implies is_whitespace(s[j]) by {
            if j > 0 {
                assert(s[j] == rest[j - 1]);
            }
        }
        if blank_len(s) < s.len() {
            assert(s[blank_len(s) as int] == rest[blank_len(rest) as int]);
        }
    }
}

/// What `word_len` counts is no white space, and what follows is.
pub proof fn lemma_word_len_counts(s: Seq<char>)
    ensures
        word_len(s) <= s.len(),
        forall|j: int| 0 <= j < word_len(s) ==> !is_whitespace(s[j]),
        word_len(s) < s.len() ==> is_whitespace(s[word_len(s) as int]),
    decreases s.len(),
{
    if s.len() != 0 && !is_whitespace(s[0]) {
        let rest = s.drop_first();
        lemma_word_len_counts(rest);
        assert forall|j: int| 0 <= j < word_len(s) implies !is_whitespace(s[j]) by {
            if j > 0 {
                assert(s[j] == rest[j - 1]);
            }
        }
        if word_len(s) < s.len() {
            assert(s[word_len(s) as int] == rest[word_len(rest) as int]);
        }
    }
}

/// A first token is not empty and holds no white space; what follows it is
/// shorter than the text and begins with white space, if it begins at all.
/// A text without a first token is white space throughout.
pub proof fn lemma_first_token(s: Seq<char>)
    ensures
        match first_token(s) {
            Some((token, rest)) => {
                &&& token.len() > 0
                &&& forall|i: int| 0 <= i < token.len() ==> !is_whitespace(token[i])
                &&& rest.len() < s.len()
                &&& rest.len() > 0 ==> is_whitespace(rest[0])
            },
            None => forall|i: int| 0 <= i < s.len() ==> is_whitespace(s[i]),
        },
{
    lemma_blank_len_counts(s);
    let from = blank_len(s) as int;
    let tail = s.skip(from);
    lemma_word_len_counts(tail);
    let to = from + word_len(tail);
    if from < to {
        let (token, rest) = first_token(s)->0;
        assert forall|i: int| 0 <= i < token.len() implies !is_whitespace(token[i]) by {
            assert(token[i] == tail[i]);
        }
        if rest.len() > 0 {
            assert(rest[0] == tail[word_len(tail) as int]);
        }
    } else {
        if from < s.len() {
            assert(tail[0] == s[from]);
        }
    }
}

/// Every token is a run of at least one character, none of them white
/// space.
pub proof fn lemma_tokens_are_words(s: Seq<char>)
    ensures
        forall|k: int, i: int|
            0 <= k < tokens(s).len() && 0 <= i < tokens(s)[k].len() ==> !is_whitespace(
                #[trigger] tokens(s)[k][i],
            ),
        forall|k: int| 0 <= k < tokens(s).len() ==> (#[trigger] tokens(s)[k]).len() > 0,
    decreases s.len(),
{
    lemma_first_token(s);
    match first_token(s) {
        None => {},
        Some((token, rest)) => {
            lemma_tokens_are_words(rest);
            let words = tokens(s);
            assert forall|k: int| 0 <= k < words.len() implies (#[trigger] words[k]).len()
                > 0 by {
                if k > 0 {
                    assert(words[k] == tokens(rest)[k - 1]);
                }
            }
            assert forall|k: int, i: int|
                0 <= k < words.len() && 0 <= i < words[k].len() implies !is_whitespace(
                #[trigger] words[k][i],
            ) by {
                if k > 0 {
                    assert(words[k] == tokens(rest)[k - 1]);
                }
            }
        },
    }
}

/// Words joined are the first word, a space, and the others joined.
pub proof fn lemma_joined_front(words: Seq<Seq<char>>)
    requires
        words.len() >= 2,
    ensures
        joined(words) == words[0] + " "@ + joined(words.drop_first()),
    decreases words.len(),
{
    let front = words.drop_last();
    let back = words.drop_first();
    if words.len() == 2 {
        assert(joined(front) == front[0]);
        assert(joined(back) == back[0]);
        assert(joined(words) =~= words[0] + " "@ + joined(back));
    } else {
        lemma_joined_front(front);
        assert(front.drop_first() =~= back.drop_last());
        assert(joined(back) == joined(back.drop_last()) + " "@ + back.last());
        assert(joined(words) =~= words[0] + " "@ + joined(back));
    }
}

/// Tells white space from other characters.
pub fn is_space(c: char) -> (blank: bool)
    ensures
        blank == is_whitespace(c),
{
    let code = c as u32;
    (0x09 <= code && code <= 0x0d) || code == 0x20 || code == 0x85 || code == 0xa0 || code
        == 0x1680 || (0x2000 <= code && code <= 0x200a) || code == 0x2028 || code == 0x2029
        || code == 0x202f || code == 0x205f || code == 0x3000
}

/// Takes the first token off `s`.
pub fn next_token(s: &str) -> (parts: Option<(&str, &str)>)
    ensures
        match parts {
            Some((token, rest)) => first_token(s@) == Some((token@, rest@)),
            None => first_token(s@) is None,
        },
{
    let len = s.unicode_len();
    let mut from: usize = 0;
    let mut to: usize = 0;
    for c in it: s.chars()
        invariant_except_break
            to == it.index(),
        invariant
            len == s@.len(),
            it.seq() == s@,
            from <= to <= len,
            forall|j: int| 0 <= j < from ==> is_whitespace(s@[j]),
            forall|j: int| from <= j < to ==> !is_whitespace(s@[j]),
        ensures
            from <= to <= len,
            forall|j: int| 0 <= j < from ==> is_whitespace(s@[j]),
            forall|j: int| from <= j < to ==> !is_whitespace(s@[j]),
            to < len ==> from < to && is_whitespace(s@[to as int]),
    {
        if is_space(c) {
            if from < to {
                break ;
            }
            from = from + 1;
        }
        to = to + 1;
    }
    proof {
        let tail = s@.skip(from as int);
        if from < len {
            assert(tail[0] == s@[from as int]);
        }
        lemma_blank_len(s@, from as int);
        assert forall|j: int| 0 <= j < to - from implies !is_whitespace(tail[j]) by {
            assert(tail[j] == s@[from + j]);
        }
        if to < len {
            assert(tail[to - from] == s@[to as int]);
        }
        lemma_word_len(tail, to - from);
    }
    if from < to {
        let token = s.substring_char(from, to);
        let rest = s.substring_char(to, len);
        assert(rest@ =~= s@.skip(to as int));
        Some((token, rest))
    } else {
        None
    }
}

} // verus!
