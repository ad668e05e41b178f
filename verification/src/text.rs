//! Text handling for the request line: decoding the bytes that were read and
//! cutting whitespace-separated tokens.

use vstd::prelude::*;
use vstd::std_specs::iter::IteratorSpec;
use vstd::utf8::{decode_utf8, valid_utf8};

verus! {

broadcast use vstd::string::group_string_axioms;

/// The characters that separate tokens: the code points with the Unicode
/// property White_Space.
pub open spec fn is_space(c: char) -> bool {
    let u = c as u32;
    ||| 0x09 <= u <= 0x0D
    ||| u == 0x20
    ||| u == 0x85
    ||| u == 0xA0
    ||| u == 0x1680
    ||| 0x2000 <= u <= 0x200A
    ||| u == 0x2028
    ||| u == 0x2029
    ||| u == 0x202F
    ||| u == 0x205F
    ||| u == 0x3000
}

/// Tells whether `c` separates tokens.
pub fn is_whitespace(c: char) -> (b: bool)
    ensures
        b == is_space(c),
{
    let u: u32 = c as u32;
    (0x09 <= u && u <= 0x0D) || u == 0x20 || u == 0x85 || u == 0xA0 || u == 0x1680 || (0x2000 <= u
        && u <= 0x200A) || u == 0x2028 || u == 0x2029 || u == 0x202F || u == 0x205F || u == 0x3000
}

/// The length of the longest prefix of `s` that consists of separators only
/// (`spaces` true) or of other characters only (`spaces` false).
pub open spec fn run_length(s: Seq<char>, spaces: bool) -> nat
    decreases s.len(),
{
    if s.len() > 0 && is_space(s[0]) == spaces {
        1 + run_length(s.drop_first(), spaces)
    } else {
        0
    }
}

/// Where the first token of `s` begins: behind the leading separators.
pub open spec fn token_start(s: Seq<char>) -> nat {
    run_length(s, true)
}

/// Where the first token of `s` ends: at the first separator behind its
/// beginning, or at the end of `s`.
pub open spec fn token_end(s: Seq<char>) -> nat {
    token_start(s) + run_length(s.skip(token_start(s) as int), false)
}

/// The first whitespace-separated token of `s`; empty when `s` holds none.
pub open spec fn first_token(s: Seq<char>) -> Seq<char> {
    s.subrange(token_start(s) as int, token_end(s) as int)
}

/// What follows the first token of `s`.
pub open spec fn after_first_token(s: Seq<char>) -> Seq<char> {
    s.skip(token_end(s) as int)
}

/// A run is a prefix, all of its characters are of the kind asked for, and
/// the character behind it, if there is one, is of the other kind.
pub proof fn lemma_run_length(s: Seq<char>, spaces: bool)
    ensures
        run_length(s, spaces) <= s.len(),
        forall|i: int| 0 <= i < run_length(s, spaces) ==> is_space(#[trigger] s[i]) == spaces,
        run_length(s, spaces) < s.len() ==> is_space(s[run_length(s, spaces) as int]) != spaces,
    decreases s.len(),
{
    if s.len() > 0 && is_space(s[0]) == spaces {
        let rest = s.drop_first();
        lemma_run_length(rest, spaces);
        assert forall|i: int| 0 <= i < run_length(s, spaces) implies is_space(#[trigger] s[i])
            == spaces by {
            if i > 0 {
                assert(s[i] == rest[i - 1]);
            }
        }
        if run_length(s, spaces) < s.len() {
            assert(s[run_length(s, spaces) as int] == rest[run_length(rest, spaces) as int]);
        }
    }
}

/// A run that is known to cover the first `i` characters goes on behind them.
pub proof fn lemma_run_length_step(s: Seq<char>, spaces: bool, i: int)
    requires
        0 <= i <= s.len(),
        forall|k: int| 0 <= k < i ==> is_space(#[trigger] s[k]) == spaces,
    ensures
        run_length(s, spaces) == i + run_length(s.skip(i), spaces),
    decreases i,
{
    if i == 0 {
        assert(s.skip(0) =~= s);
    } else {
        let rest = s.drop_first();
        assert(is_space(s[0]) == spaces);
        assert forall|k: int| 0 <= k < i - 1 implies is_space(#[trigger] rest[k]) == spaces by {
            assert(rest[k] == s[k + 1]);
        }
        lemma_run_length_step(rest, spaces, i - 1);
        assert(rest.skip(i - 1) =~= s.skip(i));
    }
}

/// The first token is free of separators, and it is empty only when nothing
/// but separators is left.
pub proof fn lemma_first_token(s: Seq<char>)
    ensures
        token_start(s) <= token_end(s) <= s.len(),
        forall|i: int| 0 <= i < first_token(s).len() ==> !is_space(#[trigger] first_token(s)[i]),
        first_token(s).len() == 0 <==> forall|i: int| 0 <= i < s.len() ==> is_space(#[trigger] s[i]),
{
    let start = token_start(s) as int;
    lemma_run_length(s, true);
    let tail = s.skip(start);
    lemma_run_length(tail, false);
    assert forall|i: int| 0 <= i < first_token(s).len() implies !is_space(
        #[trigger] first_token(s)[i],
    ) by {
        assert(first_token(s)[i] == tail[i]);
    }
    if first_token(s).len() == 0 {
        if start < s.len() {
            assert(tail[0] == s[start]);
            assert(false);
        }
    } else {
        assert(tail[0] == s[start]);
        assert(!is_space(s[start]));
    }
}

/// `std::str::from_utf8`: the bytes as text when they are valid UTF-8, and
/// `None` when they are not. The text is the decoding of the bytes; nothing is
/// copied.
#[verifier::external_body]
pub(crate) fn text_of(bytes: &[u8]) -> (text: Option<&str>)
    ensures
        text is Some <==> valid_utf8(bytes@),
        text matches Some(t) ==> t@ == decode_utf8(bytes@),
{
    std::str::from_utf8(bytes).ok()
}

/// Cuts the first whitespace-separated token off `text` and returns it with
/// what follows it. The token is empty when `text` holds no token.
pub fn split_first_token<'a>(text: &'a str) -> (parts: (&'a str, &'a str))
    ensures
        parts.0@ == first_token(text@),
        parts.1@ == after_first_token(text@),
{
    let n: usize = text.unicode_len();
    let mut chars = text.chars();
    let mut start: usize = 0;
    let mut found: bool = false;
    loop
        invariant_except_break
            !found,
            chars.remaining() == text@.skip(start as int),
        invariant
            start <= n,
            n == text@.len(),
            forall|k: int| 0 <= k < start ==> is_space(#[trigger] text@[k]),
        ensures
            found ==> start < n && !is_space(text@[start as int]) && chars.remaining()
                == text@.skip(start + 1),
            !found ==> start == n,
        decreases n - start,
    {
        match chars.next() {
            None => {
                break ;
            },
            Some(c) => {
                assert(c == text@.skip(start as int)[0]);
                assert(text@.skip(start as int).drop_first() =~= text@.skip(start + 1));
                if is_whitespace(c) {
                    start = start + 1;
                } else {
                    found = true;
                    break ;
                }
            },
        }
    }
    proof {
        lemma_run_length_step(text@, true, start as int);
        if found {
            assert(text@.skip(start as int)[0] == text@[start as int]);
        }
        assert(token_start(text@) == start);
    }
    let mut end: usize = start;
    if found {
        end = start + 1;
        loop
            invariant_except_break
                chars.remaining() == text@.skip(end as int),
            invariant
                start < end <= n,
                n == text@.len(),
                forall|k: int| start <= k < end ==> !is_space(#[trigger] text@[k]),
            ensures
                end < n ==> is_space(text@[end as int]),
            decreases n - end,
        {
            match chars.next() {
                None => {
                    break ;
                },
                Some(c) => {
                    assert(c == text@.skip(end as int)[0]);
                    assert(text@.skip(end as int).drop_first() =~= text@.skip(end + 1));
                    if is_whitespace(c) {
                        break ;
                    } else {
                        end = end + 1;
                    }
                },
            }
        }
    }
    proof {
        let tail = text@.skip(start as int);
        assert forall|k: int| 0 <= k < end - start implies !is_space(#[trigger] tail[k]) by {
            assert(tail[k] == text@[start + k]);
        }
        lemma_run_length_step(tail, false, end - start);
        assert(tail.skip(end - start) =~= text@.skip(end as int));
        if end < n {
            assert(text@.skip(end as int)[0] == text@[end as int]);
        }
        assert(run_length(text@.skip(end as int), false) == 0);
        assert(token_end(text@) == end);
        assert(text@.subrange(end as int, n as int) =~= text@.skip(end as int));
    }
    (text.substring_char(start, end), text.substring_char(end, n))
}

} // verus!
