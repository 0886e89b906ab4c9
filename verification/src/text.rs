//! Character and string helpers for name processing.
//!
//! Type names at the boundary are ASCII identifiers and path punctuation, so
//! case folding is defined here over the ASCII letters alone, exactly and
//! executably.

use vstd::prelude::*;

verus! {

/// An ASCII upper-case letter.
pub open spec fn is_ascii_upper(c: char) -> bool {
    'A' <= c && c <= 'Z'
}

/// An ASCII lower-case letter.
pub open spec fn is_ascii_lower(c: char) -> bool {
    'a' <= c && c <= 'z'
}

/// An ASCII digit.
pub open spec fn is_ascii_digit(c: char) -> bool {
    '0' <= c && c <= '9'
}

/// A word character: a letter, a digit, or an underscore.
pub open spec fn is_word_char(c: char) -> bool {
    is_ascii_upper(c) || is_ascii_lower(c) || is_ascii_digit(c) || c == '_'
}

/// The lower-case form of an ASCII letter; any other character is itself.
pub open spec fn lower_char(c: char) -> char {
    if is_ascii_upper(c) {
        ((c as int) + 32) as char
    } else {
        c
    }
}

/// The upper-case form of an ASCII letter; any other character is itself.
pub open spec fn upper_char(c: char) -> char {
    if is_ascii_lower(c) {
        ((c as int) - 32) as char
    } else {
        c
    }
}

/// Whether `c` is an ASCII upper-case letter.
pub fn is_upper_char(c: char) -> (r: bool)
    ensures
        r == is_ascii_upper(c),
{
    c >= 'A' && c <= 'Z'
}

/// Whether `c` is a word character.
pub fn is_word_char_exec(c: char) -> (r: bool)
    ensures
        r == is_word_char(c),
{
    (c >= 'A' && c <= 'Z') || (c >= 'a' && c <= 'z') || (c >= '0' && c <= '9') || c == '_'
}

/// The lower-case form of `c`.
pub fn to_lower_char(c: char) -> (r: char)
    ensures
        r == lower_char(c),
{
    if c >= 'A' && c <= 'Z' {
        let b = c as u8;
        let r = (b + 32) as char;
        proof {
            assert(c as int <= 90);
            assert(b as int == c as int);
            assert(r as int == c as int + 32);
        }
        r
    } else {
        c
    }
}

/// The upper-case form of `c`.
pub fn to_upper_char(c: char) -> (r: char)
    ensures
        r == upper_char(c),
{
    if c >= 'a' && c <= 'z' {
        let b = c as u8;
        let r = (b - 32) as char;
        proof {
            assert(c as int <= 122);
            assert(b as int == c as int);
            assert(r as int == c as int - 32);
        }
        r
    } else {
        c
    }
}

/// Relies on `String::push`: appends one character at the end of the
/// string.
#[verifier::external_body]
pub fn push_char(s: &mut String, c: char)
    ensures
        final(s)@ == old(s)@.push(c),
{
    s.push(c);
}

/// Whether `pat` occurs in `s` at position `i`.
pub open spec fn match_at(s: Seq<char>, pat: Seq<char>, i: int) -> bool {
    0 <= i && i + pat.len() <= s.len() && s.subrange(i, i + pat.len()) == pat
}

/// The position of the first occurrence of `pat` in `s`, if there is one.
pub fn find_substr(s: &str, pat: &str) -> (r: Option<usize>)
    requires
        pat@.len() >= 1,
    ensures
        match r {
            Option::Some(i) => match_at(s@, pat@, i as int) && forall|j: int|
                0 <= j < i ==> !match_at(s@, pat@, j),
            Option::None => forall|j: int| !match_at(s@, pat@, j),
        },
{
    let n = s.unicode_len();
    let m = pat.unicode_len();
    if m > n {
        proof {
            assert forall|j: int| !match_at(s@, pat@, j) by {}
        }
        return Option::None;
    }
    let mut i: usize = 0;
    while i <= n - m
        invariant
            0 <= i <= n - m + 1,
            m <= n,
            n == s@.len(),
            m == pat@.len(),
            m >= 1,
            forall|j: int| 0 <= j < i ==> !match_at(s@, pat@, j),
        decreases n - m + 1 - i,
    {
        let mut k: usize = 0;
        let mut hit = true;
        while k < m && hit
            invariant
                0 <= k <= m,
                i + m <= n,
                n == s@.len(),
                m == pat@.len(),
                hit ==> forall|q: int| 0 <= q < k ==> s@[i + q] == pat@[q],
                !hit ==> !match_at(s@, pat@, i as int),
            decreases m - k + (if hit { 1int } else { 0int }),
        {
            if s.get_char(i + k) != pat.get_char(k) {
                proof {
                    assert(s@[i as int + k as int] != pat@[k as int]);
                    assert(!match_at(s@, pat@, i as int)) by {
                        if match_at(s@, pat@, i as int) {
                            assert(s@.subrange(i as int, i + pat@.len())[k as int] == pat@[
                                k as int
                            ]);
                        }
                    }
                }
                hit = false;
            } else {
                k += 1;
            }
        }
        if hit {
            proof {
                assert(s@.subrange(i as int, i + pat@.len()) =~= pat@);
            }
            return Option::Some(i);
        }
        proof {
            assert(!match_at(s@, pat@, i as int));
        }
        i += 1;
    }
    proof {
        assert forall|j: int| !match_at(s@, pat@, j) by {
            if 0 <= j < i {
            } else if j > n - m {
            }
        }
    }
    Option::None
}

} // verus!
