//! Byte predicates and the word-run scan used by every scanner state.

use vstd::prelude::*;

verus! {

/// ASCII space, the largest whitespace byte.
pub const SPACE: u8 = 32;

/// ASCII `;`.
pub const SEMICOLON: u8 = 59;

/// ASCII `|`.
pub const PIPE: u8 = 124;

/// ASCII `&`.
pub const AMPERSAND: u8 = 38;

/// ASCII `<`.
pub const LESS_THAN: u8 = 60;

/// ASCII `>`.
pub const GREATER_THAN: u8 = 62;

/// ASCII `)`.
pub const RIGHT_PAREN: u8 = 41;

/// Bytes that may form an unquoted shell word: ASCII letters, digits, and the
/// filename-ish punctuation `_ + - . /`.
pub open spec fn is_word_byte(b: u8) -> bool {
    (97 <= b && b <= 122)  // a-z
        || (65 <= b && b <= 90)  // A-Z
        || (48 <= b && b <= 57)  // 0-9
        || b == 95  // _
        || b == 43  // +
        || b == 45  // -
        || b == 46  // .
        || b == 47  // /
}

/// Word-character test.
#[verifier::when_used_as_spec(is_word_byte)]
pub fn is_word(b: u8) -> (r: bool)
    ensures
        r == is_word_byte(b),
{
    (97 <= b && b <= 122)
        || (65 <= b && b <= 90)
        || (48 <= b && b <= 57)
        || b == 95
        || b == 43
        || b == 45
        || b == 46
        || b == 47
}

/// Whitespace in the wide sense: every ASCII control byte and the space.
pub open spec fn is_whitespace_byte(b: u8) -> bool {
    b <= SPACE
}

/// Whitespace test.
#[verifier::when_used_as_spec(is_whitespace_byte)]
pub fn is_whitespace(b: u8) -> (r: bool)
    ensures
        r == is_whitespace_byte(b),
{
    b <= SPACE
}

/// Length of the longest run of word bytes starting at offset `i` of `s`
/// (zero when `i` is out of range or the byte there is not a word byte).
pub open spec fn word_len_at(s: Seq<u8>, i: int) -> int
    decreases s.len() - i,
{
    if i < 0 || i >= s.len() || !is_word_byte(s[i]) {
        0
    } else {
        1 + word_len_at(s, i + 1)
    }
}

/// The word run at `i` lies within `s`, consists of word bytes, and is
/// maximal: the byte right after it, if any, is not a word byte.
pub proof fn lemma_word_len_at(s: Seq<u8>, i: int)
    requires
        0 <= i <= s.len(),
    ensures
        0 <= word_len_at(s, i),
        i + word_len_at(s, i) <= s.len(),
        forall|k: int| i <= k < i + word_len_at(s, i) ==> is_word_byte(s[k]),
        i + word_len_at(s, i) < s.len() ==> !is_word_byte(s[i + word_len_at(s, i)]),
    decreases s.len() - i,
{
    if i < s.len() && is_word_byte(s[i]) {
        lemma_word_len_at(s, i + 1);
    }
}

/// Longest-run-matching-predicate scan, specialised to the word predicate:
/// counts the word bytes of `horizon` from offset `from` on.
pub fn word_run_len(horizon: &[u8], from: usize) -> (r: usize)
    requires
        from <= horizon@.len(),
    ensures
        r == word_len_at(horizon@, from as int),
{
    let n = horizon.len();
    let mut j = from;
    while j < n && is_word(horizon[j])
        invariant
            from <= j <= n,
            n == horizon@.len(),
            word_len_at(horizon@, from as int) == j - from + word_len_at(horizon@, j as int),
        decreases n - j,
    {
        assert(word_len_at(horizon@, j as int) == 1 + word_len_at(horizon@, j + 1));
        j = j + 1;
    }
    assert(word_len_at(horizon@, j as int) == 0);
    j - from
}

} // verus!
