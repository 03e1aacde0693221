//! Text budgeting for log export: cut a string to a byte budget without
//! splitting a multi-byte character.
//!
//! The spec counts bytes with [`char_len`], the UTF-8 width of each
//! character, and [`take_within`], the longest character prefix whose
//! encoded length stays inside the budget; the lemmas tie that count to the
//! standard byte length of the string.

use vstd::prelude::*;

use vstd::string::StrSliceExecFns;
use vstd::utf8::{char_is_scalar, encode_scalar, encode_utf8};

use crate::error::ValidationError;

verus! {

/// The width of one character's UTF-8 encoding, in bytes.
pub open spec fn char_len(c: char) -> int {
    if (c as u32) < 0x80 {
        1
    } else if (c as u32) < 0x800 {
        2
    } else if (c as u32) < 0x10000 {
        3
    } else {
        4
    }
}

/// The byte length of a character sequence's UTF-8 encoding.
pub open spec fn byte_len(s: Seq<char>) -> int
    decreases s.len(),
{
    if s.len() == 0 {
        0
    } else {
        char_len(s[0]) + byte_len(s.drop_first())
    }
}

/// The number of leading characters whose total UTF-8 width stays within
/// `limit` bytes.
pub open spec fn take_within(s: Seq<char>, limit: int) -> int
    decreases s.len(),
{
    if s.len() == 0 {
        0
    } else if char_len(s[0]) <= limit {
        1 + take_within(s.drop_first(), limit - char_len(s[0]))
    } else {
        0
    }
}

/// One character's width by the spec is the length of its encoding.
proof fn lemma_char_len_is_scalar_len(c: char)
    ensures
        char_len(c) == encode_scalar(c as u32).len(),
{
    char_is_scalar(c);
}

/// The spec byte count is the length of the UTF-8 encoding — what
/// `str::len` returns.
pub proof fn lemma_byte_len_is_encoding(s: Seq<char>)
    ensures
        byte_len(s) == encode_utf8(s).len(),
    decreases s.len(),
{
    if s.len() > 0 {
        lemma_char_len_is_scalar_len(s[0]);
        lemma_byte_len_is_encoding(s.drop_first());
    }
}

/// The byte count grows by one character's width at a time.
proof fn lemma_byte_len_push(s: Seq<char>, c: char)
    ensures
        byte_len(s.push(c)) == byte_len(s) + char_len(c),
    decreases s.len(),
{
    if s.len() == 0 {
        assert(s.push(c)[0] == c);
        assert(s.push(c).drop_first() =~= Seq::<char>::empty());
        assert(byte_len(Seq::<char>::empty()) == 0);
        assert(byte_len(s.push(c)) == char_len(c) + byte_len(Seq::<char>::empty()));
    } else {
        assert(s.push(c)[0] == s[0]);
        assert(s.push(c).drop_first() =~= s.drop_first().push(c));
        lemma_byte_len_push(s.drop_first(), c);
        assert(byte_len(s.push(c)) == char_len(s[0]) + byte_len(s.drop_first().push(c)));
        assert(byte_len(s) == char_len(s[0]) + byte_len(s.drop_first()));
    }
}

/// The byte count of a sequence splits at any index.
proof fn lemma_byte_len_split(s: Seq<char>, j: int)
    requires
        0 <= j <= s.len(),
    ensures
        byte_len(s) == byte_len(s.take(j)) + byte_len(s.skip(j)),
    decreases j,
{
    if j == 0 {
        assert(s.take(0) =~= Seq::<char>::empty());
        assert(s.skip(0) =~= s);
    } else {
        let d = s.drop_first();
        lemma_byte_len_split(d, j - 1);
        assert(s.take(j)[0] == s[0]);
        assert(s.take(j).drop_first() =~= d.take(j - 1));
        assert(byte_len(s.take(j)) == char_len(s[0]) + byte_len(d.take(j - 1)));
        assert(s.skip(j) =~= d.skip(j - 1));
        assert(byte_len(s) == char_len(s[0]) + byte_len(d));
    }
}

/// A character count whose prefix fits the budget, and whose next character
/// (if any) does not, is exactly [`take_within`].
proof fn lemma_take_within_chars(s: Seq<char>, limit: int, k: int)
    requires
        0 <= k <= s.len(),
        byte_len(s.take(k)) <= limit,
        k == s.len() || byte_len(s.take(k)) + char_len(s[k]) > limit,
    ensures
        take_within(s, limit) == k,
    decreases k, s.len(),
{
    if k == 0 {
        if s.len() > 0 {
            assert(byte_len(s.take(0)) == 0);
            assert(char_len(s[0]) > limit);
        }
    } else {
        let first_len = char_len(s[0]);
        let d = s.drop_first();
        assert(s.take(k)[0] == s[0]);
        assert(s.take(k).drop_first() =~= d.take(k - 1));
        assert(byte_len(s.take(k)) == first_len + byte_len(d.take(k - 1)));
        assert(byte_len(d.take(k - 1)) >= 0) by {
            lemma_byte_len_nonneg(d.take(k - 1));
        }
        assert(first_len <= limit);
        if k < s.len() {
            assert(d[k - 1] == s[k]);
        }
        lemma_take_within_chars(d, limit - first_len, k - 1);
    }
}

/// Byte counts are never negative.
proof fn lemma_byte_len_nonneg(s: Seq<char>)
    ensures
        byte_len(s) >= 0,
    decreases s.len(),
{
    if s.len() > 0 {
        lemma_byte_len_nonneg(s.drop_first());
    }
}

/// The width of one character, as executable code.
fn char_len_exec(c: char) -> (r: usize)
    ensures
        r as int == char_len(c),
        1 <= r <= 4,
{
    let u = c as u32;
    if u < 0x80 {
        1
    } else if u < 0x800 {
        2
    } else if u < 0x10000 {
        3
    } else {
        4
    }
}

/// The longest character prefix of `value` whose UTF-8 encoding fits in
/// `limit` bytes, and whether the whole string already fits.
fn prefix_chars(value: &str, limit: usize) -> (r: (usize, bool))
    ensures
        r.0 as int == take_within(value@, limit as int),
        r.0 <= value@.len(),
        r.1 == (byte_len(value@) <= limit),
{
    let n = value.unicode_len();
    let mut k: usize = 0;
    let mut used: usize = 0;
    while k < n
        invariant
            k <= n,
            n == value@.len(),
            used as int == byte_len(value@.take(k as int)),
            used <= limit,
        decreases n - k,
    {
        let c = value.get_char(k);
        let cl = char_len_exec(c);
        if cl > limit - used {
            proof {
                lemma_take_within_chars(value@, limit as int, k as int);
                assert(value@.take(k + 1) =~= value@.take(k as int).push(value@[k as int]));
                lemma_byte_len_push(value@.take(k as int), value@[k as int]);
                lemma_byte_len_split(value@, k + 1);
                lemma_byte_len_nonneg(value@.skip(k + 1));
                assert(byte_len(value@) > limit);
            }
            return (k, false);
        }
        used = used + cl;
        k = k + 1;
        proof {
            assert(value@.take(k as int) =~= value@.take(k - 1).push(value@[k - 1]));
            lemma_byte_len_push(value@.take(k - 1), value@[k - 1]);
        }
    }
    proof {
        assert(value@.take(n as int) =~= value@);
        lemma_take_within_chars(value@, limit as int, n as int);
    }
    (n, true)
}

/// Cut `value` to at most `limit` bytes without splitting a character.
///
/// Returns the kept text and whether anything was cut: the whole string
/// (and `false`) when it already fits the budget, otherwise the longest
/// character prefix whose UTF-8 encoding fits (and `true`).
pub fn truncate_to_limit(value: &str, limit: usize) -> (r: (String, bool))
    ensures
        r.1 == (byte_len(value@) > limit),
        !r.1 ==> r.0@ == value@,
        r.1 ==> r.0@ == value@.take(take_within(value@, limit as int)),
{
    let (k, fits) = prefix_chars(value, limit);
    if fits {
        return (value.to_owned(), false);
    }
    let prefix = value.substring_char(0, k);
    proof {
        assert(value@.subrange(0, k as int) =~= value@.take(k as int));
    }
    (prefix.to_owned(), true)
}

/// Whether `p` is a character prefix of `s`.
pub open spec fn has_prefix(s: Seq<char>, p: Seq<char>) -> bool {
    s.len() >= p.len() && s.take(p.len() as int) == p
}

/// Whether `s` starts with `p`, character for character.
fn str_has_prefix(s: &str, p: &str) -> (r: bool)
    ensures
        r == has_prefix(s@, p@),
{
    let np = p.unicode_len();
    if s.unicode_len() < np {
        return false;
    }
    let mut i: usize = 0;
    while i < np
        invariant
            i <= np,
            np == p@.len(),
            np <= s@.len(),
            forall|j: int| 0 <= j < i ==> s@[j] == p@[j],
        decreases np - i,
    {
        if s.get_char(i) != p.get_char(i) {
            proof {
                assert(s@.take(np as int)[i as int] != p@[i as int]);
            }
            return false;
        }
        i = i + 1;
    }
    proof {
        assert(s@.take(np as int) =~= p@);
    }
    true
}

/// Normalise a log-export destination: platform content addresses are not
/// writable paths and are rejected; an explicit `file://` scheme is
/// stripped; anything else passes through unchanged.
pub fn normalise_export_destination(dest: &str) -> (r: Result<String, ValidationError>)
    ensures
        has_prefix(dest@, "content://"@) ==> r == Result::<String, ValidationError>::Err(
            ValidationError::UnsupportedDestination,
        ),
        !has_prefix(dest@, "content://"@) && has_prefix(dest@, "file://"@) ==> (r matches Ok(p)
            && p@ == dest@.skip(7)),
        !has_prefix(dest@, "content://"@) && !has_prefix(dest@, "file://"@) ==> (r matches Ok(p)
            && p@ == dest@),
{
    proof {
        reveal_strlit("content://");
        reveal_strlit("file://");
    }
    if str_has_prefix(dest, "content://") {
        return Err(ValidationError::UnsupportedDestination);
    }
    if str_has_prefix(dest, "file://") {
        let n = dest.unicode_len();
        let stripped = dest.substring_char(7, n);
        proof {
            assert(dest@.subrange(7, dest@.len() as int) =~= dest@.skip(7));
        }
        return Ok(stripped.to_owned());
    }
    Ok(dest.to_owned())
}

} // verus!
