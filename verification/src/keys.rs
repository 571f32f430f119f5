//! Key handling: truncating a key at a delimiter, testing for the anti-loop
//! marker, and deriving the destination key of a thumbnail.

use vstd::prelude::*;
use vstd::string::StrSliceExecFns;
use vstd::string::StringExecFns;

verus! {

/// Number of characters of `s` before the first occurrence of `ch`
/// (the length of `s` when `ch` does not occur).
pub open spec fn prefix_len(s: Seq<char>, ch: char) -> int
    decreases s.len(),
{
    if s.len() == 0 {
        0
    } else if s[0] == ch {
        0
    } else {
        1 + prefix_len(s.drop_first(), ch)
    }
}

/// The characters of `s` before the first occurrence of `ch`
/// (all of `s` when `ch` does not occur).
pub open spec fn prefix_before(s: Seq<char>, ch: char) -> Seq<char> {
    s.take(prefix_len(s, ch))
}

pub proof fn lemma_prefix_len_props(s: Seq<char>, ch: char)
    ensures
        0 <= prefix_len(s, ch) <= s.len(),
        forall|j: int| 0 <= j < prefix_len(s, ch) ==> s[j] != ch,
        prefix_len(s, ch) < s.len() ==> s[prefix_len(s, ch)] == ch,
    decreases s.len(),
{
    if s.len() == 0 {
    } else if s[0] == ch {
    } else {
        lemma_prefix_len_props(s.drop_first(), ch);
        assert forall|j: int| 0 <= j < prefix_len(s, ch) implies s[j] != ch by {
            if j > 0 {
                assert(s.drop_first()[j - 1] == s[j]);
            }
        }
        if prefix_len(s, ch) < s.len() {
            assert(s.drop_first()[prefix_len(s, ch) - 1] == s[prefix_len(s, ch)]);
        }
    }
}

/// An index with the properties of `prefix_len` is `prefix_len`.
pub proof fn lemma_prefix_len_unique(s: Seq<char>, ch: char, i: int)
    requires
        0 <= i <= s.len(),
        forall|j: int| 0 <= j < i ==> s[j] != ch,
        i < s.len() ==> s[i] == ch,
    ensures
        i == prefix_len(s, ch),
    decreases s.len(),
{
    if s.len() == 0 {
    } else if s[0] == ch {
        assert(i == 0);
    } else {
        assert(i >= 1) by {
            if i == 0 {
                assert(s[0] == ch);
            }
        }
        assert forall|j: int| 0 <= j < i - 1 implies s.drop_first()[j] != ch by {
            assert(s.drop_first()[j] == s[j + 1]);
        }
        if i - 1 < s.drop_first().len() {
            assert(s.drop_first()[i - 1] == s[i]);
        }
        lemma_prefix_len_unique(s.drop_first(), ch, i - 1);
    }
}

/// Index of the first occurrence of `ch` in `s` (the character count of `s`
/// when `ch` does not occur).
pub fn char_index(s: &str, ch: char) -> (i: usize)
    ensures
        i as int == prefix_len(s@, ch),
{
    let n = s.unicode_len();
    let mut i: usize = 0;
    while i < n
        invariant
            0 <= i <= n,
            n == s@.len(),
            forall|j: int| 0 <= j < i ==> s@[j] != ch,
        decreases n - i,
    {
        if s.get_char(i) == ch {
            proof {
                lemma_prefix_len_unique(s@, ch, i as int);
            }
            return i;
        }
        i = i + 1;
    }
    proof {
        lemma_prefix_len_unique(s@, ch, i as int);
    }
    i
}

/// The prefix of `s` up to (not including) the first occurrence of `ch`;
/// all of `s` when `ch` does not occur. Operates on whole characters, so a
/// multi-byte character before the delimiter is never split.
pub fn truncate<'a>(input: &'a str, ch: char) -> (r: &'a str)
    ensures
        r@ == prefix_before(input@, ch),
{
    let i = char_index(input, ch);
    proof {
        lemma_prefix_len_props(input@, ch);
    }
    input.substring_char(0, i)
}

/// Whether `ch` occurs in `s`.
pub fn contains_char(s: &str, ch: char) -> (r: bool)
    ensures
        r == s@.contains(ch),
{
    let n = s.unicode_len();
    let i = char_index(s, ch);
    proof {
        lemma_prefix_len_props(s@, ch);
        if i < n {
            assert(s@[i as int] == ch);
        } else {
            assert(forall|j: int| 0 <= j < s@.len() ==> s@[j] != ch);
        }
    }
    i < n
}

/// Whether two string slices hold the same characters.
pub fn str_eq(a: &str, b: &str) -> (r: bool)
    ensures
        r == (a@ == b@),
{
    let n = a.unicode_len();
    let m = b.unicode_len();
    if n != m {
        return false;
    }
    let mut i: usize = 0;
    while i < n
        invariant
            0 <= i <= n,
            n == a@.len(),
            n == b@.len(),
            forall|j: int| 0 <= j < i ==> a@[j] == b@[j],
        decreases n - i,
    {
        if a.get_char(i) != b.get_char(i) {
            assert(a@ != b@) by {
                assert(a@[i as int] != b@[i as int]);
            }
            return false;
        }
        i = i + 1;
    }
    proof {
        assert(a@ =~= b@);
    }
    true
}

/// The destination key of a thumbnail: the source key truncated at its first
/// `.`, with `-thumb.png` appended.
pub open spec fn thumb_key_spec(source: Seq<char>) -> Seq<char> {
    prefix_before(source, '.') + "-thumb.png"@
}

/// Derives the destination key for the thumbnail of `source`.
pub fn thumb_key(source: &str) -> (r: String)
    ensures
        r@ == thumb_key_spec(source@),
{
    let prefix = truncate(source, '.');
    let out = String::from_str(prefix);
    out.concat("-thumb.png")
}

} // verus!
