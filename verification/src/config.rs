//! Size configuration: parsing a `"<width>x<height>"` string into the target
//! size of the thumbnail.

use crate::errors::PipelineError;
use crate::keys::char_index;
use crate::keys::lemma_prefix_len_props;
use crate::keys::lemma_prefix_len_unique;
use crate::keys::prefix_before;
use crate::keys::prefix_len;
use vstd::prelude::*;
use vstd::string::StrSliceExecFns;

verus! {

/// Target size for the thumbnail. The height is parsed and carried, but the
/// resize computation derives the output height from the source aspect ratio
/// and never consults it.
#[derive(Clone, Copy, Debug)]
pub struct SizeSpec {
    pub target_width: u32,
    pub target_height: u32,
}

impl SizeSpec {
    /// Both components of a well-formed size are positive.
    pub open spec fn wf(self) -> bool {
        self.target_width >= 1 && self.target_height >= 1
    }
}

/// A decimal digit.
pub open spec fn is_digit(c: char) -> bool {
    48 <= c as int <= 57
}

pub open spec fn digit_val(c: char) -> int {
    c as int - 48
}

pub open spec fn all_digits(s: Seq<char>) -> bool {
    forall|i: int| 0 <= i < s.len() ==> is_digit(s[i])
}

/// Numeric value of a digit string, as an unbounded integer.
pub open spec fn digits_val(s: Seq<char>) -> int
    decreases s.len(),
{
    if s.len() == 0 {
        0
    } else {
        digits_val(s.drop_last()) * 10 + digit_val(s.last())
    }
}

pub proof fn lemma_digits_val_nonneg(s: Seq<char>)
    requires
        all_digits(s),
    ensures
        digits_val(s) >= 0,
    decreases s.len(),
{
    if s.len() > 0 {
        assert(all_digits(s.drop_last()));
        lemma_digits_val_nonneg(s.drop_last());
        assert(digit_val(s.last()) >= 0);
    }
}

/// A valid size segment: a nonempty run of digits with positive value,
/// optionally followed by `.` and further digits. The fractional digits are
/// parsed and discarded: the target is whole pixels, as the original's
/// float-to-integer cast made it.
pub open spec fn valid_segment(s: Seq<char>) -> bool {
    let ip = prefix_before(s, '.');
    &&& ip.len() > 0
    &&& all_digits(ip)
    &&& digits_val(ip) >= 1
    &&& (prefix_len(s, '.') < s.len() ==> all_digits(s.skip(prefix_len(s, '.') + 1)))
}

/// The parsed value of a segment: its integer part, saturated at `u32::MAX`
/// (a larger width is indistinguishable from `u32::MAX` once handed to the
/// resampler).
pub open spec fn segment_value(s: Seq<char>) -> u32 {
    let v = digits_val(prefix_before(s, '.'));
    if v > u32::MAX {
        u32::MAX
    } else if v < 0 {
        0
    } else {
        v as u32
    }
}

/// A valid size string: one `x` splitting it into exactly two valid segments.
pub open spec fn valid_size_string(s: Seq<char>) -> bool {
    let i = prefix_len(s, 'x');
    &&& i < s.len()
    &&& valid_segment(s.take(i))
    &&& valid_segment(s.skip(i + 1))
}

pub open spec fn spec_width(s: Seq<char>) -> u32 {
    segment_value(s.take(prefix_len(s, 'x')))
}

pub open spec fn spec_height(s: Seq<char>) -> u32 {
    segment_value(s.skip(prefix_len(s, 'x') + 1))
}

/// Index of the first occurrence of `ch` in `s[from..to)`, or `to`.
fn find_in_range(s: &str, from: usize, to: usize, ch: char) -> (i: usize)
    requires
        from <= to <= s@.len(),
    ensures
        from <= i <= to,
        forall|m: int| from <= m < i ==> s@[m] != ch,
        i < to ==> s@[i as int] == ch,
{
    let mut i: usize = from;
    while i < to
        invariant
            from <= i <= to <= s@.len(),
            forall|m: int| from <= m < i ==> s@[m] != ch,
        decreases to - i,
    {
        if s.get_char(i) == ch {
            return i;
        }
        i = i + 1;
    }
    i
}

/// Parses `s[from..to]` as a digit run, saturating at `u32::MAX`. Returns
/// `None` when the range is empty or holds a non-digit.
fn parse_digits(s: &str, from: usize, to: usize) -> (r: Option<u32>)
    requires
        from <= to <= s@.len(),
    ensures
        r is Some <==> (from < to && all_digits(s@.subrange(from as int, to as int))),
        r matches Some(v) ==> ({
            let dv = digits_val(s@.subrange(from as int, to as int));
            (dv <= u32::MAX && v == dv) || (dv > u32::MAX && v == u32::MAX)
        }),
{
    let ghost seg = s@.subrange(from as int, to as int);
    if from == to {
        return None;
    }
    let mut acc: u32 = 0;
    let mut j: usize = from;
    while j < to
        invariant
            from <= j <= to <= s@.len(),
            seg == s@.subrange(from as int, to as int),
            forall|m: int| from <= m < j ==> is_digit(s@[m]),
            ({
                let dv = digits_val(s@.subrange(from as int, j as int));
                (dv <= u32::MAX && acc == dv) || (dv > u32::MAX && acc == u32::MAX)
            }),
        decreases to - j,
    {
        let c = s.get_char(j);
        let code = c as u32;
        if code < 48 || code > 57 {
            assert(!all_digits(seg)) by {
                assert(seg[j - from] == s@[j as int]);
            }
            return None;
        }
        let d: u32 = code - 48;
        proof {
            let pre = s@.subrange(from as int, j as int);
            let post = s@.subrange(from as int, j as int + 1);
            assert(post.drop_last() =~= pre);
            assert(post.last() == s@[j as int]);
            assert(digits_val(post) == digits_val(pre) * 10 + digit_val(s@[j as int]));
            assert(all_digits(pre));
            lemma_digits_val_nonneg(pre);
        }
        // u32::MAX == 429496729 * 10 + 5
        if acc > 429496729 || (acc == 429496729 && d > 5) {
            acc = 0xffff_ffff;
        } else {
            acc = acc * 10 + d;
        }
        j = j + 1;
    }
    assert(seg =~= s@.subrange(from as int, j as int));
    Some(acc)
}

/// Whether `s[from..to]` holds digits only (an empty range does).
fn all_digits_in_range(s: &str, from: usize, to: usize) -> (r: bool)
    requires
        from <= to <= s@.len(),
    ensures
        r == all_digits(s@.subrange(from as int, to as int)),
{
    let ghost seg = s@.subrange(from as int, to as int);
    let mut j: usize = from;
    while j < to
        invariant
            from <= j <= to <= s@.len(),
            seg == s@.subrange(from as int, to as int),
            forall|m: int| from <= m < j ==> is_digit(s@[m]),
        decreases to - j,
    {
        let code = s.get_char(j) as u32;
        if code < 48 || code > 57 {
            assert(!all_digits(seg)) by {
                assert(seg[j - from] == s@[j as int]);
            }
            return false;
        }
        j = j + 1;
    }
    assert forall|m: int| 0 <= m < seg.len() implies is_digit(seg[m]) by {
        assert(seg[m] == s@[m + from]);
    }
    true
}

/// Parses `s[from..to]` as a positive decimal number, flooring a fractional
/// part away and saturating at `u32::MAX`. Returns `None` when the segment is
/// not `digits[.digits]` or reads zero.
fn parse_segment(s: &str, from: usize, to: usize) -> (r: Option<u32>)
    requires
        from <= to <= s@.len(),
    ensures
        r is Some <==> valid_segment(s@.subrange(from as int, to as int)),
        r matches Some(v) ==> v == segment_value(s@.subrange(from as int, to as int)),
{
    let ghost seg = s@.subrange(from as int, to as int);
    let dot = find_in_range(s, from, to, '.');
    proof {
        assert forall|m: int| 0 <= m < dot - from implies seg[m] != '.' by {
            assert(seg[m] == s@[m + from]);
        }
        if dot < to {
            assert(seg[dot - from] == s@[dot as int]);
        }
        lemma_prefix_len_unique(seg, '.', dot - from);
        assert(prefix_before(seg, '.') =~= s@.subrange(from as int, dot as int));
        if dot < to {
            assert(seg.skip(dot - from + 1) =~= s@.subrange(dot + 1, to as int));
        }
    }
    let value = match parse_digits(s, from, dot) {
        None => {
            return None;
        },
        Some(v) => v,
    };
    if dot < to {
        if !all_digits_in_range(s, dot + 1, to) {
            return None;
        }
    }
    proof {
        lemma_digits_val_nonneg(prefix_before(seg, '.'));
    }
    if value == 0 {
        return None;
    }
    Some(value)
}

/// Parses a required `"<width>x<height>"` configuration string. Each
/// component must be a positive decimal number, `digits[.digits]`; the target
/// is whole pixels, so a fractional part is floored away. A missing `x`, a
/// malformed component, or a component below one is rejected. There is no
/// default and no partial recovery: the caller aborts the invocation on an
/// error.
pub fn load_size_spec(config: &str) -> (r: Result<SizeSpec, PipelineError>)
    ensures
        r is Ok <==> valid_size_string(config@),
        r matches Ok(s) ==> s.target_width == spec_width(config@) && s.target_height
            == spec_height(config@) && s.wf(),
        r matches Err(e) ==> e == PipelineError::ConfigInvalid,
{
    let n = config.unicode_len();
    let i = char_index(config, 'x');
    proof {
        lemma_prefix_len_props(config@, 'x');
    }
    if i == n {
        return Err(PipelineError::ConfigInvalid);
    }
    assert(config@.take(i as int) =~= config@.subrange(0, i as int));
    let width = match parse_segment(config, 0, i) {
        Some(w) => w,
        None => {
            return Err(PipelineError::ConfigInvalid);
        },
    };
    assert(config@.skip(i + 1) =~= config@.subrange(i + 1, n as int));
    let height = match parse_segment(config, i + 1, n) {
        Some(h) => h,
        None => {
            return Err(PipelineError::ConfigInvalid);
        },
    };
    Ok(SizeSpec { target_width: width, target_height: height })
}

} // verus!
