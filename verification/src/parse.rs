//! Parsing of the grid-size argument, a string of the form "WxH" with both
//! sides written in decimal digits.

use vstd::prelude::*;
use vstd::string::StrSliceExecFns;

verus! {

/// The ways a size string can be rejected.
#[derive(Debug, Clone, Copy, PartialEq, Eq, Structural)]
pub enum SizeParseError {
    /// Not exactly one 'x' separator.
    BadFormat,
    /// The part before the 'x' is not a number that fits.
    BadWidth,
    /// The part after the 'x' is not a number that fits.
    BadHeight,
}

impl SizeParseError {
    /// The message that belongs to this error.
    pub fn message(&self) -> (r: &'static str)
        ensures
            r@ == (match self {
                SizeParseError::BadFormat => "Size must be in format WxH"@,
                SizeParseError::BadWidth => "Invalid width"@,
                SizeParseError::BadHeight => "Invalid height"@,
            }),
    {
        match self {
            SizeParseError::BadFormat => "Size must be in format WxH",
            SizeParseError::BadWidth => "Invalid width",
            SizeParseError::BadHeight => "Invalid height",
        }
    }
}

/// `c` is a decimal digit.
pub open spec fn is_digit(c: char) -> bool {
    48 <= c as u32 && c as u32 <= 57
}

/// The value of a digit.
pub open spec fn digit_val(c: char) -> int {
    c as u32 - 48
}

/// The decimal value of a digit string.
pub open spec fn digits_val(s: Seq<char>) -> int
    decreases s.len(),
{
    if s.len() == 0 {
        0
    } else {
        digits_val(s.drop_last()) * 10 + digit_val(s.last())
    }
}

/// Every character of `s` is a decimal digit.
pub open spec fn all_digits(s: Seq<char>) -> bool {
    forall|i: int| 0 <= i < s.len() ==> is_digit(#[trigger] s[i])
}

/// A non-empty digit string whose value fits the machine word.
pub open spec fn valid_number(s: Seq<char>) -> bool {
    &&& s.len() > 0
    &&& all_digits(s)
    &&& digits_val(s) <= usize::MAX
}

/// Occurrences of `c` in `s`.
pub open spec fn count_char(s: Seq<char>, c: char) -> nat
    decreases s.len(),
{
    if s.len() == 0 {
        0
    } else {
        count_char(s.drop_last(), c) + if s.last() == c {
            1nat
        } else {
            0nat
        }
    }
}

/// The index of the 'x' separator (meaningful when there is exactly one).
pub open spec fn xpos(s: Seq<char>) -> int {
    choose|i: int| 0 <= i < s.len() && s[i] == 'x'
}

proof fn lemma_count_char_pos(s: Seq<char>, c: char, i: int)
    requires
        0 <= i < s.len(),
        s[i] == c,
    ensures
        count_char(s, c) >= 1,
    decreases s.len(),
{
    if i < s.len() - 1 {
        lemma_count_char_pos(s.drop_last(), c, i);
    }
}

proof fn lemma_count_char_two(s: Seq<char>, c: char, i: int, j: int)
    requires
        0 <= i < j < s.len(),
        s[i] == c,
        s[j] == c,
    ensures
        count_char(s, c) >= 2,
    decreases s.len(),
{
    if j == s.len() - 1 {
        lemma_count_char_pos(s.drop_last(), c, i);
    } else {
        lemma_count_char_two(s.drop_last(), c, i, j);
    }
}

/// With exactly one occurrence, any occurrence is at `xpos`.
proof fn lemma_x_unique(s: Seq<char>, i: int)
    requires
        count_char(s, 'x') == 1,
        0 <= i < s.len(),
        s[i] == 'x',
    ensures
        xpos(s) == i,
{
    let j = xpos(s);
    assert(0 <= j < s.len() && s[j] == 'x');
    if i < j {
        lemma_count_char_two(s, 'x', i, j);
    }
    if j < i {
        lemma_count_char_two(s, 'x', j, i);
    }
}

/// Digit strings have non-negative value.
proof fn lemma_digits_val_nonneg(s: Seq<char>)
    requires
        all_digits(s),
    ensures
        digits_val(s) >= 0,
    decreases s.len(),
{
    if s.len() > 0 {
        assert(all_digits(s.drop_last())) by {
            assert(forall|i: int| 0 <= i < s.len() - 1 ==> s.drop_last()[i] == s[i]);
        }
        lemma_digits_val_nonneg(s.drop_last());
    }
}

/// The value of a digit string is at least the value of any prefix.
proof fn lemma_digits_val_prefix(s: Seq<char>, k: int)
    requires
        all_digits(s),
        0 <= k <= s.len(),
    ensures
        digits_val(s) >= digits_val(s.subrange(0, k)),
    decreases s.len() - k,
{
    if k < s.len() {
        lemma_digits_val_prefix(s, k + 1);
        let p = s.subrange(0, k);
        let q = s.subrange(0, k + 1);
        assert(q.drop_last() =~= p);
        assert(all_digits(p)) by {
            assert(forall|i: int| 0 <= i < k ==> p[i] == s[i]);
        }
        lemma_digits_val_nonneg(p);
        assert(digits_val(q) == digits_val(p) * 10 + digit_val(q.last()));
        assert(digit_val(q.last()) >= 0);
        assert(digits_val(p) * 10 >= digits_val(p)) by (nonlinear_arith)
            requires
                digits_val(p) >= 0,
        ;
    } else {
        assert(s.subrange(0, k) =~= s);
    }
}

/// Parse the decimal number in `s` between character positions `from`
/// (inclusive) and `to` (exclusive).
fn parse_usize_part(s: &str, from: usize, to: usize) -> (r: Option<usize>)
    requires
        from <= to <= s@.len(),
    ensures
        match r {
            Some(v) => valid_number(s@.subrange(from as int, to as int)) && v == digits_val(
                s@.subrange(from as int, to as int),
            ),
            None => !valid_number(s@.subrange(from as int, to as int)),
        },
{
    let ghost sub = s@.subrange(from as int, to as int);
    if from == to {
        return None;
    }
    let mut acc: usize = 0;
    let mut i: usize = from;
    while i < to
        invariant
            from <= i <= to <= s@.len(),
            sub == s@.subrange(from as int, to as int),
            all_digits(s@.subrange(from as int, i as int)),
            acc == digits_val(s@.subrange(from as int, i as int)),
        decreases to - i,
    {
        let c = s.get_char(i);
        let cv = c as u32;
        let ghost pre = s@.subrange(from as int, i as int);
        let ghost cur = s@.subrange(from as int, i + 1);
        proof {
            assert(cur.drop_last() =~= pre);
            assert(cur.last() == s@[i as int]);
        }
        if cv < 48 || cv > 57 {
            proof {
                assert(sub[i - from] == s@[i as int]);
                assert(!is_digit(sub[i - from]));
            }
            return None;
        }
        let d = (cv - 48) as usize;
        if acc > (usize::MAX - d) / 10 {
            proof {
                // The prefix alone is already too large, so the whole digit
                // string cannot fit.
                assert(acc * 10 + d > usize::MAX) by (nonlinear_arith)
                    requires
                        acc > (usize::MAX - d) / 10,
                        0 <= d <= 9,
                        acc >= 0,
                ;
                if all_digits(sub) {
                    assert(forall|q: int| 0 <= q < sub.len() ==> sub[q] == s@[from + q]);
                    assert(cur =~= sub.subrange(0, i + 1 - from));
                    lemma_digits_val_prefix(sub, i + 1 - from);
                    assert(digits_val(cur) == acc * 10 + d);
                }
            }
            return None;
        }
        proof {
            assert(acc * 10 + d <= usize::MAX) by (nonlinear_arith)
                requires
                    acc <= (usize::MAX - d) / 10,
                    0 <= d <= 9,
                    acc >= 0,
            ;
        }
        acc = acc * 10 + d;
        i += 1;
    }
    proof {
        assert(s@.subrange(from as int, to as int) =~= sub);
    }
    Some(acc)
}

/// Parse a size string of the form "WxH": exactly one 'x' with a decimal
/// number that fits the machine word on each side.
pub fn parse_size(size_str: &str) -> (r: Result<(usize, usize), SizeParseError>)
    ensures
        count_char(size_str@, 'x') != 1 ==> r == Err::<(usize, usize), SizeParseError>(
            SizeParseError::BadFormat,
        ),
        count_char(size_str@, 'x') == 1 ==> {
            let w = size_str@.subrange(0, xpos(size_str@));
            let h = size_str@.subrange(xpos(size_str@) + 1, size_str@.len() as int);
            if !valid_number(w) {
                r == Err::<(usize, usize), SizeParseError>(SizeParseError::BadWidth)
            } else if !valid_number(h) {
                r == Err::<(usize, usize), SizeParseError>(SizeParseError::BadHeight)
            } else {
                r == Ok::<(usize, usize), SizeParseError>(
                    (digits_val(w) as usize, digits_val(h) as usize),
                )
            }
        },
{
    let n = size_str.unicode_len();
    let mut xcount: usize = 0;
    let mut xi: usize = 0;
    let mut i: usize = 0;
    while i < n
        invariant
            i <= n,
            n == size_str@.len(),
            xcount == count_char(size_str@.subrange(0, i as int), 'x'),
            xcount <= i,
            xcount >= 1 ==> xi < i && size_str@[xi as int] == 'x',
        decreases n - i,
    {
        proof {
            assert(size_str@.subrange(0, i + 1).drop_last() =~= size_str@.subrange(0, i as int));
            assert(size_str@.subrange(0, i + 1).last() == size_str@[i as int]);
        }
        let c = size_str.get_char(i);
        if c == 'x' {
            xcount += 1;
            xi = i;
        }
        i += 1;
    }
    proof {
        assert(size_str@.subrange(0, n as int) =~= size_str@);
    }
    if xcount != 1 {
        return Err(SizeParseError::BadFormat);
    }
    proof {
        lemma_x_unique(size_str@, xi as int);
    }
    let w = match parse_usize_part(size_str, 0, xi) {
        Some(v) => v,
        None => {
            return Err(SizeParseError::BadWidth);
        },
    };
    let h = match parse_usize_part(size_str, xi + 1, n) {
        Some(v) => v,
        None => {
            return Err(SizeParseError::BadHeight);
        },
    };
    Ok((w, h))
}

} // verus!
