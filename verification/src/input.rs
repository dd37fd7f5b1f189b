//! Parsing the asset identifier from one line of console input: the
//! line is trimmed of surrounding whitespace and read as an unsigned
//! decimal integer; anything else is the fatal input error.

use vstd::prelude::*;
use vstd::string::StrSliceExecFns;
use crate::coord::RunError;

verus! {

/// The whitespace characters stripped from either end of the input.
pub open spec fn is_space(c: char) -> bool {
    c == ' ' || c == '\t' || c == '\n' || c == '\r'
}

/// `s` without its leading whitespace.
pub open spec fn trim_front(s: Seq<char>) -> Seq<char>
    decreases s.len(),
{
    if s.len() > 0 && is_space(s[0]) {
        trim_front(s.drop_first())
    } else {
        s
    }
}

/// `s` without its trailing whitespace.
pub open spec fn trim_back(s: Seq<char>) -> Seq<char>
    decreases s.len(),
{
    if s.len() > 0 && is_space(s.last()) {
        trim_back(s.drop_last())
    } else {
        s
    }
}

/// `s` without leading and trailing whitespace.
pub open spec fn trimmed(s: Seq<char>) -> Seq<char> {
    trim_back(trim_front(s))
}

/// Whether `c` is a decimal digit.
pub open spec fn is_digit(c: char) -> bool {
    0x30 <= (c as u32) && (c as u32) <= 0x39
}

/// The numeric value of the digit `c`.
pub open spec fn digit_val(c: char) -> int {
    c as u32 - 0x30
}

/// Every character of `s` is a decimal digit.
pub open spec fn all_digits(s: Seq<char>) -> bool {
    forall|i: int| 0 <= i < s.len() ==> is_digit(#[trigger] s[i])
}

/// The value of `s` read as a decimal numeral.
pub open spec fn dec_val(s: Seq<char>) -> int
    decreases s.len(),
{
    if s.len() == 0 {
        0
    } else {
        dec_val(s.drop_last()) * 10 + digit_val(s.last())
    }
}

/// Whether the line names an asset: after trimming, a non-empty run of
/// digits whose value fits in 64 bits.
pub open spec fn valid_asset_id(s: Seq<char>) -> bool {
    &&& trimmed(s).len() > 0
    &&& all_digits(trimmed(s))
    &&& dec_val(trimmed(s)) <= u64::MAX
}

proof fn lemma_trim_front_at(s: Seq<char>, k: int)
    requires
        0 <= k <= s.len(),
        forall|j: int| 0 <= j < k ==> is_space(#[trigger] s[j]),
        k == s.len() || !is_space(s[k]),
    ensures
        trim_front(s) == s.subrange(k, s.len() as int),
    decreases k,
{
    if k == 0 {
        assert(trim_front(s) =~= s.subrange(0, s.len() as int));
    } else {
        let d = s.drop_first();
        assert(is_space(s[0]));
        lemma_trim_front_at(d, k - 1);
        assert(d.subrange(k - 1, d.len() as int) =~= s.subrange(k, s.len() as int));
    }
}

proof fn lemma_trim_back_at(s: Seq<char>, k: int)
    requires
        0 <= k <= s.len(),
        forall|j: int| k <= j < s.len() ==> is_space(#[trigger] s[j]),
        k == 0 || !is_space(s[k - 1]),
    ensures
        trim_back(s) == s.subrange(0, k),
    decreases s.len() - k,
{
    if k == s.len() {
        assert(trim_back(s) =~= s.subrange(0, k));
    } else {
        let d = s.drop_last();
        assert(is_space(s.last()));
        lemma_trim_back_at(d, k);
        assert(d.subrange(0, k) =~= s.subrange(0, k));
    }
}

proof fn lemma_dec_val_nonneg(s: Seq<char>)
    requires
        all_digits(s),
    ensures
        dec_val(s) >= 0,
    decreases s.len(),
{
    if s.len() > 0 {
        assert(all_digits(s.drop_last()));
        lemma_dec_val_nonneg(s.drop_last());
    }
}

/// Reading more digits never shrinks the value: the value of a prefix
/// is a lower bound for the value of the whole numeral.
proof fn lemma_dec_val_prefix_le(s: Seq<char>, m: int)
    requires
        all_digits(s),
        0 <= m <= s.len(),
    ensures
        dec_val(s.subrange(0, m)) <= dec_val(s),
    decreases s.len() - m,
{
    if m == s.len() {
        assert(s.subrange(0, m) =~= s);
    } else {
        let p = s.subrange(0, m);
        let q = s.subrange(0, m + 1);
        assert(q.drop_last() =~= p);
        assert(q.last() == s[m]);
        assert(all_digits(p));
        lemma_dec_val_nonneg(p);
        assert(dec_val(q) == dec_val(p) * 10 + digit_val(s[m]));
        assert(dec_val(p) <= dec_val(q));
        lemma_dec_val_prefix_le(s, m + 1);
    }
}

fn is_space_exec(c: char) -> (b: bool)
    ensures
        b == is_space(c),
{
    c == ' ' || c == '\t' || c == '\n' || c == '\r'
}

/// Parse the asset identifier from one line of input. Succeeds exactly
/// when the trimmed line is a non-empty run of decimal digits whose
/// value fits in 64 bits, and returns that value; every other line is
/// the fatal input error.
pub fn parse_asset_id(line: &str) -> (r: Result<u64, RunError>)
    ensures
        match r {
            Ok(n) => valid_asset_id(line@) && n == dec_val(trimmed(line@)),
            Err(e) => !valid_asset_id(line@) && e == RunError::InputError,
        },
{
    let len = line.unicode_len();
    let mut lo: usize = 0;
    while lo < len && is_space_exec(line.get_char(lo))
        invariant
            lo <= len,
            len == line@.len(),
            forall|j: int| 0 <= j < lo ==> is_space(#[trigger] line@[j]),
        decreases len - lo,
    {
        lo += 1;
    }
    proof {
        lemma_trim_front_at(line@, lo as int);
    }
    let mut hi: usize = len;
    while hi > lo && is_space_exec(line.get_char(hi - 1))
        invariant
            lo <= hi <= len,
            len == line@.len(),
            forall|j: int| hi <= j < len ==> is_space(#[trigger] line@[j]),
        decreases hi,
    {
        hi -= 1;
    }
    let ghost f = line@.subrange(lo as int, len as int);
    proof {
        assert(forall|j: int| hi - lo <= j < f.len() ==> is_space(#[trigger] f[j]));
        if hi > lo {
            assert(f[hi - lo - 1] == line@[hi - 1]);
        }
        lemma_trim_back_at(f, hi - lo);
        assert(f.subrange(0, hi - lo) =~= line@.subrange(lo as int, hi as int));
    }
    let ghost t = line@.subrange(lo as int, hi as int);
    assert(t == trimmed(line@));
    if lo == hi {
        assert(t.len() == 0);
        return Err(RunError::InputError);
    }
    let mut val: u64 = 0;
    let mut i: usize = lo;
    while i < hi
        invariant
            lo <= i <= hi <= len,
            len == line@.len(),
            t == trimmed(line@),
            t == line@.subrange(lo as int, hi as int),
            hi > lo,
            all_digits(t.subrange(0, i - lo)),
            val == dec_val(t.subrange(0, i - lo)),
        decreases hi - i,
    {
        let c = line.get_char(i);
        assert(t[i - lo] == c);
        let u = c as u32;
        if !(u >= 0x30 && u <= 0x39) {
            assert(!is_digit(c));
            assert(!all_digits(t));
            return Err(RunError::InputError);
        }
        let d = (u - 0x30) as u64;
        let ghost p = t.subrange(0, i - lo);
        let ghost q = t.subrange(0, i - lo + 1);
        proof {
            assert(q.drop_last() =~= p);
            assert(q.last() == c);
            assert(dec_val(q) == dec_val(p) * 10 + digit_val(c));
        }
        if val > u64::MAX / 10 || (val == u64::MAX / 10 && d > u64::MAX % 10) {
            proof {
                assert(dec_val(q) > u64::MAX);
                if all_digits(t) {
                    lemma_dec_val_prefix_le(t, i - lo + 1);
                    assert(dec_val(t) > u64::MAX);
                }
            }
            return Err(RunError::InputError);
        }
        val = val * 10 + d;
        assert(val == dec_val(q));
        assert(all_digits(q));
        i += 1;
    }
    assert(t.subrange(0, hi - lo) =~= t);
    assert(val == dec_val(t));
    assert(all_digits(t));
    Ok(val)
}

} // verus!
