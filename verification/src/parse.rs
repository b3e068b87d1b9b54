//! Plain byte parsing for the metadata probe's output: whitespace trimming,
//! comma splitting, and decimal number reading.

use vstd::prelude::*;
use vstd::slice::{slice_subrange, slice_to_vec};

verus! {

/// ASCII whitespace, as the probe's output may carry it.
pub open spec fn is_ws(b: u8) -> bool {
    b == 32 || b == 9 || b == 10 || b == 13
}

/// The bytes with leading whitespace dropped.
pub open spec fn trim_front_spec(s: Seq<u8>) -> Seq<u8>
    decreases s.len(),
{
    if s.len() > 0 && is_ws(s[0]) {
        trim_front_spec(s.drop_first())
    } else {
        s
    }
}

/// The bytes with trailing whitespace dropped.
pub open spec fn trim_back_spec(s: Seq<u8>) -> Seq<u8>
    decreases s.len(),
{
    if s.len() > 0 && is_ws(s.last()) {
        trim_back_spec(s.drop_last())
    } else {
        s
    }
}

/// The bytes with whitespace dropped on both ends.
pub open spec fn trim_spec(s: Seq<u8>) -> Seq<u8> {
    trim_back_spec(trim_front_spec(s))
}

/// Whether a byte is ASCII whitespace.
pub fn is_ws_byte(b: u8) -> (r: bool)
    ensures
        r == is_ws(b),
{
    b == 32 || b == 9 || b == 10 || b == 13
}

/// Trims ASCII whitespace from both ends.
#[verifier::loop_isolation(false)]
pub fn trim_bytes(s: &[u8]) -> (r: Vec<u8>)
    ensures
        r@ == trim_spec(s@),
{
    let mut start: usize = 0;
    proof {
        assert(s@.skip(0) =~= s@);
    }
    while start < s.len() && is_ws_byte(s[start])
        invariant
            start <= s@.len(),
            trim_front_spec(s@) == trim_front_spec(s@.skip(start as int)),
        decreases s@.len() - start,
    {
        proof {
            assert(s@.skip(start as int).drop_first() =~= s@.skip(start as int + 1));
        }
        start = start + 1;
    }
    let ghost t = s@.skip(start as int);
    assert(trim_front_spec(s@) == t);
    let mut end: usize = s.len();
    proof {
        assert(t.take(end - start as int) =~= t);
    }
    while end > start && is_ws_byte(s[end - 1])
        invariant
            start <= end <= s@.len(),
            trim_back_spec(t) == trim_back_spec(t.take(end - start as int)),
        decreases end,
    {
        proof {
            assert(t.take(end - start as int).drop_last() =~= t.take(end - 1 - start as int));
            assert(t.take(end - start as int).last() == s@[end - 1]);
        }
        end = end - 1;
    }
    proof {
        if end > start {
            assert(t.take(end - start as int).last() == s@[end - 1]);
        }
        assert(trim_back_spec(t) == t.take(end - start as int));
        assert(t.take(end - start as int) =~= s@.subrange(start as int, end as int));
    }
    slice_to_vec(slice_subrange(s, start, end))
}

/// The position of the first occurrence of `b`, or -1 where there is none.
pub open spec fn first_index_of(s: Seq<u8>, b: u8) -> int
    decreases s.len(),
{
    if s.len() == 0 {
        -1
    } else if s[0] == b {
        0
    } else {
        let r = first_index_of(s.drop_first(), b);
        if r < 0 {
            -1
        } else {
            r + 1
        }
    }
}

/// What the first-occurrence position means: -1 exactly when the byte is
/// absent, else the position of the earliest occurrence.
pub proof fn lemma_first_index_of(s: Seq<u8>, b: u8)
    ensures
        first_index_of(s, b) == -1 <==> (forall|j: int| 0 <= j < s.len() ==> s[j] != b),
        first_index_of(s, b) != -1 ==> {
            let i = first_index_of(s, b);
            &&& 0 <= i < s.len()
            &&& s[i] == b
            &&& forall|j: int| 0 <= j < i ==> s[j] != b
        },
    decreases s.len(),
{
    if s.len() > 0 && s[0] != b {
        lemma_first_index_of(s.drop_first(), b);
        let r = first_index_of(s.drop_first(), b);
        if r == -1 {
            assert forall|j: int| 0 <= j < s.len() implies s[j] != b by {
                if j > 0 {
                    assert(s[j] == s.drop_first()[j - 1]);
                }
            }
        } else {
            assert(s[r + 1] == s.drop_first()[r]);
            assert forall|j: int| 0 <= j < r + 1 implies s[j] != b by {
                if j > 0 {
                    assert(s[j] == s.drop_first()[j - 1]);
                }
            }
        }
    }
}

/// Finds the first occurrence of a byte.
#[verifier::loop_isolation(false)]
pub fn find_byte(s: &[u8], b: u8) -> (r: Option<usize>)
    ensures
        match r {
            Some(i) => first_index_of(s@, b) == i,
            None => first_index_of(s@, b) == -1,
        },
{
    proof {
        lemma_first_index_of(s@, b);
    }
    let mut i: usize = 0;
    while i < s.len()
        invariant
            i <= s@.len(),
            forall|j: int| 0 <= j < i ==> s@[j] != b,
        decreases s@.len() - i,
    {
        if s[i] == b {
            return Some(i);
        }
        i = i + 1;
    }
    None
}

/// The pieces between the commas, in order; a comma-free input is one piece.
pub open spec fn split_commas(s: Seq<u8>) -> Seq<Seq<u8>>
    decreases s.len(),
{
    let i = first_index_of(s, 44);
    if 0 <= i < s.len() {
        seq![s.subrange(0, i)] + split_commas(s.subrange(i + 1, s.len() as int))
    } else {
        seq![s]
    }
}

/// Splits a byte string on commas.
pub fn split_commas_bytes(s: &[u8]) -> (r: Vec<Vec<u8>>)
    ensures
        r@.len() == split_commas(s@).len(),
        forall|i: int| 0 <= i < r@.len() ==> r@[i]@ == split_commas(s@)[i],
        r@.len() >= 1,
    decreases s@.len(),
{
    proof {
        lemma_first_index_of(s@, 44);
    }
    match find_byte(s, 44) {
        None => {
            let mut r: Vec<Vec<u8>> = Vec::new();
            r.push(slice_to_vec(s));
            r
        },
        Some(i) => {
            let n = s.len();
            let head = slice_to_vec(slice_subrange(s, 0, i));
            let tail = slice_subrange(s, i + 1, n);
            let mut rest = split_commas_bytes(tail);
            let mut r: Vec<Vec<u8>> = Vec::new();
            r.push(head);
            r.append(&mut rest);
            r
        },
    }
}

/// Whether every byte is a decimal digit.
pub open spec fn all_digits(s: Seq<u8>) -> bool {
    forall|i: int| 0 <= i < s.len() ==> 48 <= #[trigger] s[i] <= 57
}

/// The number a digit string denotes, most significant digit first.
pub open spec fn digits_value(s: Seq<u8>) -> int
    decreases s.len(),
{
    if s.len() == 0 {
        0
    } else {
        digits_value(s.drop_last()) * 10 + (s.last() - 48)
    }
}

/// A digit string denotes a number, never a negative value.
pub proof fn lemma_digits_value_nonneg(s: Seq<u8>)
    requires
        all_digits(s),
    ensures
        digits_value(s) >= 0,
    decreases s.len(),
{
    if s.len() > 0 {
        assert(all_digits(s.drop_last()));
        lemma_digits_value_nonneg(s.drop_last());
    }
}

/// Reading further digits never shrinks the value: every prefix denotes at
/// most the whole string's number.
pub proof fn lemma_digits_prefix_le(s: Seq<u8>, i: int)
    requires
        all_digits(s),
        0 <= i <= s.len(),
    ensures
        digits_value(s.take(i)) <= digits_value(s),
    decreases s.len() - i,
{
    if i < s.len() {
        lemma_digits_prefix_le(s, i + 1);
        assert(s.take(i + 1).drop_last() =~= s.take(i));
        assert(all_digits(s.take(i)));
        lemma_digits_value_nonneg(s.take(i));
    } else {
        assert(s.take(i) =~= s);
    }
}

/// A decimal number: the whole digit string's value where it is one and fits
/// an unsigned 64-bit value, else nothing.
pub open spec fn parse_u64_spec(s: Seq<u8>) -> Option<u64> {
    if s.len() > 0 && all_digits(s) && digits_value(s) <= u64::MAX {
        Some(digits_value(s) as u64)
    } else {
        None
    }
}

/// Reads a decimal number.
#[verifier::loop_isolation(false)]
pub fn parse_u64_bytes(s: &[u8]) -> (r: Option<u64>)
    ensures
        r == parse_u64_spec(s@),
{
    if s.len() == 0 {
        return None;
    }
    let mut val: u64 = 0;
    let mut i: usize = 0;
    while i < s.len()
        invariant
            i <= s@.len(),
            all_digits(s@.take(i as int)),
            val == digits_value(s@.take(i as int)),
        decreases s@.len() - i,
    {
        let b = s[i];
        if b < 48 || b > 57 {
            assert(!all_digits(s@));
            return None;
        }
        let d = (b - 48) as u64;
        proof {
            assert(s@.take(i + 1).drop_last() =~= s@.take(i as int));
        }
        let next = match val.checked_mul(10) {
            Some(v10) => v10.checked_add(d),
            None => None,
        };
        match next {
            Some(v) => {
                val = v;
            },
            None => {
                proof {
                    assert(digits_value(s@.take(i + 1)) > u64::MAX);
                    if all_digits(s@) {
                        lemma_digits_prefix_le(s@, i + 1);
                    }
                }
                return None;
            },
        }
        i = i + 1;
    }
    proof {
        assert(s@.take(s@.len() as int) =~= s@);
    }
    Some(val)
}

/// A decimal number that fits an unsigned 32-bit value.
pub open spec fn parse_u32_spec(s: Seq<u8>) -> Option<u32> {
    match parse_u64_spec(s) {
        Some(v) => if v <= u32::MAX {
            Some(v as u32)
        } else {
            None
        },
        None => None,
    }
}

/// Reads a decimal number that must fit 32 bits.
pub fn parse_u32_bytes(s: &[u8]) -> (r: Option<u32>)
    ensures
        r == parse_u32_spec(s@),
{
    match parse_u64_bytes(s) {
        Some(v) => if v <= u32::MAX as u64 {
            Some(v as u32)
        } else {
            None
        },
        None => None,
    }
}

/// Whether every byte of a slice is a decimal digit.
#[verifier::loop_isolation(false)]
pub fn all_digits_bytes(s: &[u8]) -> (r: bool)
    ensures
        r == all_digits(s@),
{
    let mut i: usize = 0;
    while i < s.len()
        invariant
            i <= s@.len(),
            forall|j: int| 0 <= j < i ==> 48 <= #[trigger] s@[j] <= 57,
        decreases s@.len() - i,
    {
        if s[i] < 48 || s[i] > 57 {
            return false;
        }
        i = i + 1;
    }
    true
}

/// The milliseconds the first three fraction digits stand for.
pub open spec fn scaled_frac(f: Seq<u8>) -> int {
    if f.len() == 0 {
        0
    } else if f.len() == 1 {
        digits_value(f) * 100
    } else if f.len() == 2 {
        digits_value(f) * 10
    } else {
        digits_value(f)
    }
}

/// A decimal duration in seconds (`whole` or `whole.fraction`), read to
/// millisecond precision; fraction digits past the third are dropped.
pub open spec fn parse_duration_ms_spec(s: Seq<u8>) -> Option<u64> {
    let i = first_index_of(s, 46);
    if !(0 <= i < s.len()) {
        match parse_u64_spec(s) {
            Some(v) => if v * 1000 <= u64::MAX {
                Some((v * 1000) as u64)
            } else {
                None
            },
            None => None,
        }
    } else {
        let whole = s.subrange(0, i);
        let frac = s.subrange(i + 1, s.len() as int);
        let frac3 = if frac.len() > 3 {
            frac.subrange(0, 3)
        } else {
            frac
        };
        match parse_u64_spec(whole) {
            Some(w) => if all_digits(frac) && w * 1000 + scaled_frac(frac3) <= u64::MAX {
                Some((w * 1000 + scaled_frac(frac3)) as u64)
            } else {
                None
            },
            None => None,
        }
    }
}

/// Three or fewer fraction digits stand for under a second.
pub proof fn lemma_scaled_frac_range(f: Seq<u8>)
    requires
        all_digits(f),
        f.len() <= 3,
    ensures
        0 <= scaled_frac(f) <= 999,
{
    lemma_digits_value_nonneg(f);
    if f.len() == 1 {
        assert(f.drop_last().len() == 0);
        assert(digits_value(f.drop_last()) == 0);
    } else if f.len() == 2 {
        assert(f.drop_last().drop_last().len() == 0);
        assert(digits_value(f.drop_last().drop_last()) == 0);
        assert(digits_value(f.drop_last()) == f.drop_last().last() - 48);
    } else if f.len() == 3 {
        assert(f.drop_last().drop_last().drop_last().len() == 0);
        assert(digits_value(f.drop_last().drop_last().drop_last()) == 0);
        assert(digits_value(f.drop_last().drop_last()) == f.drop_last().drop_last().last() - 48);
        assert(digits_value(f.drop_last()) == digits_value(f.drop_last().drop_last()) * 10 + (
        f.drop_last().last() - 48));
    }
}

/// Reads a decimal duration in seconds to milliseconds.
pub fn parse_duration_ms_bytes(s: &[u8]) -> (r: Option<u64>)
    ensures
        r == parse_duration_ms_spec(s@),
{
    proof {
        lemma_first_index_of(s@, 46);
    }
    match find_byte(s, 46) {
        None => {
            match parse_u64_bytes(s) {
                Some(v) => v.checked_mul(1000),
                None => None,
            }
        },
        Some(i) => {
            let n = s.len();
            let whole = slice_subrange(s, 0, i);
            let frac = slice_subrange(s, i + 1, n);
            let w = match parse_u64_bytes(whole) {
                Some(w) => w,
                None => {
                    return None;
                },
            };
            if !all_digits_bytes(frac) {
                return None;
            }
            let frac3 = if frac.len() > 3 {
                slice_subrange(frac, 0, 3)
            } else {
                frac
            };
            proof {
                if frac@.len() > 3 {
                    assert(frac3@ =~= frac@.subrange(0, 3));
                    assert(all_digits(frac3@));
                } else {
                    assert(frac3@ =~= frac@);
                }
                lemma_scaled_frac_range(frac3@);
            }
            let fv: u64 = frac_millis(frac3);
            match w.checked_mul(1000) {
                Some(w1000) => w1000.checked_add(fv),
                None => None,
            }
        },
    }
}

/// The milliseconds of a fraction of up to three digits.
fn frac_millis(f: &[u8]) -> (r: u64)
    requires
        all_digits(f@),
        f@.len() <= 3,
    ensures
        r == scaled_frac(f@),
{
    proof {
        lemma_scaled_frac_range(f@);
    }
    if f.len() == 0 {
        0
    } else if f.len() == 1 {
        proof {
            assert(f@.drop_last().len() == 0);
            assert(digits_value(f@.drop_last()) == 0);
            assert(f@.last() == f@[0]);
        }
        ((f[0] - 48) as u64) * 100
    } else if f.len() == 2 {
        proof {
            assert(f@.drop_last().drop_last().len() == 0);
            assert(digits_value(f@.drop_last().drop_last()) == 0);
            assert(f@.drop_last().last() == f@[0]);
            assert(digits_value(f@.drop_last()) == f@[0] - 48);
            assert(f@.last() == f@[1]);
        }
        ((f[0] - 48) as u64) * 100 + ((f[1] - 48) as u64) * 10
    } else {
        proof {
            assert(f@.drop_last().drop_last().drop_last().len() == 0);
            assert(digits_value(f@.drop_last().drop_last().drop_last()) == 0);
            assert(f@.drop_last().drop_last().last() == f@[0]);
            assert(digits_value(f@.drop_last().drop_last()) == f@[0] - 48);
            assert(f@.drop_last().last() == f@[1]);
            assert(digits_value(f@.drop_last()) == (f@[0] - 48) * 10 + (f@[1] - 48));
            assert(f@.last() == f@[2]);
        }
        ((f[0] - 48) as u64) * 100 + ((f[1] - 48) as u64) * 10 + ((f[2] - 48) as u64)
    }
}

} // verus!
