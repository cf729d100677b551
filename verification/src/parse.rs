//! Shared byte-level parsing helpers: substring search and decimal numbers.
//!
//! Payload text is handled as bytes; every parser is specified against a
//! spec-level grammar function over the byte sequence, so callers know the
//! exact value a given input produces.

use vstd::prelude::*;

verus! {

/// True when `n` occurs in `h` starting exactly at index `i`.
pub open spec fn spec_match_at(h: Seq<u8>, n: Seq<u8>, i: int) -> bool {
    0 <= i && i + n.len() <= h.len() && h.subrange(i, i + n.len() as int) == n
}

/// Index of the first occurrence of a non-empty `n` in `h` at or after `from`.
pub open spec fn spec_find(h: Seq<u8>, n: Seq<u8>, from: int) -> Option<int>
    decreases h.len() - from when 0 <= from
{
    if from < 0 || n.len() == 0 {
        None
    } else if from + n.len() > h.len() {
        None
    } else if spec_match_at(h, n, from) {
        Some(from)
    } else {
        spec_find(h, n, from + 1)
    }
}

/// A found index lies at or after `from`, matches, and fits in the haystack.
pub proof fn lemma_find_props(h: Seq<u8>, n: Seq<u8>, from: int)
    requires
        0 <= from,
        n.len() > 0,
    ensures
        match spec_find(h, n, from) {
            Some(i) => from <= i && i + n.len() <= h.len() && spec_match_at(h, n, i),
            None => true,
        },
    decreases h.len() - from
{
    if from + n.len() <= h.len() && !spec_match_at(h, n, from) {
        lemma_find_props(h, n, from + 1);
    }
}

fn bytes_match_at(h: &Vec<u8>, n: &Vec<u8>, i: usize) -> (r: bool)
    requires
        i + n@.len() <= h@.len(),
    ensures
        r == spec_match_at(h@, n@, i as int),
{
    let hlen = h.len();
    let mut j: usize = 0;
    while j < n.len()
        invariant
            hlen == h@.len(),
            i + n@.len() <= h@.len(),
            j <= n@.len(),
            forall|k: int| 0 <= k < j ==> h@[i + k] == n@[k],
        decreases n@.len() - j,
    {
        if h[i + j] != n[j] {
            assert(h@.subrange(i as int, i + n@.len()) != n@) by {
                assert(h@.subrange(i as int, i + n@.len())[j as int] == h@[i + j]);
            }
            return false;
        }
        j += 1;
    }
    assert(h@.subrange(i as int, i + n@.len()) =~= n@);
    true
}

/// Find the first occurrence of `n` in `h` at or after `from`.
pub fn find_sub(h: &Vec<u8>, n: &Vec<u8>, from: usize) -> (r: Option<usize>)
    ensures
        match r {
            Some(i) => spec_find(h@, n@, from as int) == Some(i as int),
            None => spec_find(h@, n@, from as int) is None,
        },
{
    if n.len() == 0 || n.len() > h.len() || from > h.len() - n.len() {
        return None;
    }
    let mut i: usize = from;
    while i <= h.len() - n.len()
        invariant
            from <= i,
            0 < n@.len() <= h@.len(),
            spec_find(h@, n@, from as int) == spec_find(h@, n@, i as int),
        decreases h@.len() - i,
    {
        if bytes_match_at(h, n, i) {
            return Some(i);
        }
        i += 1;
    }
    None
}

/// True when every byte of `s` is an ASCII decimal digit.
pub open spec fn spec_all_digits(s: Seq<u8>) -> bool {
    forall|i: int| 0 <= i < s.len() ==> 48 <= #[trigger] s[i] <= 57
}

/// Numeric value of a sequence of ASCII digits, most significant first.
pub open spec fn spec_digits_val(s: Seq<u8>) -> int
    decreases s.len()
{
    if s.len() == 0 {
        0
    } else {
        spec_digits_val(s.drop_last()) * 10 + (s.last() - 48)
    }
}

/// Ten to the `k`.
pub open spec fn spec_pow10(k: nat) -> int
    decreases k
{
    if k == 0 {
        1
    } else {
        10 * spec_pow10((k - 1) as nat)
    }
}

/// The value of a digit string is bounded by ten to its length.
pub proof fn lemma_digits_val_bound(s: Seq<u8>)
    requires
        spec_all_digits(s),
    ensures
        0 <= spec_digits_val(s) < spec_pow10(s.len()),
    decreases s.len()
{
    if s.len() > 0 {
        lemma_digits_val_bound(s.drop_last());
    }
}

/// Parse the digits of `v` in `[start, end)` as a decimal integer.
/// Fails on an empty range, a non-digit, or more than nine digits.
pub fn parse_digits(v: &Vec<u8>, start: usize, end: usize) -> (r: Option<u64>)
    requires
        start <= end <= v@.len(),
    ensures
        match r {
            Some(x) => start < end && end - start <= 9 && spec_all_digits(
                v@.subrange(start as int, end as int),
            ) && x as int == spec_digits_val(v@.subrange(start as int, end as int))
                && x < 1_000_000_000,
            None => !(start < end && end - start <= 9 && spec_all_digits(
                v@.subrange(start as int, end as int),
            )),
        },
{
    if start == end || end - start > 9 {
        return None;
    }
    let ghost s = v@.subrange(start as int, end as int);
    let mut acc: u64 = 0;
    let mut i: usize = start;
    while i < end
        invariant
            start <= i <= end <= v@.len(),
            end - start <= 9,
            s == v@.subrange(start as int, end as int),
            spec_all_digits(v@.subrange(start as int, i as int)),
            acc as int == spec_digits_val(v@.subrange(start as int, i as int)),
            acc < 1_000_000_000,
        decreases end - i,
    {
        let b = v[i];
        if b < 48 || b > 57 {
            assert(!spec_all_digits(s)) by {
                assert(s[i - start] == v@[i as int]);
            }
            return None;
        }
        proof {
            let pre = v@.subrange(start as int, i as int);
            let cur = v@.subrange(start as int, i + 1);
            assert(cur.drop_last() =~= pre);
            assert(cur.last() == v@[i as int]);
            lemma_digits_val_bound(cur);
            assert(cur.len() <= 9);
            assert(spec_pow10(cur.len()) <= spec_pow10(9)) by {
                lemma_pow10_mono(cur.len(), 9);
            }
            assert(spec_pow10(9) == 1_000_000_000) by {
                reveal_with_fuel(spec_pow10, 10);
            }
        }
        acc = acc * 10 + ((b - 48) as u64);
        i += 1;
    }
    assert(v@.subrange(start as int, i as int) =~= s);
    Some(acc)
}

/// Powers of ten grow with the exponent.
pub proof fn lemma_pow10_mono(a: nat, b: nat)
    requires
        a <= b,
    ensures
        spec_pow10(a) <= spec_pow10(b),
        spec_pow10(a) >= 1,
    decreases b
{
    if a < b {
        lemma_pow10_mono(a, (b - 1) as nat);
    } else if b > 0 {
        lemma_pow10_mono((a - 1) as nat, (b - 1) as nat);
    }
}

/// The value, in thousandths, of decimal text: an optional minus sign,
/// one to nine integer digits, and an optional point followed by one to
/// three fractional digits.
pub open spec fn spec_decimal_milli(s: Seq<u8>) -> Option<int> {
    if s.len() > 0 && s[0] == 45 {
        match spec_unsigned_decimal_milli(s.skip(1)) {
            Some(x) => Some(-x),
            None => None,
        }
    } else {
        spec_unsigned_decimal_milli(s)
    }
}

/// The value, in thousandths, of unsigned decimal text.
pub open spec fn spec_unsigned_decimal_milli(s: Seq<u8>) -> Option<int> {
    match spec_find(s, seq![46u8], 0) {
        Some(dot) => {
            let ip = s.subrange(0, dot);
            let fp = s.skip(dot + 1);
            if 1 <= ip.len() <= 9 && spec_all_digits(ip) && 1 <= fp.len() <= 3
                && spec_all_digits(fp) {
                Some(
                    spec_digits_val(ip) * 1000 + spec_digits_val(fp) * spec_pow10(
                        (3 - fp.len()) as nat,
                    ),
                )
            } else {
                None
            }
        },
        None => {
            if 1 <= s.len() <= 9 && spec_all_digits(s) {
                Some(spec_digits_val(s) * 1000)
            } else {
                None
            }
        },
    }
}

/// Parse the text of `v` in `[start, end)` as a decimal number, returning
/// its value in thousandths.
pub fn parse_decimal_milli(v: &Vec<u8>, start: usize, end: usize) -> (r: Option<i64>)
    requires
        start <= end <= v@.len(),
    ensures
        match r {
            Some(x) => spec_decimal_milli(v@.subrange(start as int, end as int)) == Some(x as int),
            None => spec_decimal_milli(v@.subrange(start as int, end as int)) is None,
        },
{
    let ghost s = v@.subrange(start as int, end as int);
    let (neg, ustart): (bool, usize) = if start < end && v[start] == 45 {
        (true, start + 1)
    } else {
        (false, start)
    };
    proof {
        if neg {
            assert(s.skip(1) =~= v@.subrange(ustart as int, end as int));
        }
    }
    let x = parse_unsigned_decimal_milli(v, ustart, end);
    match x {
        Some(u) => {
            if neg {
                Some(-u)
            } else {
                Some(u)
            }
        },
        None => None,
    }
}

fn parse_unsigned_decimal_milli(v: &Vec<u8>, start: usize, end: usize) -> (r: Option<i64>)
    requires
        start <= end <= v@.len(),
    ensures
        match r {
            Some(x) => spec_unsigned_decimal_milli(v@.subrange(start as int, end as int)) == Some(
                x as int,
            ) && 0 <= x <= 999_999_999_999,
            None => spec_unsigned_decimal_milli(v@.subrange(start as int, end as int)) is None,
        },
{
    let ghost s = v@.subrange(start as int, end as int);
    let ghost dotn: Seq<u8> = seq![46u8];
    let mut i: usize = start;
    while i < end && v[i] != 46
        invariant
            start <= i <= end <= v@.len(),
            s == v@.subrange(start as int, end as int),
            dotn == seq![46u8],
            spec_find(s, dotn, 0) == spec_find(s, dotn, i - start),
        decreases end - i,
    {
        proof {
            assert(s.subrange(i - start, i - start + 1) != dotn) by {
                assert(s.subrange(i - start, i - start + 1)[0] == v@[i as int]);
            }
        }
        i += 1;
    }
    if i < end {
        let d = i;
        proof {
            assert(s.subrange(d - start, d - start + 1) =~= dotn);
            assert(spec_find(s, dotn, 0) == Some(d - start));
        }
        let ip = parse_digits(v, start, d);
        let fp = parse_digits(v, d + 1, end);
        proof {
            assert(s.subrange(0, d - start) =~= v@.subrange(start as int, d as int));
            assert(s.skip(d - start + 1) =~= v@.subrange(d + 1, end as int));
        }
        match (ip, fp) {
            (Some(a), Some(b)) => {
                if end - d - 1 > 3 {
                    return None;
                }
                let scale: i64 = if end - d - 1 == 1 {
                    100
                } else if end - d - 1 == 2 {
                    10
                } else {
                    1
                };
                proof {
                    reveal_with_fuel(spec_pow10, 4);
                    lemma_digits_val_bound(v@.subrange(d + 1, end as int));
                    lemma_pow10_mono(v@.subrange(d + 1, end as int).len(), 3);
                }
                Some((a as i64) * 1000 + (b as i64) * scale)
            },
            _ => None,
        }
    } else {
        proof {
            assert(spec_find(s, dotn, i - start) is None);
            assert(s.subrange(0, end - start) =~= s);
        }
        match parse_digits(v, start, end) {
            Some(a) => Some((a as i64) * 1000),
            None => None,
        }
    }
}

} // verus!
