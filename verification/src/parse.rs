//! Reading numbers: the decimal numbers of counter files and of the command
//! line, as bytes.

use vstd::prelude::*;
use vstd::string::StringSliceAdditionalSpecFns;

verus! {

/// ASCII white space: blank, tab, line feed, vertical tab, form feed,
/// carriage return.
pub open spec fn is_space(b: u8) -> bool {
    b == 32 || (9 <= b && b <= 13)
}

/// An ASCII digit.
pub open spec fn is_digit(b: u8) -> bool {
    48 <= b && b <= 57
}

/// Every byte is a digit.
pub open spec fn all_digits(bytes: Seq<u8>) -> bool {
    forall|i: int| 0 <= i < bytes.len() ==> is_digit(#[trigger] bytes[i])
}

/// The number that a sequence of digits stands for.
pub open spec fn spec_decimal(digits: Seq<u8>) -> nat
    decreases digits.len(),
{
    if digits.len() == 0 {
        0
    } else {
        spec_decimal(digits.drop_last()) * 10 + (digits.last() - 48) as nat
    }
}

/// The number that `bytes` stands for: digits, at least one, with or
/// without a plus sign in front, whose value fits 64 bits. Anything else
/// is no number.
pub open spec fn spec_parse_u64(bytes: Seq<u8>) -> Option<u64> {
    let digits = if bytes.len() > 0 && bytes[0] == 43 {
        bytes.skip(1)
    } else {
        bytes
    };
    if digits.len() > 0 && all_digits(digits) && spec_decimal(digits) <= u64::MAX {
        Some(spec_decimal(digits) as u64)
    } else {
        None
    }
}

/// Where the white space in front of `bytes` ends.
pub open spec fn spec_trim_start(bytes: Seq<u8>) -> int
    decreases bytes.len(),
{
    if bytes.len() == 0 || !is_space(bytes[0]) {
        0
    } else {
        1 + spec_trim_start(bytes.skip(1))
    }
}

/// Where the white space behind `bytes` begins.
pub open spec fn spec_trim_end(bytes: Seq<u8>) -> int
    decreases bytes.len(),
{
    if bytes.len() == 0 || !is_space(bytes.last()) {
        bytes.len() as int
    } else {
        spec_trim_end(bytes.drop_last())
    }
}

/// `bytes` without the white space in front of it and behind it.
pub open spec fn spec_trim(bytes: Seq<u8>) -> Seq<u8> {
    let start = spec_trim_start(bytes);
    let end = spec_trim_end(bytes);
    if start <= end {
        bytes.subrange(start, end)
    } else {
        Seq::empty()
    }
}

/// The front of a number is not greater than the number.
pub proof fn lemma_decimal_grows(digits: Seq<u8>, k: int)
    requires
        0 <= k <= digits.len(),
        all_digits(digits),
    ensures
        spec_decimal(digits.take(k)) <= spec_decimal(digits),
    decreases digits.len() - k,
{
    if k < digits.len() {
        lemma_decimal_grows(digits, k + 1);
        assert(digits.take(k + 1).drop_last() =~= digits.take(k));
        assert(is_digit(digits[k]));
    } else {
        assert(digits.take(k) =~= digits);
    }
}

/// The start of the text proper: the first byte at or behind `from` that
/// is no white space.
proof fn lemma_trim_start_at(bytes: Seq<u8>, i: int)
    requires
        0 <= i <= bytes.len(),
        forall|j: int| 0 <= j < i ==> is_space(#[trigger] bytes[j]),
        i == bytes.len() || !is_space(bytes[i]),
    ensures
        spec_trim_start(bytes) == i,
    decreases i,
{
    if i > 0 {
        assert(is_space(bytes[0]));
        let rest = bytes.skip(1);
        assert forall|j: int| 0 <= j < i - 1 implies is_space(#[trigger] rest[j]) by {
            assert(rest[j] == bytes[j + 1]);
        }
        lemma_trim_start_at(rest, i - 1);
    }
}

proof fn lemma_trim_end_at(bytes: Seq<u8>, i: int)
    requires
        0 <= i <= bytes.len(),
        forall|j: int| i <= j < bytes.len() ==> is_space(#[trigger] bytes[j]),
        i == 0 || !is_space(bytes[i - 1]),
    ensures
        spec_trim_end(bytes) == i,
    decreases bytes.len() - i,
{
    if i < bytes.len() {
        assert(is_space(bytes[bytes.len() - 1]));
        let rest = bytes.drop_last();
        assert forall|j: int| i <= j < rest.len() implies is_space(#[trigger] rest[j]) by {
            assert(rest[j] == bytes[j]);
        }
        lemma_trim_end_at(rest, i);
    }
}

/// Reads the decimal number that the bytes from `from` to `to` stand for.
fn parse_digits(bytes: &[u8], from: usize, to: usize) -> (value: Option<u64>)
    requires
        from <= to <= bytes@.len(),
    ensures
        value == spec_parse_u64(bytes@.subrange(from as int, to as int)),
{
    let ghost text = bytes@.subrange(from as int, to as int);
    let mut i: usize = from;
    if i < to && bytes[i] == 43 {
        assert(text[0] == 43);
        i = i + 1;
    }
    let first: usize = i;
    let ghost digits = bytes@.subrange(first as int, to as int);
    proof {
        if first > from {
            assert(text.skip(1) =~= digits);
        } else {
            assert(text =~= digits);
            if text.len() > 0 {
                assert(text[0] == bytes@[from as int]);
            }
        }
    }
    let ghost goal = if digits.len() > 0 && all_digits(digits) && spec_decimal(digits)
        <= u64::MAX {
        Some(spec_decimal(digits) as u64)
    } else {
        None
    };
    assert(spec_parse_u64(text) == goal);
    if first == to {
        return None;
    }
    let mut value: u64 = 0;
    while i < to
        invariant
            first <= i <= to <= bytes@.len(),
            first < to,
            digits == bytes@.subrange(first as int, to as int),
            text == bytes@.subrange(from as int, to as int),
            spec_parse_u64(text) == goal,
            goal == if digits.len() > 0 && all_digits(digits) && spec_decimal(digits) <= u64::MAX {
                Some(spec_decimal(digits) as u64)
            } else {
                None
            },
            all_digits(digits.take(i - first)),
            value == spec_decimal(digits.take(i - first)),
        decreases to - i,
    {
        let b: u8 = bytes[i];
        proof {
            assert(digits[i - first] == b);
            assert(digits.take(i - first + 1).drop_last() =~= digits.take(i - first));
            assert(digits.take(i - first + 1).last() == b);
        }
        if b < 48 || b > 57 {
            assert(!all_digits(digits));
            return None;
        }
        proof {
            assert forall|j: int| 0 <= j < i - first + 1 implies is_digit(
                #[trigger] digits.take(i - first + 1)[j],
            ) by {
                if j < i - first {
                    assert(digits.take(i - first)[j] == digits.take(i - first + 1)[j]);
                }
            }
        }
        assert(spec_decimal(digits.take(i - first + 1)) == value * 10 + (b - 48));
        let shifted: u64 = match value.checked_mul(10) {
            Some(v) => v,
            None => {
                proof {
                    if all_digits(digits) {
                        lemma_decimal_grows(digits, i - first + 1);
                    }
                }
                return None;
            },
        };
        value = match shifted.checked_add((b - 48) as u64) {
            Some(v) => v,
            None => {
                proof {
                    if all_digits(digits) {
                        lemma_decimal_grows(digits, i - first + 1);
                    }
                }
                return None;
            },
        };
        i = i + 1;
    }
    proof {
        assert(digits.take(to - first) =~= digits);
    }
    Some(value)
}

/// Reads a decimal number.
pub fn parse_u64(text: &str) -> (value: Option<u64>)
    ensures
        value == spec_parse_u64(text.spec_bytes()),
{
    let bytes: &[u8] = text.as_bytes();
    proof {
        assert(bytes@.subrange(0, bytes@.len() as int) =~= bytes@);
    }
    parse_digits(bytes, 0, bytes.len())
}

/// Reads the decimal number that a counter file holds: white space in
/// front of the number and behind it, such as the end of the line, does
/// not count.
pub fn parse_rapl_energy(content: &str) -> (energy: Option<u64>)
    ensures
        energy == spec_parse_u64(spec_trim(content.spec_bytes())),
{
    let bytes: &[u8] = content.as_bytes();
    let n: usize = bytes.len();
    let mut start: usize = 0;
    while start < n && (bytes[start] == 32 || (9 <= bytes[start] && bytes[start] <= 13))
        invariant
            start <= n,
            n == bytes@.len(),
            forall|j: int| 0 <= j < start ==> is_space(#[trigger] bytes@[j]),
        decreases n - start,
    {
        start = start + 1;
    }
    let mut end: usize = n;
    while end > 0 && (bytes[end - 1] == 32 || (9 <= bytes[end - 1] && bytes[end - 1] <= 13))
        invariant
            end <= n,
            n == bytes@.len(),
            forall|j: int| end <= j < n ==> is_space(#[trigger] bytes@[j]),
        decreases end,
    {
        end = end - 1;
    }
    proof {
        lemma_trim_start_at(bytes@, start as int);
        lemma_trim_end_at(bytes@, end as int);
    }
    if start > end {
        proof {
            assert(spec_parse_u64(Seq::<u8>::empty()) is None);
        }
        return None;
    }
    parse_digits(bytes, start, end)
}

} // verus!
