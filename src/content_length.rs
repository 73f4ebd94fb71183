use vstd::prelude::*;

verus! {

/// ASCII `0`.
pub const ZERO: u8 = 48;

/// ASCII `9`.
pub const NINE: u8 = 57;

/// ASCII `+`.
pub const PLUS: u8 = 43;

pub open spec fn is_digit(b: u8) -> bool {
    ZERO <= b && b <= NINE
}

/// The number written by a string of decimal digits (0 for the empty string).
pub open spec fn digits_value(s: Seq<u8>) -> nat
    decreases s.len(),
{
    if s.len() == 0 {
        0
    } else {
        digits_value(s.drop_last()) * 10 + (s.last() - ZERO) as nat
    }
}

/// The digits of an unsigned decimal, after an optional leading `+`.
pub open spec fn unsigned_digits(s: Seq<u8>) -> Seq<u8> {
    if s.len() > 0 && s[0] == PLUS {
        s.drop_first()
    } else {
        s
    }
}

/// The value of a `Content-Length` header: the header's bytes read as an
/// unsigned decimal (an optional `+`, then at least one digit) that fits in
/// 64 bits; anything else declares no length.
pub open spec fn content_length_of(s: Seq<u8>) -> Option<u64> {
    let d = unsigned_digits(s);
    if d.len() > 0 && (forall|i: int| 0 <= i < d.len() ==> is_digit(#[trigger] d[i]))
        && digits_value(d) <= u64::MAX {
        Some(digits_value(d) as u64)
    } else {
        None
    }
}

proof fn lemma_prefix_value_bounded(d: Seq<u8>, k: int)
    requires
        0 <= k <= d.len(),
        forall|i: int| 0 <= i < d.len() ==> is_digit(#[trigger] d[i]),
    ensures
        digits_value(d.subrange(0, k)) <= digits_value(d),
    decreases d.len() - k,
{
    if k < d.len() {
        lemma_prefix_value_bounded(d, k + 1);
        let p = d.subrange(0, k + 1);
        assert(p.drop_last() =~= d.subrange(0, k));
    } else {
        assert(d.subrange(0, k) =~= d);
    }
}

/// Reads a `Content-Length` header value.
pub fn parse_content_length(bytes: &[u8]) -> (r: Option<u64>)
    ensures
        r == content_length_of(bytes@),
{
    let n = bytes.len();
    let mut i: usize = 0;
    if n > 0 && bytes[0] == PLUS {
        i = 1;
    }
    let start = i;
    let ghost d = unsigned_digits(bytes@);
    assert(d =~= bytes@.subrange(start as int, n as int));
    if i == n {
        return None;
    }
    let mut value: u64 = 0;
    while i < n
        invariant
            start <= i <= n,
            n == bytes@.len(),
            d == unsigned_digits(bytes@),
            d =~= bytes@.subrange(start as int, n as int),
            forall|j: int| 0 <= j < i - start ==> is_digit(#[trigger] d[j]),
            value as nat == digits_value(d.subrange(0, i - start)),
        decreases n - i,
    {
        let b = bytes[i];
        if !(ZERO <= b && b <= NINE) {
            assert(!is_digit(d[i - start]));
            return None;
        }
        let ghost p = d.subrange(0, i - start + 1);
        assert(p.drop_last() =~= d.subrange(0, i - start));
        match value.checked_mul(10) {
            Some(v10) => match v10.checked_add((b - ZERO) as u64) {
                Some(v) => {
                    value = v;
                },
                None => {
                    proof { lemma_overflow_has_no_length(bytes@, d, i - start + 1) }
                    return None;
                },
            },
            None => {
                proof { lemma_overflow_has_no_length(bytes@, d, i - start + 1) }
                return None;
            },
        }
        i = i + 1;
    }
    assert(d.subrange(0, n - start) =~= d);
    Some(value)
}

/// Once a prefix of the digits is too large, so is the whole number, or a
/// later byte is not a digit: either way no length is declared.
proof fn lemma_overflow_has_no_length(s: Seq<u8>, d: Seq<u8>, k: int)
    requires
        d == unsigned_digits(s),
        0 < k <= d.len(),
        digits_value(d.subrange(0, k)) > u64::MAX,
    ensures
        content_length_of(s) is None,
{
    if forall|i: int| 0 <= i < d.len() ==> is_digit(#[trigger] d[i]) {
        lemma_prefix_value_bounded(d, k);
    }
}

} // verus!
