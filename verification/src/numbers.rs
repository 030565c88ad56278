//! Parsing of unsigned decimal identifiers.

use vstd::prelude::*;

verus! {

/// `+`
pub const PLUS: u8 = 43;

/// An ASCII decimal digit.
pub open spec fn is_digit(b: u8) -> bool {
    48 <= b <= 57
}

/// Every byte of the sequence is a digit.
pub open spec fn all_digits(s: Seq<u8>) -> bool {
    forall|i: int| 0 <= i < s.len() ==> is_digit(s[i])
}

/// The number the digit string denotes.
pub open spec fn digits_val(s: Seq<u8>) -> nat
    recommends
        all_digits(s),
    decreases s.len(),
{
    if s.len() == 0 {
        0
    } else {
        digits_val(s.drop_last()) * 10 + (s.last() - 48) as nat
    }
}

/// The digit part of the text: everything after an optional leading `+`.
pub open spec fn digits_of(s: Seq<u8>) -> Seq<u8> {
    if s.len() > 0 && s[0] == PLUS {
        s.drop_first()
    } else {
        s
    }
}

/// The text denotes an unsigned 64-bit integer: an optional `+`, then
/// one or more digits, whose value fits in 64 bits.
pub open spec fn valid_u64_text(s: Seq<u8>) -> bool {
    let d = digits_of(s);
    &&& d.len() > 0
    &&& all_digits(d)
    &&& digits_val(d) <= u64::MAX
}

/// The value the text denotes.
pub open spec fn u64_of_text(s: Seq<u8>) -> nat {
    digits_val(digits_of(s))
}

/// A prefix of a digit string never exceeds the whole string's value.
proof fn lemma_digits_prefix_le(d: Seq<u8>, i: int)
    requires
        0 <= i <= d.len(),
        all_digits(d),
    ensures
        digits_val(d.take(i)) <= digits_val(d),
    decreases d.len() - i,
{
    if i == d.len() {
        assert(d.take(i) =~= d);
    } else {
        lemma_digits_prefix_le(d, i + 1);
        assert(d.take(i + 1).drop_last() =~= d.take(i));
        assert(digits_val(d.take(i + 1)) == digits_val(d.take(i)) * 10 + (d[i] - 48) as nat);
    }
}

/// Parse the text as an unsigned 64-bit integer; `None` exactly when
/// the text does not denote one.
pub fn parse_u64(s: &Vec<u8>) -> (r: Option<u64>)
    ensures
        match r {
            Some(v) => valid_u64_text(s@) && v as nat == u64_of_text(s@),
            None => !valid_u64_text(s@),
        },
{
    let ghost d = digits_of(s@);
    let start: usize = if s.len() > 0 && s[0] == PLUS {
        1
    } else {
        0
    };
    proof {
        assert(d =~= s@.subrange(start as int, s@.len() as int));
    }
    if s.len() == start {
        return None;
    }
    let mut acc: u64 = 0;
    let mut i: usize = start;
    while i < s.len()
        invariant
            start <= i <= s@.len(),
            d == digits_of(s@),
            d == s@.subrange(start as int, s@.len() as int),
            all_digits(d.take(i - start)),
            acc as nat == digits_val(d.take(i - start)),
        decreases s@.len() - i,
    {
        let b = s[i];
        if b < 48 || b > 57 {
            proof {
                assert(d[i - start] == b);
                assert(!all_digits(d)) by {
                    if all_digits(d) {
                        assert(is_digit(d[i - start]));
                        assert(false);
                    }
                }
            }
            return None;
        }
        let dig = (b - 48) as u64;
        if acc > (u64::MAX - dig) / 10 {
            proof {
                assert(d[i - start] == b);
                assert(d.take(i - start + 1).drop_last() =~= d.take(i - start));
                assert(d.take(i - start + 1).last() == b);
                assert(digits_val(d.take(i - start + 1)) == acc as nat * 10 + dig as nat);
                assert(acc as nat * 10 + dig as nat > u64::MAX) by (nonlinear_arith)
                    requires
                        acc > (u64::MAX - dig) / 10,
                        dig <= 9,
                        acc <= u64::MAX,
                ;
                if all_digits(d) {
                    lemma_digits_prefix_le(d, i - start + 1);
                    assert(digits_val(d) > u64::MAX);
                    assert(!valid_u64_text(s@));
                } else {
                    assert(!valid_u64_text(s@));
                }
            }
            return None;
        }
        proof {
            assert(acc * 10 + dig <= u64::MAX) by (nonlinear_arith)
                requires
                    acc <= (u64::MAX - dig) / 10,
                    dig <= 9,
            ;
            assert(d.take(i - start + 1).drop_last() =~= d.take(i - start));
        }
        acc = acc * 10 + dig;
        i += 1;
    }
    proof {
        assert(d.take(i - start) =~= d);
    }
    Some(acc)
}

} // verus!
