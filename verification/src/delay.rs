//! Parsing a delay value: a decimal number of milliseconds with an optional
//! sign and at most one fractional point. The value is truncated toward
//! zero (a negative delay is zero) and saturates at `u64::MAX`.

use vstd::prelude::*;

verus! {

/// A decimal digit.
pub open spec fn is_digit(c: char) -> bool {
    '0' <= c && c <= '9'
}

/// A digit's numeric value.
pub open spec fn digit_val(c: char) -> int {
    c as int - '0' as int
}

/// The input after an optional leading sign.
pub open spec fn delay_body(s: Seq<char>) -> Seq<char> {
    if s.len() > 0 && (s[0] == '+' || s[0] == '-') {
        s.drop_first()
    } else {
        s
    }
}

/// Whether the input denotes a negative number.
pub open spec fn is_neg(s: Seq<char>) -> bool {
    s.len() > 0 && s[0] == '-'
}

/// A well-formed delay: after the sign, only digits and at most one point,
/// with at least one digit.
pub open spec fn valid_delay(s: Seq<char>) -> bool {
    let b = delay_body(s);
    &&& forall|i: int| 0 <= i < b.len() ==> (is_digit(b[i]) || b[i] == '.')
    &&& forall|i: int, j: int|
        0 <= i < b.len() && 0 <= j < b.len() && b[i] == '.' && b[j] == '.' ==> i == j
    &&& exists|i: int| 0 <= i < b.len() && is_digit(b[i])
}

/// The digits before the point (or all of them, without a point).
pub open spec fn int_prefix(b: Seq<char>) -> Seq<char>
    decreases b.len(),
{
    if b.len() == 0 {
        b
    } else if b[0] == '.' {
        Seq::<char>::empty()
    } else {
        seq![b[0]] + int_prefix(b.drop_first())
    }
}

/// The number the digits denote, most significant first.
pub open spec fn digits_val(ds: Seq<char>) -> int
    decreases ds.len(),
{
    if ds.len() == 0 {
        0
    } else {
        digits_val(ds.drop_last()) * 10 + digit_val(ds.last())
    }
}

/// The milliseconds a well-formed delay denotes: zero when negative, else
/// the whole part, saturated at `u64::MAX`.
pub open spec fn spec_delay_value(s: Seq<char>) -> u64 {
    if is_neg(s) {
        0u64
    } else if digits_val(int_prefix(delay_body(s))) > u64::MAX {
        u64::MAX
    } else {
        digits_val(int_prefix(delay_body(s))) as u64
    }
}

/// What `parse_delay` returns: the denoted milliseconds of a well-formed
/// delay, nothing otherwise.
pub open spec fn spec_parse_delay(s: Seq<char>) -> Option<u64> {
    if valid_delay(s) {
        Some(spec_delay_value(s))
    } else {
        None
    }
}

/// Without a point, the whole input is the whole part.
proof fn lemma_int_prefix_no_dot(b: Seq<char>)
    requires
        forall|k: int| 0 <= k < b.len() ==> b[k] != '.',
    ensures
        int_prefix(b) == b,
    decreases b.len(),
{
    if b.len() > 0 {
        lemma_int_prefix_no_dot(b.drop_first());
        assert(seq![b[0]] + b.drop_first() =~= b);
    } else {
        assert(int_prefix(b) =~= b);
    }
}

/// With a first point at `d`, the whole part is what precedes it.
proof fn lemma_int_prefix_dot(b: Seq<char>, d: int)
    requires
        0 <= d < b.len(),
        b[d] == '.',
        forall|k: int| 0 <= k < d ==> b[k] != '.',
    ensures
        int_prefix(b) == b.take(d),
    decreases d,
{
    if d == 0 {
        assert(int_prefix(b) =~= b.take(0));
    } else {
        lemma_int_prefix_dot(b.drop_first(), d - 1);
        assert(b.drop_first()[d - 1] == '.');
        assert(seq![b[0]] + b.drop_first().take(d - 1) =~= b.take(d));
    }
}

/// Parses a (trimmed) delay payload.
pub fn parse_delay(s: &str) -> (r: Option<u64>)
    ensures
        r == spec_parse_delay(s@),
{
    let n = s.unicode_len();
    let mut start: usize = 0;
    let mut neg = false;
    if n > 0 {
        let c0 = s.get_char(0);
        if c0 == '+' || c0 == '-' {
            start = 1;
            neg = c0 == '-';
        }
    }
    let ghost b = delay_body(s@);
    proof {
        assert(b =~= s@.subrange(start as int, n as int));
        assert(neg == is_neg(s@));
    }
    let mut acc: u64 = 0;
    let mut seen_digit = false;
    let mut seen_dot = false;
    let ghost mut dpos: int = 0;
    let mut i: usize = start;
    while i < n
        invariant
            start <= i <= n,
            n == s@.len(),
            b == s@.subrange(start as int, n as int),
            b == delay_body(s@),
            neg == is_neg(s@),
            forall|k: int| 0 <= k < i - start ==> (is_digit(b[k]) || b[k] == '.'),
            forall|k: int, l: int|
                0 <= k < i - start && 0 <= l < i - start && b[k] == '.' && b[l] == '.' ==> k == l,
            seen_digit <==> exists|k: int| 0 <= k < i - start && is_digit(b[k]),
            seen_dot <==> exists|k: int| 0 <= k < i - start && b[k] == '.',
            seen_dot ==> 0 <= dpos < i - start && b[dpos] == '.' && (forall|k: int|
                0 <= k < dpos ==> b[k] != '.') && int_prefix(b) == b.take(dpos),
            ({
                let ds = if seen_dot {
                    int_prefix(b)
                } else {
                    b.take(i - start)
                };
                (digits_val(ds) <= u64::MAX && acc == digits_val(ds)) || (digits_val(ds)
                    > u64::MAX && acc == u64::MAX)
            }),
        decreases n - i,
    {
        let c = s.get_char(i);
        let ghost j = i - start;
        proof {
            assert(b[j] == s@[i as int]);
        }
        if c >= '0' && c <= '9' {
            seen_digit = true;
            if !seen_dot {
                let d: u64 = (c as u8 - 48) as u64;
                proof {
                    assert(d == digit_val(c));
                    assert(b.take(j + 1) =~= b.take(j).push(c));
                    assert(b.take(j + 1).drop_last() =~= b.take(j));
                    let old_v = digits_val(b.take(j));
                    assert(digits_val(b.take(j + 1)) == old_v * 10 + digit_val(c));
                }
                if acc > (u64::MAX - d) / 10 {
                    proof {
                        let old_v = digits_val(b.take(j));
                        if old_v <= u64::MAX {
                            assert(acc == old_v);
                            assert(acc * 10 + d > u64::MAX);
                        } else {
                            assert(acc == u64::MAX);
                            assert(old_v * 10 + digit_val(c) > u64::MAX);
                        }
                        assert(digits_val(b.take(j + 1)) > u64::MAX);
                    }
                    acc = u64::MAX;
                } else {
                    proof {
                        let old_v = digits_val(b.take(j));
                        assert(acc <= (u64::MAX - d) / 10);
                        assert(acc * 10 <= u64::MAX - d);
                        if old_v > u64::MAX {
                            assert(acc == u64::MAX);
                            assert(false);
                        }
                    }
                    acc = acc * 10 + d;
                }
            } else {
                proof {
                    assert(int_prefix(b) == b.take(dpos));
                }
            }
        } else if c == '.' {
            if seen_dot {
                proof {
                    assert(b.len() == n - start);
                    assert(b[dpos] == '.' && b[j] == '.' && dpos < j && j < b.len());
                    assert(!valid_delay(s@)) by {
                        if valid_delay(s@) {
                            assert(delay_body(s@)[dpos] == '.' && delay_body(s@)[j] == '.');
                            assert(dpos == j);
                        }
                    }
                }
                return None;
            }
            seen_dot = true;
            proof {
                dpos = j;
                lemma_int_prefix_dot(b, j);
            }
        } else {
            proof {
                assert(b.len() == n - start);
                assert(!(is_digit(b[j]) || b[j] == '.') && 0 <= j < b.len());
                assert(!valid_delay(s@)) by {
                    if valid_delay(s@) {
                        assert(is_digit(delay_body(s@)[j]) || delay_body(s@)[j] == '.');
                        assert(is_digit(b[j]) || b[j] == '.');
                    }
                }
            }
            return None;
        }
        i += 1;
    }
    if !seen_digit {
        proof {
            assert(b.len() == n - start);
            assert(!valid_delay(s@)) by {
                if valid_delay(s@) {
                    let bb = delay_body(s@);
                    let k = choose|k: int| 0 <= k < bb.len() && is_digit(bb[k]);
                    assert(0 <= k < n - start && is_digit(b[k]));
                }
            }
        }
        return None;
    }
    proof {
        assert(b.len() == n - start);
        assert(valid_delay(s@));
        if !seen_dot {
            lemma_int_prefix_no_dot(b);
            assert(b.take(n - start) =~= b);
        }
    }
    if neg {
        Some(0)
    } else {
        Some(acc)
    }
}

} // verus!
