//! Decimal integer tokens of the wire protocol: what counts as an integer
//! parameter, the value such a token denotes, and rendering integers back
//! to decimal bytes.
use vstd::prelude::*;

verus! {

pub const BYTE_MINUS: u8 = 0x2d;

pub const BYTE_PLUS: u8 = 0x2b;

/// Is `b` an ASCII decimal digit?
pub open spec fn is_digit(b: u8) -> bool {
    0x30 <= b <= 0x39
}

/// Numeric value of a digit byte.
pub open spec fn digit_val(b: u8) -> int {
    b - 0x30
}

/// Digit byte for a value in `0..10`.
pub open spec fn digit_byte(d: int) -> u8 {
    (d + 0x30) as u8
}

pub open spec fn all_digits(s: Seq<u8>) -> bool {
    forall|i: int| 0 <= i < s.len() ==> is_digit(#[trigger] s[i])
}

/// Value of a digit string, most significant digit first.
pub open spec fn digits_val(s: Seq<u8>) -> int
    decreases s.len(),
{
    if s.len() == 0 {
        0
    } else {
        digits_val(s.drop_last()) * 10 + digit_val(s.last())
    }
}

/// The token without its optional single leading sign.
pub open spec fn int_token_body(s: Seq<u8>) -> Seq<u8> {
    if s.len() > 0 && (s[0] == BYTE_PLUS || s[0] == BYTE_MINUS) {
        s.drop_first()
    } else {
        s
    }
}

pub open spec fn int_token_negative(s: Seq<u8>) -> bool {
    s.len() > 0 && s[0] == BYTE_MINUS
}

/// The signed value a well-formed integer token denotes.
pub open spec fn int_token_value(s: Seq<u8>) -> int {
    if int_token_negative(s) {
        -digits_val(int_token_body(s))
    } else {
        digits_val(int_token_body(s))
    }
}

/// A token accepted as a 32-bit integer: an optional sign, at least one
/// digit, nothing else, and a value within the `i32` range.
pub open spec fn is_i32_token(s: Seq<u8>) -> bool {
    &&& int_token_body(s).len() > 0
    &&& all_digits(int_token_body(s))
    &&& i32::MIN <= int_token_value(s) <= i32::MAX
}

proof fn lemma_digits_val_nonneg(s: Seq<u8>)
    requires
        all_digits(s),
    ensures
        digits_val(s) >= 0,
    decreases s.len(),
{
    if s.len() > 0 {
        assert(all_digits(s.drop_last()));
        lemma_digits_val_nonneg(s.drop_last());
    }
}

proof fn lemma_digits_val_append(s: Seq<u8>, b: u8)
    ensures
        digits_val(s.push(b)) == digits_val(s) * 10 + digit_val(b),
{
    assert(s.push(b).drop_last() =~= s);
    assert(s.push(b).last() == b);
}

/// Appending digits never shrinks the value of a digit string.
proof fn lemma_digits_val_prefix_le(s: Seq<u8>, i: int)
    requires
        all_digits(s),
        0 <= i <= s.len(),
    ensures
        digits_val(s.subrange(0, i)) <= digits_val(s),
    decreases s.len() - i,
{
    if i < s.len() {
        let p = s.subrange(0, i);
        let q = s.subrange(0, i + 1);
        assert(q =~= p.push(s[i]));
        lemma_digits_val_append(p, s[i]);
        assert(all_digits(p));
        lemma_digits_val_nonneg(p);
        lemma_digits_val_prefix_le(s, i + 1);
        assert(s.subrange(0, s.len() as int) =~= s);
    } else {
        assert(s.subrange(0, i) =~= s);
    }
}

/// Parse a decimal integer token, exactly as the wire protocol reads one:
/// an optional `+` or `-`, then one or more digits, and the value must fit
/// in an `i32`. Anything else yields `None`.
pub fn parse_i32(s: &[u8]) -> (r: Option<i32>)
    ensures
        r is Some <==> is_i32_token(s@),
        r is Some ==> r.unwrap() as int == int_token_value(s@),
{
    let n = s.len();
    let ghost body = int_token_body(s@);
    let start: usize = if n > 0 && (s[0] == BYTE_PLUS || s[0] == BYTE_MINUS) {
        1
    } else {
        0
    };
    assert(body =~= s@.subrange(start as int, n as int));
    if start == n {
        // no digits at all
        assert(body.len() == 0);
        return None;
    }
    let mut mag: u64 = 0;
    let mut too_big: bool = false;
    let mut i: usize = start;
    while i < n
        invariant
            start <= i <= n,
            n == s@.len(),
            body == int_token_body(s@),
            body =~= s@.subrange(start as int, n as int),
            all_digits(s@.subrange(start as int, i as int)),
            !too_big ==> mag as int == digits_val(s@.subrange(start as int, i as int)),
            !too_big ==> mag <= 0x8000_0000,
            too_big ==> digits_val(s@.subrange(start as int, i as int)) > 0x8000_0000,
        decreases n - i,
    {
        let b = s[i];
        if b < 0x30 || b > 0x39 {
            proof {
                let j = i - start;
                assert(0 <= j < body.len());
                assert(body[j] == s@[i as int]);
                assert(!is_digit(body[j]));
                assert(!all_digits(body)) by {
                    if all_digits(body) {
                        assert(is_digit(body[j]));
                    }
                }
            }
            return None;
        }
        let ghost pre = s@.subrange(start as int, i as int);
        let ghost post = s@.subrange(start as int, i + 1 as int);
        proof {
            assert(post =~= pre.push(s@[i as int]));
            lemma_digits_val_append(pre, s@[i as int]);
        }
        if !too_big {
            mag = mag * 10 + ((b - 0x30) as u64);
            if mag > 0x8000_0000 {
                too_big = true;
            }
        } else {
            proof {
                lemma_digits_val_nonneg(post);
            }
        }
        i = i + 1;
    }
    assert(s@.subrange(start as int, n as int) =~= body);
    assert(all_digits(body));
    if too_big {
        // magnitude exceeds every i32, whatever the sign
        assert(!is_i32_token(s@));
        return None;
    }
    assert(mag as int == digits_val(body));
    let negative = n > 0 && s[0] == BYTE_MINUS;
    assert(negative == int_token_negative(s@));
    if negative {
        // -0x8000_0000 is exactly i32::MIN
        let v = -(mag as i64);
        assert(i32::MIN <= v <= i32::MAX);
        Some(v as i32)
    } else {
        if mag > 0x7fff_ffff {
            assert(int_token_value(s@) > i32::MAX);
            return None;
        }
        Some(mag as i32)
    }
}

/// Decimal digits of `n`, most significant first (`"0"` for zero).
pub open spec fn dec_digits(n: nat) -> Seq<u8>
    decreases n,
{
    if n < 10 {
        seq![digit_byte(n as int)]
    } else {
        dec_digits(n / 10) + seq![digit_byte((n % 10) as int)]
    }
}

/// Decimal rendering of a signed value: a leading `-` for negatives.
pub open spec fn dec_int(v: int) -> Seq<u8> {
    if v < 0 {
        seq![BYTE_MINUS] + dec_digits((-v) as nat)
    } else {
        dec_digits(v as nat)
    }
}

/// Render an unsigned value in decimal.
pub fn fmt_u64(n: u64) -> (r: Vec<u8>)
    ensures
        r@ == dec_digits(n as nat),
{
    let mut rev: Vec<u8> = Vec::new();
    let mut m: u64 = n;
    loop
        invariant_except_break
            dec_digits(n as nat) =~= dec_digits(m as nat) + rev@.reverse(),
        ensures
            dec_digits(n as nat) =~= rev@.reverse(),
        decreases m,
    {
        let d = (m % 10) as u8;
        let ghost old_rev = rev@;
        let ghost old_m = m;
        rev.push(d + 0x30);
        m = m / 10;
        proof {
            assert(rev@.reverse() =~= seq![digit_byte((old_m % 10) as int)] + old_rev.reverse());
            if m > 0 {
                assert(dec_digits(old_m as nat) == dec_digits(old_m as nat / 10) + seq![
                    digit_byte((old_m % 10) as int),
                ]);
                assert(dec_digits(m as nat) + rev@.reverse() =~= dec_digits(old_m as nat)
                    + old_rev.reverse());
            } else {
                assert(old_m < 10);
                assert(dec_digits(old_m as nat) =~= seq![digit_byte((old_m % 10) as int)]);
            }
        }
        if m == 0 {
            assert(dec_digits(n as nat) =~= rev@.reverse());
            break ;
        }
    }
    let mut r: Vec<u8> = Vec::new();
    while rev.len() > 0
        invariant
            dec_digits(n as nat) =~= r@ + rev@.reverse(),
        decreases rev@.len(),
    {
        let ghost old_rev = rev@;
        let b = rev.pop().unwrap();
        r.push(b);
        proof {
            assert(old_rev.reverse()[0] == b);
            assert(rev@.reverse() =~= old_rev.reverse().drop_first());
        }
    }
    assert(r@ =~= dec_digits(n as nat));
    r
}

/// Render a signed value in decimal.
pub fn fmt_i32(v: i32) -> (r: Vec<u8>)
    ensures
        r@ == dec_int(v as int),
{
    if v >= 0 {
        fmt_u64(v as u64)
    } else {
        let mag = (-(v as i64)) as u64;
        let digits = fmt_u64(mag);
        let mut r: Vec<u8> = Vec::new();
        r.push(BYTE_MINUS);
        let mut j: usize = 0;
        while j < digits.len()
            invariant
                0 <= j <= digits@.len(),
                digits@ == dec_digits(mag as nat),
                r@ =~= seq![BYTE_MINUS] + digits@.subrange(0, j as int),
            decreases digits@.len() - j,
        {
            r.push(digits[j]);
            assert(digits@.subrange(0, j + 1 as int) =~= digits@.subrange(0, j as int).push(
                digits@[j as int],
            ));
            j = j + 1;
        }
        assert(digits@.subrange(0, digits@.len() as int) =~= digits@);
        assert(r@ =~= dec_int(v as int));
        r
    }
}

} // verus!
