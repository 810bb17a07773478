//! Small verified building blocks: byte-vector equality, decimal
//! formatting and parsing, and little-endian byte encodings used by
//! storage keys and assertion preimages.

use vstd::prelude::*;

verus! {

use vstd::string::StringSliceAdditionalSpecFns;
use vstd::string::StringExecFns;

/// Compare two byte vectors for (view) equality.
pub fn bytes_eq(a: &Vec<u8>, b: &Vec<u8>) -> (r: bool)
    ensures
        r == (a@ == b@),
{
    if a.len() != b.len() {
        proof {
            assert(a@ != b@);
        }
        return false;
    }
    let n = a.len();
    let mut i: usize = 0;
    while i < n
        invariant
            n == a.len() == b.len(),
            i <= n,
            forall|j: int| 0 <= j < i ==> a@[j] == b@[j],
        decreases n - i,
    {
        if a[i] != b[i] {
            return false;
        }
        i += 1;
    }
    proof {
        assert(a@ =~= b@);
    }
    true
}

/// The character for one decimal digit.
pub open spec fn dec_digit_char(d: int) -> char {
    if d == 0 { '0' }
    else if d == 1 { '1' }
    else if d == 2 { '2' }
    else if d == 3 { '3' }
    else if d == 4 { '4' }
    else if d == 5 { '5' }
    else if d == 6 { '6' }
    else if d == 7 { '7' }
    else if d == 8 { '8' }
    else { '9' }
}

/// Decimal representation of a non-negative integer, most significant
/// digit first, with no leading zeros (a single `'0'` for zero).
pub open spec fn dec_str(x: int) -> Seq<char>
    decreases x,
{
    if x < 10 {
        seq![dec_digit_char(x)]
    } else {
        dec_str(x / 10).push(dec_digit_char(x % 10))
    }
}

/// One decimal digit as a string slice.
fn dec_digit_str(d: u64) -> (r: &'static str)
    requires
        d < 10,
    ensures
        r@ =~= seq![dec_digit_char(d as int)],
{
    proof {
        reveal_strlit("0");
        reveal_strlit("1");
        reveal_strlit("2");
        reveal_strlit("3");
        reveal_strlit("4");
        reveal_strlit("5");
        reveal_strlit("6");
        reveal_strlit("7");
        reveal_strlit("8");
        reveal_strlit("9");
    }
    if d == 0 { "0" }
    else if d == 1 { "1" }
    else if d == 2 { "2" }
    else if d == 3 { "3" }
    else if d == 4 { "4" }
    else if d == 5 { "5" }
    else if d == 6 { "6" }
    else if d == 7 { "7" }
    else if d == 8 { "8" }
    else { "9" }
}

/// Render a number in decimal.
pub fn u64_to_dec_string(x: u64) -> (s: String)
    ensures
        s@ == dec_str(x as int),
    decreases x,
{
    if x < 10 {
        dec_digit_str(x).to_owned()
    } else {
        let mut s = u64_to_dec_string(x / 10);
        s.append(dec_digit_str(x % 10));
        assert(s@ == dec_str(x as int));
        s
    }
}

/// Little-endian byte encoding of a non-negative integer into `n` bytes.
pub open spec fn le_bytes(x: int, n: nat) -> Seq<u8>
    decreases n,
{
    if n == 0 {
        Seq::<u8>::empty()
    } else {
        seq![(x % 256) as u8] + le_bytes(x / 256, (n - 1) as nat)
    }
}

/// Append the 8-byte little-endian encoding of `x` to `out`.
pub fn push_u64_le(out: &mut Vec<u8>, x: u64)
    ensures
        final(out)@ == old(out)@ + le_bytes(x as int, 8),
{
    let mut rem: u64 = x;
    let mut i: usize = 0;
    while i < 8
        invariant
            i <= 8,
            out@ == old(out)@ + le_bytes(x as int, i as nat),
            rem == shr_bytes(x as int, i as nat),
        decreases 8 - i,
    {
        out.push((rem % 256) as u8);
        rem = rem / 256;
        i += 1;
        proof {
            lemma_le_bytes_step(x as int, i as nat);
        }
    }
}

/// Append the 16-byte little-endian encoding of `x` to `out`.
pub fn push_u128_le(out: &mut Vec<u8>, x: u128)
    ensures
        final(out)@ == old(out)@ + le_bytes(x as int, 16),
{
    let mut rem: u128 = x;
    let mut i: usize = 0;
    while i < 16
        invariant
            i <= 16,
            out@ == old(out)@ + le_bytes(x as int, i as nat),
            rem == shr_bytes(x as int, i as nat),
        decreases 16 - i,
    {
        out.push((rem % 256) as u8);
        rem = rem / 256;
        i += 1;
        proof {
            lemma_le_bytes_step(x as int, i as nat);
        }
    }
}

/// `x` shifted right by `n` whole bytes.
pub open spec fn shr_bytes(x: int, n: nat) -> int
    decreases n,
{
    if n == 0 {
        x
    } else {
        shr_bytes(x, (n - 1) as nat) / 256
    }
}

/// Shifting by one more byte equals shifting the quotient.
proof fn lemma_shr_bytes_shift(x: int, k: nat)
    ensures
        shr_bytes(x, (k + 1) as nat) == shr_bytes(x / 256, k),
    decreases k,
{
    assert(shr_bytes(x, (k + 1) as nat) == shr_bytes(x, k) / 256);
    if k == 0 {
        assert(shr_bytes(x, 0) == x);
    } else {
        lemma_shr_bytes_shift(x, (k - 1) as nat);
        assert(shr_bytes(x / 256, k) == shr_bytes(x / 256, (k - 1) as nat) / 256);
    }
}

/// Extending a little-endian encoding by one byte appends the next
/// remainder digit.
proof fn lemma_le_bytes_step(x: int, i: nat)
    requires
        i >= 1,
        x >= 0,
    ensures
        le_bytes(x, i) == le_bytes(x, (i - 1) as nat).push((shr_bytes(x, (i - 1) as nat) % 256) as u8),
    decreases i,
{
    if i == 1 {
        assert(le_bytes(x / 256, 0) =~= Seq::<u8>::empty());
        assert(le_bytes(x, 1) =~= Seq::<u8>::empty().push((x % 256) as u8));
    } else {
        lemma_le_bytes_step(x / 256, (i - 1) as nat);
        lemma_shr_bytes_shift(x, (i - 2) as nat);
        let c = (shr_bytes(x / 256, (i - 2) as nat) % 256) as u8;
        assert(le_bytes(x / 256, (i - 1) as nat) == le_bytes(x / 256, (i - 2) as nat).push(c));
        assert(le_bytes(x, i) =~= le_bytes(x, (i - 1) as nat).push(c));
    }
}

/// Whether a byte is an ASCII decimal digit.
pub open spec fn is_dec_byte(b: u8) -> bool {
    48 <= b <= 57
}

/// Numeric value of an ASCII decimal digit byte.
pub open spec fn dec_byte_val(b: u8) -> int {
    b - 48
}

/// Value of a sequence of ASCII digit bytes read as a decimal number.
pub open spec fn dec_bytes_val(bs: Seq<u8>) -> int
    decreases bs.len(),
{
    if bs.len() == 0 {
        0
    } else {
        dec_bytes_val(bs.drop_last()) * 10 + dec_byte_val(bs.last())
    }
}

/// The digit run of a decimal integer text: everything after the
/// optional leading sign.
pub open spec fn int_text_digits(bs: Seq<u8>) -> Seq<u8> {
    if bs.len() > 0 && (bs[0] == 43 || bs[0] == 45) {
        bs.drop_first()
    } else {
        bs
    }
}

/// Whether a byte string is a well-formed decimal integer as accepted
/// by the standard library's integer parser: an optional sign followed
/// by at least one digit.
pub open spec fn is_int_text(bs: Seq<u8>) -> bool {
    &&& bs.len() > 0
    &&& int_text_digits(bs).len() > 0
    &&& forall|i: int|
        0 <= i < int_text_digits(bs).len() ==> is_dec_byte(#[trigger] int_text_digits(bs)[i])
}

/// The signed value that a well-formed decimal integer text denotes.
pub open spec fn int_text_val(bs: Seq<u8>) -> int {
    if bs.len() > 0 && bs[0] == 45 {
        -dec_bytes_val(int_text_digits(bs))
    } else {
        dec_bytes_val(int_text_digits(bs))
    }
}

/// Whether a value fits in a signed 128-bit integer.
pub open spec fn fits_i128(v: int) -> bool {
    -170141183460469231731687303715884105728 <= v <= 170141183460469231731687303715884105727
}

/// Parse a signed 128-bit integer from a string, accepting exactly the
/// strings the standard parser accepts: an optional `+`/`-` sign, then
/// one or more ASCII digits, with the value in range.
pub fn parse_i128(s: &str) -> (r: Option<i128>)
    ensures
        r is Some <==> is_int_text(s.spec_bytes()) && fits_i128(int_text_val(s.spec_bytes())),
        r is Some ==> r->0 == int_text_val(s.spec_bytes()),
{
    let bs = s.as_bytes();
    let n = bs.len();
    if n == 0 {
        return None;
    }
    let (negative, start): (bool, usize) = if bs[0] == 45 {
        (true, 1)
    } else if bs[0] == 43 {
        (false, 1)
    } else {
        (false, 0)
    };
    if start >= n {
        return None;
    }
    let ghost digits = int_text_digits(s.spec_bytes());
    proof {
        assert(digits.len() == n - start);
        assert(forall|j: int| 0 <= j < digits.len() ==> digits[j] == s.spec_bytes()[j + start]);
    }
    let mut acc: u128 = 0;
    let mut i: usize = start;
    // Accumulate the magnitude, bounding it so that the final signed
    // value is representable.
    let bound: u128 = if negative { 170141183460469231731687303715884105728 } else {
        170141183460469231731687303715884105727
    };
    while i < n
        invariant
            start <= i <= n,
            start < n,
            bs@ == s.spec_bytes(),
            n == s.spec_bytes().len(),
            negative <==> s.spec_bytes()[0] == 45,
            digits == int_text_digits(s.spec_bytes()),
            digits.len() == n - start,
            forall|j: int| 0 <= j < digits.len() ==> digits[j] == s.spec_bytes()[j + start],
            forall|j: int| 0 <= j < i - start ==> is_dec_byte(#[trigger] digits[j]),
            acc == dec_bytes_val(digits.take(i - start)),
            acc <= bound,
            bound == (if negative { 170141183460469231731687303715884105728u128 } else {
                170141183460469231731687303715884105727u128
            }),
        decreases n - i,
    {
        let b = bs[i];
        if b < 48 || b > 57 {
            proof {
                assert(!is_dec_byte(digits[i - start]));
            }
            return None;
        }
        let d = (b - 48) as u128;
        proof {
            assert(digits.take(i - start + 1).drop_last() =~= digits.take(i - start));
            assert(digits.take(i - start + 1).last() == digits[i - start]);
            assert(dec_bytes_val(digits.take(i - start + 1)) == acc * 10 + d);
        }
        // acc * 10 + d must stay within the magnitude bound.
        if acc > (bound - d) / 10 {
            proof {
                assert(acc * 10 + d > bound) by (nonlinear_arith)
                    requires
                        acc > (bound - d) / 10,
                        0 <= d <= 9,
                        acc >= 0,
                        bound >= 9,
                ;
                if is_int_text(s.spec_bytes()) {
                    lemma_dec_prefix_grows(digits, i - start + 1, digits.len() as int);
                    assert(digits.take(digits.len() as int) =~= digits);
                    assert(dec_bytes_val(digits) > bound);
                    if negative {
                        assert(int_text_val(s.spec_bytes()) == -dec_bytes_val(digits));
                    } else {
                        assert(int_text_val(s.spec_bytes()) == dec_bytes_val(digits));
                    }
                    assert(!fits_i128(int_text_val(s.spec_bytes())));
                }
            }
            return None;
        }
        proof {
            assert(acc * 10 + d <= bound) by (nonlinear_arith)
                requires
                    acc <= (bound - d) / 10,
                    0 <= d <= 9,
                    acc >= 0,
                    bound >= 9,
            ;
        }
        acc = acc * 10 + d;
        i += 1;
    }
    proof {
        assert(digits.take((n - start) as int) =~= digits);
        assert(is_int_text(s.spec_bytes()));
        assert(dec_bytes_val(digits) == acc);
        if negative {
            assert(int_text_val(s.spec_bytes()) == -(acc as int));
        } else {
            assert(int_text_val(s.spec_bytes()) == acc as int);
        }
    }
    if negative {
        if acc == 170141183460469231731687303715884105728 {
            Some(-170141183460469231731687303715884105727i128 - 1)
        } else {
            Some(-(acc as i128))
        }
    } else {
        Some(acc as i128)
    }
}

/// An unsigned integer text denotes a non-negative value.
pub proof fn lemma_int_text_val_nonneg(bs: Seq<u8>)
    requires
        is_int_text(bs),
        bs[0] != 45,
    ensures
        int_text_val(bs) >= 0,
{
    let digits = int_text_digits(bs);
    lemma_dec_val_nonneg(digits, digits.len() as int);
    assert(digits.take(digits.len() as int) =~= digits);
}

/// The value of a digit string is non-negative.
proof fn lemma_dec_val_nonneg(digits: Seq<u8>, k: int)
    requires
        0 <= k <= digits.len(),
        forall|i: int| 0 <= i < k ==> is_dec_byte(#[trigger] digits[i]),
    ensures
        dec_bytes_val(digits.take(k)) >= 0,
    decreases k,
{
    if k > 0 {
        lemma_dec_val_nonneg(digits, k - 1);
        assert(digits.take(k).drop_last() =~= digits.take(k - 1));
        assert(digits.take(k).last() == digits[k - 1]);
    }
}

/// A longer digit prefix denotes a value at least as large.
proof fn lemma_dec_prefix_grows(digits: Seq<u8>, a: int, b: int)
    requires
        0 <= a <= b <= digits.len(),
        forall|i: int| 0 <= i < b ==> is_dec_byte(#[trigger] digits[i]),
    ensures
        dec_bytes_val(digits.take(a)) <= dec_bytes_val(digits.take(b)),
        dec_bytes_val(digits.take(b)) >= 0,
    decreases b - a,
{
    lemma_dec_val_nonneg(digits, b);
    if a < b {
        lemma_dec_prefix_grows(digits, a, b - 1);
        assert(digits.take(b).drop_last() =~= digits.take(b - 1));
        assert(digits.take(b).last() == digits[b - 1]);
        let v = dec_bytes_val(digits.take(b - 1));
        assert(dec_bytes_val(digits.take(b)) == v * 10 + dec_byte_val(digits[b - 1]));
        assert(v <= v * 10);
    }
}

} // verus!


verus! {

/// Append every byte of `src` to `out`.
pub fn push_bytes(out: &mut Vec<u8>, src: &Vec<u8>)
    ensures
        final(out)@ == old(out)@ + src@,
{
    let n = src.len();
    let mut i: usize = 0;
    while i < n
        invariant
            i <= n,
            n == src@.len(),
            out@ == old(out)@ + src@.take(i as int),
        decreases n - i,
    {
        out.push(src[i]);
        proof {
            assert(old(out)@ + src@.take(i + 1) =~= (old(out)@ + src@.take(i as int)).push(
                src@[i as int],
            ));
        }
        i += 1;
    }
    proof {
        assert(src@.take(n as int) =~= src@);
    }
}

/// Append the UTF-8 bytes of `src` to `out`.
pub fn push_str_bytes(out: &mut Vec<u8>, src: &str)
    ensures
        final(out)@ == old(out)@ + src.spec_bytes(),
{
    let bs = src.as_bytes();
    let n = bs.len();
    let mut i: usize = 0;
    while i < n
        invariant
            i <= n,
            bs@ == src.spec_bytes(),
            n == bs@.len(),
            out@ == old(out)@ + bs@.take(i as int),
        decreases n - i,
    {
        out.push(bs[i]);
        proof {
            assert(old(out)@ + bs@.take(i + 1) =~= (old(out)@ + bs@.take(i as int)).push(
                bs@[i as int],
            ));
        }
        i += 1;
    }
    proof {
        assert(bs@.take(n as int) =~= bs@);
    }
}

} // verus!
