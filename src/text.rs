//! Digits, hexadecimal and decimal rendering, and the outside calls that
//! produce digests and timestamps.

use vstd::prelude::*;
use sha2::Digest;

verus! {

/// The lowercase hexadecimal digit of a value below sixteen.
pub open spec fn hex_char(d: nat) -> char {
    if d == 0 { '0' } else if d == 1 { '1' } else if d == 2 { '2' } else if d == 3 { '3' }
    else if d == 4 { '4' } else if d == 5 { '5' } else if d == 6 { '6' } else if d == 7 { '7' }
    else if d == 8 { '8' } else if d == 9 { '9' } else if d == 10 { 'a' } else if d == 11 { 'b' }
    else if d == 12 { 'c' } else if d == 13 { 'd' } else if d == 14 { 'e' } else { 'f' }
}

/// The value of a lowercase hexadecimal digit, `None` for any other character.
pub open spec fn digit_val(c: char) -> Option<nat> {
    if c == '0' { Some(0) } else if c == '1' { Some(1) } else if c == '2' { Some(2) }
    else if c == '3' { Some(3) } else if c == '4' { Some(4) } else if c == '5' { Some(5) }
    else if c == '6' { Some(6) } else if c == '7' { Some(7) } else if c == '8' { Some(8) }
    else if c == '9' { Some(9) } else if c == 'a' { Some(10) } else if c == 'b' { Some(11) }
    else if c == 'c' { Some(12) } else if c == 'd' { Some(13) } else if c == 'e' { Some(14) }
    else if c == 'f' { Some(15) } else { None }
}

/// Sixteen to the power `w`.
pub open spec fn pow16(w: nat) -> nat
    decreases w,
{
    if w == 0 { 1 } else { 16 * pow16((w - 1) as nat) }
}

/// `n` written with exactly `w` hexadecimal digits, most significant first
/// (the digits above `w` are dropped).
pub open spec fn pad_hex(n: nat, w: nat) -> Seq<char>
    decreases w,
{
    if w == 0 {
        seq![]
    } else {
        pad_hex(n / 16, (w - 1) as nat).push(hex_char(n % 16))
    }
}

/// The number that a string of hexadecimal digits denotes; `None` if a
/// character is not a lowercase hexadecimal digit.
pub open spec fn hex_value(s: Seq<char>) -> Option<nat>
    decreases s.len(),
{
    if s.len() == 0 {
        Some(0)
    } else {
        match (hex_value(s.drop_last()), digit_val(s.last())) {
            (Some(v), Some(d)) => Some(v * 16 + d),
            _ => None,
        }
    }
}

/// `n` in decimal, without leading zeros.
pub open spec fn decimal(n: nat) -> Seq<char>
    decreases n,
{
    if n < 10 {
        seq![hex_char(n)]
    } else {
        decimal(n / 10).push(hex_char(n % 10))
    }
}

/// Two lowercase hexadecimal digits per byte, in order.
pub open spec fn hex_of_bytes(b: Seq<u8>) -> Seq<char>
    decreases b.len(),
{
    if b.len() == 0 {
        seq![]
    } else {
        hex_of_bytes(b.drop_last()) + pad_hex(b.last() as nat, 2)
    }
}

pub proof fn lemma_pow16_mono(i: nat, j: nat)
    requires
        i <= j,
    ensures
        pow16(i) <= pow16(j),
    decreases j - i,
{
    if i < j {
        lemma_pow16_mono(i, (j - 1) as nat);
    }
}

pub proof fn lemma_pow16_16()
    ensures
        pow16(16) == 0x1_0000_0000_0000_0000,
{
    reveal_with_fuel(pow16, 17);
}

/// Reading back `w` digits written from a number below `16^w` gives that number.
pub proof fn lemma_hex_round_trip(n: nat, w: nat)
    requires
        n < pow16(w),
    ensures
        hex_value(pad_hex(n, w)) == Some(n),
    decreases w,
{
    if w > 0 {
        let p = pow16((w - 1) as nat);
        assert(n / 16 < p) by (nonlinear_arith)
            requires n < 16 * p;
        lemma_hex_round_trip(n / 16, (w - 1) as nat);
        let s = pad_hex(n, w);
        assert(s.drop_last() =~= pad_hex(n / 16, (w - 1) as nat));
        assert(n == (n / 16) * 16 + n % 16) by (nonlinear_arith);
    }
}

/// Appends the hexadecimal digit of `d`.
pub fn push_digit(s: &mut String, d: u64)
    requires
        d < 16,
    ensures
        final(s)@ == old(s)@.push(hex_char(d as nat)),
{
    let t: &str = if d == 0 { proof { reveal_strlit("0"); } "0" }
        else if d == 1 { proof { reveal_strlit("1"); } "1" }
        else if d == 2 { proof { reveal_strlit("2"); } "2" }
        else if d == 3 { proof { reveal_strlit("3"); } "3" }
        else if d == 4 { proof { reveal_strlit("4"); } "4" }
        else if d == 5 { proof { reveal_strlit("5"); } "5" }
        else if d == 6 { proof { reveal_strlit("6"); } "6" }
        else if d == 7 { proof { reveal_strlit("7"); } "7" }
        else if d == 8 { proof { reveal_strlit("8"); } "8" }
        else if d == 9 { proof { reveal_strlit("9"); } "9" }
        else if d == 10 { proof { reveal_strlit("a"); } "a" }
        else if d == 11 { proof { reveal_strlit("b"); } "b" }
        else if d == 12 { proof { reveal_strlit("c"); } "c" }
        else if d == 13 { proof { reveal_strlit("d"); } "d" }
        else if d == 14 { proof { reveal_strlit("e"); } "e" }
        else { proof { reveal_strlit("f"); } "f" };
    s.append(t);
    assert(s@ =~= old(s)@.push(hex_char(d as nat)));
}

/// Appends `n` as exactly `w` hexadecimal digits.
pub fn push_hex(s: &mut String, n: u64, w: usize)
    ensures
        final(s)@ == old(s)@ + pad_hex(n as nat, w as nat),
    decreases w,
{
    if w == 0 {
        assert(s@ =~= old(s)@ + pad_hex(n as nat, w as nat));
    } else {
        push_hex(s, n / 16, w - 1);
        push_digit(s, n % 16);
        assert(s@ =~= old(s)@ + pad_hex(n as nat, w as nat));
    }
}

/// Appends `n` in decimal.
pub fn push_decimal(s: &mut String, n: u64)
    ensures
        final(s)@ == old(s)@ + decimal(n as nat),
    decreases n,
{
    if n >= 10 {
        push_decimal(s, n / 10);
    }
    push_digit(s, n % 10);
    assert(s@ =~= old(s)@ + decimal(n as nat));
}

/// The value of a lowercase hexadecimal digit.
pub fn digit_value(c: char) -> (r: Option<u64>)
    ensures
        r matches Some(v) ==> digit_val(c) == Some(v as nat),
        r is None ==> digit_val(c) is None,
{
    if c == '0' { Some(0) } else if c == '1' { Some(1) } else if c == '2' { Some(2) }
    else if c == '3' { Some(3) } else if c == '4' { Some(4) } else if c == '5' { Some(5) }
    else if c == '6' { Some(6) } else if c == '7' { Some(7) } else if c == '8' { Some(8) }
    else if c == '9' { Some(9) } else if c == 'a' { Some(10) } else if c == 'b' { Some(11) }
    else if c == 'c' { Some(12) } else if c == 'd' { Some(13) } else if c == 'e' { Some(14) }
    else if c == 'f' { Some(15) } else { None }
}

/// Reads sixteen lowercase hexadecimal digits as a `u64`; `None` for text of
/// another length or with another character.
pub fn parse_hex16(s: &str) -> (r: Option<u64>)
    ensures
        r matches Some(v) ==> s@.len() == 16 && hex_value(s@) == Some(v as nat),
        r is None ==> s@.len() != 16 || hex_value(s@) is None,
{
    let n = s.unicode_len();
    if n != 16 {
        return None;
    }
    let mut v: u64 = 0;
    let mut i: usize = 0;
    proof {
        assert(s@.subrange(0, 0) =~= Seq::<char>::empty());
        lemma_pow16_16();
    }
    while i < 16
        invariant
            n == 16,
            s@.len() == 16,
            0 <= i <= 16,
            hex_value(s@.subrange(0, i as int)) == Some(v as nat),
            (v as nat) < pow16(i as nat),
            pow16(16) == 0x1_0000_0000_0000_0000,
        decreases 16 - i,
    {
        let c = s.get_char(i);
        let ghost pre = s@.subrange(0, i as int);
        let ghost next = s@.subrange(0, i + 1);
        assert(next.drop_last() =~= pre);
        assert(next.last() == c);
        match digit_value(c) {
            None => {
                proof { lemma_hex_none_extends(s@, (i + 1) as nat); }
                return None;
            },
            Some(d) => {
                proof {
                    lemma_pow16_mono((i + 1) as nat, 16);
                    let p = pow16(i as nat);
                    assert((v as nat) * 16 + d < 16 * p) by (nonlinear_arith)
                        requires (v as nat) < p, d < 16;
                }
                v = v * 16 + d;
                i = i + 1;
            },
        }
    }
    assert(s@.subrange(0, 16) =~= s@);
    Some(v)
}

/// A prefix that is not all digits leaves the whole text without a value.
proof fn lemma_hex_none_extends(s: Seq<char>, k: nat)
    requires
        k <= s.len(),
        hex_value(s.subrange(0, k as int)) is None,
    ensures
        hex_value(s) is None,
    decreases s.len() - k,
{
    if k < s.len() {
        let next = s.subrange(0, (k + 1) as int);
        assert(next.drop_last() =~= s.subrange(0, k as int));
        lemma_hex_none_extends(s, k + 1);
    } else {
        assert(s.subrange(0, k as int) =~= s);
    }
}

/// Lowercase hexadecimal text of the bytes, two digits each.
pub fn hex_encode(b: &Vec<u8>) -> (r: String)
    ensures
        r@ == hex_of_bytes(b@),
{
    let mut r = String::new();
    let mut i: usize = 0;
    while i < b.len()
        invariant
            0 <= i <= b@.len(),
            r@ == hex_of_bytes(b@.subrange(0, i as int)),
        decreases b@.len() - i,
    {
        proof {
            let next = b@.subrange(0, i + 1);
            assert(next.drop_last() =~= b@.subrange(0, i as int));
        }
        push_hex(&mut r, b[i] as u64, 2);
        i = i + 1;
    }
    assert(b@.subrange(0, b@.len() as int) =~= b@);
    r
}

/// The SHA-256 digest of the UTF-8 encoding of a text.
pub uninterp spec fn sha256_of(text: Seq<char>) -> Seq<u8>;

/// Relies on sha2::Sha256's one-shot `digest`: the SHA-256 digest of the
/// text's UTF-8 bytes, which is 32 bytes long.
#[verifier::external_body]
pub(crate) fn sha256(text: &str) -> (r: Vec<u8>)
    ensures
        r@ == sha256_of(text@),
        r@.len() == 32,
{
    sha2::Sha256::digest(text.as_bytes()).to_vec()
}

/// Relies on chrono's `Utc::now` and `DateTime::to_rfc3339`: the current time
/// as RFC 3339 text. Nothing is promised of its value.
#[verifier::external_body]
pub(crate) fn now_rfc3339() -> (r: String) {
    chrono::Utc::now().to_rfc3339()
}

} // verus!
