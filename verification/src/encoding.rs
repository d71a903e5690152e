//! Fixed-width hexadecimal text: the byte-level alphabet the crate uses for
//! identifiers, timestamps and signatures inside tokens, with proofs that
//! parsing inverts formatting.
use vstd::prelude::*;

verus! {

/// The characters that a sequence of ASCII bytes spells, one per byte.
pub open spec fn ascii_chars_of(s: Seq<u8>) -> Seq<char> {
    Seq::new(s.len(), |i: int| s[i] as char)
}

/// A sequence of bytes below 128 spells ASCII characters whose UTF-8
/// encoding is the sequence itself.
pub proof fn lemma_ascii_chars_of_bytes(s: Seq<u8>)
    requires
        forall|i: int| 0 <= i < s.len() ==> s[i] < 128,
    ensures
        vstd::utf8::is_ascii_chars(ascii_chars_of(s)),
        vstd::utf8::encode_utf8(ascii_chars_of(s)) =~= s,
{
    vstd::utf8::is_ascii_chars_encode_utf8(ascii_chars_of(s));
}

/// Relies on `String::from_utf8`: bytes below 128 are valid UTF-8 and decode
/// to exactly one character per byte.
#[verifier::external_body]
pub(crate) fn string_from_ascii(b: Vec<u8>) -> (r: String)
    requires
        forall|i: int| 0 <= i < b@.len() ==> b@[i] < 128,
    ensures
        r@ == ascii_chars_of(b@),
{
    match String::from_utf8(b) {
        Ok(s) => s,
        Err(_) => String::new(),
    }
}

/// 16 to the power `n`.
pub open spec fn pow16(n: nat) -> int
    decreases n,
{
    if n == 0 {
        1
    } else {
        16 * pow16((n - 1) as nat)
    }
}

/// The lower-case hex digit standing for a value below 16, as an ASCII byte.
pub open spec fn spec_hex_digit(v: u8) -> u8 {
    if v < 10 {
        (48 + v) as u8  // '0' to '9'
    } else {
        (87 + v) as u8  // 'a' to 'f'
    }
}

/// The value of an ASCII hex digit byte; upper case is accepted too.
pub open spec fn spec_hex_val(b: u8) -> Option<u8> {
    if 48 <= b <= 57 {
        Some((b - 48) as u8)  // '0' to '9'
    } else if 97 <= b <= 102 {
        Some((b - 87) as u8)  // 'a' to 'f'
    } else if 65 <= b <= 70 {
        Some((b - 55) as u8)  // 'A' to 'F'
    } else {
        None
    }
}

/// `v` written as exactly `n` lower-case hex digits, most significant first;
/// digits beyond the width are cut off.
pub open spec fn spec_hex_of(v: int, n: nat) -> Seq<u8>
    decreases n,
{
    if n == 0 {
        Seq::empty()
    } else {
        spec_hex_of(v / 16, (n - 1) as nat).push(spec_hex_digit((v % 16) as u8))
    }
}

/// A fixed-width hex spelling has the asked-for width, and every byte of it
/// is an ASCII digit or lower-case letter.
pub proof fn lemma_hex_digits_ascii(v: int, n: nat)
    ensures
        spec_hex_of(v, n).len() == n,
        forall|i: int|
            0 <= i < n ==> 48 <= #[trigger] spec_hex_of(v, n)[i] <= 102,
    decreases n,
{
    if n > 0 {
        lemma_hex_digits_ascii(v / 16, (n - 1) as nat);
        let s = spec_hex_of(v, n);
        assert forall|i: int| 0 <= i < n implies 48 <= #[trigger] s[i] <= 102 by {
            if i < n - 1 {
                assert(s[i] == spec_hex_of(v / 16, (n - 1) as nat)[i]);
            }
        }
    }
}

/// The value of a whole hex string, or `None` if any byte is not a hex digit.
pub open spec fn spec_hex_parse(s: Seq<u8>) -> Option<int>
    decreases s.len(),
{
    if s.len() == 0 {
        Some(0)
    } else {
        match (spec_hex_parse(s.drop_last()), spec_hex_val(s.last())) {
            (Some(high), Some(low)) => Some(16 * high + low),
            _ => None,
        }
    }
}

/// A parsed hex string of `n` digits is below `16^n`.
pub proof fn lemma_hex_parse_bound(s: Seq<u8>)
    requires
        spec_hex_parse(s) is Some,
    ensures
        0 <= spec_hex_parse(s)->0 < pow16(s.len()),
    decreases s.len(),
{
    if s.len() > 0 {
        lemma_hex_parse_bound(s.drop_last());
    }
}

/// Parsing inverts formatting: `n` digits of `v` read back as `v` whenever
/// `v` fits in `n` digits.
pub proof fn lemma_hex_round_trip(v: int, n: nat)
    requires
        0 <= v < pow16(n),
    ensures
        spec_hex_parse(spec_hex_of(v, n)) == Some(v),
    decreases n,
{
    if n > 0 {
        let s = spec_hex_of(v, n);
        assert(s.drop_last() =~= spec_hex_of(v / 16, (n - 1) as nat));
        lemma_hex_round_trip(v / 16, (n - 1) as nat);
    }
}

/// The hex digit of a value below 16, as executable code.
pub fn hex_digit(v: u8) -> (b: u8)
    requires
        v < 16,
    ensures
        b == spec_hex_digit(v),
{
    if v < 10 {
        48 + v
    } else {
        87 + v
    }
}

/// The value of one hex digit byte, as executable code.
pub fn hex_val(b: u8) -> (v: Option<u8>)
    ensures
        v == spec_hex_val(b),
{
    if 48 <= b && b <= 57 {
        Some(b - 48)
    } else if 97 <= b && b <= 102 {
        Some(b - 87)
    } else if 65 <= b && b <= 70 {
        Some(b - 55)
    } else {
        None
    }
}

/// Appends `v` as exactly `n` lower-case hex digits to `out`.
pub fn append_hex(out: &mut Vec<u8>, v: u128, n: usize)
    requires
        n <= 32,
    ensures
        final(out)@ == old(out)@ + spec_hex_of(v as int, n as nat),
{
    let ghost prefix: Seq<u8> = out@;
    let mut digits: Vec<u8> = Vec::new();
    let mut x: u128 = v;
    let mut k: usize = 0;
    while k < n
        invariant
            k <= n <= 32,
            spec_hex_of(v as int, n as nat) =~= spec_hex_of(x as int, (n - k) as nat)
                + digits@,
            digits@.len() == k,
        decreases n - k,
    {
        let d: u8 = (x % 16) as u8;
        proof {
            assert(spec_hex_of(x as int, (n - k) as nat).drop_last() =~= spec_hex_of(
                (x / 16) as int,
                (n - k - 1) as nat,
            ));
            assert(spec_hex_of(x as int, (n - k) as nat) =~= spec_hex_of(
                (x / 16) as int,
                (n - k - 1) as nat,
            ).push(spec_hex_digit(d)));
        }
        digits.insert(0, hex_digit(d));
        x = x / 16;
        k = k + 1;
    }
    assert(spec_hex_of(x as int, (n - k) as nat) =~= Seq::<u8>::empty());
    let mut i: usize = 0;
    while i < digits.len()
        invariant
            i <= digits@.len(),
            digits@ == spec_hex_of(v as int, n as nat),
            out@ =~= prefix + digits@.subrange(0, i as int),
        decreases digits@.len() - i,
    {
        out.push(digits[i]);
        i = i + 1;
    }
    assert(digits@.subrange(0, digits@.len() as int) =~= digits@);
}

/// Reads the `n` bytes of `s` starting at `from` as a hex number, or `None`
/// if any of them is not a hex digit.
pub fn parse_hex(s: &Vec<u8>, from: usize, n: usize) -> (r: Option<u128>)
    requires
        from + n <= s@.len(),
        n <= 32,
    ensures
        r matches Some(v) ==> spec_hex_parse(s@.subrange(from as int, from + n)) == Some(
            v as int,
        ),
        r is None ==> spec_hex_parse(s@.subrange(from as int, from + n)) is None,
{
    let slen: usize = s.len();
    let mut acc: u128 = 0;
    let mut i: usize = 0;
    while i < n
        invariant
            i <= n <= 32,
            from + n <= slen == s@.len(),
            spec_hex_parse(s@.subrange(from as int, from + i)) == Some(acc as int),
            acc < pow16(i as nat),
        decreases n - i,
    {
        proof {
            lemma_pow16_le((i + 1) as nat, 32);
            lemma_pow16_32();
        }
        match hex_val(s[from + i]) {
            Some(d) => {
                proof {
                    let sub = s@.subrange(from as int, from + i + 1);
                    assert(sub.drop_last() =~= s@.subrange(from as int, from + i));
                    assert(sub.last() == s@[from + i]);
                    lemma_pow16_le((i + 1) as nat, 32);
                }
                acc = acc * 16 + (d as u128);
                i = i + 1;
            },
            None => {
                proof {
                    lemma_hex_parse_bad_digit(s@, from as int, i as int, n as int);
                }
                return None;
            },
        }
    }
    assert(s@.subrange(from as int, from + n) =~= s@.subrange(from as int, from + i));
    Some(acc)
}

/// A byte sequence written out as two lower-case hex digits per byte, in
/// order.
pub open spec fn spec_bytes_hex(s: Seq<u8>) -> Seq<u8>
    decreases s.len(),
{
    if s.len() == 0 {
        Seq::empty()
    } else {
        spec_bytes_hex(s.drop_last()) + spec_hex_of(s.last() as int, 2)
    }
}

/// The hex form of a byte sequence is twice as long, and every byte of it is
/// an ASCII digit or lower-case letter.
pub proof fn lemma_bytes_hex_ascii(s: Seq<u8>)
    ensures
        spec_bytes_hex(s).len() == 2 * s.len(),
        forall|i: int|
            0 <= i < spec_bytes_hex(s).len() ==> 48 <= #[trigger] spec_bytes_hex(s)[i]
                <= 102,
    decreases s.len(),
{
    if s.len() > 0 {
        lemma_bytes_hex_ascii(s.drop_last());
        lemma_hex_digits_ascii(s.last() as int, 2);
    }
}

/// Two byte sequences with the same hex form are the same sequence.
pub proof fn lemma_bytes_hex_injective(a: Seq<u8>, b: Seq<u8>)
    requires
        spec_bytes_hex(a) == spec_bytes_hex(b),
    ensures
        a =~= b,
    decreases a.len(),
{
    lemma_bytes_hex_ascii(a);
    lemma_bytes_hex_ascii(b);
    if a.len() > 0 {
        let ha = spec_bytes_hex(a);
        let hb = spec_bytes_hex(b);
        lemma_bytes_hex_ascii(a.drop_last());
        lemma_bytes_hex_ascii(b.drop_last());
        lemma_hex_digits_ascii(a.last() as int, 2);
        lemma_hex_digits_ascii(b.last() as int, 2);
        assert(pow16(2) == 256) by {
            reveal_with_fuel(pow16, 3);
        }
        assert(spec_hex_of(a.last() as int, 2) =~= ha.subrange(ha.len() - 2, ha.len() as int));
        assert(spec_hex_of(b.last() as int, 2) =~= hb.subrange(hb.len() - 2, hb.len() as int));
        lemma_hex_round_trip(a.last() as int, 2);
        lemma_hex_round_trip(b.last() as int, 2);
        assert(a.last() == b.last());
        assert(spec_bytes_hex(a.drop_last()) =~= ha.subrange(0, ha.len() - 2));
        assert(spec_bytes_hex(b.drop_last()) =~= hb.subrange(0, hb.len() - 2));
        lemma_bytes_hex_injective(a.drop_last(), b.drop_last());
        assert(a =~= a.drop_last().push(a.last()));
        assert(b =~= b.drop_last().push(b.last()));
    }
}

/// Appends the two-digit-per-byte hex form of `b` to `out`.
pub fn append_bytes_hex(out: &mut Vec<u8>, b: &Vec<u8>)
    ensures
        final(out)@ == old(out)@ + spec_bytes_hex(b@),
{
    let ghost prefix: Seq<u8> = out@;
    let mut i: usize = 0;
    while i < b.len()
        invariant
            i <= b@.len(),
            out@ =~= prefix + spec_bytes_hex(b@.subrange(0, i as int)),
        decreases b@.len() - i,
    {
        append_hex(out, b[i] as u128, 2);
        proof {
            let cur = b@.subrange(0, i + 1);
            assert(cur.drop_last() =~= b@.subrange(0, i as int));
            assert(cur.last() == b@[i as int]);
        }
        i = i + 1;
    }
    assert(b@.subrange(0, b@.len() as int) =~= b@);
}

/// The bytes a hex string of byte pairs spells, or `None` when its length is
/// odd or any byte is not a hex digit. Upper-case digits are accepted.
pub open spec fn spec_parse_bytes_hex(s: Seq<u8>) -> Option<Seq<u8>>
    decreases s.len(),
{
    if s.len() == 0 {
        Some(Seq::empty())
    } else if s.len() == 1 {
        None
    } else {
        match (
            spec_parse_bytes_hex(s.subrange(0, s.len() - 2)),
            spec_hex_val(s[s.len() - 2]),
            spec_hex_val(s[s.len() - 1]),
        ) {
            (Some(r), Some(hi), Some(lo)) => Some(r + seq![(hi * 16 + lo) as u8]),
            _ => None,
        }
    }
}

/// Parsing byte pairs inverts the two-digit-per-byte form.
pub proof fn lemma_bytes_hex_round_trip(v: Seq<u8>)
    ensures
        spec_parse_bytes_hex(spec_bytes_hex(v)) == Some(v),
    decreases v.len(),
{
    if v.len() > 0 {
        let h = spec_bytes_hex(v);
        lemma_bytes_hex_ascii(v);
        lemma_bytes_hex_ascii(v.drop_last());
        lemma_hex_digits_ascii(v.last() as int, 2);
        assert(h.subrange(0, h.len() - 2) =~= spec_bytes_hex(v.drop_last()));
        lemma_bytes_hex_round_trip(v.drop_last());
        let d = spec_hex_of(v.last() as int, 2);
        assert(d =~= spec_hex_of((v.last() / 16) as int, 1).push(
            spec_hex_digit((v.last() % 16) as u8),
        ));
        assert(h[h.len() - 2] == spec_hex_digit((v.last() / 16) as u8));
        assert(h[h.len() - 1] == spec_hex_digit((v.last() % 16) as u8));
        assert(v.drop_last() + seq![v.last()] =~= v);
    }
}

/// Reads `n` bytes spelled as `2 * n` hex digits starting at `from`.
pub fn parse_bytes_hex(s: &Vec<u8>, from: usize, n: usize) -> (r: Option<Vec<u8>>)
    requires
        from + 2 * n <= s@.len(),
    ensures
        r matches Some(v) ==> spec_parse_bytes_hex(s@.subrange(from as int, from + 2 * n))
            == Some(v@),
        r is None ==> spec_parse_bytes_hex(s@.subrange(from as int, from + 2 * n)) is None,
{
    let slen: usize = s.len();
    let mut out: Vec<u8> = Vec::new();
    let mut i: usize = 0;
    while i < n
        invariant
            i <= n,
            from + 2 * n <= slen == s@.len(),
            out@.len() == i,
            spec_parse_bytes_hex(s@.subrange(from as int, from + 2 * i)) == Some(out@),
        decreases n - i,
    {
        let hi = match hex_val(s[from + 2 * i]) {
            Some(v) => v,
            None => {
                proof {
                    lemma_parse_bytes_hex_bad_digit(s@, from as int, 2 * i, 2 * n as int);
                }
                return None;
            },
        };
        let lo = match hex_val(s[from + 2 * i + 1]) {
            Some(v) => v,
            None => {
                proof {
                    lemma_parse_bytes_hex_bad_digit(s@, from as int, 2 * i + 1, 2 * n as int);
                }
                return None;
            },
        };
        proof {
            let cur = s@.subrange(from as int, from + 2 * i + 2);
            assert(cur.subrange(0, cur.len() - 2) =~= s@.subrange(from as int, from + 2 * i));
            assert(cur[cur.len() - 2] == s@[from + 2 * i]);
            assert(cur[cur.len() - 1] == s@[from + 2 * i + 1]);
            assert(out@.push((hi * 16 + lo) as u8) =~= out@ + seq![(hi * 16 + lo) as u8]);
        }
        out.push(hi * 16 + lo);
        i = i + 1;
    }
    proof {
        assert(s@.subrange(from as int, from + 2 * n) =~= s@.subrange(
            from as int,
            from + 2 * i,
        ));
    }
    Some(out)
}

/// If one byte of a byte-pair hex field is not a digit, the field fails to
/// parse.
proof fn lemma_parse_bytes_hex_bad_digit(s: Seq<u8>, from: int, i: int, n: int)
    requires
        0 <= from,
        0 <= i < n,
        n % 2 == 0,
        from + n <= s.len(),
        spec_hex_val(s[from + i]) is None,
    ensures
        spec_parse_bytes_hex(s.subrange(from, from + n)) is None,
    decreases n,
{
    let whole = s.subrange(from, from + n);
    if i >= n - 2 {
        assert(whole[whole.len() - 2] == s[from + n - 2]);
        assert(whole[whole.len() - 1] == s[from + n - 1]);
    } else {
        lemma_parse_bytes_hex_bad_digit(s, from, i, n - 2);
        assert(whole.subrange(0, whole.len() - 2) =~= s.subrange(from, from + n - 2));
    }
}

/// Compares two byte strings without stopping at the first difference, so
/// the time taken does not depend on where they differ.
pub(crate) fn fixed_time_eq(a: &Vec<u8>, b: &Vec<u8>) -> (r: bool)
    ensures
        r == (a@ == b@),
{
    if a.len() != b.len() {
        return false;
    }
    proof {
        assert(a@.subrange(0, 0) =~= b@.subrange(0, 0));
    }
    let mut differs: bool = false;
    let mut i: usize = 0;
    while i < a.len()
        invariant
            a@.len() == b@.len(),
            i <= a@.len(),
            differs == (a@.subrange(0, i as int) != b@.subrange(0, i as int)),
        decreases a@.len() - i,
    {
        proof {
            assert(a@.subrange(0, i + 1).drop_last() =~= a@.subrange(0, i as int));
            assert(b@.subrange(0, i + 1).drop_last() =~= b@.subrange(0, i as int));
            assert(a@.subrange(0, i + 1).last() == a@[i as int]);
            assert(b@.subrange(0, i + 1).last() == b@[i as int]);
        }
        if a[i] != b[i] {
            differs = true;
        } else {
            proof {
                if !differs {
                    assert(a@.subrange(0, i + 1) =~= b@.subrange(0, i + 1));
                }
            }
        }
        i = i + 1;
    }
    proof {
        assert(a@.subrange(0, a@.len() as int) =~= a@);
        assert(b@.subrange(0, b@.len() as int) =~= b@);
    }
    !differs
}

/// Sixteen hex digits hold exactly the values of a 64-bit integer.
pub proof fn lemma_pow16_16()
    ensures
        pow16(16) == 0x1_0000_0000_0000_0000,
{
    reveal_with_fuel(pow16, 17);
}

/// Thirty-two hex digits hold exactly the values of a 128-bit integer.
pub proof fn lemma_pow16_32()
    ensures
        pow16(32) == 0x1_0000_0000_0000_0000_0000_0000_0000_0000,
{
    reveal_with_fuel(pow16, 33);
}

/// `pow16` is monotone in its exponent.
pub proof fn lemma_pow16_le(a: nat, b: nat)
    requires
        a <= b,
    ensures
        pow16(a) <= pow16(b),
        pow16(a) >= 1,
    decreases b,
{
    if a < b {
        lemma_pow16_le(a, (b - 1) as nat);
    } else if a == b && a > 0 {
        lemma_pow16_le((a - 1) as nat, (b - 1) as nat);
    }
}

/// If one byte of a hex field is not a digit, the whole field fails to parse.
proof fn lemma_hex_parse_bad_digit(s: Seq<u8>, from: int, i: int, n: int)
    requires
        0 <= from,
        0 <= i < n,
        from + n <= s.len(),
        spec_hex_val(s[from + i]) is None,
    ensures
        spec_hex_parse(s.subrange(from, from + n)) is None,
    decreases n,
{
    let whole = s.subrange(from, from + n);
    if i == n - 1 {
        assert(whole.last() == s[from + i]);
    } else {
        lemma_hex_parse_bad_digit(s, from, i, n - 1);
        assert(whole.drop_last() =~= s.subrange(from, from + n - 1));
    }
}

} // verus!
