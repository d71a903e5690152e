//! The user identifier: a 128-bit value written in the usual hyphenated
//! hexadecimal form, with verified parsing and formatting.
use vstd::prelude::*;
use vstd::string::StringSliceAdditionalSpecFns;
use vstd::string::StrSliceExecFns;
use vstd::string::StringExecFns;
use crate::encoding::ascii_chars_of;
use crate::encoding::append_hex;
use crate::encoding::lemma_hex_round_trip;
use crate::encoding::lemma_pow16_32;
use crate::encoding::parse_hex;
use crate::encoding::spec_hex_of;
use crate::encoding::spec_hex_parse;
use crate::encoding::string_from_ascii;
use crate::error::WeekendAtJoesError;

verus! {

/// Identifies a user everywhere in the core: in credentials, token claims
/// and the ban registry.
#[derive(Debug, Clone, Copy, PartialEq, Eq, Structural, Hash)]
pub struct UserUuid(pub u128);

/// The ASCII byte `-`.
pub open spec fn dash() -> u8 {
    45
}

/// The 36 bytes of `v` written in hyphenated hexadecimal form: groups of
/// 8, 4, 4, 4 and 12 lower-case digits, most significant first.
pub open spec fn spec_uuid_bytes(v: u128) -> Seq<u8> {
    let h = spec_hex_of(v as int, 32);
    h.subrange(0, 8) + seq![dash()] + h.subrange(8, 12) + seq![dash()] + h.subrange(12, 16)
        + seq![dash()] + h.subrange(16, 20) + seq![dash()] + h.subrange(20, 32)
}

/// The value a hyphenated identifier spells, or `None` when the shape or a
/// digit is wrong. Upper-case digits are accepted.
pub open spec fn spec_uuid_parse(s: Seq<u8>) -> Option<u128> {
    if s.len() == 36 && s[8] == dash() && s[13] == dash() && s[18] == dash() && s[23] == dash() {
        let h = s.subrange(0, 8) + s.subrange(9, 13) + s.subrange(14, 18) + s.subrange(19, 23)
            + s.subrange(24, 36);
        match spec_hex_parse(h) {
            Some(v) => Some(v as u128),
            None => None,
        }
    } else {
        None
    }
}

/// Parsing inverts formatting for every identifier value.
pub proof fn lemma_uuid_round_trip(v: u128)
    ensures
        spec_uuid_parse(spec_uuid_bytes(v)) == Some(v),
{
    let h = spec_hex_of(v as int, 32);
    crate::encoding::lemma_hex_digits_ascii(v as int, 32);
    lemma_pow16_32();
    lemma_hex_round_trip(v as int, 32);
    let s = spec_uuid_bytes(v);
    assert(s.len() == 36);
    assert(s[8] == dash() && s[13] == dash() && s[18] == dash() && s[23] == dash());
    assert(s.subrange(0, 8) + s.subrange(9, 13) + s.subrange(14, 18) + s.subrange(19, 23)
        + s.subrange(24, 36) =~= h);
}

impl UserUuid {
    /// This identifier written as the usual 36-character hyphenated string.
    pub fn to_string(&self) -> (r: String)
        ensures
            r@ == ascii_chars_of(spec_uuid_bytes(self.0)),
            r@.len() == 36,
    {
        let mut h: Vec<u8> = Vec::new();
        append_hex(&mut h, self.0, 32);
        proof {
            crate::encoding::lemma_hex_digits_ascii(self.0 as int, 32);
        }
        let mut out: Vec<u8> = Vec::new();
        let mut i: usize = 0;
        while i < 36
            invariant
                h@ == spec_hex_of(self.0 as int, 32),
                h@.len() == 32,
                i <= 36,
                out@ =~= spec_uuid_bytes(self.0).subrange(0, i as int),
            decreases 36 - i,
        {
            proof {
                lemma_uuid_bytes_index(self.0, i as int);
            }
            if i == 8 || i == 13 || i == 18 || i == 23 {
                out.push(45);
            } else if i < 8 {
                out.push(h[i]);
            } else if i < 13 {
                out.push(h[i - 1]);
            } else if i < 18 {
                out.push(h[i - 2]);
            } else if i < 23 {
                out.push(h[i - 3]);
            } else {
                out.push(h[i - 4]);
            }
            i = i + 1;
        }
        proof {
            assert(out@ =~= spec_uuid_bytes(self.0));
            assert forall|j: int| 0 <= j < out@.len() implies out@[j] < 128 by {
                crate::encoding::lemma_hex_digits_ascii(self.0 as int, 32);
            }
        }
        string_from_ascii(out)
    }

    /// This identifier written as the query-string pair the web layer uses.
    pub fn to_query_parameter(self) -> (r: String)
        ensures
            r@ == "user_uuid="@ + ascii_chars_of(spec_uuid_bytes(self.0)),
    {
        let mut out = String::from_str("user_uuid=");
        let tail = self.to_string();
        out.append(tail.as_str());
        out
    }

    /// Reads a hyphenated identifier; any other shape is a `BadRequest`.
    pub fn parse_str(input: &str) -> (r: Result<UserUuid, WeekendAtJoesError>)
        ensures
            r matches Ok(u) ==> spec_uuid_parse(input.spec_bytes()) == Some(u.0),
            r is Err <==> spec_uuid_parse(input.spec_bytes()) is None,
            r is Err ==> r == Err::<UserUuid, WeekendAtJoesError>(
                WeekendAtJoesError::BadRequest,
            ),
    {
        let b: Vec<u8> = input.as_bytes_vec();
        if b.len() != 36 {
            return Err(WeekendAtJoesError::BadRequest);
        }
        if !(b[8] == 45 && b[13] == 45 && b[18] == 45 && b[23] == 45) {
            return Err(WeekendAtJoesError::BadRequest);
        }
        let mut h: Vec<u8> = Vec::new();
        let mut i: usize = 0;
        while i < 36
            invariant
                b@.len() == 36,
                i <= 36,
                h@ =~= hex_part(b@).subrange(0, hex_len_until(i as int)),
            decreases 36 - i,
        {
            if !(i == 8 || i == 13 || i == 18 || i == 23) {
                h.push(b[i]);
                proof {
                    lemma_hex_part_index(b@, i as int);
                }
            }
            i = i + 1;
        }
        proof {
            assert(h@ =~= hex_part(b@));
        }
        match parse_hex(&h, 0, 32) {
            Some(v) => {
                proof {
                    assert(h@.subrange(0, 32) =~= h@);
                }
                Ok(UserUuid(v))
            },
            None => {
                proof {
                    assert(h@.subrange(0, 32) =~= h@);
                }
                Err(WeekendAtJoesError::BadRequest)
            },
        }
    }
}

/// The 32 digit positions of a 36-byte hyphenated identifier, in order.
pub open spec fn hex_part(s: Seq<u8>) -> Seq<u8> {
    s.subrange(0, 8) + s.subrange(9, 13) + s.subrange(14, 18) + s.subrange(19, 23) + s.subrange(
        24,
        36,
    )
}

/// How many of the first `i` positions of the hyphenated form are digits.
pub open spec fn hex_len_until(i: int) -> int {
    if i <= 8 {
        i
    } else if i <= 13 {
        if i <= 9 {
            8
        } else {
            i - 1
        }
    } else if i <= 18 {
        if i <= 14 {
            12
        } else {
            i - 2
        }
    } else if i <= 23 {
        if i <= 19 {
            16
        } else {
            i - 3
        }
    } else {
        if i <= 24 {
            20
        } else {
            i - 4
        }
    }
}

/// What stands at each position of the hyphenated form: a separator at the
/// four fixed places, a digit of the 32-digit spelling everywhere else.
proof fn lemma_uuid_bytes_index(v: u128, i: int)
    requires
        0 <= i < 36,
    ensures
        spec_uuid_bytes(v).len() == 36,
        (i == 8 || i == 13 || i == 18 || i == 23) ==> spec_uuid_bytes(v)[i] == dash(),
        i < 8 ==> spec_uuid_bytes(v)[i] == spec_hex_of(v as int, 32)[i],
        8 < i < 13 ==> spec_uuid_bytes(v)[i] == spec_hex_of(v as int, 32)[i - 1],
        13 < i < 18 ==> spec_uuid_bytes(v)[i] == spec_hex_of(v as int, 32)[i - 2],
        18 < i < 23 ==> spec_uuid_bytes(v)[i] == spec_hex_of(v as int, 32)[i - 3],
        23 < i ==> spec_uuid_bytes(v)[i] == spec_hex_of(v as int, 32)[i - 4],
{
    crate::encoding::lemma_hex_digits_ascii(v as int, 32);
}

/// Which byte of the hyphenated form each digit position reads.
proof fn lemma_hex_part_index(s: Seq<u8>, i: int)
    requires
        s.len() == 36,
        0 <= i < 36,
        !(i == 8 || i == 13 || i == 18 || i == 23),
    ensures
        hex_len_until(i + 1) == hex_len_until(i) + 1,
        hex_part(s)[hex_len_until(i)] == s[i],
{
}

} // verus!
