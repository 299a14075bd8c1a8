//! Textual forms used across the protocol types: decimal rendering of wire
//! integers, uppercase hexadecimal rendering of identifier bytes, and
//! ASCII case-insensitive comparison for configuration values.
use vstd::prelude::*;

verus! {

/// The character for one decimal digit.
pub open spec fn spec_dec_digit(d: int) -> char {
    if d == 0 {
        '0'
    } else if d == 1 {
        '1'
    } else if d == 2 {
        '2'
    } else if d == 3 {
        '3'
    } else if d == 4 {
        '4'
    } else if d == 5 {
        '5'
    } else if d == 6 {
        '6'
    } else if d == 7 {
        '7'
    } else if d == 8 {
        '8'
    } else {
        '9'
    }
}

/// The decimal rendering of a non-negative integer, most significant digit
/// first, with no leading zeros (a lone zero for 0).
pub open spec fn spec_dec(v: int) -> Seq<char>
    decreases v,
{
    if v < 10 {
        seq![spec_dec_digit(v)]
    } else {
        spec_dec(v / 10) + seq![spec_dec_digit(v % 10)]
    }
}

/// The one-character string for a decimal digit.
fn dec_digit_str(d: u64) -> (r: &'static str)
    requires
        d < 10,
    ensures
        r@ =~= seq![spec_dec_digit(d as int)],
{
    if d == 0 {
        proof {
            reveal_strlit("0");
        }
        "0"
    } else if d == 1 {
        proof {
            reveal_strlit("1");
        }
        "1"
    } else if d == 2 {
        proof {
            reveal_strlit("2");
        }
        "2"
    } else if d == 3 {
        proof {
            reveal_strlit("3");
        }
        "3"
    } else if d == 4 {
        proof {
            reveal_strlit("4");
        }
        "4"
    } else if d == 5 {
        proof {
            reveal_strlit("5");
        }
        "5"
    } else if d == 6 {
        proof {
            reveal_strlit("6");
        }
        "6"
    } else if d == 7 {
        proof {
            reveal_strlit("7");
        }
        "7"
    } else if d == 8 {
        proof {
            reveal_strlit("8");
        }
        "8"
    } else {
        proof {
            reveal_strlit("9");
        }
        "9"
    }
}

/// Renders an integer in decimal.
pub fn dec_string(v: u64) -> (r: String)
    ensures
        r@ == spec_dec(v as int),
    decreases v,
{
    if v < 10 {
        let r = String::from_str(dec_digit_str(v));
        proof {
            assert(r@ =~= spec_dec(v as int));
        }
        r
    } else {
        let mut s = dec_string(v / 10);
        s.append(dec_digit_str(v % 10));
        proof {
            assert(s@ =~= spec_dec(v as int));
        }
        s
    }
}

/// The uppercase character for one hexadecimal digit.
pub open spec fn spec_hex_digit(d: int) -> char {
    if d == 0 {
        '0'
    } else if d == 1 {
        '1'
    } else if d == 2 {
        '2'
    } else if d == 3 {
        '3'
    } else if d == 4 {
        '4'
    } else if d == 5 {
        '5'
    } else if d == 6 {
        '6'
    } else if d == 7 {
        '7'
    } else if d == 8 {
        '8'
    } else if d == 9 {
        '9'
    } else if d == 10 {
        'A'
    } else if d == 11 {
        'B'
    } else if d == 12 {
        'C'
    } else if d == 13 {
        'D'
    } else if d == 14 {
        'E'
    } else {
        'F'
    }
}

/// The uppercase hexadecimal rendering of a byte sequence: two digits per
/// byte, high nibble first.
pub open spec fn spec_hex_upper(b: Seq<u8>) -> Seq<char>
    decreases b.len(),
{
    if b.len() == 0 {
        Seq::<char>::empty()
    } else {
        seq![
            spec_hex_digit(b[0] as int / 16),
            spec_hex_digit(b[0] as int % 16),
        ] + spec_hex_upper(b.drop_first())
    }
}

/// Relies on `hex::encode_upper`: renders each byte as two uppercase
/// hexadecimal digits, high nibble first.
#[verifier::external_body]
pub fn hex_encode_upper(b: &[u8]) -> (r: String)
    ensures
        r@ == spec_hex_upper(b@),
{
    hex::encode_upper(b)
}

/// Compares two strings for equality, character by character.
pub fn str_eq(a: &str, b: &str) -> (r: bool)
    ensures
        r == (a@ == b@),
{
    let alen = a.unicode_len();
    let blen = b.unicode_len();
    if alen != blen {
        return false;
    }
    let mut i: usize = 0;
    while i < alen
        invariant
            alen == a@.len(),
            blen == b@.len(),
            alen == blen,
            i <= alen,
            forall|k: int| 0 <= k < i ==> a@[k] == b@[k],
        decreases alen - i,
    {
        if a.get_char(i) != b.get_char(i) {
            return false;
        }
        i += 1;
    }
    proof {
        assert(a@ =~= b@);
    }
    true
}

/// Two characters are equal up to ASCII case.
pub open spec fn spec_chars_eq_ci(a: char, b: char) -> bool {
    ||| a == b
    ||| (65 <= a as int <= 90 && a as int + 32 == b as int)
    ||| (65 <= b as int <= 90 && b as int + 32 == a as int)
}

/// Two strings are equal up to ASCII case.
pub open spec fn spec_str_eq_ci(a: Seq<char>, b: Seq<char>) -> bool {
    a.len() == b.len() && (forall|i: int| 0 <= i < a.len() ==> spec_chars_eq_ci(a[i], b[i]))
}

fn chars_eq_ci(a: char, b: char) -> (r: bool)
    ensures
        r == spec_chars_eq_ci(a, b),
{
    let au = a as u32;
    let bu = b as u32;
    au == bu || (65 <= au && au <= 90 && au + 32 == bu) || (65 <= bu && bu <= 90 && bu + 32 == au)
}

/// Compares two strings for equality up to ASCII case.
pub fn str_eq_ci(a: &str, b: &str) -> (r: bool)
    ensures
        r == spec_str_eq_ci(a@, b@),
{
    let alen = a.unicode_len();
    let blen = b.unicode_len();
    if alen != blen {
        return false;
    }
    let mut i: usize = 0;
    while i < alen
        invariant
            alen == a@.len(),
            blen == b@.len(),
            alen == blen,
            i <= alen,
            forall|k: int| 0 <= k < i ==> spec_chars_eq_ci(a@[k], b@[k]),
        decreases alen - i,
    {
        if !chars_eq_ci(a.get_char(i), b.get_char(i)) {
            return false;
        }
        i += 1;
    }
    true
}

} // verus!
