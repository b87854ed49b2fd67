//! Parsing of the `#RRGGBB` colour notation that palette files use.

use vstd::prelude::*;

use vstd::string::StrSliceExecFns;

verus! {

/// The sixteen hexadecimal digit characters, either case.
pub open spec fn is_hex_digit(c: char) -> bool {
    (48 <= c as int <= 57) || (97 <= c as int <= 102) || (65 <= c as int <= 70)
}

/// The numeric value of one hexadecimal digit character.
pub open spec fn hex_val(c: char) -> int {
    if 48 <= c as int <= 57 {
        c as int - 48
    } else if 97 <= c as int <= 102 {
        c as int - 87
    } else {
        c as int - 55
    }
}

/// The byte two adjacent hexadecimal digits denote.
pub open spec fn hex_pair_val(s: Seq<char>, i: int) -> int {
    16 * hex_val(s[i]) + hex_val(s[i + 1])
}

/// A seven-character colour: one lead-in character, then six hexadecimal
/// digits.
pub open spec fn valid_hex_color(s: Seq<char>) -> bool {
    s.len() == 7 && (forall|i: int| 1 <= i < 7 ==> is_hex_digit(#[trigger] s[i]))
}

/// One hexadecimal digit parsed, or nothing for any other character.
fn hex_digit(c: char) -> (v: Option<u8>)
    ensures
        match v {
            Some(d) => is_hex_digit(c) && d == hex_val(c),
            None => !is_hex_digit(c),
        },
{
    let u = c as u32;
    if 48 <= u && u <= 57 {
        Some((u - 48) as u8)
    } else if 97 <= u && u <= 102 {
        Some((u - 87) as u8)
    } else if 65 <= u && u <= 70 {
        Some((u - 55) as u8)
    } else {
        None
    }
}

/// Converts a `#RRGGBB` colour code to its three channel values.  Exactly
/// the seven-character strings whose last six characters are hexadecimal
/// digits are accepted; anything else yields nothing.
pub fn hex_to_rgb(hex: &str) -> (r: Option<(u8, u8, u8)>)
    ensures
        match r {
            Some(t) => valid_hex_color(hex@) && t.0 == hex_pair_val(hex@, 1) && t.1 == hex_pair_val(
                hex@,
                3,
            ) && t.2 == hex_pair_val(hex@, 5),
            None => !valid_hex_color(hex@),
        },
{
    if hex.unicode_len() != 7 {
        return None;
    }
    let d1 = hex_digit(hex.get_char(1));
    let d2 = hex_digit(hex.get_char(2));
    let d3 = hex_digit(hex.get_char(3));
    let d4 = hex_digit(hex.get_char(4));
    let d5 = hex_digit(hex.get_char(5));
    let d6 = hex_digit(hex.get_char(6));
    match (d1, d2, d3, d4, d5, d6) {
        (Some(a), Some(b), Some(c), Some(d), Some(e), Some(f)) => {
            let red: u8 = 16 * a + b;
            let green: u8 = 16 * c + d;
            let blue: u8 = 16 * e + f;
            Some((red, green, blue))
        },
        _ => None,
    }
}

} // verus!
