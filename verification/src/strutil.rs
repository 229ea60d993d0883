//! Character-level string helpers: building strings one character at a
//! time, reading a string out as characters, case folding for ASCII
//! letters, and printing an integer in decimal (used for derived paths).
use vstd::prelude::*;

verus! {

/// Relies on `String::push` from std: appends the given character to the
/// end of the string.
pub assume_specification[ String::push ](s: &mut String, c: char)
    ensures
        final(s)@ == old(s)@.push(c),
;

/// Copy a string out as a vector of its characters.
pub fn to_chars(s: &str) -> (r: Vec<char>)
    ensures
        r@ == s@,
{
    let len = s.unicode_len();
    let mut r: Vec<char> = Vec::new();
    for i in 0..len
        invariant
            len == s@.len(),
            r@ == s@.take(i as int),
    {
        r.push(s.get_char(i));
        assert(r@ =~= s@.take(i + 1));
    }
    assert(r@ =~= s@);
    r
}

/// Build a string from a vector of characters.
pub fn from_chars(cs: &Vec<char>) -> (r: String)
    ensures
        r@ == cs@,
{
    let mut r = String::new();
    let len = cs.len();
    for i in 0..len
        invariant
            len == cs@.len(),
            r@ == cs@.take(i as int),
    {
        r.push(cs[i]);
        assert(r@ =~= cs@.take(i + 1));
    }
    assert(r@ =~= cs@);
    r
}

/// The ASCII lower-case image of a character: letters `A`..`Z` map to
/// `a`..`z`, every other character is unchanged.
pub open spec fn fold_char(c: char) -> char {
    if 'A' <= c && c <= 'Z' {
        ((c as u8) + 32) as char
    } else {
        c
    }
}

/// Executable ASCII case folding of one character.
pub fn fold_char_exec(c: char) -> (r: char)
    ensures
        r == fold_char(c),
{
    if 'A' <= c && c <= 'Z' {
        ((c as u8) + 32) as char
    } else {
        c
    }
}

/// Whitespace, for splitting search queries into tokens: the characters
/// with the Unicode White_Space property, the same set
/// `str::split_whitespace` splits on.
pub open spec fn is_space(c: char) -> bool {
    ||| c == ' '
    ||| c == '\t'
    ||| c == '\n'
    ||| c == '\u{000B}'
    ||| c == '\u{000C}'
    ||| c == '\r'
    ||| c == '\u{0085}'
    ||| c == '\u{00A0}'
    ||| c == '\u{1680}'
    ||| ('\u{2000}' <= c && c <= '\u{200A}')
    ||| c == '\u{2028}'
    ||| c == '\u{2029}'
    ||| c == '\u{202F}'
    ||| c == '\u{205F}'
    ||| c == '\u{3000}'
}

/// Executable whitespace test.
pub fn is_space_exec(c: char) -> (r: bool)
    ensures
        r == is_space(c),
{
    c == ' ' || c == '\t' || c == '\n' || c == '\u{000B}' || c == '\u{000C}' || c == '\r' || c
        == '\u{0085}' || c == '\u{00A0}' || c == '\u{1680}' || ('\u{2000}' <= c && c
        <= '\u{200A}') || c == '\u{2028}' || c == '\u{2029}' || c == '\u{202F}' || c == '\u{205F}'
        || c == '\u{3000}'
}

/// The decimal digit character for a value below ten.
pub open spec fn digit_char(d: nat) -> char
    recommends
        d < 10,
{
    ((d + 48) as u8) as char
}

/// The decimal representation of a natural number, most significant digit
/// first, with no leading zeros (zero itself prints as "0").
pub open spec fn dec_digits(n: nat) -> Seq<char>
    decreases n,
{
    if n < 10 {
        seq![digit_char(n)]
    } else {
        dec_digits(n / 10) + seq![digit_char(n % 10)]
    }
}

/// Print an unsigned integer in decimal.
pub fn u32_to_string(n: u32) -> (r: String)
    ensures
        r@ == dec_digits(n as nat),
{
    let mut digits: Vec<char> = Vec::new();
    let mut m: u32 = n;
    loop
        invariant_except_break
            (digits@.len() == 0 && m == n) || (m > 0 && dec_digits(n as nat) == dec_digits(
                m as nat,
            ) + digits@.reverse()),
        ensures
            dec_digits(n as nat) == digits@.reverse(),
        decreases m, (if digits@.len() == 0 { 1int } else { 0int }),
    {
        let ghost pre = digits@;
        if m < 10 {
            digits.push(((m as u8) + 48) as char);
            assert(digits@.reverse() =~= seq![digit_char(m as nat)] + pre.reverse());
            if digits.len() == 1 {
                assert(dec_digits(n as nat) == digits@.reverse());
            } else {
                assert(dec_digits(m as nat) + pre.reverse() =~= digits@.reverse());
            }
            break;
        } else {
            let d: u32 = m % 10;
            digits.push(((d as u8) + 48) as char);
            assert(digits@.reverse() =~= seq![digit_char(d as nat)] + pre.reverse());
            assert(dec_digits(m as nat) == dec_digits((m / 10) as nat) + seq![
                digit_char((m % 10) as nat),
            ]);
            if digits.len() == 1 {
                assert(dec_digits(m as nat) =~= dec_digits((m / 10) as nat) + digits@.reverse());
            } else {
                assert(dec_digits((m / 10) as nat) + digits@.reverse() =~= dec_digits(m as nat)
                    + pre.reverse());
            }
            m = m / 10;
        }
    }
    let mut r = String::new();
    let len = digits.len();
    for i in 0..len
        invariant
            len == digits@.len(),
            r@ == digits@.reverse().take(i as int),
    {
        r.push(digits[len - 1 - i]);
        assert(r@ =~= digits@.reverse().take(i + 1));
    }
    assert(r@ =~= digits@.reverse());
    r
}

} // verus!
