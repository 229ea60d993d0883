//! Lowercase hexadecimal encoding of byte strings, as stored for password
//! hashes, together with the facts the rest of the crate needs: the
//! encoding's length, its character set, and its injectivity.
use vstd::prelude::*;

verus! {

/// The lowercase hexadecimal digit character for a value below sixteen.
pub open spec fn hex_digit(d: nat) -> char
    recommends
        d < 16,
{
    if d < 10 {
        ((48 + d) as u8) as char
    } else {
        ((87 + d) as u8) as char
    }
}

/// Whether a character is a lowercase hexadecimal digit.
pub open spec fn is_hex_char(c: char) -> bool {
    ('0' <= c && c <= '9') || ('a' <= c && c <= 'f')
}

/// Whether a string is a well-formed lowercase hexadecimal encoding:
/// even length, lowercase hexadecimal digits only.
pub open spec fn is_hex_lower(s: Seq<char>) -> bool {
    &&& s.len() % 2 == 0
    &&& forall|i: int| 0 <= i < s.len() ==> is_hex_char(#[trigger] s[i])
}

/// The lowercase hexadecimal encoding of a byte string: two digits per
/// byte, high nibble first.
pub open spec fn hex_of(bytes: Seq<u8>) -> Seq<char>
    decreases bytes.len(),
{
    if bytes.len() == 0 {
        Seq::empty()
    } else {
        hex_of(bytes.drop_last()) + seq![
            hex_digit((bytes.last() / 16) as nat),
            hex_digit((bytes.last() % 16) as nat),
        ]
    }
}

pub proof fn lemma_hex_of_len(bytes: Seq<u8>)
    ensures
        hex_of(bytes).len() == 2 * bytes.len(),
    decreases bytes.len(),
{
    if bytes.len() > 0 {
        lemma_hex_of_len(bytes.drop_last());
    }
}

proof fn lemma_hex_digit_is_hex_char(d: nat)
    requires
        d < 16,
    ensures
        is_hex_char(hex_digit(d)),
{
}

/// Every encoding this crate produces is a well-formed lowercase
/// hexadecimal string.
pub proof fn lemma_hex_of_is_hex_lower(bytes: Seq<u8>)
    ensures
        is_hex_lower(hex_of(bytes)),
    decreases bytes.len(),
{
    lemma_hex_of_len(bytes);
    if bytes.len() > 0 {
        lemma_hex_of_is_hex_lower(bytes.drop_last());
        lemma_hex_of_len(bytes.drop_last());
        lemma_hex_digit_is_hex_char((bytes.last() / 16) as nat);
        lemma_hex_digit_is_hex_char((bytes.last() % 16) as nat);
        assert forall|i: int| 0 <= i < hex_of(bytes).len() implies is_hex_char(
            #[trigger] hex_of(bytes)[i],
        ) by {
            if i < hex_of(bytes.drop_last()).len() {
                assert(hex_of(bytes)[i] == hex_of(bytes.drop_last())[i]);
            }
        }
    }
}

proof fn lemma_hex_digit_injective(d1: nat, d2: nat)
    requires
        d1 < 16,
        d2 < 16,
        hex_digit(d1) == hex_digit(d2),
    ensures
        d1 == d2,
{
    assert(hex_digit(d1) as u32 == hex_digit(d2) as u32);
}

/// Two byte strings with the same encoding are equal.
pub proof fn lemma_hex_of_injective(a: Seq<u8>, b: Seq<u8>)
    requires
        hex_of(a) == hex_of(b),
    ensures
        a == b,
    decreases a.len(),
{
    lemma_hex_of_len(a);
    lemma_hex_of_len(b);
    if a.len() == 0 {
        assert(a =~= b);
    } else {
        let ha = hex_of(a.drop_last());
        let hb = hex_of(b.drop_last());
        lemma_hex_of_len(a.drop_last());
        lemma_hex_of_len(b.drop_last());
        assert(hex_of(a)[2 * a.len() - 2] == hex_digit((a.last() / 16) as nat));
        assert(hex_of(a)[2 * a.len() - 1] == hex_digit((a.last() % 16) as nat));
        assert(hex_of(b)[2 * b.len() - 2] == hex_digit((b.last() / 16) as nat));
        assert(hex_of(b)[2 * b.len() - 1] == hex_digit((b.last() % 16) as nat));
        lemma_hex_digit_injective((a.last() / 16) as nat, (b.last() / 16) as nat);
        lemma_hex_digit_injective((a.last() % 16) as nat, (b.last() % 16) as nat);
        assert(a.last() == b.last());
        assert(ha =~= hb) by {
            assert forall|i: int| 0 <= i < ha.len() implies ha[i] == hb[i] by {
                assert(hex_of(a)[i] == ha[i]);
                assert(hex_of(b)[i] == hb[i]);
            }
        }
        lemma_hex_of_injective(a.drop_last(), b.drop_last());
        assert(a =~= a.drop_last().push(a.last()));
        assert(b =~= b.drop_last().push(b.last()));
    }
}

/// Relies on `hex::encode`: encodes bytes as lowercase hexadecimal, two
/// digits per byte, high nibble first.
#[verifier::external_body]
pub(crate) fn hex_encode(bytes: &Vec<u8>) -> (r: String)
    ensures
        r@ == hex_of(bytes@),
{
    hex::encode(bytes)
}

/// Relies on `hex::decode`: on a well-formed lowercase hexadecimal string
/// it returns the bytes whose encoding is that string.
#[verifier::external_body]
pub(crate) fn hex_decode(s: &str) -> (r: Vec<u8>)
    requires
        is_hex_lower(s@),
    ensures
        hex_of(r@) == s@,
{
    hex::decode(s).unwrap()
}

} // verus!
