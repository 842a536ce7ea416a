//! Hexadecimal text for identifiers: channel ids, keys and hashes as the
//! operator types and reads them.

use crate::bindings::{parsed_public_key, public_key_from_slice};
use bitcoin::secp256k1::PublicKey;
use vstd::prelude::*;
use vstd::string::*;
use vstd::utf8::is_ascii_chars;

verus! {

/// Whether `c` is one of `0-9`, `a-f`, `A-F`.
pub open spec fn is_hex_digit(c: char) -> bool {
    ('0' <= c && c <= '9') || ('a' <= c && c <= 'f') || ('A' <= c && c <= 'F')
}

/// The value of a hexadecimal digit, in `0..16`.
pub open spec fn hex_digit_value(c: char) -> int
    recommends
        is_hex_digit(c),
{
    if '0' <= c && c <= '9' {
        c as int - '0' as int
    } else if 'a' <= c && c <= 'f' {
        c as int - 'a' as int + 10
    } else {
        c as int - 'A' as int + 10
    }
}

/// The lower-case digit that stands for `n`, for `n` in `0..16`.
pub open spec fn lower_hex_digit(n: int) -> char
    recommends
        0 <= n < 16,
{
    seq!['0', '1', '2', '3', '4', '5', '6', '7', '8', '9', 'a', 'b', 'c', 'd', 'e', 'f'][n]
}

/// `c` with an upper-case hexadecimal letter replaced by its lower-case form.
pub open spec fn lower_case_digit(c: char) -> char {
    if 'A' <= c && c <= 'F' {
        lower_hex_digit(hex_digit_value(c))
    } else {
        c
    }
}

/// Hexadecimal text that encodes whole bytes: an even number of characters,
/// each of them a hexadecimal digit.
pub open spec fn is_hex_text(s: Seq<char>) -> bool {
    &&& s.len() % 2 == 0
    &&& forall|i: int| 0 <= i < s.len() ==> is_hex_digit(#[trigger] s[i])
}

/// The byte that the digit pair at position `i` of `s` encodes.
pub open spec fn byte_at(s: Seq<char>, i: int) -> u8 {
    (16 * hex_digit_value(s[2 * i]) + hex_digit_value(s[2 * i + 1])) as u8
}

/// The bytes that hexadecimal text encodes, first digit pair first.
pub open spec fn decoded(s: Seq<char>) -> Seq<u8> {
    Seq::new((s.len() / 2) as nat, |i: int| byte_at(s, i))
}

/// The digit at position `i` of the lower-case text of `bytes`.
pub open spec fn digit_at(bytes: Seq<u8>, i: int) -> char {
    if i % 2 == 0 {
        lower_hex_digit(bytes[i / 2] as int / 16)
    } else {
        lower_hex_digit(bytes[i / 2] as int % 16)
    }
}

/// The lower-case hexadecimal text of `bytes`, two digits for each byte.
pub open spec fn encoded(bytes: Seq<u8>) -> Seq<char> {
    Seq::new(2 * bytes.len(), |i: int| digit_at(bytes, i))
}

/// `s` with every upper-case hexadecimal letter in lower case.
pub open spec fn lower_cased(s: Seq<char>) -> Seq<char> {
    Seq::new(s.len(), |i: int| lower_case_digit(s[i]))
}

/// `is_hex_digit`, stated of a character's code.
spec fn is_hex_code(n: int) -> bool {
    (48 <= n && n <= 57) || (97 <= n && n <= 102) || (65 <= n && n <= 70)
}

/// `hex_digit_value`, stated of a character's code.
spec fn hex_code_value(n: int) -> int {
    if 48 <= n && n <= 57 {
        n - 48
    } else if 97 <= n && n <= 102 {
        n - 97 + 10
    } else {
        n - 65 + 10
    }
}

/// The value of an ASCII hexadecimal digit, or `None` for any other byte.
fn digit_value(b: u8) -> (r: Option<u8>)
    ensures
        r.is_some() == is_hex_code(b as int),
        r matches Some(v) ==> v as int == hex_code_value(b as int) && v < 16,
{
    if 48 <= b && b <= 57 {
        Some(b - 48)
    } else if 97 <= b && b <= 102 {
        Some(b - 97 + 10)
    } else if 65 <= b && b <= 70 {
        Some(b - 65 + 10)
    } else {
        None
    }
}

/// Decodes hexadecimal text into bytes.
///
/// Succeeds exactly on text of even length made of hexadecimal digits, in
/// either case; any other input is rejected with `None`.
pub fn to_vec(hex: &str) -> (r: Option<Vec<u8>>)
    ensures
        r.is_some() == is_hex_text(hex@),
        r matches Some(v) ==> v@ == decoded(hex@),
{
    broadcast use is_ascii_spec_bytes;

    if !hex.is_ascii() {
        proof {
            let i = choose|i: int| 0 <= i < hex@.len() && !('\0' <= #[trigger] hex@[i] <= '\u{7f}');
            assert(!is_hex_digit(hex@[i]));
        }
        return None;
    }
    let bytes = hex.as_bytes();
    let n: usize = bytes.len();
    assert(n == hex@.len());
    assert(forall|i: int| 0 <= i < n ==> bytes@[i] == hex@[i] as u8);
    if n % 2 != 0 {
        return None;
    }
    let mut out: Vec<u8> = Vec::new();
    let mut i: usize = 0;
    while i < n
        invariant
            n == hex@.len(),
            n == bytes@.len(),
            n % 2 == 0,
            i % 2 == 0,
            i <= n,
            is_ascii_chars(hex@),
            forall|k: int| 0 <= k < n ==> bytes@[k] == hex@[k] as u8,
            forall|k: int| 0 <= k < i ==> is_hex_digit(#[trigger] hex@[k]),
            out@.len() == i / 2,
            forall|k: int| 0 <= k < out@.len() ==> out@[k] == byte_at(hex@, k),
        decreases n - i,
    {
        let hi = digit_value(bytes[i]);
        let lo = digit_value(bytes[i + 1]);
        proof {
            let (c, d) = (hex@[i as int], hex@[i + 1]);
            assert(c as int == bytes@[i as int] as int && d as int == bytes@[i + 1] as int);
            assert(is_hex_digit(c) == is_hex_code(c as int));
            assert(is_hex_digit(d) == is_hex_code(d as int));
            assert(hex_digit_value(c) == hex_code_value(c as int));
            assert(hex_digit_value(d) == hex_code_value(d as int));
        }
        match (hi, lo) {
            (Some(h), Some(l)) => {
                out.push(h * 16 + l);
                i = i + 2;
            },
            _ => {
                return None;
            },
        }
    }
    assert(out@ =~= decoded(hex@));
    Some(out)
}

/// The 32 bytes that `hex` names, if it is the text of a 32-byte
/// identifier: exactly 64 hexadecimal digits.
pub open spec fn identifier_of(hex: Seq<char>) -> Option<Seq<u8>> {
    if hex.len() == 64 && is_hex_text(hex) {
        Some(decoded(hex))
    } else {
        None
    }
}

/// Decodes the text of a 32-byte identifier, such as a channel id. Text
/// of any other length, or with a character that is no hexadecimal digit,
/// is rejected.
pub fn to_identifier(hex: &str) -> (r: Option<[u8; 32]>)
    ensures
        r.is_some() == identifier_of(hex@).is_some(),
        r matches Some(id) ==> identifier_of(hex@) == Some(id@),
{
    match to_vec(hex) {
        Some(bytes) => {
            if bytes.len() != 32 {
                return None;
            }
            let mut id: [u8; 32] = [0u8; 32];
            let mut i: usize = 0;
            while i < 32
                invariant
                    i <= 32,
                    bytes@.len() == 32,
                    forall|k: int| 0 <= k < i ==> id@[k] == bytes@[k],
                decreases 32 - i,
            {
                id[i] = bytes[i];
                i = i + 1;
            }
            assert(id@ =~= bytes@);
            Some(id)
        },
        None => None,
    }
}

/// The curve point that `hex` names, if it is the text of a compressed
/// public key: exactly 66 hexadecimal digits whose 33 bytes `secp256k1`
/// accepts as a point.
pub open spec fn compressed_key_of(hex: Seq<char>) -> Option<PublicKey> {
    if hex.len() == 66 && is_hex_text(hex) {
        parsed_public_key(decoded(hex))
    } else {
        None
    }
}

/// Decodes the text of a compressed public key. Text of any other length,
/// text that is not hexadecimal and bytes that encode no curve point are
/// all rejected.
pub fn to_compressed_pubkey(hex: &str) -> (r: Option<PublicKey>)
    ensures
        r == compressed_key_of(hex@),
{
    match to_vec(hex) {
        Some(bytes) => {
            if bytes.len() != 33 {
                return None;
            }
            public_key_from_slice(bytes.as_slice())
        },
        None => None,
    }
}

/// The text of one hexadecimal digit.
fn digit_text(n: u8) -> (r: &'static str)
    requires
        n < 16,
    ensures
        r@ == seq![lower_hex_digit(n as int)],
{
    proof {
        reveal_strlit("0");
        reveal_strlit("1");
        reveal_strlit("2");
        reveal_strlit("3");
        reveal_strlit("4");
        reveal_strlit("5");
        reveal_strlit("6");
        reveal_strlit("7");
        reveal_strlit("8");
        reveal_strlit("9");
        reveal_strlit("a");
        reveal_strlit("b");
        reveal_strlit("c");
        reveal_strlit("d");
        reveal_strlit("e");
        reveal_strlit("f");
    }
    let r = match n {
        0 => "0",
        1 => "1",
        2 => "2",
        3 => "3",
        4 => "4",
        5 => "5",
        6 => "6",
        7 => "7",
        8 => "8",
        9 => "9",
        10 => "a",
        11 => "b",
        12 => "c",
        13 => "d",
        14 => "e",
        _ => "f",
    };
    assert(r@ =~= seq![lower_hex_digit(n as int)]);
    r
}

/// Writes bytes as lower-case hexadecimal text, two digits for each byte.
pub fn hex_str(value: &[u8]) -> (r: String)
    ensures
        r@ == encoded(value@),
{
    let mut res = String::new();
    let n: usize = value.len();
    let mut i: usize = 0;
    while i < n
        invariant
            n == value@.len(),
            i <= n,
            res@.len() == 2 * i,
            forall|k: int| 0 <= k < res@.len() ==> res@[k] == digit_at(value@, k),
        decreases n - i,
    {
        let b = value[i];
        res.append(digit_text(b / 16));
        res.append(digit_text(b % 16));
        i = i + 1;
    }
    assert(res@ =~= encoded(value@));
    res
}

/// Every value below sixteen has a lower-case digit, and that digit has
/// this value.
pub proof fn lemma_digit_of_value(n: int)
    requires
        0 <= n < 16,
    ensures
        is_hex_digit(lower_hex_digit(n)),
        hex_digit_value(lower_hex_digit(n)) == n,
        lower_case_digit(lower_hex_digit(n)) == lower_hex_digit(n),
{
}

/// The digit of a hexadecimal digit's value is that digit in lower case.
pub proof fn lemma_value_of_digit(c: char)
    requires
        is_hex_digit(c),
    ensures
        0 <= hex_digit_value(c) < 16,
        lower_hex_digit(hex_digit_value(c)) == lower_case_digit(c),
{
}

/// Encoding then decoding gives the bytes back: the text of `bytes` is
/// hexadecimal text, and it decodes to `bytes`.
pub proof fn lemma_decode_encoded(bytes: Seq<u8>)
    ensures
        is_hex_text(encoded(bytes)),
        encoded(bytes).len() == 2 * bytes.len(),
        decoded(encoded(bytes)) == bytes,
{
    let s = encoded(bytes);
    assert forall|i: int| 0 <= i < s.len() implies is_hex_digit(#[trigger] s[i]) by {
        lemma_digit_of_value(bytes[i / 2] as int / 16);
        lemma_digit_of_value(bytes[i / 2] as int % 16);
    }
    assert forall|i: int| 0 <= i < bytes.len() implies byte_at(s, i) == bytes[i] by {
        lemma_digit_of_value(bytes[i] as int / 16);
        lemma_digit_of_value(bytes[i] as int % 16);
        assert(s[2 * i] == digit_at(bytes, 2 * i));
        assert(s[2 * i + 1] == digit_at(bytes, 2 * i + 1));
    }
    assert(decoded(s) =~= bytes);
}

/// Decoding then encoding gives the text back in lower case: hexadecimal
/// text and the text of its bytes are equal up to the case of the letters.
pub proof fn lemma_encode_decoded(s: Seq<char>)
    requires
        is_hex_text(s),
    ensures
        decoded(s).len() * 2 == s.len(),
        encoded(decoded(s)) == lower_cased(s),
{
    let b = decoded(s);
    assert forall|i: int| 0 <= i < s.len() implies digit_at(b, i) == lower_case_digit(s[i]) by {
        let k = i / 2;
        lemma_value_of_digit(s[2 * k]);
        lemma_value_of_digit(s[2 * k + 1]);
        let hi = hex_digit_value(s[2 * k]);
        let lo = hex_digit_value(s[2 * k + 1]);
        assert(b[k] as int == 16 * hi + lo);
        assert((16 * hi + lo) / 16 == hi && (16 * hi + lo) % 16 == lo);
    }
    assert(encoded(b) =~= lower_cased(s));
}

/// The text of a 32-byte identifier round-trips: it decodes to 32 bytes
/// whose text is the same text in lower case, and that text decodes to
/// the same bytes again.
pub proof fn lemma_identifier_round_trip(hex: Seq<char>)
    requires
        hex.len() == 64,
        is_hex_text(hex),
    ensures
        identifier_of(hex) == Some(decoded(hex)),
        decoded(hex).len() == 32,
        encoded(decoded(hex)) == lower_cased(hex),
        identifier_of(encoded(decoded(hex))) == Some(decoded(hex)),
{
    lemma_encode_decoded(hex);
    lemma_decode_encoded(decoded(hex));
}

/// Text that is too short, too long or not hexadecimal names no
/// identifier.
pub proof fn lemma_identifier_rejected(hex: Seq<char>)
    requires
        hex.len() != 64 || exists|i: int| 0 <= i < hex.len() && !is_hex_digit(hex[i]),
    ensures
        identifier_of(hex).is_none(),
{
}

} // verus!
