use vstd::prelude::*;
use vstd::utf8::{valid_utf8, decode_utf8};
use vstd::string::StringExecFns;
use crate::errors::StoreError;

verus! {

/// Equality of two byte slices, decided element by element.
pub fn bytes_eq(a: &[u8], b: &[u8]) -> (r: bool)
    ensures
        r == (a@ == b@),
{
    if a.len() != b.len() {
        return false;
    }
    for i in 0..a.len()
        invariant
            a@.len() == b@.len(),
            forall|j: int| 0 <= j < i ==> a@[j] == b@[j],
    {
        if *vstd::slice::slice_index_get(a, i) != *vstd::slice::slice_index_get(b, i) {
            return false;
        }
    }
    proof {
        assert(a@ =~= b@);
    }
    true
}

/// Equality of two string slices, decided on their UTF-8 bytes.
pub fn str_eq(a: &str, b: &str) -> (r: bool)
    ensures
        r == (a@ == b@),
{
    let r = bytes_eq(a.as_bytes(), b.as_bytes());
    proof {
        vstd::utf8::encode_utf8_decode_utf8(a@);
        vstd::utf8::encode_utf8_decode_utf8(b@);
    }
    r
}

/// The ASCII decimal digits of `n`, most significant first.
pub open spec fn dec_digits(n: nat) -> Seq<u8>
    decreases n,
{
    if n < 10 {
        seq![(48 + n) as u8]
    } else {
        dec_digits(n / 10).push((48 + n % 10) as u8)
    }
}

/// `s` consists of at least one ASCII decimal digit and nothing else.
pub open spec fn is_dec_digits(s: Seq<u8>) -> bool {
    s.len() > 0 && forall|i: int| 0 <= i < s.len() ==> 48 <= #[trigger] s[i] <= 57
}

/// The value of a sequence of ASCII decimal digits.
pub open spec fn dec_value(s: Seq<u8>) -> nat
    decreases s.len(),
{
    if s.len() == 0 {
        0
    } else {
        dec_value(s.drop_last()) * 10 + (if 48 <= s.last() {
            (s.last() - 48) as nat
        } else {
            0
        })
    }
}

/// Formats `n` in decimal, as ASCII bytes.
pub fn usize_to_dec(n: usize) -> (r: Vec<u8>)
    ensures
        r@ == dec_digits(n as nat),
    decreases n,
{
    if n < 10 {
        let d: u8 = (48 + n) as u8;
        vec![d]
    } else {
        let mut r = usize_to_dec(n / 10);
        r.push((48 + n % 10) as u8);
        r
    }
}

/// A longer digit string never has the smaller value: extending a digit
/// string cannot shrink the number it denotes.
proof fn lemma_dec_value_prefix(s: Seq<u8>, i: int)
    requires
        0 <= i <= s.len(),
        forall|j: int| 0 <= j < s.len() ==> 48 <= #[trigger] s[j] <= 57,
    ensures
        dec_value(s.subrange(0, i)) <= dec_value(s),
    decreases s.len() - i,
{
    if i < s.len() {
        let t = s.subrange(0, i + 1);
        assert(t.drop_last() =~= s.subrange(0, i));
        assert(dec_value(s.subrange(0, i)) <= dec_value(s.subrange(0, i + 1)));
        lemma_dec_value_prefix(s, i + 1);
        assert(s.subrange(0, s.len() as int) =~= s);
    } else {
        assert(s.subrange(0, i) =~= s);
    }
}

/// Reads a decimal number from ASCII bytes. Returns the value when `s` is a
/// non-empty, all-digit string whose value fits in `usize`, and `None`
/// otherwise.
pub fn parse_dec(s: &[u8]) -> (r: Option<usize>)
    ensures
        r matches Some(v) ==> is_dec_digits(s@) && v == dec_value(s@),
        r is None ==> !(is_dec_digits(s@) && dec_value(s@) <= usize::MAX),
{
    if s.len() == 0 {
        return None;
    }
    let mut acc: usize = 0;
    let n = s.len();
    for i in 0..n
        invariant
            n == s@.len(),
            0 < n,
            forall|j: int| 0 <= j < i ==> 48 <= #[trigger] s@[j] <= 57,
            acc == dec_value(s@.subrange(0, i as int)),
    {
        let b = *vstd::slice::slice_index_get(s, i);
        if b < 48 || b > 57 {
            return None;
        }
        let d: usize = (b - 48) as usize;
        proof {
            assert(s@.subrange(0, i as int + 1).drop_last() =~= s@.subrange(0, i as int));
            assert(s@.subrange(0, i as int + 1).last() == s@[i as int]);
            assert(dec_value(s@.subrange(0, i as int + 1)) == acc * 10 + d);
        }
        let shifted = match acc.checked_mul(10) {
            Some(x) => x,
            None => {
                proof {
                    if is_dec_digits(s@) {
                        lemma_dec_value_prefix(s@, i as int + 1);
                    }
                }
                return None;
            },
        };
        let next = match shifted.checked_add(d) {
            Some(x) => x,
            None => {
                proof {
                    if is_dec_digits(s@) {
                        lemma_dec_value_prefix(s@, i as int + 1);
                    }
                }
                return None;
            },
        };
        acc = next;
    }
    proof {
        assert(s@.subrange(0, n as int) =~= s@);
    }
    Some(acc)
}

/// The characters that a sequence of ASCII bytes stands for, one per byte.
pub open spec fn ascii_chars_of(bytes: Seq<u8>) -> Seq<char> {
    Seq::new(bytes.len(), |i: int| bytes[i] as char)
}

/// A sequence of bytes below 128 is valid UTF-8 and decodes byte by byte.
pub proof fn lemma_ascii_decode(bytes: Seq<u8>)
    requires
        forall|i: int| 0 <= i < bytes.len() ==> #[trigger] bytes[i] < 128,
    ensures
        valid_utf8(bytes),
        decode_utf8(bytes) == ascii_chars_of(bytes),
        vstd::utf8::encode_utf8(ascii_chars_of(bytes)) == bytes,
{
    let chars = ascii_chars_of(bytes);
    assert(vstd::utf8::is_ascii_chars(chars)) by {
        assert forall|i: int| 0 <= i < chars.len() implies '\0' <= #[trigger] chars[i]
            <= '\u{7f}' by {
            assert(bytes[i] < 128);
        }
    }
    vstd::utf8::is_ascii_chars_encode_utf8(chars);
    assert(vstd::utf8::encode_utf8(chars) =~= bytes);
    vstd::utf8::encode_utf8_decode_utf8(chars);
    vstd::utf8::encode_utf8_valid_utf8(chars);
}

/// What `String::from_utf8_lossy` returns: a character sequence determined
/// by the bytes alone.
pub uninterp spec fn lossy_utf8_of(bytes: Seq<u8>) -> Seq<char>;

/// Relies on `String::from_utf8_lossy`: the result is a pure function of the
/// bytes, and valid UTF-8 input is decoded exactly. Invalid sequences become
/// replacement characters, so a non-empty input yields a non-empty result,
/// and a NUL character can only come from a NUL byte.
#[verifier::external_body]
pub(crate) fn utf8_decode_lossy(v: &[u8]) -> (r: String)
    ensures
        r@ == lossy_utf8_of(v@),
        valid_utf8(v@) ==> r@ == decode_utf8(v@),
        v@.len() > 0 ==> r@.len() > 0,
        !v@.contains(0u8) ==> !r@.contains('\0'),
{
    String::from_utf8_lossy(v).to_string()
}

/// Relies on `str::from_utf8`: it succeeds exactly on valid UTF-8 and
/// decodes it.
#[verifier::external_body]
pub(crate) fn utf8_decode(v: &[u8]) -> (r: Result<String, StoreError>)
    ensures
        r is Ok <==> valid_utf8(v@),
        r matches Ok(s) ==> s@ == decode_utf8(v@),
        r matches Err(e) ==> e == StoreError::InvalidEncoding,
{
    match core::str::from_utf8(v) {
        Ok(s) => Ok(s.to_string()),
        Err(_) => Err(StoreError::InvalidEncoding),
    }
}

} // verus!
