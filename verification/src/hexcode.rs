use vstd::prelude::*;
use crate::text::{ascii_chars_of, lemma_ascii_decode};

verus! {

/// The lowercase hex digit for a nibble.
pub open spec fn hex_digit(n: u8) -> char {
    (if n < 10 {
        (48 + n) as u8
    } else {
        (87 + n) as u8
    }) as char
}

/// The lowercase hex rendering of a byte sequence: two digits per byte,
/// high nibble first.
pub open spec fn hex_of(bytes: Seq<u8>) -> Seq<char>
    decreases bytes.len(),
{
    if bytes.len() == 0 {
        Seq::empty()
    } else {
        seq![hex_digit(bytes.first() / 16), hex_digit(bytes.first() % 16)] + hex_of(
            bytes.drop_first(),
        )
    }
}

/// The hex rendering is twice as long as the bytes.
pub proof fn lemma_hex_of_len(bytes: Seq<u8>)
    ensures
        hex_of(bytes).len() == 2 * bytes.len(),
    decreases bytes.len(),
{
    if bytes.len() > 0 {
        lemma_hex_of_len(bytes.drop_first());
    }
}

/// Appending one byte appends its two digits.
proof fn lemma_hex_of_push(bytes: Seq<u8>, x: u8)
    ensures
        hex_of(bytes.push(x)) =~= hex_of(bytes) + seq![hex_digit(x / 16), hex_digit(x % 16)],
    decreases bytes.len(),
{
    if bytes.len() == 0 {
        let p = bytes.push(x);
        assert(p.first() == x);
        assert(p.drop_first() =~= Seq::<u8>::empty());
        assert(hex_of(p.drop_first()) =~= Seq::<char>::empty());
        assert(hex_of(p) =~= seq![hex_digit(x / 16), hex_digit(x % 16)]);
        assert(hex_of(bytes) =~= Seq::<char>::empty());
        assert(hex_of(bytes.push(x)) =~= hex_of(bytes) + seq![
            hex_digit(x / 16),
            hex_digit(x % 16),
        ]);
    } else {
        assert(bytes.push(x).first() == bytes.first());
        assert(bytes.push(x).drop_first() =~= bytes.drop_first().push(x));
        lemma_hex_of_push(bytes.drop_first(), x);
        assert(hex_of(bytes.push(x)) =~= hex_of(bytes) + seq![
            hex_digit(x / 16),
            hex_digit(x % 16),
        ]);
    }
}

/// The hex rendering is an even-length string of lowercase hex digits.
pub proof fn lemma_hex_of_is_hex_lower(bytes: Seq<u8>)
    ensures
        is_hex_lower(hex_of(bytes)),
    decreases bytes.len(),
{
    lemma_hex_of_len(bytes);
    if bytes.len() > 0 {
        lemma_hex_of_is_hex_lower(bytes.drop_first());
        let hd = seq![hex_digit(bytes.first() / 16), hex_digit(bytes.first() % 16)];
        let tl = hex_of(bytes.drop_first());
        assert forall|i: int| 0 <= i < hex_of(bytes).len() implies (('0'
            <= #[trigger] hex_of(bytes)[i] <= '9') || ('a' <= hex_of(bytes)[i] <= 'f')) by {
            if i < 2 {
                assert(hex_of(bytes)[i] == hd[i]);
                assert(bytes.first() / 16 < 16 && bytes.first() % 16 < 16);
            } else {
                assert(hex_of(bytes)[i] == tl[i - 2]);
            }
        }
    }
}

/// Relies on `hex::encode`: two lowercase hex digits per byte, high nibble
/// first.
#[verifier::external_body]
pub(crate) fn hex_encode(bytes: &[u8]) -> (r: String)
    ensures
        r@ == hex_of(bytes@),
{
    hex::encode(bytes)
}

/// The value of a lowercase hex digit given as an ASCII byte.
pub open spec fn hex_val_byte(b: u8) -> Option<u8> {
    if 48 <= b <= 57 {
        Some((b - 48) as u8)
    } else if 97 <= b <= 102 {
        Some((b - 87) as u8)
    } else {
        None
    }
}

/// `chars` is an even-length string of lowercase hex digits.
pub open spec fn is_hex_lower(chars: Seq<char>) -> bool {
    &&& chars.len() % 2 == 0
    &&& forall|i: int|
        0 <= i < chars.len() ==> (('0' <= #[trigger] chars[i] <= '9') || ('a' <= chars[i] <= 'f'))
}

/// Reads a lowercase hex string back into bytes. Returns the bytes exactly
/// when the string is an even-length string of lowercase hex digits, and the
/// bytes render back to the same string.
pub fn hex_str_to_bytes(s: &str) -> (r: Option<Vec<u8>>)
    ensures
        r matches Some(v) ==> {
            &&& is_hex_lower(s@)
            &&& hex_of(v@) == s@
            &&& 2 * v@.len() == s@.len()
        },
        r is None ==> !is_hex_lower(s@),
{
    let bytes = s.as_bytes();
    proof {
        vstd::utf8::encode_utf8_decode_utf8(s@);
    }
    if bytes.len() % 2 != 0 {
        proof {
            if is_hex_lower(s@) {
                hex_ascii_contradiction(s@, bytes@);
            }
        }
        return None;
    }
    let n = bytes.len() / 2;
    let mut v: Vec<u8> = Vec::new();
    for i in 0..n
        invariant
            bytes@ == vstd::utf8::encode_utf8(s@),
            bytes@.len() == 2 * n,
            2 * n <= usize::MAX,
            v@.len() == i,
            forall|j: int|
                0 <= j < 2 * i ==> (#[trigger] hex_val_byte(bytes@[j])) is Some && bytes@[j] < 128,
            hex_of(v@) =~= ascii_chars_of(bytes@.subrange(0, 2 * i as int)),
    {
        let h = *vstd::slice::slice_index_get(bytes, 2 * i);
        let l = *vstd::slice::slice_index_get(bytes, 2 * i + 1);
        let hv: u8;
        let lv: u8;
        if 48 <= h && h <= 57 {
            hv = h - 48;
        } else if 97 <= h && h <= 102 {
            hv = h - 87;
        } else {
            proof {
                assert(hex_val_byte(bytes@[2 * i as int]) is None);
                if is_hex_lower(s@) {
                    hex_ascii_contradiction(s@, bytes@);
                }
            }
            return None;
        }
        if 48 <= l && l <= 57 {
            lv = l - 48;
        } else if 97 <= l && l <= 102 {
            lv = l - 87;
        } else {
            proof {
                assert(hex_val_byte(bytes@[2 * i as int + 1]) is None);
                if is_hex_lower(s@) {
                    hex_ascii_contradiction(s@, bytes@);
                }
            }
            return None;
        }
        let b: u8 = hv * 16 + lv;
        proof {
            lemma_hex_of_push(v@, b);
            assert(bytes@.subrange(0, 2 * (i + 1) as int) =~= bytes@.subrange(0, 2 * i as int)
                + seq![bytes@[2 * i as int], bytes@[2 * i as int + 1]]);
            assert(hex_digit(b / 16) == h as char);
            assert(hex_digit(b % 16) == l as char);
            assert(hex_of(v@.push(b)) =~= ascii_chars_of(bytes@.subrange(0, 2 * (i + 1) as int)));
        }
        v.push(b);
    }
    proof {
        assert(bytes@.subrange(0, 2 * n as int) =~= bytes@);
        assert forall|j: int| 0 <= j < bytes@.len() implies #[trigger] bytes@[j] < 128 by {
            assert(hex_val_byte(bytes@[j]) is Some && bytes@[j] < 128);
        }
        lemma_ascii_decode(bytes@);
        assert(s@ == ascii_chars_of(bytes@));
        lemma_hex_of_len(v@);
        assert forall|i: int| 0 <= i < s@.len() implies (('0' <= #[trigger] s@[i] <= '9') || ('a'
            <= s@[i] <= 'f')) by {
            assert(hex_val_byte(bytes@[i]) is Some);
            assert(s@[i] == bytes@[i] as char);
        }
    }
    Some(v)
}

/// If every character of `chars` is a lowercase hex digit, its UTF-8 bytes
/// match it character for character; a non-hex byte is then impossible.
proof fn hex_ascii_contradiction(chars: Seq<char>, bytes: Seq<u8>)
    requires
        is_hex_lower(chars),
        bytes == vstd::utf8::encode_utf8(chars),
    ensures
        bytes.len() == chars.len(),
        forall|i: int| 0 <= i < bytes.len() ==> (#[trigger] hex_val_byte(bytes[i])) is Some,
{
    assert(vstd::utf8::is_ascii_chars(chars));
    vstd::utf8::is_ascii_chars_encode_utf8(chars);
    assert forall|i: int| 0 <= i < bytes.len() implies (#[trigger] hex_val_byte(bytes[i]))
        is Some by {
        assert(chars[i] as u8 == bytes[i]);
        assert(('0' <= chars[i] <= '9') || ('a' <= chars[i] <= 'f'));
    }
}

} // verus!
