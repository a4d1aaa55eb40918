//! UTF-16, as PTP strings carry text: the encoding of a `char` sequence,
//! verified, and the lossy decoding of a `u16` sequence, which the standard
//! library does.

use vstd::prelude::*;

verus! {

/// A UTF-16 code unit that is half of a surrogate pair.
pub open spec fn is_surrogate(u: u16) -> bool {
    0xD800 <= u <= 0xDFFF
}

/// A leading (high) surrogate.
pub open spec fn is_high_surrogate(u: u16) -> bool {
    0xD800 <= u <= 0xDBFF
}

/// A trailing (low) surrogate.
pub open spec fn is_low_surrogate(u: u16) -> bool {
    0xDC00 <= u <= 0xDFFF
}

/// The character that a surrogate pair stands for.
pub open spec fn surrogate_pair_char(hi: u16, lo: u16) -> char {
    (0x10000 + (hi - 0xD800) * 0x400 + (lo - 0xDC00)) as char
}

/// The UTF-16 code units of one character: itself below U+10000, else a
/// surrogate pair.
pub open spec fn utf16_encode_char(c: char) -> Seq<u16> {
    if (c as int) < 0x10000 {
        seq![c as u16]
    } else {
        let v = c as int - 0x10000;
        seq![(0xD800 + v / 0x400) as u16, (0xDC00 + v % 0x400) as u16]
    }
}

/// The UTF-16 code units of a character sequence, in order.
pub open spec fn utf16_encode(s: Seq<char>) -> Seq<u16>
    decreases s.len(),
{
    if s.len() == 0 {
        seq![]
    } else {
        utf16_encode_char(s[0]) + utf16_encode(s.drop_first())
    }
}

/// Lossy UTF-16 decoding: a surrogate pair gives its character, a unit that
/// is no surrogate gives itself, and any other surrogate gives U+FFFD.
pub open spec fn utf16_decode_lossy(u: Seq<u16>) -> Seq<char>
    decreases u.len(),
{
    if u.len() == 0 {
        seq![]
    } else if !is_surrogate(u[0]) {
        seq![u[0] as char] + utf16_decode_lossy(u.drop_first())
    } else if is_high_surrogate(u[0]) && u.len() >= 2 && is_low_surrogate(u[1]) {
        seq![surrogate_pair_char(u[0], u[1])] + utf16_decode_lossy(u.subrange(2, u.len() as int))
    } else {
        seq!['\u{FFFD}'] + utf16_decode_lossy(u.drop_first())
    }
}

/// `String::from_utf16_lossy`: decodes `units` as UTF-16, replacing each
/// unpaired surrogate with U+FFFD, as the standard library documents.
#[verifier::external_body]
pub fn string_from_utf16_lossy(units: &[u16]) -> (s: String)
    ensures
        s@ == utf16_decode_lossy(units@),
{
    String::from_utf16_lossy(units)
}

/// Encoding a text made of two parts encodes each part in turn.
pub proof fn lemma_encode_append(a: Seq<char>, b: Seq<char>)
    ensures
        utf16_encode(a + b) == utf16_encode(a) + utf16_encode(b),
    decreases a.len(),
{
    if a.len() > 0 {
        lemma_encode_append(a.drop_first(), b);
        assert((a + b).drop_first() == a.drop_first() + b);
        assert((a + b)[0] == a[0]);
    } else {
        assert(a + b == b);
    }
}

/// The UTF-16 code units of `s` in order (what `str::encode_utf16` yields).
pub fn encode_utf16(s: &str) -> (units: Vec<u16>)
    ensures
        units@ == utf16_encode(s@),
{
    let n = s.unicode_len();
    let mut units: Vec<u16> = Vec::new();
    let mut i: usize = 0;
    while i < n
        invariant
            n == s@.len(),
            i <= n,
            units@ == utf16_encode(s@.take(i as int)),
        decreases n - i,
    {
        let c = s.get_char(i);
        let v = c as u32;
        let ghost before = units@;
        if v < 0x10000 {
            units.push(v as u16);
        } else {
            let w = v - 0x10000;
            units.push((0xD800 + w / 0x400) as u16);
            units.push((0xDC00 + w % 0x400) as u16);
        }
        proof {
            assert(units@ == before + utf16_encode_char(c));
            assert(utf16_encode(seq![c]) == utf16_encode_char(c) + utf16_encode(
                seq![c].drop_first(),
            ));
            assert(seq![c].drop_first() == Seq::<char>::empty());
            lemma_encode_append(s@.take(i as int), seq![c]);
            assert(s@.take(i + 1) == s@.take(i as int) + seq![c]);
        }
        i = i + 1;
    }
    assert(s@.take(n as int) == s@);
    units
}

/// Decoding one character's units gives that character back, and none of
/// them is zero unless the character is NUL.
pub proof fn lemma_encode_char(c: char, rest: Seq<u16>)
    ensures
        utf16_decode_lossy(utf16_encode_char(c) + rest) == seq![c] + utf16_decode_lossy(rest),
        c != '\0' ==> forall|i: int|
            0 <= i < utf16_encode_char(c).len() ==> #[trigger] utf16_encode_char(c)[i] != 0,
{
    let u = utf16_encode_char(c) + rest;
    if (c as int) < 0x10000 {
        assert(u.drop_first() == rest);
        assert((c as u16) as char == c);
    } else {
        let v = c as int - 0x10000;
        vstd::arithmetic::div_mod::lemma_fundamental_div_mod(v, 0x400);
        assert(u.subrange(2, u.len() as int) == rest);
        assert(surrogate_pair_char(u[0], u[1]) == c);
    }
}

/// Lossy decoding undoes encoding, and a text without NUL encodes to units
/// that are all nonzero.
pub proof fn lemma_decode_encode(s: Seq<char>)
    ensures
        utf16_decode_lossy(utf16_encode(s)) == s,
        !s.contains('\0') ==> forall|i: int|
            0 <= i < utf16_encode(s).len() ==> #[trigger] utf16_encode(s)[i] != 0,
        s.len() <= utf16_encode(s).len() <= 2 * s.len(),
    decreases s.len(),
{
    if s.len() > 0 {
        let rest = s.drop_first();
        lemma_decode_encode(rest);
        lemma_encode_char(s[0], utf16_encode(rest));
        assert(seq![s[0]] + rest == s);
        if !s.contains('\0') {
            assert(s[0] != '\0');
            assert forall|j: int| 0 <= j < rest.len() implies rest[j] != '\0' by {
                assert(s[j + 1] == rest[j]);
            }
            let e = utf16_encode(s);
            let e0 = utf16_encode_char(s[0]);
            assert forall|i: int| 0 <= i < e.len() implies #[trigger] e[i] != 0 by {
                if i < e0.len() {
                    assert(e[i] == e0[i]);
                } else {
                    assert(e[i] == utf16_encode(rest)[i - e0.len()]);
                }
            }
        }
    }
}

} // verus!
