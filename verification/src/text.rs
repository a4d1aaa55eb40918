//! Small pieces of text formatting used when showing recipes: decimal
//! numbers, signed values, right-aligned labels and capitalised messages.

use vstd::prelude::*;
use vstd::string::{StrSliceExecFns, StringExecFns};

verus! {

/// The ASCII digit for `d`, which is below ten.
pub open spec fn digit_char(d: nat) -> char {
    (48 + d) as char
}

/// The decimal digits of `n`, most significant first, without leading zeros.
pub open spec fn decimal(n: nat) -> Seq<char>
    decreases n,
{
    if n < 10 {
        seq![digit_char(n)]
    } else {
        decimal(n / 10).push(digit_char(n % 10))
    }
}

/// The one-character string of digit `d`.
fn digit_str(d: u64) -> (s: &'static str)
    requires
        d < 10,
    ensures
        s@ == seq![digit_char(d as nat)],
{
    proof {
        reveal_strlit("0");
        reveal_strlit("1");
        reveal_strlit("2");
        reveal_strlit("3");
        reveal_strlit("4");
        reveal_strlit("5");
        reveal_strlit("6");
        reveal_strlit("7");
        reveal_strlit("8");
        reveal_strlit("9");
    }
    match d {
        0 => "0",
        1 => "1",
        2 => "2",
        3 => "3",
        4 => "4",
        5 => "5",
        6 => "6",
        7 => "7",
        8 => "8",
        _ => "9",
    }
}

/// Append the decimal digits of `n` to `out`.
pub fn push_decimal(out: &mut String, n: u64)
    ensures
        final(out)@ == old(out)@ + decimal(n as nat),
    decreases n,
{
    if n >= 10 {
        push_decimal(out, n / 10);
    }
    out.append(digit_str(n % 10));
}

/// A whole number with its sign: `0`, or `+` or `-` then its digits.
pub open spec fn signed_text(n: int) -> Seq<char> {
    if n == 0 {
        "0"@
    } else if n > 0 {
        "+"@ + decimal(n as nat)
    } else {
        "-"@ + decimal((-n) as nat)
    }
}

/// Show an integer setting: `0`, or the value with its sign.
pub fn fmt_i32(n: i32) -> (s: String)
    ensures
        s@ == signed_text(n as int),
{
    if n == 0 {
        return "0".to_owned();
    }
    let mut s = String::new();
    if n > 0 {
        s.append("+");
        push_decimal(&mut s, n as u64);
    } else {
        s.append("-");
        let abs = (-(n as i64)) as u64;
        push_decimal(&mut s, abs);
    }
    s
}

/// A whole number always with its sign: `+` or `-`, then its digits (`+0`
/// for zero).
pub open spec fn plus_signed_text(n: int) -> Seq<char> {
    if n >= 0 {
        "+"@ + decimal(n as nat)
    } else {
        "-"@ + decimal((-n) as nat)
    }
}

/// Append `n` with its sign, `+0` for zero.
fn push_plus_signed(out: &mut String, n: i32)
    ensures
        final(out)@ == old(out)@ + plus_signed_text(n as int),
{
    proof {
        reveal_strlit("+");
        reveal_strlit("-");
    }
    if n >= 0 {
        out.append("+");
        push_decimal(out, n as u64);
    } else {
        out.append("-");
        let abs = (-(n as i64)) as u64;
        push_decimal(out, abs);
    }
}

/// The white balance shift after the white balance's name: nothing when
/// both shifts are 0, else ` (R<red>, B<blue>)` with each shift signed.
pub open spec fn wb_shift_spec(red: int, blue: int) -> Seq<char> {
    if red == 0 && blue == 0 {
        seq![]
    } else {
        " (R"@ + plus_signed_text(red) + ", B"@ + plus_signed_text(blue) + ")"@
    }
}

/// Show a white balance shift, as it follows the white balance's name.
pub fn wb_shift_text(red: i32, blue: i32) -> (s: String)
    ensures
        s@ == wb_shift_spec(red as int, blue as int),
{
    let mut s = String::new();
    if red == 0 && blue == 0 {
        return s;
    }
    s.append(" (R");
    push_plus_signed(&mut s, red);
    s.append(", B");
    push_plus_signed(&mut s, blue);
    s.append(")");
    proof {
        reveal_strlit(" (R");
        reveal_strlit(", B");
        reveal_strlit(")");
    }
    s
}

/// Exposure compensation in thirds of a stop as shown with a recipe: `0`,
/// or the signed count of thirds over 3 (`+4/3`, `-1/3`).
pub open spec fn exposure_spec(thirds: int) -> Seq<char> {
    if thirds == 0 {
        "0"@
    } else {
        plus_signed_text(thirds) + "/3"@
    }
}

/// Show exposure compensation given in thirds of a stop.
pub fn exposure_text(thirds: i32) -> (s: String)
    ensures
        s@ == exposure_spec(thirds as int),
{
    proof {
        reveal_strlit("0");
        reveal_strlit("/3");
    }
    if thirds == 0 {
        return "0".to_owned();
    }
    let mut s = String::new();
    push_plus_signed(&mut s, thirds);
    s.append("/3");
    s
}

/// Exposure in thirds of a stop as a fraction: `0`, or a sign, then the
/// whole stops, then the remaining thirds as `1/3` or `2/3`, with a space
/// between when there are both (`+1/3`, `-1`, `+1 2/3`).
pub open spec fn thirds_text(thirds: int) -> Seq<char> {
    if thirds == 0 {
        "0"@
    } else {
        let sign = if thirds > 0 {
            "+"@
        } else {
            "-"@
        };
        let abs = if thirds > 0 {
            thirds
        } else {
            -thirds
        };
        let whole = abs / 3;
        let rem = abs % 3;
        if whole == 0 {
            sign + decimal(rem as nat) + "/3"@
        } else if rem == 0 {
            sign + decimal(whole as nat)
        } else {
            sign + decimal(whole as nat) + " "@ + decimal(rem as nat) + "/3"@
        }
    }
}

/// Show an exposure given in thirds of a stop as a fraction.
pub fn format_thirds(thirds: i32) -> (s: String)
    ensures
        s@ == thirds_text(thirds as int),
{
    if thirds == 0 {
        return "0".to_owned();
    }
    let mut s = String::new();
    s.append(if thirds > 0 { "+" } else { "-" });
    let abs: u64 = if thirds > 0 {
        thirds as u64
    } else {
        (-(thirds as i64)) as u64
    };
    let whole = abs / 3;
    let rem = abs % 3;
    if whole == 0 {
        push_decimal(&mut s, rem);
        s.append("/3");
    } else if rem == 0 {
        push_decimal(&mut s, whole);
    } else {
        push_decimal(&mut s, whole);
        s.append(" ");
        push_decimal(&mut s, rem);
        s.append("/3");
    }
    s
}

/// `s` right-aligned in a field of 14 characters.
pub open spec fn label_text(s: Seq<char>) -> Seq<char> {
    if s.len() >= 14 {
        s
    } else {
        Seq::new((14 - s.len()) as nat, |i: int| ' ') + s
    }
}

/// Right-align a label in a field of 14 characters.
pub fn label(s: &str) -> (res: String)
    ensures
        res@ == label_text(s@),
{
    let n = s.unicode_len();
    let mut res = String::new();
    let mut i: usize = n;
    while i < 14
        invariant
            n == s@.len(),
            n <= i <= 14 || (n > 14 && i == n),
            res@ == Seq::new((i - n) as nat, |k: int| ' '),
        decreases 14 - i,
    {
        res.append(" ");
        i = i + 1;
        proof {
            reveal_strlit(" ");
        }
        assert(res@ == Seq::new((i - n) as nat, |k: int| ' '));
    }
    res.append(s);
    proof {
        if n >= 14 {
            assert(res@ == s@);
        }
    }
    res
}

/// The uppercase mapping of `c` (one or more characters), as Unicode defines
/// it and the standard library implements it.
pub uninterp spec fn char_to_uppercase(c: char) -> Seq<char>;

/// `char::to_uppercase`, collected into a string: the uppercase mapping of
/// `c`.  An ASCII lowercase letter maps to its capital; any other ASCII
/// character, having no uppercase mapping, maps to itself.
#[verifier::external_body]
fn to_uppercase(c: char) -> (s: String)
    ensures
        s@ == char_to_uppercase(c),
        'a' <= c <= 'z' ==> s@ == seq![((c as u32) - 32) as char],
        (c as u32) < 128 && !('a' <= c <= 'z') ==> s@ == seq![c],
{
    c.to_uppercase().to_string()
}

/// `s` with its first character in upper case.
pub open spec fn capitalized(s: Seq<char>) -> Seq<char> {
    if s.len() == 0 {
        s
    } else {
        char_to_uppercase(s[0]) + s.drop_first()
    }
}

/// `s` with its first character in upper case.
pub fn capitalize(s: &str) -> (res: String)
    ensures
        res@ == capitalized(s@),
        s@.len() == 0 ==> res@.len() == 0,
        s@.len() > 0 && 'a' <= s@[0] <= 'z' ==> res@ == seq![((s@[0] as u32) - 32) as char]
            + s@.drop_first(),
        s@.len() > 0 && (s@[0] as u32) < 128 && !('a' <= s@[0] <= 'z') ==> res@ == s@,
{
    let n = s.unicode_len();
    if n == 0 {
        return String::new();
    }
    let mut res = to_uppercase(s.get_char(0));
    res.append(s.substring_char(1, n));
    proof {
        assert(s@.subrange(1, n as int) == s@.drop_first());
        assert(seq![s@[0]] + s@.drop_first() == s@);
    }
    res
}

/// An error message as a sentence: capitalized, and ending in a full stop.
pub open spec fn sentence(msg: Seq<char>) -> Seq<char> {
    let c = capitalized(msg);
    if c.len() > 0 && c.last() == '.' {
        c
    } else {
        c.push('.')
    }
}

/// Turn an error message into a sentence: capitalize it, and end it with a
/// full stop unless it has one.
pub fn error_sentence(msg: &str) -> (res: String)
    ensures
        res@ == sentence(msg@),
{
    let mut c = capitalize(msg);
    let n = c.as_str().unicode_len();
    if n > 0 && c.as_str().get_char(n - 1) == '.' {
        return c;
    }
    c.append(".");
    proof {
        reveal_strlit(".");
    }
    c
}

/// Whether two strings hold the same characters.
pub fn str_eq(a: &str, b: &str) -> (res: bool)
    ensures
        res == (a@ == b@),
{
    let n = a.unicode_len();
    if n != b.unicode_len() {
        return false;
    }
    let mut i: usize = 0;
    while i < n
        invariant
            n == a@.len() == b@.len(),
            0 <= i <= n,
            a@.take(i as int) == b@.take(i as int),
        decreases n - i,
    {
        if a.get_char(i) != b.get_char(i) {
            assert(a@[i as int] != b@[i as int]);
            return false;
        }
        i = i + 1;
        assert(a@.take(i as int) == a@.take(i - 1).push(a@[i - 1]));
        assert(b@.take(i as int) == b@.take(i - 1).push(b@[i - 1]));
    }
    assert(a@ == a@.take(n as int));
    assert(b@ == b@.take(n as int));
    true
}

/// Whether `s` starts with `prefix`.
pub fn starts_with(s: &str, prefix: &str) -> (res: bool)
    ensures
        res == (prefix@.len() <= s@.len() && s@.take(prefix@.len() as int) == prefix@),
{
    let n = prefix.unicode_len();
    if n > s.unicode_len() {
        return false;
    }
    let head = s.substring_char(0, n);
    str_eq(head, prefix)
}

/// `a` sorts before `b`: lexicographic order by code point, a proper
/// prefix first.  (For strings this is the order of their UTF-8 bytes.)
pub open spec fn seq_lt(a: Seq<char>, b: Seq<char>) -> bool
    decreases a.len(),
{
    if a.len() == 0 {
        b.len() > 0
    } else if b.len() == 0 {
        false
    } else if a[0] != b[0] {
        (a[0] as int) < (b[0] as int)
    } else {
        seq_lt(a.drop_first(), b.drop_first())
    }
}

/// Comparing past a common prefix.
pub proof fn lemma_seq_lt_skip(a: Seq<char>, b: Seq<char>, i: int)
    requires
        0 <= i <= a.len(),
        i <= b.len(),
        a.take(i) == b.take(i),
    ensures
        seq_lt(a, b) == seq_lt(a.skip(i), b.skip(i)),
    decreases i,
{
    if i > 0 {
        assert(a[0] == a.take(i)[0] && b[0] == b.take(i)[0]);
        assert(a.drop_first().take(i - 1) == a.take(i).drop_first());
        assert(b.drop_first().take(i - 1) == b.take(i).drop_first());
        lemma_seq_lt_skip(a.drop_first(), b.drop_first(), i - 1);
        assert(a.drop_first().skip(i - 1) == a.skip(i));
        assert(b.drop_first().skip(i - 1) == b.skip(i));
    } else {
        assert(a.skip(0) == a);
        assert(b.skip(0) == b);
    }
}

/// The order is a strict total order.
pub proof fn lemma_seq_lt_total(a: Seq<char>, b: Seq<char>)
    ensures
        !seq_lt(a, a),
        seq_lt(a, b) ==> !seq_lt(b, a),
        a != b ==> seq_lt(a, b) || seq_lt(b, a),
    decreases a.len(),
{
    if a.len() > 0 && b.len() > 0 {
        lemma_seq_lt_total(a.drop_first(), b.drop_first());
        lemma_seq_lt_total(a.drop_first(), a.drop_first());
        if a[0] == b[0] && a != b {
            assert(a.drop_first() != b.drop_first()) by {
                if a.drop_first() == b.drop_first() {
                    assert(a == seq![a[0]] + a.drop_first());
                    assert(b == seq![b[0]] + b.drop_first());
                }
            }
        }
        if a[0] != b[0] {
            assert((a[0] as int) != (b[0] as int));
        }
    } else if a.len() > 0 {
        lemma_seq_lt_total(a.drop_first(), a.drop_first());
    } else if b.len() == 0 {
        assert(a == b);
    }
}

/// The order is transitive.
pub proof fn lemma_seq_lt_trans(a: Seq<char>, b: Seq<char>, c: Seq<char>)
    requires
        seq_lt(a, b),
        seq_lt(b, c),
    ensures
        seq_lt(a, c),
    decreases a.len(),
{
    if a.len() > 0 && b.len() > 0 && c.len() > 0 {
        if a[0] == b[0] && b[0] == c[0] {
            lemma_seq_lt_trans(a.drop_first(), b.drop_first(), c.drop_first());
        }
    }
}

/// Whether `a` sorts before `b`.
pub fn str_lt(a: &str, b: &str) -> (res: bool)
    ensures
        res == seq_lt(a@, b@),
{
    let la = a.unicode_len();
    let lb = b.unicode_len();
    let mut i: usize = 0;
    while i < la && i < lb && a.get_char(i) == b.get_char(i)
        invariant
            la == a@.len(),
            lb == b@.len(),
            i <= la,
            i <= lb,
            a@.take(i as int) == b@.take(i as int),
        decreases la - i,
    {
        i = i + 1;
        assert(a@.take(i as int) == a@.take(i - 1).push(a@[i - 1]));
        assert(b@.take(i as int) == b@.take(i - 1).push(b@[i - 1]));
    }
    proof {
        lemma_seq_lt_skip(a@, b@, i as int);
    }
    if i == la {
        i < lb
    } else if i == lb {
        false
    } else {
        let ca = a.get_char(i);
        let cb = b.get_char(i);
        proof {
            assert(a@.skip(i as int)[0] == ca);
            assert(b@.skip(i as int)[0] == cb);
        }
        (ca as u32) < (cb as u32)
    }
}


/// The number that a string of decimal digits denotes.
pub open spec fn digits_value(s: Seq<char>) -> int
    decreases s.len(),
{
    if s.len() == 0 {
        0
    } else {
        10 * digits_value(s.drop_last()) + (s.last() as int - 48)
    }
}

/// `s` is a numeral: one or more ASCII digits, without a leading zero
/// unless it is `0` itself.
pub open spec fn is_numeral(s: Seq<char>) -> bool {
    &&& s.len() > 0
    &&& forall|i: int| 0 <= i < s.len() ==> 48 <= (#[trigger] s[i] as int) <= 57
    &&& s.len() > 1 ==> s[0] != '0'
}

/// `decimal(n)` is the numeral of `n`.
pub proof fn lemma_decimal_denotes(n: nat)
    ensures
        is_numeral(decimal(n)),
        digits_value(decimal(n)) == n,
        n > 0 ==> decimal(n)[0] != '0',
    decreases n,
{
    if n < 10 {
        let d = decimal(n);
        assert(d[0] == digit_char(n));
        assert((digit_char(n) as int) == 48 + n);
        assert(d.last() == digit_char(n));
        assert(d.drop_last() == Seq::<char>::empty());
        assert(digits_value(d.drop_last()) == 0);
    } else {
        lemma_decimal_denotes(n / 10);
        let h = decimal(n / 10);
        let d = decimal(n);
        assert(d.drop_last() == h);
        assert(d.last() == digit_char((n % 10) as nat));
        assert((digit_char((n % 10) as nat) as int) == 48 + n % 10);
        assert(10 * (n / 10) + n % 10 == n);
        assert(d[0] == h[0]);
        assert forall|i: int| 0 <= i < d.len() implies 48 <= (#[trigger] d[i] as int) <= 57 by {
            if i < h.len() {
                assert(d[i] == h[i]);
            }
        }
    }
}

/// The sign character of a nonzero number.
pub open spec fn sign_char(n: int) -> char {
    if n > 0 {
        '+'
    } else {
        '-'
    }
}

/// The size of a number, without its sign.
pub open spec fn magnitude(n: int) -> int {
    if n >= 0 {
        n
    } else {
        -n
    }
}

/// Signed texts denote their numbers: `fmt_i32`'s text is `0` for zero,
/// else the number's sign and the numeral of its size; the always-signed
/// text is the sign (`+` for zero) and the numeral of the size; an exposure
/// in thirds shows as `0` or as that always-signed count followed by `/3`.
pub proof fn lemma_signed_texts_denote(n: int)
    ensures
        n == 0 ==> signed_text(n) == seq!['0'],
        n != 0 ==> signed_text(n).len() > 1 && signed_text(n)[0] == sign_char(n) && is_numeral(
            signed_text(n).drop_first(),
        ) && digits_value(signed_text(n).drop_first()) == magnitude(n),
        plus_signed_text(n).len() > 1,
        plus_signed_text(n)[0] == (if n >= 0 {
            '+'
        } else {
            '-'
        }),
        is_numeral(plus_signed_text(n).drop_first()),
        digits_value(plus_signed_text(n).drop_first()) == magnitude(n),
        n == 0 ==> exposure_spec(n) == seq!['0'],
        n != 0 ==> exposure_spec(n) == plus_signed_text(n) + seq!['/', '3'],
{
    reveal_strlit("0");
    reveal_strlit("+");
    reveal_strlit("-");
    reveal_strlit("/3");
    lemma_decimal_denotes(magnitude(n) as nat);
    assert(("+"@ + decimal(magnitude(n) as nat)).drop_first() == decimal(magnitude(n) as nat));
    assert(("-"@ + decimal(magnitude(n) as nat)).drop_first() == decimal(magnitude(n) as nat));
}

/// How an exposure text in thirds splits: the exposure's sign, then whole
/// stops `w` alone, a fraction `r/3` alone, or both with a space between;
/// `w` is at least one, `r` is one or two, and `3 * w + r` is the size of
/// the exposure.
pub open spec fn thirds_parts(text: Seq<char>, t: int, w: Seq<char>, r: Seq<char>) -> bool {
    let s = seq![sign_char(t)];
    ||| is_numeral(w) && digits_value(w) >= 1 && text == s + w && 3 * digits_value(w)
        == magnitude(t)
    ||| is_numeral(r) && 1 <= digits_value(r) <= 2 && text == s + r + seq!['/', '3']
        && digits_value(r) == magnitude(t)
    ||| is_numeral(w) && is_numeral(r) && digits_value(w) >= 1 && 1 <= digits_value(r) <= 2
        && text == s + w + seq![' '] + r + seq!['/', '3'] && 3 * digits_value(w) + digits_value(r)
        == magnitude(t)
}

/// The text of an exposure in thirds denotes it: `0` for none; else its sign
/// with whole stops and a fraction of one or two thirds that add up to it.
pub proof fn lemma_thirds_text_denotes(t: int)
    ensures
        t == 0 ==> thirds_text(t) == seq!['0'],
        t != 0 ==> exists|w: Seq<char>, r: Seq<char>|
            #[trigger] thirds_parts(thirds_text(t), t, w, r),
{
    reveal_strlit("0");
    reveal_strlit("+");
    reveal_strlit("-");
    reveal_strlit("/3");
    reveal_strlit(" ");
    if t != 0 {
        let size = magnitude(t);
        let whole = size / 3;
        let rem = size % 3;
        lemma_decimal_denotes(whole as nat);
        lemma_decimal_denotes(rem as nat);
        let w = decimal(whole as nat);
        let r = decimal(rem as nat);
        let sign = if t > 0 {
            "+"@
        } else {
            "-"@
        };
        assert(sign == seq![sign_char(t)]);
        assert(" "@ == seq![' ']);
        assert("/3"@ == seq!['/', '3']);
        assert(3 * whole + rem == size);
        if whole == 0 {
            assert(thirds_text(t) == sign + r + "/3"@);
            assert(thirds_parts(thirds_text(t), t, w, r));
        } else if rem == 0 {
            assert(thirds_text(t) == sign + w);
            assert(thirds_parts(thirds_text(t), t, w, r));
        } else {
            assert(thirds_text(t) == sign + w + " "@ + r + "/3"@);
            assert(thirds_parts(thirds_text(t), t, w, r));
        }
    }
}


/// A label fills a field of 14 characters (or its own length, when longer):
/// spaces, then the text at the right end.
pub proof fn lemma_label_fills_field(s: Seq<char>)
    ensures
        label_text(s).len() == (if s.len() >= 14 {
            s.len()
        } else {
            14
        }),
        label_text(s).skip(label_text(s).len() - s.len()) == s,
        forall|i: int| 0 <= i < label_text(s).len() - s.len() ==> #[trigger] label_text(s)[i] == ' ',
{
    let t = label_text(s);
    if s.len() < 14 {
        assert(t.skip(t.len() - s.len()) == s);
    } else {
        assert(t.skip(0) == s);
    }
}

/// The white balance shift text is empty when both shifts are 0, and else
/// ` (R`, the red shift with its sign, `, B`, the blue shift with its sign,
/// and `)`.
pub proof fn lemma_wb_shift_text(red: int, blue: int)
    ensures
        red == 0 && blue == 0 ==> wb_shift_spec(red, blue).len() == 0,
        !(red == 0 && blue == 0) ==> wb_shift_spec(red, blue) == seq![' ', '(', 'R']
            + plus_signed_text(red) + seq![',', ' ', 'B'] + plus_signed_text(blue) + seq![')'],
{
    reveal_strlit(" (R");
    reveal_strlit(", B");
    reveal_strlit(")");
}

} // verus!
