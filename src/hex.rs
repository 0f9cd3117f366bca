use vstd::prelude::*;

verus! {

/// The largest number of bytes that the parser accepts.
pub const MAX_BYTES: usize = 256;

/// Why a text could not be read as a byte sequence.
#[derive(Debug, Clone, Copy, PartialEq, Eq)]
pub enum ParseError {
    /// The text without whitespace has an odd number of characters.
    OddLength,
    /// The text would decode to more than 256 bytes.
    TooLong,
    /// The two-character group at byte `position` is not a hexadecimal number.
    HexParse { group: (char, char), position: usize },
}

/// Whitespace: the characters with the Unicode `White_Space` property.
pub open spec fn is_space(c: char) -> bool {
    let v = c as u32;
    v == 0x20 || (0x09 <= v && v <= 0x0D) || v == 0x85 || v == 0xA0 || v == 0x1680 || (0x2000
        <= v && v <= 0x200A) || v == 0x2028 || v == 0x2029 || v == 0x202F || v == 0x205F || v
        == 0x3000
}

/// The text with every whitespace character removed, order kept.
pub open spec fn strip_whitespace(s: Seq<char>) -> Seq<char>
    decreases s.len(),
{
    if s.len() == 0 {
        Seq::empty()
    } else if is_space(s.last()) {
        strip_whitespace(s.drop_last())
    } else {
        strip_whitespace(s.drop_last()).push(s.last())
    }
}

/// The value of a hexadecimal digit (`0-9`, `a-f`, `A-F`), if it is one.
pub open spec fn hex_value(c: char) -> Option<u8> {
    let v = c as u32;
    if 0x30 <= v && v <= 0x39 {
        Some((v - 0x30) as u8)
    } else if 0x41 <= v && v <= 0x46 {
        Some((v - 0x37) as u8)
    } else if 0x61 <= v && v <= 0x66 {
        Some((v - 0x57) as u8)
    } else {
        None
    }
}

/// The byte that two hexadecimal digits spell, most significant first.
pub open spec fn byte_of(hi: char, lo: char) -> Option<u8> {
    match (hex_value(hi), hex_value(lo)) {
        (Some(h), Some(l)) => Some((h * 16 + l) as u8),
        _ => None,
    }
}

/// The first `n` two-character groups of `d` decoded, or the first group that
/// is not a hexadecimal number.
pub open spec fn decode_groups(d: Seq<char>, n: nat) -> Result<Seq<u8>, ParseError>
    decreases n,
{
    if n == 0 {
        Ok(Seq::empty())
    } else {
        match decode_groups(d, (n - 1) as nat) {
            Err(e) => Err(e),
            Ok(bytes) => {
                let k = 2 * (n - 1);
                match byte_of(d[k], d[k + 1]) {
                    Some(b) => Ok(bytes.push(b)),
                    None => Err(ParseError::HexParse { group: (d[k], d[k + 1]), position: (n - 1) as usize }),
                }
            },
        }
    }
}

/// What parsing a text gives: whitespace is dropped, then the length is
/// checked (even, at most 512 digits), then each group is decoded in order.
pub open spec fn parse_spec(s: Seq<char>) -> Result<Seq<u8>, ParseError> {
    let d = strip_whitespace(s);
    if d.len() % 2 == 1 {
        Err(ParseError::OddLength)
    } else if d.len() > 2 * MAX_BYTES {
        Err(ParseError::TooLong)
    } else {
        decode_groups(d, d.len() / 2)
    }
}

proof fn lemma_decode_error_stays(d: Seq<char>, a: nat, m: nat)
    requires
        a <= m,
        decode_groups(d, a) is Err,
    ensures
        decode_groups(d, m) == decode_groups(d, a),
    decreases m - a,
{
    if a < m {
        lemma_decode_error_stays(d, a, (m - 1) as nat);
    }
}

proof fn lemma_strip_concat(a: Seq<char>, b: Seq<char>)
    ensures
        strip_whitespace(a + b) == strip_whitespace(a) + strip_whitespace(b),
    decreases b.len(),
{
    if b.len() == 0 {
        assert(a + b == a);
        assert(strip_whitespace(a) + Seq::<char>::empty() == strip_whitespace(a));
    } else {
        lemma_strip_concat(a, b.drop_last());
        assert((a + b).drop_last() == a + b.drop_last());
        assert((a + b).last() == b.last());
        if !is_space(b.last()) {
            assert(strip_whitespace(a) + strip_whitespace(b.drop_last()).push(b.last()) == (
            strip_whitespace(a) + strip_whitespace(b.drop_last())).push(b.last()));
        }
    }
}

/// Whitespace is insignificant: a whitespace character put anywhere into a
/// text changes neither the bytes it parses to nor the error it gives.
pub proof fn whitespace_is_insignificant(a: Seq<char>, b: Seq<char>, c: char)
    requires
        is_space(c),
    ensures
        parse_spec(a + seq![c] + b) == parse_spec(a + b),
{
    lemma_strip_concat(a + seq![c], b);
    lemma_strip_concat(a, b);
    assert((a + seq![c]).drop_last() == a);
}

/// Digits are read without regard to case: each of `A`-`F` and its lowercase
/// letter have the same value.
pub proof fn hex_digits_ignore_case(upper: char, lower: char)
    requires
        0x41 <= upper as u32 <= 0x46,
        lower as u32 == upper as u32 + 0x20,
    ensures
        hex_value(upper) is Some,
        hex_value(lower) == hex_value(upper),
{
}

/// `a` and `b` are the same character, or the same hexadecimal letter in
/// different cases.
pub open spec fn same_ignoring_case(a: char, b: char) -> bool {
    ||| a == b
    ||| (0x41 <= a as u32 <= 0x46 && b as u32 == a as u32 + 0x20)
    ||| (0x41 <= b as u32 <= 0x46 && a as u32 == b as u32 + 0x20)
}

/// `s` and `t` differ at most in the case of hexadecimal letters.
pub open spec fn same_text_ignoring_case(s: Seq<char>, t: Seq<char>) -> bool {
    &&& s.len() == t.len()
    &&& forall|i: int| 0 <= i < s.len() ==> #[trigger] same_ignoring_case(s[i], t[i])
}

proof fn lemma_strip_ignoring_case(s: Seq<char>, t: Seq<char>)
    requires
        same_text_ignoring_case(s, t),
    ensures
        same_text_ignoring_case(strip_whitespace(s), strip_whitespace(t)),
    decreases s.len(),
{
    if s.len() > 0 {
        let (s0, t0) = (s.drop_last(), t.drop_last());
        assert(same_text_ignoring_case(s0, t0)) by {
            assert forall|i: int| 0 <= i < s0.len() implies #[trigger] same_ignoring_case(
                s0[i],
                t0[i],
            ) by {
                assert(same_ignoring_case(s[i], t[i]));
            }
        }
        lemma_strip_ignoring_case(s0, t0);
        assert(same_ignoring_case(s[s.len() - 1], t[s.len() - 1]));
        let (a, b) = (strip_whitespace(s), strip_whitespace(t));
        if !is_space(s.last()) {
            assert forall|i: int| 0 <= i < a.len() implies #[trigger] same_ignoring_case(
                a[i],
                b[i],
            ) by {
                if i < a.len() - 1 {
                    assert(same_ignoring_case(strip_whitespace(s0)[i], strip_whitespace(t0)[i]));
                }
            }
        }
    }
}

proof fn lemma_decode_ignoring_case(d: Seq<char>, e: Seq<char>, n: nat)
    requires
        same_text_ignoring_case(d, e),
        2 * n <= d.len(),
    ensures
        decode_groups(d, n) is Ok <==> decode_groups(e, n) is Ok,
        decode_groups(d, n) is Ok ==> decode_groups(d, n) == decode_groups(e, n),
    decreases n,
{
    if n > 0 {
        lemma_decode_ignoring_case(d, e, (n - 1) as nat);
        let k = 2 * (n - 1);
        assert(same_ignoring_case(d[k], e[k]));
        assert(same_ignoring_case(d[k + 1], e[k + 1]));
        assert(hex_value(d[k]) == hex_value(e[k]));
        assert(hex_value(d[k + 1]) == hex_value(e[k + 1]));
    }
}

/// Texts that differ only in the case of hexadecimal letters (`c4` and `C4`)
/// parse to the same bytes, and one fails exactly when the other does.
pub proof fn parsing_ignores_case(s: Seq<char>, t: Seq<char>)
    requires
        same_text_ignoring_case(s, t),
    ensures
        parse_spec(s) is Ok <==> parse_spec(t) is Ok,
        parse_spec(s) is Ok ==> parse_spec(s) == parse_spec(t),
{
    lemma_strip_ignoring_case(s, t);
    let d = strip_whitespace(s);
    let e = strip_whitespace(t);
    if d.len() % 2 == 0 && d.len() <= 2 * MAX_BYTES {
        lemma_decode_ignoring_case(d, e, d.len() / 2);
    }
}

/// Tells whether `c` is whitespace.
pub fn is_whitespace(c: char) -> (r: bool)
    ensures
        r == is_space(c),
{
    let v = c as u32;
    v == 0x20 || (0x09 <= v && v <= 0x0D) || v == 0x85 || v == 0xA0 || v == 0x1680 || (0x2000
        <= v && v <= 0x200A) || v == 0x2028 || v == 0x2029 || v == 0x202F || v == 0x205F || v
        == 0x3000
}

/// The value of a hexadecimal digit, or `None` for any other character.
pub fn hex_digit(c: char) -> (r: Option<u8>)
    ensures
        r == hex_value(c),
{
    let v = c as u32;
    if 0x30 <= v && v <= 0x39 {
        Some((v - 0x30) as u8)
    } else if 0x41 <= v && v <= 0x46 {
        Some((v - 0x37) as u8)
    } else if 0x61 <= v && v <= 0x66 {
        Some((v - 0x57) as u8)
    } else {
        None
    }
}

/// The characters of `text` that are not whitespace, in order.
pub fn remove_whitespace(text: &str) -> (r: Vec<char>)
    ensures
        r@ == strip_whitespace(text@),
{
    broadcast use vstd::string::axiom_spec_iter;

    let mut digits: Vec<char> = Vec::new();
    for c in it: text.chars()
        invariant
            it.seq() == text@,
            digits@ == strip_whitespace(it.seq().take(it.index())),
    {
        assert(it.seq().take(it.index() + 1).drop_last() == it.seq().take(it.index()));
        if !is_whitespace(c) {
            digits.push(c);
        }
    }
    assert(text@.take(text@.len() as int) == text@);
    digits
}

/// Reads a text of hexadecimal digit pairs as bytes. Whitespace anywhere is
/// ignored and digits may be of either case.
pub fn parse_hex(text: &str) -> (r: Result<Vec<u8>, ParseError>)
    ensures
        match parse_spec(text@) {
            Ok(bytes) => r is Ok && r->Ok_0@ == bytes,
            Err(e) => r == Err::<Vec<u8>, ParseError>(e),
        },
        strip_whitespace(text@).len() % 2 == 1 ==> r == Err::<Vec<u8>, ParseError>(
            ParseError::OddLength,
        ),
        strip_whitespace(text@).len() % 2 == 0 && strip_whitespace(text@).len() > 2 * MAX_BYTES
            ==> r == Err::<Vec<u8>, ParseError>(ParseError::TooLong),
{
    let digits = remove_whitespace(text);
    if digits.len() % 2 == 1 {
        return Err(ParseError::OddLength);
    }
    if digits.len() > 2 * MAX_BYTES {
        return Err(ParseError::TooLong);
    }
    let n = digits.len() / 2;
    let mut bytes: Vec<u8> = Vec::new();
    let mut i: usize = 0;
    while i < n
        invariant
            digits@ == strip_whitespace(text@),
            n == digits@.len() / 2,
            digits@.len() % 2 == 0,
            n <= MAX_BYTES,
            i <= n,
            decode_groups(digits@, i as nat) == Ok::<Seq<u8>, ParseError>(bytes@),
        decreases n - i,
    {
        let first = digits[2 * i];
        let second = digits[2 * i + 1];
        match (hex_digit(first), hex_digit(second)) {
            (Some(h), Some(l)) => {
                bytes.push(h * 16 + l);
            },
            _ => {
                proof {
                    lemma_decode_error_stays(digits@, (i + 1) as nat, n as nat);
                }
                return Err(ParseError::HexParse { group: (first, second), position: i });
            },
        }
        i = i + 1;
    }
    Ok(bytes)
}

} // verus!
