//! Text in UTF-16, the encoding that Windows takes and gives.

use vstd::prelude::*;

use crate::text;

verus! {

/// `char::from_u32`: the character of a code point, where there is one. There
/// is none for a surrogate (0xD800 to 0xDFFF) and none above 0x10FFFF.
pub assume_specification[ char::from_u32 ](code: u32) -> (r: Option<char>)
    ensures
        r is Some <==> (code < 0xD800 || (0xE000 <= code && code <= 0x10FFFF)),
        r matches Some(c) ==> c as u32 == code,
;

/// Whether a unit is the first of the two that write a character above 0xFFFF.
pub open spec fn is_high_surrogate(unit: u16) -> bool {
    0xD800 <= unit <= 0xDBFF
}

/// Whether a unit is the second of the two that write a character above 0xFFFF.
pub open spec fn is_low_surrogate(unit: u16) -> bool {
    0xDC00 <= unit <= 0xDFFF
}

/// The units of one character.
pub open spec fn encode_char(c: char) -> Seq<u16> {
    let code = c as u32;
    if code < 0x10000 {
        seq![code as u16]
    } else {
        seq![
            (0xD800 + (code - 0x10000) / 0x400) as u16,
            (0xDC00 + (code - 0x10000) % 0x400) as u16,
        ]
    }
}

/// The units of a text.
pub open spec fn encode(text: Seq<char>) -> Seq<u16>
    decreases text.len(),
{
    if text.len() == 0 {
        Seq::empty()
    } else {
        encode_char(text[0]) + encode(text.drop_first())
    }
}

/// The character that a high and a low surrogate write.
pub open spec fn surrogate_pair(high: u16, low: u16) -> char {
    (0x10000 + (high - 0xD800) * 0x400 + (low - 0xDC00)) as char
}

/// The text that `units` write; none where a surrogate stands without its
/// other half.
pub open spec fn decode(units: Seq<u16>) -> Option<Seq<char>>
    decreases units.len(),
{
    if units.len() == 0 {
        Some(Seq::empty())
    } else if is_high_surrogate(units[0]) {
        if units.len() >= 2 && is_low_surrogate(units[1]) {
            prepend(surrogate_pair(units[0], units[1]), decode(units.skip(2)))
        } else {
            None
        }
    } else if is_low_surrogate(units[0]) {
        None
    } else {
        prepend(units[0] as char, decode(units.drop_first()))
    }
}

/// `c` before a text, where there is a text.
pub open spec fn prepend(c: char, rest: Option<Seq<char>>) -> Option<Seq<char>> {
    match rest {
        Some(rest) => Some(seq![c] + rest),
        None => None,
    }
}

/// The units before the first zero; all of them where there is no zero.
pub open spec fn before_zero(units: Seq<u16>) -> Seq<u16>
    decreases units.len(),
{
    if units.len() == 0 || units[0] == 0 {
        Seq::empty()
    } else {
        seq![units[0]] + before_zero(units.drop_first())
    }
}

/// A character is its code point, which is no surrogate.
proof fn code_point(c: char)
    ensures
        c as u32 as int == c as int,
        0 <= c as int <= 0x10FFFF,
        !(0xD800 <= c as int <= 0xDFFF),
        (c as u32) as char == c,
{
}

/// Encodes a text in UTF-16.
pub fn encode_utf16(value: &str) -> (units: Vec<u16>)
    ensures
        units@ == encode(value@),
{
    let chars = text::chars_of(value);
    let mut units: Vec<u16> = Vec::new();
    let mut i: usize = 0;
    assert(chars@.skip(0) == chars@);
    while i < chars.len()
        invariant
            i <= chars.len(),
            encode(chars@) == units@ + encode(chars@.skip(i as int)),
        decreases chars.len() - i,
    {
        let ghost before = units@;
        let code: u32 = chars[i] as u32;
        if code < 0x10000 {
            units.push(code as u16);
        } else {
            units.push((0xD800 + (code - 0x10000) / 0x400) as u16);
            units.push((0xDC00 + (code - 0x10000) % 0x400) as u16);
        }
        assert(units@ == before + encode_char(chars@[i as int]));
        assert(chars@.skip(i as int).drop_first() == chars@.skip(i + 1));
        i = i + 1;
    }
    units
}

/// The text as UTF-16 with a zero behind it, as Windows takes names.
pub fn wide(value: &str) -> (units: Vec<u16>)
    ensures
        units@ == encode(value@).push(0),
{
    let mut units = encode_utf16(value);
    units.push(0);
    units
}

/// Decodes UTF-16.
pub fn decode_utf16(units: &[u16]) -> (r: Option<String>)
    ensures
        text::optional(r) == decode(units@),
{
    let mut text = String::new();
    let mut i: usize = 0;
    assert(units@.skip(0) == units@);
    proof {
        if decode(units@) is Some {
            assert(Seq::<char>::empty() + decode(units@)->0 == decode(units@)->0);
        }
    }
    while i < units.len()
        invariant
            i <= units.len(),
            decode(units@) == (match decode(units@.skip(i as int)) {
                Some(rest) => Some(text@ + rest),
                None => None,
            }),
        decreases units.len() - i,
    {
        let ghost before = text@;
        let ghost rest = units@.skip(i as int);
        let unit: u16 = units[i];
        assert(rest[0] == unit);
        if 0xD800 <= unit && unit <= 0xDBFF {
            if units.len() - i < 2 || units[i + 1] < 0xDC00 || units[i + 1] > 0xDFFF {
                assert(decode(rest) is None);
                return None;
            }
            let low: u16 = units[i + 1];
            assert(rest[1] == low);
            let code: u32 = 0x10000 + (unit as u32 - 0xD800) * 0x400 + (low as u32 - 0xDC00);
            match char::from_u32(code) {
                Some(c) => {
                    proof {
                        code_point(c);
                    }
                    assert(c == surrogate_pair(unit, low));
                    text.push(c);
                },
                None => {
                    return None;
                },
            }
            assert(rest.skip(2) == units@.skip(i + 2));
            proof {
                if decode(rest.skip(2)) is Some {
                    let tail = decode(rest.skip(2))->0;
                    assert(before + (seq![surrogate_pair(unit, low)] + tail) == text@ + tail);
                }
            }
            i = i + 2;
        } else if 0xDC00 <= unit && unit <= 0xDFFF {
            assert(decode(rest) is None);
            return None;
        } else {
            match char::from_u32(unit as u32) {
                Some(c) => {
                    proof {
                        code_point(c);
                    }
                    assert(c == unit as char);
                    text.push(c);
                },
                None => {
                    return None;
                },
            }
            assert(rest.drop_first() == units@.skip(i + 1));
            proof {
                if decode(rest.drop_first()) is Some {
                    let tail = decode(rest.drop_first())->0;
                    assert(before + (seq![unit as char] + tail) == text@ + tail);
                }
            }
            i = i + 1;
        }
    }
    assert(decode(units@.skip(i as int)) == Some(Seq::<char>::empty()));
    assert(text@ + Seq::<char>::empty() == text@);
    Some(text)
}

/// How many units stand before the first zero.
pub fn zero_position(units: &[u16]) -> (n: usize)
    ensures
        n <= units.len(),
        units@.take(n as int) == before_zero(units@),
{
    let mut n: usize = 0;
    assert(units@.skip(0) == units@);
    assert(units@.take(0) + before_zero(units@) == before_zero(units@));
    while n < units.len() && units[n] != 0
        invariant
            n <= units.len(),
            before_zero(units@) == units@.take(n as int) + before_zero(units@.skip(n as int)),
        decreases units.len() - n,
    {
        assert(units@.skip(n as int).drop_first() == units@.skip(n + 1));
        assert(units@.take(n as int) + (seq![units@[n as int]] + before_zero(units@.skip(n + 1)))
            == units@.take(n + 1) + before_zero(units@.skip(n + 1)));
        n = n + 1;
    }
    assert(before_zero(units@.skip(n as int)) == Seq::<u16>::empty());
    assert(units@.take(n as int) + Seq::<u16>::empty() == units@.take(n as int));
    n
}

/// Decoding what was encoded gives the text back.
pub proof fn encode_reads_back(text: Seq<char>)
    ensures
        decode(encode(text)) == Some(text),
    decreases text.len(),
{
    if text.len() > 0 {
        let rest = text.drop_first();
        encode_reads_back(rest);
        let units = encode(text);
        let first = encode_char(text[0]);
        assert(units.skip(first.len() as int) == encode(rest));
        assert(text == seq![text[0]] + rest);
        code_point(text[0]);
        if text[0] as u32 >= 0x10000 {
            assert(units[0] == first[0] && units[1] == first[1]);
            assert(surrogate_pair(units[0], units[1]) == text[0]);
        } else {
            assert(units[0] == first[0]);
            assert(units.drop_first() == units.skip(1));
        }
    } else {
        assert(text == Seq::<char>::empty());
    }
}

/// A text has one encoding only: units that decode to it are its encoding.
pub proof fn decode_writes_back(units: Seq<u16>)
    requires
        decode(units) is Some,
    ensures
        encode(decode(units)->0) == units,
    decreases units.len(),
{
    let text = decode(units)->0;
    if units.len() > 0 {
        if is_high_surrogate(units[0]) {
            let rest = units.skip(2);
            decode_writes_back(rest);
            let c = surrogate_pair(units[0], units[1]);
            assert(text.drop_first() == decode(rest)->0);
            assert(encode_char(c) == seq![units[0], units[1]]);
            assert(units == encode_char(c) + rest);
        } else {
            let rest = units.drop_first();
            decode_writes_back(rest);
            assert(text.drop_first() == decode(rest)->0);
            assert(encode_char(text[0]) == seq![units[0]]);
            assert(units == encode_char(text[0]) + rest);
        }
    } else {
        assert(encode(text) == units);
    }
}

/// Reading a name up to its zero gives back the text that [`wide`] wrote, for
/// every text that holds no zero character.
pub proof fn wide_reads_back(text: Seq<char>)
    requires
        !text.contains('\0'),
    ensures
        decode(before_zero(encode(text).push(0))) == Some(text),
{
    encode_has_no_zero(text);
    before_zero_stops(encode(text));
    encode_reads_back(text);
}

/// A text without zero characters is encoded without zero units.
proof fn encode_has_no_zero(text: Seq<char>)
    requires
        !text.contains('\0'),
    ensures
        !encode(text).contains(0),
    decreases text.len(),
{
    if text.len() > 0 {
        let rest = text.drop_first();
        assert(!rest.contains('\0')) by {
            if rest.contains('\0') {
                let i = rest.index_of('\0');
                assert(text[i + 1] == '\0');
            }
        }
        encode_has_no_zero(rest);
        let first = encode_char(text[0]);
        code_point(text[0]);
        assert(text[0] != '\0') by {
            assert(text.contains(text[0]));
        }
        assert forall|i: int| 0 <= i < encode(text).len() implies encode(text)[i] != 0 by {
            if i >= first.len() {
                assert(encode(text)[i] == encode(rest)[i - first.len()]);
                assert(encode(rest).contains(encode(rest)[i - first.len()]));
            }
        }
    }
}

/// What stands before the zero behind units that hold none is those units.
proof fn before_zero_stops(units: Seq<u16>)
    requires
        !units.contains(0),
    ensures
        before_zero(units.push(0)) == units,
    decreases units.len(),
{
    if units.len() > 0 {
        let rest = units.drop_first();
        assert(units.contains(units[0]));
        assert(!rest.contains(0)) by {
            if rest.contains(0) {
                let i = rest.index_of(0);
                assert(units[i + 1] == 0);
            }
        }
        before_zero_stops(rest);
        assert(units.push(0).drop_first() == rest.push(0));
        assert(units == seq![units[0]] + rest);
    } else {
        assert(before_zero(units.push(0)) == units);
    }
}

/// A text is encoded character by character: one up to 0xFFFF is one unit with
/// its code point, any other is two, of which the first counts the multiples of
/// 0x400 above 0x10000 from 0xD800 on and the second the rest from 0xDC00 on.
pub proof fn text_is_encoded_by_character(a: Seq<char>, b: Seq<char>, c: char)
    ensures
        encode(a + b) == encode(a) + encode(b),
        encode(Seq::empty()).len() == 0,
        (c as int) <= 0xFFFF ==> encode(seq![c]).len() == 1 && encode(seq![c])[0] as int
            == c as int,
        (c as int) > 0xFFFF ==> {
            let units = encode(seq![c]);
            &&& units.len() == 2
            &&& 0xD800 <= units[0] < 0xDC00
            &&& 0xDC00 <= units[1] < 0xE000
            &&& 0x10000 + (units[0] - 0xD800) * 0x400 + (units[1] - 0xDC00) == c as int
        },
{
    encode_of_two(a, b);
    code_point(c);
    assert(seq![c].drop_first() == Seq::<char>::empty());
    assert(encode(Seq::<char>::empty()) == Seq::<u16>::empty());
    assert(encode(seq![c]) == encode_char(seq![c][0]) + encode(seq![c].drop_first()));
    assert(encode(seq![c]) == encode_char(c));
}

/// The units of two texts behind each other are those of the first and behind
/// them those of the second.
proof fn encode_of_two(a: Seq<char>, b: Seq<char>)
    ensures
        encode(a + b) == encode(a) + encode(b),
    decreases a.len(),
{
    if a.len() == 0 {
        assert(a + b == b);
        assert(encode(a) + encode(b) == encode(b));
    } else {
        encode_of_two(a.drop_first(), b);
        assert((a + b).drop_first() == a.drop_first() + b);
        assert(encode(a + b) == encode(a) + encode(b));
    }
}

/// Units are decoded to a text exactly where they are its encoding.
pub proof fn decoded_text_is_the_one_encoded(units: Seq<u16>, text: Seq<char>)
    ensures
        decode(units) == Some(text) <==> units == encode(text),
{
    encode_reads_back(text);
    if decode(units) is Some {
        decode_writes_back(units);
    }
}

/// What stands before the first zero are units that are not zero, from the start
/// up to a zero or the end.
pub proof fn units_before_the_first_zero(units: Seq<u16>)
    ensures
        ({
            let n = before_zero(units).len();
            &&& n <= units.len()
            &&& before_zero(units) == units.take(n as int)
            &&& forall|i: int| 0 <= i < n ==> #[trigger] units[i] != 0
            &&& n < units.len() ==> units[n as int] == 0
        }),
    decreases units.len(),
{
    if units.len() > 0 && units[0] != 0 {
        let rest = units.drop_first();
        units_before_the_first_zero(rest);
        let n = before_zero(rest).len() as int;
        assert(units.take(n + 1) == seq![units[0]] + rest.take(n));
        assert forall|i: int| 0 <= i < n + 1 implies #[trigger] units[i] != 0 by {
            if i > 0 {
                assert(rest[i - 1] == units[i]);
            }
        }
        if n < rest.len() {
            assert(units[n + 1] == rest[n]);
        }
    } else {
        assert(units.take(0) == Seq::<u16>::empty());
    }
}

} // verus!
