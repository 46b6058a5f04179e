//! UTF-16 text in fixed-width fields of little-endian code units.

use crate::bytes::{le_byte, read_u16_le, u16_at};
use vstd::prelude::*;

verus! {

/// The error of `String::from_utf16`, declared so that it can stand in a
/// signature. Nothing is said of what a value of it holds.
#[verifier::external_type_specification]
#[verifier::external_body]
pub struct ExFromUtf16Error(std::string::FromUtf16Error);

/// A code unit that is one half of a surrogate pair.
pub open spec fn is_surrogate(u: u16) -> bool {
    0xD800 <= u <= 0xDFFF
}

/// A code unit that opens a surrogate pair.
pub open spec fn is_high_surrogate(u: u16) -> bool {
    0xD800 <= u <= 0xDBFF
}

/// A code unit that closes a surrogate pair.
pub open spec fn is_low_surrogate(u: u16) -> bool {
    0xDC00 <= u <= 0xDFFF
}

/// The character that a surrogate pair stands for.
pub open spec fn pair_value(high: u16, low: u16) -> int {
    0x1_0000 + (high - 0xD800) * 0x400 + (low - 0xDC00)
}

/// The code units of one character: itself below `0x10000`, a surrogate pair
/// from there on.
pub open spec fn encode_char(c: char) -> Seq<u16> {
    let v = c as u32 as int;
    if v < 0x1_0000 {
        seq![v as u16]
    } else {
        seq![(0xD800 + (v - 0x1_0000) / 0x400) as u16, (0xDC00 + (v - 0x1_0000) % 0x400) as u16]
    }
}

/// The UTF-16 code units of a text.
pub open spec fn utf16_encode(text: Seq<char>) -> Seq<u16>
    decreases text.len(),
{
    if text.len() == 0 {
        Seq::empty()
    } else {
        encode_char(text[0]) + utf16_encode(text.drop_first())
    }
}

/// The text that a sequence of UTF-16 code units stands for, or `None` where a
/// surrogate stands without its partner.
pub open spec fn utf16_decode(units: Seq<u16>) -> Option<Seq<char>>
    decreases units.len(),
{
    if units.len() == 0 {
        Some(Seq::empty())
    } else if !is_surrogate(units[0]) {
        match utf16_decode(units.drop_first()) {
            Some(rest) => Some(seq![units[0] as char] + rest),
            None => None,
        }
    } else if is_high_surrogate(units[0]) && units.len() >= 2 && is_low_surrogate(units[1]) {
        match utf16_decode(units.subrange(2, units.len() as int)) {
            Some(rest) => Some(seq![pair_value(units[0], units[1]) as char] + rest),
            None => None,
        }
    } else {
        None
    }
}

/// Decodes code units with `String::from_utf16`.
///
/// Nothing of this is proved. It is taken on trust that the call returns the
/// text that the code units stand for in UTF-16, as `utf16_decode` spells it
/// out, and an error exactly where they stand for none.
#[verifier::external_body]
pub(crate) fn string_from_utf16(units: &[u16]) -> (r: Result<String, std::string::FromUtf16Error>)
    ensures
        match r {
            Ok(text) => utf16_decode(units@) == Some(text@),
            Err(_) => utf16_decode(units@) is None,
        },
{
    String::from_utf16(units)
}

/// Encodes a text with `str::encode_utf16`.
///
/// Nothing of this is proved. It is taken on trust that the call yields the
/// UTF-16 code units of the text, in order, as `utf16_encode` spells them
/// out.
#[verifier::external_body]
pub(crate) fn string_to_utf16(text: &str) -> (units: Vec<u16>)
    ensures
        units@ == utf16_encode(text@),
{
    text.encode_utf16().collect()
}

/// The `count` code units of the field that starts at byte `off` of `s`.
pub open spec fn units_at(s: Seq<u8>, off: int, count: int) -> Seq<u16> {
    Seq::new(count as nat, |j: int| u16_at(s, off + 2 * j))
}

/// The index of the first zero code unit, or the length where there is none.
pub open spec fn zero_pos(units: Seq<u16>) -> nat
    decreases units.len(),
{
    if units.len() == 0 || units[0] == 0 {
        0
    } else {
        1 + zero_pos(units.drop_first())
    }
}

/// The code units in front of the first zero code unit.
pub open spec fn until_zero(units: Seq<u16>) -> Seq<u16> {
    units.take(zero_pos(units) as int)
}

/// The text of the field of `count` code units at byte `off` of `s`: what
/// stands in front of the first zero code unit, decoded. `None` where that is
/// not UTF-16.
pub open spec fn field_text(s: Seq<u8>, off: int, count: int) -> Option<Seq<char>> {
    utf16_decode(until_zero(units_at(s, off, count)))
}

/// The `count` code units that a field holds for `text`: its UTF-16 code units,
/// cut after `count` of them, and zeros behind them up to `count`.
pub open spec fn field_units(text: Seq<char>, count: int) -> Seq<u16> {
    Seq::new(
        count as nat,
        |j: int|
            if j < utf16_encode(text).len() {
                utf16_encode(text)[j]
            } else {
                0u16
            },
    )
}

/// Byte `i` of the field of `count` code units that holds `text`.
pub open spec fn field_byte(text: Seq<char>, count: int, i: int) -> u8 {
    le_byte(field_units(text, count)[i / 2] as int, i % 2)
}

/// `zero_pos` is the one index in front of which no unit is zero and at which
/// the sequence ends or holds a zero.
pub proof fn lemma_zero_pos(units: Seq<u16>, j: int)
    requires
        0 <= j <= units.len(),
        forall|k: int| 0 <= k < j ==> units[k] != 0,
        j == units.len() || units[j] == 0,
    ensures
        zero_pos(units) == j,
    decreases j,
{
    if j > 0 {
        let rest = units.drop_first();
        assert forall|k: int| 0 <= k < j - 1 implies rest[k] != 0 by {
            assert(rest[k] == units[k + 1]);
        }
        lemma_zero_pos(rest, j - 1);
    }
}

/// A text that a field of `count` code units holds whole and gives back: no
/// character is NUL, and its code units are at most `count`.
pub open spec fn fits_field(text: Seq<char>, count: int) -> bool {
    &&& utf16_encode(text).len() <= count
    &&& forall|i: int| 0 <= i < text.len() ==> text[i] as int != 0
}

/// The code units of one character decode to that character, whatever follows.
proof fn lemma_decode_char(c: char, rest: Seq<u16>)
    ensures
        utf16_decode(encode_char(c) + rest) == match utf16_decode(rest) {
            Some(text) => Some(seq![c] + text),
            None => None,
        },
{
    let units = encode_char(c) + rest;
    let v = c as u32 as int;
    if v < 0x1_0000 {
        assert(units[0] == v as u16);
        assert(units.drop_first() =~= rest);
        assert(units[0] as char == c);
    } else {
        let w = v - 0x1_0000;
        assert(units[0] == (0xD800 + w / 0x400) as u16);
        assert(units[1] == (0xDC00 + w % 0x400) as u16);
        assert(units.subrange(2, units.len() as int) =~= rest);
        assert(pair_value(units[0], units[1]) == v);
        assert(pair_value(units[0], units[1]) as char == c);
    }
}

/// Decoding the code units of a text gives the text.
pub proof fn lemma_decode_encode(text: Seq<char>)
    ensures
        utf16_decode(utf16_encode(text)) == Some(text),
    decreases text.len(),
{
    if text.len() > 0 {
        lemma_decode_encode(text.drop_first());
        lemma_decode_char(text[0], utf16_encode(text.drop_first()));
        assert(seq![text[0]] + text.drop_first() =~= text);
    }
}

/// The code units of a character other than NUL are not zero.
proof fn lemma_encode_char_nonzero(c: char)
    requires
        c as int != 0,
    ensures
        forall|j: int| 0 <= j < encode_char(c).len() ==> encode_char(c)[j] != 0,
{
}

/// A text without NUL has no zero code unit.
pub proof fn lemma_encode_nonzero(text: Seq<char>)
    requires
        forall|i: int| 0 <= i < text.len() ==> text[i] as int != 0,
    ensures
        forall|j: int| 0 <= j < utf16_encode(text).len() ==> utf16_encode(text)[j] != 0,
    decreases text.len(),
{
    if text.len() > 0 {
        let rest = text.drop_first();
        assert forall|i: int| 0 <= i < rest.len() implies rest[i] as int != 0 by {
            assert(rest[i] == text[i + 1]);
        }
        lemma_encode_nonzero(rest);
        let head = encode_char(text[0]);
        lemma_encode_char_nonzero(text[0]);
        assert(utf16_encode(text) == head + utf16_encode(rest));
        assert forall|j: int| 0 <= j < utf16_encode(text).len() implies utf16_encode(text)[j]
            != 0 by {
            if j < head.len() {
                assert(utf16_encode(text)[j] == head[j]);
            } else {
                assert(utf16_encode(text)[j] == utf16_encode(rest)[j - head.len()]);
            }
        }
    }
}

/// A field that holds the code units of a text that fits it reads as that text.
pub proof fn lemma_field_round_trip(s: Seq<u8>, off: int, count: int, text: Seq<char>)
    requires
        0 <= count,
        fits_field(text, count),
        units_at(s, off, count) == field_units(text, count),
    ensures
        field_text(s, off, count) == Some(text),
{
    let units = units_at(s, off, count);
    let encoded = utf16_encode(text);
    lemma_encode_nonzero(text);
    assert forall|k: int| 0 <= k < encoded.len() implies units[k] != 0 by {
        assert(units[k] == field_units(text, count)[k]);
    }
    if encoded.len() < count {
        assert(units[encoded.len() as int] == field_units(text, count)[encoded.len() as int]);
    }
    lemma_zero_pos(units, encoded.len() as int);
    assert(until_zero(units) =~= encoded);
    lemma_decode_encode(text);
}

/// Reads the text of the field of `count` code units at byte `off`.
pub fn read_field(s: &[u8], off: usize, count: usize) -> (r: Option<String>)
    requires
        off + 2 * count <= s.len(),
    ensures
        match r {
            Some(text) => field_text(s@, off as int, count as int) == Some(text@),
            None => field_text(s@, off as int, count as int) is None,
        },
{
    let ghost all = units_at(s@, off as int, count as int);
    let mut units: Vec<u16> = Vec::new();
    let mut j: usize = 0;
    while j < count
        invariant
            j <= count,
            off + 2 * count <= s.len(),
            all == units_at(s@, off as int, count as int),
            units@ == all.take(j as int),
            forall|k: int| 0 <= k < j ==> all[k] != 0,
        ensures
            j <= count,
            units@ == all.take(j as int),
            forall|k: int| 0 <= k < j ==> all[k] != 0,
            j == count || all[j as int] == 0,
        decreases count - j,
    {
        let u: u16 = read_u16_le(s, off + 2 * j);
        assert(u == all[j as int]);
        if u == 0 {
            break ;
        }
        units.push(u);
        j = j + 1;
        assert(units@ =~= all.take(j as int));
    }
    proof {
        lemma_zero_pos(all, j as int);
    }
    match string_from_utf16(units.as_slice()) {
        Ok(text) => Some(text),
        Err(_) => None,
    }
}

/// The `count` code units that a field holds for `text`.
pub fn field_units_of(text: &str, count: usize) -> (units: Vec<u16>)
    ensures
        units@ == field_units(text@, count as int),
{
    let encoded: Vec<u16> = string_to_utf16(text);
    let mut units: Vec<u16> = Vec::new();
    let mut j: usize = 0;
    while j < count
        invariant
            j <= count,
            encoded@ == utf16_encode(text@),
            units@ == field_units(text@, count as int).take(j as int),
        decreases count - j,
    {
        let u: u16 = if j < encoded.len() {
            encoded[j]
        } else {
            0
        };
        units.push(u);
        j = j + 1;
        assert(units@ =~= field_units(text@, count as int).take(j as int));
    }
    assert(units@ =~= field_units(text@, count as int));
    units
}

} // verus!
