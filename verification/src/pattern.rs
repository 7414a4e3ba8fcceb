//! Byte patterns with wildcard positions, and their textual form.
//!
//! A pattern is written as hexadecimal bytes separated by white space, with
//! `??` for a position that matches any byte: `12 34 ?? 56`.

use crate::bytes::chars_of;
use vstd::prelude::*;
use vstd::slice::slice_subrange;

verus! {

/// White space in the sense of Unicode's `White_Space` property.
pub open spec fn is_space(c: char) -> bool {
    let v = c as u32;
    ||| 0x09 <= v <= 0x0D
    ||| v == 0x20
    ||| v == 0x85
    ||| v == 0xA0
    ||| v == 0x1680
    ||| 0x2000 <= v <= 0x200A
    ||| v == 0x2028
    ||| v == 0x2029
    ||| v == 0x202F
    ||| v == 0x205F
    ||| v == 0x3000
}

/// The value of a hexadecimal digit, in either case.
pub open spec fn hex_digit(c: char) -> Option<nat> {
    let v = c as u32;
    if 0x30 <= v <= 0x39 {
        Some((v - 0x30) as nat)
    } else if 0x41 <= v <= 0x46 {
        Some((v - 0x41 + 10) as nat)
    } else if 0x61 <= v <= 0x66 {
        Some((v - 0x61 + 10) as nat)
    } else {
        None
    }
}

/// Whether every character is a hexadecimal digit.
pub open spec fn all_hex(digits: Seq<char>) -> bool {
    forall|i: int| 0 <= i < digits.len() ==> (#[trigger] hex_digit(digits[i])) is Some
}

/// The number that a run of hexadecimal digits denotes, most significant
/// digit first. Characters that are no digits count as zero.
pub open spec fn hex_value(digits: Seq<char>) -> nat
    decreases digits.len(),
{
    if digits.len() == 0 {
        0
    } else {
        16 * hex_value(digits.drop_last()) + match hex_digit(digits.last()) {
            Some(d) => d,
            None => 0,
        }
    }
}

/// One position of a pattern: the byte to compare with, and whether it is
/// compared at all.
pub struct PatternByte {
    pub value: u8,
    pub exact: bool,
}

/// What one word of a pattern string stands for. `??` is a wildcard. Any
/// other word is a byte written in hexadecimal, with an optional `+` in
/// front; a word that is neither stands for nothing.
pub open spec fn word_meaning(word: Seq<char>) -> Option<PatternByte> {
    if word =~= seq!['?', '?'] {
        Some(PatternByte { value: 0, exact: false })
    } else {
        let digits = if word.len() > 0 && word[0] == '+' {
            word.drop_first()
        } else {
            word
        };
        if digits.len() > 0 && all_hex(digits) && hex_value(digits) <= 255 {
            Some(PatternByte { value: hex_value(digits) as u8, exact: true })
        } else {
            None
        }
    }
}

/// Index of the first character at or after `from` that is no white space.
pub open spec fn skip_spaces(text: Seq<char>, from: int) -> int
    decreases text.len() - from,
{
    if 0 <= from < text.len() && is_space(text[from]) {
        skip_spaces(text, from + 1)
    } else {
        from
    }
}

/// Index of the first character at or after `from` that is white space.
pub open spec fn word_end(text: Seq<char>, from: int) -> int
    decreases text.len() - from,
{
    if 0 <= from < text.len() && !is_space(text[from]) {
        word_end(text, from + 1)
    } else {
        from
    }
}

/// The pattern positions that the words of `text` from index `from` on stand
/// for, in order. Words are the maximal runs of characters without white
/// space.
pub open spec fn parse_from(text: Seq<char>, from: int) -> Seq<PatternByte>
    decreases text.len() - from,
{
    let start = skip_spaces(text, from);
    let end = word_end(text, start);
    if 0 <= from <= start < end <= text.len() {
        let rest = parse_from(text, end);
        match word_meaning(text.subrange(start, end)) {
            Some(p) => seq![p] + rest,
            None => rest,
        }
    } else {
        Seq::empty()
    }
}

/// The pattern that a string denotes.
pub open spec fn parse_pattern(text: Seq<char>) -> Seq<PatternByte> {
    parse_from(text, 0)
}

/// Tells white space from other characters.
pub fn char_is_space(c: char) -> (space: bool)
    ensures
        space == is_space(c),
{
    let v: u32 = c as u32;
    (0x09 <= v && v <= 0x0D) || v == 0x20 || v == 0x85 || v == 0xA0 || v == 0x1680 || (0x2000 <= v
        && v <= 0x200A) || v == 0x2028 || v == 0x2029 || v == 0x202F || v == 0x205F || v == 0x3000
}

/// The value of a hexadecimal digit.
pub fn char_hex_digit(c: char) -> (digit: Option<u8>)
    ensures
        digit is Some <==> hex_digit(c) is Some,
        digit is Some ==> digit->0 as nat == hex_digit(c)->0 && digit->0 < 16,
{
    let v: u32 = c as u32;
    if 0x30 <= v && v <= 0x39 {
        Some((v - 0x30) as u8)
    } else if 0x41 <= v && v <= 0x46 {
        Some((v - 0x41 + 10) as u8)
    } else if 0x61 <= v && v <= 0x66 {
        Some((v - 0x61 + 10) as u8)
    } else {
        None
    }
}

/// A longer run of digits denotes no smaller a number.
pub proof fn lemma_hex_value_grows(digits: Seq<char>, n: int)
    requires
        0 <= n <= digits.len(),
    ensures
        hex_value(digits.take(n)) <= hex_value(digits),
    decreases digits.len() - n,
{
    if n == digits.len() {
        assert(digits.take(n) =~= digits);
    } else {
        lemma_hex_value_grows(digits, n + 1);
        assert(digits.take(n + 1).drop_last() =~= digits.take(n));
    }
}

/// Reads one word of a pattern string.
#[verifier::loop_isolation(false)]
pub fn parse_word(word: &[char]) -> (meaning: Option<PatternByte>)
    ensures
        meaning == word_meaning(word@),
{
    if word.len() == 2 && word[0] == '?' && word[1] == '?' {
        assert(word@ =~= seq!['?', '?']);
        return Some(PatternByte { value: 0, exact: false });
    }
    assert(!(word@ =~= seq!['?', '?'])) by {
        if word@ =~= seq!['?', '?'] {
            assert(word@.len() == 2 && word@[0] == '?' && word@[1] == '?');
        }
    }
    let first: usize = if word.len() > 0 && word[0] == '+' {
        1
    } else {
        0
    };
    let ghost digits = word@.skip(first as int);
    assert(digits =~= if word@.len() > 0 && word@[0] == '+' {
        word@.drop_first()
    } else {
        word@
    });
    if first == word.len() {
        return None;
    }
    let mut value: u32 = 0;
    let mut i: usize = first;
    while i < word.len()
        invariant
            first <= i <= word@.len(),
            digits == word@.skip(first as int),
            all_hex(digits.take(i - first)),
            value as nat == hex_value(digits.take(i - first)),
            value <= 255,
        decreases word@.len() - i,
    {
        let ghost next = digits.take(i - first + 1);
        proof {
            assert(next.drop_last() =~= digits.take(i - first));
            assert(next.last() == word@[i as int]);
        }
        match char_hex_digit(word[i]) {
            None => {
                assert(!all_hex(digits)) by {
                    assert(hex_digit(digits[i - first]) is None);
                }
                return None;
            },
            Some(d) => {
                value = 16 * value + d as u32;
                assert(all_hex(next)) by {
                    assert forall|k: int| 0 <= k < next.len() implies (#[trigger] hex_digit(
                        next[k],
                    )) is Some by {
                        if k < next.len() - 1 {
                            assert(next[k] == digits.take(i - first)[k]);
                        }
                    }
                }
                if value > 255 {
                    proof {
                        lemma_hex_value_grows(digits, i - first + 1);
                    }
                    return None;
                }
            },
        }
        i = i + 1;
    }
    assert(digits.take(i - first) =~= digits);
    Some(PatternByte { value: value as u8, exact: true })
}

/// The bytes of a pattern, position by position.
pub open spec fn pattern_values(pattern: Seq<PatternByte>) -> Seq<u8> {
    Seq::new(pattern.len(), |i: int| pattern[i].value)
}

/// Which positions of a pattern are compared, position by position.
pub open spec fn pattern_masks(pattern: Seq<PatternByte>) -> Seq<bool> {
    Seq::new(pattern.len(), |i: int| pattern[i].exact)
}

/// The pattern that a byte sequence and a mask sequence of the same length
/// describe together.
pub open spec fn zip_pattern(bytes: Seq<u8>, masks: Seq<bool>) -> Seq<PatternByte> {
    Seq::new(bytes.len(), |i: int| PatternByte { value: bytes[i], exact: masks[i] })
}

/// Parses a pattern string into its bytes and its mask: `12 34 ?? 56` gives
/// `[0x12, 0x34, 0x00, 0x56]` and `[true, true, false, true]`. Words that are
/// neither `??` nor a byte in hexadecimal are passed over.
pub fn pattern_to_bytes(pattern: &str) -> (parsed: (Vec<u8>, Vec<bool>))
    ensures
        parsed.0@.len() == parsed.1@.len(),
        zip_pattern(parsed.0@, parsed.1@) == parse_pattern(pattern@),
        parsed.0@ == pattern_values(parse_pattern(pattern@)),
        parsed.1@ == pattern_masks(parse_pattern(pattern@)),
{
    let chars = chars_of(pattern);
    let mut bytes: Vec<u8> = Vec::new();
    let mut masks: Vec<bool> = Vec::new();
    let mut i: usize = 0;
    assert(zip_pattern(bytes@, masks@) + parse_from(chars@, 0) =~= parse_from(chars@, 0));
    loop
        invariant
            i <= chars@.len(),
            bytes@.len() == masks@.len(),
            parse_pattern(chars@) == zip_pattern(bytes@, masks@) + parse_from(chars@, i as int),
        ensures
            bytes@.len() == masks@.len(),
            parse_pattern(chars@) == zip_pattern(bytes@, masks@),
        decreases chars@.len() - i,
    {
        let mut start: usize = i;
        while start < chars.len() && char_is_space(chars[start])
            invariant
                i <= start <= chars@.len(),
                skip_spaces(chars@, i as int) == skip_spaces(chars@, start as int),
            decreases chars@.len() - start,
        {
            start = start + 1;
        }
        let mut end: usize = start;
        while end < chars.len() && !char_is_space(chars[end])
            invariant
                start <= end <= chars@.len(),
                word_end(chars@, start as int) == word_end(chars@, end as int),
            decreases chars@.len() - end,
        {
            end = end + 1;
        }
        assert(skip_spaces(chars@, i as int) == start);
        assert(word_end(chars@, start as int) == end);
        if start == end {
            assert(parse_from(chars@, i as int) =~= Seq::empty());
            assert(zip_pattern(bytes@, masks@) + Seq::<PatternByte>::empty() =~= zip_pattern(
                bytes@,
                masks@,
            ));
            break ;
        }
        let word = slice_subrange(chars.as_slice(), start, end);
        let ghost before = zip_pattern(bytes@, masks@);
        let ghost rest = parse_from(chars@, end as int);
        match parse_word(word) {
            Some(p) => {
                bytes.push(p.value);
                masks.push(p.exact);
                assert(zip_pattern(bytes@, masks@) =~= before + seq![p]);
                assert(before + (seq![p] + rest) =~= (before + seq![p]) + rest);
            },
            None => {},
        }
        i = end;
    }
    assert(zip_pattern(bytes@, masks@) =~= parse_pattern(pattern@));
    assert(bytes@ =~= pattern_values(parse_pattern(pattern@)));
    assert(masks@ =~= pattern_masks(parse_pattern(pattern@)));
    (bytes, masks)
}

/// A pattern that was parsed. It is not changed afterwards.
#[derive(Debug)]
pub struct PatternSpec {
    bytes: Vec<u8>,
    masks: Vec<bool>,
}

impl View for PatternSpec {
    type V = Seq<PatternByte>;

    closed spec fn view(&self) -> Seq<PatternByte> {
        zip_pattern(self.bytes@, self.masks@)
    }
}

impl PatternSpec {
    /// The bytes and the mask are of one length.
    #[verifier::type_invariant]
    spec fn inv(&self) -> bool {
        self.bytes@.len() == self.masks@.len()
    }

    /// Parses a pattern string.
    pub fn parse(text: &str) -> (pattern: PatternSpec)
        ensures
            pattern@ == parse_pattern(text@),
    {
        let (bytes, masks) = pattern_to_bytes(text);
        PatternSpec { bytes, masks }
    }

    /// The pattern that matches exactly the given bytes.
    pub fn exact(data: &[u8]) -> (pattern: PatternSpec)
        ensures
            pattern@ == Seq::new(
                data@.len(),
                |i: int| PatternByte { value: data@[i], exact: true },
            ),
    {
        let mut bytes: Vec<u8> = Vec::new();
        let mut masks: Vec<bool> = Vec::new();
        let mut i: usize = 0;
        while i < data.len()
            invariant
                i <= data@.len(),
                bytes@ == data@.take(i as int),
                masks@ == Seq::new(i as nat, |k: int| true),
            decreases data@.len() - i,
        {
            bytes.push(data[i]);
            masks.push(true);
            i = i + 1;
            assert(bytes@ =~= data@.take(i as int));
            assert(masks@ =~= Seq::new(i as nat, |k: int| true));
        }
        assert(data@.take(i as int) =~= data@);
        let pattern = PatternSpec { bytes, masks };
        assert(pattern@ =~= Seq::new(
            data@.len(),
            |i: int| PatternByte { value: data@[i], exact: true },
        ));
        pattern
    }

    /// Number of positions.
    pub fn len(&self) -> (length: usize)
        ensures
            length == self@.len(),
    {
        self.bytes.len()
    }

    /// The bytes and the mask of the pattern.
    pub fn into_parts(self) -> (parts: (Vec<u8>, Vec<bool>))
        ensures
            parts.0@.len() == parts.1@.len(),
            zip_pattern(parts.0@, parts.1@) == self@,
    {
        proof {
            use_type_invariant(&self);
        }
        (self.bytes, self.masks)
    }
}

} // verus!
