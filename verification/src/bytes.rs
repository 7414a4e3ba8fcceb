//! Little-endian integers and scan data.

use vstd::arithmetic::div_mod::lemma_div_denominator;
use vstd::prelude::*;
use vstd::utf8::encode_utf8;

verus! {

/// `256^exp`.
pub open spec fn pow256(exp: nat) -> nat
    decreases exp,
{
    if exp == 0 {
        1
    } else {
        256 * pow256((exp - 1) as nat)
    }
}

/// The number that a byte sequence denotes when read least significant byte first.
pub open spec fn le_value(bytes: Seq<u8>) -> nat
    decreases bytes.len(),
{
    if bytes.len() == 0 {
        0
    } else {
        bytes[0] as nat + 256 * le_value(bytes.drop_first())
    }
}

/// The `width` low-order bytes of `value`, least significant byte first.
pub open spec fn le_bytes(value: nat, width: nat) -> Seq<u8> {
    Seq::new(width, |i: int| ((value / pow256(i as nat)) % 256) as u8)
}

/// Number of bytes in a pointer of the machine this code runs on.
pub open spec fn pointer_width() -> nat {
    (usize::BITS / 8) as nat
}

/// Reads four bytes as a little-endian 32-bit number.
pub fn byte_array_to_dword(bytes: &[u8]) -> (value: u32)
    requires
        bytes@.len() == 4,
    ensures
        value as nat == le_value(bytes@),
{
    proof {
        reveal_with_fuel(le_value, 5);
        assert(bytes@.drop_first().drop_first().drop_first().drop_first().len() == 0);
    }
    let b0: u32 = bytes[0] as u32;
    let b1: u32 = bytes[1] as u32;
    let b2: u32 = bytes[2] as u32;
    let b3: u32 = bytes[3] as u32;
    b0 + 256 * (b1 + 256 * (b2 + 256 * b3))
}

/// Reads eight bytes as a little-endian 64-bit number.
pub fn byte_array_to_qword(bytes: &[u8]) -> (value: u64)
    requires
        bytes@.len() == 8,
    ensures
        value as nat == le_value(bytes@),
{
    proof {
        reveal_with_fuel(le_value, 9);
        let tail = bytes@.drop_first().drop_first().drop_first().drop_first();
        assert(tail.drop_first().drop_first().drop_first().drop_first().len() == 0);
    }
    let b0: u64 = bytes[0] as u64;
    let b1: u64 = bytes[1] as u64;
    let b2: u64 = bytes[2] as u64;
    let b3: u64 = bytes[3] as u64;
    let b4: u64 = bytes[4] as u64;
    let b5: u64 = bytes[5] as u64;
    let b6: u64 = bytes[6] as u64;
    let b7: u64 = bytes[7] as u64;
    b0 + 256 * (b1 + 256 * (b2 + 256 * (b3 + 256 * (b4 + 256 * (b5 + 256 * (b6 + 256 * b7))))))
}

/// Reads a pointer-sized little-endian number: eight bytes on a 64-bit
/// machine, four on a 32-bit one.
pub fn byte_array_to_pointer(bytes: &[u8]) -> (value: usize)
    requires
        bytes@.len() == pointer_width(),
    ensures
        value as nat == le_value(bytes@),
{
    if usize::BITS == 64 {
        byte_array_to_qword(bytes) as usize
    } else {
        byte_array_to_dword(bytes) as usize
    }
}

/// Scan data for a pointer-sized value: its bytes as they lie in memory,
/// least significant first.
pub fn convert_address_to_scan_data(address: usize) -> (data: Vec<u8>)
    ensures
        data@ == le_bytes(address as nat, pointer_width()),
{
    let width: u32 = usize::BITS / 8;
    let mut data: Vec<u8> = Vec::new();
    let mut rest: usize = address;
    let mut i: u32 = 0;
    proof {
        assert(pow256(0) == 1);
        assert(data@ =~= le_bytes(address as nat, 0));
    }
    while i < width
        invariant
            i <= width,
            width == pointer_width(),
            data@ == le_bytes(address as nat, i as nat),
            rest as nat == address as nat / pow256(i as nat),
        decreases width - i,
    {
        proof {
            lemma_pow256_positive(i as nat);
            lemma_div_denominator(address as int, pow256(i as nat) as int, 256);
            assert(pow256((i + 1) as nat) == 256 * pow256(i as nat));
            assert(pow256(i as nat) * 256 == 256 * pow256(i as nat));
        }
        data.push((rest % 256) as u8);
        rest = rest / 256;
        i = i + 1;
        assert(data@ =~= le_bytes(address as nat, i as nat));
    }
    data
}

/// `256^exp` is never zero.
pub proof fn lemma_pow256_positive(exp: nat)
    ensures
        pow256(exp) > 0,
    decreases exp,
{
    if exp > 0 {
        lemma_pow256_positive((exp - 1) as nat);
    }
}

/// The UTF-16 code units of one character: the character itself inside the
/// basic plane, a surrogate pair above it.
pub open spec fn utf16_units(c: char) -> Seq<u16> {
    let v = c as u32;
    if v < 0x10000 {
        seq![v as u16]
    } else {
        seq![(0xD800 + (v - 0x10000) / 0x400) as u16, (0xDC00 + (v - 0x10000) % 0x400) as u16]
    }
}

/// The UTF-16 code units of a string.
pub open spec fn utf16_encode(text: Seq<char>) -> Seq<u16>
    decreases text.len(),
{
    if text.len() == 0 {
        Seq::empty()
    } else {
        utf16_encode(text.drop_last()) + utf16_units(text.last())
    }
}

/// Code units laid out in memory, each least significant byte first.
pub open spec fn units_le_bytes(units: Seq<u16>) -> Seq<u8>
    decreases units.len(),
{
    if units.len() == 0 {
        Seq::empty()
    } else {
        units_le_bytes(units.drop_last()) + seq![
            (units.last() % 256) as u8,
            (units.last() / 256) as u8,
        ]
    }
}

/// The UTF-16 code units of a string, as executable code computes them.
pub fn encode_utf16(text: &str) -> (units: Vec<u16>)
    ensures
        units@ == utf16_encode(text@),
{
    let chars = chars_of(text);
    let mut units: Vec<u16> = Vec::new();
    let mut i: usize = 0;
    while i < chars.len()
        invariant
            i <= chars.len(),
            units@ == utf16_encode(chars@.take(i as int)),
        decreases chars.len() - i,
    {
        let v: u32 = chars[i] as u32;
        proof {
            let next = chars@.take(i + 1);
            assert(next.drop_last() =~= chars@.take(i as int));
            assert(next.last() == chars@[i as int]);
            vstd::utf8::char_is_scalar(chars@[i as int]);
        }
        if v < 0x10000 {
            units.push(v as u16);
        } else {
            units.push((0xD800 + (v - 0x10000) / 0x400) as u16);
            units.push((0xDC00 + (v - 0x10000) % 0x400) as u16);
        }
        i = i + 1;
        assert(units@ =~= utf16_encode(chars@.take(i as int)));
    }
    assert(chars@.take(i as int) =~= chars@);
    units
}

/// Scan data for a string as UTF-16 text in memory.
pub fn convert_string_utf16_to_scan_data(text: &str) -> (data: Vec<u8>)
    ensures
        data@ == units_le_bytes(utf16_encode(text@)),
{
    let units = encode_utf16(text);
    let mut data: Vec<u8> = Vec::new();
    let mut i: usize = 0;
    while i < units.len()
        invariant
            i <= units.len(),
            data@ == units_le_bytes(units@.take(i as int)),
        decreases units.len() - i,
    {
        let unit: u16 = units[i];
        proof {
            let next = units@.take(i + 1);
            assert(next.drop_last() =~= units@.take(i as int));
            assert(next.last() == units@[i as int]);
        }
        data.push((unit % 256) as u8);
        data.push((unit / 256) as u8);
        i = i + 1;
        assert(data@ =~= units_le_bytes(units@.take(i as int)));
    }
    assert(units@.take(i as int) =~= units@);
    data
}

/// Scan data for a string as UTF-8 text in memory.
pub fn convert_string_utf8_to_scan_data(text: &str) -> (data: Vec<u8>)
    ensures
        data@ == encode_utf8(text@),
{
    let bytes = text.as_bytes();
    let mut data: Vec<u8> = Vec::new();
    let mut i: usize = 0;
    while i < bytes.len()
        invariant
            i <= bytes@.len(),
            data@ == bytes@.take(i as int),
        decreases bytes@.len() - i,
    {
        data.push(bytes[i]);
        i = i + 1;
        assert(data@ =~= bytes@.take(i as int));
    }
    assert(bytes@.take(i as int) =~= bytes@);
    data
}

/// Copies a run of bytes.
pub fn copy_bytes(bytes: &[u8]) -> (copy: Vec<u8>)
    ensures
        copy@ == bytes@,
{
    let mut copy: Vec<u8> = Vec::new();
    let mut i: usize = 0;
    while i < bytes.len()
        invariant
            i <= bytes@.len(),
            copy@ == bytes@.take(i as int),
        decreases bytes@.len() - i,
    {
        copy.push(bytes[i]);
        i = i + 1;
        assert(copy@ =~= bytes@.take(i as int));
    }
    assert(bytes@.take(i as int) =~= bytes@);
    copy
}

/// Collects the characters of a string.
pub fn chars_of(text: &str) -> (chars: Vec<char>)
    ensures
        chars@ == text@,
{
    let mut chars: Vec<char> = Vec::new();
    for c in it: text.chars()
        invariant
            chars@ == it.seq().take(it.index()),
            it.seq() == text@,
    {
        chars.push(c);
    }
    chars
}

} // verus!
