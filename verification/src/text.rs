//! Reading text out of the target process.

use crate::allocation::wrap;
use crate::bytes::le_value;
use crate::error::EngineError;
use crate::memory::ReadRequest;
use vstd::prelude::*;

verus! {

/// The text that UTF-16 code units stand for, with the replacement character
/// in place of whatever is no valid UTF-16.
pub uninterp spec fn utf16_lossy(units: Seq<u16>) -> Seq<char>;

/// Decodes UTF-16 code units with `String::from_utf16_lossy` of the standard
/// library, which replaces invalid data by U+FFFD. What is assumed: the text
/// is a function of the code units.
#[verifier::external_body]
fn decode_utf16_lossy(units: &[u16]) -> (text: String)
    ensures
        text@ == utf16_lossy(units@),
{
    String::from_utf16_lossy(units)
}

/// The reading of a zero-terminated UTF-16 string, one code unit at a time.
#[derive(Debug)]
pub struct Utf16Reader {
    /// Address of the next code unit.
    pub cursor: usize,
    /// The code units read so far, without the terminating zero.
    pub units: Vec<u16>,
    /// Whether the terminating zero was read.
    pub done: bool,
}

/// Begins to read the zero-terminated UTF-16 string at `address`.
pub fn read_utf16_string(address: usize) -> (reader: Utf16Reader)
    ensures
        reader.cursor == address,
        reader.units@.len() == 0,
        !reader.done,
{
    Utf16Reader { cursor: address, units: Vec::new(), done: false }
}

impl Utf16Reader {
    /// The read to make next: the two bytes of the next code unit. `None`
    /// once the terminating zero was read.
    pub fn next_read(&self) -> (request: Option<ReadRequest>)
        ensures
            request == if self.done {
                None
            } else {
                Some(ReadRequest { address: self.cursor, length: 2 })
            },
    {
        if self.done {
            None
        } else {
            Some(ReadRequest { address: self.cursor, length: 2 })
        }
    }

    /// Takes in the outcome of the read: two bytes, or anything else if the
    /// read failed, which is an error and leaves the reader as it was. A
    /// zero ends the string; any other code unit is kept, and the reader
    /// moves on by two bytes.
    pub fn on_read(&mut self, data: Option<&[u8]>) -> (outcome: Result<(), EngineError>)
        requires
            !old(self).done,
        ensures
            match data {
                Some(bytes) if bytes@.len() == 2 => {
                    &&& outcome is Ok
                    &&& final(self).done == (le_value(bytes@) == 0)
                    &&& final(self).done ==> final(self).units@ == old(self).units@
                    &&& final(self).done ==> final(self).cursor == old(self).cursor
                    &&& !final(self).done ==> final(self).units@ == old(self).units@.push(
                        le_value(bytes@) as u16,
                    ) && final(self).cursor == wrap(old(self).cursor + 2)
                },
                _ => outcome == Err::<(), EngineError>(EngineError::MemoryTransfer) && *final(self)
                    == *old(self),
            },
    {
        let bytes = match data {
            Some(bytes) => bytes,
            None => {
                return Err(EngineError::MemoryTransfer);
            },
        };
        if bytes.len() != 2 {
            return Err(EngineError::MemoryTransfer);
        }
        proof {
            reveal_with_fuel(le_value, 3);
            assert(bytes@.drop_first().drop_first().len() == 0);
        }
        let unit: u16 = bytes[0] as u16 + 256 * (bytes[1] as u16);
        if unit == 0 {
            self.done = true;
        } else {
            self.units.push(unit);
            self.cursor = self.cursor.wrapping_add(2);
        }
        Ok(())
    }

    /// The text read so far.
    pub fn text(&self) -> (text: String)
        ensures
            text@ == utf16_lossy(self.units@),
    {
        decode_utf16_lossy(self.units.as_slice())
    }
}

} // verus!
