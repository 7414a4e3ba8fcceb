//! Scanning a range of addresses region by region.
//!
//! This scan takes its pattern as bytes with a mask text, in which `?` marks
//! a position that matches any byte. It walks the regions between two
//! addresses, looks into those whose protection has one of the wanted bits,
//! reads them in buffers of a fixed size, and compares at every `inc`-th
//! offset of a buffer. Each buffer overlaps the one before by one byte less
//! than the pattern is long, so that with `inc` 1 no match is lost where two
//! buffers meet. It stops once it holds a given number of matches.

use crate::bytes::convert_string_utf8_to_scan_data;
use crate::bytes::copy_bytes;
use crate::error::EngineError;
use crate::memory::MemoryRegion;
use crate::pattern::PatternByte;
use crate::scanner::all_matches;
use crate::scanner::match_offsets;
use crate::scanner::matches_at;
use vstd::prelude::*;
use vstd::utf8::encode_utf8;

verus! {

/// Number of matches at which the scan stops.
pub const MAX_HIT_COUNT: usize = 5000;

/// Number of bytes read at a time.
pub const BUFFER_SIZE: usize = 4096;

/// The mask character for a position that matches any byte.
pub const ANY: u8 = 0x3F;

/// The pattern that bytes and a mask text describe: as long as the mask, and
/// compared wherever the mask has no `?`.
pub open spec fn masked_pattern(pattern: Seq<u8>, mask: Seq<u8>) -> Seq<PatternByte> {
    Seq::new(mask.len(), |k: int| PatternByte { value: pattern[k], exact: mask[k] != ANY })
}

/// The offsets `at`, `at + inc`, `at + 2 inc`, ... of a buffer at which the
/// pattern lies inside the buffer and matches, in ascending order.
pub open spec fn hits_from(buffer: Seq<u8>, pattern: Seq<PatternByte>, inc: int, at: int) -> Seq<
    int,
>
    decreases buffer.len() - at,
{
    if inc <= 0 || at < 0 || at + pattern.len() > buffer.len() {
        Seq::empty()
    } else {
        let here = if matches_at(buffer, at, pattern) {
            seq![at]
        } else {
            Seq::empty()
        };
        if at + inc + pattern.len() <= buffer.len() {
            here + hits_from(buffer, pattern, inc, at + inc)
        } else {
            here
        }
    }
}

/// With a step of one every offset of a buffer is compared: the matches
/// below an offset, followed by the hits from that offset on, are all the
/// matches in the buffer, in ascending order.
pub proof fn lemma_step_one_compares_everywhere(
    buffer: Seq<u8>,
    pattern: Seq<PatternByte>,
    at: int,
)
    requires
        0 <= at <= buffer.len() - pattern.len() + 1,
    ensures
        match_offsets(buffer, pattern, at) + hits_from(buffer, pattern, 1, at) == all_matches(
            buffer,
            pattern,
        ),
    decreases buffer.len() - pattern.len() + 1 - at,
{
    let found = match_offsets(buffer, pattern, at);
    if at + pattern.len() > buffer.len() {
        assert(found + hits_from(buffer, pattern, 1, at) =~= found);
    } else {
        lemma_step_one_compares_everywhere(buffer, pattern, at + 1);
        let rest = hits_from(buffer, pattern, 1, at + 1);
        if matches_at(buffer, at, pattern) {
            assert(found + (seq![at] + rest) =~= found.push(at) + rest);
            assert(hits_from(buffer, pattern, 1, at) =~= seq![at] + rest);
        } else {
            assert(hits_from(buffer, pattern, 1, at) =~= rest);
        }
    }
}

/// Number of matches that a buffer may still add to `held` matches: those
/// that are missing up to `MAX_HIT_COUNT`, and one at the least, for the
/// number is looked at after a match was added.
pub open spec fn room(held: int) -> int {
    if MAX_HIT_COUNT - held >= 1 {
        MAX_HIT_COUNT - held
    } else {
        1
    }
}

/// The matches as addresses.
pub open spec fn hit_list(matches: Seq<u64>) -> Seq<int> {
    Seq::new(matches.len(), |i: int| matches[i] as int)
}

/// An address that is brought back into 64 bits by wrapping round once.
pub open spec fn wrap64(address: int) -> int {
    if address > u64::MAX {
        address - u64::MAX - 1
    } else {
        address
    }
}

/// Offsets turned into addresses.
pub open spec fn hit_addresses(base: int, offsets: Seq<int>) -> Seq<int> {
    Seq::new(offsets.len(), |i: int| wrap64(base + offsets[i]))
}

/// What the scan needs next.
#[derive(Debug, Clone, Copy, PartialEq, Eq, Structural)]
pub enum CeRequest {
    /// The region that holds this address.
    Query(u64),
    /// This many bytes at this address.
    Read { address: u64, length: usize },
    /// Nothing: the scan is over.
    Done,
}

/// A scan in progress.
#[derive(Debug)]
pub struct CeScan {
    /// Bytes of the pattern.
    pub pattern: Vec<u8>,
    /// The mask, one character for each position.
    pub mask: Vec<u8>,
    /// The address whose region is looked at next.
    pub position: u64,
    /// The address at which the scan ends.
    pub end: u64,
    /// Distance between two offsets of a buffer that are compared.
    pub inc: usize,
    /// The protection bits that make a region worth reading.
    pub protection: u32,
    /// Whether a region is being read.
    pub in_region: bool,
    /// Where that region ends.
    pub region_end: u64,
    /// The address of the buffer to read next in that region.
    pub chunk: u64,
    /// How the scan ended, once it has: the number of matches, or -1 where
    /// a region could not be queried.
    pub outcome: Option<Result<usize, i32>>,
    /// The addresses of the matches.
    pub matches: Vec<u64>,
}

/// Starts a scan of the addresses from `start` up to `end` for the pattern
/// that `pattern` and `mask` describe, adding to the matches in `match_addr`.
/// The scan is refused if `inc` is zero or the pattern has fewer bytes than
/// the mask has characters.
pub fn aob_scan_ce(
    pattern: &[u8],
    mask: &str,
    start: u64,
    end: u64,
    inc: usize,
    protection: u32,
    match_addr: Vec<u64>,
) -> (scan: Result<CeScan, EngineError>)
    ensures
        scan is Ok <==> inc > 0 && encode_utf8(mask@).len() <= pattern@.len(),
        scan is Err ==> scan->Err_0 == EngineError::InvalidPattern,
        scan is Ok ==> {
            let s = scan->Ok_0;
            &&& s.wf()
            &&& s.pattern@ == pattern@
            &&& s.mask@ == encode_utf8(mask@)
            &&& s.position == start
            &&& s.end == end
            &&& s.inc == inc
            &&& s.protection == protection
            &&& !s.in_region
            &&& s.outcome is None
            &&& s.matches@ == match_addr@
        },
{
    let mask_bytes = convert_string_utf8_to_scan_data(mask);
    if inc == 0 || mask_bytes.len() > pattern.len() {
        return Err(EngineError::InvalidPattern);
    }
    Ok(
        CeScan {
            pattern: copy_bytes(pattern),
            mask: mask_bytes,
            position: start,
            end,
            inc,
            protection,
            in_region: false,
            region_end: 0,
            chunk: 0,
            outcome: None,
            matches: match_addr,
        },
    )
}

/// Number of bytes asked for in one read unless the region ends before: the
/// buffer size, or the length of the pattern where that is larger.
pub open spec fn reach(length: int) -> int {
    if length > BUFFER_SIZE {
        length
    } else {
        BUFFER_SIZE as int
    }
}

/// Number of bytes that a place for the pattern takes up: its length, and
/// one byte at the least.
pub open spec fn room_for(length: int) -> int {
    if length >= 1 {
        length
    } else {
        1
    }
}

impl CeScan {
    /// The pattern that is searched for.
    pub open spec fn searched(&self) -> Seq<PatternByte> {
        masked_pattern(self.pattern@, self.mask@)
    }

    /// The offsets advance, the pattern has a byte for every position of the
    /// mask, and a region that is being read has room for the pattern from
    /// the next buffer on.
    pub open spec fn wf(&self) -> bool {
        &&& self.inc > 0
        &&& self.mask@.len() <= self.pattern@.len()
        &&& self.in_region ==> self.chunk + room_for(self.mask@.len() as int) <= self.region_end
    }

    /// Length of the read that the scan waits for: up to the end of the
    /// region, and no more than `reach` bytes.
    pub open spec fn read_length(&self) -> int {
        if reach(self.mask@.len() as int) <= self.region_end - self.chunk {
            reach(self.mask@.len() as int)
        } else {
            self.region_end - self.chunk
        }
    }

    /// What the scan needs next.
    pub open spec fn request(&self) -> CeRequest {
        if self.outcome is Some {
            CeRequest::Done
        } else if self.in_region {
            CeRequest::Read { address: self.chunk, length: self.read_length() as usize }
        } else if self.position < self.end {
            CeRequest::Query(self.position)
        } else {
            CeRequest::Done
        }
    }

    /// The read brought all the bytes that were asked for.
    pub open spec fn complete(&self, data: Option<Seq<u8>>) -> bool {
        data is Some && data->0.len() == self.read_length()
    }

    /// Address of the buffer that follows the one that was read. After a
    /// complete read the next buffer begins one byte less than the pattern
    /// is long before the end of the last, so that a match that lies across
    /// the end of a buffer is found in the next. After a read that failed or
    /// fell short the scan moves on by `reach` bytes.
    pub open spec fn chunk_after(&self, data: Option<Seq<u8>>) -> int {
        if self.complete(data) {
            self.chunk + self.read_length() - (room_for(self.mask@.len() as int) - 1)
        } else {
            self.chunk + reach(self.mask@.len() as int)
        }
    }

    /// Computes the length of the read that the scan waits for.
    fn next_length(&self) -> (length: usize)
        requires
            self.wf(),
            self.in_region,
        ensures
            length == self.read_length(),
            room_for(self.mask@.len() as int) <= length,
    {
        let reach: usize = if self.mask.len() > BUFFER_SIZE {
            self.mask.len()
        } else {
            BUFFER_SIZE
        };
        let left: u64 = self.region_end - self.chunk;
        if reach as u64 <= left {
            reach
        } else {
            left as usize
        }
    }

    /// Tells what the scan needs next. When nothing is left to look at the
    /// scan ends with the number of matches.
    pub fn next_request(&mut self) -> (request: CeRequest)
        requires
            old(self).wf(),
        ensures
            final(self).wf(),
            request == old(self).request(),
            final(self).outcome == if old(self).outcome is None && request == CeRequest::Done {
                Some(Ok::<usize, i32>(old(self).matches@.len() as usize))
            } else {
                old(self).outcome
            },
            final(self).pattern == old(self).pattern,
            final(self).mask == old(self).mask,
            final(self).position == old(self).position,
            final(self).end == old(self).end,
            final(self).inc == old(self).inc,
            final(self).protection == old(self).protection,
            final(self).in_region == old(self).in_region,
            final(self).region_end == old(self).region_end,
            final(self).chunk == old(self).chunk,
            final(self).matches == old(self).matches,
    {
        if self.outcome.is_some() {
            CeRequest::Done
        } else if self.in_region {
            CeRequest::Read { address: self.chunk, length: self.next_length() }
        } else if self.position < self.end {
            CeRequest::Query(self.position)
        } else {
            self.outcome = Some(Ok(self.matches.len()));
            CeRequest::Done
        }
    }

    /// Takes in the answer to a query: the region that holds the address, or
    /// `None`, which ends the scan with -1. A region whose protection has
    /// one of the wanted bits, and which has room for the pattern, is read
    /// from the address asked about up to its end; any other is passed
    /// over. A region without size, or one that would end outside the
    /// address space, ends the scan.
    pub fn on_query(&mut self, answer: Option<MemoryRegion>)
        requires
            old(self).wf(),
            old(self).request() is Query,
        ensures
            final(self).wf(),
            final(self).pattern == old(self).pattern,
            final(self).mask == old(self).mask,
            final(self).end == old(self).end,
            final(self).inc == old(self).inc,
            final(self).protection == old(self).protection,
            final(self).matches == old(self).matches,
            match answer {
                None => {
                    &&& final(self).outcome == Some(Err::<usize, i32>(-1i32))
                    &&& !final(self).in_region
                    &&& final(self).position == old(self).position
                },
                Some(region) => if region.region_size == 0 || old(self).position
                    + region.region_size > u64::MAX {
                    &&& final(self).outcome == Some(
                        Ok::<usize, i32>(old(self).matches@.len() as usize),
                    )
                    &&& !final(self).in_region
                    &&& final(self).position == old(self).position
                } else if region.protect & old(self).protection != 0 && region.region_size
                    >= room_for(old(self).mask@.len() as int) {
                    &&& final(self).outcome is None
                    &&& final(self).in_region
                    &&& final(self).chunk == old(self).position
                    &&& final(self).region_end == old(self).position + region.region_size
                    &&& final(self).position == old(self).position
                } else {
                    &&& final(self).outcome is None
                    &&& !final(self).in_region
                    &&& final(self).position == old(self).position + region.region_size
                },
            },
    {
        match answer {
            None => {
                self.outcome = Some(Err(-1));
                self.in_region = false;
            },
            Some(region) => {
                let size = region.region_size as u64;
                let needed: usize = if self.mask.len() >= 1 {
                    self.mask.len()
                } else {
                    1
                };
                if size == 0 || size > u64::MAX - self.position {
                    self.outcome = Some(Ok(self.matches.len()));
                    self.in_region = false;
                } else if region.protect & self.protection != 0 && region.region_size >= needed {
                    self.in_region = true;
                    self.chunk = self.position;
                    self.region_end = self.position + size;
                } else {
                    self.in_region = false;
                    self.position = self.position + size;
                }
            },
        }
    }

    /// Takes in the outcome of a read: the buffer, or `None` if the read
    /// failed. A buffer of another length than asked for counts as failed,
    /// and nothing is compared in it. In a complete buffer the offsets 0,
    /// `inc`, `2 inc`, ... at which the pattern matches are added to the
    /// matches as addresses, up to the one with which the scan holds
    /// `MAX_HIT_COUNT` matches, which ends the scan. Otherwise the scan goes
    /// on with the next buffer of the region, which overlaps this one by one
    /// byte less than the pattern is long, or behind the region once it has
    /// no room for the pattern any more.
    pub fn on_read(&mut self, data: Option<&[u8]>)
        requires
            old(self).wf(),
            old(self).request() is Read,
        ensures
            final(self).wf(),
            final(self).pattern == old(self).pattern,
            final(self).mask == old(self).mask,
            final(self).end == old(self).end,
            final(self).inc == old(self).inc,
            final(self).protection == old(self).protection,
            final(self).region_end == old(self).region_end,
            ({
                let read = match data {
                    Some(buffer) => Some(buffer@),
                    None => None,
                };
                let hits = if old(self).complete(read) {
                    hits_from(data->0@, old(self).searched(), old(self).inc as int, 0)
                } else {
                    Seq::empty()
                };
                let allowed = room(old(self).matches@.len() as int);
                let full = hits.len() >= allowed;
                let taken = if full {
                    hits.take(allowed)
                } else {
                    hits
                };
                let next = old(self).chunk_after(read);
                &&& hit_list(final(self).matches@) == hit_list(old(self).matches@) + hit_addresses(
                    old(self).chunk as int,
                    taken,
                )
                &&& full ==> {
                    &&& final(self).outcome == Some(
                        Ok::<usize, i32>(final(self).matches@.len() as usize),
                    )
                    &&& final(self).in_region == old(self).in_region
                    &&& final(self).chunk == old(self).chunk
                    &&& final(self).position == old(self).position
                }
                &&& !full ==> final(self).outcome is None && if next + room_for(
                    old(self).mask@.len() as int,
                ) <= old(self).region_end {
                    &&& final(self).in_region
                    &&& final(self).chunk == next
                    &&& final(self).position == old(self).position
                } else {
                    &&& !final(self).in_region
                    &&& final(self).position == old(self).region_end
                }
            }),
    {
        let ghost held = hit_list(self.matches@);
        let length = self.next_length();
        let plen = self.mask.len();
        let needed: usize = if plen >= 1 {
            plen
        } else {
            1
        };
        let reach: usize = if plen > BUFFER_SIZE {
            plen
        } else {
            BUFFER_SIZE
        };
        let mut full = false;
        let mut step: usize = reach;
        match data {
            Some(buffer) => {
                if buffer.len() == length {
                    full = self.scan_buffer(buffer);
                    step = length - (needed - 1);
                } else {
                    assert(hit_list(self.matches@) =~= held + hit_addresses(
                        self.chunk as int,
                        Seq::empty(),
                    ));
                }
            },
            None => {
                assert(hit_list(self.matches@) =~= held + hit_addresses(
                    self.chunk as int,
                    Seq::empty(),
                ));
            },
        }
        let left: u64 = self.region_end - self.chunk;
        if full {
            self.outcome = Some(Ok(self.matches.len()));
        } else if step as u64 <= left && needed as u64 <= left - step as u64 {
            self.chunk = self.chunk + step as u64;
        } else {
            self.in_region = false;
            self.position = self.region_end;
        }
    }

    /// Compares the pattern at every `inc`-th offset of a buffer that was
    /// read at the address `chunk`, and adds the matches.
    fn scan_buffer(&mut self, buffer: &[u8]) -> (full: bool)
        requires
            old(self).wf(),
        ensures
            final(self).pattern == old(self).pattern,
            final(self).mask == old(self).mask,
            final(self).position == old(self).position,
            final(self).end == old(self).end,
            final(self).inc == old(self).inc,
            final(self).protection == old(self).protection,
            final(self).in_region == old(self).in_region,
            final(self).region_end == old(self).region_end,
            final(self).chunk == old(self).chunk,
            final(self).outcome == old(self).outcome,
            ({
                let hits = hits_from(buffer@, old(self).searched(), old(self).inc as int, 0);
                let allowed = room(old(self).matches@.len() as int);
                &&& full == (hits.len() >= allowed)
                &&& hit_list(final(self).matches@) == hit_list(old(self).matches@) + hit_addresses(
                    old(self).chunk as int,
                    if full {
                        hits.take(allowed)
                    } else {
                        hits
                    },
                )
            }),
    {
        let ghost pattern = self.searched();
        let ghost held = hit_list(self.matches@);
        let ghost allowed = room(self.matches@.len() as int);
        let ghost hits = hits_from(buffer@, pattern, self.inc as int, 0);
        let ghost mut found: Seq<int> = Seq::empty();
        let size = buffer.len();
        let length = self.mask.len();
        let mut at: usize = 0;
        proof {
            assert(found + hits_from(buffer@, pattern, self.inc as int, 0) =~= hits);
            assert(hit_list(self.matches@) =~= held + hit_addresses(self.chunk as int, found));
        }
        while length <= size && at <= size - length
            invariant
                self.wf(),
                self.pattern == old(self).pattern,
                self.mask == old(self).mask,
                self.position == old(self).position,
                self.end == old(self).end,
                self.inc == old(self).inc,
                self.protection == old(self).protection,
                self.in_region == old(self).in_region,
                self.region_end == old(self).region_end,
                self.chunk == old(self).chunk,
                self.outcome == old(self).outcome,
                pattern == self.searched(),
                size == buffer@.len(),
                length == self.mask@.len(),
                length == pattern.len(),
                held == hit_list(old(self).matches@),
                allowed == room(old(self).matches@.len() as int),
                hits == hits_from(buffer@, pattern, self.inc as int, 0),
                hits == found + hits_from(buffer@, pattern, self.inc as int, at as int),
                hit_list(self.matches@) == held + hit_addresses(self.chunk as int, found),
                found.len() < allowed,
            decreases size - at,
        {
            let last = self.inc > size - length - at;
            let ghost rest = if last {
                Seq::<int>::empty()
            } else {
                hits_from(buffer@, pattern, self.inc as int, at + self.inc)
            };
            let ghost before = found;
            if self.matches_here(buffer, at) {
                let ghost listed = self.matches@;
                let address = self.chunk.wrapping_add(at as u64);
                self.matches.push(address);
                proof {
                    found = before.push(at as int);
                    assert(hits_from(buffer@, pattern, self.inc as int, at as int) =~= seq![
                        at as int,
                    ] + rest);
                    assert(hits =~= found + rest);
                    assert(hit_list(self.matches@) =~= hit_list(listed).push(address as int));
                    assert(hit_addresses(self.chunk as int, found) =~= hit_addresses(
                        self.chunk as int,
                        before,
                    ).push(wrap64(self.chunk + at)));
                }
                if self.matches.len() >= MAX_HIT_COUNT {
                    proof {
                        assert(found.len() == allowed);
                        assert(hits.take(allowed) =~= found);
                    }
                    return true;
                }
            } else {
                proof {
                    assert(hits_from(buffer@, pattern, self.inc as int, at as int) =~= rest);
                }
            }
            if last {
                proof {
                    assert(found + Seq::<int>::empty() =~= found);
                }
                return false;
            }
            at = at + self.inc;
        }
        proof {
            assert(hits_from(buffer@, pattern, self.inc as int, at as int) =~= Seq::empty());
            assert(found + Seq::<int>::empty() =~= found);
        }
        false
    }

    /// Compares the pattern with the bytes of a buffer at one offset.
    fn matches_here(&self, buffer: &[u8], at: usize) -> (found: bool)
        requires
            self.wf(),
            at + self.mask@.len() <= buffer@.len(),
        ensures
            found == matches_at(buffer@, at as int, self.searched()),
    {
        let ghost pattern = self.searched();
        let length = self.mask.len();
        let size = buffer.len();
        if length == 0 {
            return false;
        }
        let mut k: usize = 0;
        while k < length
            invariant
                k <= length,
                size == buffer@.len(),
                length == self.mask@.len(),
                self.mask@.len() <= self.pattern@.len(),
                at + length <= buffer@.len(),
                pattern == self.searched(),
                forall|j: int|
                    0 <= j < k && (#[trigger] pattern[j]).exact ==> buffer@[at + j]
                        == pattern[j].value,
            decreases length - k,
        {
            if self.mask[k] != ANY && self.pattern[k] != buffer[at + k] {
                assert(pattern[k as int].exact && buffer@[at + k] != pattern[k as int].value);
                return false;
            }
            k = k + 1;
        }
        true
    }
}

} // verus!
