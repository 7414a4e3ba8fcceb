//! Searching memory for byte patterns.

use crate::error::EngineError;
use crate::memory::MemoryRegion;
use crate::memory::ReadRequest;
use crate::pattern::parse_pattern;
use crate::pattern::pattern_to_bytes;
use crate::pattern::zip_pattern;
use crate::pattern::PatternByte;
use crate::pattern::PatternSpec;
use vstd::prelude::*;
use vstd::slice::slice_subrange;

verus! {

/// The pattern lies inside `data` at offset `at`, and every position that is
/// compared holds the pattern's byte. A pattern without positions matches
/// nowhere.
pub open spec fn matches_at(data: Seq<u8>, at: int, pattern: Seq<PatternByte>) -> bool {
    &&& pattern.len() > 0
    &&& 0 <= at
    &&& at + pattern.len() <= data.len()
    &&& forall|j: int|
        0 <= j < pattern.len() && (#[trigger] pattern[j]).exact ==> data[at + j] == pattern[j].value
}

/// The offsets below `limit` at which the pattern matches, in ascending order.
pub open spec fn match_offsets(data: Seq<u8>, pattern: Seq<PatternByte>, limit: int) -> Seq<int>
    decreases limit,
{
    if limit <= 0 {
        Seq::empty()
    } else if matches_at(data, limit - 1, pattern) {
        match_offsets(data, pattern, limit - 1).push(limit - 1)
    } else {
        match_offsets(data, pattern, limit - 1)
    }
}

/// Every offset at which the pattern matches, in ascending order.
pub open spec fn all_matches(data: Seq<u8>, pattern: Seq<PatternByte>) -> Seq<int> {
    match_offsets(data, pattern, data.len() - pattern.len() + 1)
}

/// Offsets turned into addresses.
pub open spec fn addresses(base: int, offsets: Seq<int>) -> Seq<int> {
    Seq::new(offsets.len(), |i: int| base + offsets[i])
}

/// The addresses held in a list of matches.
pub open spec fn address_list(matches: Seq<usize>) -> Seq<int> {
    Seq::new(matches.len(), |i: int| matches[i] as int)
}

/// An offset is listed exactly if it lies below the limit and the pattern
/// matches there.
pub proof fn lemma_match_offsets_complete(
    data: Seq<u8>,
    pattern: Seq<PatternByte>,
    limit: int,
    at: int,
)
    ensures
        match_offsets(data, pattern, limit).contains(at) <==> (0 <= at < limit && matches_at(
            data,
            at,
            pattern,
        )),
    decreases limit,
{
    if limit > 0 {
        lemma_match_offsets_complete(data, pattern, limit - 1, at);
        let prev = match_offsets(data, pattern, limit - 1);
        if matches_at(data, limit - 1, pattern) {
            let now = prev.push(limit - 1);
            if prev.contains(at) {
                let k = choose|k: int| 0 <= k < prev.len() && prev[k] == at;
                assert(now[k] == at);
            }
            if at == limit - 1 {
                assert(now[prev.len() as int] == at);
            }
        }
    }
}

/// The listed offsets are strictly ascending and lie below the limit.
pub proof fn lemma_match_offsets_ascending(data: Seq<u8>, pattern: Seq<PatternByte>, limit: int)
    ensures
        ({
            let found = match_offsets(data, pattern, limit);
            &&& forall|i: int| 0 <= i < found.len() ==> 0 <= #[trigger] found[i] < limit
            &&& forall|i: int, j: int| 0 <= i < j < found.len() ==> found[i] < found[j]
        }),
    decreases limit,
{
    if limit > 0 {
        lemma_match_offsets_ascending(data, pattern, limit - 1);
        let prev = match_offsets(data, pattern, limit - 1);
        let found = match_offsets(data, pattern, limit);
        assert forall|i: int| 0 <= i < found.len() implies 0 <= #[trigger] found[i] < limit by {
            if i < prev.len() {
                assert(found[i] == prev[i]);
            }
        }
        assert forall|i: int, j: int| 0 <= i < j < found.len() implies found[i] < found[j] by {
            assert(found[i] == prev[i]);
            if j < prev.len() {
                assert(found[j] == prev[j]);
            }
        }
    }
}

/// A scan finds every match and nothing else: an offset is among the matches
/// exactly if the pattern matches there.
pub proof fn lemma_all_matches_exact(data: Seq<u8>, pattern: Seq<PatternByte>, at: int)
    ensures
        all_matches(data, pattern).contains(at) <==> matches_at(data, at, pattern),
{
    lemma_match_offsets_complete(data, pattern, data.len() - pattern.len() + 1, at);
}

/// The matches come in ascending order, each once.
pub proof fn lemma_all_matches_ascending(data: Seq<u8>, pattern: Seq<PatternByte>)
    ensures
        forall|i: int, j: int|
            0 <= i < j < all_matches(data, pattern).len() ==> all_matches(data, pattern)[i]
                < all_matches(data, pattern)[j],
{
    lemma_match_offsets_ascending(data, pattern, data.len() - pattern.len() + 1);
}

/// Where the pattern matches nowhere below the limit, nothing is listed.
pub proof fn lemma_no_match_without_room(data: Seq<u8>, pattern: Seq<PatternByte>, limit: int)
    requires
        forall|at: int| 0 <= at < limit ==> !matches_at(data, at, pattern),
    ensures
        match_offsets(data, pattern, limit) =~= Seq::empty(),
    decreases limit,
{
    if limit > 0 {
        lemma_no_match_without_room(data, pattern, limit - 1);
    }
}

/// Compares the pattern with the bytes at offset `at`.
pub fn pattern_matches(data: &[u8], at: usize, bytes: &[u8], masks: &[bool]) -> (found: bool)
    requires
        bytes@.len() == masks@.len(),
    ensures
        found == matches_at(data@, at as int, zip_pattern(bytes@, masks@)),
{
    let ghost pattern = zip_pattern(bytes@, masks@);
    if bytes.len() == 0 || at > data.len() || bytes.len() > data.len() - at {
        return false;
    }
    let mut j: usize = 0;
    while j < bytes.len()
        invariant
            j <= bytes@.len(),
            data@.len() <= usize::MAX,
            bytes@.len() == masks@.len(),
            at + bytes@.len() <= data@.len(),
            pattern == zip_pattern(bytes@, masks@),
            forall|k: int|
                0 <= k < j && (#[trigger] pattern[k]).exact ==> data@[at + k] == pattern[k].value,
        decreases bytes@.len() - j,
    {
        if masks[j] && data[at + j] != bytes[j] {
            assert(pattern[j as int].exact && data@[at + j] != pattern[j as int].value);
            return false;
        }
        j = j + 1;
    }
    true
}

/// Searches one buffer that was read at address `base`, and appends the
/// address of every match to `matches`, in ascending order.
pub fn scan_chunk(
    data: &[u8],
    base: usize,
    bytes: &[u8],
    masks: &[bool],
    matches: &mut Vec<usize>,
)
    requires
        bytes@.len() == masks@.len(),
        base + data@.len() <= usize::MAX,
    ensures
        address_list(final(matches)@) == address_list(old(matches)@) + addresses(
            base as int,
            all_matches(data@, zip_pattern(bytes@, masks@)),
        ),
{
    let ghost pattern = zip_pattern(bytes@, masks@);
    let ghost before = address_list(matches@);
    if bytes.len() == 0 || bytes.len() > data.len() {
        assert(all_matches(data@, pattern) =~= Seq::empty()) by {
            lemma_no_match_without_room(data@, pattern, data@.len() - pattern.len() + 1);
        }
        assert(address_list(matches@) =~= before + addresses(base as int, Seq::empty()));
        return ;
    }
    let limit: usize = data.len() - bytes.len() + 1;
    let mut i: usize = 0;
    assert(address_list(matches@) =~= before + addresses(
        base as int,
        match_offsets(data@, pattern, 0),
    ));
    while i < limit
        invariant
            i <= limit,
            limit == data@.len() - bytes@.len() + 1,
            bytes@.len() == masks@.len(),
            base + data@.len() <= usize::MAX,
            pattern == zip_pattern(bytes@, masks@),
            address_list(matches@) == before + addresses(
                base as int,
                match_offsets(data@, pattern, i as int),
            ),
        decreases limit - i,
    {
        let ghost found_before = match_offsets(data@, pattern, i as int);
        if pattern_matches(data, i, bytes, masks) {
            let ghost listed = matches@;
            matches.push(base + i);
            assert(address_list(matches@) =~= address_list(listed).push(base + i));
            assert(addresses(base as int, found_before.push(i as int)) =~= addresses(
                base as int,
                found_before,
            ).push(base + i));
            assert(address_list(matches@) =~= before + addresses(
                base as int,
                found_before.push(i as int),
            ));
        }
        i = i + 1;
    }
}

/// Number of bytes that are read at a time unless the pattern is longer.
pub const CHUNK_SIZE: usize = 0x1000;

/// Number of bytes asked for in one read: the chunk size, or the pattern's
/// length where that is larger, so that a pattern always fits in one read.
pub open spec fn window(chunk_size: int, pattern_len: int) -> int {
    if chunk_size >= pattern_len {
        chunk_size
    } else {
        pattern_len
    }
}

/// Length of the read that starts at `offset` in a region of `size` bytes.
pub open spec fn chunk_length(size: int, offset: int, chunk_size: int, pattern_len: int) -> int {
    if window(chunk_size, pattern_len) <= size - offset {
        window(chunk_size, pattern_len)
    } else {
        size - offset
    }
}

/// Offset of the read that follows a complete read of `length` bytes at
/// `offset`: the two overlap by one byte less than the pattern is long, so
/// that every offset is the start of a comparison exactly once.
pub open spec fn offset_after(offset: int, length: int, pattern_len: int) -> int {
    offset + length - pattern_len + 1
}

/// Inside a window of `length` bytes at offset `start`, the pattern matches
/// where it matches in the whole.
pub proof fn lemma_matches_in_window(
    data: Seq<u8>,
    pattern: Seq<PatternByte>,
    start: int,
    length: int,
    at: int,
)
    requires
        0 <= start,
        0 <= length,
        start + length <= data.len(),
        0 <= at,
        at + pattern.len() <= length,
    ensures
        matches_at(data.subrange(start, start + length), at, pattern) == matches_at(
            data,
            start + at,
            pattern,
        ),
{
    let part = data.subrange(start, start + length);
    if matches_at(data, start + at, pattern) {
        assert forall|j: int| 0 <= j < pattern.len() && (#[trigger] pattern[j]).exact implies part[at
            + j] == pattern[j].value by {
            assert(part[at + j] == data[start + at + j]);
        }
    }
    if matches_at(part, at, pattern) {
        assert forall|j: int| 0 <= j < pattern.len() && (#[trigger] pattern[j]).exact implies data[start
            + at + j] == pattern[j].value by {
            assert(part[at + j] == data[start + at + j]);
        }
    }
}

/// The matches below `start + count` are those below `start`, followed by
/// those found below `count` in a window that starts at `start`.
pub proof fn lemma_match_offsets_window(
    data: Seq<u8>,
    pattern: Seq<PatternByte>,
    start: int,
    length: int,
    count: int,
)
    requires
        0 <= start,
        pattern.len() <= length,
        start + length <= data.len(),
        0 <= count <= length - pattern.len() + 1,
    ensures
        match_offsets(data, pattern, start + count) == match_offsets(data, pattern, start)
            + addresses(
            start,
            match_offsets(data.subrange(start, start + length), pattern, count),
        ),
    decreases count,
{
    let part = data.subrange(start, start + length);
    if count == 0 {
        assert(match_offsets(data, pattern, start) + addresses(
            start,
            match_offsets(part, pattern, 0),
        ) =~= match_offsets(data, pattern, start));
    } else {
        lemma_match_offsets_window(data, pattern, start, length, count - 1);
        lemma_matches_in_window(data, pattern, start, length, count - 1);
        let head = match_offsets(data, pattern, start);
        let inner = match_offsets(part, pattern, count - 1);
        if matches_at(data, start + count - 1, pattern) {
            assert(head + addresses(start, inner.push(count - 1)) =~= (head + addresses(
                start,
                inner,
            )).push(start + count - 1));
        }
    }
}

/// Addresses of offsets that are themselves relative to an offset.
pub proof fn lemma_addresses_shift(base: int, start: int, head: Seq<int>, tail: Seq<int>)
    ensures
        addresses(base, head + addresses(start, tail)) == addresses(base, head) + addresses(
            base + start,
            tail,
        ),
{
    assert(addresses(base, head + addresses(start, tail)) =~= addresses(base, head) + addresses(
        base + start,
        tail,
    ));
}

/// The offsets that are found from `offset` on in a region with the bytes
/// `content` when it is read chunk by chunk: the matches in the chunk at
/// `offset`, then those found from the offset of the next chunk on.
pub open spec fn chunked_matches(
    content: Seq<u8>,
    pattern: Seq<PatternByte>,
    chunk_size: int,
    offset: int,
) -> Seq<int>
    decreases content.len() - offset,
{
    if pattern.len() == 0 || offset < 0 || offset + pattern.len() > content.len() {
        Seq::empty()
    } else {
        let length = chunk_length(
            content.len() as int,
            offset,
            chunk_size,
            pattern.len() as int,
        );
        addresses(offset, all_matches(content.subrange(offset, offset + length), pattern))
            + chunked_matches(
            content,
            pattern,
            chunk_size,
            offset_after(offset, length, pattern.len() as int),
        )
    }
}

/// No match is lost where two chunks meet. Reading a region chunk by chunk,
/// each chunk overlapping the one before by one byte less than the pattern
/// is long, finds every match in the region once, in ascending order,
/// whatever the chunk size: also the matches that lie across the end of a
/// chunk.
pub proof fn lemma_chunks_find_all_matches(
    content: Seq<u8>,
    pattern: Seq<PatternByte>,
    chunk_size: int,
)
    ensures
        chunked_matches(content, pattern, chunk_size, 0) == all_matches(content, pattern),
{
    if pattern.len() == 0 || pattern.len() > content.len() {
        lemma_no_match_without_room(content, pattern, content.len() - pattern.len() + 1);
    } else {
        lemma_chunks_from(content, pattern, chunk_size, 0);
        assert(match_offsets(content, pattern, 0) + chunked_matches(
            content,
            pattern,
            chunk_size,
            0,
        ) =~= chunked_matches(content, pattern, chunk_size, 0));
    }
}

/// The matches below the offset of a chunk, followed by what is found from
/// that chunk on, are all the matches of the region.
pub proof fn lemma_chunks_from(
    content: Seq<u8>,
    pattern: Seq<PatternByte>,
    chunk_size: int,
    offset: int,
)
    requires
        0 < pattern.len() <= content.len(),
        0 <= offset <= content.len() - pattern.len() + 1,
    ensures
        match_offsets(content, pattern, offset) + chunked_matches(
            content,
            pattern,
            chunk_size,
            offset,
        ) == all_matches(content, pattern),
    decreases content.len() - offset,
{
    let found = match_offsets(content, pattern, offset);
    if offset + pattern.len() > content.len() {
        assert(found + chunked_matches(content, pattern, chunk_size, offset) =~= found);
    } else {
        let length = chunk_length(
            content.len() as int,
            offset,
            chunk_size,
            pattern.len() as int,
        );
        let next = offset_after(offset, length, pattern.len() as int);
        let here = addresses(
            offset,
            all_matches(content.subrange(offset, offset + length), pattern),
        );
        lemma_match_offsets_window(content, pattern, offset, length, length - pattern.len() + 1);
        lemma_chunks_from(content, pattern, chunk_size, next);
        assert(found + (here + chunked_matches(content, pattern, chunk_size, next)) =~= (found
            + here) + chunked_matches(content, pattern, chunk_size, next));
    }
}

/// Searches a region whose bytes are at hand, reading it as the scanner reads
/// a process: in chunks of `chunk_size` bytes (or of the pattern's length, if
/// that is larger), each overlapping the one before by one byte less than the
/// pattern is long. The result holds the address of every match in the
/// region, in ascending order: no match is lost where two chunks meet.
pub fn scan_region(
    content: &[u8],
    base: usize,
    bytes: &[u8],
    masks: &[bool],
    chunk_size: usize,
) -> (matches: Vec<usize>)
    requires
        bytes@.len() == masks@.len(),
        base + content@.len() <= usize::MAX,
    ensures
        address_list(matches@) == addresses(
            base as int,
            all_matches(content@, zip_pattern(bytes@, masks@)),
        ),
{
    let ghost pattern = zip_pattern(bytes@, masks@);
    let mut matches: Vec<usize> = Vec::new();
    let size = content.len();
    let plen = bytes.len();
    if plen == 0 || size < plen {
        proof {
            lemma_no_match_without_room(content@, pattern, size - plen + 1);
            assert(address_list(matches@) =~= addresses(base as int, Seq::empty()));
        }
        return matches;
    }
    let reach: usize = if chunk_size >= plen {
        chunk_size
    } else {
        plen
    };
    let mut offset: usize = 0;
    assert(address_list(matches@) =~= addresses(base as int, match_offsets(content@, pattern, 0)));
    while offset <= size - plen
        invariant
            0 < plen <= size,
            size == content@.len(),
            plen == bytes@.len(),
            bytes@.len() == masks@.len(),
            base + size <= usize::MAX,
            pattern == zip_pattern(bytes@, masks@),
            reach == window(chunk_size as int, plen as int),
            offset <= size - plen + 1,
            address_list(matches@) == addresses(
                base as int,
                match_offsets(content@, pattern, offset as int),
            ),
        decreases size - plen + 1 - offset,
    {
        let length: usize = if reach <= size - offset {
            reach
        } else {
            size - offset
        };
        let chunk = slice_subrange(content, offset, offset + length);
        proof {
            lemma_match_offsets_window(
                content@,
                pattern,
                offset as int,
                length as int,
                length - plen + 1,
            );
            lemma_addresses_shift(
                base as int,
                offset as int,
                match_offsets(content@, pattern, offset as int),
                all_matches(chunk@, pattern),
            );
        }
        scan_chunk(chunk, base + offset, bytes, masks, &mut matches);
        offset = offset + length - plen + 1;
    }
    matches
}

/// Which regions a scan looks at.
#[derive(Debug, Clone, Copy)]
pub enum RegionFilter {
    /// Every region.
    Any,
    /// Regions of this type.
    Type(u32),
    /// Regions whose protection has one of these bits.
    Protection(u32),
}

impl RegionFilter {
    /// The region passes the filter.
    pub open spec fn admits(&self, region: MemoryRegion) -> bool {
        match *self {
            RegionFilter::Any => true,
            RegionFilter::Type(mr_type) => region.type_ == mr_type,
            RegionFilter::Protection(mr_protect) => region.protect & mr_protect != 0,
        }
    }

    /// Tests a region against the filter.
    pub fn accepts(&self, region: &MemoryRegion) -> (pass: bool)
        ensures
            pass == self.admits(*region),
    {
        match *self {
            RegionFilter::Any => true,
            RegionFilter::Type(mr_type) => region.type_ == mr_type,
            RegionFilter::Protection(mr_protect) => region.protect & mr_protect != 0,
        }
    }
}

/// The region is searched: it passes the filter, has room for the pattern and
/// ends inside the address space.
pub open spec fn searchable(region: MemoryRegion, filter: RegionFilter, pattern_len: int) -> bool {
    &&& filter.admits(region)
    &&& region.region_size >= pattern_len
    &&& region.fits()
}

/// Index of the first region at or after `from` that is searched, or the
/// number of regions if there is none.
pub open spec fn next_searchable(
    regions: Seq<MemoryRegion>,
    filter: RegionFilter,
    pattern_len: int,
    from: int,
) -> int
    decreases regions.len() - from,
{
    if from < 0 || from >= regions.len() {
        regions.len() as int
    } else if searchable(regions[from], filter, pattern_len) {
        from
    } else {
        next_searchable(regions, filter, pattern_len, from + 1)
    }
}

/// A scan of a process's memory in progress. The scan itself reads nothing:
/// it says what to read next, and is told what was read.
pub struct AobScan {
    /// Bytes of the pattern.
    pub bytes: Vec<u8>,
    /// Which bytes of the pattern are compared.
    pub masks: Vec<bool>,
    /// The regions of the process, as they were enumerated.
    pub regions: Vec<MemoryRegion>,
    /// Which of them are searched.
    pub filter: RegionFilter,
    /// Number of bytes to read at a time.
    pub chunk_size: usize,
    /// Index of the region that is being searched.
    pub index: usize,
    /// Offset in that region of the next read.
    pub offset: usize,
    /// Addresses of the matches found so far.
    pub matches: Vec<usize>,
}

impl AobScan {
    /// The pattern that is searched for.
    pub open spec fn pattern(&self) -> Seq<PatternByte> {
        zip_pattern(self.bytes@, self.masks@)
    }

    /// Every region has been dealt with.
    pub open spec fn finished(&self) -> bool {
        self.index >= self.regions@.len()
    }

    /// The scan is either finished or stands at an offset of a searched
    /// region where the pattern still has room.
    pub open spec fn wf(&self) -> bool {
        &&& self.bytes@.len() == self.masks@.len()
        &&& self.bytes@.len() > 0
        &&& self.index <= self.regions@.len()
        &&& !self.finished() ==> {
            &&& searchable(self.regions@[self.index as int], self.filter, self.bytes@.len() as int)
            &&& self.offset + self.bytes@.len() <= self.regions@[self.index as int].region_size
        }
    }

    /// The read that the scan waits for.
    pub open spec fn request(&self) -> ReadRequest {
        let region = self.regions@[self.index as int];
        ReadRequest {
            address: (region.base_address + self.offset) as usize,
            length: chunk_length(
                region.region_size as int,
                self.offset as int,
                self.chunk_size as int,
                self.bytes@.len() as int,
            ) as usize,
        }
    }

    /// The read brought all the bytes that were asked for.
    pub open spec fn complete(&self, data: Option<Seq<u8>>) -> bool {
        data is Some && data->0.len() == self.request().length
    }

    /// Offset in the current region at which the scan goes on after a read:
    /// past the comparisons made in a complete read, or one window further
    /// where the read failed or fell short.
    pub open spec fn offset_after_read(&self, data: Option<Seq<u8>>) -> int {
        if self.complete(data) {
            offset_after(
                self.offset as int,
                self.request().length as int,
                self.bytes@.len() as int,
            )
        } else {
            self.offset + window(self.chunk_size as int, self.bytes@.len() as int)
        }
    }

    /// Starts a scan for a pattern given as text. An empty pattern is
    /// refused; otherwise the scan stands at the first searched region.
    pub fn new(
        pattern: &str,
        regions: Vec<MemoryRegion>,
        filter: RegionFilter,
        chunk_size: usize,
    ) -> (scan: Result<AobScan, EngineError>)
        ensures
            parse_pattern(pattern@).len() == 0 <==> scan is Err,
            scan is Err ==> scan == Err::<AobScan, EngineError>(EngineError::InvalidPattern),
            scan is Ok ==> {
                let s = scan->Ok_0;
                &&& s.wf()
                &&& s.pattern() == parse_pattern(pattern@)
                &&& s.regions@ == regions@
                &&& s.filter == filter
                &&& s.chunk_size == chunk_size
                &&& s.index == next_searchable(regions@, filter, s.bytes@.len() as int, 0)
                &&& s.offset == 0
                &&& s.matches@.len() == 0
            },
    {
        let (bytes, masks) = pattern_to_bytes(pattern);
        AobScan::with_pattern(bytes, masks, regions, filter, chunk_size)
    }

    /// Starts a scan for a pattern that was parsed. A pattern without
    /// positions is refused.
    pub fn with_spec(
        pattern: PatternSpec,
        regions: Vec<MemoryRegion>,
        filter: RegionFilter,
        chunk_size: usize,
    ) -> (scan: Result<AobScan, EngineError>)
        ensures
            scan is Ok <==> pattern@.len() > 0,
            scan is Err ==> scan == Err::<AobScan, EngineError>(EngineError::InvalidPattern),
            scan is Ok ==> {
                let s = scan->Ok_0;
                &&& s.wf()
                &&& s.pattern() == pattern@
                &&& s.regions@ == regions@
                &&& s.filter == filter
                &&& s.chunk_size == chunk_size
                &&& s.index == next_searchable(regions@, filter, pattern@.len() as int, 0)
                &&& s.offset == 0
                &&& s.matches@.len() == 0
            },
    {
        let (bytes, masks) = pattern.into_parts();
        AobScan::with_pattern(bytes, masks, regions, filter, chunk_size)
    }

    /// Starts a scan for a pattern given as bytes and mask. A pattern without
    /// positions, or whose mask has another length than its bytes, is
    /// refused.
    pub fn with_pattern(
        bytes: Vec<u8>,
        masks: Vec<bool>,
        regions: Vec<MemoryRegion>,
        filter: RegionFilter,
        chunk_size: usize,
    ) -> (scan: Result<AobScan, EngineError>)
        ensures
            scan is Ok <==> bytes@.len() == masks@.len() && bytes@.len() > 0,
            scan is Err ==> scan == Err::<AobScan, EngineError>(EngineError::InvalidPattern),
            scan is Ok ==> {
                let s = scan->Ok_0;
                &&& s.wf()
                &&& s.bytes@ == bytes@
                &&& s.masks@ == masks@
                &&& s.regions@ == regions@
                &&& s.filter == filter
                &&& s.chunk_size == chunk_size
                &&& s.index == next_searchable(regions@, filter, bytes@.len() as int, 0)
                &&& s.offset == 0
                &&& s.matches@.len() == 0
            },
    {
        if bytes.len() == 0 || bytes.len() != masks.len() {
            return Err(EngineError::InvalidPattern);
        }
        let mut scan = AobScan {
            bytes,
            masks,
            regions,
            filter,
            chunk_size,
            index: 0,
            offset: 0,
            matches: Vec::new(),
        };
        scan.seek(0);
        Ok(scan)
    }

    /// Tests whether the region at `index` is searched.
    fn searches(&self, index: usize) -> (pass: bool)
        requires
            index < self.regions@.len(),
        ensures
            pass == searchable(self.regions@[index as int], self.filter, self.bytes@.len() as int),
    {
        let region = self.regions[index];
        self.filter.accepts(&region) && region.region_size >= self.bytes.len()
            && region.region_size <= usize::MAX - region.base_address
    }

    /// Moves to the first searched region at or after `from`.
    fn seek(&mut self, from: usize)
        requires
            old(self).bytes@.len() == old(self).masks@.len(),
            old(self).bytes@.len() > 0,
            from <= old(self).regions@.len(),
        ensures
            final(self).wf(),
            final(self).bytes == old(self).bytes,
            final(self).masks == old(self).masks,
            final(self).regions == old(self).regions,
            final(self).filter == old(self).filter,
            final(self).chunk_size == old(self).chunk_size,
            final(self).matches == old(self).matches,
            final(self).offset == 0,
            final(self).index == next_searchable(
                old(self).regions@,
                old(self).filter,
                old(self).bytes@.len() as int,
                from as int,
            ),
    {
        let mut i: usize = from;
        while i < self.regions.len() && !self.searches(i)
            invariant
                from <= i <= self.regions@.len(),
                *self == *old(self),
                next_searchable(self.regions@, self.filter, self.bytes@.len() as int, from as int)
                    == next_searchable(
                    self.regions@,
                    self.filter,
                    self.bytes@.len() as int,
                    i as int,
                ),
            decreases self.regions@.len() - i,
        {
            i = i + 1;
        }
        self.index = i;
        self.offset = 0;
    }

    /// What to read next, or `None` when the scan is over.
    pub fn next_read(&self) -> (request: Option<ReadRequest>)
        requires
            self.wf(),
        ensures
            self.finished() <==> request is None,
            request is Some ==> request->0 == self.request(),
            request is Some ==> self.bytes@.len() <= request->0.length,
            request is Some ==> request->0.address + request->0.length <= usize::MAX,
    {
        if self.index >= self.regions.len() {
            return None;
        }
        let region = self.regions[self.index];
        let reach: usize = if self.chunk_size >= self.bytes.len() {
            self.chunk_size
        } else {
            self.bytes.len()
        };
        let length: usize = if reach <= region.region_size - self.offset {
            reach
        } else {
            region.region_size - self.offset
        };
        Some(ReadRequest { address: region.base_address + self.offset, length })
    }

    /// Takes in the outcome of the read that `next_read` asked for: the bytes
    /// read, or `None` if the read failed. A read of another length than
    /// asked for counts as failed. The matches in a complete read are added
    /// to those found so far, and the scan moves on: inside the region while
    /// the pattern still has room there, else to the next searched region.
    pub fn on_read(&mut self, data: Option<&[u8]>)
        requires
            old(self).wf(),
            !old(self).finished(),
        ensures
            final(self).wf(),
            final(self).bytes == old(self).bytes,
            final(self).masks == old(self).masks,
            final(self).regions == old(self).regions,
            final(self).filter == old(self).filter,
            final(self).chunk_size == old(self).chunk_size,
            address_list(final(self).matches@) == address_list(old(self).matches@) + (if old(
                self,
            ).complete(data_view(data)) {
                addresses(
                    old(self).request().address as int,
                    all_matches(data->0@, old(self).pattern()),
                )
            } else {
                Seq::empty()
            }),
            ({
                let region = old(self).regions@[old(self).index as int];
                let next = old(self).offset_after_read(data_view(data));
                if next + old(self).bytes@.len() <= region.region_size {
                    final(self).index == old(self).index && final(self).offset == next
                } else {
                    final(self).index == next_searchable(
                        old(self).regions@,
                        old(self).filter,
                        old(self).bytes@.len() as int,
                        old(self).index + 1,
                    ) && final(self).offset == 0
                }
            }),
    {
        let count = self.regions.len();
        let region = self.regions[self.index];
        let plen = self.bytes.len();
        let reach: usize = if self.chunk_size >= plen {
            self.chunk_size
        } else {
            plen
        };
        let length: usize = if reach <= region.region_size - self.offset {
            reach
        } else {
            region.region_size - self.offset
        };
        let ghost before = address_list(self.matches@);
        let mut step: usize = reach;
        match data {
            Some(read) => {
                if read.len() == length {
                    scan_chunk(
                        read,
                        region.base_address + self.offset,
                        self.bytes.as_slice(),
                        self.masks.as_slice(),
                        &mut self.matches,
                    );
                    step = length - plen + 1;
                } else {
                    assert(address_list(self.matches@) + Seq::<int>::empty() =~= before);
                }
            },
            None => {
                assert(address_list(self.matches@) + Seq::<int>::empty() =~= before);
            },
        }
        if step <= region.region_size - plen - self.offset {
            self.offset = self.offset + step;
        } else {
            let from = self.index + 1;
            self.seek(from);
        }
    }

    /// Ends the scan. A scan that found nothing is an error, for the caller
    /// looked for something that should be there; otherwise the addresses
    /// of the matches are handed out in the order in which they were found.
    pub fn finish(self) -> (found: Result<Vec<usize>, EngineError>)
        ensures
            self.matches@.len() == 0 <==> found is Err,
            found is Err ==> found == Err::<Vec<usize>, EngineError>(EngineError::PatternNotFound),
            found is Ok ==> found->Ok_0@ == self.matches@,
    {
        if self.matches.len() == 0 {
            Err(EngineError::PatternNotFound)
        } else {
            Ok(self.matches)
        }
    }
}

/// The bytes of a read, if it brought any.
pub open spec fn data_view(data: Option<&[u8]>) -> Option<Seq<u8>> {
    match data {
        Some(read) => Some(read@),
        None => None,
    }
}

/// Starts a scan of every region.
pub fn aob_scan(pattern: &str, regions: Vec<MemoryRegion>) -> (scan: Result<AobScan, EngineError>)
    ensures
        parse_pattern(pattern@).len() == 0 <==> scan is Err,
        scan is Err ==> scan == Err::<AobScan, EngineError>(EngineError::InvalidPattern),
        scan is Ok ==> {
            let s = scan->Ok_0;
            &&& s.wf()
            &&& s.pattern() == parse_pattern(pattern@)
            &&& s.regions@ == regions@
            &&& s.filter == RegionFilter::Any
            &&& s.chunk_size == CHUNK_SIZE
            &&& s.index == next_searchable(regions@, s.filter, s.bytes@.len() as int, 0)
            &&& s.offset == 0
            &&& s.matches@.len() == 0
        },
{
    AobScan::new(pattern, regions, RegionFilter::Any, CHUNK_SIZE)
}

/// Starts a scan of the regions of one type.
pub fn aob_scan_mrtype(pattern: &str, regions: Vec<MemoryRegion>, mr_type: u32) -> (scan: Result<
    AobScan,
    EngineError,
>)
    ensures
        parse_pattern(pattern@).len() == 0 <==> scan is Err,
        scan is Err ==> scan == Err::<AobScan, EngineError>(EngineError::InvalidPattern),
        scan is Ok ==> {
            let s = scan->Ok_0;
            &&& s.wf()
            &&& s.pattern() == parse_pattern(pattern@)
            &&& s.regions@ == regions@
            &&& s.filter == RegionFilter::Type(mr_type)
            &&& s.chunk_size == CHUNK_SIZE
            &&& s.index == next_searchable(regions@, s.filter, s.bytes@.len() as int, 0)
            &&& s.offset == 0
            &&& s.matches@.len() == 0
        },
{
    AobScan::new(pattern, regions, RegionFilter::Type(mr_type), CHUNK_SIZE)
}

/// Starts a scan of the regions whose protection has one of the bits of
/// `mr_protect`.
pub fn aob_scan_mrprotect(pattern: &str, regions: Vec<MemoryRegion>, mr_protect: u32) -> (scan:
    Result<AobScan, EngineError>)
    ensures
        parse_pattern(pattern@).len() == 0 <==> scan is Err,
        scan is Err ==> scan == Err::<AobScan, EngineError>(EngineError::InvalidPattern),
        scan is Ok ==> {
            let s = scan->Ok_0;
            &&& s.wf()
            &&& s.pattern() == parse_pattern(pattern@)
            &&& s.regions@ == regions@
            &&& s.filter == RegionFilter::Protection(mr_protect)
            &&& s.chunk_size == CHUNK_SIZE
            &&& s.index == next_searchable(regions@, s.filter, s.bytes@.len() as int, 0)
            &&& s.offset == 0
            &&& s.matches@.len() == 0
        },
{
    AobScan::new(pattern, regions, RegionFilter::Protection(mr_protect), CHUNK_SIZE)
}

} // verus!
