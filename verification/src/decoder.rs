//! Reading machine code at a hook site.
//!
//! A hook overwrites the first bytes of the code at its address with a jump.
//! The instructions that the jump covers are moved elsewhere, so the bytes
//! taken must end where an instruction ends, and must not reach past a
//! conditional jump, whose meaning depends on where it stands. A return ends
//! the code that runs, so nothing more is taken behind one, unless the jump
//! would not fit otherwise.

use iced_x86::Decoder;
use iced_x86::DecoderOptions;
use iced_x86::FlowControl;
use vstd::prelude::*;

verus! {

/// Least number of bytes to take: the length of a near jump.
pub const MIN_STOLEN_BYTES: usize = 5;

/// Least number of instructions to take where nothing stops the decoding.
pub const MIN_STOLEN_INSTRUCTIONS: usize = 3;

/// Number of bytes read at a hook site before decoding.
pub const PROBE_LENGTH: usize = 32;

/// How an instruction passes control on, as far as taking it matters.
#[derive(Debug, Clone, Copy, PartialEq, Eq, Structural)]
pub enum FlowKind {
    /// A conditional jump.
    ConditionalBranch,
    /// A return.
    Return,
    /// Anything else.
    Other,
}

/// What is known of one decoded instruction.
#[derive(Debug, Clone, Copy, PartialEq, Eq, Structural)]
pub struct Decoded {
    /// Number of bytes that the instruction takes up.
    pub length: usize,
    /// How it passes control on.
    pub flow: FlowKind,
}

/// The instruction that the decoder finds in `code` at `position` when that
/// byte has the address `ip`.
pub uninterp spec fn decoded(code: Seq<u8>, position: int, ip: u64) -> Decoded;

/// Address of the byte that lies `offset` bytes after `ip`, wrapping round at
/// the end of the address space.
pub open spec fn ip_at(ip: u64, offset: int) -> u64 {
    ((ip + offset) % 0x1_0000_0000_0000_0000) as u64
}

/// Decodes one 64-bit instruction with `iced_x86::Decoder` (`with_ip`,
/// `set_position`, `decode`) and reports its length (`Instruction::len`) and
/// whether `Instruction::flow_control` calls it a conditional branch, a
/// return or something else. What is assumed of the decoder: its result is a
/// function of the bytes, the position and the address; and it reads no byte
/// past the end of `code`, so that the instruction ends inside `code`, with
/// length zero where no byte is left. (`with_ip` refuses only a bitness
/// other than 16, 32 and 64 and a slice that ends within a few bytes of the
/// end of the address space, where no slice lies.)
#[verifier::external_body]
fn decode_at(code: &[u8], position: usize, ip: u64) -> (instruction: Decoded)
    requires
        position <= code@.len(),
    ensures
        instruction == decoded(code@, position as int, ip),
        position + instruction.length <= code@.len(),
{
    let mut decoder = Decoder::with_ip(64, code, ip, DecoderOptions::NONE);
    let _ = decoder.set_position(position);
    let instruction = decoder.decode();
    let flow = match instruction.flow_control() {
        FlowControl::ConditionalBranch => FlowKind::ConditionalBranch,
        FlowControl::Return => FlowKind::Return,
        _ => FlowKind::Other,
    };
    Decoded { length: instruction.len(), flow }
}

/// The instructions that lie one after another in `code` from `position` on,
/// up to the first that takes no byte, where the byte at index 0 has the
/// address `ip`.
pub open spec fn instructions_from(code: Seq<u8>, ip: u64, position: int) -> Seq<Decoded>
    decreases code.len() - position,
{
    let first = decoded(code, position, ip_at(ip, position));
    if 0 <= position < code.len() && 0 < first.length <= code.len() - position {
        seq![first] + instructions_from(code, ip, position + first.length)
    } else {
        Seq::empty()
    }
}

/// Sum of the lengths of the first `count` instructions.
pub open spec fn total_length(instructions: Seq<Decoded>, count: int) -> int
    decreases count,
{
    if count <= 0 {
        0
    } else {
        total_length(instructions, count - 1) + instructions[count - 1].length
    }
}

/// Taking the instruction at `index` ends the decoding: it is a conditional
/// jump, or it is a return and at least `min_len` bytes are had with it. A
/// return that comes before `min_len` bytes are had does not end the
/// decoding, for the bytes taken must hold a jump.
pub open spec fn ends_decoding(instructions: Seq<Decoded>, min_len: int, index: int) -> bool {
    instructions[index].flow == FlowKind::ConditionalBranch || (instructions[index].flow
        == FlowKind::Return && total_length(instructions, index + 1) >= min_len)
}

/// Enough was taken with `count` instructions: at least `min_len` bytes and
/// `min_instructions` instructions.
pub open spec fn enough(
    instructions: Seq<Decoded>,
    min_len: int,
    min_instructions: int,
    count: int,
) -> bool {
    total_length(instructions, count) >= min_len && count >= min_instructions
}

/// Number of instructions to take, counting on from `count` instructions
/// already taken: none more once enough is had or the instructions have run
/// out; else the next one, and no further if that ends the decoding.
pub open spec fn stolen_count_from(
    instructions: Seq<Decoded>,
    min_len: int,
    min_instructions: int,
    count: int,
) -> int
    decreases instructions.len() - count,
{
    if count < 0 || count >= instructions.len() || enough(
        instructions,
        min_len,
        min_instructions,
        count,
    ) {
        count
    } else if ends_decoding(instructions, min_len, count) {
        count + 1
    } else {
        stolen_count_from(instructions, min_len, min_instructions, count + 1)
    }
}

/// Number of instructions to take at a hook site.
pub open spec fn stolen_count(instructions: Seq<Decoded>, min_len: int, min_instructions: int) -> int {
    stolen_count_from(instructions, min_len, min_instructions, 0)
}

/// Number of bytes to take at a hook site: the length of the instructions
/// taken.
pub open spec fn stolen_length(instructions: Seq<Decoded>, min_len: int, min_instructions: int) -> int {
    total_length(instructions, stolen_count(instructions, min_len, min_instructions))
}

/// The lengths of more instructions add up to no less.
pub proof fn lemma_total_length_grows(instructions: Seq<Decoded>, a: int, b: int)
    requires
        0 <= a <= b,
    ensures
        0 <= total_length(instructions, a) <= total_length(instructions, b),
    decreases b,
{
    if a < b {
        lemma_total_length_grows(instructions, a, b - 1);
    } else if a > 0 {
        lemma_total_length_grows(instructions, a - 1, a - 1);
    }
}

/// Where decoding stops. The instructions taken are a whole number of the
/// instructions at the hook site, so the bytes taken end where an
/// instruction ends. Decoding goes on only while too few bytes or too few
/// instructions are had, and never past an instruction that ends it: it
/// stops because the instructions ran out, or enough is had, or the
/// instruction taken last is a conditional jump, or a return with which
/// `min_len` bytes are had.
pub proof fn lemma_stolen_count_stops(
    instructions: Seq<Decoded>,
    min_len: int,
    min_instructions: int,
)
    ensures
        ({
            let count = stolen_count(instructions, min_len, min_instructions);
            &&& 0 <= count <= instructions.len()
            &&& stolen_length(instructions, min_len, min_instructions) == total_length(
                instructions,
                count,
            )
            &&& forall|i: int|
                0 <= i < count ==> !#[trigger] enough(instructions, min_len, min_instructions, i)
            &&& forall|i: int|
                0 <= i < count - 1 ==> !#[trigger] ends_decoding(instructions, min_len, i)
            &&& (count == instructions.len() || enough(
                instructions,
                min_len,
                min_instructions,
                count,
            ) || (count > 0 && ends_decoding(instructions, min_len, count - 1)))
        }),
{
    lemma_stolen_count_from_stops(instructions, min_len, min_instructions, 0);
}

/// Where decoding stops, counting on from `from` instructions.
pub proof fn lemma_stolen_count_from_stops(
    instructions: Seq<Decoded>,
    min_len: int,
    min_instructions: int,
    from: int,
)
    requires
        0 <= from <= instructions.len(),
    ensures
        ({
            let count = stolen_count_from(instructions, min_len, min_instructions, from);
            &&& from <= count <= instructions.len()
            &&& forall|i: int|
                from <= i < count ==> !#[trigger] enough(
                    instructions,
                    min_len,
                    min_instructions,
                    i,
                )
            &&& forall|i: int|
                from <= i < count - 1 ==> !#[trigger] ends_decoding(instructions, min_len, i)
            &&& (count == instructions.len() || enough(
                instructions,
                min_len,
                min_instructions,
                count,
            ) || (count > from && ends_decoding(instructions, min_len, count - 1)))
        }),
    decreases instructions.len() - from,
{
    if !(from >= instructions.len() || enough(instructions, min_len, min_instructions, from))
        && !ends_decoding(instructions, min_len, from) {
        lemma_stolen_count_from_stops(instructions, min_len, min_instructions, from + 1);
    }
}

/// Decoding comes as far as the instruction at `at`: no instruction before
/// it ends the decoding, and with none of the instructions before it enough
/// is had.
pub open spec fn reaches(
    instructions: Seq<Decoded>,
    min_len: int,
    min_instructions: int,
    at: int,
) -> bool {
    &&& 0 <= at < instructions.len()
    &&& forall|i: int| 0 <= i < at ==> !#[trigger] ends_decoding(instructions, min_len, i)
    &&& forall|i: int|
        0 <= i <= at ==> !#[trigger] enough(instructions, min_len, min_instructions, i)
}

/// Counting on from any instruction up to one that decoding reaches gives
/// what counting on from that one gives.
pub proof fn lemma_reaches(
    instructions: Seq<Decoded>,
    min_len: int,
    min_instructions: int,
    at: int,
    from: int,
)
    requires
        reaches(instructions, min_len, min_instructions, at),
        0 <= from <= at,
    ensures
        stolen_count_from(instructions, min_len, min_instructions, from) == stolen_count_from(
            instructions,
            min_len,
            min_instructions,
            at,
        ),
    decreases at - from,
{
    if from < at {
        assert(!enough(instructions, min_len, min_instructions, from));
        assert(!ends_decoding(instructions, min_len, from));
        lemma_reaches(instructions, min_len, min_instructions, at, from + 1);
    }
}

/// A conditional jump ends the decoding at once. If decoding comes as far as
/// a conditional jump, that is the last instruction taken, however few bytes
/// and instructions that makes.
pub proof fn lemma_conditional_jump_is_immediate(
    instructions: Seq<Decoded>,
    min_len: int,
    min_instructions: int,
    at: int,
)
    requires
        reaches(instructions, min_len, min_instructions, at),
        instructions[at].flow == FlowKind::ConditionalBranch,
    ensures
        stolen_count(instructions, min_len, min_instructions) == at + 1,
        stolen_length(instructions, min_len, min_instructions) == total_length(
            instructions,
            at + 1,
        ),
{
    lemma_reaches(instructions, min_len, min_instructions, at, 0);
    assert(!enough(instructions, min_len, min_instructions, at));
}

/// A return ends the decoding only once `min_len` bytes are had. If decoding
/// comes as far as a return, the return is taken; it is the last
/// instruction taken if `min_len` bytes are had with it; and if they are
/// not, and an instruction follows, decoding goes on past the return.
pub proof fn lemma_return_ends_once_enough_bytes(
    instructions: Seq<Decoded>,
    min_len: int,
    min_instructions: int,
    at: int,
)
    requires
        reaches(instructions, min_len, min_instructions, at),
        instructions[at].flow == FlowKind::Return,
    ensures
        stolen_count(instructions, min_len, min_instructions) >= at + 1,
        total_length(instructions, at + 1) >= min_len ==> stolen_count(
            instructions,
            min_len,
            min_instructions,
        ) == at + 1,
        total_length(instructions, at + 1) < min_len && at + 1 < instructions.len()
            ==> stolen_count(instructions, min_len, min_instructions) > at + 1,
{
    lemma_reaches(instructions, min_len, min_instructions, at, 0);
    assert(!enough(instructions, min_len, min_instructions, at));
    lemma_stolen_count_from_stops(instructions, min_len, min_instructions, at + 1);
    if total_length(instructions, at + 1) < min_len && at + 1 < instructions.len() {
        assert(!enough(instructions, min_len, min_instructions, at + 1));
    }
}

/// Decides how many of the decoded instructions to take, and how many bytes
/// they are.
pub fn steal_length(instructions: &[Decoded], min_len: usize, min_instructions: usize) -> (taken: (
    usize,
    usize,
))
    requires
        total_length(instructions@, instructions@.len() as int) <= usize::MAX,
    ensures
        taken.0 == stolen_count(instructions@, min_len as int, min_instructions as int),
        taken.1 == stolen_length(instructions@, min_len as int, min_instructions as int),
{
    let mut count: usize = 0;
    let mut length: usize = 0;
    while count < instructions.len() && (length < min_len || count < min_instructions)
        invariant
            count <= instructions@.len(),
            length == total_length(instructions@, count as int),
            total_length(instructions@, instructions@.len() as int) <= usize::MAX,
            stolen_count(instructions@, min_len as int, min_instructions as int)
                == stolen_count_from(
                instructions@,
                min_len as int,
                min_instructions as int,
                count as int,
            ),
        decreases instructions@.len() - count,
    {
        let instruction = instructions[count];
        proof {
            lemma_total_length_grows(instructions@, count + 1, instructions@.len() as int);
        }
        length = length + instruction.length;
        count = count + 1;
        if instruction.flow == FlowKind::ConditionalBranch || (instruction.flow == FlowKind::Return
            && length >= min_len) {
            return (count, length);
        }
    }
    (count, length)
}

/// Decodes the instructions of `code` one after another, where the first byte
/// has the address `ip`.
pub fn decode_all(code: &[u8], ip: u64) -> (instructions: Vec<Decoded>)
    ensures
        instructions@ == instructions_from(code@, ip, 0),
        total_length(instructions@, instructions@.len() as int) <= code@.len(),
{
    let mut instructions: Vec<Decoded> = Vec::new();
    let mut position: usize = 0;
    assert(instructions@ + instructions_from(code@, ip, 0) =~= instructions_from(code@, ip, 0));
    while position < code.len()
        invariant
            position <= code@.len(),
            position == total_length(instructions@, instructions@.len() as int),
            instructions_from(code@, ip, 0) == instructions@ + instructions_from(
                code@,
                ip,
                position as int,
            ),
        ensures
            position == total_length(instructions@, instructions@.len() as int),
            position <= code@.len(),
            instructions_from(code@, ip, 0) == instructions@,
        decreases code@.len() - position,
    {
        let at = ip.wrapping_add(position as u64);
        assert(at == ip_at(ip, position as int));
        let instruction = decode_at(code, position, at);
        if instruction.length == 0 {
            assert(instructions@ + Seq::<Decoded>::empty() =~= instructions@);
            break ;
        }
        let ghost before = instructions@;
        let ghost rest = instructions_from(code@, ip, position + instruction.length);
        instructions.push(instruction);
        proof {
            assert(before + (seq![instruction] + rest) =~= (before + seq![instruction]) + rest);
            lemma_total_length_prefix(before, instructions@, before.len() as int);
        }
        position = position + instruction.length;
    }
    proof {
        if position >= code@.len() {
            assert(instructions@ + Seq::<Decoded>::empty() =~= instructions@);
        }
    }
    instructions
}

/// The total length of a prefix does not depend on what follows it.
pub proof fn lemma_total_length_prefix(a: Seq<Decoded>, b: Seq<Decoded>, count: int)
    requires
        0 <= count <= a.len() <= b.len(),
        forall|i: int| 0 <= i < count ==> a[i] == b[i],
    ensures
        total_length(a, count) == total_length(b, count),
    decreases count,
{
    if count > 0 {
        lemma_total_length_prefix(a, b, count - 1);
    }
}

/// Number of bytes to take at a hook site whose code is `code` and whose
/// address is `ip`: whole instructions, at least `min_len` bytes and
/// `min_instructions` instructions of them unless the code runs out, or a
/// conditional jump comes first, or a return with which `min_len` bytes are
/// had; that instruction is then the last one taken.
pub fn decode_until(code: &[u8], ip: u64, min_len: usize, min_instructions: usize) -> (length: usize)
    ensures
        length == stolen_length(
            instructions_from(code@, ip, 0),
            min_len as int,
            min_instructions as int,
        ),
        length <= code@.len(),
{
    let available = code.len();
    let instructions = decode_all(code, ip);
    assert(total_length(instructions@, instructions@.len() as int) <= available);
    let taken = steal_length(instructions.as_slice(), min_len, min_instructions);
    proof {
        lemma_stolen_count_from_stops(instructions@, min_len as int, min_instructions as int, 0);
        lemma_total_length_grows(instructions@, taken.0 as int, instructions@.len() as int);
    }
    taken.1
}

} // verus!
