//! Trampoline hooks.
//!
//! A hook replaces the first instructions at an address with a jump into a
//! code cave: memory allocated near by that holds the injected code, then
//! the instructions that were replaced, then a jump back to what follows
//! them. Undoing the hook writes the replaced bytes back and frees the cave.

use crate::bytes::copy_bytes;
use crate::decoder::decode_until;
use crate::decoder::instructions_from;
use crate::decoder::stolen_length;
use crate::decoder::MIN_STOLEN_BYTES;
use crate::decoder::MIN_STOLEN_INSTRUCTIONS;
use crate::decoder::PROBE_LENGTH;
use crate::error::EngineError;
use crate::memory::holds_at;
use crate::memory::write_all;
use crate::memory::write_to;
use crate::memory::writes_view;
use crate::memory::AllocRegion;
use crate::memory::Memory;
use crate::memory::MemoryWrite;
use crate::memory::ReadRequest;
use iced_x86::code_asm::CodeAssembler;
use vstd::prelude::*;
use vstd::slice::slice_subrange;

verus! {

/// The instruction that does nothing, in one byte.
pub const NOP: u8 = 0x90;

/// Room in a code cave beyond the stolen bytes and the jump back.
pub const CAVE_PAYLOAD_ROOM: usize = 1024;

/// `iced_x86::code_asm::CodeAssembler`, in which a caller gathers the
/// instructions of a payload. Nothing is known of what one holds.
#[verifier::external_type_specification]
#[verifier::external_body]
pub struct ExCodeAssembler(CodeAssembler);

/// The machine code of a jump that stands at address `from` and goes to `to`,
/// if there is one.
pub uninterp spec fn jump_code(from: u64, to: u64) -> Option<Seq<u8>>;

/// Assembles a 64-bit jump to `to` for the address `from`, with a fresh
/// `iced_x86::code_asm::CodeAssembler` (`new`, `jmp`, `assemble`). What is
/// assumed: whether there is a result, and which, is a function of the two
/// addresses. Nothing is assumed of its length, which depends on how far
/// the jump goes.
#[verifier::external_body]
fn assemble_jump(from: u64, to: u64) -> (code: Option<Vec<u8>>)
    ensures
        code is Some <==> jump_code(from, to) is Some,
        code is Some ==> code->0@ == jump_code(from, to)->0,
{
    let mut assembler = CodeAssembler::new(64).ok()?;
    assembler.jmp(to).ok()?;
    assembler.assemble(from).ok()
}

/// The machine code of the instructions gathered in an assembler when they
/// are assembled for the address `ip`, if they can be.
pub uninterp spec fn payload_code(code: CodeAssembler, ip: u64) -> Option<Seq<u8>>;

/// Assembles the instructions gathered in `code` for the address `ip`, with
/// `iced_x86::code_asm::CodeAssembler::assemble`. What is assumed: whether
/// there is a result, and which, is a function of what the assembler holds
/// and of the address; `assemble` reads the assembler's instructions and
/// labels and keeps nothing from one call to the next.
#[verifier::external_body]
fn assemble_payload(code: &mut CodeAssembler, ip: u64) -> (bytes: Option<Vec<u8>>)
    ensures
        bytes is Some <==> payload_code(*old(code), ip) is Some,
        bytes is Some ==> bytes->0@ == payload_code(*old(code), ip)->0,
{
    code.assemble(ip).ok()
}

/// Whether a hook is in place.
#[derive(Debug, Clone, Copy, PartialEq, Eq, Structural)]
pub enum InjectionState {
    /// The hook site jumps into the cave.
    Active,
    /// The hook was taken out to be undone.
    Removed,
}

/// What is kept of a hook in order to undo it.
#[derive(Debug, Clone)]
pub struct InjectionRecord {
    /// Address of the hook site.
    pub hook_address: usize,
    /// Number of bytes replaced at the hook site.
    pub stolen_byte_count: usize,
    /// The bytes that stood there.
    pub original_bytes: Vec<u8>,
    /// Address of the code cave.
    pub code_cave_address: usize,
    /// Size of the code cave.
    pub code_cave_size: usize,
    /// Whether the hook is in place.
    pub state: InjectionState,
}

/// What undoing a hook takes: one write, then one release.
#[derive(Debug, Clone)]
pub struct UndoPlan {
    /// Puts the original bytes back at the hook site.
    pub restore: MemoryWrite,
    /// The code cave to free afterwards.
    pub release: AllocRegion,
}

impl InjectionRecord {
    /// The record holds every stolen byte, at least enough of them for a
    /// near jump, and both the hook site and the cave end inside the address
    /// space.
    pub open spec fn wf(&self) -> bool {
        &&& self.stolen_byte_count == self.original_bytes@.len()
        &&& self.stolen_byte_count >= MIN_STOLEN_BYTES
        &&& self.hook_address + self.stolen_byte_count <= usize::MAX
        &&& self.code_cave_address + self.code_cave_size <= usize::MAX
    }

    /// The code cave of the hook.
    pub open spec fn cave(&self) -> AllocRegion {
        AllocRegion { base_address: self.code_cave_address, region_size: self.code_cave_size }
    }

    /// What to do to undo the hook: write the original bytes back to the hook
    /// site, then free the cave. The record does not remember whether this
    /// was done; whoever owns it sees to it that it is done once.
    pub fn undo(&self) -> (plan: UndoPlan)
        ensures
            plan.restore.address == self.hook_address,
            plan.restore.data@ == self.original_bytes@,
            plan.release == self.cave(),
    {
        UndoPlan {
            restore: MemoryWrite { address: self.hook_address, data: copy_bytes(&self.original_bytes) },
            release: AllocRegion {
                base_address: self.code_cave_address,
                region_size: self.code_cave_size,
            },
        }
    }
}

/// What is written over the stolen bytes: the jump into the cave, then
/// no-ops up to the end of the last stolen instruction.
pub open spec fn hook_patch(jump_in: Seq<u8>, stolen: int) -> Seq<u8> {
    jump_in + Seq::new((stolen - jump_in.len()) as nat, |i: int| NOP)
}

/// The hook site can take the jump: enough bytes were stolen for a near
/// jump and for the jump that was assembled, and they end inside the address
/// space.
pub open spec fn hook_fits(
    hook_address: int,
    original: Seq<u8>,
    jump_in: Seq<u8>,
) -> bool {
    &&& original.len() >= MIN_STOLEN_BYTES
    &&& jump_in.len() <= original.len()
    &&& hook_address + original.len() <= usize::MAX
}

/// The cave has room for the payload, the stolen bytes and the jump back,
/// and ends inside the address space.
pub open spec fn cave_fits(
    cave: AllocRegion,
    payload: Seq<u8>,
    original: Seq<u8>,
    jump_back: Seq<u8>,
) -> bool {
    &&& cave.fits()
    &&& payload.len() + original.len() + jump_back.len() <= cave.region_size
}

/// The writes that install a hook, in the order in which they are made:
/// payload, stolen bytes and jump back into the cave, and last of all the
/// jump at the hook site.
pub open spec fn planned_writes(
    hook_address: int,
    original: Seq<u8>,
    cave: AllocRegion,
    payload: Seq<u8>,
    jump_back: Seq<u8>,
    jump_in: Seq<u8>,
) -> Seq<(int, Seq<u8>)> {
    seq![
        (cave.base_address as int, payload),
        (cave.base_address + payload.len(), original),
        (cave.base_address + payload.len() + original.len(), jump_back),
        (hook_address, hook_patch(jump_in, original.len() as int)),
    ]
}

/// A hook that is laid out but not yet written.
#[derive(Debug, Clone)]
pub struct InjectionPlan {
    /// The record to keep once the writes are made.
    pub record: InjectionRecord,
    /// The writes to make, in order. If one fails, the cave is freed and the
    /// hook site is as it was: it is written last.
    pub writes: Vec<MemoryWrite>,
}

/// Lays out a hook from its parts: the bytes stolen at the hook site, the
/// cave, the payload assembled for the cave's address, the jump back
/// assembled for its place behind the stolen bytes, and the jump into the
/// cave assembled for the hook site.
pub fn plan_injection(
    hook_address: usize,
    original: Vec<u8>,
    cave: AllocRegion,
    payload: Vec<u8>,
    jump_back: Vec<u8>,
    jump_in: Vec<u8>,
) -> (plan: Result<InjectionPlan, EngineError>)
    ensures
        plan is Ok <==> hook_fits(hook_address as int, original@, jump_in@) && cave_fits(
            cave,
            payload@,
            original@,
            jump_back@,
        ),
        !hook_fits(hook_address as int, original@, jump_in@) ==> plan == Err::<
            InjectionPlan,
            EngineError,
        >(EngineError::HookSite),
        hook_fits(hook_address as int, original@, jump_in@) && !cave_fits(
            cave,
            payload@,
            original@,
            jump_back@,
        ) ==> plan == Err::<InjectionPlan, EngineError>(EngineError::AllocationFailure),
        plan is Ok ==> {
            let p = plan->Ok_0;
            &&& p.record.wf()
            &&& p.record.hook_address == hook_address
            &&& p.record.stolen_byte_count == original@.len()
            &&& p.record.original_bytes@ == original@
            &&& p.record.cave() == cave
            &&& p.record.state == InjectionState::Active
            &&& writes_view(p.writes@) == planned_writes(
                hook_address as int,
                original@,
                cave,
                payload@,
                jump_back@,
                jump_in@,
            )
        },
{
    let stolen = original.len();
    if stolen < MIN_STOLEN_BYTES || jump_in.len() > stolen || stolen > usize::MAX - hook_address {
        return Err(EngineError::HookSite);
    }
    if cave.region_size > usize::MAX - cave.base_address || payload.len() > cave.region_size
        || stolen > cave.region_size - payload.len() || jump_back.len() > cave.region_size
        - payload.len() - stolen {
        return Err(EngineError::AllocationFailure);
    }
    let mut patch = jump_in;
    let ghost jump = patch@;
    while patch.len() < stolen
        invariant
            jump.len() <= patch@.len() <= stolen,
            patch@ == jump + Seq::new((patch@.len() - jump.len()) as nat, |i: int| NOP),
        decreases stolen - patch@.len(),
    {
        let ghost before = patch@;
        patch.push(NOP);
        assert(patch@ =~= jump + Seq::new((patch@.len() - jump.len()) as nat, |i: int| NOP));
    }
    let stolen_at = cave.base_address + payload.len();
    let back_at = stolen_at + stolen;
    let kept = copy_bytes(original.as_slice());
    let mut writes: Vec<MemoryWrite> = Vec::new();
    writes.push(MemoryWrite { address: cave.base_address, data: payload });
    writes.push(MemoryWrite { address: stolen_at, data: original });
    writes.push(MemoryWrite { address: back_at, data: jump_back });
    writes.push(MemoryWrite { address: hook_address, data: patch });
    let record = InjectionRecord {
        hook_address,
        stolen_byte_count: stolen,
        original_bytes: kept,
        code_cave_address: cave.base_address,
        code_cave_size: cave.region_size,
        state: InjectionState::Active,
    };
    assert(writes_view(writes@) =~= planned_writes(
        hook_address as int,
        original@,
        cave,
        payload@,
        jump_back@,
        jump,
    ));
    Ok(InjectionPlan { record, writes })
}

/// The first step of installing a hook: the hook site has been read and the
/// bytes to steal are chosen. Nothing has been written yet.
#[derive(Debug, Clone)]
pub struct TrampolineInjector {
    /// Address of the hook site.
    pub hook_address: usize,
    /// The bytes to steal there.
    pub original_bytes: Vec<u8>,
}

/// Number of bytes to steal from the code read at a hook site.
pub open spec fn stolen_at(probe: Seq<u8>, hook_address: usize) -> int {
    stolen_length(
        instructions_from(probe, hook_address as u64, 0),
        MIN_STOLEN_BYTES as int,
        MIN_STOLEN_INSTRUCTIONS as int,
    )
}

impl TrampolineInjector {
    /// Enough bytes were stolen for a near jump, and they end inside the
    /// address space.
    pub open spec fn wf(&self) -> bool {
        &&& self.original_bytes@.len() >= MIN_STOLEN_BYTES
        &&& self.hook_address + self.original_bytes@.len() <= usize::MAX
    }

    /// The jump back from the cave: it stands behind the payload and the
    /// stolen bytes, and goes to the instruction behind the stolen bytes.
    pub open spec fn jump_back(&self, cave: AllocRegion, payload: Seq<u8>) -> Option<Seq<u8>> {
        jump_code(
            (cave.base_address + payload.len() + self.original_bytes@.len()) as u64,
            (self.hook_address + self.original_bytes@.len()) as u64,
        )
    }

    /// The hook can be laid out in the cave with the payload that the
    /// assembler holds: the cave ends inside the address space, the payload
    /// and both jumps can be assembled, and everything fits.
    pub open spec fn installable(&self, cave: AllocRegion, code: CodeAssembler) -> bool {
        let into = jump_code(self.hook_address as u64, cave.base_address as u64);
        let payload = payload_code(code, cave.base_address as u64);
        &&& cave.fits()
        &&& into is Some
        &&& payload is Some
        &&& payload->0.len() + self.original_bytes@.len() <= cave.region_size
        &&& self.jump_back(cave, payload->0) is Some
        &&& hook_fits(self.hook_address as int, self.original_bytes@, into->0)
        &&& cave_fits(cave, payload->0, self.original_bytes@, self.jump_back(cave, payload->0)->0)
    }

    /// The read to make at a hook site before anything else.
    pub fn probe(hook_address: usize) -> (request: ReadRequest)
        ensures
            request == (ReadRequest { address: hook_address, length: PROBE_LENGTH }),
    {
        ReadRequest { address: hook_address, length: PROBE_LENGTH }
    }

    /// Chooses the bytes to steal from the code that was read at the hook
    /// site, and keeps them. The site cannot be hooked if the whole
    /// instructions that may be taken are shorter than a near jump.
    pub fn new(hook_address: usize, probe: &[u8]) -> (injector: Result<
        TrampolineInjector,
        EngineError,
    >)
        ensures
            injector is Ok <==> stolen_at(probe@, hook_address) >= MIN_STOLEN_BYTES && hook_address
                + stolen_at(probe@, hook_address) <= usize::MAX,
            injector is Err ==> injector == Err::<TrampolineInjector, EngineError>(
                EngineError::HookSite,
            ),
            injector is Ok ==> {
                let i = injector->Ok_0;
                &&& i.wf()
                &&& i.hook_address == hook_address
                &&& i.original_bytes@ == probe@.take(stolen_at(probe@, hook_address))
            },
    {
        let stolen = decode_until(
            probe,
            hook_address as u64,
            MIN_STOLEN_BYTES,
            MIN_STOLEN_INSTRUCTIONS,
        );
        if stolen < MIN_STOLEN_BYTES || stolen > usize::MAX - hook_address {
            return Err(EngineError::HookSite);
        }
        let original_bytes = copy_bytes(slice_subrange(probe, 0, stolen));
        assert(probe@.subrange(0, stolen as int) =~= probe@.take(stolen as int));
        Ok(TrampolineInjector { hook_address, original_bytes })
    }

    /// Size of the code cave to ask for, near the hook site: room for the
    /// payload, the stolen bytes and the jump back.
    pub fn cave_size(&self) -> (size: usize)
        ensures
            size == if CAVE_PAYLOAD_ROOM + self.original_bytes@.len() + MIN_STOLEN_BYTES
                <= usize::MAX {
                CAVE_PAYLOAD_ROOM + self.original_bytes@.len() + MIN_STOLEN_BYTES
            } else {
                usize::MAX as int
            },
    {
        CAVE_PAYLOAD_ROOM.saturating_add(self.original_bytes.len()).saturating_add(
            MIN_STOLEN_BYTES,
        )
    }

    /// The second step: the cave is allocated, and the hook is laid out in
    /// it. The payload is assembled for the cave's address, the jump back
    /// for its place behind the stolen bytes, the jump into the cave for the
    /// hook site. A plan comes back exactly if the cave ends inside the
    /// address space, the payload and both jumps can be assembled, the jump
    /// into the cave is no longer than the stolen bytes, and the cave has
    /// room for payload, stolen bytes and jump back; it is then the layout
    /// of the hook from these parts. A cave that ends outside the address
    /// space is an allocation failure; a jump into the cave that cannot be
    /// assembled is an assembly failure.
    pub fn install(self, cave: AllocRegion, code: &mut CodeAssembler) -> (plan: Result<
        InjectionPlan,
        EngineError,
    >)
        requires
            self.wf(),
        ensures
            !cave.fits() ==> plan == Err::<InjectionPlan, EngineError>(
                EngineError::AllocationFailure,
            ),
            cave.fits() && jump_code(self.hook_address as u64, cave.base_address as u64) is None
                ==> plan == Err::<InjectionPlan, EngineError>(EngineError::Assemble),
            plan is Ok <==> self.installable(cave, *old(code)),
            plan is Ok ==> {
                let p = plan->Ok_0;
                let payload = payload_code(*old(code), cave.base_address as u64)->0;
                let back = self.jump_back(cave, payload);
                let into = jump_code(self.hook_address as u64, cave.base_address as u64);
                &&& p.record.wf()
                &&& p.record.hook_address == self.hook_address
                &&& p.record.stolen_byte_count == self.original_bytes@.len()
                &&& p.record.original_bytes@ == self.original_bytes@
                &&& p.record.cave() == cave
                &&& p.record.state == InjectionState::Active
                &&& writes_view(p.writes@) == planned_writes(
                    self.hook_address as int,
                    self.original_bytes@,
                    cave,
                    payload,
                    back->0,
                    into->0,
                )
            },
    {
        let stolen = self.original_bytes.len();
        let base = cave.base_address;
        if cave.region_size > usize::MAX - base {
            return Err(EngineError::AllocationFailure);
        }
        let jump_in = match assemble_jump(self.hook_address as u64, base as u64) {
            Some(bytes) => bytes,
            None => {
                return Err(EngineError::Assemble);
            },
        };
        let payload = match assemble_payload(code, base as u64) {
            Some(bytes) => bytes,
            None => {
                return Err(EngineError::Assemble);
            },
        };
        if payload.len() > cave.region_size || stolen > cave.region_size - payload.len() {
            return Err(EngineError::AllocationFailure);
        }
        let back_at = base + payload.len() + stolen;
        let resume = self.hook_address + stolen;
        let jump_back = match assemble_jump(back_at as u64, resume as u64) {
            Some(bytes) => bytes,
            None => {
                return Err(EngineError::Assemble);
            },
        };
        let ghost parts = (payload@, jump_back@, jump_in@);
        let plan = plan_injection(
            self.hook_address,
            self.original_bytes,
            cave,
            payload,
            jump_back,
            jump_in,
        );
        proof {
            if plan is Ok {
                let writes = plan->Ok_0.writes@;
                let viewed = writes_view(writes);
                assert(viewed.len() == 4);
                assert(viewed[0] == (writes[0].address as int, writes[0].data@));
                assert(writes[0].data@ == parts.0);
            }
        }
        plan
    }
}

/// Installing a hook and undoing it leaves memory as it was. Let the stolen
/// bytes be those that memory held at the hook site, and let the hook fit.
/// After the planned writes the hook site holds the jump and its padding;
/// after the undo's write it holds the stolen bytes again, and every byte
/// outside the code cave is what it was before the hook. (The cave itself
/// is freed by the undo.)
pub proof fn lemma_apply_then_undo_restores(
    memory: Memory,
    hook_address: int,
    original: Seq<u8>,
    cave: AllocRegion,
    payload: Seq<u8>,
    jump_back: Seq<u8>,
    jump_in: Seq<u8>,
)
    requires
        hook_fits(hook_address, original, jump_in),
        cave_fits(cave, payload, original, jump_back),
        holds_at(memory, hook_address, original),
    ensures
        ({
            let writes = planned_writes(hook_address, original, cave, payload, jump_back, jump_in);
            let hooked = write_all(memory, writes, 4);
            let undone = write_to(hooked, hook_address, original);
            &&& holds_at(hooked, hook_address, hook_patch(jump_in, original.len() as int))
            &&& forall|a: int|
                !cave.holds(a) && !(hook_address <= a < hook_address + original.len())
                    ==> #[trigger] hooked[a] == memory[a]
            &&& holds_at(undone, hook_address, original)
            &&& forall|a: int| !cave.holds(a) ==> #[trigger] undone[a] == memory[a]
        }),
{
    let writes = planned_writes(hook_address, original, cave, payload, jump_back, jump_in);
    let patch = hook_patch(jump_in, original.len() as int);
    let m0 = memory;
    let m1 = write_to(m0, writes[0].0, writes[0].1);
    let m2 = write_to(m1, writes[1].0, writes[1].1);
    let m3 = write_to(m2, writes[2].0, writes[2].1);
    let m4 = write_to(m3, writes[3].0, writes[3].1);
    assert(write_all(memory, writes, 0) == m0);
    assert(write_all(memory, writes, 1) == m1);
    assert(write_all(memory, writes, 2) == m2);
    assert(write_all(memory, writes, 3) == m3);
    assert(write_all(memory, writes, 4) == m4);
    let undone = write_to(m4, hook_address, original);
    assert(patch.len() == original.len());
    assert forall|i: int| 0 <= i < patch.len() implies m4[hook_address + i] == #[trigger] patch[i] by {}
    assert forall|a: int| !cave.holds(a) implies #[trigger] undone[a] == memory[a] by {
        assert(m3[a] == memory[a]);
        if hook_address <= a < hook_address + original.len() {
            assert(undone[a] == original[a - hook_address]);
            assert(memory[hook_address + (a - hook_address)] == original[a - hook_address]);
        }
    }
    assert forall|i: int| 0 <= i < original.len() implies undone[hook_address + i]
        == #[trigger] original[i] by {}
}

} // verus!
