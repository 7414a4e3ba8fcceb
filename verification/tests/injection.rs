use iced_x86::code_asm::{dl, CodeAssembler};
use nas::decoder::{
    decode_all, decode_until, steal_length, Decoded, FlowKind, MIN_STOLEN_BYTES,
    MIN_STOLEN_INSTRUCTIONS, PROBE_LENGTH,
};
use nas::error::EngineError;
use nas::injection::{plan_injection, InjectionState, TrampolineInjector, NOP};
use nas::memory::{AllocRegion, MemoryWrite, ReadRequest};
use std::collections::HashMap;

const PROLOGUE: [u8; 12] = [
    0x55, // push rbp
    0x48, 0x89, 0xE5, // mov rbp, rsp
    0x48, 0x83, 0xEC, 0x20, // sub rsp, 0x20
    0x90, 0x90, 0x90, 0x90,
];

fn other(length: usize) -> Decoded {
    Decoded { length, flow: FlowKind::Other }
}

#[test]
fn decoder_splits_code_into_instructions() {
    let decoded = decode_all(&PROLOGUE, 0x1400_0000);
    assert_eq!(decoded.iter().map(|d| d.length).collect::<Vec<_>>(), vec![1, 3, 4, 1, 1, 1, 1]);
    assert!(decoded.iter().all(|d| d.flow == FlowKind::Other));
    assert!(decode_all(&[], 0).is_empty());
    // jz +5; ret; jne near
    let flows = decode_all(&[0x74, 0x05, 0xC3, 0x0F, 0x85, 0, 0, 0, 0], 0x1000);
    assert_eq!(
        flows,
        vec![
            Decoded { length: 2, flow: FlowKind::ConditionalBranch },
            Decoded { length: 1, flow: FlowKind::Return },
            Decoded { length: 6, flow: FlowKind::ConditionalBranch },
        ]
    );
    // a truncated instruction is taken as it stands
    let cut = decode_all(&[0x90, 0x48, 0xB8, 0x01], 0x1000);
    assert_eq!(cut.iter().map(|d| d.length).sum::<usize>(), 4);
    assert_eq!(cut[0], other(1));
}

#[test]
fn decode_until_takes_whole_instructions() {
    assert_eq!(decode_until(&PROLOGUE, 0x1400_0000, 5, 3), 8);
    assert_eq!(decode_until(&PROLOGUE, 0x1400_0000, 9, 3), 9);
    assert_eq!(decode_until(&PROLOGUE, 0x1400_0000, 5, 1), 8);
    assert_eq!(decode_until(&PROLOGUE, 0x1400_0000, 1, 1), 1);
    assert_eq!(decode_until(&PROLOGUE, 0x1400_0000, 0, 0), 0);
    assert_eq!(decode_until(&PROLOGUE, 0x1400_0000, 100, 3), 12);
    // mov rax, imm64 is ten bytes, but three instructions are wanted
    let long = [0x48, 0xB8, 1, 2, 3, 4, 5, 6, 7, 8, 0x90, 0x90, 0x90];
    assert_eq!(decode_until(&long, 0, 5, 3), 12);
}

#[test]
fn decode_until_stops_at_conditional_jump_and_return() {
    // jz short as the first instruction
    assert_eq!(decode_until(&[0x74, 0x05, 0x90, 0x90, 0x90, 0x90], 0, 5, 3), 2);
    // jne near as the first instruction
    assert_eq!(decode_until(&[0x0F, 0x85, 1, 0, 0, 0, 0x90, 0x90], 0, 5, 3), 6);
    // mov rax, rcx; ret; nop: the return comes at four bytes, one more is taken
    assert_eq!(decode_until(&[0x48, 0x89, 0xC8, 0xC3, 0x90, 0x90, 0x90], 0, 5, 3), 5);
    // ret; mov rax, imm64: the return comes at one byte, decoding goes on
    assert_eq!(decode_until(&[0xC3, 0x48, 0xB8, 1, 2, 3, 4, 5, 6, 7, 8, 0x90, 0x90], 0, 5, 3), 12);
    // mov rax, rcx; ret at the end of the code
    assert_eq!(decode_until(&[0x48, 0x89, 0xC8, 0xC3], 0, 5, 3), 4);
    // mov rax, rcx; nop; nop; ret: the return is the last instruction taken
    assert_eq!(decode_until(&[0x48, 0x89, 0xC8, 0x90, 0xC3, 0x90, 0x90], 0, 5, 9), 5);
    assert_eq!(decode_until(&[0x48, 0x89, 0xC8, 0x90, 0x90, 0xC3, 0x90], 0, 5, 9), 6);
    // push rbp; mov rbp, rsp; nop; ret: enough was had before the return
    assert_eq!(decode_until(&[0x55, 0x48, 0x89, 0xE5, 0x90, 0xC3, 0x90], 0, 5, 3), 5);
    // nop; nop; nop; nop; ret; nop
    assert_eq!(decode_until(&[0x90, 0x90, 0x90, 0x90, 0xC3, 0x90], 0, 5, 3), 5);
}

#[test]
fn steal_length_on_given_instructions() {
    let jcc = Decoded { length: 2, flow: FlowKind::ConditionalBranch };
    let ret = Decoded { length: 1, flow: FlowKind::Return };
    assert_eq!(steal_length(&[], 5, 3), (0, 0));
    assert_eq!(steal_length(&[other(1), other(3), other(4), other(1)], 5, 3), (3, 8));
    assert_eq!(steal_length(&[other(7), other(1)], 5, 3), (2, 8));
    assert_eq!(steal_length(&[other(1), other(1), other(1), other(1), other(1), other(1)], 5, 3), (5, 5));
    assert_eq!(steal_length(&[jcc, other(4)], 5, 3), (1, 2));
    assert_eq!(steal_length(&[other(3), ret, other(4)], 5, 3), (3, 8));
    assert_eq!(steal_length(&[other(3), ret, other(1), other(1)], 5, 3), (3, 5));
    assert_eq!(steal_length(&[other(3), ret], 5, 3), (2, 4));
    assert_eq!(steal_length(&[other(4), ret, other(4)], 5, 3), (2, 5));
    assert_eq!(steal_length(&[ret, ret, ret, ret, ret, ret], 5, 9), (5, 5));
    assert_eq!(steal_length(&[other(3), jcc, other(4)], 5, 3), (2, 5));
    assert_eq!(steal_length(&[other(1), jcc, other(4)], 5, 3), (2, 3));
    assert_eq!(steal_length(&[other(3), other(2), other(1), ret], 5, 3), (3, 6));
    assert_eq!(steal_length(&[other(3), other(2), ret], 5, 3), (3, 6));
    assert_eq!(steal_length(&[other(10), jcc], 5, 3), (2, 12));
    assert_eq!(steal_length(&[other(2)], 0, 0), (0, 0));
    assert_eq!(MIN_STOLEN_BYTES, 5);
    assert_eq!(MIN_STOLEN_INSTRUCTIONS, 3);
}

#[test]
fn injector_refuses_a_site_that_is_too_short() {
    assert_eq!(
        TrampolineInjector::probe(0x1400_1000),
        ReadRequest { address: 0x1400_1000, length: PROBE_LENGTH }
    );
    assert!(matches!(
        TrampolineInjector::new(0x1000, &[0x74, 0x05, 0x90, 0x90, 0x90, 0x90]),
        Err(EngineError::HookSite)
    ));
    assert!(matches!(
        TrampolineInjector::new(0x1000, &[0x48, 0x89, 0xC8, 0xC3]),
        Err(EngineError::HookSite)
    ));
    let mut site = vec![0x48, 0x89, 0xC8, 0xC3];
    site.resize(32, 0x90);
    let behind_return = TrampolineInjector::new(0x1000, &site).unwrap();
    assert_eq!(behind_return.original_bytes, vec![0x48, 0x89, 0xC8, 0xC3, 0x90]);
    assert!(matches!(TrampolineInjector::new(0x1000, &[0x90, 0x90]), Err(EngineError::HookSite)));
    assert!(matches!(TrampolineInjector::new(0x1000, &[]), Err(EngineError::HookSite)));
    assert!(matches!(
        TrampolineInjector::new(usize::MAX - 3, &PROLOGUE),
        Err(EngineError::HookSite)
    ));
    let injector = TrampolineInjector::new(0x1000, &PROLOGUE).unwrap();
    assert_eq!(injector.hook_address, 0x1000);
    assert_eq!(injector.original_bytes, PROLOGUE[..8].to_vec());
    assert_eq!(injector.cave_size(), 1024 + 8 + 5);
}

fn apply(memory: &mut HashMap<usize, u8>, write: &MemoryWrite) {
    for (i, byte) in write.data.iter().enumerate() {
        memory.insert(write.address + i, *byte);
    }
}

#[test]
fn install_lays_out_the_cave_and_undo_restores() {
    let hook: usize = 0x1_4000_1000;
    let cave = AllocRegion { base_address: 0x1_4010_0000, region_size: 0x1000 };
    let injector = TrampolineInjector::new(hook, &PROLOGUE).unwrap();
    let mut code = CodeAssembler::new(64).unwrap();
    code.mov(dl, 1).unwrap();
    let plan = injector.install(cave, &mut code).unwrap();

    let writes: Vec<(usize, Vec<u8>)> =
        plan.writes.iter().map(|w| (w.address, w.data.clone())).collect();
    assert_eq!(
        writes,
        vec![
            (0x1_4010_0000, vec![0xB2, 0x01]),
            (0x1_4010_0002, PROLOGUE[..8].to_vec()),
            (0x1_4010_000A, vec![0xE9, 0xF9, 0x0F, 0xF0, 0xFF]),
            (hook, vec![0xE9, 0xFB, 0xEF, 0x0F, 0x00, NOP, NOP, NOP]),
        ]
    );
    assert_eq!(plan.record.hook_address, hook);
    assert_eq!(plan.record.stolen_byte_count, 8);
    assert_eq!(plan.record.original_bytes, PROLOGUE[..8].to_vec());
    assert_eq!(plan.record.code_cave_address, cave.base_address);
    assert_eq!(plan.record.code_cave_size, cave.region_size);
    assert_eq!(plan.record.state, InjectionState::Active);

    // apply, then undo, on a model of memory
    let mut memory: HashMap<usize, u8> = HashMap::new();
    for (i, byte) in PROLOGUE.iter().enumerate() {
        memory.insert(hook + i, *byte);
    }
    let before = memory.clone();
    for write in &plan.writes {
        apply(&mut memory, write);
    }
    assert_eq!(memory[&hook], 0xE9);
    assert_ne!(memory, before);
    let undo = plan.record.undo();
    assert_eq!(undo.release, cave);
    apply(&mut memory, &undo.restore);
    memory.retain(|address, _| *address < cave.base_address || *address >= cave.base_address + cave.region_size);
    assert_eq!(memory, before);
}

#[test]
fn install_fails_without_leaving_a_plan() {
    let mut code = CodeAssembler::new(64).unwrap();
    code.mov(dl, 1).unwrap();
    // a cave that has no room
    let injector = TrampolineInjector::new(0x1000, &PROLOGUE).unwrap();
    let small = AllocRegion { base_address: 0x20000, region_size: 12 };
    assert!(matches!(injector.install(small, &mut code), Err(EngineError::AllocationFailure)));
    // a cave that ends outside the address space
    let injector = TrampolineInjector::new(0x1000, &PROLOGUE).unwrap();
    let outside = AllocRegion { base_address: usize::MAX - 8, region_size: 0x1000 };
    assert!(matches!(injector.install(outside, &mut code), Err(EngineError::AllocationFailure)));
    // a cave so far away that the jump is longer than what was stolen
    let injector = TrampolineInjector::new(0x1000, &PROLOGUE).unwrap();
    let far = AllocRegion { base_address: 0x7000_0000_0000, region_size: 0x1000 };
    assert!(matches!(injector.install(far, &mut code), Err(EngineError::HookSite)));
    // a payload that cannot be assembled
    let injector = TrampolineInjector::new(0x1000, &PROLOGUE).unwrap();
    let mut broken = CodeAssembler::new(64).unwrap();
    let _ = broken.lock();
    let near = AllocRegion { base_address: 0x20000, region_size: 0x1000 };
    assert!(matches!(injector.install(near, &mut broken), Err(EngineError::Assemble)));
}

#[test]
fn plan_injection_checks_what_it_is_given() {
    let cave = AllocRegion { base_address: 0x2000, region_size: 16 };
    let original = vec![1u8, 2, 3, 4, 5, 6];
    let plan = plan_injection(0x1000, original.clone(), cave, vec![0xAA], vec![0xBB, 0xBC], vec![0xE9, 1, 2, 3, 4]).unwrap();
    let writes: Vec<(usize, Vec<u8>)> = plan.writes.iter().map(|w| (w.address, w.data.clone())).collect();
    assert_eq!(
        writes,
        vec![
            (0x2000, vec![0xAA]),
            (0x2001, original.clone()),
            (0x2007, vec![0xBB, 0xBC]),
            (0x1000, vec![0xE9, 1, 2, 3, 4, NOP]),
        ]
    );
    // exactly full
    assert!(plan_injection(0x1000, original.clone(), cave, vec![0; 8], vec![0; 2], vec![0; 6]).is_ok());
    assert!(matches!(
        plan_injection(0x1000, original.clone(), cave, vec![0; 9], vec![0; 2], vec![0; 5]),
        Err(EngineError::AllocationFailure)
    ));
    assert!(matches!(
        plan_injection(0x1000, original.clone(), cave, vec![], vec![], vec![0; 7]),
        Err(EngineError::HookSite)
    ));
    assert!(matches!(
        plan_injection(0x1000, vec![1, 2, 3, 4], cave, vec![], vec![], vec![0; 2]),
        Err(EngineError::HookSite)
    ));
    assert!(matches!(
        plan_injection(usize::MAX - 2, original, cave, vec![], vec![], vec![0; 5]),
        Err(EngineError::HookSite)
    ));
}
