use std::collections::HashMap;

use tacit::decoder::{Decoder, ProcessOutcome};
use tacit::error::DecodeError;
use tacit::event::{Entry, EventKind, TrapReason};
use tacit::headers::{CHeader, FHeader};
use tacit::insn::Insn;
use tacit::insn_index::InstructionIndex;
use tacit::packet::{read_first_packet, read_packet, Packet, SubFunc3};
use tacit::prv::Prv;
use tacit::runtime_cfg::{BrMode, DecoderRuntimeCfg};
use tacit::sync_type::SyncType;
use tacit::trap_type::TrapType;
use tacit::varint::encode_varint;

fn insn(name: &str, len: u8, offset: i32, b: bool, dj: bool, ij: bool) -> Insn {
    Insn {
        len,
        offset,
        is_branch: b,
        is_direct_jump: dj,
        is_indirect_jump: ij,
        name: name.to_string(),
    }
}

fn plain(len: u8) -> Insn {
    insn("addi", len, 0, false, false, false)
}

fn branch(offset: i32) -> Insn {
    insn("beq", 4, offset, true, false, false)
}

fn direct_jump(offset: i32) -> Insn {
    insn("jal", 4, offset, false, true, false)
}

fn indirect_jump() -> Insn {
    insn("ret", 4, 0, false, false, true)
}

fn index_with(
    user: Vec<(u64, Insn)>,
    kernel: Vec<(u64, Insn)>,
    machine: Vec<(u64, Insn)>,
) -> InstructionIndex {
    let mut u_map: HashMap<u64, Insn> = HashMap::new();
    for (addr, i) in user {
        u_map.insert(addr, i);
    }
    let mut u_insn_maps = HashMap::new();
    u_insn_maps.insert(7u64, u_map);
    let mut k_insn_map: HashMap<u64, Insn> = HashMap::new();
    for (addr, i) in kernel {
        k_insn_map.insert(addr, i);
    }
    let mut m_insn_map: HashMap<u64, Insn> = HashMap::new();
    for (addr, i) in machine {
        m_insn_map.insert(addr, i);
    }
    InstructionIndex { u_insn_maps, k_insn_map, m_insn_map, empty_map: HashMap::new() }
}

fn sync_start_packet(pc: u64, prv: Prv, ctx: u64, ts: u64) -> Packet {
    Packet {
        is_compressed: false,
        c_header: CHeader::CNa,
        f_header: FHeader::FSync,
        func3: SubFunc3::SyncType(SyncType::SyncStart),
        target_address: pc >> 1,
        from_address: 0,
        target_prv: prv,
        target_ctx: ctx,
        from_prv: Prv::PrvUser,
        timestamp: ts,
    }
}

fn cf_packet(f: FHeader, ts: u64) -> Packet {
    Packet { f_header: f, timestamp: ts, ..Packet::new() }
}

fn target_cfg() -> DecoderRuntimeCfg {
    DecoderRuntimeCfg { br_mode: BrMode::BrTarget, bp_entries: 0 }
}

fn predict_cfg() -> DecoderRuntimeCfg {
    DecoderRuntimeCfg { br_mode: BrMode::BrPredict, bp_entries: 64 }
}

fn ok_events(out: ProcessOutcome) -> Vec<Entry> {
    assert!(out.fatal.is_none(), "unexpected fatal error: {:?}", out.fatal);
    out.events
}

#[test]
fn sync_start_only_trace_is_clean() {
    // A trace whose only record is a valid sync-start: one sync-start
    // event and a clean end of stream.
    let mut bytes = vec![(6u8 << 2) | (1 << 5)];
    bytes.push(0b1000_0000); // from user, to user
    bytes.extend_from_slice(&encode_varint(7)); // ctx
    bytes.push(0x00); // target mode
    bytes.extend_from_slice(&encode_varint(0x800)); // pc 0x1000
    bytes.extend_from_slice(&encode_varint(0)); // ts
    let (first, cfg, consumed) = read_first_packet(&bytes).unwrap();
    assert_eq!(consumed, bytes.len());
    let index = index_with(vec![(0x1000, plain(4))], vec![], vec![]);
    let (_decoder, entry) = Decoder::new(&first, cfg, index, vec![7]);
    assert!(matches!(
        entry,
        Entry::Event {
            timestamp: 0,
            kind: EventKind::SyncStart { start_pc: 0x1000, start_prv: Prv::PrvUser, start_ctx: 7, .. }
        }
    ));
    let mut packet = Packet::new();
    assert_eq!(read_packet(&bytes, consumed, &mut packet), Err(DecodeError::Eof));
}

#[test]
fn direct_call_and_return() {
    // Call B with a direct jump, return into A with an indirect jump.
    let index = index_with(
        vec![(0x1000, direct_jump(0x100)), (0x1100, indirect_jump()), (0x1004, plain(4))],
        vec![],
        vec![],
    );
    let first = sync_start_packet(0x1000, Prv::PrvUser, 7, 0);
    let (mut decoder, _) = Decoder::new(&first, target_cfg(), index, vec![7]);

    let events = ok_events(decoder.process_packet(&cf_packet(FHeader::FIj, 4)));
    assert_eq!(events.len(), 1);
    assert!(matches!(
        events[0],
        Entry::Event { timestamp: 4, kind: EventKind::InferrableJump { arc: (0x1000, 0x1100) } }
    ));

    // Return to 0x1004: the wire carries the xored shifted delta.
    let mut uj = cf_packet(FHeader::FUj, 10);
    uj.target_address = (0x1100u64 ^ 0x1004) >> 1;
    let events = ok_events(decoder.process_packet(&uj));
    assert_eq!(events.len(), 1);
    assert!(matches!(
        events[0],
        Entry::Event { timestamp: 14, kind: EventKind::UninferableJump { arc: (0x1100, 0x1004) } }
    ));
}

#[test]
fn taken_and_non_taken_branches_follow_the_instruction() {
    let index = index_with(
        vec![(0x1000, branch(0x10)), (0x1010, branch(-0x10)), (0x1004, plain(4))],
        vec![],
        vec![],
    );
    let first = sync_start_packet(0x1000, Prv::PrvUser, 7, 0);
    let (mut decoder, _) = Decoder::new(&first, target_cfg(), index, vec![7]);

    let events = ok_events(decoder.process_packet(&cf_packet(FHeader::FTb, 3)));
    assert!(matches!(
        events[0],
        Entry::Event { timestamp: 3, kind: EventKind::TakenBranch { arc: (0x1000, 0x1010) } }
    ));

    let events = ok_events(decoder.process_packet(&cf_packet(FHeader::FTb, 2)));
    assert!(matches!(
        events[0],
        Entry::Event { timestamp: 5, kind: EventKind::TakenBranch { arc: (0x1010, 0x1000) } }
    ));

    // The block starting at 0x1000 is now cached; the result must agree.
    let events = ok_events(decoder.process_packet(&cf_packet(FHeader::FNt, 1)));
    assert!(matches!(
        events[0],
        Entry::Event { timestamp: 6, kind: EventKind::NonTakenBranch { arc: (0x1000, 0x1004) } }
    ));
}

#[test]
fn wrong_instruction_kind_is_fatal_with_panic_marker() {
    // A taken-branch record landing on a plain instruction chain ending in
    // a direct jump: the demanded kind does not match.
    let index = index_with(vec![(0x1000, direct_jump(8))], vec![], vec![]);
    let first = sync_start_packet(0x1000, Prv::PrvUser, 7, 0);
    let (mut decoder, _) = Decoder::new(&first, target_cfg(), index, vec![7]);
    let out = decoder.process_packet(&cf_packet(FHeader::FTb, 1));
    assert_eq!(out.fatal, Some(DecodeError::WrongInsnKind));
    assert_eq!(out.events.len(), 1);
    assert!(matches!(out.events[0], Entry::Event { timestamp: 0, kind: EventKind::Panic }));
}

#[test]
fn missing_instruction_is_fatal() {
    let index = index_with(vec![(0x1000, plain(4))], vec![], vec![]);
    let first = sync_start_packet(0x1000, Prv::PrvUser, 7, 0);
    let (mut decoder, _) = Decoder::new(&first, target_cfg(), index, vec![7]);
    // Walking from 0x1000 falls through to 0x1004, which is unmapped.
    let out = decoder.process_packet(&cf_packet(FHeader::FTb, 1));
    assert_eq!(out.fatal, Some(DecodeError::MissingInstruction));
    // Every fatal error broadcasts the panic marker so sinks can finalize.
    assert_eq!(out.events.len(), 1);
    assert!(matches!(out.events[0], Entry::Event { timestamp: 0, kind: EventKind::Panic }));
}

#[test]
fn sync_end_walks_to_the_target() {
    let index = index_with(
        vec![(0x1000, plain(4)), (0x1004, plain(4)), (0x1008, plain(4))],
        vec![],
        vec![],
    );
    let first = sync_start_packet(0x1000, Prv::PrvUser, 7, 0);
    let (mut decoder, _) = Decoder::new(&first, target_cfg(), index, vec![7]);
    let mut end = cf_packet(FHeader::FSync, 99);
    end.func3 = SubFunc3::SyncType(SyncType::SyncEnd);
    end.target_address = 0x1008 >> 1;
    let out = decoder.process_packet(&end);
    assert!(out.fatal.is_none());
    assert!(out.end);
    assert_eq!(out.events.len(), 1);
    assert!(matches!(
        out.events[0],
        Entry::Event { timestamp: 99, kind: EventKind::SyncEnd { end_pc: 0x1008 } }
    ));
}

#[test]
fn predict_mode_three_branches_in_one_hit() {
    // Three consecutive predicted branches in one record; every counter
    // starts weakly-not-taken, so all three resolve as not taken.
    let index = index_with(
        vec![(0x1000, branch(16)), (0x1004, branch(-4)), (0x1008, branch(-8)), (0x100c, branch(-12))],
        vec![],
        vec![],
    );
    let first = sync_start_packet(0x1000, Prv::PrvUser, 7, 0);
    let (mut decoder, _) = Decoder::new(&first, predict_cfg(), index, vec![7]);
    let events = ok_events(decoder.process_packet(&cf_packet(FHeader::FTb, 3)));
    assert_eq!(events.len(), 4);
    assert!(matches!(events[0], Entry::Event { timestamp: 3, kind: EventKind::BPHit { hit_count: 3 } }));
    assert!(matches!(
        events[1],
        Entry::Event { timestamp: 0, kind: EventKind::NonTakenBranch { arc: (0x1000, 0x1004) } }
    ));
    assert!(matches!(
        events[2],
        Entry::Event { timestamp: 0, kind: EventKind::NonTakenBranch { arc: (0x1004, 0x1008) } }
    ));
    assert!(matches!(
        events[3],
        Entry::Event { timestamp: 0, kind: EventKind::NonTakenBranch { arc: (0x1008, 0x100c) } }
    ));

    // A miss follows: the predictor still says not taken for the next
    // branch, and the miss means the opposite, a taken branch.
    let events = ok_events(decoder.process_packet(&cf_packet(FHeader::FNt, 5)));
    assert_eq!(events.len(), 2);
    assert!(matches!(events[0], Entry::Event { timestamp: 5, kind: EventKind::BPMiss }));
    assert!(matches!(
        events[1],
        Entry::Event { timestamp: 5, kind: EventKind::TakenBranch { arc: (0x100c, 0x1000) } }
    ));
}

fn trap_packet(tt: TrapType, target_prv: Prv, target_ctx: u64, from: u64, to_xored: u64, ts: u64) -> Packet {
    Packet {
        f_header: FHeader::FTrap,
        func3: SubFunc3::TrapType(tt),
        target_prv,
        target_ctx,
        from_address: from >> 1,
        target_address: to_xored,
        timestamp: ts,
        ..Packet::new()
    }
}

const KERNEL_BASE: u64 = 0xffff_ff80_0000_0000;

#[test]
fn exception_and_return_across_privilege() {
    let index = index_with(
        vec![(0x1000, plain(4)), (0x1004, plain(4)), (0x1008, plain(4))],
        vec![(KERNEL_BASE, plain(4)), (KERNEL_BASE + 4, plain(4))],
        vec![],
    );
    let first = sync_start_packet(0x1000, Prv::PrvUser, 7, 0);
    let (mut decoder, _) = Decoder::new(&first, target_cfg(), index, vec![7]);

    // Exception at 0x1004 into the kernel handler.
    let to_xored = (0x1004u64 ^ (KERNEL_BASE & 0xff_ffff_ffff)) >> 1;
    let events = ok_events(decoder.process_packet(&trap_packet(
        TrapType::TException,
        Prv::PrvSupervisor,
        0,
        0x1004,
        to_xored,
        7,
    )));
    assert_eq!(events.len(), 1);
    assert!(matches!(
        events[0],
        Entry::Event {
            timestamp: 7,
            kind: EventKind::Trap {
                reason: TrapReason::Exception,
                prv_arc: (Prv::PrvUser, Prv::PrvSupervisor),
                arc: (0x1004, KERNEL_BASE),
                ctx: None,
            }
        }
    ));

    // Return from the handler's second instruction back to 0x1004.
    let kernel_from = KERNEL_BASE + 4;
    let ret_xored = (((kernel_from & 0xff_ffff_ffff) ^ 0x1004) >> 1) as u64;
    let events = ok_events(decoder.process_packet(&trap_packet(
        TrapType::TReturn,
        Prv::PrvUser,
        7,
        kernel_from,
        ret_xored,
        42,
    )));
    assert_eq!(events.len(), 1);
    assert!(matches!(
        events[0],
        Entry::Event {
            timestamp: 49,
            kind: EventKind::Trap {
                reason: TrapReason::Return,
                prv_arc: (Prv::PrvSupervisor, Prv::PrvUser),
                arc: (0xffff_ff80_0000_0004, 0x1004),
                ctx: Some(7),
            }
        }
    ));
    assert!(!decoder.u_unknown_ctx);
}

#[test]
fn return_to_unknown_address_space_skips_user_packets() {
    let index = index_with(
        vec![(0x1000, plain(4)), (0x1004, plain(4))],
        vec![(KERNEL_BASE, plain(4)), (KERNEL_BASE + 4, plain(4))],
        vec![],
    );
    let first = sync_start_packet(0x1000, Prv::PrvUser, 7, 0);
    let (mut decoder, _) = Decoder::new(&first, target_cfg(), index, vec![7]);

    let to_xored = (0x1004u64 ^ (KERNEL_BASE & 0xff_ffff_ffff)) >> 1;
    ok_events(decoder.process_packet(&trap_packet(
        TrapType::TException,
        Prv::PrvSupervisor,
        0,
        0x1004,
        to_xored,
        7,
    )));

    // Return to an unindexed address space.
    let kernel_from = KERNEL_BASE + 4;
    let ret_xored = ((kernel_from & 0xff_ffff_ffff) ^ 0x1004) >> 1;
    let events = ok_events(decoder.process_packet(&trap_packet(
        TrapType::TReturn,
        Prv::PrvUser,
        99,
        kernel_from,
        ret_xored,
        1,
    )));
    assert!(decoder.u_unknown_ctx);
    assert!(matches!(
        events[0],
        Entry::Event { kind: EventKind::Trap { ctx: None, .. }, .. }
    ));

    // User-mode packets are now skipped: time advances, nothing is emitted.
    let before = decoder.timestamp;
    let out = decoder.process_packet(&cf_packet(FHeader::FTb, 5));
    assert!(out.fatal.is_none());
    assert_eq!(out.events.len(), 0);
    assert_eq!(decoder.timestamp, before + 5);

    // Another exception leaves user space, so decoding resumes there.
    let trapping = 0x1004u64; // the walk is skipped in an unknown context
    let to_xored = (trapping ^ (KERNEL_BASE & 0xff_ffff_ffff)) >> 1;
    let out = decoder.process_packet(&trap_packet(
        TrapType::TException,
        Prv::PrvSupervisor,
        0,
        trapping,
        to_xored,
        2,
    ));
    assert!(out.fatal.is_none());
    assert_eq!(out.events.len(), 1);
}

#[test]
fn trap_walk_arriving_elsewhere_desynchronizes() {
    // The walk toward the trapping address stops at a branch before ever
    // reaching it: the trace does not match the binaries.
    let index = index_with(vec![(0x1000, branch(0x10))], vec![], vec![]);
    let first = sync_start_packet(0x1000, Prv::PrvUser, 7, 0);
    let (mut decoder, _) = Decoder::new(&first, target_cfg(), index, vec![7]);
    let out = decoder.process_packet(&trap_packet(
        TrapType::TException,
        Prv::PrvSupervisor,
        0,
        0x1008,
        0,
        1,
    ));
    assert_eq!(out.fatal, Some(DecodeError::TraceDesync));
    assert_eq!(out.events.len(), 1);
    assert!(matches!(out.events[0], Entry::Event { timestamp: 0, kind: EventKind::Panic }));
}

#[test]
fn timestamps_are_monotonic_across_packets() {
    let index = index_with(
        vec![(0x1000, branch(0x10)), (0x1010, branch(-0x10))],
        vec![],
        vec![],
    );
    let first = sync_start_packet(0x1000, Prv::PrvUser, 7, 5);
    let (mut decoder, _) = Decoder::new(&first, target_cfg(), index, vec![7]);
    let mut last = decoder.timestamp;
    for ts in [0u64, 3, 0, 7, 1] {
        let out = decoder.process_packet(&cf_packet(FHeader::FTb, ts));
        assert!(out.fatal.is_none());
        assert!(decoder.timestamp >= last);
        last = decoder.timestamp;
    }
}
