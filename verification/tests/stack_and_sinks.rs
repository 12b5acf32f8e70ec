use tacit::event::{Entry, EventKind, TrapReason};
use tacit::insn_index::{build_instruction_index, parse_patch_line, SectionData, UserBinary};
use tacit::path_profile::{Path, PathProfiler};
use tacit::pc::{refund_addr, PC};
use tacit::prv::Prv;
use tacit::runtime_cfg::BrMode;
use tacit::sinks::{bb_summary, AfdoCounters, BBRecords, PrvBreakdown, StatsCounter};
use tacit::speedscope::{build_frames, SpeedscopeCore};
use tacit::stack_unwinder::StackUnwinder;
use tacit::symbol_index::{build_single_symbol_index, build_symbol_index, SymbolEntry, SymbolIndex};
use tacit::bp::BpDoubleSaturatingCounter;

fn sym(addr: u64, name: &str) -> SymbolEntry {
    SymbolEntry { addr, name: name.to_string(), file: "app.c".to_string(), line: 1 }
}

fn abcd_index() -> SymbolIndex {
    build_symbol_index(
        &vec![sym(0x1000, "A"), sym(0x1100, "B"), sym(0x1200, "C"), sym(0x1300, "D")],
        &vec![sym(0xffff_ff80_0000_0000, "handler")],
        &vec![],
        &vec![],
    )
}

fn ev(ts: u64, kind: EventKind) -> Entry {
    Entry::Event { timestamp: ts, kind }
}

#[test]
fn refund_round_trips_even_addresses() {
    for x in [0x1000u64, 0x40_0000_0000, 0x7f_ffff_fffe, 2, 0] {
        let extended = refund_addr(x >> 1);
        assert_eq!(refund_addr(extended >> 1), extended);
    }
    // A negative 40-bit address sign extends.
    assert_eq!(refund_addr(0x40_0000_0000), 0xffff_ff80_0000_0000);
}

#[test]
fn xor_codec_is_self_inverse() {
    let mut pc = PC::new(0x1234 >> 1);
    let t = 0x0f0f_0f0fu64;
    let once = pc.compute_from_xored_target_addr(t);
    pc.set_addr(once);
    let twice = pc.compute_from_xored_target_addr(t);
    assert_eq!(twice, 0x1234);
}

#[test]
fn predictor_saturates_both_ways() {
    let mut bp = BpDoubleSaturatingCounter::new(64);
    // Weakly not-taken start: first prediction is not taken.
    assert!(!bp.predict(0, true)); // counter 1 -> 2
    assert!(bp.predict(0, true)); // 2 -> 3
    assert!(bp.predict(0, true)); // saturates at 3
    assert!(bp.predict(0, false)); // 3 -> 2
    assert!(bp.predict(0, false)); // 2 -> 1
    assert!(!bp.predict(0, false)); // 1 -> 0
    assert!(!bp.predict(0, false)); // saturates at 0
    assert!(!bp.predict(64, false)); // distinct counter, still default
}

#[test]
fn symbol_index_lookup_and_range() {
    let index = abcd_index();
    assert_eq!(index.lookup(Prv::PrvUser, 0x1100).unwrap().name, "B");
    assert!(index.lookup(Prv::PrvUser, 0x1004).is_none());
    assert_eq!(index.range(Prv::PrvUser, 0x1000), Some((0x1000, 0x1100)));
    assert_eq!(index.range(Prv::PrvUser, 0x1300), Some((0x1300, u64::MAX)));
    assert_eq!(index.range(Prv::PrvUser, 0x1104), None);
    assert_eq!(index.range(Prv::PrvSupervisor, 0xffff_ff80_0000_0000),
        Some((0xffff_ff80_0000_0000, u64::MAX)));
}

#[test]
fn symbol_index_drops_local_labels_and_keeps_first_alias() {
    let map = build_single_symbol_index(
        &vec![
            sym(0x1000, "$x"),
            sym(0x1000, "real"),
            sym(0x1000, "alias"),
            sym(0x2000, ".Ltmp0"),
            sym(0x3000, ""),
            sym(0x3000, "named"),
        ],
        Prv::PrvUser,
    );
    assert_eq!(map.len(), 2);
    // The local label was dropped, the first real name won.
    assert_eq!(map.get(0x1000).unwrap().name, "real");
    assert!(map.get(0x2000).is_none());
    // A non-empty name replaces an empty alias.
    assert_eq!(map.get(0x3000).unwrap().name, "named");
}

#[test]
fn driver_symbols_are_shifted_into_the_kernel_map() {
    let index = build_symbol_index(
        &vec![],
        &vec![sym(0x100, "kmain")],
        &vec![(0x8000, vec![sym(0x10, "drv_init")])],
        &vec![],
    );
    assert_eq!(index.lookup(Prv::PrvSupervisor, 0x8010).unwrap().name, "drv_init");
    assert_eq!(index.lookup(Prv::PrvSupervisor, 0x100).unwrap().name, "kmain");
}

#[test]
fn unwinder_opens_and_closes_frames() {
    let mut u = StackUnwinder::new(abcd_index());
    u.step(&ev(0, EventKind::SyncStart {
        runtime_cfg: tacit::runtime_cfg::DecoderRuntimeCfg { br_mode: BrMode::BrTarget, bp_entries: 0 },
        start_pc: 0x1000,
        start_prv: Prv::PrvUser,
        start_ctx: 7,
    }));
    // A direct call to B opens a frame.
    let r = u.step(&ev(4, EventKind::InferrableJump { arc: (0x1000, 0x1100) })).unwrap();
    assert_eq!(r.frames_opened.len(), 1);
    assert_eq!(r.frames_opened[0].symbol.name, "B");
    assert_eq!(u.peek_all_frames().len(), 1);
    // A direct jump to a non-entry changes nothing.
    assert!(u.step(&ev(5, EventKind::InferrableJump { arc: (0x1100, 0x1104) })).is_none());
    // An indirect jump back into A is a return: B closes.
    let r = u.step(&ev(14, EventKind::UninferableJump { arc: (0x1104, 0x1004) })).unwrap();
    assert_eq!(r.frames_opened.len(), 0);
    assert_eq!(r.frames_closed.len(), 1);
    assert_eq!(r.frames_closed[0].symbol.name, "B");
    assert_eq!(u.peek_all_frames().len(), 0);
}

#[test]
fn unwinder_indirect_call_to_entry_opens() {
    let mut u = StackUnwinder::new(abcd_index());
    u.step_sync_start(Prv::PrvUser, 7);
    let r = u.step_uj(0x1300).unwrap();
    assert_eq!(r.frames_opened.len(), 1);
    assert_eq!(r.frames_opened[0].symbol.name, "D");
}

#[test]
fn trap_frames_balance_across_privileges() {
    let mut u = StackUnwinder::new(abcd_index());
    u.step_sync_start(Prv::PrvUser, 7);
    u.step_ij(0x1100);
    // Exception into the kernel handler opens its frame in supervisor mode.
    let r = u
        .step_trap(&TrapReason::Exception, (Prv::PrvUser, Prv::PrvSupervisor), 0xffff_ff80_0000_0000, None)
        .unwrap();
    assert_eq!(r.frames_opened.len(), 1);
    assert_eq!(r.frames_opened[0].prv, Prv::PrvSupervisor);
    assert_eq!(u.peek_all_frames().len(), 2);
    // The matching return closes the higher-privileged callee.
    let r = u
        .step_trap(&TrapReason::Return, (Prv::PrvSupervisor, Prv::PrvUser), 0x1004, Some(7))
        .unwrap();
    assert_eq!(r.frames_closed.len(), 1);
    assert_eq!(r.frames_closed[0].prv, Prv::PrvSupervisor);
    // The user frame survives.
    assert_eq!(u.peek_all_frames().len(), 1);
    assert_eq!(u.peek_head_frames().unwrap().symbol.name, "B");
}

#[test]
fn flush_empties_the_stack() {
    let mut u = StackUnwinder::new(abcd_index());
    u.step_sync_start(Prv::PrvUser, 7);
    u.step_ij(0x1100);
    u.step_uj(0x1200);
    assert_eq!(u.peek_all_frames().len(), 2);
    let r = u.flush().unwrap();
    assert_eq!(r.frames_closed.len(), 2);
    assert_eq!(u.peek_all_frames().len(), 0);
    // Flushing again closes nothing: the stack stays empty.
    let r = u.flush().unwrap();
    assert_eq!(r.frames_closed.len(), 0);
}

#[test]
fn stats_counts_packets_and_predictions() {
    let mut s = StatsCounter::new(BrMode::BrPredict);
    s.receive(&ev(0, EventKind::BPHit { hit_count: 3 }));
    s.receive(&ev(1, EventKind::BPMiss));
    s.receive(&ev(1, EventKind::TakenBranch { arc: (0, 4) }));
    s.receive(&Entry::Instruction { insn: tacit::insn::Insn {
        len: 4, offset: 0, is_branch: false, is_direct_jump: false, is_indirect_jump: false,
        name: "addi".to_string() }, pc: 0x1000 });
    assert_eq!(s.packet_count, 3);
    assert_eq!(s.insn_count, 1);
    assert_eq!(s.hit_count, 3);
    assert_eq!(s.miss_count, 1);
    // Outside prediction mode the hit and miss counters stay untouched.
    let mut s = StatsCounter::new(BrMode::BrTarget);
    s.receive(&ev(0, EventKind::BPHit { hit_count: 3 }));
    assert_eq!(s.hit_count, 0);
}

#[test]
fn privilege_breakdown_attributes_spans() {
    let mut p = PrvBreakdown::new();
    p.receive(&ev(10, EventKind::SyncStart {
        runtime_cfg: tacit::runtime_cfg::DecoderRuntimeCfg { br_mode: BrMode::BrTarget, bp_entries: 0 },
        start_pc: 0x1000,
        start_prv: Prv::PrvUser,
        start_ctx: 7,
    }));
    p.receive(&ev(17, EventKind::Trap {
        reason: TrapReason::Exception,
        prv_arc: (Prv::PrvUser, Prv::PrvSupervisor),
        arc: (0x1004, 0xffff_ff80_0000_0000),
        ctx: None,
    }));
    p.receive(&ev(20, EventKind::TakenBranch { arc: (0, 4) }));
    assert_eq!(p.u_prv_cycles, 7);
    assert_eq!(p.k_prv_cycles, 3);
    assert_eq!(p.m_prv_cycles, 0);
}

#[test]
fn bb_records_and_summary() {
    let mut b = BBRecords::new();
    b.receive(&ev(0, EventKind::SyncStart {
        runtime_cfg: tacit::runtime_cfg::DecoderRuntimeCfg { br_mode: BrMode::BrTarget, bp_entries: 0 },
        start_pc: 0x1000,
        start_prv: Prv::PrvUser,
        start_ctx: 7,
    }));
    b.receive(&ev(5, EventKind::TakenBranch { arc: (0x1010, 0x1000) }));
    b.receive(&ev(9, EventKind::TakenBranch { arc: (0x1010, 0x1000) }));
    b.receive(&ev(20, EventKind::TakenBranch { arc: (0x1010, 0x1000) }));
    let key = ((0x1000u128) << 64) | 0x1010;
    let intervals = b.bb_records.get(&key).unwrap();
    assert_eq!(intervals, &vec![5u64, 4, 11]);
    let (count, sum, min, netvar) = bb_summary(intervals);
    assert_eq!((count, sum, min, netvar), (3, 20, 4, 20 - 3 * 4));
}

#[test]
fn afdo_counts_ranges_and_branches() {
    let mut a = AfdoCounters::new(0x1000);
    a.receive(&ev(0, EventKind::SyncStart {
        runtime_cfg: tacit::runtime_cfg::DecoderRuntimeCfg { br_mode: BrMode::BrTarget, bp_entries: 0 },
        start_pc: 0x1000,
        start_prv: Prv::PrvUser,
        start_ctx: 7,
    }));
    a.receive(&ev(1, EventKind::TakenBranch { arc: (0x1008, 0x1020) }));
    a.receive(&ev(2, EventKind::TakenBranch { arc: (0x1028, 0x1008) }));
    a.receive(&ev(3, EventKind::TakenBranch { arc: (0x1028, 0x1008) }));
    let branch_key = ((0x1028u128) << 64) | 0x1008;
    assert_eq!(a.branch_map.get(&branch_key), Some(&2));
    let range_key = ((0x1000u128) << 64) | 0x1020;
    assert_eq!(a.range_map.get(&range_key), Some(&1));
    assert_eq!(a.last_record, (0x1008, 3));
}

#[test]
fn path_renders_its_text_key() {
    let p = Path {
        entry_point: 0x1a2b,
        name: "main".to_string(),
        branches: vec![true, false, true],
    };
    assert_eq!(p.to_string(), "main-0x1a2b-101");
    let q = Path { entry_point: 0, name: "z".to_string(), branches: vec![] };
    assert_eq!(q.to_string(), "z-0x0-");
}

#[test]
fn path_profiler_collects_branch_outcomes() {
    let mut pp = PathProfiler::new(StackUnwinder::new(abcd_index()));
    pp.receive(&ev(0, EventKind::SyncStart {
        runtime_cfg: tacit::runtime_cfg::DecoderRuntimeCfg { br_mode: BrMode::BrTarget, bp_entries: 0 },
        start_pc: 0x1000,
        start_prv: Prv::PrvUser,
        start_ctx: 7,
    }));
    // Opening B starts a path; branches extend it; the return closes it.
    pp.receive(&ev(4, EventKind::InferrableJump { arc: (0x1000, 0x1100) }));
    pp.receive(&ev(5, EventKind::TakenBranch { arc: (0x1104, 0x1108) }));
    pp.receive(&ev(6, EventKind::NonTakenBranch { arc: (0x110c, 0x1110) }));
    pp.receive(&ev(14, EventKind::UninferableJump { arc: (0x1110, 0x1004) }));
    assert_eq!(pp.path_records.len(), 1);
    let (path, records) = &pp.path_records[0];
    assert_eq!(path.name, "B");
    assert_eq!(path.entry_point, 0x1100);
    assert_eq!(path.branches, vec![true, false]);
    assert_eq!(records, &vec![10u64]);
}

#[test]
fn speedscope_builds_frames_and_events() {
    let symbols = abcd_index();
    let (frames, lookup) = build_frames(&symbols, &vec![7]);
    // One kernel symbol, four user symbols, one synthetic parent frame.
    assert_eq!(frames.len(), 6);
    assert_eq!(frames[0].name, "k:handler");
    assert_eq!(frames[5].name, "u_7");
    assert_eq!(lookup.lookup(Prv::PrvSupervisor, 0, 0xffff_ff80_0000_0000), Some(0));
    assert_eq!(lookup.lookup(Prv::PrvUser, 7, 0x1100), Some(2));
    assert_eq!(lookup.lookup(Prv::PrvUser, 99, 0x1100), None);
    assert_eq!(lookup.lookup(Prv::PrvUser, 7, 0x1104), None);

    let mut core = SpeedscopeCore::new(StackUnwinder::new(abcd_index()), frames, lookup);
    core.receive(&ev(0, EventKind::SyncStart {
        runtime_cfg: tacit::runtime_cfg::DecoderRuntimeCfg { br_mode: BrMode::BrTarget, bp_entries: 0 },
        start_pc: 0x1000,
        start_prv: Prv::PrvUser,
        start_ctx: 7,
    }));
    core.receive(&ev(4, EventKind::InferrableJump { arc: (0x1000, 0x1100) }));
    core.receive(&ev(14, EventKind::UninferableJump { arc: (0x1104, 0x1004) }));
    core.receive(&ev(20, EventKind::SyncEnd { end_pc: 0x1008 }));
    core.finish();
    // The parent frame for address space 7 opened at the start, B opened
    // and closed, and the parent frame closed at the end.
    assert_eq!(core.start, 0);
    assert_eq!(core.end, 20);
    let shapes: Vec<(bool, u32, u64)> = core.events.iter().map(|e| (e.open, e.frame, e.at)).collect();
    assert_eq!(shapes, vec![(true, 5, 0), (true, 2, 4), (false, 2, 14), (false, 5, 20)]);
}

#[test]
fn atomic_mnemonics_are_recognized() {
    let mk = |name: &str| tacit::insn::Insn {
        len: 4,
        offset: 0,
        is_branch: false,
        is_direct_jump: false,
        is_indirect_jump: false,
        name: name.to_string(),
    };
    assert!(mk("lr.w").is_atomic());
    assert!(mk("sc.d").is_atomic());
    assert!(mk("amoadd.w").is_atomic());
    assert!(!mk("addi").is_atomic());
    assert!(!mk("lr").is_atomic());
    assert!(!mk("").is_atomic());
}

#[test]
fn patch_lines_parse_and_apply() {
    assert_eq!(parse_patch_line(b"ffffffff800033f4,00000013"),
        Some((0xffff_ffff_8000_33f4, 0x13)));
    assert_eq!(parse_patch_line(b"nonsense"), None);
    assert_eq!(parse_patch_line(b"12x4,13"), None);
    assert_eq!(parse_patch_line(b","), None);
}

#[test]
fn instruction_index_builds_from_real_bytes() {
    // addi x0,x0,0 (nop) followed by jalr x0,0(x1) (ret).
    let code: Vec<u8> = vec![0x13, 0x00, 0x00, 0x00, 0x67, 0x80, 0x00, 0x00];
    let machine = vec![SectionData { base: 0x8000_0000, bytes: code.clone() }];
    let user = vec![UserBinary { ctx: 7, sections: vec![SectionData { base: 0x1000, bytes: code }] }];
    let index = build_instruction_index(true, &user, &vec![], &vec![], &vec![], &machine).unwrap();
    let m = index.get(Prv::PrvMachine, 0);
    assert_eq!(m.len(), 2);
    assert!(!m.get(&0x8000_0000).unwrap().is_cfc_insn());
    assert!(m.get(&0x8000_0004).unwrap().is_indirect_jump);
    let u = index.get(Prv::PrvUser, 7);
    assert_eq!(u.get(&0x1000).unwrap().len, 4);
    // An unindexed address space sees no instructions.
    assert_eq!(index.get(Prv::PrvUser, 99).len(), 0);
}

#[test]
fn instruction_index_applies_patch_log() {
    // A kernel of two nops; the patch log replaces the second with ret.
    let code: Vec<u8> = vec![0x13, 0x00, 0x00, 0x00, 0x13, 0x00, 0x00, 0x00];
    let kernel = vec![SectionData { base: 0x100, bytes: code.clone() }];
    let machine = vec![SectionData { base: 0x8000_0000, bytes: code }];
    let patches: Vec<Vec<u8>> = vec![b"104,00008067".to_vec(), b"garbage".to_vec()];
    let index =
        build_instruction_index(true, &vec![], &kernel, &vec![], &patches, &machine).unwrap();
    let k = index.get(Prv::PrvSupervisor, 0);
    assert!(k.get(&0x104).unwrap().is_indirect_jump);
    assert!(!k.get(&0x100).unwrap().is_cfc_insn());
}

#[test]
fn truncated_section_is_rejected() {
    // A four-byte instruction cut to three bytes: the disassembler would
    // read past the buffer, so the builder refuses the image.
    let code: Vec<u8> = vec![0x13, 0x00, 0x00];
    let machine = vec![SectionData { base: 0x8000_0000, bytes: code }];
    let err = build_instruction_index(true, &vec![], &vec![], &vec![], &vec![], &machine);
    assert!(matches!(err, Err(tacit::insn_index::IndexBuildError::TruncatedSection)));
    // A lone compressed-format byte is truncated too.
    let machine = vec![SectionData { base: 0x8000_0000, bytes: vec![0x01] }];
    let err = build_instruction_index(true, &vec![], &vec![], &vec![], &vec![], &machine);
    assert!(matches!(err, Err(tacit::insn_index::IndexBuildError::TruncatedSection)));
}

#[test]
fn path_profiler_marks_resumed_paths_dirty() {
    // A covers the whole space below B; entering B from A and returning
    // into A closes B's path and resumes A's as dirty.
    let mut pp = PathProfiler::new(StackUnwinder::new(abcd_index()));
    pp.receive(&ev(0, EventKind::SyncStart {
        runtime_cfg: tacit::runtime_cfg::DecoderRuntimeCfg { br_mode: BrMode::BrTarget, bp_entries: 0 },
        start_pc: 0x1000,
        start_prv: Prv::PrvUser,
        start_ctx: 7,
    }));
    pp.receive(&ev(1, EventKind::UninferableJump { arc: (0x2000, 0x1000) })); // call A
    pp.receive(&ev(4, EventKind::InferrableJump { arc: (0x1004, 0x1100) })); // call B
    pp.receive(&ev(9, EventKind::UninferableJump { arc: (0x1104, 0x1008) })); // return into A
    // B's traversal was credited and A resumed as a dirty path.
    assert_eq!(pp.path_records.len(), 1);
    assert_eq!(pp.path_records[0].0.name, "B");
    assert_eq!(pp.path_records[0].1, vec![5u64]);
    let current = pp.current_path.as_ref().unwrap();
    assert_eq!(current.name, "A-dirty");
    assert_eq!(current.entry_point, 0x1000);
}

#[test]
fn empty_machine_image_is_rejected() {
    let err = build_instruction_index(true, &vec![], &vec![], &vec![], &vec![], &vec![]);
    assert!(err.is_err());
}
