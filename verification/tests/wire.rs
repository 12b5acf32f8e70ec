use tacit::error::DecodeError;
use tacit::headers::FHeader;
use tacit::packet::{read_first_packet, read_packet, Packet, SubFunc3};
use tacit::prv::Prv;
use tacit::runtime_cfg::BrMode;
use tacit::sync_type::SyncType;
use tacit::trap_type::TrapType;
use tacit::varint::{encode_varint, read_varint};

fn push_varint(out: &mut Vec<u8>, v: u64) {
    out.extend_from_slice(&encode_varint(v));
}

/// A well-formed opening sync-start record.
fn first_packet_bytes(target_prv_bits: u8, ctx: u64, cfg_byte: u8, wire_addr: u64, ts: u64) -> Vec<u8> {
    let mut out = Vec::new();
    // CNa, FSync, SyncStart
    out.push((6u8 << 2) | (1 << 5));
    out.push(0b1000_0000 | (target_prv_bits << 3));
    push_varint(&mut out, ctx);
    out.push(cfg_byte);
    push_varint(&mut out, wire_addr);
    push_varint(&mut out, ts);
    out
}

#[test]
fn varint_round_trip_small_values() {
    for v in [0u64, 1, 2, 0x7f, 0x80, 0x81, 0x3fff, 0x4000, 123456789] {
        let bytes = encode_varint(v);
        assert!(bytes.len() <= 10);
        let (decoded, n) = read_varint(&bytes, 0).unwrap();
        assert_eq!(decoded, v);
        assert_eq!(n, bytes.len());
    }
}

#[test]
fn varint_round_trip_large_values() {
    for v in [1u64 << 62, 1 << 63, u64::MAX, u64::MAX - 1] {
        let bytes = encode_varint(v);
        assert!(bytes.len() <= 10);
        let (decoded, n) = read_varint(&bytes, 0).unwrap();
        assert_eq!(decoded, v);
        assert_eq!(n, bytes.len());
    }
    // The top bit needs all ten bytes.
    assert_eq!(encode_varint(1u64 << 63).len(), 10);
    assert_eq!(encode_varint(1u64 << 62).len(), 9);
}

#[test]
fn varint_terminator_is_final_byte() {
    // 0x81 alone: terminator set, payload 1.
    let bytes = vec![0x81u8];
    assert_eq!(read_varint(&bytes, 0), Ok((1, 1)));
    // 0x01 0x82: first byte non-terminal (1), second terminal (2): 1 | 2<<7.
    let bytes = vec![0x01u8, 0x82];
    assert_eq!(read_varint(&bytes, 0), Ok((1 | (2 << 7), 2)));
}

#[test]
fn varint_truncated_fails() {
    let bytes = vec![0x01u8, 0x02];
    assert_eq!(read_varint(&bytes, 0), Err(DecodeError::CorruptStream));
}

#[test]
fn varint_too_long_fails() {
    // Ten non-terminal bytes followed by more input: past the limit.
    let bytes = vec![0x01u8; 11];
    assert_eq!(read_varint(&bytes, 0), Err(DecodeError::VarintTooLong));
    // Ten non-terminal bytes and nothing after: the read fails first.
    let bytes = vec![0x01u8; 10];
    assert_eq!(read_varint(&bytes, 0), Err(DecodeError::CorruptStream));
}

#[test]
fn first_packet_parses() {
    // Target supervisor, ctx 7, target mode, pc 0x1000 (wire 0x800), ts 5.
    let bytes = first_packet_bytes(0b001, 7, 0x00, 0x800, 5);
    let (packet, cfg, consumed) = read_first_packet(&bytes).unwrap();
    assert_eq!(consumed, bytes.len());
    assert!(packet.f_header == FHeader::FSync);
    assert!(packet.func3 == SubFunc3::SyncType(SyncType::SyncStart));
    assert!(packet.target_prv == Prv::PrvSupervisor);
    assert_eq!(packet.target_ctx, 7);
    assert_eq!(packet.target_address, 0x800);
    assert_eq!(packet.timestamp, 5);
    assert!(cfg.br_mode == BrMode::BrTarget);
    assert_eq!(cfg.bp_entries, 0);
}

#[test]
fn first_packet_predict_cfg() {
    // br_mode predict, 64 predictor entries.
    let bytes = first_packet_bytes(0b000, 1, 0b0000_0101, 0x800, 0);
    let (_, cfg, _) = read_first_packet(&bytes).unwrap();
    assert!(cfg.br_mode == BrMode::BrPredict);
    assert_eq!(cfg.bp_entries, 64);
}

#[test]
fn predict_without_entries_rejected_at_first_packet() {
    // br_mode predict but zero predictor entries: rejected up front.
    let bytes = first_packet_bytes(0b000, 1, 0b0000_0001, 0x800, 0);
    assert_eq!(read_first_packet(&bytes), Err(DecodeError::PredictorDisabled));
}

#[test]
fn first_packet_must_be_sync_start() {
    // A taken-branch record first: refused.
    let mut bytes = vec![1u8 << 2];
    push_varint(&mut bytes, 3);
    assert_eq!(read_first_packet(&bytes), Err(DecodeError::BadFirstPacket));
}

#[test]
fn compressed_records_carry_inline_delta() {
    let mut packet = Packet::new();
    // CTb with delta 9: c_header 01, delta in the high six bits.
    let bytes = vec![(9u8 << 2) | 0b01];
    let n = read_packet(&bytes, 0, &mut packet).unwrap();
    assert_eq!(n, 1);
    assert!(packet.is_compressed);
    assert!(packet.f_header == FHeader::FTb);
    assert_eq!(packet.timestamp, 9);
}

#[test]
fn taken_branch_record_with_huge_timestamp() {
    // A non-compressed taken branch whose delta needs all ten bytes.
    let mut bytes = vec![1u8 << 2];
    push_varint(&mut bytes, 1u64 << 63);
    assert_eq!(bytes.len(), 11);
    let mut packet = Packet::new();
    let n = read_packet(&bytes, 0, &mut packet).unwrap();
    assert_eq!(n, 11);
    assert!(packet.f_header == FHeader::FTb);
    assert_eq!(packet.timestamp, 1u64 << 63);
    // A truncated copy fails as a corrupt stream.
    bytes.pop();
    let mut packet = Packet::new();
    assert_eq!(read_packet(&bytes, 0, &mut packet), Err(DecodeError::CorruptStream));
}

#[test]
fn trap_record_parses() {
    // Exception into supervisor: no context varint.
    let mut bytes = vec![(5u8 << 2) | (1 << 5)];
    bytes.push(0b1000_1000); // checksum, target supervisor, from user
    push_varint(&mut bytes, 0x802); // from address
    push_varint(&mut bytes, 0x123); // target address
    push_varint(&mut bytes, 7); // timestamp
    let mut packet = Packet::new();
    let n = read_packet(&bytes, 0, &mut packet).unwrap();
    assert_eq!(n, bytes.len());
    assert!(packet.f_header == FHeader::FTrap);
    assert!(packet.func3 == SubFunc3::TrapType(TrapType::TException));
    assert!(packet.target_prv == Prv::PrvSupervisor);
    assert_eq!(packet.from_address, 0x802);
    assert_eq!(packet.target_address, 0x123);
    assert_eq!(packet.timestamp, 7);
}

#[test]
fn trap_return_to_user_carries_context() {
    let mut bytes = vec![(5u8 << 2) | (4 << 5)];
    bytes.push(0b1000_0000); // target user, from user
    push_varint(&mut bytes, 7); // target ctx
    push_varint(&mut bytes, 0x900); // from address
    push_varint(&mut bytes, 0x456); // target address
    push_varint(&mut bytes, 42); // timestamp
    let mut packet = Packet::new();
    let n = read_packet(&bytes, 0, &mut packet).unwrap();
    assert_eq!(n, bytes.len());
    assert!(packet.func3 == SubFunc3::TrapType(TrapType::TReturn));
    assert_eq!(packet.target_ctx, 7);
    assert_eq!(packet.timestamp, 42);
}

#[test]
fn checksum_violation_is_fatal() {
    // A trap record whose privilege byte has checksum bits 0b00.
    let mut bytes = vec![(5u8 << 2) | (1 << 5)];
    bytes.push(0b0000_1000);
    push_varint(&mut bytes, 0x802);
    push_varint(&mut bytes, 0x123);
    push_varint(&mut bytes, 7);
    let mut packet = Packet::new();
    assert_eq!(read_packet(&bytes, 0, &mut packet), Err(DecodeError::BadChecksum));
}

#[test]
fn reserved_family_is_fatal() {
    // Family code 0b000 is reserved.
    let bytes = vec![0u8];
    let mut packet = Packet::new();
    assert_eq!(read_packet(&bytes, 0, &mut packet), Err(DecodeError::ReservedHeader));
}

#[test]
fn sync_start_after_first_packet_is_fatal() {
    let mut bytes = vec![(6u8 << 2) | (1 << 5)];
    bytes.push(0b1000_0000);
    push_varint(&mut bytes, 1);
    push_varint(&mut bytes, 0x800);
    push_varint(&mut bytes, 0);
    let mut packet = Packet::new();
    assert_eq!(read_packet(&bytes, 0, &mut packet), Err(DecodeError::UnexpectedSyncStart));
}

#[test]
fn non_user_from_privilege_is_refused() {
    // A mid-stream sync record whose from-privilege is supervisor.
    let mut bytes = vec![(6u8 << 2) | (4 << 5)];
    bytes.push(0b1000_0001);
    bytes.extend_from_slice(&encode_varint(1));
    bytes.extend_from_slice(&encode_varint(0x800));
    bytes.extend_from_slice(&encode_varint(0));
    let mut packet = Packet::new();
    assert_eq!(read_packet(&bytes, 0, &mut packet), Err(DecodeError::BadFromPrv));
}

#[test]
fn reserved_branch_mode_is_refused() {
    // The runtime-config byte names the reserved branch mode 0b10.
    let bytes = first_packet_bytes(0b000, 1, 0b0000_0010, 0x800, 0);
    assert_eq!(read_first_packet(&bytes), Err(DecodeError::BadRuntimeCfg));
}

#[test]
fn end_of_stream_on_record_boundary() {
    let bytes: Vec<u8> = Vec::new();
    let mut packet = Packet::new();
    assert_eq!(read_packet(&bytes, 0, &mut packet), Err(DecodeError::Eof));
}
