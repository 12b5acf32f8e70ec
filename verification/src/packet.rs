use vstd::prelude::*;
use crate::error::DecodeError;
use crate::headers::{CHeader, FHeader};
use crate::headers::{C_HEADER_MASK, C_TIMESTAMP_MASK, F_HEADER_MASK, FHEADER_OFFSET};
use crate::headers::{SUB_FUNC_MASK, SUB_FUNC_OFFSET};
use crate::prv::Prv;
use crate::runtime_cfg::{BrMode, DecoderRuntimeCfg};
use crate::sync_type::SyncType;
use crate::trap_type::TrapType;
use crate::varint::{read_varint, spec_varint_scan, varint_value, VarintScan};

verus! {

/// Sub-function carried in the high bits of a non-compressed first byte.
#[derive(Debug, Clone, Copy, PartialEq, Eq, Structural)]
pub enum SubFunc3 {
    SfNone,
    TrapType(TrapType),
    SyncType(SyncType),
}

/// Decoded form of one wire record. One packet value is reused for every
/// record: a family only overwrites the fields its body carries.
#[derive(Debug, Clone, Copy, PartialEq, Eq, Structural)]
pub struct Packet {
    pub is_compressed: bool,
    pub c_header: CHeader,
    pub f_header: FHeader,
    pub func3: SubFunc3,
    pub target_address: u64,
    pub from_address: u64,
    pub target_prv: Prv,
    pub target_ctx: u64,
    pub from_prv: Prv,
    pub timestamp: u64,
}

impl Packet {
    /// A packet with default values, before any record was read into it.
    pub open spec fn spec_new() -> Packet {
        Packet {
            is_compressed: false,
            c_header: CHeader::CNa,
            f_header: FHeader::FRes1,
            func3: SubFunc3::SfNone,
            target_address: 0,
            from_address: 0,
            target_prv: Prv::PrvUser,
            target_ctx: 0,
            from_prv: Prv::PrvUser,
            timestamp: 0,
        }
    }

    pub fn new() -> (r: Packet)
        ensures
            r == Packet::spec_new(),
    {
        Packet {
            is_compressed: false,
            c_header: CHeader::CNa,
            f_header: FHeader::FRes1,
            func3: SubFunc3::SfNone,
            target_address: 0,
            from_address: 0,
            target_prv: Prv::PrvUser,
            target_ctx: 0,
            from_prv: Prv::PrvUser,
            timestamp: 0,
        }
    }
}

/// The value and length of the varint at `pos`, or the error the reader
/// reports there.
pub open spec fn spec_read_varint(s: Seq<u8>, pos: int) -> Result<(u64, int), DecodeError> {
    match spec_varint_scan(s, pos) {
        VarintScan::Done(n) => Ok((varint_value(s.subrange(pos, pos + n)), n)),
        VarintScan::Truncated => Err(DecodeError::CorruptStream),
        VarintScan::TooLong => Err(DecodeError::VarintTooLong),
    }
}

/// The privilege pair a privilege byte stands for: from-privilege in bits
/// [2:0], target privilege in [5:3], and the constant checksum 0b10 in
/// [7:6], whose violation is fatal.
pub open spec fn spec_parse_prv(b: u8) -> Result<(Prv, Prv), DecodeError> {
    if (b >> 6) & 0b11 != 0b10 {
        Err(DecodeError::BadChecksum)
    } else {
        match (Prv::spec_from_bits((b & 0b111) as u64), Prv::spec_from_bits(
            ((b >> 3) & 0b111) as u64,
        )) {
            (Some(from_prv), Some(target_prv)) => Ok((from_prv, target_prv)),
            _ => Err(DecodeError::ReservedHeader),
        }
    }
}

/// Split a privilege byte into its from- and target-privilege fields,
/// checking the two checksum bits.
pub fn parse_prv(b: u8) -> (r: Result<(Prv, Prv), DecodeError>)
    ensures
        r == spec_parse_prv(b),
{
    if (b >> 6) & 0b11 != 0b10 {
        return Err(DecodeError::BadChecksum);
    }
    let from_bits = Prv::from_bits((b & 0b111) as u64);
    let target_bits = Prv::from_bits(((b >> 3) & 0b111) as u64);
    match (from_bits, target_bits) {
        (Some(from_prv), Some(target_prv)) => Ok((from_prv, target_prv)),
        _ => Err(DecodeError::ReservedHeader),
    }
}

/// The record starting at `pos`, as an update of the packet value `prev`,
/// together with the number of bytes it spans; or the error the reader
/// reports there. A missing first byte is the clean end of the stream; any
/// other short read is a corrupt stream.
pub open spec fn spec_read_packet(s: Seq<u8>, pos: int, prev: Packet) -> Result<
    (Packet, int),
    DecodeError,
> {
    if pos < 0 || pos >= s.len() {
        Err(DecodeError::Eof)
    } else {
        let first = s[pos];
        let c_header = CHeader::spec_from_bits(first & C_HEADER_MASK);
        if c_header != CHeader::CNa {
            Ok(
                (
                    Packet {
                        timestamp: ((first & C_TIMESTAMP_MASK) >> 2) as u64,
                        f_header: c_header.spec_family(),
                        c_header: c_header,
                        is_compressed: true,
                        ..prev
                    },
                    1,
                ),
            )
        } else {
            match FHeader::spec_from_bits((first & F_HEADER_MASK) >> FHEADER_OFFSET) {
                Some(FHeader::FTb) => spec_read_ts_body(s, pos, prev, FHeader::FTb),
                Some(FHeader::FNt) => spec_read_ts_body(s, pos, prev, FHeader::FNt),
                Some(FHeader::FIj) => spec_read_ts_body(s, pos, prev, FHeader::FIj),
                Some(FHeader::FUj) => spec_read_uj_body(s, pos, prev),
                Some(FHeader::FSync) => spec_read_sync_body(s, pos, prev, first),
                Some(FHeader::FTrap) => spec_read_trap_body(s, pos, prev, first),
                _ => Err(DecodeError::ReservedHeader),
            }
        }
    }
}

/// Body of `FTb`, `FNt` and `FIj`: one varint timestamp delta.
pub open spec fn spec_read_ts_body(s: Seq<u8>, pos: int, prev: Packet, f: FHeader) -> Result<
    (Packet, int),
    DecodeError,
> {
    match spec_read_varint(s, pos + 1) {
        Err(e) => Err(e),
        Ok((timestamp, n)) => Ok(
            (
                Packet {
                    timestamp,
                    f_header: f,
                    c_header: CHeader::CNa,
                    is_compressed: false,
                    ..prev
                },
                1 + n,
            ),
        ),
    }
}

/// Body of `FUj`: varint target address, then varint timestamp delta.
pub open spec fn spec_read_uj_body(s: Seq<u8>, pos: int, prev: Packet) -> Result<
    (Packet, int),
    DecodeError,
> {
    match spec_read_varint(s, pos + 1) {
        Err(e) => Err(e),
        Ok((target_address, n1)) => match spec_read_varint(s, pos + 1 + n1) {
            Err(e) => Err(e),
            Ok((timestamp, n2)) => Ok(
                (
                    Packet {
                        target_address,
                        timestamp,
                        f_header: FHeader::FUj,
                        c_header: CHeader::CNa,
                        is_compressed: false,
                        ..prev
                    },
                    1 + n1 + n2,
                ),
            ),
        },
    }
}

/// Body of a mid-stream `FSync`: privilege byte, varint context, varint
/// target address, varint timestamp. A sync-start may only open the stream.
pub open spec fn spec_read_sync_body(s: Seq<u8>, pos: int, prev: Packet, first: u8) -> Result<
    (Packet, int),
    DecodeError,
> {
    match SyncType::spec_from_bits((first & SUB_FUNC_MASK) >> SUB_FUNC_OFFSET) {
        None => Err(DecodeError::ReservedHeader),
        Some(SyncType::SyncStart) => Err(DecodeError::UnexpectedSyncStart),
        Some(sync_type) => {
            if pos + 1 >= s.len() {
                Err(DecodeError::CorruptStream)
            } else {
                match spec_parse_prv(s[pos + 1]) {
                    Err(e) => Err(e),
                    Ok((from_prv, target_prv)) => {
                        if from_prv != Prv::PrvUser {
                            Err(DecodeError::BadFromPrv)
                        } else {
                            match spec_read_varint(s, pos + 2) {
                                Err(e) => Err(e),
                                Ok((target_ctx, n1)) => match spec_read_varint(s, pos + 2 + n1) {
                                    Err(e) => Err(e),
                                    Ok((target_address, n2)) => match spec_read_varint(
                                        s,
                                        pos + 2 + n1 + n2,
                                    ) {
                                        Err(e) => Err(e),
                                        Ok((timestamp, n3)) => Ok(
                                            (
                                                Packet {
                                                    func3: SubFunc3::SyncType(sync_type),
                                                    from_prv,
                                                    target_prv,
                                                    target_ctx,
                                                    target_address,
                                                    timestamp,
                                                    f_header: FHeader::FSync,
                                                    c_header: CHeader::CNa,
                                                    is_compressed: false,
                                                    ..prev
                                                },
                                                2 + n1 + n2 + n3,
                                            ),
                                        ),
                                    },
                                },
                            }
                        }
                    },
                }
            }
        },
    }
}

/// Body of `FTrap`: privilege byte, varint target context only on a return
/// to user space, then varint from-address, varint target address, varint
/// timestamp.
pub open spec fn spec_read_trap_body(s: Seq<u8>, pos: int, prev: Packet, first: u8) -> Result<
    (Packet, int),
    DecodeError,
> {
    match TrapType::spec_from_bits((first & SUB_FUNC_MASK) >> SUB_FUNC_OFFSET) {
        None => Err(DecodeError::ReservedHeader),
        Some(trap_type) => {
            if pos + 1 >= s.len() {
                Err(DecodeError::CorruptStream)
            } else {
                match spec_parse_prv(s[pos + 1]) {
                    Err(e) => Err(e),
                    Ok((from_prv, target_prv)) => {
                        let has_ctx = trap_type == TrapType::TReturn && target_prv
                            == Prv::PrvUser;
                        let ctx_parse = if has_ctx {
                            spec_read_varint(s, pos + 2)
                        } else {
                            Ok((prev.target_ctx, 0))
                        };
                        match ctx_parse {
                            Err(e) => Err(e),
                            Ok((target_ctx, n0)) => match spec_read_varint(s, pos + 2 + n0) {
                                Err(e) => Err(e),
                                Ok((from_address, n1)) => match spec_read_varint(
                                    s,
                                    pos + 2 + n0 + n1,
                                ) {
                                    Err(e) => Err(e),
                                    Ok((target_address, n2)) => match spec_read_varint(
                                        s,
                                        pos + 2 + n0 + n1 + n2,
                                    ) {
                                        Err(e) => Err(e),
                                        Ok((timestamp, n3)) => Ok(
                                            (
                                                Packet {
                                                    func3: SubFunc3::TrapType(trap_type),
                                                    from_prv,
                                                    target_prv,
                                                    target_ctx,
                                                    from_address,
                                                    target_address,
                                                    timestamp,
                                                    f_header: FHeader::FTrap,
                                                    c_header: CHeader::CNa,
                                                    is_compressed: false,
                                                    ..prev
                                                },
                                                2 + n0 + n1 + n2 + n3,
                                            ),
                                        ),
                                    },
                                },
                            },
                        }
                    },
                }
            }
        },
    }
}

/// Read the body of `FTb`, `FNt` or `FIj`.
fn read_ts_body(buf: &[u8], pos: usize, f: FHeader, packet: &mut Packet) -> (r: Result<
    usize,
    DecodeError,
>)
    requires
        pos < buf@.len(),
        buf@.len() <= usize::MAX,
    ensures
        match spec_read_ts_body(buf@, pos as int, *old(packet), f) {
            Ok((p, n)) => r == Ok::<usize, DecodeError>(n as usize) && *final(packet) == p,
            Err(e) => r == Err::<usize, DecodeError>(e),
        },
{
    let (timestamp, n) = match read_varint(buf, pos + 1) {
        Ok(v) => v,
        Err(e) => {
            return Err(e);
        },
    };
    packet.timestamp = timestamp;
    packet.f_header = f;
    packet.c_header = CHeader::CNa;
    packet.is_compressed = false;
    Ok(1 + n)
}

/// Read the body of `FUj`.
fn read_uj_body(buf: &[u8], pos: usize, packet: &mut Packet) -> (r: Result<usize, DecodeError>)
    requires
        pos < buf@.len(),
        buf@.len() <= usize::MAX,
    ensures
        match spec_read_uj_body(buf@, pos as int, *old(packet)) {
            Ok((p, n)) => r == Ok::<usize, DecodeError>(n as usize) && *final(packet) == p,
            Err(e) => r == Err::<usize, DecodeError>(e),
        },
{
    let (target_address, n1) = match read_varint(buf, pos + 1) {
        Ok(v) => v,
        Err(e) => {
            return Err(e);
        },
    };
    let (timestamp, n2) = match read_varint(buf, pos + 1 + n1) {
        Ok(v) => v,
        Err(e) => {
            return Err(e);
        },
    };
    packet.target_address = target_address;
    packet.timestamp = timestamp;
    packet.f_header = FHeader::FUj;
    packet.c_header = CHeader::CNa;
    packet.is_compressed = false;
    Ok(1 + n1 + n2)
}

/// Read the body of a mid-stream `FSync`.
fn read_sync_body(buf: &[u8], pos: usize, first: u8, packet: &mut Packet) -> (r: Result<
    usize,
    DecodeError,
>)
    requires
        pos < buf@.len(),
        buf@.len() <= usize::MAX,
        ((first & SUB_FUNC_MASK) >> SUB_FUNC_OFFSET) < 8,
    ensures
        match spec_read_sync_body(buf@, pos as int, *old(packet), first) {
            Ok((p, n)) => r == Ok::<usize, DecodeError>(n as usize) && *final(packet) == p,
            Err(e) => r == Err::<usize, DecodeError>(e),
        },
{
    let sync_type = match SyncType::from_bits((first & SUB_FUNC_MASK) >> SUB_FUNC_OFFSET) {
        Some(st) => st,
        None => {
            return Err(DecodeError::ReservedHeader);
        },
    };
    if sync_type == SyncType::SyncStart {
        return Err(DecodeError::UnexpectedSyncStart);
    }
    if pos + 1 >= buf.len() {
        return Err(DecodeError::CorruptStream);
    }
    let (from_prv, target_prv) = match parse_prv(buf[pos + 1]) {
        Ok(v) => v,
        Err(e) => {
            return Err(e);
        },
    };
    if from_prv != Prv::PrvUser {
        return Err(DecodeError::BadFromPrv);
    }
    let (target_ctx, n1) = match read_varint(buf, pos + 2) {
        Ok(v) => v,
        Err(e) => {
            return Err(e);
        },
    };
    let (target_address, n2) = match read_varint(buf, pos + 2 + n1) {
        Ok(v) => v,
        Err(e) => {
            return Err(e);
        },
    };
    let (timestamp, n3) = match read_varint(buf, pos + 2 + n1 + n2) {
        Ok(v) => v,
        Err(e) => {
            return Err(e);
        },
    };
    packet.func3 = SubFunc3::SyncType(sync_type);
    packet.from_prv = from_prv;
    packet.target_prv = target_prv;
    packet.target_ctx = target_ctx;
    packet.target_address = target_address;
    packet.timestamp = timestamp;
    packet.f_header = FHeader::FSync;
    packet.c_header = CHeader::CNa;
    packet.is_compressed = false;
    Ok(2 + n1 + n2 + n3)
}

/// Read the body of `FTrap`.
#[verifier::rlimit(100)]
fn read_trap_body(buf: &[u8], pos: usize, first: u8, packet: &mut Packet) -> (r: Result<
    usize,
    DecodeError,
>)
    requires
        pos < buf@.len(),
        buf@.len() <= usize::MAX,
        ((first & SUB_FUNC_MASK) >> SUB_FUNC_OFFSET) < 8,
    ensures
        match spec_read_trap_body(buf@, pos as int, *old(packet), first) {
            Ok((p, n)) => r == Ok::<usize, DecodeError>(n as usize) && *final(packet) == p,
            Err(e) => r == Err::<usize, DecodeError>(e),
        },
{
    let trap_type = match TrapType::from_bits((first & SUB_FUNC_MASK) >> SUB_FUNC_OFFSET) {
        Some(tt) => tt,
        None => {
            return Err(DecodeError::ReservedHeader);
        },
    };
    if pos + 1 >= buf.len() {
        return Err(DecodeError::CorruptStream);
    }
    let (from_prv, target_prv) = match parse_prv(buf[pos + 1]) {
        Ok(v) => v,
        Err(e) => {
            return Err(e);
        },
    };
    let mut n0: usize = 0;
    if trap_type == TrapType::TReturn && target_prv == Prv::PrvUser {
        let (target_ctx, n) = match read_varint(buf, pos + 2) {
            Ok(v) => v,
            Err(e) => {
                return Err(e);
            },
        };
        packet.target_ctx = target_ctx;
        n0 = n;
    }
    let (from_address, n1) = match read_varint(buf, pos + 2 + n0) {
        Ok(v) => v,
        Err(e) => {
            return Err(e);
        },
    };
    let (target_address, n2) = match read_varint(buf, pos + 2 + n0 + n1) {
        Ok(v) => v,
        Err(e) => {
            return Err(e);
        },
    };
    let (timestamp, n3) = match read_varint(buf, pos + 2 + n0 + n1 + n2) {
        Ok(v) => v,
        Err(e) => {
            return Err(e);
        },
    };
    packet.func3 = SubFunc3::TrapType(trap_type);
    packet.from_prv = from_prv;
    packet.target_prv = target_prv;
    packet.from_address = from_address;
    packet.target_address = target_address;
    packet.timestamp = timestamp;
    packet.f_header = FHeader::FTrap;
    packet.c_header = CHeader::CNa;
    packet.is_compressed = false;
    Ok(2 + n0 + n1 + n2 + n3)
}

/// Read one record from `buf` at `pos` into `packet`, returning the number
/// of bytes the record spans.
pub fn read_packet(buf: &[u8], pos: usize, packet: &mut Packet) -> (r: Result<usize, DecodeError>)
    requires
        pos <= buf@.len(),
    ensures
        match spec_read_packet(buf@, pos as int, *old(packet)) {
            Ok((p, n)) => r == Ok::<usize, DecodeError>(n as usize) && *final(packet) == p,
            Err(e) => r == Err::<usize, DecodeError>(e),
        },
{
    if pos >= buf.len() {
        return Err(DecodeError::Eof);
    }
    let first = buf[pos];
    proof {
        assert((first & C_HEADER_MASK) < 4 && ((first & F_HEADER_MASK) >> FHEADER_OFFSET) < 8 && ((
        first & SUB_FUNC_MASK) >> SUB_FUNC_OFFSET) < 8) by (bit_vector);
    }
    let c_header = CHeader::from_bits(first & C_HEADER_MASK);
    if c_header != CHeader::CNa {
        packet.timestamp = ((first & C_TIMESTAMP_MASK) >> 2) as u64;
        packet.f_header = c_header.family();
        packet.c_header = c_header;
        packet.is_compressed = true;
        return Ok(1);
    }
    let f_header = match FHeader::from_bits((first & F_HEADER_MASK) >> FHEADER_OFFSET) {
        Some(f) => f,
        None => {
            return Err(DecodeError::ReservedHeader);
        },
    };
    match f_header {
        FHeader::FTb | FHeader::FNt | FHeader::FIj => read_ts_body(buf, pos, f_header, packet),
        FHeader::FUj => read_uj_body(buf, pos, packet),
        FHeader::FSync => read_sync_body(buf, pos, first, packet),
        FHeader::FTrap => read_trap_body(buf, pos, first, packet),
        _ => Err(DecodeError::ReservedHeader),
    }
}

/// The first record of a stream together with the runtime configuration it
/// carries, and the number of bytes it spans. The record must be a
/// non-compressed sync-start: privilege byte, varint context, runtime-config
/// byte, varint target address, varint timestamp. A prediction-mode stream
/// with a disabled predictor is rejected here, at first-packet time.
pub open spec fn spec_read_first_packet(s: Seq<u8>) -> Result<
    (Packet, DecoderRuntimeCfg, int),
    DecodeError,
> {
    if s.len() == 0 {
        Err(DecodeError::Eof)
    } else {
        let first = s[0];
        if CHeader::spec_from_bits(first & C_HEADER_MASK) != CHeader::CNa {
            Err(DecodeError::BadFirstPacket)
        } else if FHeader::spec_from_bits((first & F_HEADER_MASK) >> FHEADER_OFFSET) != Some(
            FHeader::FSync,
        ) {
            Err(DecodeError::BadFirstPacket)
        } else {
            match SyncType::spec_from_bits((first & SUB_FUNC_MASK) >> SUB_FUNC_OFFSET) {
                None => Err(DecodeError::ReservedHeader),
                Some(sync_type) => {
                    if sync_type != SyncType::SyncStart {
                        Err(DecodeError::BadFirstPacket)
                    } else if s.len() < 2 {
                        Err(DecodeError::CorruptStream)
                    } else {
                        match spec_parse_prv(s[1]) {
                            Err(e) => Err(e),
                            Ok((from_prv, target_prv)) => {
                                if from_prv != Prv::PrvUser {
                                    Err(DecodeError::BadFromPrv)
                                } else {
                                    spec_read_first_tail(s, from_prv, target_prv)
                                }
                            },
                        }
                    }
                },
            }
        }
    }
}

/// Tail of the first record, after its privilege byte.
pub open spec fn spec_read_first_tail(s: Seq<u8>, from_prv: Prv, target_prv: Prv) -> Result<
    (Packet, DecoderRuntimeCfg, int),
    DecodeError,
> {
    match spec_read_varint(s, 2) {
        Err(e) => Err(e),
        Ok((target_ctx, n1)) => {
            if 2 + n1 >= s.len() {
                Err(DecodeError::CorruptStream)
            } else {
                match DecoderRuntimeCfg::spec_from_byte(s[2 + n1]) {
                    None => Err(DecodeError::BadRuntimeCfg),
                    Some(cfg) => {
                        if cfg.br_mode == BrMode::BrPredict && cfg.bp_entries == 0 {
                            Err(DecodeError::PredictorDisabled)
                        } else {
                            match spec_read_varint(s, 3 + n1) {
                                Err(e) => Err(e),
                                Ok((target_address, n2)) => match spec_read_varint(
                                    s,
                                    3 + n1 + n2,
                                ) {
                                    Err(e) => Err(e),
                                    Ok((timestamp, n3)) => Ok(
                                        (
                                            Packet {
                                                func3: SubFunc3::SyncType(SyncType::SyncStart),
                                                from_prv,
                                                target_prv,
                                                target_ctx,
                                                target_address,
                                                timestamp,
                                                f_header: FHeader::FSync,
                                                c_header: CHeader::CNa,
                                                is_compressed: false,
                                                ..Packet::spec_new()
                                            },
                                            cfg,
                                            3 + n1 + n2 + n3,
                                        ),
                                    ),
                                },
                            }
                        }
                    },
                }
            }
        },
    }
}

/// Read the opening sync-start record and the runtime configuration.
pub fn read_first_packet(buf: &[u8]) -> (r: Result<(Packet, DecoderRuntimeCfg, usize), DecodeError>)
    ensures
        match spec_read_first_packet(buf@) {
            Ok((p, cfg, n)) => r == Ok::<(Packet, DecoderRuntimeCfg, usize), DecodeError>(
                (p, cfg, n as usize),
            ),
            Err(e) => r == Err::<(Packet, DecoderRuntimeCfg, usize), DecodeError>(e),
        },
{
    if buf.len() == 0 {
        return Err(DecodeError::Eof);
    }
    let first = buf[0];
    proof {
        assert((first & C_HEADER_MASK) < 4 && ((first & F_HEADER_MASK) >> FHEADER_OFFSET) < 8 && ((
        first & SUB_FUNC_MASK) >> SUB_FUNC_OFFSET) < 8) by (bit_vector);
    }
    let mut packet = Packet::new();
    if CHeader::from_bits(first & C_HEADER_MASK) != CHeader::CNa {
        return Err(DecodeError::BadFirstPacket);
    }
    match FHeader::from_bits((first & F_HEADER_MASK) >> FHEADER_OFFSET) {
        Some(FHeader::FSync) => {},
        _ => {
            return Err(DecodeError::BadFirstPacket);
        },
    }
    let sync_type = match SyncType::from_bits((first & SUB_FUNC_MASK) >> SUB_FUNC_OFFSET) {
        Some(st) => st,
        None => {
            return Err(DecodeError::ReservedHeader);
        },
    };
    if sync_type != SyncType::SyncStart {
        return Err(DecodeError::BadFirstPacket);
    }
    if buf.len() < 2 {
        return Err(DecodeError::CorruptStream);
    }
    let (from_prv, target_prv) = match parse_prv(buf[1]) {
        Ok(v) => v,
        Err(e) => {
            return Err(e);
        },
    };
    if from_prv != Prv::PrvUser {
        return Err(DecodeError::BadFromPrv);
    }
    let (target_ctx, n1) = match read_varint(buf, 2) {
        Ok(v) => v,
        Err(e) => {
            return Err(e);
        },
    };
    if 2 + n1 >= buf.len() {
        return Err(DecodeError::CorruptStream);
    }
    let cfg = match DecoderRuntimeCfg::from_byte(buf[2 + n1]) {
        Some(cfg) => cfg,
        None => {
            return Err(DecodeError::BadRuntimeCfg);
        },
    };
    if cfg.br_mode == BrMode::BrPredict && cfg.bp_entries == 0 {
        return Err(DecodeError::PredictorDisabled);
    }
    let (target_address, n2) = match read_varint(buf, 3 + n1) {
        Ok(v) => v,
        Err(e) => {
            return Err(e);
        },
    };
    let (timestamp, n3) = match read_varint(buf, 3 + n1 + n2) {
        Ok(v) => v,
        Err(e) => {
            return Err(e);
        },
    };
    packet.func3 = SubFunc3::SyncType(sync_type);
    packet.from_prv = from_prv;
    packet.target_prv = target_prv;
    packet.target_ctx = target_ctx;
    packet.target_address = target_address;
    packet.timestamp = timestamp;
    packet.f_header = FHeader::FSync;
    packet.c_header = CHeader::CNa;
    Ok((packet, cfg, 3 + n1 + n2 + n3))
}

} // verus!
