use vstd::prelude::*;
use crate::error::DecodeError;

verus! {

pub const VAR_MASK: u8 = 0b1000_0000;
pub const VAR_LAST: u8 = 0b1000_0000;
pub const VAR_OFFSET: u8 = 7;
pub const VAR_VAL_MASK: u8 = 0b0111_1111;

/// Longest admissible varint, in bytes.
pub const VARINT_MAX_LEN: usize = 10;

/// The value a run of varint bytes stands for: each byte contributes its low
/// seven bits, least-significant byte first; bits beyond 64 are dropped.
pub open spec fn varint_value(s: Seq<u8>) -> u64
    decreases s.len(),
{
    if s.len() == 0 {
        0
    } else {
        ((s[0] & VAR_VAL_MASK) as u64) | (varint_value(s.skip(1)) << 7)
    }
}

/// How scanning for a varint at some position ends.
pub enum VarintScan {
    /// A terminator byte was found; the varint spans this many bytes.
    Done(int),
    /// The buffer ran out before a terminator byte.
    Truncated,
    /// Ten bytes passed without a terminator while more input remained.
    TooLong,
}

/// Scan for the varint terminator, having already taken `taken` bytes. The
/// reader gives up after ten bytes; a missing byte is noticed before the
/// length limit is, because the read comes first.
pub open spec fn varint_scan_from(s: Seq<u8>, pos: int, taken: int) -> VarintScan
    decreases 10 - taken,
{
    if pos < 0 || pos >= s.len() {
        VarintScan::Truncated
    } else if taken >= 10 {
        VarintScan::TooLong
    } else if s[pos] & VAR_MASK == VAR_LAST {
        VarintScan::Done(taken + 1)
    } else {
        varint_scan_from(s, pos + 1, taken + 1)
    }
}

pub open spec fn spec_varint_scan(s: Seq<u8>, pos: int) -> VarintScan {
    varint_scan_from(s, pos, 0)
}

/// Read one varint from `buf` starting at `pos`.
///
/// Returns the decoded value and the number of bytes consumed; fails with
/// `CorruptStream` on a short read and with `VarintTooLong` past the
/// ten-byte limit.
pub fn read_varint(buf: &[u8], pos: usize) -> (r: Result<(u64, usize), DecodeError>)
    requires
        pos <= buf@.len(),
    ensures
        match spec_varint_scan(buf@, pos as int) {
            VarintScan::Done(n) => 1 <= n <= 10 && pos + n <= buf@.len() && r == Ok::<
                (u64, usize),
                DecodeError,
            >((varint_value(buf@.subrange(pos as int, pos + n)), n as usize)),
            VarintScan::Truncated => r == Err::<(u64, usize), DecodeError>(
                DecodeError::CorruptStream,
            ),
            VarintScan::TooLong => r == Err::<(u64, usize), DecodeError>(
                DecodeError::VarintTooLong,
            ),
        },
{
    let remaining: usize = buf.len() - pos;
    let mut count: usize = 0;
    loop
        invariant_except_break
            pos + remaining == buf@.len(),
            buf@.len() <= usize::MAX,
            count <= 10,
            count <= remaining,
            spec_varint_scan(buf@, pos as int) == varint_scan_from(
                buf@,
                pos + count,
                count as int,
            ),
        ensures
            1 <= count <= 10,
            pos + count <= buf@.len(),
            spec_varint_scan(buf@, pos as int) == VarintScan::Done(count as int),
        decreases remaining - count,
    {
        if count >= remaining {
            return Err(DecodeError::CorruptStream);
        }
        let byte = buf[pos + count];
        if count == VARINT_MAX_LEN {
            return Err(DecodeError::VarintTooLong);
        }
        count = count + 1;
        if byte & VAR_MASK == VAR_LAST {
            break;
        }
    }
    let mut value: u64 = 0;
    let mut i: usize = count;
    while i > 0
        invariant
            pos + count <= buf@.len(),
            buf@.len() <= usize::MAX,
            i <= count,
            value == varint_value(buf@.subrange(pos + i, pos + count)),
        decreases i,
    {
        i = i - 1;
        let byte = buf[pos + i];
        value = (value << 7) | ((byte & VAR_VAL_MASK) as u64);
        proof {
            let whole = buf@.subrange(pos + i, pos + count);
            assert(whole.skip(1) =~= buf@.subrange(pos + i + 1, pos + count));
            assert(whole[0] == byte);
            let tail = varint_value(whole.skip(1));
            assert((tail << 7) | ((byte & VAR_VAL_MASK) as u64) == ((byte & VAR_VAL_MASK) as u64)
                | (tail << 7)) by (bit_vector);
        }
    }
    Ok((value, count))
}

/// Number of bytes the encoder emits for a value.
pub open spec fn spec_varint_len(v: u64) -> int
    decreases v,
    via spec_varint_len_decreases
{
    if v < 0x80 {
        1
    } else {
        1 + spec_varint_len(v >> 7)
    }
}

#[via_fn]
proof fn spec_varint_len_decreases(v: u64) {
    assert(v >= 0x80 ==> (v >> 7) < v) by (bit_vector);
}

/// No value takes more than ten bytes: nine seven-bit shifts empty any
/// 64-bit value.
pub proof fn lemma_varint_len_bound(v: u64)
    ensures
        1 <= spec_varint_len(v) <= 10,
        spec_varint_len(v >> 7) <= 9,
{
    let v1 = v >> 7;
    let v2 = v1 >> 7;
    let v3 = v2 >> 7;
    let v4 = v3 >> 7;
    let v5 = v4 >> 7;
    let v6 = v5 >> 7;
    let v7 = v6 >> 7;
    let v8 = v7 >> 7;
    let v9 = v8 >> 7;
    assert(v9 < 0x80) by (bit_vector)
        requires
            v9 == ((((((((v >> 7) >> 7) >> 7) >> 7) >> 7) >> 7) >> 7) >> 7) >> 7,
    ;
    assert(spec_varint_len(v9) == 1);
    assert(spec_varint_len(v8) <= 2);
    assert(spec_varint_len(v7) <= 3);
    assert(spec_varint_len(v6) <= 4);
    assert(spec_varint_len(v5) <= 5);
    assert(spec_varint_len(v4) <= 6);
    assert(spec_varint_len(v3) <= 7);
    assert(spec_varint_len(v2) <= 8);
    assert(spec_varint_len(v1) <= 9);
    assert(spec_varint_len(v) <= 10);
}

/// A successful scan of a buffer's tail extends to the whole buffer when one
/// more non-terminal byte stands in front, as long as the combined length
/// stays within the ten-byte limit. The scan also never finds a terminator
/// before it has taken at least one byte past where it started.
proof fn lemma_scan_tail(s: Seq<u8>, rest: Seq<u8>, i: int, taken: int, n: int)
    requires
        s.len() == 1 + rest.len(),
        s.skip(1) =~= rest,
        0 <= i,
        0 <= taken,
        n <= 9,
        varint_scan_from(rest, i, taken) == VarintScan::Done(n),
    ensures
        varint_scan_from(s, 1 + i, 1 + taken) == VarintScan::Done(n + 1),
        n >= taken + 1,
    decreases 10 - taken,
{
    assert(i < rest.len());
    assert(taken < 10);
    assert(s[1 + i] == rest[i]);
    if rest[i] & VAR_MASK == VAR_LAST {
        assert(n == taken + 1);
    } else {
        lemma_scan_tail(s, rest, i + 1, taken + 1, n);
    }
}

/// Encode a value in the varint form the reader accepts: low seven bits per
/// byte, least-significant first, the high bit set on the final byte.
///
/// The result spans at most ten bytes and scans back to the value it was
/// built from, for every 64-bit value: the round-trip law of the wire
/// format's integer encoding.
pub fn encode_varint(v: u64) -> (r: Vec<u8>)
    ensures
        r@.len() == spec_varint_len(v),
        1 <= r@.len() <= 10,
        spec_varint_scan(r@, 0) == VarintScan::Done(r@.len() as int),
        varint_value(r@) == v,
    decreases v,
{
    proof {
        lemma_varint_len_bound(v);
    }
    if v < 0x80 {
        let mut out: Vec<u8> = Vec::new();
        out.push((v as u8) | VAR_LAST);
        proof {
            assert(out@.skip(1) =~= Seq::<u8>::empty());
            assert(varint_value(Seq::<u8>::empty()) == 0);
            assert(((((v as u8) | 0x80u8) & 0x7fu8) as u64) | (0u64 << 7) == v) by (bit_vector)
                requires
                    v < 0x80u64,
            ;
            assert((((v as u8) | 0x80u8) & 0x80u8) == 0x80u8) by (bit_vector);
        }
        out
    } else {
        proof {
            assert((v >> 7) < v) by (bit_vector)
                requires
                    v >= 0x80u64,
            ;
        }
        let rest = encode_varint(v >> 7);
        let mut out: Vec<u8> = Vec::new();
        let first: u8 = #[verifier::truncate] ((v & 0x7f) as u8);
        out.push(first);
        let mut k: usize = 0;
        while k < rest.len()
            invariant
                out@.len() == 1 + k,
                k <= rest@.len(),
                out@[0] == first,
                out@.skip(1) =~= rest@.subrange(0, k as int),
            decreases rest@.len() - k,
        {
            out.push(rest[k]);
            k = k + 1;
            proof {
                assert(out@.skip(1) =~= rest@.subrange(0, k as int));
            }
        }
        proof {
            assert(out@.skip(1) =~= rest@);
            assert((first & VAR_MASK) != VAR_LAST) by (bit_vector)
                requires
                    first == (v & 0x7f) as u8,
            ;
            lemma_scan_tail(out@, rest@, 0, 0, rest@.len() as int);
            let tail = varint_value(rest@);
            assert(((first & 0x7fu8) as u64) | (tail << 7) == v) by (bit_vector)
                requires
                    first == (v & 0x7f) as u8,
                    tail == v >> 7,
            ;
        }
        out
    }
}

} // verus!
