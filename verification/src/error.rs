use vstd::prelude::*;

verus! {

/// Everything that stops the packet reader or the decoder.
///
/// `Eof` is the clean end of the stream, signalled by a short read on the
/// first byte of a record; every other variant is fatal.
#[derive(Debug, Clone, Copy, PartialEq, Eq, Structural)]
pub enum DecodeError {
    /// Clean end of stream before a record's first byte.
    Eof,
    /// Short read in the middle of a record.
    CorruptStream,
    /// A varint ran past its ten-byte limit.
    VarintTooLong,
    /// The privilege byte's two checksum bits were not 0b10.
    BadChecksum,
    /// A reserved family or sub-function code.
    ReservedHeader,
    /// The very first record was not a sync-start.
    BadFirstPacket,
    /// A sync-start record appeared after the first.
    UnexpectedSyncStart,
    /// A non-trap record carried a from-privilege other than user.
    BadFromPrv,
    /// The runtime-config byte named a reserved branch mode.
    BadRuntimeCfg,
    /// Prediction mode with zero predictor entries.
    PredictorDisabled,
    /// Straight-line stepping visited an address missing from the
    /// instruction index.
    MissingInstruction,
    /// A walk toward a known address stopped somewhere else: the trace does
    /// not match the supplied binaries.
    TraceDesync,
    /// A packet demanded an instruction kind that the instruction at the
    /// current address does not satisfy.
    WrongInsnKind,
}

} // verus!
