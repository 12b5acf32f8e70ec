//! Reconstruction of RISC-V instruction-level execution history from a
//! compact control-flow trace stream.
//!
//! The decoder replays straight-line code against pre-disassembled images of
//! the running binaries, guided only by control-flow-change packets, and emits
//! a typed event stream that analysis sinks consume.

pub mod error;
pub mod prv;
pub mod ctx_mode;
pub mod sync_type;
pub mod trap_type;
pub mod headers;
pub mod runtime_cfg;
pub mod insn;
pub mod pc;
pub mod varint;
pub mod event;
pub mod packet;
pub mod bp;
pub mod dasm;
pub mod insn_index;
pub mod decoder_cache;
pub mod decoder;
pub mod symbol_index;
pub mod stack_unwinder;
pub mod sinks;
pub mod path_profile;
pub mod speedscope;
pub mod static_cfg;
