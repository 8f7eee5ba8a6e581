//! A verified CHIP-8 CPU core: instruction decoding, execution semantics for
//! every operation (flags, wraparound, masking), the fetch/execute cycle, and
//! the hex-digit font table. Presentation, audio, input and ROM loading live
//! outside the core and talk to it through plain values.

pub mod hexfont;
pub mod opcodes;
pub mod state;
pub mod decode;
pub mod execute;
pub mod laws;
