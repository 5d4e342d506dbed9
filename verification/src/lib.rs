//! A toy-computer toolchain core: a fixed-width unsigned value type, an
//! instruction set with a bit-exact binary encoding, a two-pass assembler
//! backend with accumulating diagnostics, and a tick-driven device
//! simulation substrate built around shared, tick-stamped value stores.

pub mod arch;
pub mod backend;
pub mod device;
pub mod splitter;
pub mod store;
pub mod node;
pub mod instruction;
pub mod un;
