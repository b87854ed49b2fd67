//! Core of a CHIP-8 family interpreter covering the classic CHIP-8, the
//! SUPER-CHIP extension and XO-Chip.  The library decodes and executes 16-bit
//! opcodes against an in-memory machine state; all timing, rendering and I/O
//! is left to the caller, which drives the interpreter one instruction at a
//! time.

pub mod cli;
pub mod color;
mod display;
mod exec;
pub mod font;
pub mod laws;
mod ops;
pub mod quirks;
mod rng;
pub mod semantics;
pub mod state;

pub use cli::Args;
pub use cli::CLIVariant;
pub use color::hex_to_rgb;
pub use quirks::EmuConfig;
pub use quirks::Variant;
pub use state::BitPlane;
pub use state::EmuError;
pub use state::Emulator;
pub use state::PATTERN_BUFFER_SIZE;
