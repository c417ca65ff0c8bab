//! An interpreter for a small fantasy console: 4 KiB of memory, sixteen 8-bit
//! registers, an index register, a sixteen-entry call stack, two countdown
//! timers, a 64 x 32 monochrome display and a sixteen-key keypad.
//!
//! Every operation states its effect on the abstract machine state
//! [`CpuState`] and is proved to meet it.

mod rng;

pub mod error;
pub mod instruction;
pub mod semantics;
pub mod cpu;
pub mod laws;

pub use cpu::Cpu;
pub use semantics::CpuState;
pub use error::CpuError;
pub use instruction::Instruction;
pub use instruction::decode;
pub use semantics::SCREEN_WIDTH;
pub use semantics::SCREEN_HEIGHT;
