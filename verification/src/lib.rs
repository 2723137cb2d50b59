//! A verified CHIP-8 interpreter core: fetch-decode-execute stepping over a
//! machine of 4096 memory bytes, sixteen 8-bit registers, a 16-slot call
//! stack, two countdown timers, a 64x32 monochrome framebuffer and a 16-key
//! input panel. Host concerns (reading ROM files, mapping host keys, drawing
//! the framebuffer, pacing the clocks) live outside this library.

pub mod chip8;
pub mod decode;
pub mod keypad;
pub mod laws;
pub mod semantics;
pub mod state;

pub use chip8::Chip8;
pub use decode::Instruction;
pub use keypad::Keypad;
pub use state::Chip8Error;
pub use state::CycleEvent;
