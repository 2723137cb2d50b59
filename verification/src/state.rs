use vstd::prelude::*;

verus! {

/// Size of the byte-addressable memory: addresses 0x000 through 0xFFF.
pub const RAM_SIZE: usize = 4096;
/// Number of general-purpose 8-bit registers, V0 through VF.
pub const NUM_REGISTERS: usize = 16;
/// Maximum depth of the call stack.
pub const STACK_DEPTH: usize = 16;
/// Framebuffer width in pixels.
pub const SCREEN_WIDTH: usize = 64;
/// Framebuffer height in pixels.
pub const SCREEN_HEIGHT: usize = 32;
/// Number of pixel cells in the framebuffer.
pub const SCREEN_CELLS: usize = 2048;
/// Number of keys on the input panel.
pub const NUM_KEYS: usize = 16;
/// Address at which a loaded program begins.
pub const START_ADDRESS: u16 = 0x200;
/// Number of bytes of the font sprite table: 16 glyphs of 5 bytes each.
pub const FONT_BYTES: usize = 80;

/// The mathematical model of the whole machine: every contract speaks of
/// values of this shape.
pub ghost struct Chip8View {
    /// The 4096 memory bytes.
    pub mem: Seq<u8>,
    /// The 16 general-purpose registers V0..=VF.
    pub regs: Seq<u8>,
    /// The 16-bit index register, kept within the 12-bit address space.
    pub index: u16,
    /// The program counter: address of the next opcode to fetch.
    pub pc: u16,
    /// Return addresses of the calls in progress, innermost last.
    pub stack: Seq<u16>,
    /// The 64x32 framebuffer, row-major: cell (x, y) at index y * 64 + x.
    pub display: Seq<bool>,
    /// The 16 key states, written by the host, read by the interpreter.
    pub keys: Seq<bool>,
    /// The delay countdown timer.
    pub delay: u8,
    /// The sound countdown timer.
    pub sound: u8,
    /// Raised whenever the framebuffer is written, for the renderer.
    pub update_screen: bool,
}

/// Shape every reachable machine state keeps: fixed sizes for the state
/// containers, the stack within its depth limit, and the index register
/// within the 12-bit address space (index arithmetic wraps at 0x1000).
pub open spec fn view_wf(v: Chip8View) -> bool {
    &&& v.mem.len() == RAM_SIZE
    &&& v.regs.len() == NUM_REGISTERS
    &&& v.stack.len() <= STACK_DEPTH
    &&& v.display.len() == SCREEN_CELLS
    &&& v.keys.len() == NUM_KEYS
    &&& v.index < 0x1000
}

/// The fixed font sprite table: one 5-byte glyph for each hexadecimal digit,
/// written at address 0x000 when the machine is created.
pub open spec fn font_seq() -> Seq<u8> {
    seq![
        0xF0u8, 0x90, 0x90, 0x90, 0xF0, // 0
        0x20, 0x60, 0x20, 0x20, 0x70, // 1
        0xF0, 0x10, 0xF0, 0x80, 0xF0, // 2
        0xF0, 0x10, 0xF0, 0x10, 0xF0, // 3
        0x90, 0x90, 0xF0, 0x10, 0x10, // 4
        0xF0, 0x80, 0xF0, 0x10, 0xF0, // 5
        0xF0, 0x80, 0xF0, 0x90, 0xF0, // 6
        0xF0, 0x10, 0x20, 0x40, 0x40, // 7
        0xF0, 0x90, 0xF0, 0x90, 0xF0, // 8
        0xF0, 0x90, 0xF0, 0x10, 0xF0, // 9
        0xF0, 0x90, 0xF0, 0x90, 0x90, // A
        0xE0, 0x90, 0xE0, 0x90, 0xE0, // B
        0xF0, 0x80, 0x80, 0x80, 0xF0, // C
        0xE0, 0x90, 0x90, 0x90, 0xE0, // D
        0xF0, 0x80, 0xF0, 0x80, 0xF0, // E
        0xF0, 0x80, 0xF0, 0x80, 0x80, // F
    ]
}

/// The state a freshly created machine is in: font table at 0x000, the rest
/// of memory zero, all registers and timers zero, the program counter at the
/// program start address, empty stack, dark screen, no key pressed.
pub open spec fn initial_view() -> Chip8View {
    Chip8View {
        mem: font_seq() + Seq::new((RAM_SIZE - FONT_BYTES) as nat, |i: int| 0u8),
        regs: Seq::new(NUM_REGISTERS as nat, |i: int| 0u8),
        index: 0,
        pc: START_ADDRESS,
        stack: Seq::empty(),
        display: Seq::new(SCREEN_CELLS as nat, |i: int| false),
        keys: Seq::new(NUM_KEYS as nat, |i: int| false),
        delay: 0,
        sound: 0,
        update_screen: false,
    }
}

/// The recoverable outcome of one cycle: either an instruction ran, or the
/// opcode matched no defined instruction and was stepped over.
#[derive(Clone, Copy, Debug, PartialEq, Eq, Structural)]
pub enum CycleEvent {
    /// The fetched opcode decoded to a defined instruction and was executed.
    Executed,
    /// The fetched opcode matches no defined instruction; the program
    /// counter advanced past it and the machine is otherwise unchanged.
    UnknownOpcode(u16),
}

/// The terminal faults: a corrupted or malicious program drove the machine
/// outside its discipline, and the session cannot continue.
#[derive(Clone, Copy, Debug, PartialEq, Eq, Structural)]
pub enum Chip8Error {
    /// A call was made with all 16 stack slots already occupied.
    StackOverflow,
    /// A return was executed with no call in progress.
    StackUnderflow,
    /// An instruction would read or write outside the 4096 memory bytes.
    MemoryOutOfRange,
    /// A program longer than the space from 0x200 to the top of memory.
    RomTooLarge,
}

} // verus!
