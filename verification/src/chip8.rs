use vstd::prelude::*;

use crate::decode::Instruction;
use crate::decode::decode;
use crate::decode::spec_decode;
use crate::keypad::Keypad;
use crate::semantics::cycle_spec;
use crate::semantics::draw_collision;
use crate::semantics::draw_disp;
use crate::semantics::execute_spec;
use crate::semantics::fetch;
use crate::semantics::lemma_first_pressed_is;
use crate::semantics::load_regs_regs;
use crate::semantics::row_collision;
use crate::semantics::row_disp;
use crate::semantics::store_regs_mem;
use crate::state::CycleEvent;
use crate::state::Chip8Error;
use crate::state::Chip8View;
use crate::state::FONT_BYTES;
use crate::state::NUM_REGISTERS;
use crate::state::RAM_SIZE;
use crate::state::SCREEN_CELLS;
use crate::state::STACK_DEPTH;
use crate::state::START_ADDRESS;
use crate::state::font_seq;
use crate::state::initial_view;
use crate::state::view_wf;

verus! {

/// The whole machine: one aggregate owned by the caller, mutated only by the
/// cycle and tick entry points (and the host-facing key and ROM interfaces).
pub struct Chip8 {
    memory: Vec<u8>,
    registers: Vec<u8>,
    index_register: u16,
    program_counter: u16,
    stack: Vec<u16>,
    display_buffer: Vec<bool>,
    keypad: Keypad,
    delay_timer: u8,
    sound_timer: u8,
    /// Raised whenever the framebuffer is written; the renderer clears it.
    pub update_screen: bool,
}

impl View for Chip8 {
    type V = Chip8View;

    closed spec fn view(&self) -> Chip8View {
        Chip8View {
            mem: self.memory@,
            regs: self.registers@,
            index: self.index_register,
            pc: self.program_counter,
            stack: self.stack@,
            display: self.display_buffer@,
            keys: self.keypad@,
            delay: self.delay_timer,
            sound: self.sound_timer,
            update_screen: self.update_screen,
        }
    }
}

/// The memory after a program of `rom.len()` bytes is copied verbatim to
/// addresses 0x200 onward.
pub open spec fn mem_with_rom(mem: Seq<u8>, rom: Seq<u8>) -> Seq<u8> {
    Seq::new(
        mem.len(),
        |i: int|
            if START_ADDRESS <= i < START_ADDRESS + rom.len() {
                rom[i - START_ADDRESS]
            } else {
                mem[i]
            },
    )
}

impl Chip8 {
    /// Every reachable machine state keeps this shape; see `view_wf`.
    pub open spec fn wf(&self) -> bool {
        view_wf(self@)
    }

    /// A fresh machine: font table at 0x000, everything else zeroed, program
    /// counter at the program start address.
    pub fn new() -> (r: Chip8)
        ensures
            r.wf(),
            r@ == initial_view(),
    {
        let mut memory: Vec<u8> = vec![
            0xF0u8, 0x90, 0x90, 0x90, 0xF0, // 0
            0x20, 0x60, 0x20, 0x20, 0x70, // 1
            0xF0, 0x10, 0xF0, 0x80, 0xF0, // 2
            0xF0, 0x10, 0xF0, 0x10, 0xF0, // 3
            0x90, 0x90, 0xF0, 0x10, 0x10, // 4
            0xF0, 0x80, 0xF0, 0x10, 0xF0, // 5
            0xF0, 0x80, 0xF0, 0x90, 0xF0, // 6
            0xF0, 0x10, 0x20, 0x40, 0x40, // 7
            0xF0, 0x90, 0xF0, 0x90, 0xF0, // 8
            0xF0, 0x90, 0xF0, 0x10, 0xF0, // 9
            0xF0, 0x90, 0xF0, 0x90, 0x90, // A
            0xE0, 0x90, 0xE0, 0x90, 0xE0, // B
            0xF0, 0x80, 0x80, 0x80, 0xF0, // C
            0xE0, 0x90, 0x90, 0x90, 0xE0, // D
            0xF0, 0x80, 0xF0, 0x80, 0xF0, // E
            0xF0, 0x80, 0xF0, 0x80, 0x80, // F
        ];
        proof {
            assert(memory@ =~= font_seq());
        }
        let rest_len: usize = RAM_SIZE - FONT_BYTES;
        let mut rest: Vec<u8> = vec![0u8; rest_len];
        memory.append(&mut rest);
        let registers: Vec<u8> = vec![0u8; NUM_REGISTERS];
        let display_buffer: Vec<bool> = vec![false; SCREEN_CELLS];
        let r = Chip8 {
            memory,
            registers,
            index_register: 0,
            program_counter: START_ADDRESS,
            stack: Vec::new(),
            display_buffer,
            keypad: Keypad::new(),
            delay_timer: 0,
            sound_timer: 0,
            update_screen: false,
        };
        proof {
            assert(r@.mem =~= initial_view().mem);
            assert(r@.regs =~= initial_view().regs);
            assert(r@.display =~= initial_view().display);
            assert(r@.keys =~= initial_view().keys);
            assert(r@.stack =~= initial_view().stack);
            assert(r@ == initial_view());
        }
        r
    }

    /// Read snapshot of the framebuffer for the renderer: cell (x, y) is at
    /// index y * 64 + x.
    pub fn get_display_buffer(&self) -> (r: &Vec<bool>)
        ensures
            r@ == self@.display,
    {
        &self.display_buffer
    }

    /// Copy a program verbatim into memory starting at 0x200; a program
    /// longer than the remaining space is rejected before any byte is
    /// written.
    pub fn load_rom(&mut self, buffer: Vec<u8>) -> (r: Result<(), Chip8Error>)
        requires
            old(self).wf(),
        ensures
            final(self).wf(),
            buffer@.len() <= RAM_SIZE - START_ADDRESS ==> r == Ok::<(), Chip8Error>(())
                && final(self)@ == (Chip8View {
                mem: mem_with_rom(old(self)@.mem, buffer@),
                ..old(self)@
            }),
            buffer@.len() > RAM_SIZE - START_ADDRESS ==> r == Err::<(), Chip8Error>(
                Chip8Error::RomTooLarge,
            ) && final(self)@ == old(self)@,
    {
        if buffer.len() > RAM_SIZE - START_ADDRESS as usize {
            return Err(Chip8Error::RomTooLarge);
        }
        let mut index: usize = 0;
        while index < buffer.len()
            invariant
                old(self).wf(),
                buffer@.len() <= RAM_SIZE - START_ADDRESS,
                index <= buffer@.len(),
                self.wf(),
                self@ == (Chip8View {
                    mem: self@.mem,
                    ..old(self)@
                }),
                self@.mem.len() == RAM_SIZE,
                forall|i: int|
                    0 <= i < RAM_SIZE && !(START_ADDRESS <= i < START_ADDRESS + index)
                        ==> self@.mem[i] == old(self)@.mem[i],
                forall|i: int|
                    START_ADDRESS <= i < START_ADDRESS + index ==> self@.mem[i] == buffer@[i
                        - START_ADDRESS],
            decreases buffer@.len() - index,
        {
            self.memory[START_ADDRESS as usize + index] = buffer[index];
            index += 1;
        }
        proof {
            assert(self@.mem =~= mem_with_rom(old(self)@.mem, buffer@));
        }
        Ok(())
    }

    /// One external timer tick: each nonzero countdown timer loses 1, a zero
    /// timer stays at zero; nothing else moves.
    pub fn update_timers(&mut self)
        requires
            old(self).wf(),
        ensures
            final(self).wf(),
            final(self)@ == (Chip8View {
                delay: if old(self)@.delay > 0 {
                    (old(self)@.delay - 1) as u8
                } else {
                    0u8
                },
                sound: if old(self)@.sound > 0 {
                    (old(self)@.sound - 1) as u8
                } else {
                    0u8
                },
                ..old(self)@
            }),
    {
        if self.delay_timer > 0 {
            self.delay_timer = self.delay_timer - 1;
        }
        if self.sound_timer > 0 {
            self.sound_timer = self.sound_timer - 1;
        }
    }

    /// Record a host key event: key `key` is now pressed or released.
    pub fn set_key(&mut self, key: u8, pressed: bool)
        requires
            old(self).wf(),
            key < 16,
        ensures
            final(self).wf(),
            final(self)@ == (Chip8View {
                keys: old(self)@.keys.update(key as int, pressed),
                ..old(self)@
            }),
    {
        self.keypad.set_key(key, pressed);
    }

    /// Current value of register VX.
    pub fn get_register(&self, x: u8) -> (r: u8)
        requires
            self.wf(),
            x < 16,
        ensures
            r == self@.regs[x as int],
    {
        self.registers[x as usize]
    }

    /// Current program counter.
    pub fn get_program_counter(&self) -> (r: u16)
        ensures
            r == self@.pc,
    {
        self.program_counter
    }

    /// Current index register.
    pub fn get_index_register(&self) -> (r: u16)
        ensures
            r == self@.index,
    {
        self.index_register
    }

    /// Current delay timer value.
    pub fn get_delay_timer(&self) -> (r: u8)
        ensures
            r == self@.delay,
    {
        self.delay_timer
    }

    /// Current sound timer value.
    pub fn get_sound_timer(&self) -> (r: u8)
        ensures
            r == self@.sound,
    {
        self.sound_timer
    }

    /// Number of calls currently in progress.
    pub fn get_stack_depth(&self) -> (r: usize)
        ensures
            r == self@.stack.len(),
    {
        self.stack.len()
    }

    /// Current value of the memory byte at `addr`.
    pub fn get_memory_byte(&self, addr: u16) -> (r: u8)
        requires
            self.wf(),
            addr < RAM_SIZE,
        ensures
            r == self@.mem[addr as int],
    {
        self.memory[addr as usize]
    }

    /// Store a return address; callers check the depth limit first.
    fn push_addr_to_stack(&mut self, value: u16)
        requires
            old(self).wf(),
            old(self)@.stack.len() < STACK_DEPTH,
        ensures
            final(self).wf(),
            final(self)@ == (Chip8View { stack: old(self)@.stack.push(value), ..old(self)@ }),
    {
        self.stack.push(value);
    }

    /// Take the most recent return address; callers check for emptiness.
    fn pop_addr_from_stack(&mut self) -> (r: u16)
        requires
            old(self).wf(),
            old(self)@.stack.len() > 0,
        ensures
            final(self).wf(),
            r == old(self)@.stack.last(),
            final(self)@ == (Chip8View { stack: old(self)@.stack.drop_last(), ..old(self)@ }),
    {
        let r = self.stack.pop().unwrap();
        proof {
            assert(self@.stack =~= old(self)@.stack.drop_last());
        }
        r
    }

    /// The opcode spelled by the two memory bytes at the program counter,
    /// high byte first.
    fn read_opcode(&self) -> (r: u16)
        requires
            self.wf(),
            self@.pc + 1 < RAM_SIZE,
        ensures
            r == fetch(self@),
    {
        let first = (self.memory[self.program_counter as usize] as u16) << 8;
        let second = self.memory[self.program_counter as usize + 1] as u16;
        first | second
    }

    /// 00E0: reset every framebuffer cell to off and raise the dirty signal.
    fn handle_00e0(&mut self)
        requires
            old(self).wf(),
        ensures
            final(self).wf(),
            final(self)@ == execute_spec(old(self)@, Instruction::ClearScreen, 0).0,
    {
        self.display_buffer = vec![false; SCREEN_CELLS];
        self.update_screen = true;
        proof {
            assert(self@.display =~= execute_spec(old(self)@, Instruction::ClearScreen, 0).0.display);
        }
    }

    /// 00EE: pop the most recent return address into the program counter;
    /// a return with no call in progress is a terminal fault.
    fn handle_00ee(&mut self) -> (r: Result<CycleEvent, Chip8Error>)
        requires
            old(self).wf(),
        ensures
            final(self).wf(),
            (final(self)@, r) == execute_spec(old(self)@, Instruction::Return, 0),
    {
        if self.stack.len() == 0 {
            return Err(Chip8Error::StackUnderflow);
        }
        let addr = self.pop_addr_from_stack();
        self.program_counter = addr;
        Ok(CycleEvent::Executed)
    }

    /// 1NNN: jump.
    fn handle_1nnn(&mut self, nnn: u16)
        requires
            old(self).wf(),
        ensures
            final(self).wf(),
            final(self)@ == execute_spec(old(self)@, Instruction::Jump(nnn), 0).0,
    {
        self.program_counter = nnn;
    }

    /// 2NNN: call: push the post-fetch program counter, then jump; a call
    /// with all stack slots occupied is a terminal fault.
    fn handle_2nnn(&mut self, nnn: u16) -> (r: Result<CycleEvent, Chip8Error>)
        requires
            old(self).wf(),
        ensures
            final(self).wf(),
            (final(self)@, r) == execute_spec(old(self)@, Instruction::Call(nnn), 0),
    {
        if self.stack.len() >= STACK_DEPTH {
            return Err(Chip8Error::StackOverflow);
        }
        self.push_addr_to_stack(self.program_counter);
        self.program_counter = nnn;
        Ok(CycleEvent::Executed)
    }

    /// 3XNN: skip the next instruction when VX equals NN.
    fn handle_3xnn(&mut self, x: u8, nn: u8)
        requires
            old(self).wf(),
            x < 16,
            old(self)@.pc <= 0x1000,
        ensures
            final(self).wf(),
            final(self)@ == execute_spec(old(self)@, Instruction::SkipEqImm(x, nn), 0).0,
    {
        if self.registers[x as usize] == nn {
            self.program_counter = self.program_counter + 2;
        }
    }

    /// 4XNN: skip the next instruction when VX differs from NN.
    fn handle_4xnn(&mut self, x: u8, nn: u8)
        requires
            old(self).wf(),
            x < 16,
            old(self)@.pc <= 0x1000,
        ensures
            final(self).wf(),
            final(self)@ == execute_spec(old(self)@, Instruction::SkipNeImm(x, nn), 0).0,
    {
        if self.registers[x as usize] != nn {
            self.program_counter = self.program_counter + 2;
        }
    }

    /// 5XY0: skip the next instruction when VX equals VY.
    fn handle_5xy0(&mut self, x: u8, y: u8)
        requires
            old(self).wf(),
            x < 16,
            y < 16,
            old(self)@.pc <= 0x1000,
        ensures
            final(self).wf(),
            final(self)@ == execute_spec(old(self)@, Instruction::SkipEqReg(x, y), 0).0,
    {
        if self.registers[x as usize] == self.registers[y as usize] {
            self.program_counter = self.program_counter + 2;
        }
    }

    /// 9XY0: skip the next instruction when VX differs from VY.
    fn handle_9xy0(&mut self, x: u8, y: u8)
        requires
            old(self).wf(),
            x < 16,
            y < 16,
            old(self)@.pc <= 0x1000,
        ensures
            final(self).wf(),
            final(self)@ == execute_spec(old(self)@, Instruction::SkipNeReg(x, y), 0).0,
    {
        if self.registers[x as usize] != self.registers[y as usize] {
            self.program_counter = self.program_counter + 2;
        }
    }

    /// 6XNN: set VX to NN.
    fn handle_6x_nn(&mut self, x: u8, nn: u8)
        requires
            old(self).wf(),
            x < 16,
        ensures
            final(self).wf(),
            final(self)@ == execute_spec(old(self)@, Instruction::SetImm(x, nn), 0).0,
    {
        self.registers[x as usize] = nn;
    }

    /// 7XNN: add NN to VX, wrapping modulo 256; the flag is untouched.
    fn handle_7x_nn(&mut self, x: u8, nn: u8)
        requires
            old(self).wf(),
            x < 16,
        ensures
            final(self).wf(),
            final(self)@ == execute_spec(old(self)@, Instruction::AddImm(x, nn), 0).0,
    {
        let sum = self.registers[x as usize] as u16 + nn as u16;
        self.registers[x as usize] = (sum % 256) as u8;
    }

    /// 8XY0: copy VY into VX.
    fn handle_8xy0(&mut self, x: u8, y: u8)
        requires
            old(self).wf(),
            x < 16,
            y < 16,
        ensures
            final(self).wf(),
            final(self)@ == execute_spec(old(self)@, Instruction::Move(x, y), 0).0,
    {
        self.registers[x as usize] = self.registers[y as usize];
    }

    /// 8XY1: VX |= VY; the flag is untouched.
    fn handle_8xy1(&mut self, x: u8, y: u8)
        requires
            old(self).wf(),
            x < 16,
            y < 16,
        ensures
            final(self).wf(),
            final(self)@ == execute_spec(old(self)@, Instruction::Or(x, y), 0).0,
    {
        self.registers[x as usize] = self.registers[x as usize] | self.registers[y as usize];
    }

    /// 8XY2: VX &= VY; the flag is untouched.
    fn handle_8xy2(&mut self, x: u8, y: u8)
        requires
            old(self).wf(),
            x < 16,
            y < 16,
        ensures
            final(self).wf(),
            final(self)@ == execute_spec(old(self)@, Instruction::And(x, y), 0).0,
    {
        self.registers[x as usize] = self.registers[x as usize] & self.registers[y as usize];
    }

    /// 8XY3: VX ^= VY; the flag is untouched.
    fn handle_8xy3(&mut self, x: u8, y: u8)
        requires
            old(self).wf(),
            x < 16,
            y < 16,
        ensures
            final(self).wf(),
            final(self)@ == execute_spec(old(self)@, Instruction::Xor(x, y), 0).0,
    {
        self.registers[x as usize] = self.registers[x as usize] ^ self.registers[y as usize];
    }

    /// 8XY4: VX += VY wrapping modulo 256; VF then becomes 1 exactly when
    /// the unwrapped sum exceeds 255, even when VF is the destination.
    fn handle_8xy4(&mut self, x: u8, y: u8)
        requires
            old(self).wf(),
            x < 16,
            y < 16,
        ensures
            final(self).wf(),
            final(self)@ == execute_spec(old(self)@, Instruction::AddReg(x, y), 0).0,
    {
        let sum = self.registers[x as usize] as u16 + self.registers[y as usize] as u16;
        let flag: u8 = if sum > 255 {
            1
        } else {
            0
        };
        self.registers[x as usize] = (sum % 256) as u8;
        self.registers[15] = flag;
    }

    /// 8XY5: VX -= VY wrapping; VF then becomes 1 exactly when no borrow
    /// occurred (VX was at least VY), even when VF is the destination.
    fn handle_8xy5(&mut self, x: u8, y: u8)
        requires
            old(self).wf(),
            x < 16,
            y < 16,
        ensures
            final(self).wf(),
            final(self)@ == execute_spec(old(self)@, Instruction::SubReg(x, y), 0).0,
    {
        let a = self.registers[x as usize];
        let b = self.registers[y as usize];
        let diff: u8 = if a >= b {
            a - b
        } else {
            (a as u16 + 256 - b as u16) as u8
        };
        let flag: u8 = if a >= b {
            1
        } else {
            0
        };
        self.registers[x as usize] = diff;
        self.registers[15] = flag;
    }

    /// 8XY6: VF becomes the low bit of VX, then VX is halved.
    fn handle_8xy6(&mut self, x: u8)
        requires
            old(self).wf(),
            x < 16,
        ensures
            final(self).wf(),
            final(self)@ == execute_spec(old(self)@, Instruction::ShiftRight(x), 0).0,
    {
        let a = self.registers[x as usize];
        self.registers[x as usize] = a / 2;
        self.registers[15] = a % 2;
    }

    /// 8XY7: VX = VY - VX wrapping; VF then becomes 1 exactly when no
    /// borrow occurred (VY was at least VX).
    fn handle_8xy7(&mut self, x: u8, y: u8)
        requires
            old(self).wf(),
            x < 16,
            y < 16,
        ensures
            final(self).wf(),
            final(self)@ == execute_spec(old(self)@, Instruction::RevSub(x, y), 0).0,
    {
        let a = self.registers[x as usize];
        let b = self.registers[y as usize];
        let diff: u8 = if b >= a {
            b - a
        } else {
            (b as u16 + 256 - a as u16) as u8
        };
        let flag: u8 = if b >= a {
            1
        } else {
            0
        };
        self.registers[x as usize] = diff;
        self.registers[15] = flag;
    }

    /// 8XYE: VF becomes the high bit of VX, then VX is doubled modulo 256.
    fn handle_8xye(&mut self, x: u8)
        requires
            old(self).wf(),
            x < 16,
        ensures
            final(self).wf(),
            final(self)@ == execute_spec(old(self)@, Instruction::ShiftLeft(x), 0).0,
    {
        let a = self.registers[x as usize];
        self.registers[x as usize] = ((a as u16 * 2) % 256) as u8;
        self.registers[15] = a / 128;
    }

    /// ANNN: set the index register.
    fn handle_annn(&mut self, nnn: u16)
        requires
            old(self).wf(),
            nnn < 0x1000,
        ensures
            final(self).wf(),
            final(self)@ == execute_spec(old(self)@, Instruction::SetIndex(nnn), 0).0,
    {
        self.index_register = nnn;
    }

    /// BNNN: jump to NNN plus V0.
    fn handle_bnnn(&mut self, nnn: u16)
        requires
            old(self).wf(),
            nnn < 0x1000,
        ensures
            final(self).wf(),
            final(self)@ == execute_spec(old(self)@, Instruction::JumpOffset(nnn), 0).0,
    {
        self.program_counter = nnn + self.registers[0] as u16;
    }

    /// Relies on rand::random: one byte drawn from the thread-local
    /// generator; nothing is promised of the value.
    #[verifier::external_body]
    fn random_byte() -> u8 {
        rand::random::<u8>()
    }

    /// Set VX to `rnd` masked with NN: the deterministic tail of the random
    /// instruction, verified for every byte the source may produce.
    pub fn apply_random(&mut self, x: u8, nn: u8, rnd: u8)
        requires
            old(self).wf(),
            x < 16,
        ensures
            final(self).wf(),
            final(self)@ == (Chip8View {
                regs: old(self)@.regs.update(x as int, rnd & nn),
                ..old(self)@
            }),
    {
        self.registers[x as usize] = rnd & nn;
    }

    /// CXNN: set VX to a random byte masked with NN.
    fn handle_cxkk(&mut self, x: u8, nn: u8)
        requires
            old(self).wf(),
            x < 16,
        ensures
            final(self).wf(),
            exists|rnd: u8|
                final(self)@ == #[trigger] execute_spec(
                    old(self)@,
                    Instruction::Random(x, nn),
                    rnd,
                ).0,
    {
        let rnd = Self::random_byte();
        self.apply_random(x, nn, rnd);
        proof {
            assert(self@ == execute_spec(old(self)@, Instruction::Random(x, nn), rnd).0);
        }
    }

    /// EX9E: skip the next instruction when the key indexed by VX's low
    /// nibble is pressed.
    fn handle_ex9e(&mut self, x: u8)
        requires
            old(self).wf(),
            x < 16,
            old(self)@.pc <= 0x1000,
        ensures
            final(self).wf(),
            final(self)@ == execute_spec(old(self)@, Instruction::SkipIfKey(x), 0).0,
    {
        let vx = self.registers[x as usize];
        let key = vx & 0xF;
        proof {
            assert(vx & 0xF < 16) by (bit_vector);
        }
        if self.keypad.is_pressed(key) {
            self.program_counter = self.program_counter + 2;
        }
    }

    /// EXA1: skip the next instruction when that key is not pressed.
    fn handle_exa1(&mut self, x: u8)
        requires
            old(self).wf(),
            x < 16,
            old(self)@.pc <= 0x1000,
        ensures
            final(self).wf(),
            final(self)@ == execute_spec(old(self)@, Instruction::SkipIfNotKey(x), 0).0,
    {
        let vx = self.registers[x as usize];
        let key = vx & 0xF;
        proof {
            assert(vx & 0xF < 16) by (bit_vector);
        }
        if !self.keypad.is_pressed(key) {
            self.program_counter = self.program_counter + 2;
        }
    }

    /// FX07: copy the delay timer into VX.
    fn handle_fx07(&mut self, x: u8)
        requires
            old(self).wf(),
            x < 16,
        ensures
            final(self).wf(),
            final(self)@ == execute_spec(old(self)@, Instruction::ReadDelay(x), 0).0,
    {
        self.registers[x as usize] = self.delay_timer;
    }

    /// FX15: copy VX into the delay timer.
    fn handle_fx15(&mut self, x: u8)
        requires
            old(self).wf(),
            x < 16,
        ensures
            final(self).wf(),
            final(self)@ == execute_spec(old(self)@, Instruction::SetDelay(x), 0).0,
    {
        self.delay_timer = self.registers[x as usize];
    }

    /// FX18: copy VX into the sound timer.
    fn handle_fx18(&mut self, x: u8)
        requires
            old(self).wf(),
            x < 16,
        ensures
            final(self).wf(),
            final(self)@ == execute_spec(old(self)@, Instruction::SetSound(x), 0).0,
    {
        self.sound_timer = self.registers[x as usize];
    }

    /// FX1E: add VX to the index register; the sum wraps at 0x1000, keeping
    /// the index inside the 12-bit address space (the architecture leaves
    /// overflow here undefined, so the 12-bit wrap is this machine's choice).
    fn handle_fx1e(&mut self, x: u8)
        requires
            old(self).wf(),
            x < 16,
        ensures
            final(self).wf(),
            final(self)@ == execute_spec(old(self)@, Instruction::AddIndex(x), 0).0,
    {
        self.index_register = (self.index_register + self.registers[x as usize] as u16) % 0x1000;
    }

    /// FX29: point the index register at the 5-byte font glyph for VX's low
    /// nibble: glyph `d` starts at address `d * 5`.
    fn handle_fx29(&mut self, x: u8)
        requires
            old(self).wf(),
            x < 16,
        ensures
            final(self).wf(),
            final(self)@ == execute_spec(old(self)@, Instruction::FontAddr(x), 0).0,
    {
        let vx = self.registers[x as usize];
        proof {
            assert(vx & 0xF < 16) by (bit_vector);
        }
        self.index_register = (vx & 0xF) as u16 * 5;
    }

    /// FX33: write VX's decimal digits (hundreds, tens, ones) at the index
    /// register address; a write that would leave memory is a terminal
    /// fault.
    fn handle_fx33(&mut self, x: u8) -> (r: Result<CycleEvent, Chip8Error>)
        requires
            old(self).wf(),
            x < 16,
        ensures
            final(self).wf(),
            (final(self)@, r) == execute_spec(old(self)@, Instruction::StoreBcd(x), 0),
    {
        if self.index_register as usize + 3 > RAM_SIZE {
            return Err(Chip8Error::MemoryOutOfRange);
        }
        let vx = self.registers[x as usize];
        let base = self.index_register as usize;
        self.memory[base] = vx / 100;
        self.memory[base + 1] = (vx / 10) % 10;
        self.memory[base + 2] = vx % 10;
        Ok(CycleEvent::Executed)
    }

    /// FX55: copy registers V0..=VX into memory starting at the index
    /// register; a span leaving memory is a terminal fault.
    fn handle_fx55(&mut self, x: u8) -> (r: Result<CycleEvent, Chip8Error>)
        requires
            old(self).wf(),
            x < 16,
        ensures
            final(self).wf(),
            (final(self)@, r) == execute_spec(old(self)@, Instruction::StoreRegs(x), 0),
    {
        if self.index_register as usize + x as usize + 1 > RAM_SIZE {
            return Err(Chip8Error::MemoryOutOfRange);
        }
        let base = self.index_register as usize;
        let mut j: usize = 0;
        while j <= x as usize
            invariant
                old(self).wf(),
                x < 16,
                old(self)@.index + x + 1 <= RAM_SIZE,
                base == old(self)@.index,
                j <= x + 1,
                self.wf(),
                self@ == (Chip8View { mem: self@.mem, ..old(self)@ }),
                self@.mem.len() == RAM_SIZE,
                forall|i: int|
                    0 <= i < RAM_SIZE && !(base <= i < base + j) ==> self@.mem[i] == old(
                        self,
                    )@.mem[i],
                forall|i: int| base <= i < base + j ==> self@.mem[i] == old(self)@.regs[i - base],
            decreases x + 1 - j,
        {
            self.memory[base + j] = self.registers[j];
            j += 1;
        }
        proof {
            assert(self@.mem =~= store_regs_mem(
                old(self)@.mem,
                old(self)@.regs,
                old(self)@.index as int,
                x,
            ));
        }
        Ok(CycleEvent::Executed)
    }

    /// FX65: copy memory starting at the index register into registers
    /// V0..=VX; a span leaving memory is a terminal fault.
    fn handle_fx65(&mut self, x: u8) -> (r: Result<CycleEvent, Chip8Error>)
        requires
            old(self).wf(),
            x < 16,
        ensures
            final(self).wf(),
            (final(self)@, r) == execute_spec(old(self)@, Instruction::LoadRegs(x), 0),
    {
        if self.index_register as usize + x as usize + 1 > RAM_SIZE {
            return Err(Chip8Error::MemoryOutOfRange);
        }
        let base = self.index_register as usize;
        let mut j: usize = 0;
        while j <= x as usize
            invariant
                old(self).wf(),
                x < 16,
                old(self)@.index + x + 1 <= RAM_SIZE,
                base == old(self)@.index,
                j <= x + 1,
                self.wf(),
                self@ == (Chip8View { regs: self@.regs, ..old(self)@ }),
                self@.regs.len() == NUM_REGISTERS,
                forall|i: int| j <= i < NUM_REGISTERS ==> self@.regs[i] == old(self)@.regs[i],
                forall|i: int| 0 <= i < j ==> self@.regs[i] == old(self)@.mem[base + i],
            decreases x + 1 - j,
        {
            self.registers[j] = self.memory[base + j];
            j += 1;
        }
        proof {
            assert(self@.regs =~= load_regs_regs(
                old(self)@.mem,
                old(self)@.regs,
                old(self)@.index as int,
                x,
            ));
        }
        Ok(CycleEvent::Executed)
    }

    /// FX0A: wait for a key: store the lowest-indexed pressed key into VX,
    /// or roll the program counter back by 2 so the same instruction is
    /// fetched again next cycle.
    fn handle_fx0a(&mut self, x: u8)
        requires
            old(self).wf(),
            x < 16,
            old(self)@.pc >= 2,
        ensures
            final(self).wf(),
            final(self)@ == execute_spec(old(self)@, Instruction::WaitKey(x), 0).0,
    {
        match self.keypad.first_pressed_key() {
            Some(k) => {
                proof {
                    lemma_first_pressed_is(self@.keys, k as int);
                }
                self.registers[x as usize] = k;
            },
            None => {
                self.program_counter = self.program_counter - 2;
            },
        }
    }

    /// DXYN: XOR the N-row sprite at memory[index..] onto the framebuffer at
    /// (VX, VY), wrapping both coordinates; VF reports whether any lit cell
    /// was turned off. A sprite read leaving memory is a terminal fault.
    fn dxyn(&mut self, x: u8, y: u8, n: u8) -> (r: Result<CycleEvent, Chip8Error>)
        requires
            old(self).wf(),
            x < 16,
            y < 16,
            n < 16,
        ensures
            final(self).wf(),
            (final(self)@, r) == execute_spec(old(self)@, Instruction::Draw(x, y, n), 0),
    {
        if self.index_register as usize + n as usize > RAM_SIZE {
            return Err(Chip8Error::MemoryOutOfRange);
        }
        self.registers[15] = 0;
        let vx = self.registers[x as usize];
        let vy = self.registers[y as usize];
        let base = self.index_register as usize;
        let ghost disp0 = self@.display;
        let ghost mem0 = self@.mem;
        let mut collision = false;
        let mut row: u8 = 0;
        while row < n
            invariant
                old(self).wf(),
                x < 16,
                y < 16,
                n < 16,
                old(self)@.index + n <= RAM_SIZE,
                base == old(self)@.index,
                vx == old(self)@.regs.update(15, 0u8)[x as int],
                vy == old(self)@.regs.update(15, 0u8)[y as int],
                disp0 == old(self)@.display,
                mem0 == old(self)@.mem,
                row <= n,
                self.wf(),
                self@ == (Chip8View {
                    display: self@.display,
                    regs: old(self)@.regs.update(15, 0u8),
                    ..old(self)@
                }),
                self@.display.len() == SCREEN_CELLS,
                self@.display == draw_disp(disp0, mem0, vx, vy, base as int, row as int),
                collision == draw_collision(disp0, mem0, vx, vy, base as int, row as int),
            decreases n - row,
        {
            let sprite = self.memory[base + row as usize];
            let py = ((vy as u16 + row as u16) % 32) as usize;
            let ghost disp_row = self@.display;
            let ghost coll_row = collision;
            let mut col: u8 = 0;
            while col < 8
                invariant
                    old(self).wf(),
                    x < 16,
                    y < 16,
                    n < 16,
                    old(self)@.index + n <= RAM_SIZE,
                    base == old(self)@.index,
                    row < n,
                    disp0 == old(self)@.display,
                    mem0 == old(self)@.mem,
                    sprite == mem0[base + row],
                    py == (vy + row) % 32,
                    py < 32,
                    col <= 8,
                    self.wf(),
                    self@ == (Chip8View {
                        display: self@.display,
                        regs: old(self)@.regs.update(15, 0u8),
                        ..old(self)@
                    }),
                    self@.display.len() == SCREEN_CELLS,
                    disp_row == draw_disp(disp0, mem0, vx, vy, base as int, row as int),
                    coll_row == draw_collision(disp0, mem0, vx, vy, base as int, row as int),
                    self@.display == row_disp(disp_row, sprite, vx, py as int, col as int),
                    collision == (coll_row || row_collision(
                        disp_row,
                        sprite,
                        vx,
                        py as int,
                        col as int,
                    )),
                decreases 8 - col,
            {
                let bit = sprite & (0x80u8 >> col);
                if bit != 0 {
                    let px = ((vx as u16 + col as u16) % 64) as usize;
                    let idx = py * 64 + px;
                    if self.display_buffer[idx] {
                        collision = true;
                    }
                    let cur = self.display_buffer[idx];
                    self.display_buffer[idx] = !cur;
                }
                col += 1;
            }
            row += 1;
        }
        let flag: u8 = if collision {
            1
        } else {
            0
        };
        self.registers[15] = flag;
        self.update_screen = true;
        proof {
            assert(self@.regs =~= old(self)@.regs.update(15, flag));
        }
        Ok(CycleEvent::Executed)
    }

    /// Run one decoded instruction: dispatch to the matching handler, with
    /// an opcode that matches no defined instruction reported and stepped
    /// over. The result and the new state are exactly what `execute_spec`
    /// says of the fetched opcode, for some byte of the random source.
    fn process_opcode(&mut self, op_code: u16) -> (r: Result<CycleEvent, Chip8Error>)
        requires
            old(self).wf(),
            2 <= old(self)@.pc <= 0x1000,
        ensures
            final(self).wf(),
            exists|rnd: u8|
                (final(self)@, r) == #[trigger] execute_spec(
                    old(self)@,
                    spec_decode(op_code),
                    rnd,
                ),
    {
        let ins = decode(op_code);
        match ins {
            Instruction::ClearScreen => {
                self.handle_00e0();
                proof {
                    assert((self@, Ok::<CycleEvent, Chip8Error>(CycleEvent::Executed))
                        == execute_spec(old(self)@, spec_decode(op_code), 0u8));
                }
                Ok(CycleEvent::Executed)
            },
            Instruction::Return => {
                let r = self.handle_00ee();
                proof {
                    assert((self@, r) == execute_spec(old(self)@, spec_decode(op_code), 0u8));
                }
                r
            },
            Instruction::Jump(nnn) => {
                self.handle_1nnn(nnn);
                proof {
                    assert((self@, Ok::<CycleEvent, Chip8Error>(CycleEvent::Executed))
                        == execute_spec(old(self)@, spec_decode(op_code), 0u8));
                }
                Ok(CycleEvent::Executed)
            },
            Instruction::Call(nnn) => {
                let r = self.handle_2nnn(nnn);
                proof {
                    assert((self@, r) == execute_spec(old(self)@, spec_decode(op_code), 0u8));
                }
                r
            },
            Instruction::SkipEqImm(x, nn) => {
                self.handle_3xnn(x, nn);
                proof {
                    assert((self@, Ok::<CycleEvent, Chip8Error>(CycleEvent::Executed))
                        == execute_spec(old(self)@, spec_decode(op_code), 0u8));
                }
                Ok(CycleEvent::Executed)
            },
            Instruction::SkipNeImm(x, nn) => {
                self.handle_4xnn(x, nn);
                proof {
                    assert((self@, Ok::<CycleEvent, Chip8Error>(CycleEvent::Executed))
                        == execute_spec(old(self)@, spec_decode(op_code), 0u8));
                }
                Ok(CycleEvent::Executed)
            },
            Instruction::SkipEqReg(x, y) => {
                self.handle_5xy0(x, y);
                proof {
                    assert((self@, Ok::<CycleEvent, Chip8Error>(CycleEvent::Executed))
                        == execute_spec(old(self)@, spec_decode(op_code), 0u8));
                }
                Ok(CycleEvent::Executed)
            },
            Instruction::SetImm(x, nn) => {
                self.handle_6x_nn(x, nn);
                proof {
                    assert((self@, Ok::<CycleEvent, Chip8Error>(CycleEvent::Executed))
                        == execute_spec(old(self)@, spec_decode(op_code), 0u8));
                }
                Ok(CycleEvent::Executed)
            },
            Instruction::AddImm(x, nn) => {
                self.handle_7x_nn(x, nn);
                proof {
                    assert((self@, Ok::<CycleEvent, Chip8Error>(CycleEvent::Executed))
                        == execute_spec(old(self)@, spec_decode(op_code), 0u8));
                }
                Ok(CycleEvent::Executed)
            },
            Instruction::Move(x, y) => {
                self.handle_8xy0(x, y);
                proof {
                    assert((self@, Ok::<CycleEvent, Chip8Error>(CycleEvent::Executed))
                        == execute_spec(old(self)@, spec_decode(op_code), 0u8));
                }
                Ok(CycleEvent::Executed)
            },
            Instruction::Or(x, y) => {
                self.handle_8xy1(x, y);
                proof {
                    assert((self@, Ok::<CycleEvent, Chip8Error>(CycleEvent::Executed))
                        == execute_spec(old(self)@, spec_decode(op_code), 0u8));
                }
                Ok(CycleEvent::Executed)
            },
            Instruction::And(x, y) => {
                self.handle_8xy2(x, y);
                proof {
                    assert((self@, Ok::<CycleEvent, Chip8Error>(CycleEvent::Executed))
                        == execute_spec(old(self)@, spec_decode(op_code), 0u8));
                }
                Ok(CycleEvent::Executed)
            },
            Instruction::Xor(x, y) => {
                self.handle_8xy3(x, y);
                proof {
                    assert((self@, Ok::<CycleEvent, Chip8Error>(CycleEvent::Executed))
                        == execute_spec(old(self)@, spec_decode(op_code), 0u8));
                }
                Ok(CycleEvent::Executed)
            },
            Instruction::AddReg(x, y) => {
                self.handle_8xy4(x, y);
                proof {
                    assert((self@, Ok::<CycleEvent, Chip8Error>(CycleEvent::Executed))
                        == execute_spec(old(self)@, spec_decode(op_code), 0u8));
                }
                Ok(CycleEvent::Executed)
            },
            Instruction::SubReg(x, y) => {
                self.handle_8xy5(x, y);
                proof {
                    assert((self@, Ok::<CycleEvent, Chip8Error>(CycleEvent::Executed))
                        == execute_spec(old(self)@, spec_decode(op_code), 0u8));
                }
                Ok(CycleEvent::Executed)
            },
            Instruction::ShiftRight(x) => {
                self.handle_8xy6(x);
                proof {
                    assert((self@, Ok::<CycleEvent, Chip8Error>(CycleEvent::Executed))
                        == execute_spec(old(self)@, spec_decode(op_code), 0u8));
                }
                Ok(CycleEvent::Executed)
            },
            Instruction::RevSub(x, y) => {
                self.handle_8xy7(x, y);
                proof {
                    assert((self@, Ok::<CycleEvent, Chip8Error>(CycleEvent::Executed))
                        == execute_spec(old(self)@, spec_decode(op_code), 0u8));
                }
                Ok(CycleEvent::Executed)
            },
            Instruction::ShiftLeft(x) => {
                self.handle_8xye(x);
                proof {
                    assert((self@, Ok::<CycleEvent, Chip8Error>(CycleEvent::Executed))
                        == execute_spec(old(self)@, spec_decode(op_code), 0u8));
                }
                Ok(CycleEvent::Executed)
            },
            Instruction::SkipNeReg(x, y) => {
                self.handle_9xy0(x, y);
                proof {
                    assert((self@, Ok::<CycleEvent, Chip8Error>(CycleEvent::Executed))
                        == execute_spec(old(self)@, spec_decode(op_code), 0u8));
                }
                Ok(CycleEvent::Executed)
            },
            Instruction::SetIndex(nnn) => {
                self.handle_annn(nnn);
                proof {
                    assert((self@, Ok::<CycleEvent, Chip8Error>(CycleEvent::Executed))
                        == execute_spec(old(self)@, spec_decode(op_code), 0u8));
                }
                Ok(CycleEvent::Executed)
            },
            Instruction::JumpOffset(nnn) => {
                self.handle_bnnn(nnn);
                proof {
                    assert((self@, Ok::<CycleEvent, Chip8Error>(CycleEvent::Executed))
                        == execute_spec(old(self)@, spec_decode(op_code), 0u8));
                }
                Ok(CycleEvent::Executed)
            },
            Instruction::Random(x, nn) => {
                self.handle_cxkk(x, nn);
                proof {
                    let rnd = choose|rnd: u8|
                        self@ == execute_spec(old(self)@, Instruction::Random(x, nn), rnd).0;
                    assert((self@, Ok::<CycleEvent, Chip8Error>(CycleEvent::Executed))
                        == execute_spec(old(self)@, spec_decode(op_code), rnd));
                }
                Ok(CycleEvent::Executed)
            },
            Instruction::Draw(x, y, n) => {
                let r = self.dxyn(x, y, n);
                proof {
                    assert((self@, r) == execute_spec(old(self)@, spec_decode(op_code), 0u8));
                }
                r
            },
            Instruction::SkipIfKey(x) => {
                self.handle_ex9e(x);
                proof {
                    assert((self@, Ok::<CycleEvent, Chip8Error>(CycleEvent::Executed))
                        == execute_spec(old(self)@, spec_decode(op_code), 0u8));
                }
                Ok(CycleEvent::Executed)
            },
            Instruction::SkipIfNotKey(x) => {
                self.handle_exa1(x);
                proof {
                    assert((self@, Ok::<CycleEvent, Chip8Error>(CycleEvent::Executed))
                        == execute_spec(old(self)@, spec_decode(op_code), 0u8));
                }
                Ok(CycleEvent::Executed)
            },
            Instruction::ReadDelay(x) => {
                self.handle_fx07(x);
                proof {
                    assert((self@, Ok::<CycleEvent, Chip8Error>(CycleEvent::Executed))
                        == execute_spec(old(self)@, spec_decode(op_code), 0u8));
                }
                Ok(CycleEvent::Executed)
            },
            Instruction::WaitKey(x) => {
                self.handle_fx0a(x);
                proof {
                    assert((self@, Ok::<CycleEvent, Chip8Error>(CycleEvent::Executed))
                        == execute_spec(old(self)@, spec_decode(op_code), 0u8));
                }
                Ok(CycleEvent::Executed)
            },
            Instruction::SetDelay(x) => {
                self.handle_fx15(x);
                proof {
                    assert((self@, Ok::<CycleEvent, Chip8Error>(CycleEvent::Executed))
                        == execute_spec(old(self)@, spec_decode(op_code), 0u8));
                }
                Ok(CycleEvent::Executed)
            },
            Instruction::SetSound(x) => {
                self.handle_fx18(x);
                proof {
                    assert((self@, Ok::<CycleEvent, Chip8Error>(CycleEvent::Executed))
                        == execute_spec(old(self)@, spec_decode(op_code), 0u8));
                }
                Ok(CycleEvent::Executed)
            },
            Instruction::AddIndex(x) => {
                self.handle_fx1e(x);
                proof {
                    assert((self@, Ok::<CycleEvent, Chip8Error>(CycleEvent::Executed))
                        == execute_spec(old(self)@, spec_decode(op_code), 0u8));
                }
                Ok(CycleEvent::Executed)
            },
            Instruction::FontAddr(x) => {
                self.handle_fx29(x);
                proof {
                    assert((self@, Ok::<CycleEvent, Chip8Error>(CycleEvent::Executed))
                        == execute_spec(old(self)@, spec_decode(op_code), 0u8));
                }
                Ok(CycleEvent::Executed)
            },
            Instruction::StoreBcd(x) => {
                let r = self.handle_fx33(x);
                proof {
                    assert((self@, r) == execute_spec(old(self)@, spec_decode(op_code), 0u8));
                }
                r
            },
            Instruction::StoreRegs(x) => {
                let r = self.handle_fx55(x);
                proof {
                    assert((self@, r) == execute_spec(old(self)@, spec_decode(op_code), 0u8));
                }
                r
            },
            Instruction::LoadRegs(x) => {
                let r = self.handle_fx65(x);
                proof {
                    assert((self@, r) == execute_spec(old(self)@, spec_decode(op_code), 0u8));
                }
                r
            },
            Instruction::Unknown(op) => {
                proof {
                    assert((self@, Ok::<CycleEvent, Chip8Error>(CycleEvent::UnknownOpcode(op)))
                        == execute_spec(old(self)@, spec_decode(op_code), 0u8));
                }
                Ok(CycleEvent::UnknownOpcode(op))
            },
        }
    }

    /// One whole fetch-decode-execute step. The opcode at the program
    /// counter is fetched (a fault if it does not lie wholly in memory), the
    /// program counter advances past it, and the decoded instruction runs:
    /// the result and the new state are exactly what `cycle_spec` says, for
    /// some byte of the random source.
    pub fn run_cpu_cycle(&mut self) -> (r: Result<CycleEvent, Chip8Error>)
        requires
            old(self).wf(),
        ensures
            final(self).wf(),
            exists|rnd: u8| (final(self)@, r) == #[trigger] cycle_spec(old(self)@, rnd),
    {
        if self.program_counter as usize + 1 >= RAM_SIZE {
            proof {
                assert((self@, Err::<CycleEvent, Chip8Error>(Chip8Error::MemoryOutOfRange))
                    == cycle_spec(old(self)@, 0u8));
            }
            return Err(Chip8Error::MemoryOutOfRange);
        }
        let op_code = self.read_opcode();
        self.program_counter = self.program_counter + 2;
        let ghost mid = self@;
        let r = self.process_opcode(op_code);
        proof {
            let rnd = choose|rnd: u8| (self@, r) == execute_spec(mid, spec_decode(op_code), rnd);
            assert(mid == (Chip8View { pc: (old(self)@.pc + 2) as u16, ..old(self)@ }));
            assert((self@, r) == cycle_spec(old(self)@, rnd));
        }
        r
    }
}

} // verus!
