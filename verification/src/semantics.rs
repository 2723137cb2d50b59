use vstd::prelude::*;

use crate::decode::Instruction;
use crate::decode::spec_decode;
use crate::state::Chip8Error;
use crate::state::Chip8View;
use crate::state::CycleEvent;
use crate::state::RAM_SIZE;
use crate::state::SCREEN_CELLS;

verus! {

/// Index of the framebuffer cell at column `px`, row `py`.
pub open spec fn pixel_at(px: int, py: int) -> int {
    py * 64 + px
}

/// Whether column `c` (0 leftmost) of a sprite row byte is set; the most
/// significant bit is drawn leftmost.
pub open spec fn sprite_bit(sprite: u8, c: u8) -> bool {
    sprite & (0x80u8 >> c) != 0
}

/// The framebuffer cell that column `c` of a sprite row drawn at column
/// `vx`, screen row `py` lands on.
pub open spec fn row_cell(vx: u8, py: int, c: int) -> int {
    pixel_at((vx + c) % 64, py)
}

/// Whether cell `i` is one that the first `cols` columns of the sprite row
/// write (a set bit lands on it).
pub open spec fn row_touches(sprite: u8, vx: u8, py: int, cols: int, i: int) -> bool {
    exists|c: int| 0 <= c < cols && sprite_bit(sprite, c as u8) && i == #[trigger] row_cell(vx, py, c)
}

/// The framebuffer after XOR-drawing the first `cols` columns of one sprite
/// row byte onto screen row `py`, starting at column `vx` and wrapping at the
/// right edge.
pub open spec fn row_disp(disp: Seq<bool>, sprite: u8, vx: u8, py: int, cols: int) -> Seq<bool>
    decreases cols,
{
    if cols <= 0 {
        disp
    } else {
        let prev = row_disp(disp, sprite, vx, py, cols - 1);
        let c = cols - 1;
        if sprite_bit(sprite, c as u8) {
            let idx = pixel_at((vx + c) % 64, py);
            prev.update(idx, !prev[idx])
        } else {
            prev
        }
    }
}

/// Whether drawing the first `cols` columns of one sprite row turns some
/// previously lit cell off.
pub open spec fn row_collision(disp: Seq<bool>, sprite: u8, vx: u8, py: int, cols: int) -> bool
    decreases cols,
{
    if cols <= 0 {
        false
    } else {
        let prev = row_disp(disp, sprite, vx, py, cols - 1);
        let c = cols - 1;
        row_collision(disp, sprite, vx, py, cols - 1) || (sprite_bit(sprite, c as u8) && prev[
            pixel_at((vx + c) % 64, py)
        ])
    }
}

/// The framebuffer after drawing the first `rows` rows of the sprite whose
/// row bytes start at memory address `base`, at (`vx`, `vy`), both
/// coordinates wrapping.
pub open spec fn draw_disp(
    disp: Seq<bool>,
    mem: Seq<u8>,
    vx: u8,
    vy: u8,
    base: int,
    rows: int,
) -> Seq<bool>
    decreases rows,
{
    if rows <= 0 {
        disp
    } else {
        let prev = draw_disp(disp, mem, vx, vy, base, rows - 1);
        row_disp(prev, mem[base + rows - 1], vx, (vy + rows - 1) % 32, 8)
    }
}

/// Whether drawing the first `rows` rows of that sprite turns some
/// previously lit cell off.
pub open spec fn draw_collision(
    disp: Seq<bool>,
    mem: Seq<u8>,
    vx: u8,
    vy: u8,
    base: int,
    rows: int,
) -> bool
    decreases rows,
{
    if rows <= 0 {
        false
    } else {
        let prev = draw_disp(disp, mem, vx, vy, base, rows - 1);
        draw_collision(disp, mem, vx, vy, base, rows - 1) || row_collision(
            prev,
            mem[base + rows - 1],
            vx,
            (vy + rows - 1) % 32,
            8,
        )
    }
}

/// Whether any of the 16 keys is pressed.
pub open spec fn any_key_pressed(keys: Seq<bool>) -> bool {
    exists|k: int| 0 <= k < 16 && keys[k]
}

/// Whether `k` is the lowest-indexed pressed key.
pub open spec fn is_first_pressed(keys: Seq<bool>, k: int) -> bool {
    &&& 0 <= k < 16
    &&& keys[k]
    &&& forall|j: int| 0 <= j < k ==> !keys[j]
}

/// The lowest-indexed pressed key; meaningful only when one is pressed.
pub open spec fn first_pressed(keys: Seq<bool>) -> int {
    choose|k: int| is_first_pressed(keys, k)
}

/// At most one key is the lowest-indexed pressed one, so `first_pressed`
/// names exactly the key a scan from index 0 finds.
pub proof fn lemma_first_pressed_is(keys: Seq<bool>, k: int)
    requires
        is_first_pressed(keys, k),
    ensures
        any_key_pressed(keys),
        first_pressed(keys) == k,
{
    assert(any_key_pressed(keys));
    let kk = first_pressed(keys);
    assert(is_first_pressed(keys, kk));
    if kk < k {
        assert(keys[kk]);
        assert(!keys[kk]);
    } else if kk > k {
        assert(keys[k]);
        assert(!keys[k]);
    }
}

/// The memory after the block store of registers 0..=x at `base`.
pub open spec fn store_regs_mem(mem: Seq<u8>, regs: Seq<u8>, base: int, x: u8) -> Seq<u8> {
    Seq::new(
        mem.len(),
        |i: int|
            if base <= i <= base + x {
                regs[i - base]
            } else {
                mem[i]
            },
    )
}

/// The register file after the block load of memory[base..=base+x] into
/// registers 0..=x.
pub open spec fn load_regs_regs(mem: Seq<u8>, regs: Seq<u8>, base: int, x: u8) -> Seq<u8> {
    Seq::new(
        regs.len(),
        |i: int|
            if 0 <= i <= x {
                mem[base + i]
            } else {
                regs[i]
            },
    )
}

/// What one decoded instruction does to a machine whose program counter has
/// already advanced past it: the new state, and either the recoverable
/// outcome or a terminal fault (on a fault only the program counter has
/// moved). `rnd` is the byte the random-byte source produced, read only by
/// the Random instruction.
pub open spec fn execute_spec(v: Chip8View, ins: Instruction, rnd: u8) -> (Chip8View, Result<
    CycleEvent,
    Chip8Error,
>) {
    match ins {
        Instruction::ClearScreen => (
            Chip8View {
                display: Seq::new(SCREEN_CELLS as nat, |i: int| false),
                update_screen: true,
                ..v
            },
            Ok(CycleEvent::Executed),
        ),
        Instruction::Return => if v.stack.len() == 0 {
            (v, Err(Chip8Error::StackUnderflow))
        } else {
            (
                Chip8View { pc: v.stack.last(), stack: v.stack.drop_last(), ..v },
                Ok(CycleEvent::Executed),
            )
        },
        Instruction::Jump(nnn) => (Chip8View { pc: nnn, ..v }, Ok(CycleEvent::Executed)),
        Instruction::Call(nnn) => if v.stack.len() >= 16 {
            (v, Err(Chip8Error::StackOverflow))
        } else {
            (
                Chip8View { stack: v.stack.push(v.pc), pc: nnn, ..v },
                Ok(CycleEvent::Executed),
            )
        },
        Instruction::SkipEqImm(x, nn) => (
            Chip8View {
                pc: if v.regs[x as int] == nn {
                    (v.pc + 2) as u16
                } else {
                    v.pc
                },
                ..v
            },
            Ok(CycleEvent::Executed),
        ),
        Instruction::SkipNeImm(x, nn) => (
            Chip8View {
                pc: if v.regs[x as int] != nn {
                    (v.pc + 2) as u16
                } else {
                    v.pc
                },
                ..v
            },
            Ok(CycleEvent::Executed),
        ),
        Instruction::SkipEqReg(x, y) => (
            Chip8View {
                pc: if v.regs[x as int] == v.regs[y as int] {
                    (v.pc + 2) as u16
                } else {
                    v.pc
                },
                ..v
            },
            Ok(CycleEvent::Executed),
        ),
        Instruction::SetImm(x, nn) => (
            Chip8View { regs: v.regs.update(x as int, nn), ..v },
            Ok(CycleEvent::Executed),
        ),
        Instruction::AddImm(x, nn) => (
            Chip8View {
                regs: v.regs.update(x as int, ((v.regs[x as int] + nn) % 256) as u8),
                ..v
            },
            Ok(CycleEvent::Executed),
        ),
        Instruction::Move(x, y) => (
            Chip8View { regs: v.regs.update(x as int, v.regs[y as int]), ..v },
            Ok(CycleEvent::Executed),
        ),
        Instruction::Or(x, y) => (
            Chip8View { regs: v.regs.update(x as int, v.regs[x as int] | v.regs[y as int]), ..v },
            Ok(CycleEvent::Executed),
        ),
        Instruction::And(x, y) => (
            Chip8View { regs: v.regs.update(x as int, v.regs[x as int] & v.regs[y as int]), ..v },
            Ok(CycleEvent::Executed),
        ),
        Instruction::Xor(x, y) => (
            Chip8View { regs: v.regs.update(x as int, v.regs[x as int] ^ v.regs[y as int]), ..v },
            Ok(CycleEvent::Executed),
        ),
        Instruction::AddReg(x, y) => {
            let sum = v.regs[x as int] + v.regs[y as int];
            let flag: u8 = if sum > 255 {
                1
            } else {
                0
            };
            (
                Chip8View {
                    regs: v.regs.update(x as int, (sum % 256) as u8).update(15, flag),
                    ..v
                },
                Ok(CycleEvent::Executed),
            )
        },
        Instruction::SubReg(x, y) => {
            let a = v.regs[x as int];
            let b = v.regs[y as int];
            let diff: u8 = if a >= b {
                (a - b) as u8
            } else {
                (a - b + 256) as u8
            };
            let flag: u8 = if a >= b {
                1
            } else {
                0
            };
            (
                Chip8View { regs: v.regs.update(x as int, diff).update(15, flag), ..v },
                Ok(CycleEvent::Executed),
            )
        },
        Instruction::ShiftRight(x) => {
            let a = v.regs[x as int];
            (
                Chip8View {
                    regs: v.regs.update(x as int, (a / 2) as u8).update(15, (a % 2) as u8),
                    ..v
                },
                Ok(CycleEvent::Executed),
            )
        },
        Instruction::RevSub(x, y) => {
            let a = v.regs[x as int];
            let b = v.regs[y as int];
            let diff: u8 = if b >= a {
                (b - a) as u8
            } else {
                (b - a + 256) as u8
            };
            let flag: u8 = if b >= a {
                1
            } else {
                0
            };
            (
                Chip8View { regs: v.regs.update(x as int, diff).update(15, flag), ..v },
                Ok(CycleEvent::Executed),
            )
        },
        Instruction::ShiftLeft(x) => {
            let a = v.regs[x as int];
            (
                Chip8View {
                    regs: v.regs.update(x as int, ((a * 2) % 256) as u8).update(
                        15,
                        (a / 128) as u8,
                    ),
                    ..v
                },
                Ok(CycleEvent::Executed),
            )
        },
        Instruction::SkipNeReg(x, y) => (
            Chip8View {
                pc: if v.regs[x as int] != v.regs[y as int] {
                    (v.pc + 2) as u16
                } else {
                    v.pc
                },
                ..v
            },
            Ok(CycleEvent::Executed),
        ),
        Instruction::SetIndex(nnn) => (
            Chip8View { index: nnn, ..v },
            Ok(CycleEvent::Executed),
        ),
        Instruction::JumpOffset(nnn) => (
            Chip8View { pc: (nnn + v.regs[0]) as u16, ..v },
            Ok(CycleEvent::Executed),
        ),
        Instruction::Random(x, nn) => (
            Chip8View { regs: v.regs.update(x as int, rnd & nn), ..v },
            Ok(CycleEvent::Executed),
        ),
        Instruction::Draw(x, y, n) => if v.index + n > RAM_SIZE {
            (v, Err(Chip8Error::MemoryOutOfRange))
        } else {
            // The flag register is reset before the coordinates are read, so
            // when VF itself names a coordinate the coordinate is 0.
            let regs0 = v.regs.update(15, 0u8);
            let vx = regs0[x as int];
            let vy = regs0[y as int];
            let coll = draw_collision(v.display, v.mem, vx, vy, v.index as int, n as int);
            let flag: u8 = if coll {
                1
            } else {
                0
            };
            (
                Chip8View {
                    display: draw_disp(v.display, v.mem, vx, vy, v.index as int, n as int),
                    regs: v.regs.update(15, flag),
                    update_screen: true,
                    ..v
                },
                Ok(CycleEvent::Executed),
            )
        },
        Instruction::SkipIfKey(x) => {
            let k = v.regs[x as int] & 0xF;
            (
                Chip8View {
                    pc: if v.keys[k as int] {
                        (v.pc + 2) as u16
                    } else {
                        v.pc
                    },
                    ..v
                },
                Ok(CycleEvent::Executed),
            )
        },
        Instruction::SkipIfNotKey(x) => {
            let k = v.regs[x as int] & 0xF;
            (
                Chip8View {
                    pc: if !v.keys[k as int] {
                        (v.pc + 2) as u16
                    } else {
                        v.pc
                    },
                    ..v
                },
                Ok(CycleEvent::Executed),
            )
        },
        Instruction::ReadDelay(x) => (
            Chip8View { regs: v.regs.update(x as int, v.delay), ..v },
            Ok(CycleEvent::Executed),
        ),
        Instruction::WaitKey(x) => if any_key_pressed(v.keys) {
            (
                Chip8View { regs: v.regs.update(x as int, first_pressed(v.keys) as u8), ..v },
                Ok(CycleEvent::Executed),
            )
        } else {
            (
                Chip8View { pc: (v.pc - 2) as u16, ..v },
                Ok(CycleEvent::Executed),
            )
        },
        Instruction::SetDelay(x) => (
            Chip8View { delay: v.regs[x as int], ..v },
            Ok(CycleEvent::Executed),
        ),
        Instruction::SetSound(x) => (
            Chip8View { sound: v.regs[x as int], ..v },
            Ok(CycleEvent::Executed),
        ),
        Instruction::AddIndex(x) => (
            Chip8View { index: ((v.index + v.regs[x as int]) % 0x1000) as u16, ..v },
            Ok(CycleEvent::Executed),
        ),
        Instruction::FontAddr(x) => (
            Chip8View { index: ((v.regs[x as int] & 0xF) * 5) as u16, ..v },
            Ok(CycleEvent::Executed),
        ),
        Instruction::StoreBcd(x) => if v.index + 3 > RAM_SIZE {
            (v, Err(Chip8Error::MemoryOutOfRange))
        } else {
            let a = v.regs[x as int];
            (
                Chip8View {
                    mem: v.mem.update(v.index as int, (a / 100) as u8).update(
                        v.index + 1,
                        ((a / 10) % 10) as u8,
                    ).update(v.index + 2, (a % 10) as u8),
                    ..v
                },
                Ok(CycleEvent::Executed),
            )
        },
        Instruction::StoreRegs(x) => if v.index + x + 1 > RAM_SIZE {
            (v, Err(Chip8Error::MemoryOutOfRange))
        } else {
            (
                Chip8View { mem: store_regs_mem(v.mem, v.regs, v.index as int, x), ..v },
                Ok(CycleEvent::Executed),
            )
        },
        Instruction::LoadRegs(x) => if v.index + x + 1 > RAM_SIZE {
            (v, Err(Chip8Error::MemoryOutOfRange))
        } else {
            (
                Chip8View { regs: load_regs_regs(v.mem, v.regs, v.index as int, x), ..v },
                Ok(CycleEvent::Executed),
            )
        },
        Instruction::Unknown(op) => (v, Ok(CycleEvent::UnknownOpcode(op))),
    }
}

/// The opcode two consecutive memory bytes at the program counter spell,
/// high byte first.
pub open spec fn fetch(v: Chip8View) -> u16 {
    ((v.mem[v.pc as int] as u16) << 8) | (v.mem[v.pc as int + 1] as u16)
}

/// One whole fetch-decode-execute step: fetch the opcode at the program
/// counter (a fault if it does not lie wholly in memory), advance the
/// program counter past it, then run the decoded instruction. `rnd` is the
/// byte the random-byte source produced for this step.
pub open spec fn cycle_spec(pre: Chip8View, rnd: u8) -> (Chip8View, Result<
    CycleEvent,
    Chip8Error,
>) {
    if pre.pc + 1 < RAM_SIZE {
        let mid = Chip8View { pc: (pre.pc + 2) as u16, ..pre };
        execute_spec(mid, spec_decode(fetch(pre)), rnd)
    } else {
        (pre, Err(Chip8Error::MemoryOutOfRange))
    }
}

} // verus!
