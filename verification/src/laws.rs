use vstd::prelude::*;

use crate::decode::Instruction;
use crate::decode::lemma_decode_wf;
use crate::decode::spec_decode;
use crate::decode::wf_instruction;
use crate::semantics::any_key_pressed;
use crate::semantics::cycle_spec;
use crate::semantics::draw_collision;
use crate::semantics::draw_disp;
use crate::semantics::row_cell;
use crate::semantics::row_collision;
use crate::semantics::row_disp;
use crate::semantics::row_touches;
use crate::semantics::sprite_bit;
use crate::semantics::execute_spec;
use crate::semantics::fetch;
use crate::semantics::first_pressed;
use crate::semantics::is_first_pressed;
use crate::semantics::lemma_first_pressed_is;
use crate::state::Chip8Error;
use crate::state::Chip8View;
use crate::state::CycleEvent;
use crate::state::RAM_SIZE;
use crate::state::SCREEN_CELLS;
use crate::state::view_wf;

verus! {

/// Writing a register then reading it yields the written value: for every
/// register index and every byte, the set-immediate instruction leaves
/// exactly that byte in that register.
pub proof fn lemma_register_write_read(v: Chip8View, x: u8, nn: u8, rnd: u8)
    requires
        view_wf(v),
        x < 16,
    ensures
        execute_spec(v, Instruction::SetImm(x, nn), rnd).0.regs[x as int] == nn,
{
}

/// After the clear-screen instruction every framebuffer cell reports off,
/// regardless of the prior contents of the screen.
pub proof fn lemma_clear_screen(v: Chip8View, rnd: u8)
    requires
        view_wf(v),
    ensures
        forall|i: int|
            0 <= i < SCREEN_CELLS ==> !execute_spec(
                v,
                Instruction::ClearScreen,
                rnd,
            ).0.display[i],
{
}

/// The jump instruction sets the program counter to exactly its target, for
/// every 12-bit target address.
pub proof fn lemma_jump(v: Chip8View, nnn: u16, rnd: u8)
    requires
        view_wf(v),
        nnn < 0x1000,
    ensures
        execute_spec(v, Instruction::Jump(nnn), rnd).0.pc == nnn,
{
}

/// A call followed by a return restores the program counter to the value it
/// held right after the call instruction's own fetch, and the stack to its
/// depth before the call (`v` is the state with the program counter already
/// advanced past the call instruction).
pub proof fn lemma_call_return(v: Chip8View, nnn: u16, rnd1: u8, rnd2: u8)
    requires
        view_wf(v),
        v.stack.len() < 16,
    ensures
        ({
            let called = execute_spec(v, Instruction::Call(nnn), rnd1).0;
            let returned = execute_spec(called, Instruction::Return, rnd2).0;
            &&& called.pc == nnn
            &&& called.stack.len() == v.stack.len() + 1
            &&& returned.pc == v.pc
            &&& returned.stack == v.stack
        }),
{
    assert(v.stack.push(v.pc).drop_last() =~= v.stack);
}

/// Add-with-carry: the flag register reports exactly whether the unwrapped
/// sum exceeds 255, and the destination (when it is not the flag register
/// itself, which the flag overwrites) holds the sum modulo 256.
pub proof fn lemma_add_with_carry(v: Chip8View, x: u8, y: u8, rnd: u8)
    requires
        view_wf(v),
        x < 16,
        y < 16,
    ensures
        ({
            let a = v.regs[x as int];
            let b = v.regs[y as int];
            let after = execute_spec(v, Instruction::AddReg(x, y), rnd).0;
            &&& after.regs[15] == (if a + b > 255 {
                1u8
            } else {
                0u8
            })
            &&& x != 15 ==> after.regs[x as int] == ((a + b) % 256) as u8
        }),
{
}

/// Two distinct columns of one sprite row land on distinct framebuffer
/// cells: the horizontal wrap cannot fold columns less than 64 apart
/// together.
proof fn lemma_row_cells_distinct(vx: u8, py: int, c1: int, c2: int)
    requires
        0 <= c1 < c2 < 8,
    ensures
        row_cell(vx, py, c1) != row_cell(vx, py, c2),
{
    let a = vx + c1;
    let b = vx + c2;
    vstd::arithmetic::div_mod::lemma_mod_bound(a, 64);
    vstd::arithmetic::div_mod::lemma_mod_bound(b, 64);
    vstd::arithmetic::div_mod::lemma_fundamental_div_mod(a, 64);
    vstd::arithmetic::div_mod::lemma_fundamental_div_mod(b, 64);
    if a % 64 == b % 64 {
        let k = b / 64 - a / 64;
        assert(b - a == 64 * k);
        assert(k >= 1 ==> 64 * k >= 64);
        assert(k <= 0 ==> 64 * k <= 0);
        assert(false);
    }
}

/// A sprite row keeps the framebuffer's size.
proof fn lemma_row_disp_len(disp: Seq<bool>, sprite: u8, vx: u8, py: int, cols: int)
    requires
        disp.len() == 2048,
        0 <= py < 32,
        0 <= cols <= 8,
    ensures
        row_disp(disp, sprite, vx, py, cols).len() == 2048,
    decreases cols,
{
    if cols > 0 {
        lemma_row_disp_len(disp, sprite, vx, py, cols - 1);
        vstd::arithmetic::div_mod::lemma_mod_bound(vx + (cols - 1), 64);
    }
}

/// What one sprite row does to each cell: the cells its set bits land on
/// toggle, every other cell keeps its state.
proof fn lemma_row_disp_effect(disp: Seq<bool>, sprite: u8, vx: u8, py: int, cols: int, i: int)
    requires
        disp.len() == 2048,
        0 <= py < 32,
        0 <= cols <= 8,
        0 <= i < 2048,
    ensures
        row_disp(disp, sprite, vx, py, cols)[i] == (if row_touches(sprite, vx, py, cols, i) {
            !disp[i]
        } else {
            disp[i]
        }),
    decreases cols,
{
    if cols == 0 {
        assert(!row_touches(sprite, vx, py, 0, i));
    } else {
        let c0 = cols - 1;
        let prev = row_disp(disp, sprite, vx, py, c0);
        lemma_row_disp_len(disp, sprite, vx, py, c0);
        lemma_row_disp_effect(disp, sprite, vx, py, c0, i);
        let idx0 = row_cell(vx, py, c0);
        vstd::arithmetic::div_mod::lemma_mod_bound(vx + c0, 64);
        assert(0 <= idx0 < 2048);
        if sprite_bit(sprite, c0 as u8) {
            lemma_row_disp_effect(disp, sprite, vx, py, c0, idx0);
            if i == idx0 {
                assert(!row_touches(sprite, vx, py, c0, i)) by {
                    if row_touches(sprite, vx, py, c0, i) {
                        let c = choose|c: int|
                            0 <= c < c0 && sprite_bit(sprite, c as u8) && i == #[trigger] row_cell(
                                vx,
                                py,
                                c,
                            );
                        lemma_row_cells_distinct(vx, py, c, c0);
                    }
                };
                assert(prev[i] == disp[i]);
                assert(row_touches(sprite, vx, py, cols, i)) by {
                    assert(0 <= c0 < cols && sprite_bit(sprite, c0 as u8) && i == row_cell(
                        vx,
                        py,
                        c0,
                    ));
                };
                assert(row_disp(disp, sprite, vx, py, cols)[i] == !disp[i]);
            } else {
                assert(row_disp(disp, sprite, vx, py, cols)[i] == prev[i]);
                assert(row_touches(sprite, vx, py, cols, i) == row_touches(
                    sprite,
                    vx,
                    py,
                    c0,
                    i,
                )) by {
                    if row_touches(sprite, vx, py, cols, i) {
                        let c = choose|c: int|
                            0 <= c < cols && sprite_bit(sprite, c as u8) && i == #[trigger] row_cell(
                                vx,
                                py,
                                c,
                            );
                        assert(c != c0);
                        assert(0 <= c < c0 && sprite_bit(sprite, c as u8) && i == row_cell(
                            vx,
                            py,
                            c,
                        ));
                    }
                };
            }
        } else {
            assert(row_disp(disp, sprite, vx, py, cols)[i] == prev[i]);
            assert(row_touches(sprite, vx, py, cols, i) == row_touches(sprite, vx, py, c0, i))
                by {
                if row_touches(sprite, vx, py, cols, i) {
                    let c = choose|c: int|
                        0 <= c < cols && sprite_bit(sprite, c as u8) && i == #[trigger] row_cell(
                            vx,
                            py,
                            c,
                        );
                    assert(c != c0);
                    assert(0 <= c < c0 && sprite_bit(sprite, c as u8) && i == row_cell(vx, py, c));
                }
            };
        }
    }
}

/// A collision seen while scanning the first `cols1` columns is still
/// reported after scanning more of the row.
proof fn lemma_row_collision_mono(
    disp: Seq<bool>,
    sprite: u8,
    vx: u8,
    py: int,
    cols1: int,
    cols2: int,
)
    requires
        0 <= cols1 <= cols2,
        row_collision(disp, sprite, vx, py, cols1),
    ensures
        row_collision(disp, sprite, vx, py, cols2),
    decreases cols2,
{
    if cols1 < cols2 {
        lemma_row_collision_mono(disp, sprite, vx, py, cols1, cols2 - 1);
    }
}

/// Drawing one sprite row twice in a row at the same spot restores the
/// framebuffer exactly: the second draw erases everything the first drew.
pub proof fn lemma_row_draw_twice_restores(disp: Seq<bool>, sprite: u8, vx: u8, py: int)
    requires
        disp.len() == 2048,
        0 <= py < 32,
    ensures
        row_disp(row_disp(disp, sprite, vx, py, 8), sprite, vx, py, 8) == disp,
{
    let d1 = row_disp(disp, sprite, vx, py, 8);
    let d2 = row_disp(d1, sprite, vx, py, 8);
    lemma_row_disp_len(disp, sprite, vx, py, 8);
    lemma_row_disp_len(d1, sprite, vx, py, 8);
    assert forall|i: int| 0 <= i < 2048 implies d2[i] == disp[i] by {
        lemma_row_disp_effect(disp, sprite, vx, py, 8, i);
        lemma_row_disp_effect(d1, sprite, vx, py, 8, i);
    };
    assert(d2 =~= disp);
}

/// Drawing a sprite row with at least one set bit twice in a row over a
/// spot where its cells started dark reports a collision on the second
/// draw: the first draw lit those cells and the second turns one off.
pub proof fn lemma_row_draw_twice_collides(disp: Seq<bool>, sprite: u8, vx: u8, py: int, c: int)
    requires
        disp.len() == 2048,
        0 <= py < 32,
        0 <= c < 8,
        sprite_bit(sprite, c as u8),
        forall|j: int|
            0 <= j < 8 && sprite_bit(sprite, j as u8) ==> !disp[#[trigger] row_cell(vx, py, j)],
    ensures
        row_collision(row_disp(disp, sprite, vx, py, 8), sprite, vx, py, 8),
{
    let d1 = row_disp(disp, sprite, vx, py, 8);
    let i = row_cell(vx, py, c);
    lemma_row_disp_len(disp, sprite, vx, py, 8);
    vstd::arithmetic::div_mod::lemma_mod_bound(vx + c, 64);
    assert(0 <= i < 2048);
    assert(row_touches(sprite, vx, py, 8, i)) by {
        assert(0 <= c < 8 && sprite_bit(sprite, c as u8) && i == row_cell(vx, py, c));
    };
    lemma_row_disp_effect(disp, sprite, vx, py, 8, i);
    assert(d1[i]);
    lemma_row_disp_effect(d1, sprite, vx, py, c, i);
    assert(!row_touches(sprite, vx, py, c, i)) by {
        if row_touches(sprite, vx, py, c, i) {
            let j = choose|j: int|
                0 <= j < c && sprite_bit(sprite, j as u8) && i == #[trigger] row_cell(vx, py, j);
            lemma_row_cells_distinct(vx, py, j, c);
        }
    };
    assert(row_disp(d1, sprite, vx, py, c)[i]);
    assert(row_collision(d1, sprite, vx, py, c + 1));
    lemma_row_collision_mono(d1, sprite, vx, py, c + 1, 8);
}

/// A sprite row with no set bit never collides.
proof fn lemma_row_no_bits_no_collision(disp: Seq<bool>, sprite: u8, vx: u8, py: int, cols: int)
    requires
        0 <= cols <= 8,
        forall|c: u8| c < 8 ==> !sprite_bit(sprite, c),
    ensures
        !row_collision(disp, sprite, vx, py, cols),
    decreases cols,
{
    if cols > 0 {
        lemma_row_no_bits_no_collision(disp, sprite, vx, py, cols - 1);
    }
}

/// Drawing the same single-row sprite twice at the same coordinates, on a
/// dark screen: after the second draw every affected cell is off again (the
/// whole framebuffer is exactly as it started) and the collision flag
/// reports 1 exactly when the sprite row has any set bit.
pub proof fn lemma_single_row_draw_twice(v: Chip8View, x: u8, y: u8, rnd1: u8, rnd2: u8)
    requires
        view_wf(v),
        x < 16,
        y < 16,
        v.index + 1 <= RAM_SIZE,
        forall|i: int| 0 <= i < SCREEN_CELLS ==> !v.display[i],
    ensures
        ({
            let sprite = v.mem[v.index as int];
            let v1 = execute_spec(v, Instruction::Draw(x, y, 1), rnd1).0;
            let v2 = execute_spec(v1, Instruction::Draw(x, y, 1), rnd2).0;
            &&& v2.display == v.display
            &&& v2.regs[15] == (if exists|c: u8| c < 8 && #[trigger] sprite_bit(sprite, c) {
                1u8
            } else {
                0u8
            })
        }),
{
    let base = v.index as int;
    let sprite = v.mem[base];
    let regs0 = v.regs.update(15, 0u8);
    let vx = regs0[x as int];
    let vy = regs0[y as int];
    let py: int = (vy as int) % 32;
    vstd::arithmetic::div_mod::lemma_mod_bound(vy as int, 32);
    let v1 = execute_spec(v, Instruction::Draw(x, y, 1), rnd1).0;
    let v2 = execute_spec(v1, Instruction::Draw(x, y, 1), rnd2).0;

    // One row unfolds to one row_disp pass.
    assert(draw_disp(v.display, v.mem, vx, vy, base, 0) == v.display);
    assert(v1.display == row_disp(v.display, sprite, vx, py, 8));
    lemma_row_disp_len(v.display, sprite, vx, py, 8);

    // The second draw reads the same sprite byte and the same coordinates:
    // memory and the index are untouched, and the flag write cannot change
    // the coordinate registers once the flag is reset again.
    assert(v1.regs.update(15, 0u8) =~= regs0);
    assert(v2.display == row_disp(v1.display, sprite, vx, py, 8));
    assert(v1.mem == v.mem);
    assert(draw_disp(v1.display, v1.mem, vx, vy, base, 0) == v1.display);
    assert(!draw_collision(v1.display, v1.mem, vx, vy, base, 0));
    assert((vy + 0) % 32 == py);
    assert(v1.mem[base] == sprite);
    assert(draw_collision(v1.display, v1.mem, vx, vy, base, 1) == row_collision(
        v1.display,
        sprite,
        vx,
        py,
        8,
    ));

    lemma_row_draw_twice_restores(v.display, sprite, vx, py);
    assert(v2.display == v.display);

    if exists|c: u8| c < 8 && #[trigger] sprite_bit(sprite, c) {
        let c = choose|c: u8| c < 8 && #[trigger] sprite_bit(sprite, c);
        assert forall|j: int|
            0 <= j < 8 && sprite_bit(sprite, j as u8) implies !v.display[#[trigger] row_cell(
            vx,
            py,
            j,
        )] by {
            vstd::arithmetic::div_mod::lemma_mod_bound(vx + j, 64);
        };
        lemma_row_draw_twice_collides(v.display, sprite, vx, py, c as int);
        assert(row_collision(v1.display, sprite, vx, py, 8));
        assert(v2.regs[15] == 1);
    } else {
        assert forall|c: u8| c < 8 implies !sprite_bit(sprite, c) by {};
        lemma_row_no_bits_no_collision(v1.display, sprite, vx, py, 8);
        assert(v2.regs[15] == 0);
    }
}

/// Among the keys pressed there is a lowest-indexed one.
proof fn lemma_exists_first_pressed(keys: Seq<bool>, k: int)
    requires
        keys.len() == 16,
        0 <= k < 16,
        keys[k],
    ensures
        exists|j: int| is_first_pressed(keys, j),
    decreases k,
{
    if forall|j: int| 0 <= j < k ==> !keys[j] {
        assert(is_first_pressed(keys, k));
    } else {
        let j = choose|j: int| 0 <= j < k && keys[j];
        lemma_exists_first_pressed(keys, j);
    }
}

/// Wait-for-key with no key pressed: a whole cycle whose fetched instruction
/// is wait-for-key leaves the machine exactly as it was, so the program
/// counter does not move and the same instruction is fetched again on every
/// later cycle until a key appears.
pub proof fn lemma_wait_key_no_press(pre: Chip8View, x: u8, rnd: u8)
    requires
        view_wf(pre),
        pre.pc + 1 < RAM_SIZE,
        spec_decode(fetch(pre)) == Instruction::WaitKey(x),
        forall|k: int| 0 <= k < 16 ==> !pre.keys[k],
    ensures
        cycle_spec(pre, rnd).0 == pre,
        cycle_spec(pre, rnd).1 == Ok::<CycleEvent, Chip8Error>(CycleEvent::Executed),
{
    let mid = Chip8View { pc: (pre.pc + 2) as u16, ..pre };
    assert(!any_key_pressed(pre.keys));
    assert(cycle_spec(pre, rnd).0 == (Chip8View { pc: (mid.pc - 2) as u16, ..mid }));
    assert(cycle_spec(pre, rnd).0 == pre);
}

/// Wait-for-key once a key is pressed: the destination register receives the
/// lowest-indexed pressed key and the program counter advances past the
/// instruction.
pub proof fn lemma_wait_key_press(pre: Chip8View, x: u8, rnd: u8)
    requires
        view_wf(pre),
        pre.pc + 1 < RAM_SIZE,
        spec_decode(fetch(pre)) == Instruction::WaitKey(x),
        any_key_pressed(pre.keys),
    ensures
        ({
            let after = cycle_spec(pre, rnd).0;
            &&& after.pc == pre.pc + 2
            &&& is_first_pressed(pre.keys, after.regs[x as int] as int)
        }),
{
    lemma_decode_wf(fetch(pre));
    assert(wf_instruction(Instruction::WaitKey(x)));
    let k = choose|k: int| 0 <= k < 16 && pre.keys[k];
    lemma_exists_first_pressed(pre.keys, k);
    let j = choose|j: int| is_first_pressed(pre.keys, j);
    lemma_first_pressed_is(pre.keys, j);
    assert(first_pressed(pre.keys) == j);
}

} // verus!
