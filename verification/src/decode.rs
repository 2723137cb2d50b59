use vstd::prelude::*;

verus! {

/// One decoded instruction. Register-index fields are always below 16 and
/// address fields below 0x1000 (`wf_instruction`, established by `decode`).
#[derive(Clone, Copy, Debug, PartialEq, Eq, Structural)]
pub enum Instruction {
    /// 00E0: reset every framebuffer cell to off.
    ClearScreen,
    /// 00EE: pop an address off the call stack into the program counter.
    Return,
    /// 1NNN: set the program counter to NNN.
    Jump(u16),
    /// 2NNN: push the program counter, then set it to NNN.
    Call(u16),
    /// 3XNN: skip the next instruction if VX equals NN.
    SkipEqImm(u8, u8),
    /// 4XNN: skip the next instruction if VX differs from NN.
    SkipNeImm(u8, u8),
    /// 5XY0: skip the next instruction if VX equals VY.
    SkipEqReg(u8, u8),
    /// 6XNN: set VX to NN.
    SetImm(u8, u8),
    /// 7XNN: add NN to VX, wrapping, without touching the flag.
    AddImm(u8, u8),
    /// 8XY0: copy VY into VX.
    Move(u8, u8),
    /// 8XY1: VX |= VY.
    Or(u8, u8),
    /// 8XY2: VX &= VY.
    And(u8, u8),
    /// 8XY3: VX ^= VY.
    Xor(u8, u8),
    /// 8XY4: VX += VY wrapping; VF becomes the carry.
    AddReg(u8, u8),
    /// 8XY5: VX -= VY wrapping; VF becomes 1 exactly when no borrow occurred.
    SubReg(u8, u8),
    /// 8XY6: VF becomes the low bit of VX, then VX is halved.
    ShiftRight(u8),
    /// 8XY7: VX = VY - VX wrapping; VF becomes 1 exactly when no borrow.
    RevSub(u8, u8),
    /// 8XYE: VF becomes the high bit of VX, then VX is doubled mod 256.
    ShiftLeft(u8),
    /// 9XY0: skip the next instruction if VX differs from VY.
    SkipNeReg(u8, u8),
    /// ANNN: set the index register to NNN.
    SetIndex(u16),
    /// BNNN: set the program counter to NNN plus V0.
    JumpOffset(u16),
    /// CXNN: set VX to a random byte masked with NN.
    Random(u8, u8),
    /// DXYN: draw the N-row sprite at memory[index..] at (VX, VY).
    Draw(u8, u8, u8),
    /// EX9E: skip the next instruction if the key indexed by VX is pressed.
    SkipIfKey(u8),
    /// EXA1: skip the next instruction if that key is not pressed.
    SkipIfNotKey(u8),
    /// FX07: copy the delay timer into VX.
    ReadDelay(u8),
    /// FX0A: wait for a key: store the lowest pressed key index into VX, or
    /// roll the program counter back so the instruction is fetched again.
    WaitKey(u8),
    /// FX15: copy VX into the delay timer.
    SetDelay(u8),
    /// FX18: copy VX into the sound timer.
    SetSound(u8),
    /// FX1E: add VX to the index register, wrapping at 0x1000.
    AddIndex(u8),
    /// FX29: point the index register at the glyph for VX's low nibble.
    FontAddr(u8),
    /// FX33: write VX's decimal digits at memory[index..index + 3].
    StoreBcd(u8),
    /// FX55: copy V0..=VX into memory starting at the index register.
    StoreRegs(u8),
    /// FX65: copy memory starting at the index register into V0..=VX.
    LoadRegs(u8),
    /// Any opcode that matches no defined instruction, kept for diagnostics.
    Unknown(u16),
}

/// Register-index field `x`: bits 8..12 of the opcode.
pub open spec fn field_x(op: u16) -> u8 {
    ((op >> 8) & 0xF) as u8
}

/// Register-index field `y`: bits 4..8 of the opcode.
pub open spec fn field_y(op: u16) -> u8 {
    ((op >> 4) & 0xF) as u8
}

/// 4-bit immediate `n`: bits 0..4 of the opcode.
pub open spec fn field_n(op: u16) -> u8 {
    (op & 0xF) as u8
}

/// 8-bit immediate `nn`: bits 0..8 of the opcode.
pub open spec fn field_nn(op: u16) -> u8 {
    (op & 0xFF) as u8
}

/// 12-bit immediate `nnn`: bits 0..12 of the opcode.
pub open spec fn field_nnn(op: u16) -> u16 {
    op & 0xFFF
}

/// What any 16-bit opcode decodes to: the top nibble selects the instruction
/// family, sub-fields select within it, and everything unmatched is Unknown.
pub open spec fn spec_decode(op: u16) -> Instruction {
    let x = field_x(op);
    let y = field_y(op);
    let n = field_n(op);
    let nn = field_nn(op);
    let nnn = field_nnn(op);
    let family = op >> 12;
    if op == 0x00E0 {
        Instruction::ClearScreen
    } else if op == 0x00EE {
        Instruction::Return
    } else if family == 0x1 {
        Instruction::Jump(nnn)
    } else if family == 0x2 {
        Instruction::Call(nnn)
    } else if family == 0x3 {
        Instruction::SkipEqImm(x, nn)
    } else if family == 0x4 {
        Instruction::SkipNeImm(x, nn)
    } else if family == 0x5 && n == 0 {
        Instruction::SkipEqReg(x, y)
    } else if family == 0x6 {
        Instruction::SetImm(x, nn)
    } else if family == 0x7 {
        Instruction::AddImm(x, nn)
    } else if family == 0x8 {
        if n == 0x0 {
            Instruction::Move(x, y)
        } else if n == 0x1 {
            Instruction::Or(x, y)
        } else if n == 0x2 {
            Instruction::And(x, y)
        } else if n == 0x3 {
            Instruction::Xor(x, y)
        } else if n == 0x4 {
            Instruction::AddReg(x, y)
        } else if n == 0x5 {
            Instruction::SubReg(x, y)
        } else if n == 0x6 {
            Instruction::ShiftRight(x)
        } else if n == 0x7 {
            Instruction::RevSub(x, y)
        } else if n == 0xE {
            Instruction::ShiftLeft(x)
        } else {
            Instruction::Unknown(op)
        }
    } else if family == 0x9 && n == 0 {
        Instruction::SkipNeReg(x, y)
    } else if family == 0xA {
        Instruction::SetIndex(nnn)
    } else if family == 0xB {
        Instruction::JumpOffset(nnn)
    } else if family == 0xC {
        Instruction::Random(x, nn)
    } else if family == 0xD {
        Instruction::Draw(x, y, n)
    } else if family == 0xE && nn == 0x9E {
        Instruction::SkipIfKey(x)
    } else if family == 0xE && nn == 0xA1 {
        Instruction::SkipIfNotKey(x)
    } else if family == 0xF {
        if nn == 0x07 {
            Instruction::ReadDelay(x)
        } else if nn == 0x0A {
            Instruction::WaitKey(x)
        } else if nn == 0x15 {
            Instruction::SetDelay(x)
        } else if nn == 0x18 {
            Instruction::SetSound(x)
        } else if nn == 0x1E {
            Instruction::AddIndex(x)
        } else if nn == 0x29 {
            Instruction::FontAddr(x)
        } else if nn == 0x33 {
            Instruction::StoreBcd(x)
        } else if nn == 0x55 {
            Instruction::StoreRegs(x)
        } else if nn == 0x65 {
            Instruction::LoadRegs(x)
        } else {
            Instruction::Unknown(op)
        }
    } else {
        Instruction::Unknown(op)
    }
}

/// Bounds the opcode fields guarantee: register indices and the draw height
/// fit in a nibble, addresses fit in 12 bits.
pub open spec fn wf_instruction(ins: Instruction) -> bool {
    match ins {
        Instruction::ClearScreen => true,
        Instruction::Return => true,
        Instruction::Jump(nnn) => nnn < 0x1000,
        Instruction::Call(nnn) => nnn < 0x1000,
        Instruction::SkipEqImm(x, _) => x < 16,
        Instruction::SkipNeImm(x, _) => x < 16,
        Instruction::SkipEqReg(x, y) => x < 16 && y < 16,
        Instruction::SetImm(x, _) => x < 16,
        Instruction::AddImm(x, _) => x < 16,
        Instruction::Move(x, y) => x < 16 && y < 16,
        Instruction::Or(x, y) => x < 16 && y < 16,
        Instruction::And(x, y) => x < 16 && y < 16,
        Instruction::Xor(x, y) => x < 16 && y < 16,
        Instruction::AddReg(x, y) => x < 16 && y < 16,
        Instruction::SubReg(x, y) => x < 16 && y < 16,
        Instruction::ShiftRight(x) => x < 16,
        Instruction::RevSub(x, y) => x < 16 && y < 16,
        Instruction::ShiftLeft(x) => x < 16,
        Instruction::SkipNeReg(x, y) => x < 16 && y < 16,
        Instruction::SetIndex(nnn) => nnn < 0x1000,
        Instruction::JumpOffset(nnn) => nnn < 0x1000,
        Instruction::Random(x, _) => x < 16,
        Instruction::Draw(x, y, n) => x < 16 && y < 16 && n < 16,
        Instruction::SkipIfKey(x) => x < 16,
        Instruction::SkipIfNotKey(x) => x < 16,
        Instruction::ReadDelay(x) => x < 16,
        Instruction::WaitKey(x) => x < 16,
        Instruction::SetDelay(x) => x < 16,
        Instruction::SetSound(x) => x < 16,
        Instruction::AddIndex(x) => x < 16,
        Instruction::FontAddr(x) => x < 16,
        Instruction::StoreBcd(x) => x < 16,
        Instruction::StoreRegs(x) => x < 16,
        Instruction::LoadRegs(x) => x < 16,
        Instruction::Unknown(_) => true,
    }
}

/// Every opcode decodes to an instruction with in-range fields.
pub proof fn lemma_decode_wf(op: u16)
    ensures
        wf_instruction(spec_decode(op)),
{
    assert((((op >> 8) & 0xF) as u8) < 16) by (bit_vector);
    assert((((op >> 4) & 0xF) as u8) < 16) by (bit_vector);
    assert(((op & 0xF) as u8) < 16) by (bit_vector);
    assert((op & 0xFFF) < 0x1000) by (bit_vector);
}

/// Split a 16-bit opcode into its addressing fields and select the matching
/// instruction; total, with no side effects.
pub fn decode(op: u16) -> (r: Instruction)
    ensures
        r == spec_decode(op),
        wf_instruction(r),
{
    proof {
        lemma_decode_wf(op);
    }
    let x: u8 = ((op >> 8) & 0xF) as u8;
    let y: u8 = ((op >> 4) & 0xF) as u8;
    let n: u8 = (op & 0xF) as u8;
    let nn: u8 = (op & 0xFF) as u8;
    let nnn: u16 = op & 0xFFF;
    let family: u16 = op >> 12;
    if op == 0x00E0 {
        Instruction::ClearScreen
    } else if op == 0x00EE {
        Instruction::Return
    } else if family == 0x1 {
        Instruction::Jump(nnn)
    } else if family == 0x2 {
        Instruction::Call(nnn)
    } else if family == 0x3 {
        Instruction::SkipEqImm(x, nn)
    } else if family == 0x4 {
        Instruction::SkipNeImm(x, nn)
    } else if family == 0x5 && n == 0 {
        Instruction::SkipEqReg(x, y)
    } else if family == 0x6 {
        Instruction::SetImm(x, nn)
    } else if family == 0x7 {
        Instruction::AddImm(x, nn)
    } else if family == 0x8 {
        if n == 0x0 {
            Instruction::Move(x, y)
        } else if n == 0x1 {
            Instruction::Or(x, y)
        } else if n == 0x2 {
            Instruction::And(x, y)
        } else if n == 0x3 {
            Instruction::Xor(x, y)
        } else if n == 0x4 {
            Instruction::AddReg(x, y)
        } else if n == 0x5 {
            Instruction::SubReg(x, y)
        } else if n == 0x6 {
            Instruction::ShiftRight(x)
        } else if n == 0x7 {
            Instruction::RevSub(x, y)
        } else if n == 0xE {
            Instruction::ShiftLeft(x)
        } else {
            Instruction::Unknown(op)
        }
    } else if family == 0x9 && n == 0 {
        Instruction::SkipNeReg(x, y)
    } else if family == 0xA {
        Instruction::SetIndex(nnn)
    } else if family == 0xB {
        Instruction::JumpOffset(nnn)
    } else if family == 0xC {
        Instruction::Random(x, nn)
    } else if family == 0xD {
        Instruction::Draw(x, y, n)
    } else if family == 0xE && nn == 0x9E {
        Instruction::SkipIfKey(x)
    } else if family == 0xE && nn == 0xA1 {
        Instruction::SkipIfNotKey(x)
    } else if family == 0xF {
        if nn == 0x07 {
            Instruction::ReadDelay(x)
        } else if nn == 0x0A {
            Instruction::WaitKey(x)
        } else if nn == 0x15 {
            Instruction::SetDelay(x)
        } else if nn == 0x18 {
            Instruction::SetSound(x)
        } else if nn == 0x1E {
            Instruction::AddIndex(x)
        } else if nn == 0x29 {
            Instruction::FontAddr(x)
        } else if nn == 0x33 {
            Instruction::StoreBcd(x)
        } else if nn == 0x55 {
            Instruction::StoreRegs(x)
        } else if nn == 0x65 {
            Instruction::LoadRegs(x)
        } else {
            Instruction::Unknown(op)
        }
    } else {
        Instruction::Unknown(op)
    }
}

} // verus!
