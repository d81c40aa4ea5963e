//! Decoding of 16-bit CHIP-8 instruction words.
use vstd::prelude::*;

verus! {

/// One decoded CHIP-8 instruction. Register operands are ids `0..16`,
/// addresses are 12-bit, byte constants are 8-bit and the draw height is
/// a 4-bit constant.
#[derive(Clone, Copy, Debug, PartialEq, Eq, Structural)]
pub enum Opcode {
    /// `0NNN`: call a native routine; a no-op here.
    MachineCode(u16),
    /// `00E0`
    ClearScreen,
    /// `00EE`
    ReturnFromSub,
    /// `1NNN`
    Goto(u16),
    /// `2NNN`
    CallSub(u16),
    /// `3XNN`
    SkipEQ(u8, u8),
    /// `4XNN`
    SkipNEQ(u8, u8),
    /// `5XY0`
    SkipRegEQ(u8, u8),
    /// `6XNN`
    SetConst(u8, u8),
    /// `7XNN`
    AddConst(u8, u8),
    /// `8XY0`
    SetReg(u8, u8),
    /// `8XY1`
    Or(u8, u8),
    /// `8XY2`
    And(u8, u8),
    /// `8XY3`
    Xor(u8, u8),
    /// `8XY4`: add with carry.
    AddReg(u8, u8),
    /// `8XY5`: subtract with borrow.
    SubReg(u8, u8),
    /// `8XY6`: shift right.
    Div2(u8, u8),
    /// `8XY7`: reverse subtract.
    DiffReg(u8, u8),
    /// `8XYE`: shift left.
    Mul2(u8, u8),
    /// `9XY0`
    SkipRegNEQ(u8, u8),
    /// `ANNN`
    SetAR(u16),
    /// `BNNN`: jump to `NNN + V0`.
    Jump(u16),
    /// `CXNN`
    Rand(u8, u8),
    /// `DXYN`
    Draw(u8, u8, u8),
    /// `EX9E`
    KeyEQ(u8),
    /// `EXA1`
    KeyNEQ(u8),
    /// `FX07`
    GetDelayTimer(u8),
    /// `FX0A`
    GetKey(u8),
    /// `FX15`
    SetDelayTimer(u8),
    /// `FX18`
    SetSoundTimer(u8),
    /// `FX1E`
    AddToI(u8),
    /// `FX29`
    SetISprite(u8),
    /// `FX33`
    BCD(u8),
    /// `FX55`
    RegDump(u8),
    /// `FX65`
    RegLoad(u8),
}

/// Nibble `k` of `w`, counted from the least significant: bits `4k` to
/// `4k + 3`.
pub open spec fn nibble(w: u16, k: int) -> u8 {
    if k == 3 {
        (w / 4096) as u8
    } else if k == 2 {
        ((w / 256) % 16) as u8
    } else if k == 1 {
        ((w / 16) % 16) as u8
    } else {
        (w % 16) as u8
    }
}

pub open spec fn join2(a: u8, b: u8) -> u8 {
    (a * 16 + b) as u8
}

pub open spec fn join3(a: u8, b: u8, c: u8) -> u16 {
    (a * 256 + b * 16 + c) as u16
}

/// What a word decodes to, by its nibbles `n0 n1 n2 n3` (most significant
/// first); `None` where no instruction has that bit pattern.
pub open spec fn decode_nibbles(n0: u8, n1: u8, n2: u8, n3: u8) -> Option<Opcode> {
    let addr = join3(n1, n2, n3);
    let byte = join2(n2, n3);
    if n0 == 0x0 {
        if n1 == 0x0 && n2 == 0xe && n3 == 0x0 {
            Some(Opcode::ClearScreen)
        } else if n1 == 0x0 && n2 == 0xe && n3 == 0xe {
            Some(Opcode::ReturnFromSub)
        } else {
            Some(Opcode::MachineCode(addr))
        }
    } else if n0 == 0x1 {
        Some(Opcode::Goto(addr))
    } else if n0 == 0x2 {
        Some(Opcode::CallSub(addr))
    } else if n0 == 0x3 {
        Some(Opcode::SkipEQ(n1, byte))
    } else if n0 == 0x4 {
        Some(Opcode::SkipNEQ(n1, byte))
    } else if n0 == 0x5 {
        if n3 == 0x0 { Some(Opcode::SkipRegEQ(n1, n2)) } else { None }
    } else if n0 == 0x6 {
        Some(Opcode::SetConst(n1, byte))
    } else if n0 == 0x7 {
        Some(Opcode::AddConst(n1, byte))
    } else if n0 == 0x8 {
        if n3 == 0x0 {
            Some(Opcode::SetReg(n1, n2))
        } else if n3 == 0x1 {
            Some(Opcode::Or(n1, n2))
        } else if n3 == 0x2 {
            Some(Opcode::And(n1, n2))
        } else if n3 == 0x3 {
            Some(Opcode::Xor(n1, n2))
        } else if n3 == 0x4 {
            Some(Opcode::AddReg(n1, n2))
        } else if n3 == 0x5 {
            Some(Opcode::SubReg(n1, n2))
        } else if n3 == 0x6 {
            Some(Opcode::Div2(n1, n2))
        } else if n3 == 0x7 {
            Some(Opcode::DiffReg(n1, n2))
        } else if n3 == 0xe {
            Some(Opcode::Mul2(n1, n2))
        } else {
            None
        }
    } else if n0 == 0x9 {
        if n3 == 0x0 { Some(Opcode::SkipRegNEQ(n1, n2)) } else { None }
    } else if n0 == 0xa {
        Some(Opcode::SetAR(addr))
    } else if n0 == 0xb {
        Some(Opcode::Jump(addr))
    } else if n0 == 0xc {
        Some(Opcode::Rand(n1, byte))
    } else if n0 == 0xd {
        Some(Opcode::Draw(n1, n2, n3))
    } else if n0 == 0xe {
        if n2 == 0x9 && n3 == 0xe {
            Some(Opcode::KeyEQ(n1))
        } else if n2 == 0xa && n3 == 0x1 {
            Some(Opcode::KeyNEQ(n1))
        } else {
            None
        }
    } else {
        if n2 == 0x0 && n3 == 0x7 {
            Some(Opcode::GetDelayTimer(n1))
        } else if n2 == 0x0 && n3 == 0xa {
            Some(Opcode::GetKey(n1))
        } else if n2 == 0x1 && n3 == 0x5 {
            Some(Opcode::SetDelayTimer(n1))
        } else if n2 == 0x1 && n3 == 0x8 {
            Some(Opcode::SetSoundTimer(n1))
        } else if n2 == 0x1 && n3 == 0xe {
            Some(Opcode::AddToI(n1))
        } else if n2 == 0x2 && n3 == 0x9 {
            Some(Opcode::SetISprite(n1))
        } else if n2 == 0x3 && n3 == 0x3 {
            Some(Opcode::BCD(n1))
        } else if n2 == 0x5 && n3 == 0x5 {
            Some(Opcode::RegDump(n1))
        } else if n2 == 0x6 && n3 == 0x5 {
            Some(Opcode::RegLoad(n1))
        } else {
            None
        }
    }
}

/// What the word `w` decodes to.
pub open spec fn decode(w: u16) -> Option<Opcode> {
    decode_nibbles(nibble(w, 3), nibble(w, 2), nibble(w, 1), nibble(w, 0))
}

impl Opcode {
    /// Operands lie in their ranges: register ids below 16, addresses
    /// below 0x1000, the draw height below 16.
    pub open spec fn wf(self) -> bool {
        match self {
            Opcode::MachineCode(a) | Opcode::Goto(a) | Opcode::CallSub(a) | Opcode::SetAR(a)
            | Opcode::Jump(a) => a < 0x1000,
            Opcode::ClearScreen | Opcode::ReturnFromSub => true,
            Opcode::SkipEQ(x, _) | Opcode::SkipNEQ(x, _) | Opcode::SetConst(x, _)
            | Opcode::AddConst(x, _) | Opcode::Rand(x, _) => x < 16,
            Opcode::SkipRegEQ(x, y) | Opcode::SetReg(x, y) | Opcode::Or(x, y) | Opcode::And(x, y)
            | Opcode::Xor(x, y) | Opcode::AddReg(x, y) | Opcode::SubReg(x, y) | Opcode::Div2(x, y)
            | Opcode::DiffReg(x, y) | Opcode::Mul2(x, y) | Opcode::SkipRegNEQ(x, y) => x < 16 && y
                < 16,
            Opcode::Draw(x, y, n) => x < 16 && y < 16 && n < 16,
            Opcode::KeyEQ(x) | Opcode::KeyNEQ(x) | Opcode::GetDelayTimer(x) | Opcode::GetKey(x)
            | Opcode::SetDelayTimer(x) | Opcode::SetSoundTimer(x) | Opcode::AddToI(x)
            | Opcode::SetISprite(x) | Opcode::BCD(x) | Opcode::RegDump(x) | Opcode::RegLoad(x) => x
                < 16,
        }
    }
}

/// Splits a word into its four nibbles, most significant first.
pub fn split_u16(value: u16) -> (r: (u8, u8, u8, u8))
    ensures
        r == (nibble(value, 3), nibble(value, 2), nibble(value, 1), nibble(value, 0)),
        r.0 < 16 && r.1 < 16 && r.2 < 16 && r.3 < 16,
{
    assert(((value >> 12u16) & 0xfu16) == value / 4096 && ((value >> 8u16) & 0xfu16) == (value
        / 256) % 16 && ((value >> 4u16) & 0xfu16) == (value / 16) % 16 && ((value >> 0u16)
        & 0xfu16) == value % 16) by (bit_vector);
    (
        ((value >> 12u16) & 0xf) as u8,
        ((value >> 8u16) & 0xf) as u8,
        ((value >> 4u16) & 0xf) as u8,
        ((value >> 0u16) & 0xf) as u8,
    )
}

fn join_byte(a: u8, b: u8) -> (r: u8)
    requires
        a < 16,
        b < 16,
    ensures
        r == join2(a, b),
{
    a * 16 + b
}

fn join_addr(a: u8, b: u8, c: u8) -> (r: u16)
    requires
        a < 16,
        b < 16,
        c < 16,
    ensures
        r == join3(a, b, c),
        r < 0x1000,
{
    (a as u16) * 256 + (b as u16) * 16 + (c as u16)
}

/// Decodes a 16-bit instruction word; `None` where the word is no
/// instruction. Total: every word gets an answer.
pub fn from_value(value: u16) -> (r: Option<Opcode>)
    ensures
        r == decode(value),
        r matches Some(op) ==> op.wf(),
{
    let (n0, n1, n2, n3) = split_u16(value);
    let addr = join_addr(n1, n2, n3);
    let byte = join_byte(n2, n3);
    if n0 == 0x0 {
        if n1 == 0x0 && n2 == 0xe && n3 == 0x0 {
            Some(Opcode::ClearScreen)
        } else if n1 == 0x0 && n2 == 0xe && n3 == 0xe {
            Some(Opcode::ReturnFromSub)
        } else {
            Some(Opcode::MachineCode(addr))
        }
    } else if n0 == 0x1 {
        Some(Opcode::Goto(addr))
    } else if n0 == 0x2 {
        Some(Opcode::CallSub(addr))
    } else if n0 == 0x3 {
        Some(Opcode::SkipEQ(n1, byte))
    } else if n0 == 0x4 {
        Some(Opcode::SkipNEQ(n1, byte))
    } else if n0 == 0x5 {
        if n3 == 0x0 { Some(Opcode::SkipRegEQ(n1, n2)) } else { None }
    } else if n0 == 0x6 {
        Some(Opcode::SetConst(n1, byte))
    } else if n0 == 0x7 {
        Some(Opcode::AddConst(n1, byte))
    } else if n0 == 0x8 {
        match n3 {
            0x0 => Some(Opcode::SetReg(n1, n2)),
            0x1 => Some(Opcode::Or(n1, n2)),
            0x2 => Some(Opcode::And(n1, n2)),
            0x3 => Some(Opcode::Xor(n1, n2)),
            0x4 => Some(Opcode::AddReg(n1, n2)),
            0x5 => Some(Opcode::SubReg(n1, n2)),
            0x6 => Some(Opcode::Div2(n1, n2)),
            0x7 => Some(Opcode::DiffReg(n1, n2)),
            0xe => Some(Opcode::Mul2(n1, n2)),
            _ => None,
        }
    } else if n0 == 0x9 {
        if n3 == 0x0 { Some(Opcode::SkipRegNEQ(n1, n2)) } else { None }
    } else if n0 == 0xa {
        Some(Opcode::SetAR(addr))
    } else if n0 == 0xb {
        Some(Opcode::Jump(addr))
    } else if n0 == 0xc {
        Some(Opcode::Rand(n1, byte))
    } else if n0 == 0xd {
        Some(Opcode::Draw(n1, n2, n3))
    } else if n0 == 0xe {
        match (n2, n3) {
            (0x9, 0xe) => Some(Opcode::KeyEQ(n1)),
            (0xa, 0x1) => Some(Opcode::KeyNEQ(n1)),
            _ => None,
        }
    } else {
        match (n2, n3) {
            (0x0, 0x7) => Some(Opcode::GetDelayTimer(n1)),
            (0x0, 0xa) => Some(Opcode::GetKey(n1)),
            (0x1, 0x5) => Some(Opcode::SetDelayTimer(n1)),
            (0x1, 0x8) => Some(Opcode::SetSoundTimer(n1)),
            (0x1, 0xe) => Some(Opcode::AddToI(n1)),
            (0x2, 0x9) => Some(Opcode::SetISprite(n1)),
            (0x3, 0x3) => Some(Opcode::BCD(n1)),
            (0x5, 0x5) => Some(Opcode::RegDump(n1)),
            (0x6, 0x5) => Some(Opcode::RegLoad(n1)),
            _ => None,
        }
    }
}

} // verus!
