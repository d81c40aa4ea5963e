use chip8::{from_value, split_u16, Opcode};

#[test]
fn splits_into_nibbles_most_significant_first() {
    assert_eq!(split_u16(0xABCD), (0xA, 0xB, 0xC, 0xD));
    assert_eq!(split_u16(0x0000), (0, 0, 0, 0));
    assert_eq!(split_u16(0xF00F), (0xF, 0, 0, 0xF));
}

#[test]
fn decodes_the_zero_group() {
    assert_eq!(from_value(0x00E0), Some(Opcode::ClearScreen));
    assert_eq!(from_value(0x00EE), Some(Opcode::ReturnFromSub));
    assert_eq!(from_value(0x0123), Some(Opcode::MachineCode(0x123)));
    assert_eq!(from_value(0x01E0), Some(Opcode::MachineCode(0x1E0)));
}

#[test]
fn decodes_address_and_constant_operands() {
    assert_eq!(from_value(0x1ABC), Some(Opcode::Goto(0xABC)));
    assert_eq!(from_value(0x2400), Some(Opcode::CallSub(0x400)));
    assert_eq!(from_value(0x3A42), Some(Opcode::SkipEQ(0xA, 0x42)));
    assert_eq!(from_value(0x4B07), Some(Opcode::SkipNEQ(0xB, 0x07)));
    assert_eq!(from_value(0x6C99), Some(Opcode::SetConst(0xC, 0x99)));
    assert_eq!(from_value(0x7D01), Some(Opcode::AddConst(0xD, 0x01)));
    assert_eq!(from_value(0xA123), Some(Opcode::SetAR(0x123)));
    assert_eq!(from_value(0xBFFF), Some(Opcode::Jump(0xFFF)));
    assert_eq!(from_value(0xC30F), Some(Opcode::Rand(0x3, 0x0F)));
    assert_eq!(from_value(0xD125), Some(Opcode::Draw(0x1, 0x2, 0x5)));
}

#[test]
fn decodes_the_register_groups() {
    assert_eq!(from_value(0x5120), Some(Opcode::SkipRegEQ(1, 2)));
    assert_eq!(from_value(0x9120), Some(Opcode::SkipRegNEQ(1, 2)));
    assert_eq!(from_value(0x8120), Some(Opcode::SetReg(1, 2)));
    assert_eq!(from_value(0x8121), Some(Opcode::Or(1, 2)));
    assert_eq!(from_value(0x8122), Some(Opcode::And(1, 2)));
    assert_eq!(from_value(0x8123), Some(Opcode::Xor(1, 2)));
    assert_eq!(from_value(0x8124), Some(Opcode::AddReg(1, 2)));
    assert_eq!(from_value(0x8125), Some(Opcode::SubReg(1, 2)));
    assert_eq!(from_value(0x8126), Some(Opcode::Div2(1, 2)));
    assert_eq!(from_value(0x8127), Some(Opcode::DiffReg(1, 2)));
    assert_eq!(from_value(0x812E), Some(Opcode::Mul2(1, 2)));
}

#[test]
fn decodes_the_key_and_misc_groups() {
    assert_eq!(from_value(0xE19E), Some(Opcode::KeyEQ(1)));
    assert_eq!(from_value(0xE2A1), Some(Opcode::KeyNEQ(2)));
    assert_eq!(from_value(0xF307), Some(Opcode::GetDelayTimer(3)));
    assert_eq!(from_value(0xF40A), Some(Opcode::GetKey(4)));
    assert_eq!(from_value(0xF515), Some(Opcode::SetDelayTimer(5)));
    assert_eq!(from_value(0xF618), Some(Opcode::SetSoundTimer(6)));
    assert_eq!(from_value(0xF71E), Some(Opcode::AddToI(7)));
    assert_eq!(from_value(0xF829), Some(Opcode::SetISprite(8)));
    assert_eq!(from_value(0xF933), Some(Opcode::BCD(9)));
    assert_eq!(from_value(0xFA55), Some(Opcode::RegDump(0xA)));
    assert_eq!(from_value(0xFB65), Some(Opcode::RegLoad(0xB)));
}

#[test]
fn unknown_patterns_decode_to_none() {
    assert_eq!(from_value(0x5121), None);
    assert_eq!(from_value(0x9121), None);
    assert_eq!(from_value(0x8128), None);
    assert_eq!(from_value(0x812F), None);
    assert_eq!(from_value(0xE100), None);
    assert_eq!(from_value(0xF100), None);
    assert_eq!(from_value(0xFFFF), None);
}

#[test]
fn every_word_decodes_without_panicking() {
    let mut known: u32 = 0;
    for w in 0..=u16::MAX {
        if from_value(w).is_some() {
            known += 1;
        }
    }
    assert!(known > 0 && known < 65536);
}
