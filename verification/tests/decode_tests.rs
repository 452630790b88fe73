use chip8::{decode, Instruction, N, NN, NNN, X, Y};

#[test]
fn fields_of_a_word() {
    assert_eq!(X(0xD12F), 1);
    assert_eq!(Y(0xD12F), 2);
    assert_eq!(N(0xD12F), 0xF);
    assert_eq!(NN(0xD12F), 0x2F);
    assert_eq!(NNN(0xD12F), 0x12F);
}

#[test]
fn fields_of_extreme_words() {
    assert_eq!((X(0), Y(0), N(0), NN(0), NNN(0)), (0, 0, 0, 0, 0));
    assert_eq!(
        (X(0xFFFF), Y(0xFFFF), N(0xFFFF), NN(0xFFFF), NNN(0xFFFF)),
        (15, 15, 15, 0xFF, 0xFFF)
    );
}

#[test]
fn fields_rebuild_every_word() {
    let mut opcode: u32 = 0;
    while opcode <= 0xFFFF {
        let w = opcode as u16;
        let family = (w >> 12) as usize;
        let rebuilt = family * 4096 + X(w) * 256 + Y(w) * 16 + N(w) as usize;
        assert_eq!(rebuilt, w as usize);
        assert_eq!(NN(w) as usize, Y(w) * 16 + N(w) as usize);
        assert_eq!(NNN(w) as usize, X(w) * 256 + NN(w) as usize);
        opcode += 1;
    }
}

#[test]
fn decode_family_zero() {
    assert_eq!(decode(0x00E0), Some(Instruction::ClearScreen));
    assert_eq!(decode(0x00EE), Some(Instruction::Return));
    assert_eq!(decode(0x0000), Some(Instruction::Sys(0)));
    assert_eq!(decode(0x0123), Some(Instruction::Sys(0x123)));
    assert_eq!(decode(0x01E0), Some(Instruction::Sys(0x1E0)));
}

#[test]
fn decode_flow_and_immediates() {
    assert_eq!(decode(0x1ABC), Some(Instruction::Jump(0xABC)));
    assert_eq!(decode(0x2ABC), Some(Instruction::Call(0xABC)));
    assert_eq!(decode(0x3A12), Some(Instruction::SkipEqImm(0xA, 0x12)));
    assert_eq!(decode(0x4A12), Some(Instruction::SkipNeImm(0xA, 0x12)));
    assert_eq!(decode(0x5AB0), Some(Instruction::SkipEqReg(0xA, 0xB)));
    assert_eq!(decode(0x6A12), Some(Instruction::LoadImm(0xA, 0x12)));
    assert_eq!(decode(0x7A12), Some(Instruction::AddImm(0xA, 0x12)));
    assert_eq!(decode(0x9AB0), Some(Instruction::SkipNeReg(0xA, 0xB)));
    assert_eq!(decode(0xA202), Some(Instruction::LoadIndex(0x202)));
    assert_eq!(decode(0xB202), Some(Instruction::JumpOffset(0x202)));
    assert_eq!(decode(0xC1F0), Some(Instruction::Random(1, 0xF0)));
    assert_eq!(decode(0xD125), Some(Instruction::Draw(1, 2, 5)));
}

#[test]
fn decode_register_family() {
    assert_eq!(decode(0x8120), Some(Instruction::Move(1, 2)));
    assert_eq!(decode(0x8121), Some(Instruction::Or(1, 2)));
    assert_eq!(decode(0x8122), Some(Instruction::And(1, 2)));
    assert_eq!(decode(0x8123), Some(Instruction::Xor(1, 2)));
    assert_eq!(decode(0x8124), Some(Instruction::AddReg(1, 2)));
    assert_eq!(decode(0x8125), Some(Instruction::SubReg(1, 2)));
    assert_eq!(decode(0x8126), Some(Instruction::ShiftRight(1)));
    assert_eq!(decode(0x8127), Some(Instruction::SubFrom(1, 2)));
    assert_eq!(decode(0x812E), Some(Instruction::ShiftLeft(1)));
}

#[test]
fn decode_key_and_misc_families() {
    assert_eq!(decode(0xE39E), Some(Instruction::SkipKeyDown(3)));
    assert_eq!(decode(0xE3A1), Some(Instruction::SkipKeyUp(3)));
    assert_eq!(decode(0xF307), Some(Instruction::ReadDelay(3)));
    assert_eq!(decode(0xF30A), Some(Instruction::WaitKey(3)));
    assert_eq!(decode(0xF315), Some(Instruction::SetDelay(3)));
    assert_eq!(decode(0xF318), Some(Instruction::SetSound(3)));
    assert_eq!(decode(0xF31E), Some(Instruction::AddIndex(3)));
    assert_eq!(decode(0xF329), Some(Instruction::FontAddr(3)));
    assert_eq!(decode(0xF333), Some(Instruction::StoreBcd(3)));
    assert_eq!(decode(0xF355), Some(Instruction::StoreRegs(3)));
    assert_eq!(decode(0xF365), Some(Instruction::LoadRegs(3)));
}

#[test]
fn decode_unknown_words() {
    assert_eq!(decode(0x5AB1), None);
    assert_eq!(decode(0x9AB1), None);
    assert_eq!(decode(0x8128), None);
    assert_eq!(decode(0x812F), None);
    assert_eq!(decode(0xE300), None);
    assert_eq!(decode(0xF300), None);
    assert_eq!(decode(0xFFFF), None);
}
