use chip8::instruction::{decode, operands, AluOp, Instruction, Operands};

#[test]
fn operands_of_draw_word() {
    let f = operands(0xD12A);
    assert_eq!(f.x, 1);
    assert_eq!(f.y, 2);
    assert_eq!(f.n, 0xA);
    assert_eq!(f.nn, 0x2A);
    assert_eq!(f.nnn, 0x12A);
}

#[test]
fn operands_of_extremes() {
    assert_eq!(operands(0x0000), Operands { x: 0, y: 0, n: 0, nn: 0, nnn: 0 });
    assert_eq!(operands(0xFFFF), Operands { x: 15, y: 15, n: 15, nn: 255, nnn: 4095 });
}

#[test]
fn decode_draw_word() {
    assert_eq!(decode(0xD12A), Instruction::Draw { x: 1, y: 2, rows: 0xA });
}

#[test]
fn decode_system_words() {
    assert_eq!(decode(0x00E0), Instruction::ClearScreen);
    assert_eq!(decode(0x00EE), Instruction::Return);
    assert_eq!(decode(0x0000), Instruction::Unknown { word: 0x0000 });
    assert_eq!(decode(0x01E0), Instruction::Unknown { word: 0x01E0 });
    assert_eq!(decode(0x0123), Instruction::Unknown { word: 0x0123 });
}

#[test]
fn decode_flow_words() {
    assert_eq!(decode(0x1ABC), Instruction::Jump { addr: 0xABC });
    assert_eq!(decode(0x2FFF), Instruction::Call { addr: 0xFFF });
    assert_eq!(decode(0xB123), Instruction::JumpOffset { addr: 0x123 });
}

#[test]
fn decode_skip_words() {
    assert_eq!(decode(0x3A42), Instruction::SkipIfEqual { x: 0xA, byte: 0x42 });
    assert_eq!(decode(0x4B43), Instruction::SkipIfNotEqual { x: 0xB, byte: 0x43 });
    assert_eq!(decode(0x5120), Instruction::SkipIfRegistersEqual { x: 1, y: 2 });
    assert_eq!(decode(0x9340), Instruction::SkipIfRegistersNotEqual { x: 3, y: 4 });
    assert_eq!(decode(0xE59E), Instruction::SkipIfKeyDown { x: 5 });
    assert_eq!(decode(0xE6A1), Instruction::SkipIfKeyUp { x: 6 });
}

#[test]
fn decode_register_compare_ignores_low_nibble() {
    assert_eq!(decode(0x5127), Instruction::SkipIfRegistersEqual { x: 1, y: 2 });
    assert_eq!(decode(0x934F), Instruction::SkipIfRegistersNotEqual { x: 3, y: 4 });
}

#[test]
fn decode_load_words() {
    assert_eq!(decode(0x6005), Instruction::Load { x: 0, byte: 5 });
    assert_eq!(decode(0x7F01), Instruction::AddByte { x: 15, byte: 1 });
    assert_eq!(decode(0xA2F0), Instruction::LoadIndex { addr: 0x2F0 });
    assert_eq!(decode(0xC30F), Instruction::Random { x: 3, mask: 0x0F });
}

#[test]
fn decode_alu_words() {
    assert_eq!(decode(0x8120), Instruction::Alu { op: AluOp::Assign, x: 1, y: 2 });
    assert_eq!(decode(0x8121), Instruction::Alu { op: AluOp::Or, x: 1, y: 2 });
    assert_eq!(decode(0x8122), Instruction::Alu { op: AluOp::And, x: 1, y: 2 });
    assert_eq!(decode(0x8123), Instruction::Alu { op: AluOp::Xor, x: 1, y: 2 });
    assert_eq!(decode(0x8124), Instruction::Alu { op: AluOp::Add, x: 1, y: 2 });
    assert_eq!(decode(0x8125), Instruction::Alu { op: AluOp::Sub, x: 1, y: 2 });
    assert_eq!(decode(0x8126), Instruction::Alu { op: AluOp::ShiftRight, x: 1, y: 2 });
    assert_eq!(decode(0x8127), Instruction::Alu { op: AluOp::SubFrom, x: 1, y: 2 });
    assert_eq!(decode(0x812E), Instruction::Alu { op: AluOp::ShiftLeft, x: 1, y: 2 });
}

#[test]
fn decode_alu_gaps_are_unknown() {
    for n in [0x8u16, 0x9, 0xA, 0xB, 0xC, 0xD, 0xF] {
        let word = 0x8120 | n;
        assert_eq!(decode(word), Instruction::Unknown { word });
    }
}

#[test]
fn decode_timer_and_memory_words() {
    assert_eq!(decode(0xF107), Instruction::ReadDelay { x: 1 });
    assert_eq!(decode(0xF20A), Instruction::WaitKey { x: 2 });
    assert_eq!(decode(0xF315), Instruction::SetDelay { x: 3 });
    assert_eq!(decode(0xF418), Instruction::SetSound { x: 4 });
    assert_eq!(decode(0xF51E), Instruction::AddIndex { x: 5 });
    assert_eq!(decode(0xF633), Instruction::StoreDigits { x: 6 });
    assert_eq!(decode(0xF755), Instruction::StoreRegisters { x: 7 });
    assert_eq!(decode(0xF865), Instruction::LoadRegisters { x: 8 });
}

#[test]
fn decode_font_word_is_unknown() {
    assert_eq!(decode(0xF029), Instruction::Unknown { word: 0xF029 });
    assert_eq!(decode(0xFA29), Instruction::Unknown { word: 0xFA29 });
}

#[test]
fn decode_stray_key_and_misc_words_are_unknown() {
    assert_eq!(decode(0xE000), Instruction::Unknown { word: 0xE000 });
    assert_eq!(decode(0xE19F), Instruction::Unknown { word: 0xE19F });
    assert_eq!(decode(0xF0FF), Instruction::Unknown { word: 0xF0FF });
    assert_eq!(decode(0xF000), Instruction::Unknown { word: 0xF000 });
}

#[test]
fn decode_agrees_with_operands_on_every_word() {
    let mut word: u16 = 0;
    loop {
        let f = operands(word);
        assert_eq!(f.x as u16, (word >> 8) & 0xF);
        assert_eq!(f.y as u16, (word >> 4) & 0xF);
        assert_eq!(f.n as u16, word & 0xF);
        assert_eq!(f.nn as u16, word & 0xFF);
        assert_eq!(f.nnn, word & 0xFFF);
        match decode(word) {
            Instruction::Draw { x, y, rows } => {
                assert_eq!(word >> 12, 0xD);
                assert_eq!((x, y, rows), (f.x, f.y, f.n));
            }
            Instruction::Jump { addr } => {
                assert_eq!(word >> 12, 0x1);
                assert_eq!(addr, f.nnn);
            }
            Instruction::Unknown { word: w } => assert_eq!(w, word),
            _ => {}
        }
        if word == u16::MAX {
            break;
        }
        word += 1;
    }
}
