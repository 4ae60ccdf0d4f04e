use voz::isa::decode_program;
use voz::{Op, Opcode};

#[test]
fn codes_zero_to_eighteen_decode_in_declaration_order() {
    let expected = [
        Opcode::Hlt,
        Opcode::Ret,
        Opcode::Mov,
        Opcode::Dup,
        Opcode::Inc,
        Opcode::Dec,
        Opcode::Add,
        Opcode::Sub,
        Opcode::Mul,
        Opcode::Div,
        Opcode::Call,
        Opcode::Jmp,
        Opcode::Je,
        Opcode::Jne,
        Opcode::Jg,
        Opcode::Jge,
        Opcode::Jl,
        Opcode::Jle,
        Opcode::MovConst,
    ];
    for (code, opcode) in expected.iter().enumerate() {
        assert_eq!(Opcode::from(code as u32), Some(*opcode));
    }
}

#[test]
fn codes_above_eighteen_decode_to_constants_and_io() {
    assert_eq!(Opcode::from(19), Some(Opcode::CapConst));
    assert_eq!(Opcode::from(20), Some(Opcode::CreateFile));
    assert_eq!(Opcode::from(21), Some(Opcode::LoadFile));
    assert_eq!(Opcode::from(22), Some(Opcode::LoadConn));
    assert_eq!(Opcode::from(23), Some(Opcode::ListConn));
    assert_eq!(Opcode::from(24), Some(Opcode::Write));
    assert_eq!(Opcode::from(25), Some(Opcode::Read));
}

#[test]
fn unassigned_codes_decode_to_nothing() {
    assert_eq!(Opcode::from(26), None);
    assert_eq!(Opcode::from(1000), None);
    assert_eq!(Opcode::from(u32::MAX), None);
}

#[test]
fn mnemonics_of_steps_and_jumps() {
    assert_eq!(Opcode::Inc.as_str(), "inc");
    assert_eq!(Opcode::Dec.as_str(), "dec");
    assert_eq!(Opcode::Jmp.as_str(), "jmp");
    assert_eq!(Opcode::Je.as_str(), "je");
    assert_eq!(Opcode::Jne.as_str(), "jne");
    assert_eq!(Opcode::Jg.as_str(), "ja");
    assert_eq!(Opcode::Jge.as_str(), "jae");
    assert_eq!(Opcode::Jl.as_str(), "jb");
    assert_eq!(Opcode::Jle.as_str(), "jbe");
}

#[test]
fn an_instruction_holds_its_opcode_and_three_operands() {
    let op = Op(Opcode::Write, 1, 2, u64::MAX);
    assert_eq!(op.0, Opcode::Write);
    assert_eq!(op.1, 1);
    assert_eq!(op.2, 2);
    assert_eq!(op.3, u64::MAX);
    let copy = op;
    assert_eq!(copy, op);
}

#[test]
fn four_numbers_encode_one_instruction() {
    assert_eq!(
        decode_program(&vec![2, 0, 65, 0, 24, 1, 0, 1]),
        Some(vec![Op(Opcode::Mov, 0, 65, 0), Op(Opcode::Write, 1, 0, 1)])
    );
    assert_eq!(decode_program(&vec![]), Some(vec![]));
    assert_eq!(
        decode_program(&vec![17, u64::MAX, 1023, 0]),
        Some(vec![Op(Opcode::Jle, u64::MAX, 1023, 0)])
    );
}

#[test]
fn numbers_after_the_last_full_record_are_ignored() {
    assert_eq!(decode_program(&vec![0, 7, 0, 0, 1, 2]), Some(vec![Op(Opcode::Hlt, 7, 0, 0)]));
    assert_eq!(decode_program(&vec![99, 0, 0]), Some(vec![]));
}

#[test]
fn a_code_that_is_no_opcode_encodes_no_program() {
    assert_eq!(decode_program(&vec![26, 0, 0, 0]), None);
    assert_eq!(decode_program(&vec![0, 0, 0, 0, 1000, 0, 0, 0]), None);
    assert_eq!(decode_program(&vec![(1 << 32) + 2, 0, 0, 0]), None);
    assert_eq!(decode_program(&vec![u64::MAX, 0, 0, 0]), None);
}
