use voz::lower::{lower, target};
use voz::{Compiler, Error, Op, Opcode};

const ENTRY: &str = "global _start\nsection .text\n_start:\npush rbp\nmov rbp, rsp\n";
const EXIT: &str = "exit:\nmov rsp, rbp\npop rbp\nmov rax, 60\nmov rdi, 0\nsyscall\n";

fn generator(constants: &[&str], program: Vec<Op>) -> Compiler {
    Compiler::new(constants.iter().map(|text| text.to_string()).collect(), program)
}

fn compiled(constants: &[&str], program: Vec<Op>) -> Result<String, Error> {
    generator(constants, program).compile()
}

fn block(op: Op) -> Result<String, Error> {
    lower(op, 10, 2)
}

#[test]
fn an_empty_program_is_entry_exit_and_an_empty_data_section() {
    let text = compiled(&[], vec![]).unwrap();
    assert_eq!(text, format!("{}\n{}section .data\n", ENTRY, EXIT));
}

#[test]
fn the_text_of_an_empty_program_names_no_word_of_memory() {
    let text = compiled(&[], vec![]).unwrap();
    assert_eq!(
        text,
        "global _start\nsection .text\n_start:\npush rbp\nmov rbp, rsp\n\n\
         exit:\nmov rsp, rbp\npop rbp\nmov rax, 60\nmov rdi, 0\nsyscall\nsection .data\n"
    );
    assert!(!text.contains("[rbp-"));
}

#[test]
fn hello_world_as_assembly() {
    let text = compiled(
        &["Hello World!\n"],
        vec![Op(Opcode::MovConst, 0, 0, 0), Op(Opcode::Write, 1, 0, 13)],
    )
    .unwrap();
    let expected = format!(
        "{}{}{}{}",
        ENTRY,
        "mov rax, c0\nmov [rbp-8], rax\n\
         mov rax, 1\nmov rdi, 1\nmov rsi, [rbp-8]\nmov rdx, 13\nsyscall\n",
        EXIT,
        "section .data\nc0 db \"Hello World!\",10, 0\nc0_len equ $-c0\n"
    );
    assert_eq!(text, expected);
}

#[test]
fn the_counting_example_as_assembly() {
    let mut compiler = generator(
        &[],
        vec![
            Op(Opcode::Mov, 0, 65, 0),
            Op(Opcode::Mov, 1, 1, 0),
            Op(Opcode::Mov, 2, 1, 0),
            Op(Opcode::Add, 1, 2, 0),
            Op(Opcode::Je, 6, 1, 0),
            Op(Opcode::Jmp, 3, 0, 0),
            Op(Opcode::Write, 1, 1, 1),
        ],
    );
    let text = compiler.compile().unwrap();
    let body = "mov rax, 65\nmov [rbp-8], rax\n\
                mov rax, 1\nmov [rbp-16], rax\n\
                mov rax, 1\nmov [rbp-24], rax\n\
                l3:\n\
                mov rax, [rbp-16]\nadd rax, [rbp-24]\nmov [rbp-16], rax\n\
                mov rax, [rbp-16]\ncmp rax, [rbp-8]\nje l6\n\
                mov rax, [rbp-8]\ncmp rax, [rbp-8]\njmp l3\n\
                l6:\n\
                mov rax, 1\nmov rdi, 1\nmov rsi, [rbp-16]\nmov rdx, 1\nsyscall\n";
    assert_eq!(text, format!("{}{}{}section .data\n", ENTRY, body, EXIT));
    assert_eq!(compiler.jumps(), &vec![3, 6]);
    assert_eq!(compiler.pointer(), 7);
}

#[test]
fn a_target_of_a_backward_and_a_forward_jump_gets_one_label() {
    let text = compiled(
        &[],
        vec![
            Op(Opcode::Jmp, 2, 0, 0),
            Op(Opcode::Mov, 0, 1, 0),
            Op(Opcode::Inc, 0, 0, 0),
            Op(Opcode::Jl, 2, 0, 1),
            Op(Opcode::Hlt, 0, 0, 0),
        ],
    )
    .unwrap();
    assert_eq!(text.matches("l2:\n").count(), 1);
    assert_eq!(text.lines().filter(|line| line.ends_with(':')).collect::<Vec<_>>(),
        vec!["_start:", "l2:", "exit:"]);
    let body = "mov rax, [rbp-8]\ncmp rax, [rbp-8]\njmp l2\n\
                mov rax, 1\nmov [rbp-8], rax\n\
                l2:\n\
                mov rax, [rbp-8]\ninc rax\nmov [rbp-8], rax\n\
                mov rax, [rbp-8]\ncmp rax, [rbp-16]\njb l2\n\
                jmp exit\n";
    assert_eq!(text, format!("{}{}{}section .data\n", ENTRY, body, EXIT));
}

#[test]
fn the_blocks_keep_their_order_when_labels_are_inserted() {
    let program = vec![
        Op(Opcode::Jmp, 3, 0, 0),
        Op(Opcode::Mov, 0, 11, 0),
        Op(Opcode::Je, 0, 0, 0),
        Op(Opcode::Mov, 0, 22, 0),
        Op(Opcode::Call, 1, 0, 0),
        Op(Opcode::Jne, 5, 0, 0),
    ];
    let text = compiled(&[], program.clone()).unwrap();
    let body = text.strip_prefix(ENTRY).unwrap();
    let body = body.strip_suffix(&format!("{}section .data\n", EXIT)).unwrap();
    let mut expected = String::new();
    for (index, op) in program.iter().enumerate() {
        if [0, 1, 3, 5].contains(&index) {
            expected.push_str(&format!("l{}:\n", index));
        }
        expected.push_str(&lower(*op, 6, 0).unwrap());
        expected.push('\n');
    }
    assert_eq!(body, expected);
}

#[test]
fn a_target_at_the_end_of_the_program_is_labelled_before_the_exit() {
    let text = compiled(&[], vec![Op(Opcode::Jmp, 1, 0, 0)]).unwrap();
    let body = "mov rax, [rbp-8]\ncmp rax, [rbp-8]\njmp l1\nl1:\n";
    assert_eq!(text, format!("{}{}{}section .data\n", ENTRY, body, EXIT));
}

#[test]
fn each_constant_is_declared_with_its_length() {
    let text = compiled(&["img.ppm", "2 by 2\n", "a\nb"], vec![Op(Opcode::Hlt, 0, 0, 0)]).unwrap();
    let data = "section .data\n\
                c0 db \"img.ppm\", 0\nc0_len equ $-c0\n\
                c1 db \"2 by 2\",10, 0\nc1_len equ $-c1\n\
                c2 db \"a\",10,\"b\", 0\nc2_len equ $-c2\n";
    assert_eq!(text, format!("{}jmp exit\n{}{}", ENTRY, EXIT, data));
}

#[test]
fn the_eleventh_constant_has_a_two_digit_symbol() {
    let constants: Vec<&str> = vec!["x"; 11];
    let text = compiled(&constants, vec![]).unwrap();
    assert!(text.ends_with("c10 db \"x\", 0\nc10_len equ $-c10\n"));
}

#[test]
fn blocks_without_operands() {
    assert_eq!(block(Op(Opcode::Hlt, 5, 0, 0)).unwrap(), "jmp exit");
    assert_eq!(block(Op(Opcode::Ret, 0, 0, 0)).unwrap(), "ret");
}

#[test]
fn block_of_a_move() {
    assert_eq!(block(Op(Opcode::Mov, 0, 65, 0)).unwrap(), "mov rax, 65\nmov [rbp-8], rax");
    assert_eq!(block(Op(Opcode::Mov, 5, 0, 0)).unwrap(), "mov rax, 0\nmov [rbp-48], rax");
    assert_eq!(
        block(Op(Opcode::Mov, 1023, u64::MAX, 0)).unwrap(),
        "mov rax, 18446744073709551615\nmov [rbp-8192], rax"
    );
}

#[test]
fn block_of_a_copy() {
    assert_eq!(
        block(Op(Opcode::Dup, 4, 0, 0)).unwrap(),
        "mov rax, [rbp-8]\nmov [rbp-40], rax"
    );
    assert_eq!(
        block(Op(Opcode::Dup, 0, 1023, 0)).unwrap(),
        "mov rax, [rbp-8192]\nmov [rbp-8], rax"
    );
}

#[test]
fn blocks_of_increment_and_decrement() {
    assert_eq!(
        block(Op(Opcode::Inc, 2, 0, 0)).unwrap(),
        "mov rax, [rbp-24]\ninc rax\nmov [rbp-24], rax"
    );
    assert_eq!(
        block(Op(Opcode::Dec, 12, 0, 0)).unwrap(),
        "mov rax, [rbp-104]\ndec rax\nmov [rbp-104], rax"
    );
}

#[test]
fn blocks_of_arithmetic() {
    assert_eq!(
        block(Op(Opcode::Add, 1, 2, 0)).unwrap(),
        "mov rax, [rbp-16]\nadd rax, [rbp-24]\nmov [rbp-16], rax"
    );
    assert_eq!(
        block(Op(Opcode::Sub, 4, 2, 0)).unwrap(),
        "mov rax, [rbp-40]\nsub rax, [rbp-24]\nmov [rbp-40], rax"
    );
    assert_eq!(
        block(Op(Opcode::Mul, 0, 1, 0)).unwrap(),
        "mov rax, [rbp-8]\nmul [rbp-16]\nmov [rbp-8], rax"
    );
    assert_eq!(
        block(Op(Opcode::Div, 3, 0, 0)).unwrap(),
        "mov rdx, 0\nmov rax, [rbp-32]\ndiv [rbp-8]\nmov [rbp-32], rax"
    );
}

#[test]
fn blocks_of_jumps() {
    let cases = [
        (Opcode::Jmp, "jmp"),
        (Opcode::Je, "je"),
        (Opcode::Jne, "jne"),
        (Opcode::Jg, "ja"),
        (Opcode::Jge, "jae"),
        (Opcode::Jl, "jb"),
        (Opcode::Jle, "jbe"),
    ];
    for (opcode, mnemonic) in cases {
        assert_eq!(
            block(Op(opcode, 10, 4, 6)).unwrap(),
            format!("mov rax, [rbp-40]\ncmp rax, [rbp-56]\n{} l10", mnemonic)
        );
    }
}

#[test]
fn block_of_a_call() {
    assert_eq!(block(Op(Opcode::Call, 7, 0, 0)).unwrap(), "call l7");
}

#[test]
fn block_of_a_move_of_a_constant() {
    assert_eq!(
        block(Op(Opcode::MovConst, 1010, 1, 0)).unwrap(),
        "mov rax, c1\nmov [rbp-8088], rax"
    );
}

#[test]
fn blocks_that_open_files() {
    assert_eq!(
        block(Op(Opcode::CreateFile, 1, 0, 0)).unwrap(),
        "mov rax, 85\nmov rdi, c1\nmov rsi, 0o666\nsyscall\nsub rbp, 8\nmov [rbp], rax\nadd rbp, 8"
    );
    assert_eq!(
        block(Op(Opcode::LoadFile, 0, 2, 0)).unwrap(),
        "mov rax, 2\nmov rdi, c0\nmov rsi, 0o2\nmov rdx, 0o666\nsyscall\nsub rbp, 24\nmov [rbp], rax\nadd rbp, 24"
    );
}

#[test]
fn blocks_of_writes() {
    for descriptor in 0..3 {
        assert_eq!(
            block(Op(Opcode::Write, descriptor, 1, 13)).unwrap(),
            format!(
                "mov rax, 1\nmov rdi, {}\nmov rsi, [rbp-16]\nmov rdx, 13\nsyscall",
                descriptor
            )
        );
    }
    assert_eq!(
        block(Op(Opcode::Write, 3, 1010, 7)).unwrap(),
        "mov rax, 1\nmov rdi, [rbp-8]\nmov rsi, [rbp-8088]\nmov rdx, 7\nsyscall"
    );
    assert_eq!(
        block(Op(Opcode::Write, 5, 0, 0)).unwrap(),
        "mov rax, 1\nmov rdi, [rbp-24]\nmov rsi, [rbp-8]\nmov rdx, 0\nsyscall"
    );
}

#[test]
fn connecting_listening_and_reading_are_not_supported() {
    for opcode in [Opcode::LoadConn, Opcode::ListConn, Opcode::Read, Opcode::CapConst] {
        assert_eq!(block(Op(opcode, 0, 0, 0)), Err(Error::Unsupported));
        let mut compiler = generator(
            &["127.0.0.1:80"],
            vec![Op(Opcode::Mov, 0, 5, 0), Op(opcode, 0, 0, 0), Op(Opcode::Write, 3, 0, 1)],
        );
        assert_eq!(compiler.compile(), Err(Error::Unsupported));
        assert_eq!(compiler.pointer(), 1);
    }
}

#[test]
fn a_word_outside_the_frame_is_an_address_error() {
    for op in [
        Op(Opcode::Mov, 1024, 7, 0),
        Op(Opcode::Mov, 5000, 7, 0),
        Op(Opcode::Dup, 1024, 0, 0),
        Op(Opcode::Dup, 0, 1024, 0),
        Op(Opcode::Inc, 1024, 0, 0),
        Op(Opcode::Dec, u64::MAX, 0, 0),
        Op(Opcode::Add, 1024, 0, 0),
        Op(Opcode::Sub, 0, 1024, 0),
        Op(Opcode::Mul, 1 << 61, 0, 0),
        Op(Opcode::Div, 0, 1 << 62, 0),
        Op(Opcode::Jmp, 0, 1024, 0),
        Op(Opcode::Je, 0, 0, 1024),
        Op(Opcode::MovConst, 1024, 0, 0),
        Op(Opcode::CreateFile, 0, 1024, 0),
        Op(Opcode::LoadFile, 0, 1024, 0),
        Op(Opcode::Write, 1, 1024, 0),
        Op(Opcode::Write, 1027, 0, 0),
    ] {
        assert_eq!(block(op), Err(Error::Address), "{:?}", op);
    }
}

#[test]
fn a_constant_that_is_not_in_the_pool_is_an_address_error() {
    for op in [
        Op(Opcode::MovConst, 0, 2, 0),
        Op(Opcode::CreateFile, 2, 0, 0),
        Op(Opcode::LoadFile, u64::MAX, 0, 0),
    ] {
        assert_eq!(block(op), Err(Error::Address), "{:?}", op);
    }
    assert_eq!(compiled(&[], vec![Op(Opcode::MovConst, 0, 0, 0)]), Err(Error::Address));
}

#[test]
fn a_target_past_the_end_is_a_control_error() {
    assert_eq!(block(Op(Opcode::Jmp, 11, 0, 0)), Err(Error::Control));
    assert_eq!(block(Op(Opcode::Jle, u64::MAX, 0, 0)), Err(Error::Control));
    assert_eq!(block(Op(Opcode::Call, 11, 0, 0)), Err(Error::Control));
    assert!(block(Op(Opcode::Jmp, 10, 0, 0)).is_ok());
    assert!(block(Op(Opcode::Call, 10, 0, 0)).is_ok());
    assert_eq!(compiled(&[], vec![Op(Opcode::Jmp, 2, 0, 0)]), Err(Error::Control));
}

#[test]
fn a_bad_word_is_reported_before_a_bad_target() {
    assert_eq!(block(Op(Opcode::Je, 11, 1024, 0)), Err(Error::Address));
}

#[test]
fn the_first_instruction_that_cannot_be_lowered_decides_the_error() {
    let mut compiler = generator(
        &[],
        vec![
            Op(Opcode::Jmp, 1, 0, 0),
            Op(Opcode::Jmp, 0, 0, 0),
            Op(Opcode::Jmp, 1, 0, 0),
            Op(Opcode::Inc, 1024, 0, 0),
            Op(Opcode::Read, 0, 0, 0),
            Op(Opcode::Jmp, 99, 0, 0),
        ],
    );
    assert_eq!(compiler.compile(), Err(Error::Address));
    assert_eq!(compiler.pointer(), 3);
    assert_eq!(compiler.jumps(), &vec![1, 0]);
}

#[test]
fn a_second_generation_gives_the_same_text() {
    let mut compiler = generator(
        &["a"],
        vec![Op(Opcode::Jmp, 1, 0, 0), Op(Opcode::Jmp, 0, 0, 0)],
    );
    let first = compiler.compile().unwrap();
    let second = compiler.compile().unwrap();
    assert_eq!(first, second);
    assert_eq!(compiler.jumps(), &vec![0, 1]);
}

#[test]
fn a_new_generator_has_lowered_nothing() {
    let compiler = generator(&["a"], vec![Op(Opcode::Jmp, 0, 0, 0)]);
    assert_eq!(compiler.pointer(), 0);
    assert!(compiler.jumps().is_empty());
}

#[test]
fn calls_and_jumps_name_a_target() {
    assert_eq!(target(Op(Opcode::Call, 4, 0, 0)), Some(4));
    assert_eq!(target(Op(Opcode::Jmp, 5, 0, 0)), Some(5));
    assert_eq!(target(Op(Opcode::Jle, 6, 1, 2)), Some(6));
    assert_eq!(target(Op(Opcode::Mov, 6, 1, 2)), None);
    assert_eq!(target(Op(Opcode::Ret, 6, 1, 2)), None);
    assert_eq!(target(Op(Opcode::Write, 6, 1, 2)), None);
}

#[test]
fn moves_to_different_words_have_different_blocks() {
    let to_five = block(Op(Opcode::Mov, 5, 7, 0)).unwrap();
    let to_six = block(Op(Opcode::Mov, 6, 7, 0)).unwrap();
    assert_eq!(to_five, "mov rax, 7\nmov [rbp-48], rax");
    assert_eq!(to_six, "mov rax, 7\nmov [rbp-56], rax");
    assert_ne!(
        compiled(&[], vec![Op(Opcode::Mov, 5, 7, 0)]),
        compiled(&[], vec![Op(Opcode::Mov, 6, 7, 0)])
    );
}

#[test]
fn a_constant_with_a_double_quote_is_declared_safely() {
    let text = compiled(&["say \"hi\""], vec![]).unwrap();
    assert!(text.ends_with("c0 db \"say \",34,\"hi\",34, 0\nc0_len equ $-c0\n"));
}
