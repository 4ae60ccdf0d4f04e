use voz::{Error, Op, Opcode, Outcome, Reply, Request, Sink, Source, Status, Vm};

fn machine(constants: &[&str], program: Vec<Op>) -> Vm {
    Vm::new(constants.iter().map(|text| text.to_string()).collect(), program)
}

fn word(vm: &Vm, addr: u64) -> u64 {
    vm.memory().load(addr).unwrap()
}

fn run_to_end(vm: &mut Vm) -> Result<u64, Error> {
    match vm.run(1_000_000)? {
        Outcome::Halted(code) => Ok(code),
        other => panic!("the run did not end: {:?}", other),
    }
}

#[test]
fn a_new_machine_has_zeroed_memory_and_nothing_else() {
    let vm = machine(&["ab"], vec![Op(Opcode::Hlt, 0, 0, 0)]);
    assert_eq!(vm.pointer(), 0);
    assert_eq!(vm.depth(), 0);
    assert!(vm.buffers().is_empty());
    assert_eq!(vm.constants().len(), 1);
    assert_eq!(vm.constants().get(0).unwrap(), &vec![97, 98]);
    for addr in 0..1024 {
        assert_eq!(word(&vm, addr), 0);
    }
    assert_eq!(vm.memory().load(1024), Err(Error::Address));
}

#[test]
fn an_empty_program_ends_at_once_and_touches_nothing() {
    let mut vm = machine(&[], vec![]);
    assert_eq!(vm.request(), Ok(Request::Nothing));
    assert_eq!(vm.step(Reply::Nothing), Ok(Status::Halted(0)));
    assert_eq!(vm.run(5), Ok(Outcome::Halted(0)));
    assert_eq!(vm.pointer(), 0);
    for addr in 0..1024 {
        assert_eq!(word(&vm, addr), 0);
    }
}

#[test]
fn a_run_without_fuel_executes_nothing() {
    let mut vm = machine(&[], vec![Op(Opcode::Mov, 0, 7, 0)]);
    assert_eq!(vm.run(0), Ok(Outcome::Exhausted));
    assert_eq!(vm.pointer(), 0);
    assert_eq!(word(&vm, 0), 0);
}

#[test]
fn a_run_stops_when_its_fuel_is_spent() {
    let mut vm = machine(&[], vec![Op(Opcode::Inc, 0, 0, 0), Op(Opcode::Jmp, 0, 0, 0)]);
    assert_eq!(vm.run(5), Ok(Outcome::Exhausted));
    assert_eq!(word(&vm, 0), 3);
    assert_eq!(vm.pointer(), 1);
}

#[test]
fn halt_gives_its_code_and_stays() {
    let mut vm = machine(&[], vec![Op(Opcode::Hlt, 42, 0, 0), Op(Opcode::Mov, 0, 1, 0)]);
    assert_eq!(vm.step(Reply::Nothing), Ok(Status::Halted(42)));
    assert_eq!(vm.pointer(), 0);
    assert_eq!(vm.step(Reply::Nothing), Ok(Status::Halted(42)));
    assert_eq!(word(&vm, 0), 0);
}

#[test]
fn move_and_duplicate() {
    let mut vm = machine(
        &[],
        vec![Op(Opcode::Mov, 3, u64::MAX, 0), Op(Opcode::Dup, 1023, 3, 0)],
    );
    assert_eq!(run_to_end(&mut vm), Ok(0));
    assert_eq!(word(&vm, 3), u64::MAX);
    assert_eq!(word(&vm, 1023), u64::MAX);
    assert_eq!(vm.pointer(), 2);
}

#[test]
fn increment_and_decrement_wrap() {
    let mut vm = machine(
        &[],
        vec![
            Op(Opcode::Dec, 0, 0, 0),
            Op(Opcode::Dup, 1, 0, 0),
            Op(Opcode::Inc, 0, 0, 0),
            Op(Opcode::Inc, 2, 0, 0),
        ],
    );
    assert_eq!(run_to_end(&mut vm), Ok(0));
    assert_eq!(word(&vm, 1), u64::MAX);
    assert_eq!(word(&vm, 0), 0);
    assert_eq!(word(&vm, 2), 1);
}

fn arithmetic(opcode: Opcode, a: u64, b: u64) -> Result<u64, Error> {
    let mut vm = machine(
        &[],
        vec![Op(Opcode::Mov, 10, a, 0), Op(Opcode::Mov, 11, b, 0), Op(opcode, 10, 11, 0)],
    );
    run_to_end(&mut vm)?;
    assert_eq!(word(&vm, 11), b);
    Ok(word(&vm, 10))
}

#[test]
fn arithmetic_matches_unsigned_arithmetic() {
    let samples = [0u64, 1, 2, 3, 7, 255, 256, 65_535, 1 << 32, (1 << 63) - 1, 1 << 63, u64::MAX - 1, u64::MAX];
    for &a in &samples {
        for &b in &samples {
            assert_eq!(arithmetic(Opcode::Add, a, b), Ok(a.wrapping_add(b)));
            assert_eq!(arithmetic(Opcode::Sub, a, b), Ok(a.wrapping_sub(b)));
            assert_eq!(arithmetic(Opcode::Mul, a, b), Ok(a.wrapping_mul(b)));
            if b == 0 {
                assert_eq!(arithmetic(Opcode::Div, a, b), Err(Error::Arithmetic));
            } else {
                assert_eq!(arithmetic(Opcode::Div, a, b), Ok(a / b));
            }
        }
    }
}

#[test]
fn exact_arithmetic_results() {
    assert_eq!(arithmetic(Opcode::Add, 65, 1), Ok(66));
    assert_eq!(arithmetic(Opcode::Sub, 65, 1), Ok(64));
    assert_eq!(arithmetic(Opcode::Mul, 6, 7), Ok(42));
    assert_eq!(arithmetic(Opcode::Div, 43, 6), Ok(7));
    assert_eq!(arithmetic(Opcode::Add, u64::MAX, 1), Ok(0));
    assert_eq!(arithmetic(Opcode::Sub, 0, 1), Ok(u64::MAX));
    assert_eq!(arithmetic(Opcode::Mul, 1 << 63, 2), Ok(0));
}

#[test]
fn an_operation_on_one_word_reads_it_twice() {
    let mut vm = machine(&[], vec![Op(Opcode::Mov, 5, 21, 0), Op(Opcode::Add, 5, 5, 0)]);
    assert_eq!(run_to_end(&mut vm), Ok(0));
    assert_eq!(word(&vm, 5), 42);
}

#[test]
fn division_by_zero_leaves_the_machine_as_it_was() {
    let mut vm = machine(
        &[],
        vec![Op(Opcode::Mov, 0, 9, 0), Op(Opcode::Div, 0, 1, 0), Op(Opcode::Mov, 0, 1, 0)],
    );
    assert_eq!(vm.run(10), Err(Error::Arithmetic));
    assert_eq!(vm.pointer(), 1);
    assert_eq!(word(&vm, 0), 9);
    assert_eq!(word(&vm, 1), 0);
    assert_eq!(vm.step(Reply::Nothing), Err(Error::Arithmetic));
    assert_eq!(vm.pointer(), 1);
}

fn jumps(opcode: Opcode, a: u64, b: u64) -> bool {
    let mut vm = machine(
        &[],
        vec![
            Op(Opcode::Mov, 0, a, 0),
            Op(Opcode::Mov, 1, b, 0),
            Op(opcode, 4, 0, 1),
            Op(Opcode::Hlt, 0, 0, 0),
            Op(Opcode::Hlt, 1, 0, 0),
        ],
    );
    run_to_end(&mut vm).unwrap() == 1
}

#[test]
fn comparison_jumps_at_the_bounds() {
    let max = u64::MAX;
    for &(a, b) in &[(0, 0), (0, max), (max, 0), (max, max), (0, 1), (max - 1, max)] {
        assert_eq!(jumps(Opcode::Je, a, b), a == b);
        assert_eq!(jumps(Opcode::Jne, a, b), a != b);
        assert_eq!(jumps(Opcode::Jg, a, b), a > b);
        assert_eq!(jumps(Opcode::Jge, a, b), a >= b);
        assert_eq!(jumps(Opcode::Jl, a, b), a < b);
        assert_eq!(jumps(Opcode::Jle, a, b), a <= b);
    }
}

#[test]
fn a_comparison_jump_not_taken_moves_on() {
    let mut vm = machine(&[], vec![Op(Opcode::Jne, 0, 0, 1), Op(Opcode::Hlt, 3, 0, 0)]);
    assert_eq!(vm.step(Reply::Nothing), Ok(Status::Running));
    assert_eq!(vm.pointer(), 1);
}

#[test]
fn a_jump_may_go_to_the_end_of_the_program() {
    let mut vm = machine(&[], vec![Op(Opcode::Jmp, 2, 0, 0), Op(Opcode::Mov, 0, 1, 0)]);
    assert_eq!(run_to_end(&mut vm), Ok(0));
    assert_eq!(vm.pointer(), 2);
    assert_eq!(word(&vm, 0), 0);
}

#[test]
fn a_jump_past_the_end_is_a_control_error() {
    let mut vm = machine(&[], vec![Op(Opcode::Jmp, 2, 0, 0)]);
    assert_eq!(vm.step(Reply::Nothing), Err(Error::Control));
    assert_eq!(vm.pointer(), 0);
    let mut vm = machine(&[], vec![Op(Opcode::Je, 9, 0, 0)]);
    assert_eq!(vm.step(Reply::Nothing), Err(Error::Control));
    let mut vm = machine(&[], vec![Op(Opcode::Call, 9, 0, 0)]);
    assert_eq!(vm.step(Reply::Nothing), Err(Error::Control));
    assert_eq!(vm.depth(), 0);
}

#[test]
fn a_jump_past_the_end_that_is_not_taken_is_no_error() {
    let mut vm = machine(&[], vec![Op(Opcode::Jne, 9, 0, 0)]);
    assert_eq!(vm.step(Reply::Nothing), Ok(Status::Running));
    assert_eq!(vm.pointer(), 1);
}

#[test]
fn call_and_return() {
    let mut vm = machine(
        &[],
        vec![
            Op(Opcode::Call, 3, 0, 0),
            Op(Opcode::Inc, 1, 0, 0),
            Op(Opcode::Hlt, 7, 0, 0),
            Op(Opcode::Mov, 0, 5, 0),
            Op(Opcode::Ret, 0, 0, 0),
        ],
    );
    assert_eq!(vm.step(Reply::Nothing), Ok(Status::Running));
    assert_eq!(vm.pointer(), 3);
    assert_eq!(vm.depth(), 1);
    assert_eq!(vm.step(Reply::Nothing), Ok(Status::Running));
    assert_eq!(vm.step(Reply::Nothing), Ok(Status::Running));
    assert_eq!(vm.pointer(), 1);
    assert_eq!(vm.depth(), 0);
    assert_eq!(run_to_end(&mut vm), Ok(7));
    assert_eq!(word(&vm, 0), 5);
    assert_eq!(word(&vm, 1), 1);
}

#[test]
fn nested_calls_return_innermost_first() {
    let mut vm = machine(
        &[],
        vec![
            Op(Opcode::Call, 2, 0, 0),
            Op(Opcode::Hlt, 0, 0, 0),
            Op(Opcode::Call, 5, 0, 0),
            Op(Opcode::Inc, 0, 0, 0),
            Op(Opcode::Ret, 0, 0, 0),
            Op(Opcode::Mov, 0, 10, 0),
            Op(Opcode::Ret, 0, 0, 0),
        ],
    );
    assert_eq!(run_to_end(&mut vm), Ok(0));
    assert_eq!(word(&vm, 0), 11);
    assert_eq!(vm.depth(), 0);
}

#[test]
fn a_return_without_a_call_is_a_control_error() {
    let mut vm = machine(&[], vec![Op(Opcode::Ret, 0, 0, 0)]);
    assert_eq!(vm.step(Reply::Nothing), Err(Error::Control));
    assert_eq!(vm.pointer(), 0);
}

#[test]
fn addresses_outside_memory_are_address_errors() {
    for op in [
        Op(Opcode::Mov, 1024, 1, 0),
        Op(Opcode::Dup, 1024, 0, 0),
        Op(Opcode::Dup, 0, 1024, 0),
        Op(Opcode::Inc, 1024, 0, 0),
        Op(Opcode::Dec, u64::MAX, 0, 0),
        Op(Opcode::Add, 1024, 0, 0),
        Op(Opcode::Sub, 0, 1024, 0),
        Op(Opcode::Mul, 0, 5000, 0),
        Op(Opcode::Div, 0, 1024, 0),
        Op(Opcode::Je, 0, 1024, 0),
        Op(Opcode::Jle, 0, 0, 1024),
        Op(Opcode::MovConst, 0, 1, 0),
        Op(Opcode::MovConst, 1023, 0, 0),
        Op(Opcode::CapConst, 1000, 25, 0),
        Op(Opcode::CapConst, 1025, 0, 0),
        Op(Opcode::CapConst, u64::MAX, 2, 0),
    ] {
        let mut vm = machine(&["ab"], vec![op]);
        assert_eq!(vm.step(Reply::Nothing), Err(Error::Address), "{:?}", op);
        assert_eq!(vm.pointer(), 0);
        assert_eq!(vm.constants().len(), 1);
    }
}

#[test]
fn the_example_that_counts_to_sixty_five() {
    let mut vm = machine(
        &[],
        vec![
            Op(Opcode::Mov, 0, 65, 0),
            Op(Opcode::Mov, 1, 1, 0),
            Op(Opcode::Mov, 2, 1, 0),
            Op(Opcode::Add, 1, 2, 0),
            Op(Opcode::Je, 6, 1, 0),
            Op(Opcode::Jmp, 3, 0, 0),
            Op(Opcode::Write, 1, 1, 1),
        ],
    );
    assert_eq!(
        vm.run(1_000),
        Ok(Outcome::Pending(Request::Write(Sink::Output, vec![65])))
    );
    assert_eq!(vm.pointer(), 6);
    assert_eq!(vm.step(Reply::Written), Ok(Status::Running));
    assert_eq!(vm.run(1_000), Ok(Outcome::Halted(0)));
}

#[test]
fn move_constant_copies_the_code_points() {
    let mut vm = machine(&["0 ", "255 ", "img.ppm"], vec![Op(Opcode::MovConst, 1019, 1, 0)]);
    assert_eq!(run_to_end(&mut vm), Ok(0));
    assert_eq!(word(&vm, 1018), 0);
    assert_eq!(word(&vm, 1019), 50);
    assert_eq!(word(&vm, 1020), 53);
    assert_eq!(word(&vm, 1021), 53);
    assert_eq!(word(&vm, 1022), 32);
    assert_eq!(word(&vm, 1023), 0);
}

#[test]
fn move_constant_may_end_at_the_end_of_memory() {
    let mut vm = machine(&["abcd"], vec![Op(Opcode::MovConst, 1020, 0, 0)]);
    assert_eq!(run_to_end(&mut vm), Ok(0));
    assert_eq!(word(&vm, 1023), 100);
    let mut vm = machine(&["abcd"], vec![Op(Opcode::MovConst, 1021, 0, 0)]);
    assert_eq!(vm.step(Reply::Nothing), Err(Error::Address));
    assert_eq!(word(&vm, 1021), 0);
}

#[test]
fn capture_then_move_reproduces_the_words() {
    let mut vm = machine(
        &["line one\nline two\n"],
        vec![
            Op(Opcode::MovConst, 100, 0, 0),
            Op(Opcode::Mov, 104, u64::MAX, 0),
            Op(Opcode::CapConst, 100, 18, 0),
            Op(Opcode::MovConst, 500, 1, 0),
        ],
    );
    assert_eq!(run_to_end(&mut vm), Ok(0));
    assert_eq!(vm.constants().len(), 2);
    for i in 0..18 {
        assert_eq!(word(&vm, 500 + i), word(&vm, 100 + i));
    }
    assert_eq!(word(&vm, 504), u64::MAX);
    assert_eq!(word(&vm, 508), 10);
    assert_eq!(word(&vm, 518), 0);
}

#[test]
fn capture_of_nothing_is_an_empty_constant() {
    let mut vm = machine(&[], vec![Op(Opcode::CapConst, 1024, 0, 0)]);
    assert_eq!(vm.step(Reply::Nothing), Ok(Status::Running));
    assert_eq!(vm.constants().get(0).unwrap(), &Vec::<u64>::new());
}

#[test]
fn hello_world_goes_to_standard_output() {
    let mut vm = machine(
        &["Hello World!\n"],
        vec![Op(Opcode::MovConst, 0, 0, 0), Op(Opcode::Write, 1, 0, 13)],
    );
    assert_eq!(
        vm.run(100),
        Ok(Outcome::Pending(Request::Write(Sink::Output, b"Hello World!\n".to_vec())))
    );
    assert_eq!(vm.step(Reply::Written), Ok(Status::Running));
    assert_eq!(vm.run(100), Ok(Outcome::Halted(0)));
}

#[test]
fn a_write_cuts_each_word_to_a_byte() {
    let mut vm = machine(
        &[],
        vec![
            Op(Opcode::Mov, 0, 0x1_41, 0),
            Op(Opcode::Mov, 1, u64::MAX, 0),
            Op(Opcode::Mov, 2, 256, 0),
            Op(Opcode::Write, 2, 0, 3),
        ],
    );
    assert_eq!(
        vm.run(100),
        Ok(Outcome::Pending(Request::Write(Sink::Error, vec![0x41, 0xFF, 0])))
    );
}

#[test]
fn a_created_file_is_buffer_three() {
    let mut vm = machine(
        &["img.ppm", "2 by 2\n"],
        vec![
            Op(Opcode::CreateFile, 0, 0, 0),
            Op(Opcode::MovConst, 1010, 1, 0),
            Op(Opcode::Write, 3, 1010, 7),
        ],
    );
    assert_eq!(vm.request(), Ok(Request::Create("img.ppm".to_string())));
    assert_eq!(vm.run(10), Ok(Outcome::Pending(Request::Create("img.ppm".to_string()))));
    assert_eq!(vm.step(Reply::Opened(77)), Ok(Status::Running));
    assert_eq!(vm.buffers(), &vec![77]);
    assert_eq!(
        vm.run(10),
        Ok(Outcome::Pending(Request::Write(Sink::Buffer(77), b"2 by 2\n".to_vec())))
    );
    assert_eq!(vm.step(Reply::Written), Ok(Status::Running));
    assert_eq!(vm.run(10), Ok(Outcome::Halted(0)));
}

#[test]
fn each_kind_of_opening_has_its_request() {
    let program = vec![
        Op(Opcode::LoadFile, 0, 0, 0),
        Op(Opcode::LoadConn, 1, 0, 0),
        Op(Opcode::ListConn, 1, 0, 0),
        Op(Opcode::Write, 5, 0, 1),
        Op(Opcode::Read, 4, 8, 2),
    ];
    let mut vm = machine(&["notes.txt", "127.0.0.1:80"], program);
    assert_eq!(vm.request(), Ok(Request::Open("notes.txt".to_string())));
    assert_eq!(vm.step(Reply::Opened(10)), Ok(Status::Running));
    assert_eq!(vm.request(), Ok(Request::Connect("127.0.0.1:80".to_string())));
    assert_eq!(vm.step(Reply::Opened(11)), Ok(Status::Running));
    assert_eq!(vm.request(), Ok(Request::Listen("127.0.0.1:80".to_string())));
    assert_eq!(vm.step(Reply::Opened(12)), Ok(Status::Running));
    assert_eq!(vm.buffers(), &vec![10, 11, 12]);
    assert_eq!(vm.request(), Ok(Request::Write(Sink::Buffer(12), vec![0])));
    assert_eq!(vm.step(Reply::Written), Ok(Status::Running));
    assert_eq!(vm.request(), Ok(Request::Read(Source::Buffer(11), 2)));
    assert_eq!(vm.step(Reply::Data(vec![200, 7])), Ok(Status::Running));
    assert_eq!(word(&vm, 8), 200);
    assert_eq!(word(&vm, 9), 7);
    assert_eq!(word(&vm, 10), 0);
    assert_eq!(vm.run(10), Ok(Outcome::Halted(0)));
}

#[test]
fn a_read_from_standard_input_fills_memory() {
    let mut vm = machine(&[], vec![Op(Opcode::Read, 0, 1021, 3)]);
    assert_eq!(vm.request(), Ok(Request::Read(Source::Input, 3)));
    assert_eq!(vm.step(Reply::Data(vec![1, 2, 3])), Ok(Status::Running));
    assert_eq!(word(&vm, 1020), 0);
    assert_eq!(word(&vm, 1021), 1);
    assert_eq!(word(&vm, 1022), 2);
    assert_eq!(word(&vm, 1023), 3);
}

#[test]
fn a_short_read_is_an_io_error() {
    let mut vm = machine(&[], vec![Op(Opcode::Read, 0, 0, 3)]);
    assert_eq!(vm.step(Reply::Data(vec![1, 2])), Err(Error::Io));
    assert_eq!(vm.step(Reply::Data(vec![1, 2, 3, 4])), Err(Error::Io));
    assert_eq!(vm.pointer(), 0);
    assert_eq!(word(&vm, 0), 0);
}

#[test]
fn failed_outside_work_is_an_io_error() {
    let mut vm = machine(&["f"], vec![Op(Opcode::CreateFile, 0, 0, 0)]);
    assert_eq!(vm.step(Reply::Failed), Err(Error::Io));
    assert!(vm.buffers().is_empty());
    assert_eq!(vm.pointer(), 0);
    let mut vm = machine(&[], vec![Op(Opcode::Write, 1, 0, 1)]);
    assert_eq!(vm.step(Reply::Failed), Err(Error::Io));
    let mut vm = machine(&[], vec![Op(Opcode::Read, 0, 0, 1)]);
    assert_eq!(vm.step(Reply::Failed), Err(Error::Io));
}

#[test]
fn a_reply_of_the_wrong_kind_is_an_io_error() {
    let mut vm = machine(&["f"], vec![Op(Opcode::CreateFile, 0, 0, 0)]);
    assert_eq!(vm.step(Reply::Nothing), Err(Error::Io));
    assert_eq!(vm.step(Reply::Written), Err(Error::Io));
    let mut vm = machine(&[], vec![Op(Opcode::Write, 1, 0, 1)]);
    assert_eq!(vm.step(Reply::Nothing), Err(Error::Io));
    assert_eq!(vm.step(Reply::Opened(1)), Err(Error::Io));
    let mut vm = machine(&[], vec![Op(Opcode::Mov, 0, 1, 0)]);
    assert_eq!(vm.step(Reply::Written), Err(Error::Io));
    assert_eq!(word(&vm, 0), 0);
    let mut vm = machine(&[], vec![]);
    assert_eq!(vm.step(Reply::Opened(3)), Err(Error::Io));
}

#[test]
fn a_run_does_not_pass_an_instruction_that_needs_outside_work() {
    let mut vm = machine(&[], vec![Op(Opcode::Mov, 0, 72, 0), Op(Opcode::Write, 1, 0, 1)]);
    let pending = Ok(Outcome::Pending(Request::Write(Sink::Output, vec![72])));
    assert_eq!(vm.run(10), pending);
    assert_eq!(vm.run(10), pending);
    assert_eq!(vm.pointer(), 1);
}

#[test]
fn writing_to_input_and_reading_from_output_are_address_errors() {
    let mut vm = machine(&[], vec![Op(Opcode::Write, 0, 0, 1)]);
    assert_eq!(vm.request(), Err(Error::Address));
    assert_eq!(vm.step(Reply::Written), Err(Error::Address));
    for target in [1, 2] {
        let mut vm = machine(&[], vec![Op(Opcode::Read, target, 0, 1)]);
        assert_eq!(vm.request(), Err(Error::Address));
        assert_eq!(vm.step(Reply::Data(vec![0])), Err(Error::Address));
    }
}

#[test]
fn a_buffer_that_was_not_opened_is_an_address_error() {
    let mut vm = machine(&["f"], vec![Op(Opcode::CreateFile, 0, 0, 0), Op(Opcode::Write, 4, 0, 1)]);
    assert_eq!(vm.step(Reply::Opened(9)), Ok(Status::Running));
    assert_eq!(vm.request(), Err(Error::Address));
    let mut vm = machine(&[], vec![Op(Opcode::Read, 3, 0, 1)]);
    assert_eq!(vm.request(), Err(Error::Address));
    let mut vm = machine(&[], vec![Op(Opcode::Write, u64::MAX, 0, 1)]);
    assert_eq!(vm.request(), Err(Error::Address));
}

#[test]
fn a_transfer_outside_memory_is_an_address_error() {
    let mut vm = machine(&[], vec![Op(Opcode::Write, 1, 1000, 25)]);
    assert_eq!(vm.request(), Err(Error::Address));
    let mut vm = machine(&[], vec![Op(Opcode::Read, 0, 1024, 1)]);
    assert_eq!(vm.request(), Err(Error::Address));
    let mut vm = machine(&[], vec![Op(Opcode::Read, 0, 1, u64::MAX)]);
    assert_eq!(vm.request(), Err(Error::Address));
    let mut vm = machine(&[], vec![Op(Opcode::Write, 1, 1024, 0)]);
    assert_eq!(vm.request(), Ok(Request::Write(Sink::Output, vec![])));
    assert_eq!(vm.step(Reply::Written), Ok(Status::Running));
}

#[test]
fn a_missing_constant_is_an_address_error() {
    for opcode in [Opcode::CreateFile, Opcode::LoadFile, Opcode::LoadConn, Opcode::ListConn] {
        let mut vm = machine(&["only"], vec![Op(opcode, 1, 0, 0)]);
        assert_eq!(vm.request(), Err(Error::Address));
        assert_eq!(vm.step(Reply::Opened(1)), Err(Error::Address));
        assert!(vm.buffers().is_empty());
    }
}

#[test]
fn a_name_with_an_invalid_code_point_is_an_encoding_error() {
    for bad in [0xD800u64, 0xDFFF, 0x11_0000, u64::MAX] {
        let mut vm = machine(
            &[],
            vec![
                Op(Opcode::Mov, 0, 102, 0),
                Op(Opcode::Mov, 1, bad, 0),
                Op(Opcode::CapConst, 0, 2, 0),
                Op(Opcode::CreateFile, 0, 0, 0),
            ],
        );
        assert_eq!(vm.run(10), Err(Error::Encoding));
        assert_eq!(vm.pointer(), 3);
        assert_eq!(vm.step(Reply::Opened(1)), Err(Error::Encoding));
        assert!(vm.buffers().is_empty());
    }
}

#[test]
fn a_captured_name_opens_a_file() {
    let mut vm = machine(
        &[],
        vec![
            Op(Opcode::Mov, 0, 0x10FFFF, 0),
            Op(Opcode::Mov, 1, 0xD7FF, 0),
            Op(Opcode::Mov, 2, 0xE000, 0),
            Op(Opcode::CapConst, 0, 3, 0),
            Op(Opcode::LoadFile, 0, 0, 0),
        ],
    );
    assert_eq!(
        vm.run(10),
        Ok(Outcome::Pending(Request::Open("\u{10FFFF}\u{D7FF}\u{E000}".to_string())))
    );
}
