//! Laws of the instruction semantics, each proved from the transition
//! function.

use vstd::prelude::*;
use crate::error::Error;
use crate::io::{OutcomeView, ReplyView, RequestView, Status};
use crate::isa::{Op, Opcode, Word};
use crate::lower::{frame_offset, is_slot, slot_ref, store_block};
use crate::memory::{in_memory, MEMORY_WORDS};
use crate::semantics::{holds, request, run, step, wrap, State};
use crate::text::{decimal, digit};

verus! {

/// The evaluation of an empty program ends at once, with the code 0, and
/// leaves memory and all the rest of the state as it was.
pub proof fn lemma_empty_program_halts(s: State, fuel: nat)
    requires
        fuel > 0,
    ensures
        request(Seq::<Op>::empty(), s) == Ok::<RequestView, Error>(RequestView::Nothing),
        step(Seq::<Op>::empty(), s, ReplyView::Nothing) == Ok::<(State, Status), Error>(
            (s, Status::Halted(0)),
        ),
        run(Seq::<Op>::empty(), s, fuel) == (s, Ok::<OutcomeView, Error>(OutcomeView::Halted(0))),
{
}

/// Past the last instruction every program has ended, and a step changes
/// nothing.
pub proof fn lemma_end_of_program_halts(program: Seq<Op>, s: State)
    requires
        s.pointer >= program.len(),
    ensures
        step(program, s, ReplyView::Nothing) == Ok::<(State, Status), Error>(
            (s, Status::Halted(0)),
        ),
{
}

/// No step changes the size of memory, and no step shortens the constant
/// pool or the table of opened resources: what was there stays as it was.
pub proof fn lemma_step_keeps_what_exists(program: Seq<Op>, s: State, reply: ReplyView)
    requires
        s.wf(),
        step(program, s, reply) is Ok,
    ensures
        ({
            let next = step(program, s, reply)->Ok_0.0;
            &&& next.wf()
            &&& s.constants.is_prefix_of(next.constants)
            &&& s.buffers.is_prefix_of(next.buffers)
        }),
{
}

/// No run changes the size of memory.
pub proof fn lemma_run_keeps_memory_size(program: Seq<Op>, s: State, fuel: nat)
    requires
        s.wf(),
    ensures
        run(program, s, fuel).0.wf(),
    decreases fuel,
{
    if fuel > 0 {
        match request(program, s) {
            Ok(RequestView::Nothing) => match step(program, s, ReplyView::Nothing) {
                Ok((next, Status::Running)) => {
                    lemma_step_keeps_what_exists(program, s, ReplyView::Nothing);
                    lemma_run_keeps_memory_size(program, next, (fuel - 1) as nat);
                },
                Ok((next, Status::Halted(_))) => {
                    lemma_step_keeps_what_exists(program, s, ReplyView::Nothing);
                },
                Err(_) => {},
            },
            _ => {},
        }
    }
}

/// The state after an arithmetic instruction has put `value` at `dst`.
pub open spec fn with_result(s: State, dst: Word, value: Word) -> State {
    State { memory: s.memory.update(dst as int, value), pointer: s.pointer + 1, ..s }
}

/// Addition, subtraction and multiplication put the sum, the difference and
/// the product of the two operands, modulo 2^64, into the first operand, so
/// the exact result wherever that is a word. Division puts the quotient
/// there, rounded down; by zero it fails with `Error::Arithmetic`. Nothing
/// else changes but the pointer, which moves on.
pub proof fn lemma_arithmetic(program: Seq<Op>, s: State, op: Op)
    requires
        s.wf(),
        s.pointer < program.len(),
        program[s.pointer as int] == op,
        op.1 < MEMORY_WORDS,
        op.2 < MEMORY_WORDS,
    ensures
        ({
            let a = s.memory[op.1 as int];
            let b = s.memory[op.2 as int];
            let next = step(program, s, ReplyView::Nothing);
            &&& op.0 == Opcode::Add ==> next == Ok::<(State, Status), Error>(
                (with_result(s, op.1, wrap(a + b)), Status::Running),
            )
            &&& op.0 == Opcode::Sub ==> next == Ok::<(State, Status), Error>(
                (with_result(s, op.1, wrap(a - b)), Status::Running),
            )
            &&& op.0 == Opcode::Mul ==> next == Ok::<(State, Status), Error>(
                (with_result(s, op.1, wrap(a * b)), Status::Running),
            )
            &&& op.0 == Opcode::Div && b != 0 ==> next == Ok::<(State, Status), Error>(
                (with_result(s, op.1, (a / b) as u64), Status::Running),
            )
            &&& op.0 == Opcode::Div && b == 0 ==> next == Err::<(State, Status), Error>(
                Error::Arithmetic,
            )
            &&& a + b <= u64::MAX ==> wrap(a + b) == a + b
            &&& a >= b ==> wrap(a - b) == a - b
            &&& a * b <= u64::MAX ==> wrap(a * b) == a * b
            &&& b != 0 ==> a / b <= a
        }),
{
    let a = s.memory[op.1 as int];
    let b = s.memory[op.2 as int];
    assert(a * b >= 0) by (nonlinear_arith)
        requires
            a >= 0,
            b >= 0,
    ;
    if b != 0 {
        assert(0 <= a / b <= a) by (nonlinear_arith)
            requires
                a >= 0,
                b > 0,
        ;
    }
}

/// A comparison jump moves the pointer to its target where the comparison
/// holds of the two operands, and to the following instruction where it does
/// not. It changes nothing else.
pub proof fn lemma_comparison_jump(program: Seq<Op>, s: State, op: Op)
    requires
        s.wf(),
        s.pointer < program.len(),
        program[s.pointer as int] == op,
        op.0 == Opcode::Je || op.0 == Opcode::Jne || op.0 == Opcode::Jg || op.0 == Opcode::Jge
            || op.0 == Opcode::Jl || op.0 == Opcode::Jle,
        op.1 <= program.len(),
        op.2 < MEMORY_WORDS,
        op.3 < MEMORY_WORDS,
    ensures
        ({
            let a = s.memory[op.2 as int];
            let b = s.memory[op.3 as int];
            let taken = match op.0 {
                Opcode::Je => a == b,
                Opcode::Jne => a != b,
                Opcode::Jg => a > b,
                Opcode::Jge => a >= b,
                Opcode::Jl => a < b,
                _ => a <= b,
            };
            step(program, s, ReplyView::Nothing) == Ok::<(State, Status), Error>(
                (
                    State {
                        pointer: if taken {
                            op.1 as nat
                        } else {
                            s.pointer + 1
                        },
                        ..s
                    },
                    Status::Running,
                ),
            )
        }),
{
}

/// The six comparisons at the smallest and the largest word.
pub proof fn lemma_comparisons_at_bounds()
    ensures
        holds(Opcode::Je, 0, 0) && holds(Opcode::Je, u64::MAX, u64::MAX),
        !holds(Opcode::Je, 0, u64::MAX) && !holds(Opcode::Je, u64::MAX, 0),
        !holds(Opcode::Jne, 0, 0) && !holds(Opcode::Jne, u64::MAX, u64::MAX),
        holds(Opcode::Jne, 0, u64::MAX) && holds(Opcode::Jne, u64::MAX, 0),
        holds(Opcode::Jg, u64::MAX, 0) && !holds(Opcode::Jg, 0, u64::MAX),
        !holds(Opcode::Jg, 0, 0) && !holds(Opcode::Jg, u64::MAX, u64::MAX),
        holds(Opcode::Jge, u64::MAX, 0) && !holds(Opcode::Jge, 0, u64::MAX),
        holds(Opcode::Jge, 0, 0) && holds(Opcode::Jge, u64::MAX, u64::MAX),
        holds(Opcode::Jl, 0, u64::MAX) && !holds(Opcode::Jl, u64::MAX, 0),
        !holds(Opcode::Jl, 0, 0) && !holds(Opcode::Jl, u64::MAX, u64::MAX),
        holds(Opcode::Jle, 0, u64::MAX) && !holds(Opcode::Jle, u64::MAX, 0),
        holds(Opcode::Jle, 0, 0) && holds(Opcode::Jle, u64::MAX, u64::MAX),
{
}

/// Whether the native jump with the mnemonic `mnemonic` is taken after a
/// comparison of the words `a` and `b`, the first operand of the comparison
/// being `a`: the unconditional jump always, the jumps on equality where
/// the words are equal or differ, and the jumps on an unsigned order (above,
/// above or equal, below, below or equal) where `a` stands to `b` in that
/// order as an unsigned number.
pub open spec fn native_jump_taken(mnemonic: Seq<char>, a: Word, b: Word) -> bool {
    if mnemonic == "jmp"@ {
        true
    } else if mnemonic == "je"@ {
        a == b
    } else if mnemonic == "jne"@ {
        a != b
    } else if mnemonic == "ja"@ {
        a > b
    } else if mnemonic == "jae"@ {
        a >= b
    } else if mnemonic == "jb"@ {
        a < b
    } else if mnemonic == "jbe"@ {
        a <= b
    } else {
        false
    }
}

/// The native jump that the generator emits for a comparison jump is taken
/// exactly where the interpreter takes the jump: both compare the words as
/// unsigned numbers.
pub proof fn lemma_jumps_compare_unsigned(op: Opcode, a: Word, b: Word)
    requires
        op == Opcode::Je || op == Opcode::Jne || op == Opcode::Jg || op == Opcode::Jge || op
            == Opcode::Jl || op == Opcode::Jle,
    ensures
        native_jump_taken(op.mnemonic(), a, b) == holds(op, a, b),
        native_jump_taken(Opcode::Jmp.mnemonic(), a, b),
{
    reveal_strlit("jmp");
    reveal_strlit("je");
    reveal_strlit("jne");
    reveal_strlit("ja");
    reveal_strlit("jae");
    reveal_strlit("jb");
    reveal_strlit("jbe");
    assert("jmp"@.len() == 3 && "jne"@.len() == 3 && "jae"@.len() == 3 && "jbe"@.len() == 3);
    assert("je"@.len() == 2 && "ja"@.len() == 2 && "jb"@.len() == 2);
    assert("je"@[1] == 'e' && "ja"@[1] == 'a' && "jb"@[1] == 'b');
    assert("jmp"@[1] == 'm' && "jne"@[1] == 'n' && "jae"@[1] == 'a' && "jbe"@[1] == 'b');
}

/// Different numbers have different decimal numerals.
pub proof fn lemma_decimal_is_injective(a: nat, b: nat)
    requires
        decimal(a) == decimal(b),
    ensures
        a == b,
    decreases a,
{
    if a < 10 && b < 10 {
        assert(decimal(a)[0] == digit(a));
        assert(decimal(b)[0] == digit(b));
    } else if a >= 10 && b >= 10 {
        let high_a = decimal(a / 10);
        let high_b = decimal(b / 10);
        assert(decimal(a).drop_last() =~= high_a);
        assert(decimal(b).drop_last() =~= high_b);
        assert(decimal(a).last() == digit(a % 10));
        assert(decimal(b).last() == digit(b % 10));
        lemma_decimal_is_injective(a / 10, b / 10);
    } else {
        lemma_decimal_has_a_digit(a / 10);
        lemma_decimal_has_a_digit(b / 10);
    }
}

/// A decimal numeral has at least one digit.
pub proof fn lemma_decimal_has_a_digit(n: nat)
    ensures
        decimal(n).len() >= 1,
    decreases n,
{
    if n >= 10 {
        lemma_decimal_has_a_digit(n / 10);
    }
}

/// The blocks of two moves of one number into different words differ: the
/// block of a move names the word that it writes.
pub proof fn lemma_moves_name_their_words(first: Word, second: Word, value: Word)
    requires
        is_slot(first),
        is_slot(second),
        store_block(first, value) == store_block(second, value),
    ensures
        first == second,
{
    let lead = "mov rax, "@ + decimal(value as nat) + "\nmov "@;
    let rest = ", rax"@;
    let open = "[rbp-"@;
    let a = decimal(frame_offset(first));
    let b = decimal(frame_offset(second));
    let one = lead + slot_ref(first) + rest;
    let two = lead + slot_ref(second) + rest;
    assert(one.len() == two.len());
    assert(a.len() == b.len());
    assert forall|i: int| 0 <= i < a.len() implies a[i] == b[i] by {
        assert(one[lead.len() + open.len() + i] == a[i]);
        assert(two[lead.len() + open.len() + i] == b[i]);
    }
    assert(a =~= b);
    lemma_decimal_is_injective(frame_offset(first), frame_offset(second));
}

/// Capturing a range of memory as a constant and moving that constant back
/// into memory reproduces the words of the range, whatever they are.
pub proof fn lemma_capture_then_move(program: Seq<Op>, s: State, capture: Op, restore: Op)
    requires
        s.wf(),
        s.pointer + 1 < program.len(),
        program[s.pointer as int] == capture,
        program[(s.pointer + 1) as int] == restore,
        capture.0 == Opcode::CapConst,
        in_memory(capture.1, capture.2 as nat),
        restore.0 == Opcode::MovConst,
        restore.2 == s.constants.len(),
        in_memory(restore.1, capture.2 as nat),
    ensures
        step(program, s, ReplyView::Nothing) matches Ok((captured, _)) && step(
            program,
            captured,
            ReplyView::Nothing,
        ) matches Ok((restored, _)) && restored.memory.subrange(
            restore.1 as int,
            restore.1 + capture.2,
        ) == s.memory.subrange(capture.1 as int, capture.1 + capture.2),
{
    let captured = step(program, s, ReplyView::Nothing)->Ok_0.0;
    let restored = step(program, captured, ReplyView::Nothing)->Ok_0.0;
    assert(restored.memory.subrange(restore.1 as int, restore.1 + capture.2)
        =~= s.memory.subrange(capture.1 as int, capture.1 + capture.2));
}

} // verus!
