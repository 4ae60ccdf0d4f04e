//! What each instruction does, as a transition function on mathematical
//! states. The interpreter is proved against this function; the laws at the
//! end of the file are consequences of it.

use vstd::prelude::*;
use crate::error::Error;
use crate::io::{OutcomeView, ReplyView, RequestView, Sink, Source, Status};
use crate::isa::{Op, Opcode, Word};
use crate::memory::{in_memory, low_bytes, overwrite, widened, MEMORY_WORDS};
use crate::pool::{all_scalar, text_of};

verus! {

/// All that an evaluation has besides its program.
pub struct State {
    /// The index of the instruction that is executed next.
    pub pointer: nat,
    /// The 1024 words of memory.
    pub memory: Seq<Word>,
    /// The constants, each the sequence of its code points.
    pub constants: Seq<Seq<Word>>,
    /// The handles of the resources opened so far, in the order of opening.
    /// The buffer with the index `n`, for `n` from 3 on, is entry `n - 3`.
    pub buffers: Seq<Word>,
    /// The return addresses of the calls that have not returned, the
    /// innermost last.
    pub stack: Seq<nat>,
}

impl State {
    /// Whether the state has a memory of the right size.
    pub open spec fn wf(self) -> bool {
        self.memory.len() == MEMORY_WORDS
    }

    /// The state in which the evaluation of a program with these constants
    /// begins.
    pub open spec fn initial(constants: Seq<Seq<Word>>) -> State {
        State {
            pointer: 0,
            memory: Seq::new(MEMORY_WORDS as nat, |i: int| 0u64),
            constants,
            buffers: Seq::empty(),
            stack: Seq::empty(),
        }
    }

    /// The state with the pointer at the following instruction.
    pub open spec fn advanced(self) -> State {
        State { pointer: self.pointer + 1, ..self }
    }

    /// The state after the word at `addr` was set to `value` and the pointer
    /// moved on; `Error::Address` where `addr` is not in memory.
    pub open spec fn stored(self, addr: Word, value: Word) -> Result<(State, Status), Error> {
        if addr < MEMORY_WORDS {
            Ok(
                (
                    State { memory: self.memory.update(addr as int, value), ..self }.advanced(),
                    Status::Running,
                ),
            )
        } else {
            Err(Error::Address)
        }
    }

    /// The state after a jump to `target`; `Error::Control` where `target`
    /// lies past the end of a program of `len` instructions. The end itself
    /// is a target: the evaluation ends there.
    pub open spec fn jumped(self, len: nat, target: Word) -> Result<(State, Status), Error> {
        if target <= len {
            Ok((State { pointer: target as nat, ..self }, Status::Running))
        } else {
            Err(Error::Control)
        }
    }
}

/// `x` reduced to a word, as the machine's arithmetic does: modulo 2^64.
pub open spec fn wrap(x: int) -> Word {
    (x % 0x1_0000_0000_0000_0000) as u64
}

/// The result of the arithmetic instruction `op` on `a` and `b`. Addition,
/// subtraction and multiplication wrap; division by zero is
/// `Error::Arithmetic`.
pub open spec fn computed(op: Opcode, a: Word, b: Word) -> Result<Word, Error> {
    match op {
        Opcode::Add => Ok(wrap(a + b)),
        Opcode::Sub => Ok(wrap(a - b)),
        Opcode::Mul => Ok(wrap(a * b)),
        _ => if b == 0 {
            Err(Error::Arithmetic)
        } else {
            Ok((a / b) as u64)
        },
    }
}

/// Whether the comparison of the jump `op` holds of `a` and `b`.
pub open spec fn holds(op: Opcode, a: Word, b: Word) -> bool {
    match op {
        Opcode::Je => a == b,
        Opcode::Jne => a != b,
        Opcode::Jg => a > b,
        Opcode::Jge => a >= b,
        Opcode::Jl => a < b,
        _ => a <= b,
    }
}

/// The text of the constant with the index `index`: `Error::Address` where
/// there is no such constant, `Error::Encoding` where one of its words is no
/// Unicode scalar value.
pub open spec fn name_of(s: State, index: Word) -> Result<Seq<char>, Error> {
    if index >= s.constants.len() {
        Err(Error::Address)
    } else if !all_scalar(s.constants[index as int]) {
        Err(Error::Encoding)
    } else {
        Ok(text_of(s.constants[index as int]))
    }
}

/// Where a write to the buffer index `target` goes. Index 0 is the standard
/// input, to which nothing is written.
pub open spec fn sink_of(s: State, target: Word) -> Result<Sink, Error> {
    if target == 1 {
        Ok(Sink::Output)
    } else if target == 2 {
        Ok(Sink::Error)
    } else if 3 <= target && target - 3 < s.buffers.len() {
        Ok(Sink::Buffer(s.buffers[target - 3]))
    } else {
        Err(Error::Address)
    }
}

/// Where a read from the buffer index `target` comes from. Indices 1 and 2
/// are the standard output and error, from which nothing is read.
pub open spec fn source_of(s: State, target: Word) -> Result<Source, Error> {
    if target == 0 {
        Ok(Source::Input)
    } else if 3 <= target && target - 3 < s.buffers.len() {
        Ok(Source::Buffer(s.buffers[target - 3]))
    } else {
        Err(Error::Address)
    }
}

/// The outside work that the instruction at the pointer needs, or the error
/// that makes the instruction fail before any outside work.
pub open spec fn request(program: Seq<Op>, s: State) -> Result<RequestView, Error> {
    if s.pointer >= program.len() {
        Ok(RequestView::Nothing)
    } else {
        let op = program[s.pointer as int];
        match op.0 {
            Opcode::CreateFile => match name_of(s, op.1) {
                Ok(name) => Ok(RequestView::Create(name)),
                Err(e) => Err(e),
            },
            Opcode::LoadFile => match name_of(s, op.1) {
                Ok(name) => Ok(RequestView::Open(name)),
                Err(e) => Err(e),
            },
            Opcode::LoadConn => match name_of(s, op.1) {
                Ok(address) => Ok(RequestView::Connect(address)),
                Err(e) => Err(e),
            },
            Opcode::ListConn => match name_of(s, op.1) {
                Ok(address) => Ok(RequestView::Listen(address)),
                Err(e) => Err(e),
            },
            Opcode::Write => match sink_of(s, op.1) {
                Ok(sink) => if in_memory(op.2, op.3 as nat) {
                    Ok(
                        RequestView::Write(
                            sink,
                            low_bytes(s.memory.subrange(op.2 as int, op.2 + op.3)),
                        ),
                    )
                } else {
                    Err(Error::Address)
                },
                Err(e) => Err(e),
            },
            Opcode::Read => match source_of(s, op.1) {
                Ok(source) => if in_memory(op.2, op.3 as nat) {
                    Ok(RequestView::Read(source, op.3 as nat))
                } else {
                    Err(Error::Address)
                },
                Err(e) => Err(e),
            },
            Opcode::Hlt | Opcode::Ret | Opcode::Mov | Opcode::Dup | Opcode::Inc | Opcode::Dec
            | Opcode::Add | Opcode::Sub | Opcode::Mul | Opcode::Div | Opcode::Call | Opcode::Jmp
            | Opcode::Je | Opcode::Jne | Opcode::Jg | Opcode::Jge | Opcode::Jl | Opcode::Jle
            | Opcode::MovConst | Opcode::CapConst => Ok(RequestView::Nothing),
        }
    }
}

/// What the instruction `op`, one that needs no outside work, makes of the
/// state `s` in a program of `len` instructions.
pub open spec fn executed(len: nat, op: Op, s: State) -> Result<(State, Status), Error> {
    match op.0 {
        Opcode::Hlt => Ok((s, Status::Halted(op.1))),
        Opcode::Ret => if s.stack.len() == 0 {
            Err(Error::Control)
        } else {
            Ok(
                (
                    State { pointer: s.stack.last(), stack: s.stack.drop_last(), ..s },
                    Status::Running,
                ),
            )
        },
        Opcode::Mov => s.stored(op.1, op.2),
        Opcode::Dup => if op.2 < MEMORY_WORDS {
            s.stored(op.1, s.memory[op.2 as int])
        } else {
            Err(Error::Address)
        },
        Opcode::Inc => if op.1 < MEMORY_WORDS {
            s.stored(op.1, wrap(s.memory[op.1 as int] + 1))
        } else {
            Err(Error::Address)
        },
        Opcode::Dec => if op.1 < MEMORY_WORDS {
            s.stored(op.1, wrap(s.memory[op.1 as int] - 1))
        } else {
            Err(Error::Address)
        },
        Opcode::Add | Opcode::Sub | Opcode::Mul | Opcode::Div => if op.1 < MEMORY_WORDS && op.2
            < MEMORY_WORDS {
            match computed(op.0, s.memory[op.1 as int], s.memory[op.2 as int]) {
                Ok(value) => s.stored(op.1, value),
                Err(e) => Err(e),
            }
        } else {
            Err(Error::Address)
        },
        Opcode::Call => State { stack: s.stack.push(s.pointer + 1), ..s }.jumped(len, op.1),
        Opcode::Jmp => s.jumped(len, op.1),
        Opcode::Je | Opcode::Jne | Opcode::Jg | Opcode::Jge | Opcode::Jl | Opcode::Jle => if op.2
            < MEMORY_WORDS && op.3 < MEMORY_WORDS {
            if holds(op.0, s.memory[op.2 as int], s.memory[op.3 as int]) {
                s.jumped(len, op.1)
            } else {
                Ok((s.advanced(), Status::Running))
            }
        } else {
            Err(Error::Address)
        },
        Opcode::MovConst => if op.2 < s.constants.len() && in_memory(
            op.1,
            s.constants[op.2 as int].len(),
        ) {
            Ok(
                (
                    State {
                        memory: overwrite(s.memory, op.1 as int, s.constants[op.2 as int]),
                        ..s
                    }.advanced(),
                    Status::Running,
                ),
            )
        } else {
            Err(Error::Address)
        },
        Opcode::CapConst => if in_memory(op.1, op.2 as nat) {
            Ok(
                (
                    State {
                        constants: s.constants.push(s.memory.subrange(op.1 as int, op.1 + op.2)),
                        ..s
                    }.advanced(),
                    Status::Running,
                ),
            )
        } else {
            Err(Error::Address)
        },
        Opcode::CreateFile | Opcode::LoadFile | Opcode::LoadConn | Opcode::ListConn
        | Opcode::Write | Opcode::Read => Err(Error::Io),
    }
}

/// One step of the evaluation: what the instruction at the pointer makes of
/// the state `s`, given the reply to the request that it made.
///
/// Past the end of the program the evaluation has ended, with the code 0.
/// An instruction fails with `Error::Io` where the reply does not answer its
/// request: the work failed, fewer bytes were read than asked for, or the
/// reply is of another kind than the request.
pub open spec fn step(program: Seq<Op>, s: State, reply: ReplyView) -> Result<
    (State, Status),
    Error,
> {
    match request(program, s) {
        Err(e) => Err(e),
        Ok(RequestView::Nothing) => if reply != ReplyView::Nothing {
            Err(Error::Io)
        } else if s.pointer >= program.len() {
            Ok((s, Status::Halted(0)))
        } else {
            executed(program.len(), program[s.pointer as int], s)
        },
        Ok(RequestView::Write(_, _)) => if reply == ReplyView::Written {
            Ok((s.advanced(), Status::Running))
        } else {
            Err(Error::Io)
        },
        Ok(RequestView::Read(_, len)) => match reply {
            ReplyView::Data(bytes) => if bytes.len() == len {
                Ok(
                    (
                        State {
                            memory: overwrite(
                                s.memory,
                                program[s.pointer as int].2 as int,
                                widened(bytes),
                            ),
                            ..s
                        }.advanced(),
                        Status::Running,
                    ),
                )
            } else {
                Err(Error::Io)
            },
            _ => Err(Error::Io),
        },
        Ok(_) => match reply {
            ReplyView::Opened(handle) => Ok(
                (State { buffers: s.buffers.push(handle), ..s }.advanced(), Status::Running),
            ),
            _ => Err(Error::Io),
        },
    }
}

/// A run of at most `fuel` instructions: the state in which it ends, and how
/// it ends. It ends where the evaluation has ended, before an instruction
/// that needs outside work, before an instruction that fails, or after
/// `fuel` instructions.
pub open spec fn run(program: Seq<Op>, s: State, fuel: nat) -> (State, Result<OutcomeView, Error>)
    decreases fuel,
{
    if fuel == 0 {
        (s, Ok(OutcomeView::Exhausted))
    } else {
        match request(program, s) {
            Err(e) => (s, Err(e)),
            Ok(RequestView::Nothing) => match step(program, s, ReplyView::Nothing) {
                Err(e) => (s, Err(e)),
                Ok((next, Status::Halted(code))) => (next, Ok(OutcomeView::Halted(code))),
                Ok((next, Status::Running)) => run(program, next, (fuel - 1) as nat),
            },
            Ok(asked) => (s, Ok(OutcomeView::Pending(asked))),
        }
    }
}

} // verus!
