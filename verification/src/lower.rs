//! The lowering of one instruction to a block of native assembly.
//!
//! Memory is one stack frame: the word with the index `i` lies `8 * i + 8`
//! bytes below the frame pointer. A constant is a symbol of the data section,
//! `c` followed by its index; the label of an instruction is `l` followed by
//! its index. A block names only what exists: a word of the frame, a
//! constant of the pool, a label of the program.

use vstd::prelude::*;
use vstd::string::*;
use crate::error::Error;
use crate::isa::{Op, Opcode, Word};
use crate::labels::label_name;
use crate::memory::MEMORY_WORDS;
use crate::text::{decimal, push_decimal};

verus! {

/// How far below the frame pointer the word with the index `slot` lies.
pub open spec fn frame_offset(slot: Word) -> nat {
    (8 * slot + 8) as nat
}

/// The operand that names the word with the index `slot`.
pub open spec fn slot_ref(slot: Word) -> Seq<char> {
    "[rbp-"@ + decimal(frame_offset(slot)) + "]"@
}

/// The symbol of the constant with the index `index`.
pub open spec fn constant_name(index: nat) -> Seq<char> {
    "c"@ + decimal(index)
}

/// Whether `w` is the index of a word of memory.
pub open spec fn is_slot(w: Word) -> bool {
    w < MEMORY_WORDS
}

/// The instruction index that `op` names as a target, if it is a call or a
/// jump.
pub open spec fn target_of(op: Op) -> Option<Word> {
    if op.0 == Opcode::Call || op.0.is_jump() {
        Some(op.1)
    } else {
        None
    }
}

/// The block that puts the number `value` into `dst`.
pub open spec fn store_block(dst: Word, value: Word) -> Seq<char> {
    "mov rax, "@ + decimal(value as nat) + "\nmov "@ + slot_ref(dst) + ", rax"@
}

/// The block of a copy from `src` to `dst`.
pub open spec fn copy_block(dst: Word, src: Word) -> Seq<char> {
    "mov rax, "@ + slot_ref(src) + "\nmov "@ + slot_ref(dst) + ", rax"@
}

/// The block of an increment or a decrement of `dst`.
pub open spec fn step_block(op: Opcode, dst: Word) -> Seq<char> {
    "mov rax, "@ + slot_ref(dst) + "\n"@ + op.mnemonic() + " rax\nmov "@ + slot_ref(dst)
        + ", rax"@
}

/// The native instruction of an arithmetic opcode, up to its operand.
pub open spec fn arithmetic(op: Opcode) -> Seq<char> {
    match op {
        Opcode::Add => "\nadd rax, "@,
        Opcode::Sub => "\nsub rax, "@,
        Opcode::Mul => "\nmul "@,
        _ => "\ndiv "@,
    }
}

/// What precedes the load of the first operand of an arithmetic opcode: a
/// division clears the upper half of the dividend.
pub open spec fn preamble(op: Opcode) -> Seq<char> {
    if op == Opcode::Div {
        "mov rdx, 0\nmov rax, "@
    } else {
        "mov rax, "@
    }
}

/// The block of an arithmetic instruction on `dst` and `src`.
pub open spec fn arithmetic_block(op: Opcode, dst: Word, src: Word) -> Seq<char> {
    preamble(op) + slot_ref(dst) + arithmetic(op) + slot_ref(src) + "\nmov "@ + slot_ref(dst)
        + ", rax"@
}

/// The block of a call of the instruction `target`.
pub open spec fn call_block(target: Word) -> Seq<char> {
    "call "@ + label_name(target as nat)
}

/// The block of a jump to `target` that compares the words `a` and `b`.
pub open spec fn jump_block(op: Opcode, target: Word, a: Word, b: Word) -> Seq<char> {
    "mov rax, "@ + slot_ref(a) + "\ncmp rax, "@ + slot_ref(b) + "\n"@ + op.mnemonic() + " "@
        + label_name(target as nat)
}

/// The block that puts the address of constant `index` into `dst`.
pub open spec fn constant_block(dst: Word, index: Word) -> Seq<char> {
    "mov rax, "@ + constant_name(index as nat) + "\nmov "@ + slot_ref(dst) + ", rax"@
}

/// The system call that opens a file, up to the symbol of its name.
pub open spec fn open_call(op: Opcode) -> Seq<char> {
    if op == Opcode::CreateFile {
        "mov rax, 85\nmov rdi, "@
    } else {
        "mov rax, 2\nmov rdi, "@
    }
}

/// The arguments of the system call that opens a file, after its name.
pub open spec fn open_mode(op: Opcode) -> Seq<char> {
    if op == Opcode::CreateFile {
        "\nmov rsi, 0o666\nsyscall\nsub rbp, "@
    } else {
        "\nmov rsi, 0o2\nmov rdx, 0o666\nsyscall\nsub rbp, "@
    }
}

/// The block that opens the file named by constant `index` and puts its
/// descriptor into `slot`.
pub open spec fn open_block(op: Opcode, index: Word, slot: Word) -> Seq<char> {
    open_call(op) + constant_name(index as nat) + open_mode(op) + decimal(frame_offset(slot))
        + "\nmov [rbp], rax\nadd rbp, "@ + decimal(frame_offset(slot))
}

/// The operand that names the descriptor of the buffer `target`: the number
/// itself for the three standard streams, and beyond them the word that
/// holds the descriptor.
pub open spec fn descriptor(target: Word) -> Seq<char> {
    if target < 3 {
        decimal(target as nat)
    } else {
        slot_ref((target - 3) as u64)
    }
}

/// The block that writes `len` bytes from the address in `src` to the buffer
/// `target`.
pub open spec fn write_block(target: Word, src: Word, len: Word) -> Seq<char> {
    "mov rax, 1\nmov rdi, "@ + descriptor(target) + "\nmov rsi, "@ + slot_ref(src)
        + "\nmov rdx, "@ + decimal(len as nat) + "\nsyscall"@
}

/// The block of the instruction `op` in a program of `len` instructions with
/// `pool` constants.
///
/// `Error::Address` where the block would name a word outside memory or a
/// constant that the pool does not hold; else `Error::Control` where it
/// would name a label past the end of the program. `Error::Unsupported` for
/// the opcodes that cannot be lowered: connecting, listening, reading, and
/// capturing a constant.
pub open spec fn lowered(len: nat, pool: nat, op: Op) -> Result<Seq<char>, Error> {
    match op.0 {
        Opcode::Hlt => Ok("jmp exit"@),
        Opcode::Ret => Ok("ret"@),
        Opcode::Mov => if is_slot(op.1) {
            Ok(store_block(op.1, op.2))
        } else {
            Err(Error::Address)
        },
        Opcode::Dup => if is_slot(op.1) && is_slot(op.2) {
            Ok(copy_block(op.1, op.2))
        } else {
            Err(Error::Address)
        },
        Opcode::Inc | Opcode::Dec => if is_slot(op.1) {
            Ok(step_block(op.0, op.1))
        } else {
            Err(Error::Address)
        },
        Opcode::Add | Opcode::Sub | Opcode::Mul | Opcode::Div => if is_slot(op.1) && is_slot(
            op.2,
        ) {
            Ok(arithmetic_block(op.0, op.1, op.2))
        } else {
            Err(Error::Address)
        },
        Opcode::Call => if op.1 <= len {
            Ok(call_block(op.1))
        } else {
            Err(Error::Control)
        },
        Opcode::Jmp | Opcode::Je | Opcode::Jne | Opcode::Jg | Opcode::Jge | Opcode::Jl
        | Opcode::Jle => if !(is_slot(op.2) && is_slot(op.3)) {
            Err(Error::Address)
        } else if op.1 > len {
            Err(Error::Control)
        } else {
            Ok(jump_block(op.0, op.1, op.2, op.3))
        },
        Opcode::MovConst => if is_slot(op.1) && op.2 < pool {
            Ok(constant_block(op.1, op.2))
        } else {
            Err(Error::Address)
        },
        Opcode::CreateFile | Opcode::LoadFile => if op.1 < pool && is_slot(op.2) {
            Ok(open_block(op.0, op.1, op.2))
        } else {
            Err(Error::Address)
        },
        Opcode::Write => if is_slot(op.2) && (op.1 < 3 || is_slot((op.1 - 3) as u64)) {
            Ok(write_block(op.1, op.2, op.3))
        } else {
            Err(Error::Address)
        },
        Opcode::CapConst | Opcode::LoadConn | Opcode::ListConn | Opcode::Read => Err(
            Error::Unsupported,
        ),
    }
}

/// Appends the operand that names the word with the index `slot`.
fn push_slot(out: &mut String, slot: Word)
    requires
        is_slot(slot),
    ensures
        final(out)@ == old(out)@ + slot_ref(slot),
{
    out.append("[rbp-");
    push_decimal(out, 8 * slot + 8);
    out.append("]");
    assert(out@ =~= old(out)@ + slot_ref(slot));
}

/// Appends the frame offset of the word with the index `slot`.
fn push_offset(out: &mut String, slot: Word)
    requires
        is_slot(slot),
    ensures
        final(out)@ == old(out)@ + decimal(frame_offset(slot)),
{
    push_decimal(out, 8 * slot + 8);
}

/// Appends the symbol of the constant with the index `index`.
pub(crate) fn push_constant(out: &mut String, index: Word)
    ensures
        final(out)@ == old(out)@ + constant_name(index as nat),
{
    out.append("c");
    push_decimal(out, index);
    assert(out@ =~= old(out)@ + constant_name(index as nat));
}

/// Appends the name of the label of the instruction `target`.
fn push_label(out: &mut String, target: Word)
    ensures
        final(out)@ == old(out)@ + label_name(target as nat),
{
    out.append("l");
    push_decimal(out, target);
    assert(out@ =~= old(out)@ + label_name(target as nat));
}

fn lower_store(dst: Word, value: Word) -> (block: String)
    requires
        is_slot(dst),
    ensures
        block@ == store_block(dst, value),
{
    let mut block = String::from_str("mov rax, ");
    push_decimal(&mut block, value);
    block.append("\nmov ");
    push_slot(&mut block, dst);
    block.append(", rax");
    block
}

fn lower_copy(dst: Word, src: Word) -> (block: String)
    requires
        is_slot(dst),
        is_slot(src),
    ensures
        block@ == copy_block(dst, src),
{
    let mut block = String::from_str("mov rax, ");
    push_slot(&mut block, src);
    block.append("\nmov ");
    push_slot(&mut block, dst);
    block.append(", rax");
    block
}

fn lower_step(op: Opcode, dst: Word) -> (block: String)
    requires
        op.is_step(),
        is_slot(dst),
    ensures
        block@ == step_block(op, dst),
{
    let mut block = String::from_str("mov rax, ");
    push_slot(&mut block, dst);
    block.append("\n");
    block.append(op.as_str());
    block.append(" rax\nmov ");
    push_slot(&mut block, dst);
    block.append(", rax");
    block
}

fn lower_arithmetic(op: Opcode, dst: Word, src: Word) -> (block: String)
    requires
        is_slot(dst),
        is_slot(src),
    ensures
        block@ == arithmetic_block(op, dst, src),
{
    let mut block = match op {
        Opcode::Div => String::from_str("mov rdx, 0\nmov rax, "),
        _ => String::from_str("mov rax, "),
    };
    push_slot(&mut block, dst);
    match op {
        Opcode::Add => block.append("\nadd rax, "),
        Opcode::Sub => block.append("\nsub rax, "),
        Opcode::Mul => block.append("\nmul "),
        _ => block.append("\ndiv "),
    }
    push_slot(&mut block, src);
    block.append("\nmov ");
    push_slot(&mut block, dst);
    block.append(", rax");
    block
}

fn lower_call(target: Word) -> (block: String)
    ensures
        block@ == call_block(target),
{
    let mut block = String::from_str("call ");
    push_label(&mut block, target);
    block
}

fn lower_jump(op: Opcode, target: Word, a: Word, b: Word) -> (block: String)
    requires
        op.is_jump(),
        is_slot(a),
        is_slot(b),
    ensures
        block@ == jump_block(op, target, a, b),
{
    let mut block = String::from_str("mov rax, ");
    push_slot(&mut block, a);
    block.append("\ncmp rax, ");
    push_slot(&mut block, b);
    block.append("\n");
    block.append(op.as_str());
    block.append(" ");
    push_label(&mut block, target);
    block
}

fn lower_constant(dst: Word, index: Word) -> (block: String)
    requires
        is_slot(dst),
    ensures
        block@ == constant_block(dst, index),
{
    let mut block = String::from_str("mov rax, ");
    push_constant(&mut block, index);
    block.append("\nmov ");
    push_slot(&mut block, dst);
    block.append(", rax");
    block
}

fn lower_open(op: Opcode, index: Word, slot: Word) -> (block: String)
    requires
        is_slot(slot),
    ensures
        block@ == open_block(op, index, slot),
{
    let mut block = match op {
        Opcode::CreateFile => String::from_str("mov rax, 85\nmov rdi, "),
        _ => String::from_str("mov rax, 2\nmov rdi, "),
    };
    push_constant(&mut block, index);
    match op {
        Opcode::CreateFile => block.append("\nmov rsi, 0o666\nsyscall\nsub rbp, "),
        _ => block.append("\nmov rsi, 0o2\nmov rdx, 0o666\nsyscall\nsub rbp, "),
    }
    push_offset(&mut block, slot);
    block.append("\nmov [rbp], rax\nadd rbp, ");
    push_offset(&mut block, slot);
    block
}

fn lower_write(target: Word, src: Word, len: Word) -> (block: String)
    requires
        is_slot(src),
        target < 3 || is_slot((target - 3) as u64),
    ensures
        block@ == write_block(target, src, len),
{
    let mut block = String::from_str("mov rax, 1\nmov rdi, ");
    if target < 3 {
        push_decimal(&mut block, target);
    } else {
        push_slot(&mut block, target - 3);
    }
    block.append("\nmov rsi, ");
    push_slot(&mut block, src);
    block.append("\nmov rdx, ");
    push_decimal(&mut block, len);
    block.append("\nsyscall");
    block
}

/// Whether `w` is the index of a word of memory.
fn slot(w: Word) -> (b: bool)
    ensures
        b == is_slot(w),
{
    w < 1024
}

/// The instruction index that `op` names as a target, if it is a call or a
/// jump.
pub fn target(op: Op) -> (r: Option<Word>)
    ensures
        r == target_of(op),
{
    match op.0 {
        Opcode::Call | Opcode::Jmp | Opcode::Je | Opcode::Jne | Opcode::Jg | Opcode::Jge
        | Opcode::Jl | Opcode::Jle => Some(op.1),
        Opcode::Hlt | Opcode::Ret | Opcode::Mov | Opcode::Dup | Opcode::Inc | Opcode::Dec
        | Opcode::Add | Opcode::Sub | Opcode::Mul | Opcode::Div | Opcode::MovConst
        | Opcode::CapConst | Opcode::CreateFile | Opcode::LoadFile | Opcode::LoadConn
        | Opcode::ListConn | Opcode::Write | Opcode::Read => None,
    }
}

/// Lowers the instruction `op` of a program of `len` instructions with
/// `pool` constants.
pub fn lower(op: Op, len: usize, pool: usize) -> (r: Result<String, Error>)
    ensures
        match lowered(len as nat, pool as nat, op) {
            Ok(text) => r matches Ok(block) && block@ == text,
            Err(e) => r matches Err(x) && x == e,
        },
{
    match op.0 {
        Opcode::Hlt => Ok(String::from_str("jmp exit")),
        Opcode::Ret => Ok(String::from_str("ret")),
        Opcode::Mov => if slot(op.1) {
            Ok(lower_store(op.1, op.2))
        } else {
            Err(Error::Address)
        },
        Opcode::Dup => if slot(op.1) && slot(op.2) {
            Ok(lower_copy(op.1, op.2))
        } else {
            Err(Error::Address)
        },
        Opcode::Inc | Opcode::Dec => if slot(op.1) {
            Ok(lower_step(op.0, op.1))
        } else {
            Err(Error::Address)
        },
        Opcode::Add | Opcode::Sub | Opcode::Mul | Opcode::Div => if slot(op.1) && slot(op.2) {
            Ok(lower_arithmetic(op.0, op.1, op.2))
        } else {
            Err(Error::Address)
        },
        Opcode::Call => if op.1 <= len as u64 {
            Ok(lower_call(op.1))
        } else {
            Err(Error::Control)
        },
        Opcode::Jmp | Opcode::Je | Opcode::Jne | Opcode::Jg | Opcode::Jge | Opcode::Jl
        | Opcode::Jle => if !(slot(op.2) && slot(op.3)) {
            Err(Error::Address)
        } else if op.1 > len as u64 {
            Err(Error::Control)
        } else {
            Ok(lower_jump(op.0, op.1, op.2, op.3))
        },
        Opcode::MovConst => if slot(op.1) && op.2 < pool as u64 {
            Ok(lower_constant(op.1, op.2))
        } else {
            Err(Error::Address)
        },
        Opcode::CreateFile | Opcode::LoadFile => if op.1 < pool as u64 && slot(op.2) {
            Ok(lower_open(op.0, op.1, op.2))
        } else {
            Err(Error::Address)
        },
        Opcode::Write => if slot(op.2) && (op.1 < 3 || slot(op.1 - 3)) {
            Ok(lower_write(op.1, op.2, op.3))
        } else {
            Err(Error::Address)
        },
        Opcode::CapConst | Opcode::LoadConn | Opcode::ListConn | Opcode::Read => Err(
            Error::Unsupported,
        ),
    }
}

} // verus!
