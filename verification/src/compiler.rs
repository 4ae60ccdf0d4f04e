//! The code generator: a program and its constants as one text of native
//! assembly.
//!
//! The text has four parts: an entry sequence that sets up the frame; the
//! blocks of the instructions, one for each, with the labels of the jump
//! targets among them; an exit sequence that ends the process; and a data
//! section that declares each constant as a byte string.

use vstd::prelude::*;
use vstd::seq_lib::*;
use vstd::string::*;
use crate::asm_string::{literal, AsmString};
use crate::error::Error;
use crate::isa::{Op, Opcode, Word};
use crate::labels::{
    ascending, block_position, label, label_position, lemma_lines_hold_blocks_and_labels, lines,
    members, resolve,
};
use crate::lower::{constant_name, lower, lowered, push_constant, target, target_of};
use crate::text::texts_of;

verus! {

/// The entry sequence: it sets the frame pointer, below which the words of
/// memory lie.
pub open spec fn prologue() -> Seq<char> {
    "global _start\nsection .text\n_start:\npush rbp\nmov rbp, rsp\n"@
}

/// The exit sequence: it releases the frame and ends the process with the
/// code 0.
pub open spec fn epilogue() -> Seq<char> {
    "exit:\nmov rsp, rbp\npop rbp\nmov rax, 60\nmov rdi, 0\nsyscall\n"@
}

/// Whether each of the first `k` instructions of `program` can be lowered.
pub open spec fn lowerable(program: Seq<Op>, pool: nat, k: nat) -> bool {
    forall|i: int|
        0 <= i < k && i < program.len() ==> (#[trigger] lowered(
            program.len(),
            pool,
            program[i],
        )) is Ok
}

/// The blocks of the instructions of `program`, in order.
pub open spec fn blocks(program: Seq<Op>, pool: nat) -> Seq<Seq<char>>
    recommends
        lowerable(program, pool, program.len()),
{
    Seq::new(program.len(), |i: int| lowered(program.len(), pool, program[i])->Ok_0)
}

/// Whether `op` names the instruction index `t` as a target.
pub open spec fn names(op: Op, t: nat) -> bool {
    target_of(op) matches Some(w) && w == t
}

/// The instruction indices that one of the first `k` instructions of
/// `program` names as a target.
pub open spec fn targets(program: Seq<Op>, k: nat) -> Set<nat> {
    Set::new(|t: nat| exists|i: int| 0 <= i < k && i < program.len() && names(program[i], t))
}

/// The targets of the first `k` instructions of `program` in the order in
/// which they first occur, each once.
pub open spec fn collected(program: Seq<Op>, k: nat) -> Seq<Word>
    decreases k,
{
    if k == 0 {
        Seq::empty()
    } else {
        let before = collected(program, (k - 1) as nat);
        match target_of(program[k - 1]) {
            Some(t) => if before.contains(t) {
                before
            } else {
                before.push(t)
            },
            None => before,
        }
    }
}

/// The first `k` of `lines`, with a newline between each two.
pub open spec fn joined(lines: Seq<Seq<char>>, k: nat) -> Seq<char>
    decreases k,
{
    if k == 0 {
        Seq::empty()
    } else if k == 1 {
        lines[0]
    } else {
        joined(lines, (k - 1) as nat) + "\n"@ + lines[k - 1]
    }
}

/// The declaration of the constant with the index `index` and the text
/// `text`: the bytes under the constant's symbol, and their number under a
/// symbol of its own.
pub open spec fn declaration(index: nat, text: Seq<char>) -> Seq<char> {
    constant_name(index) + " db "@ + literal(text) + "\n"@ + constant_name(index)
        + "_len equ $-"@ + constant_name(index) + "\n"@
}

/// The declarations of the first `k` of `constants`.
pub open spec fn declarations(constants: Seq<Seq<char>>, k: nat) -> Seq<char>
    decreases k,
{
    if k == 0 {
        Seq::empty()
    } else {
        declarations(constants, (k - 1) as nat) + declaration(
            (k - 1) as nat,
            constants[k - 1],
        )
    }
}

/// The assembly text of `program` with `constants`, where every instruction
/// can be lowered.
pub open spec fn artifact(constants: Seq<Seq<char>>, program: Seq<Op>) -> Seq<char>
    recommends
        lowerable(program, constants.len(), program.len()),
{
    let body = lines(blocks(program, constants.len()), targets(program, program.len()));
    prologue() + joined(body, body.len()) + "\n"@ + epilogue() + "section .data\n"@
        + declarations(constants, constants.len())
}

/// The targets collected from the first `k` instructions are the targets
/// that these instructions name, each once.
pub proof fn lemma_collected_targets(program: Seq<Op>, k: nat)
    requires
        k <= program.len(),
    ensures
        members(collected(program, k), collected(program, k).len()) == targets(program, k),
        collected(program, k).no_duplicates(),
    decreases k,
{
    let now = collected(program, k);
    if k == 0 {
        assert(members(now, now.len()) =~= targets(program, k));
    } else {
        let before = collected(program, (k - 1) as nat);
        lemma_collected_targets(program, (k - 1) as nat);
        let op = program[k - 1];
        assert forall|t: nat| members(now, now.len()).contains(t) <==> targets(
            program,
            k,
        ).contains(t) by {
            if members(now, now.len()).contains(t) {
                let i = choose|i: int| 0 <= i < now.len() && i < now.len() && now[i] == t;
                if i < before.len() {
                    assert(before[i] == t);
                    assert(members(before, before.len()).contains(t));
                    assert(targets(program, (k - 1) as nat).contains(t));
                    let j = choose|j: int|
                        0 <= j < k - 1 && j < program.len() && names(program[j], t);
                    assert(names(program[j], t));
                } else {
                    assert(names(program[k - 1], t));
                }
            }
            if targets(program, k).contains(t) {
                let j = choose|j: int| 0 <= j < k && j < program.len() && names(program[j], t);
                if j < k - 1 {
                    assert(targets(program, (k - 1) as nat).contains(t));
                    assert(members(before, before.len()).contains(t));
                    let i = choose|i: int|
                        0 <= i < before.len() && i < before.len() && before[i] == t;
                    assert(now[i] == t);
                } else {
                    let w = target_of(op)->Some_0;
                    if before.contains(w) {
                        let i = choose|i: int| 0 <= i < before.len() && before[i] == w;
                        assert(now[i] == t);
                    } else {
                        assert(now[before.len() as int] == t);
                    }
                }
            }
        }
        assert(members(now, now.len()) =~= targets(program, k));
    }
}

/// Adds `t` to `jumps` unless it is there.
fn record(jumps: &mut Vec<Word>, t: Word)
    ensures
        final(jumps)@ == if old(jumps)@.contains(t) {
            old(jumps)@
        } else {
            old(jumps)@.push(t)
        },
{
    let mut i: usize = 0;
    while i < jumps.len()
        invariant
            i <= jumps@.len(),
            jumps@ == old(jumps)@,
            forall|k: int| 0 <= k < i ==> jumps@[k] != t,
        decreases jumps@.len() - i,
    {
        if jumps[i] == t {
            return ;
        }
        i += 1;
    }
    jumps.push(t);
}

/// The lines with a newline between each two.
fn join(lines: &Vec<String>) -> (text: String)
    ensures
        text@ == joined(texts_of(lines@), lines@.len()),
{
    let mut text = String::new();
    let mut i: usize = 0;
    while i < lines.len()
        invariant
            i <= lines@.len(),
            text@ == joined(texts_of(lines@), i as nat),
        decreases lines@.len() - i,
    {
        if i > 0 {
            text.append("\n");
        }
        text.append(lines[i].as_str());
        proof {
            if i == 0 {
                assert(text@ =~= texts_of(lines@)[0]);
            }
        }
        i += 1;
    }
    text
}

/// The declarations of the constants.
fn declare(constants: &Vec<String>) -> (text: String)
    ensures
        text@ == declarations(texts_of(constants@), constants@.len()),
{
    let mut text = String::new();
    let mut i: usize = 0;
    while i < constants.len()
        invariant
            i <= constants@.len(),
            text@ == declarations(texts_of(constants@), i as nat),
        decreases constants@.len() - i,
    {
        let bytes = AsmString(constants[i].as_str()).to_string();
        let mut line = String::new();
        push_constant(&mut line, i as u64);
        line.append(" db ");
        line.append(bytes.as_str());
        line.append("\n");
        push_constant(&mut line, i as u64);
        line.append("_len equ $-");
        push_constant(&mut line, i as u64);
        line.append("\n");
        assert(line@ =~= declaration(i as nat, texts_of(constants@)[i as int]));
        text.append(line.as_str());
        i += 1;
    }
    text
}

/// A code generator for one program. Its view holds the constants and the
/// program, and the bookkeeping of the last generation.
pub struct Compiler {
    constants: Vec<String>,
    jumps: Vec<Word>,
    program: Vec<Op>,
    pointer: usize,
}

/// A code generator as a mathematical value.
pub struct CompilerView {
    /// The texts of the constants.
    pub constants: Seq<Seq<char>>,
    /// The program.
    pub program: Seq<Op>,
    /// The jump targets met so far.
    pub jumps: Seq<Word>,
    /// The index of the instruction that is lowered next.
    pub pointer: nat,
}

impl View for Compiler {
    type V = CompilerView;

    closed spec fn view(&self) -> CompilerView {
        CompilerView {
            constants: texts_of(self.constants@),
            program: self.program@,
            jumps: self.jumps@,
            pointer: self.pointer as nat,
        }
    }
}

impl Compiler {
    /// A generator for `program` with `constants`, which has lowered nothing
    /// yet.
    pub fn new(constants: Vec<String>, program: Vec<Op>) -> (compiler: Compiler)
        ensures
            compiler@ == (CompilerView {
                constants: texts_of(constants@),
                program: program@,
                jumps: Seq::empty(),
                pointer: 0,
            }),
    {
        Compiler { constants, jumps: Vec::new(), program, pointer: 0 }
    }

    /// The index of the instruction that is lowered next.
    pub fn pointer(&self) -> (pointer: usize)
        ensures
            pointer == self@.pointer,
    {
        self.pointer
    }

    /// The jump targets met so far.
    pub fn jumps(&self) -> (jumps: &Vec<Word>)
        ensures
            jumps@ == self@.jumps,
    {
        &self.jumps
    }

    /// Lowers the instructions in order and collects the targets that they
    /// name. Stops at the first instruction that cannot be lowered.
    fn emit(&mut self) -> (r: Result<Vec<String>, Error>)
        ensures
            final(self)@.constants == old(self)@.constants,
            final(self)@.program == old(self)@.program,
            final(self)@.jumps == collected(old(self)@.program, final(self)@.pointer),
            lowerable(old(self)@.program, old(self)@.constants.len(), final(self)@.pointer),
            match r {
                Ok(buffer) => {
                    &&& final(self)@.pointer == old(self)@.program.len()
                    &&& texts_of(buffer@) == blocks(
                        old(self)@.program,
                        old(self)@.constants.len(),
                    )
                },
                Err(e) => {
                    &&& final(self)@.pointer < old(self)@.program.len()
                    &&& lowered(
                        old(self)@.program.len(),
                        old(self)@.constants.len(),
                        old(self)@.program[final(self)@.pointer as int],
                    ) == Err::<Seq<char>, Error>(e)
                },
            },
    {
        let len = self.program.len();
        let pool = self.constants.len();
        let mut buffer: Vec<String> = Vec::new();
        self.pointer = 0;
        self.jumps = Vec::new();
        while self.pointer < len
            invariant
                self.constants == old(self).constants,
                self.program == old(self).program,
                len == self.program@.len(),
                pool == self.constants@.len(),
                self.pointer <= len,
                self.jumps@ == collected(self.program@, self.pointer as nat),
                lowerable(self.program@, pool as nat, self.pointer as nat),
                buffer@.len() == self.pointer,
                forall|i: int|
                    0 <= i < self.pointer ==> (#[trigger] buffer@[i])@ == lowered(
                        len as nat,
                        pool as nat,
                        self.program@[i],
                    )->Ok_0,
            decreases len - self.pointer,
        {
            let op = self.program[self.pointer];
            let line = match lower(op, len, pool) {
                Ok(line) => line,
                Err(e) => {
                    return Err(e);
                },
            };
            match target(op) {
                Some(t) => {
                    record(&mut self.jumps, t);
                },
                None => {},
            }
            buffer.push(line);
            self.pointer = self.pointer + 1;
        }
        assert(texts_of(buffer@) =~= blocks(self.program@, pool as nat));
        Ok(buffer)
    }

    /// Generates the assembly text of the program.
    ///
    /// The generation fails where an instruction cannot be lowered, with the
    /// error of the first such instruction; the pointer then stays at that
    /// instruction, and no text is produced. On success the pointer is at
    /// the end of the program and the jump targets are in ascending order.
    pub fn compile(&mut self) -> (r: Result<String, Error>)
        ensures
            final(self)@.constants == old(self)@.constants,
            final(self)@.program == old(self)@.program,
            lowerable(old(self)@.program, old(self)@.constants.len(), final(self)@.pointer),
            match r {
                Ok(text) => {
                    &&& final(self)@.pointer == old(self)@.program.len()
                    &&& text@ == artifact(old(self)@.constants, old(self)@.program)
                    &&& ascending(final(self)@.jumps)
                    &&& final(self)@.jumps.to_multiset() == collected(
                        old(self)@.program,
                        old(self)@.program.len(),
                    ).to_multiset()
                },
                Err(e) => {
                    &&& final(self)@.pointer < old(self)@.program.len()
                    &&& lowered(
                        old(self)@.program.len(),
                        old(self)@.constants.len(),
                        old(self)@.program[final(self)@.pointer as int],
                    ) == Err::<Seq<char>, Error>(e)
                    &&& final(self)@.jumps == collected(old(self)@.program, final(self)@.pointer)
                },
            },
    {
        let mut buffer = match self.emit() {
            Ok(buffer) => buffer,
            Err(e) => {
                return Err(e);
            },
        };
        let ghost program = self.program@;
        let ghost found = self.jumps@;
        proof {
            lemma_collected_targets(program, program.len());
            lemma_targets_in_program(program, self.constants@.len(), program.len());
            assert(texts_of(buffer@).len() == program.len());
        }
        match resolve(&mut buffer, &mut self.jumps) {
            Ok(()) => {},
            Err(e) => {
                proof {
                    let i = choose|i: int| 0 <= i < found.len() && found[i] > program.len();
                    assert(found[i] <= program.len());
                }
                return Err(e);
            },
        }
        let mut text = String::from_str(
            "global _start\nsection .text\n_start:\npush rbp\nmov rbp, rsp\n",
        );
        text.append(join(&buffer).as_str());
        text.append("\n");
        text.append("exit:\nmov rsp, rbp\npop rbp\nmov rax, 60\nmov rdi, 0\nsyscall\n");
        text.append("section .data\n");
        text.append(declare(&self.constants).as_str());
        Ok(text)
    }
}

/// In the lines of a program that can be lowered, an instruction that a call
/// or a jump names has its label directly before its block, and there only,
/// however many instructions name it. A label for the end of the program is
/// the last line.
pub proof fn lemma_target_is_labelled(program: Seq<Op>, pool: nat, i: int, t: nat)
    requires
        lowerable(program, pool, program.len()),
        0 <= i < program.len(),
        names(program[i], t),
    ensures
        t <= program.len(),
        ({
            let all = targets(program, program.len());
            let body = lines(blocks(program, pool), all);
            &&& 0 <= label_position(all, t) < body.len()
            &&& body[label_position(all, t)] == label(t)
            &&& t < program.len() ==> {
                &&& label_position(all, t) + 1 < body.len()
                &&& body[label_position(all, t) + 1] == blocks(program, pool)[t as int]
            }
            &&& t == program.len() ==> label_position(all, t) + 1 == body.len()
        }),
{
    let all = targets(program, program.len());
    assert(lowered(program.len(), pool, program[i]) is Ok);
    assert(all.contains(t));
    lemma_lines_hold_blocks_and_labels(blocks(program, pool), all);
    if t < program.len() {
        assert(label_position(all, t) + 1 == block_position(all, t));
    }
}

/// The text of the empty program without constants is the entry sequence,
/// an empty line, the exit sequence and the head of the data section: it
/// holds no block and no label, so it names no word of memory.
pub proof fn lemma_text_of_the_empty_program()
    ensures
        lowerable(Seq::<Op>::empty(), 0, 0),
        artifact(Seq::<Seq<char>>::empty(), Seq::<Op>::empty()) == prologue() + "\n"@
            + epilogue() + "section .data\n"@,
{
    let program = Seq::<Op>::empty();
    let constants = Seq::<Seq<char>>::empty();
    let none = targets(program, 0);
    let body = lines(blocks(program, 0), none);
    assert(!none.contains(0));
    reveal_with_fuel(crate::labels::layout, 2);
    assert(body =~= Seq::<Seq<char>>::empty());
    assert(joined(body, 0) =~= Seq::<char>::empty());
    assert(declarations(constants, 0) =~= Seq::<char>::empty());
    assert(artifact(constants, program) =~= prologue() + "\n"@ + epilogue()
        + "section .data\n"@);
}

/// A program with an instruction that connects, listens or reads cannot be
/// lowered: that instruction has no block.
pub proof fn lemma_connections_and_reads_are_unsupported(program: Seq<Op>, pool: nat, i: int)
    requires
        0 <= i < program.len(),
        program[i].0 == Opcode::LoadConn || program[i].0 == Opcode::ListConn || program[i].0
            == Opcode::Read,
    ensures
        lowered(program.len(), pool, program[i]) == Err::<Seq<char>, Error>(Error::Unsupported),
        !lowerable(program, pool, program.len()),
{
    assert(!(lowered(program.len(), pool, program[i]) is Ok));
}

/// Where the first `k` instructions of a program can be lowered, the targets
/// collected from them lie in the program or at its end.
pub proof fn lemma_targets_in_program(program: Seq<Op>, pool: nat, k: nat)
    requires
        k <= program.len(),
        lowerable(program, pool, k),
    ensures
        forall|i: int|
            0 <= i < collected(program, k).len() ==> collected(program, k)[i] <= program.len(),
    decreases k,
{
    if k > 0 {
        lemma_targets_in_program(program, pool, (k - 1) as nat);
        let before = collected(program, (k - 1) as nat);
        let now = collected(program, k);
        let op = program[k - 1];
        assert(lowered(program.len(), pool, op) is Ok);
        assert forall|i: int| 0 <= i < now.len() implies now[i] <= program.len() by {
            if i < before.len() {
                assert(now[i] == before[i]);
            } else {
                assert(target_of(op) == Some(now[i]));
                assert(op.1 <= program.len());
            }
        }
    }
}

} // verus!
