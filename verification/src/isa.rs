//! The instruction model: opcodes and instructions. Pure data.

use vstd::prelude::*;

verus! {

/// A machine word: the only value type of the machine. Addresses, counts,
/// byte values and code points are all words.
pub type Word = u64;

/// The operation of an instruction. The comment of each variant names the
/// operands that it reads, in order; operands not named are ignored.
#[derive(Debug, Clone, Copy, PartialEq, Eq, Structural)]
pub enum Opcode {
    /// (code)
    Hlt,
    /// ()
    Ret,
    /// (dst, val)
    Mov,
    /// (dst, src)
    Dup,
    /// (dst)
    Inc,
    /// (dst)
    Dec,
    /// (dst, src)
    Add,
    /// (dst, src)
    Sub,
    /// (dst, src)
    Mul,
    /// (dst, src)
    Div,
    /// (target)
    Call,
    /// (target)
    Jmp,
    /// (target, src, src)
    Je,
    /// (target, src, src)
    Jne,
    /// (target, src, src)
    Jg,
    /// (target, src, src)
    Jge,
    /// (target, src, src)
    Jl,
    /// (target, src, src)
    Jle,
    /// (dst, constant)
    MovConst,
    /// (src, len)
    CapConst,
    /// (constant)
    CreateFile,
    /// (constant)
    LoadFile,
    /// (constant)
    LoadConn,
    /// (constant)
    ListConn,
    /// (target, src, len)
    Write,
    /// (target, dst, len)
    Read,
}

/// One instruction: an opcode and three operands.
#[derive(Debug, Clone, Copy, PartialEq, Eq, Structural)]
pub struct Op(pub Opcode, pub Word, pub Word, pub Word);

/// The instruction that the record of the four numbers from `at` on
/// encodes: the code of the opcode, then the three operands.
pub open spec fn record(codes: Seq<Word>, at: int) -> Option<Op> {
    match Opcode::decode(codes[at] as int) {
        Some(opcode) => Some(Op(opcode, codes[at + 1], codes[at + 2], codes[at + 3])),
        None => None,
    }
}

/// Whether each of the first `n` records of `codes` encodes an instruction.
pub open spec fn well_encoded(codes: Seq<Word>, n: int) -> bool {
    forall|k: int| 0 <= k < n ==> (#[trigger] record(codes, 4 * k)) is Some
}

/// The program that `codes` encodes: one instruction for each full record of
/// four numbers. Numbers after the last full record are ignored.
pub open spec fn program_of(codes: Seq<Word>) -> Seq<Op>
    recommends
        well_encoded(codes, codes.len() as int / 4),
{
    Seq::new((codes.len() / 4) as nat, |k: int| record(codes, 4 * k)->Some_0)
}

/// Decodes an encoded program. `None` where the code of an opcode is not
/// assigned.
pub fn decode_program(codes: &Vec<Word>) -> (r: Option<Vec<Op>>)
    ensures
        match r {
            Some(program) => well_encoded(codes@, codes@.len() as int / 4) && program@
                == program_of(codes@),
            None => !well_encoded(codes@, codes@.len() as int / 4),
        },
{
    let total = codes.len();
    let count = total / 4;
    let mut program: Vec<Op> = Vec::new();
    let mut k: usize = 0;
    while k < count
        invariant
            k <= count,
            total == codes@.len(),
            count == total / 4,
            well_encoded(codes@, k as int),
            program@.len() == k,
            forall|j: int| 0 <= j < k ==> program@[j] == (#[trigger] record(codes@, 4 * j))->Some_0,
        decreases count - k,
    {
        assert(4 * k + 3 < total);
        let code = codes[4 * k];
        let opcode = if code > 0xFFFF_FFFF {
            None
        } else {
            Opcode::from(code as u32)
        };
        match opcode {
            Some(opcode) => {
                program.push(Op(opcode, codes[4 * k + 1], codes[4 * k + 2], codes[4 * k + 3]));
            },
            None => {
                assert(record(codes@, 4 * k) is None);
                return None;
            },
        }
        k += 1;
    }
    assert(program@ =~= program_of(codes@));
    Some(program)
}

impl Opcode {
    /// The opcode that the numeric code `code` stands for in an encoded
    /// program, if it stands for one.
    pub open spec fn decode(code: int) -> Option<Opcode> {
        if code == 0 {
            Some(Opcode::Hlt)
        } else if code == 1 {
            Some(Opcode::Ret)
        } else if code == 2 {
            Some(Opcode::Mov)
        } else if code == 3 {
            Some(Opcode::Dup)
        } else if code == 4 {
            Some(Opcode::Inc)
        } else if code == 5 {
            Some(Opcode::Dec)
        } else if code == 6 {
            Some(Opcode::Add)
        } else if code == 7 {
            Some(Opcode::Sub)
        } else if code == 8 {
            Some(Opcode::Mul)
        } else if code == 9 {
            Some(Opcode::Div)
        } else if code == 10 {
            Some(Opcode::Call)
        } else if code == 11 {
            Some(Opcode::Jmp)
        } else if code == 12 {
            Some(Opcode::Je)
        } else if code == 13 {
            Some(Opcode::Jne)
        } else if code == 14 {
            Some(Opcode::Jg)
        } else if code == 15 {
            Some(Opcode::Jge)
        } else if code == 16 {
            Some(Opcode::Jl)
        } else if code == 17 {
            Some(Opcode::Jle)
        } else if code == 18 {
            Some(Opcode::MovConst)
        } else if code == 19 {
            Some(Opcode::CapConst)
        } else if code == 20 {
            Some(Opcode::CreateFile)
        } else if code == 21 {
            Some(Opcode::LoadFile)
        } else if code == 22 {
            Some(Opcode::LoadConn)
        } else if code == 23 {
            Some(Opcode::ListConn)
        } else if code == 24 {
            Some(Opcode::Write)
        } else if code == 25 {
            Some(Opcode::Read)
        } else {
            None
        }
    }

    /// Whether the generator lowers the opcode to one native instruction
    /// that differs from opcode to opcode only in its mnemonic: the steps
    /// and the jumps.
    pub open spec fn has_mnemonic(self) -> bool {
        self.is_step() || self.is_jump()
    }

    /// Increment and decrement.
    pub open spec fn is_step(self) -> bool {
        self == Opcode::Inc || self == Opcode::Dec
    }

    /// The unconditional jump and the six comparison jumps.
    pub open spec fn is_jump(self) -> bool {
        self == Opcode::Jmp || self == Opcode::Je || self == Opcode::Jne || self == Opcode::Jg
            || self == Opcode::Jge || self == Opcode::Jl || self == Opcode::Jle
    }

    /// The native mnemonic of an opcode that has one. Words are unsigned, so
    /// the jumps on an order are the unsigned ones: above, above or equal,
    /// below, below or equal.
    pub open spec fn mnemonic(self) -> Seq<char>
        recommends
            self.has_mnemonic(),
    {
        match self {
            Opcode::Inc => "inc"@,
            Opcode::Dec => "dec"@,
            Opcode::Jmp => "jmp"@,
            Opcode::Je => "je"@,
            Opcode::Jne => "jne"@,
            Opcode::Jg => "ja"@,
            Opcode::Jge => "jae"@,
            Opcode::Jl => "jb"@,
            Opcode::Jle => "jbe"@,
            _ => ""@,
        }
    }

    /// Decodes the numeric code of an opcode. Codes 0 to 25 are assigned;
    /// any other code yields `None`.
    pub fn from(value: u32) -> (r: Option<Opcode>)
        ensures
            r == Opcode::decode(value as int),
    {
        match value {
            0 => Some(Opcode::Hlt),
            1 => Some(Opcode::Ret),
            2 => Some(Opcode::Mov),
            3 => Some(Opcode::Dup),
            4 => Some(Opcode::Inc),
            5 => Some(Opcode::Dec),
            6 => Some(Opcode::Add),
            7 => Some(Opcode::Sub),
            8 => Some(Opcode::Mul),
            9 => Some(Opcode::Div),
            10 => Some(Opcode::Call),
            11 => Some(Opcode::Jmp),
            12 => Some(Opcode::Je),
            13 => Some(Opcode::Jne),
            14 => Some(Opcode::Jg),
            15 => Some(Opcode::Jge),
            16 => Some(Opcode::Jl),
            17 => Some(Opcode::Jle),
            18 => Some(Opcode::MovConst),
            19 => Some(Opcode::CapConst),
            20 => Some(Opcode::CreateFile),
            21 => Some(Opcode::LoadFile),
            22 => Some(Opcode::LoadConn),
            23 => Some(Opcode::ListConn),
            24 => Some(Opcode::Write),
            25 => Some(Opcode::Read),
            _ => None,
        }
    }

    /// The native mnemonic of an increment, a decrement or a jump.
    pub fn as_str(&self) -> (r: &'static str)
        requires
            self.has_mnemonic(),
        ensures
            r@ == self.mnemonic(),
    {
        match self {
            Opcode::Inc => "inc",
            Opcode::Dec => "dec",
            Opcode::Jmp => "jmp",
            Opcode::Je => "je",
            Opcode::Jne => "jne",
            Opcode::Jg => "ja",
            Opcode::Jge => "jae",
            Opcode::Jl => "jb",
            Opcode::Jle => "jbe",
            _ => "",
        }
    }
}

} // verus!
