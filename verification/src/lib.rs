//! A small register-style virtual machine and a code generator that lowers
//! the same instruction set to native assembly.
//!
//! [`Vm`] interprets a program; [`Compiler`] turns it into assembly text.
//! Both read the same instructions ([`Op`]) and the same constants.

pub mod asm_string;
pub mod compiler;
pub mod error;
pub mod io;
pub mod isa;
pub mod labels;
pub mod laws;
pub mod lower;
pub mod memory;
pub mod pool;
pub mod semantics;
pub mod text;
pub mod vm;

pub use asm_string::AsmString;
pub use compiler::Compiler;
pub use error::Error;
pub use io::{Outcome, Reply, Request, Sink, Source, Status};
pub use isa::{Op, Opcode, Word};
pub use memory::Memory;
pub use pool::ConstantPool;
pub use vm::Vm;
