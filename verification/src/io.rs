//! What the machine asks of the world outside it, and what it is told.
//!
//! The machine itself opens no file and no connection. Where an instruction
//! needs outside work, the machine names the work in a [`Request`]; whoever
//! drives the machine does the work and answers with a [`Reply`]. An opened
//! resource is known to the machine by a handle, a word that the driver
//! chooses and that the machine hands back unchanged.

use vstd::prelude::*;
use crate::isa::Word;

verus! {

/// Where a write goes.
#[derive(Debug, Clone, Copy, PartialEq, Eq, Structural)]
pub enum Sink {
    /// The standard output of the process.
    Output,
    /// The standard error of the process.
    Error,
    /// The opened resource with this handle.
    Buffer(Word),
}

/// Where a read comes from.
#[derive(Debug, Clone, Copy, PartialEq, Eq, Structural)]
pub enum Source {
    /// The standard input of the process.
    Input,
    /// The opened resource with this handle.
    Buffer(Word),
}

/// The outside work that the instruction at the pointer needs.
#[derive(Debug, Clone, PartialEq, Eq)]
pub enum Request {
    /// No outside work.
    Nothing,
    /// Create the file of this name, or cut it to length zero, and open it
    /// for writing.
    Create(String),
    /// Open the file of this name for reading and writing.
    Open(String),
    /// Open a connection to the peer at this address.
    Connect(String),
    /// Bind to this address, accept one connection, and close the listener.
    Listen(String),
    /// Write all of these bytes.
    Write(Sink, Vec<u8>),
    /// Read exactly this many bytes.
    Read(Source, usize),
}

/// A request as a mathematical value.
pub enum RequestView {
    Nothing,
    Create(Seq<char>),
    Open(Seq<char>),
    Connect(Seq<char>),
    Listen(Seq<char>),
    Write(Sink, Seq<u8>),
    Read(Source, nat),
}

impl View for Request {
    type V = RequestView;

    open spec fn view(&self) -> RequestView {
        match *self {
            Request::Nothing => RequestView::Nothing,
            Request::Create(name) => RequestView::Create(name@),
            Request::Open(name) => RequestView::Open(name@),
            Request::Connect(address) => RequestView::Connect(address@),
            Request::Listen(address) => RequestView::Listen(address@),
            Request::Write(sink, bytes) => RequestView::Write(sink, bytes@),
            Request::Read(source, len) => RequestView::Read(source, len as nat),
        }
    }
}

/// How the outside work that was asked for ended.
#[derive(Debug, Clone, PartialEq, Eq)]
pub enum Reply {
    /// Nothing was asked for.
    Nothing,
    /// The resource was opened. It is known by this handle from now on.
    Opened(Word),
    /// All the bytes were written.
    Written,
    /// These bytes were read.
    Data(Vec<u8>),
    /// The work failed.
    Failed,
}

/// A reply as a mathematical value.
pub enum ReplyView {
    Nothing,
    Opened(Word),
    Written,
    Data(Seq<u8>),
    Failed,
}

impl View for Reply {
    type V = ReplyView;

    open spec fn view(&self) -> ReplyView {
        match *self {
            Reply::Nothing => ReplyView::Nothing,
            Reply::Opened(handle) => ReplyView::Opened(handle),
            Reply::Written => ReplyView::Written,
            Reply::Data(bytes) => ReplyView::Data(bytes@),
            Reply::Failed => ReplyView::Failed,
        }
    }
}

/// Whether the machine goes on after an instruction.
#[derive(Debug, Clone, Copy, PartialEq, Eq, Structural)]
pub enum Status {
    /// The next instruction can be executed.
    Running,
    /// The evaluation has ended, with this result code.
    Halted(Word),
}

/// How a run of the machine ended.
#[derive(Debug, Clone, PartialEq, Eq)]
pub enum Outcome {
    /// The evaluation has ended, with this result code.
    Halted(Word),
    /// The instruction at the pointer needs this outside work.
    Pending(Request),
    /// The run has executed as many instructions as it was allowed.
    Exhausted,
}

/// The end of a run as a mathematical value.
pub enum OutcomeView {
    Halted(Word),
    Pending(RequestView),
    Exhausted,
}

impl View for Outcome {
    type V = OutcomeView;

    open spec fn view(&self) -> OutcomeView {
        match *self {
            Outcome::Halted(code) => OutcomeView::Halted(code),
            Outcome::Pending(request) => OutcomeView::Pending(request@),
            Outcome::Exhausted => OutcomeView::Exhausted,
        }
    }
}

} // verus!
