//! The machine's memory: a fixed file of 1024 words.
//!
//! The same words serve two uses. A single word is a register: the operand of
//! an arithmetic instruction or of a comparison. A run of consecutive words
//! is a buffer: each word holds one code point of a constant or one byte of
//! a transfer. Nothing marks which use a word is in.

use vstd::prelude::*;
use crate::error::Error;
use crate::isa::Word;

verus! {

/// The number of words in a memory.
pub const MEMORY_WORDS: usize = 1024;

/// Whether the `len` words from `start` on all lie in memory. An empty range
/// lies in memory where its start is no further than the end of memory.
pub open spec fn in_memory(start: Word, len: nat) -> bool {
    start + len <= MEMORY_WORDS
}

/// `memory` with the words from `start` on replaced by `words`.
pub open spec fn overwrite(memory: Seq<Word>, start: int, words: Seq<Word>) -> Seq<Word> {
    Seq::new(
        memory.len(),
        |i: int|
            if start <= i < start + words.len() {
                words[i - start]
            } else {
                memory[i]
            },
    )
}

/// Each word cut down to its low eight bits.
pub open spec fn low_bytes(words: Seq<Word>) -> Seq<u8> {
    Seq::new(words.len(), |i: int| (words[i] % 256) as u8)
}

/// Each byte as a word.
pub open spec fn widened(bytes: Seq<u8>) -> Seq<Word> {
    Seq::new(bytes.len(), |i: int| bytes[i] as u64)
}

/// A memory of 1024 words. Its view is the sequence of its words.
pub struct Memory {
    words: Vec<Word>,
}

impl View for Memory {
    type V = Seq<Word>;

    closed spec fn view(&self) -> Seq<Word> {
        Seq::new(MEMORY_WORDS as nat, |i: int| self.words@[i])
    }
}

impl Memory {
    #[verifier::type_invariant]
    spec fn well_formed(self) -> bool {
        self.words@.len() == MEMORY_WORDS
    }

    /// A memory has 1024 words.
    pub proof fn lemma_len(&self)
        ensures
            self@.len() == MEMORY_WORDS,
    {
    }

    /// A memory in which every word is zero.
    pub fn new() -> (m: Memory)
        ensures
            m@ == Seq::new(MEMORY_WORDS as nat, |i: int| 0u64),
    {
        let mut words: Vec<Word> = Vec::new();
        while words.len() < MEMORY_WORDS
            invariant
                words@.len() <= MEMORY_WORDS,
                forall|i: int| 0 <= i < words@.len() ==> words@[i] == 0,
            decreases MEMORY_WORDS - words@.len(),
        {
            words.push(0);
        }
        let m = Memory { words };
        assert(m@ =~= Seq::new(MEMORY_WORDS as nat, |i: int| 0u64));
        m
    }

    /// Whether the `len` words from `start` on all lie in memory.
    pub fn has_range(start: Word, len: Word) -> (b: bool)
        ensures
            b == in_memory(start, len as nat),
    {
        start <= 1024 && len <= 1024 - start
    }

    /// The word at `addr`; `Error::Address` where `addr` is not in memory.
    pub fn load(&self, addr: Word) -> (r: Result<Word, Error>)
        ensures
            r == if addr < MEMORY_WORDS {
                Ok::<Word, Error>(self@[addr as int])
            } else {
                Err::<Word, Error>(Error::Address)
            },
    {
        proof {
            use_type_invariant(self);
        }
        if addr < 1024 {
            Ok(self.words[addr as usize])
        } else {
            Err(Error::Address)
        }
    }

    /// Sets the word at `addr` to `value`; `Error::Address`, and no change,
    /// where `addr` is not in memory.
    pub fn store(&mut self, addr: Word, value: Word) -> (r: Result<(), Error>)
        ensures
            addr < MEMORY_WORDS ==> r is Ok
                && final(self)@ == old(self)@.update(addr as int, value),
            addr >= MEMORY_WORDS ==> r == Err::<(), Error>(Error::Address)
                && final(self)@ == old(self)@,
    {
        proof {
            use_type_invariant(&*self);
        }
        if addr < 1024 {
            self.words[addr as usize] = value;
            assert(self@ =~= old(self)@.update(addr as int, value));
            Ok(())
        } else {
            Err(Error::Address)
        }
    }

    /// A copy of the `len` words from `start` on; `Error::Address` where they
    /// do not all lie in memory.
    pub fn read(&self, start: Word, len: Word) -> (r: Result<Vec<Word>, Error>)
        ensures
            match r {
                Ok(words) => in_memory(start, len as nat)
                    && words@ == self@.subrange(start as int, start + len),
                Err(e) => !in_memory(start, len as nat) && e == Error::Address,
            },
    {
        proof {
            use_type_invariant(self);
        }
        if start > 1024 || len > 1024 - start {
            return Err(Error::Address);
        }
        let first: usize = start as usize;
        let count: usize = len as usize;
        let mut words: Vec<Word> = Vec::new();
        let mut i: usize = 0;
        while i < count
            invariant
                i <= count,
                first + count <= MEMORY_WORDS,
                self.words@.len() == MEMORY_WORDS,
                words@ == self.words@.subrange(first as int, first + i),
            decreases count - i,
        {
            words.push(self.words[first + i]);
            i += 1;
        }
        assert(words@ =~= self@.subrange(start as int, start + len));
        Ok(words)
    }

    /// Replaces the words from `start` on by `words`; `Error::Address`, and
    /// no change, where they do not all lie in memory.
    pub fn write(&mut self, start: Word, words: &Vec<Word>) -> (r: Result<(), Error>)
        ensures
            in_memory(start, words@.len()) ==> r is Ok
                && final(self)@ == overwrite(old(self)@, start as int, words@),
            !in_memory(start, words@.len()) ==> r == Err::<(), Error>(Error::Address)
                && final(self)@ == old(self)@,
    {
        proof {
            use_type_invariant(&*self);
        }
        if start > 1024 || words.len() > 1024 - (start as usize) {
            return Err(Error::Address);
        }
        let first: usize = start as usize;
        let count: usize = words.len();
        let mut i: usize = 0;
        while i < count
            invariant
                i <= count,
                count == words@.len(),
                first + count <= MEMORY_WORDS,
                self.words@.len() == MEMORY_WORDS,
                self.words@ == overwrite(old(self).words@, first as int, words@.take(i as int)),
            decreases count - i,
        {
            self.words[first + i] = words[i];
            i += 1;
        }
        assert(words@.take(count as int) == words@);
        assert(self@ =~= overwrite(old(self)@, start as int, words@));
        Ok(())
    }
}

/// Cuts each word down to its low eight bits.
pub fn truncate(words: &Vec<Word>) -> (bytes: Vec<u8>)
    ensures
        bytes@ == low_bytes(words@),
{
    let mut bytes: Vec<u8> = Vec::new();
    let mut i: usize = 0;
    while i < words.len()
        invariant
            i <= words@.len(),
            bytes@ == low_bytes(words@.take(i as int)),
        decreases words@.len() - i,
    {
        bytes.push((words[i] % 256) as u8);
        i += 1;
    }
    assert(words@.take(i as int) == words@);
    bytes
}

/// Widens each byte to a word.
pub fn widen(bytes: &Vec<u8>) -> (words: Vec<Word>)
    ensures
        words@ == widened(bytes@),
{
    let mut words: Vec<Word> = Vec::new();
    let mut i: usize = 0;
    while i < bytes.len()
        invariant
            i <= bytes@.len(),
            words@ == widened(bytes@.take(i as int)),
        decreases bytes@.len() - i,
    {
        words.push(bytes[i] as u64);
        i += 1;
    }
    assert(bytes@.take(i as int) == bytes@);
    words
}

} // verus!
