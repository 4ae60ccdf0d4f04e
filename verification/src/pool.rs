//! The constant pool: an ordered, append-only table of texts, each held as
//! the sequence of its code points.

use vstd::prelude::*;
use crate::error::Error;
use crate::isa::Word;
use crate::text::{push_char, texts_of};

verus! {

/// Whether `w` is a Unicode scalar value: a code point that is no surrogate.
pub open spec fn is_scalar(w: Word) -> bool {
    w <= 0xD7FF || 0xE000 <= w <= 0x10FFFF
}

/// Whether every word of `words` is a Unicode scalar value.
pub open spec fn all_scalar(words: Seq<Word>) -> bool {
    forall|i: int| 0 <= i < words.len() ==> is_scalar(#[trigger] words[i])
}

/// The code points of `text`, one word for each character.
pub open spec fn code_points(text: Seq<char>) -> Seq<Word> {
    Seq::new(text.len(), |i: int| text[i] as u64)
}

/// The text whose code points are `words`.
pub open spec fn text_of(words: Seq<Word>) -> Seq<char>
    recommends
        all_scalar(words),
{
    Seq::new(words.len(), |i: int| words[i] as char)
}

/// The code points of each text of `texts`.
pub open spec fn pool_of(texts: Seq<Seq<char>>) -> Seq<Seq<Word>> {
    Seq::new(texts.len(), |i: int| code_points(texts[i]))
}

/// Trusted: `char::from_u32` gives the character with the code point `i`
/// where `i` is a Unicode scalar value, and `None` otherwise.
pub assume_specification[ char::from_u32 ](i: u32) -> (r: Option<char>)
    ensures
        r == if is_scalar(i as u64) {
            Some(i as char)
        } else {
            None::<char>
        },
;

/// The code point of a character is a Unicode scalar value, and names the
/// character.
pub proof fn lemma_char_is_scalar(c: char)
    ensures
        is_scalar(c as u64),
        (c as u64) as char == c,
        c as u32 as u64 == c as u64,
{
}

/// Every text is the text of its code points.
pub proof fn lemma_code_points_round_trip(text: Seq<char>)
    ensures
        all_scalar(code_points(text)),
        text_of(code_points(text)) == text,
{
    let words = code_points(text);
    assert forall|i: int| 0 <= i < words.len() implies is_scalar(#[trigger] words[i]) by {
        lemma_char_is_scalar(text[i]);
    }
    assert forall|i: int| 0 <= i < text.len() implies text_of(words)[i] == text[i] by {
        lemma_char_is_scalar(text[i]);
    }
    assert(text_of(words) =~= text);
}

/// The code points of `text`.
pub fn encode(text: &str) -> (words: Vec<Word>)
    ensures
        words@ == code_points(text@),
{
    let mut words: Vec<Word> = Vec::new();
    for c in it: text.chars()
        invariant
            it.seq() == text@,
            words@.len() == it.index(),
            forall|k: int| 0 <= k < words@.len() ==> words@[k] == text@[k] as u64,
    {
        proof {
            lemma_char_is_scalar(c);
        }
        words.push(c as u32 as u64);
    }
    assert(words@ =~= code_points(text@));
    words
}

/// The text whose code points are `words`; `Error::Encoding` where one of
/// them is no Unicode scalar value.
pub fn decode(words: &Vec<Word>) -> (r: Result<String, Error>)
    ensures
        match r {
            Ok(text) => all_scalar(words@) && text@ == text_of(words@),
            Err(e) => !all_scalar(words@) && e == Error::Encoding,
        },
{
    let mut text = String::new();
    let mut i: usize = 0;
    while i < words.len()
        invariant
            i <= words@.len(),
            all_scalar(words@.take(i as int)),
            text@ == text_of(words@.take(i as int)),
        decreases words@.len() - i,
    {
        let w = words[i];
        if w > 0x10FFFF {
            return Err(Error::Encoding);
        }
        match char::from_u32(w as u32) {
            Some(c) => {
                push_char(&mut text, c);
            },
            None => {
                return Err(Error::Encoding);
            },
        }
        i += 1;
        assert(words@.take(i as int) =~= words@.take(i - 1).push(w));
        assert(text@ =~= text_of(words@.take(i as int)));
    }
    assert(words@.take(i as int) == words@);
    Ok(text)
}

/// The constants of one evaluation. Its view is the sequence of the
/// constants, each the sequence of its code points.
pub struct ConstantPool {
    entries: Vec<Vec<Word>>,
}

impl View for ConstantPool {
    type V = Seq<Seq<Word>>;

    closed spec fn view(&self) -> Seq<Seq<Word>> {
        Seq::new(self.entries@.len(), |i: int| self.entries@[i]@)
    }
}

impl ConstantPool {
    /// The pool that holds the code points of each of `texts`, in order.
    pub fn new(texts: &Vec<String>) -> (pool: ConstantPool)
        ensures
            pool@ == pool_of(texts_of(texts@)),
    {
        let mut entries: Vec<Vec<Word>> = Vec::new();
        let mut i: usize = 0;
        while i < texts.len()
            invariant
                i <= texts@.len(),
                entries@.len() == i,
                forall|k: int| 0 <= k < i ==> (#[trigger] entries@[k])@ == code_points(texts@[k]@),
            decreases texts@.len() - i,
        {
            entries.push(encode(texts[i].as_str()));
            i += 1;
        }
        let pool = ConstantPool { entries };
        assert(pool@ =~= pool_of(texts_of(texts@)));
        pool
    }

    /// The number of constants.
    pub fn len(&self) -> (n: usize)
        ensures
            n == self@.len(),
    {
        self.entries.len()
    }

    /// The constant with the index `index`; `Error::Address` where there is
    /// none.
    pub fn get(&self, index: Word) -> (r: Result<&Vec<Word>, Error>)
        ensures
            match r {
                Ok(words) => index < self@.len() && words@ == self@[index as int],
                Err(e) => index >= self@.len() && e == Error::Address,
            },
    {
        if index < self.entries.len() as u64 {
            Ok(&self.entries[index as usize])
        } else {
            Err(Error::Address)
        }
    }

    /// Appends `words` as a new constant, which gets the next index.
    pub fn capture(&mut self, words: Vec<Word>)
        ensures
            final(self)@ == old(self)@.push(words@),
    {
        self.entries.push(words);
        assert(self@ =~= old(self)@.push(words@));
    }
}

} // verus!
