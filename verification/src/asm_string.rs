//! Text as a byte-string literal of the assembler.
//!
//! The assembler reads a string between double quotes up to the next double
//! quote, and no further than the end of the source line. So neither a
//! newline nor a double quote can stand between the quotes. A literal is
//! therefore a comma-separated list: quoted runs for the characters that can
//! stand between quotes, the number of its code for each character that
//! cannot (`10` for a newline, `34` for a double quote), and a final `0`.

use vstd::prelude::*;
use vstd::string::*;
use crate::text::{decimal, push_char};

verus! {

/// A text that is to be written as a byte-string literal.
pub struct AsmString<'a>(pub &'a str);

/// Whether `c` cannot stand between quotes: a newline or a double quote.
pub open spec fn is_bare(c: char) -> bool {
    c == '\n' || c == '"'
}

/// Whether the literal of the first `n` characters of `text` ends outside
/// the quotes: the last of them was written as a number.
pub open spec fn closed_after(text: Seq<char>, n: nat) -> bool {
    n > 0 && is_bare(text[n - 1])
}

/// What the character `c` adds to a literal. `closed` says whether the
/// literal so far ends outside the quotes.
pub open spec fn piece(closed: bool, c: char) -> Seq<char> {
    if c == '\n' {
        if closed {
            ",10"@
        } else {
            "\",10"@
        }
    } else if c == '"' {
        if closed {
            ",34"@
        } else {
            "\",34"@
        }
    } else if closed {
        ",\""@.push(c)
    } else {
        seq![c]
    }
}

/// What the first `n` characters of `text` add to a literal, after the
/// opening quote.
pub open spec fn body(text: Seq<char>, n: nat) -> Seq<char>
    decreases n,
{
    if n == 0 {
        Seq::empty()
    } else {
        body(text, (n - 1) as nat) + piece(
            closed_after(text, (n - 1) as nat),
            text[n - 1],
        )
    }
}

/// The end of a literal: the closing quote, where the last run is still
/// open, and the terminating zero.
pub open spec fn tail(closed: bool) -> Seq<char> {
    if closed {
        ", 0"@
    } else {
        "\""@ + ", 0"@
    }
}

/// The byte-string literal of `text`.
pub open spec fn literal(text: Seq<char>) -> Seq<char> {
    "\""@ + body(text, text.len()) + tail(closed_after(text, text.len()))
}

/// No literal holds a line break, whatever the text.
pub proof fn lemma_literal_has_no_line_break(text: Seq<char>)
    ensures
        !literal(text).contains('\n'),
{
    reveal_strlit("\"");
    reveal_strlit(", 0");
    lemma_body_has_no_line_break(text, text.len());
    let whole = literal(text);
    if whole.contains('\n') {
        let i = choose|i: int| 0 <= i < whole.len() && whole[i] == '\n';
        let inner = body(text, text.len());
        if 1 <= i < 1 + inner.len() {
            assert(inner[i - 1] == '\n');
            assert(inner.contains('\n'));
        }
    }
}

/// The first `n` characters of a text add no line break to its literal.
pub proof fn lemma_body_has_no_line_break(text: Seq<char>, n: nat)
    requires
        n <= text.len(),
    ensures
        !body(text, n).contains('\n'),
    decreases n,
{
    if n > 0 {
        reveal_strlit(",10");
        reveal_strlit("\",10");
        reveal_strlit(",34");
        reveal_strlit("\",34");
        reveal_strlit(",\"");
        let before = body(text, (n - 1) as nat);
        let added = piece(closed_after(text, (n - 1) as nat), text[n - 1]);
        lemma_body_has_no_line_break(text, (n - 1) as nat);
        let now = body(text, n);
        if now.contains('\n') {
            let i = choose|i: int| 0 <= i < now.len() && now[i] == '\n';
            if i < before.len() {
                assert(before[i] == '\n');
                assert(before.contains('\n'));
            } else {
                assert(added[i - before.len()] == '\n');
            }
        }
    }
}

/// The literal of a text without a newline and without a double quote is
/// the text between quotes, followed by the terminating zero.
pub proof fn lemma_literal_of_plain_text(text: Seq<char>)
    requires
        forall|i: int| 0 <= i < text.len() ==> !is_bare(text[i]),
    ensures
        literal(text) == "\""@ + text + "\""@ + ", 0"@,
{
    lemma_body_of_plain_text(text, text.len());
    assert(text.take(text.len() as int) =~= text);
    assert(literal(text) =~= "\""@ + text + "\""@ + ", 0"@);
}

/// The first `n` characters of a text without a newline and without a double
/// quote stand in its literal as they are.
pub proof fn lemma_body_of_plain_text(text: Seq<char>, n: nat)
    requires
        n <= text.len(),
        forall|i: int| 0 <= i < text.len() ==> !is_bare(text[i]),
    ensures
        body(text, n) == text.take(n as int),
    decreases n,
{
    if n > 0 {
        lemma_body_of_plain_text(text, (n - 1) as nat);
    }
    assert(body(text, n) =~= text.take(n as int));
}

/// One item of the list that a literal is.
pub enum Item {
    /// Characters between quotes: each stands for itself.
    Quoted(Seq<char>),
    /// A number: it stands for the character with that code.
    Number(nat),
}

/// An item as it is written.
pub open spec fn written(item: Item) -> Seq<char> {
    match item {
        Item::Quoted(run) => "\""@ + run + "\""@,
        Item::Number(code) => decimal(code),
    }
}

/// The characters that an item stands for.
pub open spec fn meant(item: Item) -> Seq<char> {
    match item {
        Item::Quoted(run) => run,
        Item::Number(code) => seq![code as char],
    }
}

/// The first `k` of `items` as they are written, with a comma between each
/// two.
pub open spec fn written_list(items: Seq<Item>, k: nat) -> Seq<char>
    decreases k,
{
    if k == 0 {
        Seq::empty()
    } else if k == 1 {
        written(items[0])
    } else {
        written_list(items, (k - 1) as nat) + ","@ + written(items[k - 1])
    }
}

/// The characters that the first `k` of `items` stand for, one after the
/// other.
pub open spec fn spelled(items: Seq<Item>, k: nat) -> Seq<char>
    decreases k,
{
    if k == 0 {
        Seq::empty()
    } else {
        spelled(items, (k - 1) as nat) + meant(items[k - 1])
    }
}

/// The code of a character that is written as a number.
pub open spec fn code_of(c: char) -> nat {
    if c == '\n' {
        10
    } else {
        34
    }
}

/// The items of the literal of the first `n` characters of `text`: a number
/// for each newline and each double quote, and a quoted run for the
/// characters between two of them, none for an empty run but at the start.
pub open spec fn items(text: Seq<char>, n: nat) -> Seq<Item>
    decreases n,
{
    if n == 0 {
        seq![Item::Quoted(Seq::empty())]
    } else {
        let before = items(text, (n - 1) as nat);
        let c = text[n - 1];
        if is_bare(c) {
            before.push(Item::Number(code_of(c)))
        } else if closed_after(text, (n - 1) as nat) {
            before.push(Item::Quoted(seq![c]))
        } else {
            before.drop_last().push(Item::Quoted(before.last()->Quoted_0.push(c)))
        }
    }
}

/// What is written for the first `k` items, and what they stand for, does
/// not depend on the items after them.
pub proof fn lemma_lists_agree(a: Seq<Item>, b: Seq<Item>, k: nat)
    requires
        k <= a.len(),
        k <= b.len(),
        forall|i: int| 0 <= i < k ==> a[i] == b[i],
    ensures
        written_list(a, k) == written_list(b, k),
        spelled(a, k) == spelled(b, k),
    decreases k,
{
    if k > 0 {
        lemma_lists_agree(a, b, (k - 1) as nat);
    }
}

/// The literal of the first `n` characters of `text`, with the quote that
/// closes the last run where that is open.
pub open spec fn closed_body(text: Seq<char>, n: nat) -> Seq<char> {
    "\""@ + body(text, n) + if closed_after(text, n) {
        Seq::<char>::empty()
    } else {
        "\""@
    }
}

/// Whether a quoted run can stand between quotes: it holds no newline and
/// no double quote.
pub open spec fn is_plain(run: Seq<char>) -> bool {
    forall|j: int| 0 <= j < run.len() ==> !is_bare(#[trigger] run[j])
}

/// Whether every quoted run of `list` can stand between quotes.
pub open spec fn runs_are_plain(list: Seq<Item>) -> bool {
    forall|i: int|
        0 <= i < list.len() ==> (#[trigger] list[i] matches Item::Quoted(run) ==> is_plain(run))
}

/// Whether `list` is the list of the literal of the first `n` characters of
/// `text`: it is written as that literal, it spells these characters, and
/// it ends with a number exactly where the literal ends outside the quotes.
pub open spec fn describes(list: Seq<Item>, text: Seq<char>, n: nat) -> bool {
    &&& list.len() >= 1
    &&& closed_after(text, n) <==> list.last() is Number
    &&& closed_body(text, n) == written_list(list, list.len())
    &&& spelled(list, list.len()) == text.take(n as int)
    &&& runs_are_plain(list)
}

/// The numbers 10 and 34 as they are written after a comma, and the
/// characters that they stand for.
proof fn lemma_numbers_of_bare_characters()
    ensures
        ","@ + decimal(10) == ",10"@,
        ","@ + decimal(34) == ",34"@,
        "\""@ + ",10"@ == "\",10"@,
        "\""@ + ",34"@ == "\",34"@,
        10nat as char == '\n',
        34nat as char == '"',
{
    reveal_with_fuel(decimal, 2);
    reveal_strlit(",");
    reveal_strlit("\"");
    reveal_strlit(",10");
    reveal_strlit(",34");
    reveal_strlit("\",10");
    reveal_strlit("\",34");
    assert(decimal(10) =~= seq!['1', '0']);
    assert(decimal(34) =~= seq!['3', '4']);
    assert(","@ + decimal(10) =~= ",10"@);
    assert(","@ + decimal(34) =~= ",34"@);
    assert("\""@ + ",10"@ =~= "\",10"@);
    assert("\""@ + ",34"@ =~= "\",34"@);
}

/// A newline or a double quote adds the number of its code to the list.
proof fn lemma_bare_character_adds_a_number(before: Seq<Item>, text: Seq<char>, n: nat)
    requires
        0 < n <= text.len(),
        is_bare(text[n - 1]),
        describes(before, text, (n - 1) as nat),
    ensures
        describes(before.push(Item::Number(code_of(text[n - 1]))), text, n),
{
    let m = (n - 1) as nat;
    let c = text[n - 1];
    let number = ","@ + decimal(code_of(c));
    let list = before.push(Item::Number(code_of(c)));
    let size = before.len();
    lemma_lists_agree(list, before, size);
    lemma_numbers_of_bare_characters();
    assert(text.take(n as int) =~= text.take(m as int).push(c));
    assert(written_list(list, list.len()) =~= written_list(before, size) + number);
    assert(closed_body(text, n) =~= closed_body(text, m) + number);
    assert(meant(list[size as int]) =~= seq![c]);
    assert(spelled(list, list.len()) =~= text.take(n as int));
    assert forall|i: int| 0 <= i < list.len() implies (#[trigger] list[i] matches Item::Quoted(
        run,
    ) ==> is_plain(run)) by {
        if i < size {
            assert(list[i] == before[i]);
        }
    }
}

/// A character after a number begins a new quoted run.
proof fn lemma_character_begins_a_run(before: Seq<Item>, text: Seq<char>, n: nat)
    requires
        0 < n <= text.len(),
        !is_bare(text[n - 1]),
        closed_after(text, (n - 1) as nat),
        describes(before, text, (n - 1) as nat),
    ensures
        describes(before.push(Item::Quoted(seq![text[n - 1]])), text, n),
{
    let m = (n - 1) as nat;
    let c = text[n - 1];
    let single = seq![c];
    let list = before.push(Item::Quoted(single));
    let size = before.len();
    lemma_lists_agree(list, before, size);
    assert(text.take(n as int) =~= text.take(m as int).push(c));
    assert(","@ + "\""@ =~= ",\""@) by {
        reveal_strlit(",");
        reveal_strlit("\"");
        reveal_strlit(",\"");
    }
    assert(written_list(list, list.len()) =~= written_list(before, size) + (","@ + "\""@)
        + single + "\""@);
    assert(closed_body(text, n) =~= closed_body(text, m) + ",\""@ + single + "\""@);
    assert(spelled(list, list.len()) =~= text.take(n as int));
    assert forall|i: int| 0 <= i < list.len() implies (#[trigger] list[i] matches Item::Quoted(
        run,
    ) ==> is_plain(run)) by {
        if i < size {
            assert(list[i] == before[i]);
        } else {
            assert(is_plain(single));
        }
    }
}

/// A character after another joins the open quoted run.
proof fn lemma_character_joins_a_run(before: Seq<Item>, text: Seq<char>, n: nat)
    requires
        0 < n <= text.len(),
        !is_bare(text[n - 1]),
        !closed_after(text, (n - 1) as nat),
        describes(before, text, (n - 1) as nat),
    ensures
        before.last() is Quoted,
        describes(
            before.drop_last().push(Item::Quoted(before.last()->Quoted_0.push(text[n - 1]))),
            text,
            n,
        ),
{
    let m = (n - 1) as nat;
    let c = text[n - 1];
    let run = before.last()->Quoted_0;
    let longer = run.push(c);
    let list = before.drop_last().push(Item::Quoted(longer));
    let size = before.len();
    let head = (size - 1) as nat;
    let quote = "\""@;
    lemma_lists_agree(list, before, head);
    assert(quote.len() == 1) by {
        reveal_strlit("\"");
    }
    assert(text.take(n as int) =~= text.take(m as int).push(c));
    assert(list[head as int] == Item::Quoted(longer));
    let lead = if size == 1 {
        Seq::<char>::empty()
    } else {
        written_list(before, head) + ","@
    };
    assert(written_list(before, size) =~= lead + quote + run + quote);
    assert(written_list(list, size) =~= lead + quote + run + seq![c] + quote);
    assert(closed_body(text, m) == quote + body(text, m) + quote);
    assert((quote + body(text, m) + quote).drop_last() =~= quote + body(text, m));
    assert((lead + quote + run + quote).drop_last() =~= lead + quote + run);
    assert(quote + body(text, m) == lead + quote + run);
    assert(body(text, n) == body(text, m) + seq![c]);
    assert(closed_body(text, n) =~= (quote + body(text, m)) + seq![c] + quote);
    assert(spelled(before, size) =~= spelled(before, head) + run);
    assert(spelled(list, size) =~= spelled(before, head) + longer);
    assert(spelled(list, size) =~= text.take(n as int));
    assert forall|i: int| 0 <= i < list.len() implies (#[trigger] list[i] matches Item::Quoted(
        r,
    ) ==> is_plain(r)) by {
        if i < head {
            assert(list[i] == before[i]);
        } else {
            assert(before[head as int] == Item::Quoted(run));
            assert(is_plain(run));
            assert forall|j: int| 0 <= j < longer.len() implies !is_bare(
                #[trigger] longer[j],
            ) by {
                if j < run.len() {
                    assert(longer[j] == run[j]);
                }
            }
        }
    }
}

/// The items of the first `n` characters of a text are the list of the
/// literal of these characters.
pub proof fn lemma_items_of_prefix(text: Seq<char>, n: nat)
    requires
        n <= text.len(),
    ensures
        describes(items(text, n), text, n),
    decreases n,
{
    let list = items(text, n);
    if n == 0 {
        assert(closed_body(text, n) =~= written(list[0]));
        assert(spelled(list, 0) =~= Seq::<char>::empty());
        assert(spelled(list, 1) =~= text.take(0));
    } else {
        let m = (n - 1) as nat;
        let before = items(text, m);
        lemma_items_of_prefix(text, m);
        if is_bare(text[n - 1]) {
            lemma_bare_character_adds_a_number(before, text, n);
        } else if closed_after(text, m) {
            lemma_character_begins_a_run(before, text, n);
        } else {
            lemma_character_joins_a_run(before, text, n);
        }
    }
}

/// A literal is a list of items and the terminating zero. Read in order,
/// the items spell the text: a quoted run stands for its characters, a
/// number for the character with that code. No quoted run holds a newline
/// or a double quote, so each run ends where its closing quote stands.
pub proof fn lemma_literal_spells_text(text: Seq<char>)
    ensures
        ({
            let list = items(text, text.len());
            &&& literal(text) == written_list(list, list.len()) + ", 0"@
            &&& spelled(list, list.len()) == text
            &&& forall|i: int|
                0 <= i < list.len() ==> (#[trigger] list[i] matches Item::Quoted(run) ==> {
                    &&& !run.contains('\n')
                    &&& !run.contains('"')
                })
        }),
{
    lemma_items_of_prefix(text, text.len());
    assert(text.take(text.len() as int) =~= text);
    let list = items(text, text.len());
    assert(literal(text) =~= closed_body(text, text.len()) + ", 0"@);
    assert forall|i: int| 0 <= i < list.len() implies (#[trigger] list[i] matches Item::Quoted(
        run,
    ) ==> !run.contains('\n') && !run.contains('"')) by {
        if list[i] is Quoted {
            let run = list[i]->Quoted_0;
            assert(is_plain(run));
            if run.contains('\n') {
                let j = choose|j: int| 0 <= j < run.len() && run[j] == '\n';
                assert(is_bare(run[j]));
            }
            if run.contains('"') {
                let j = choose|j: int| 0 <= j < run.len() && run[j] == '"';
                assert(is_bare(run[j]));
            }
        }
    }
}

impl<'a> AsmString<'a> {
    /// Writes the text as a byte-string literal.
    pub fn to_string(&self) -> (r: String)
        ensures
            r@ == literal(self.0@),
    {
        let mut buffer = String::from_str("\"");
        let mut flag = false;
        for c in it: self.0.chars()
            invariant
                it.seq() == self.0@,
                flag == closed_after(self.0@, it.index() as nat),
                buffer@ == "\""@ + body(self.0@, it.index() as nat),
        {
            if c == '\n' {
                if flag {
                    buffer.append(",10");
                } else {
                    buffer.append("\",10");
                }
                flag = true;
            } else if c == '"' {
                if flag {
                    buffer.append(",34");
                } else {
                    buffer.append("\",34");
                }
                flag = true;
            } else {
                if flag {
                    buffer.append(",\"");
                }
                push_char(&mut buffer, c);
                flag = false;
            }
        }
        if !flag {
            buffer.append("\"");
        }
        buffer.append(", 0");
        buffer
    }
}

} // verus!
