//! The label resolver: where the labels of the jump targets go among the
//! blocks that the generator emits.
//!
//! The generator emits one block for each instruction. A jump names its
//! target by the index of an instruction, so the block of that instruction
//! must be preceded by a label. A target may also be the length of the
//! program; its label then follows the last block.

use vstd::prelude::*;
use vstd::seq_lib::*;
use crate::error::Error;
use crate::isa::Word;
use crate::text::{decimal, push_decimal, texts_of};

verus! {

/// The name of the label of the instruction with the index `target`.
pub open spec fn label_name(target: nat) -> Seq<char> {
    "l"@ + decimal(target)
}

/// The line that defines the label of the instruction with the index
/// `target`.
pub open spec fn label(target: nat) -> Seq<char> {
    label_name(target) + ":"@
}

/// The label of position `k`, if `k` is a target.
pub open spec fn label_at(targets: Set<nat>, k: nat) -> Seq<Seq<char>> {
    if targets.contains(k) {
        seq![label(k)]
    } else {
        Seq::empty()
    }
}

/// The block of position `k`, if there is one.
pub open spec fn block_at(blocks: Seq<Seq<char>>, k: nat) -> Seq<Seq<char>> {
    if k < blocks.len() {
        seq![blocks[k as int]]
    } else {
        Seq::empty()
    }
}

/// The lines of the first `k` positions: for each position its label, if it
/// is a target, and then its block.
pub open spec fn layout(blocks: Seq<Seq<char>>, targets: Set<nat>, k: nat) -> Seq<Seq<char>>
    decreases k,
{
    if k == 0 {
        Seq::empty()
    } else {
        layout(blocks, targets, (k - 1) as nat) + label_at(targets, (k - 1) as nat) + block_at(
            blocks,
            (k - 1) as nat,
        )
    }
}

/// All the lines: the blocks in their order, each target's block preceded by
/// the target's label, and the label of the position past the last block at
/// the end, if that is a target.
pub open spec fn lines(blocks: Seq<Seq<char>>, targets: Set<nat>) -> Seq<Seq<char>> {
    layout(blocks, targets, blocks.len() + 1)
}

/// The number of targets below position `k`.
pub open spec fn labels_before(targets: Set<nat>, k: nat) -> nat
    decreases k,
{
    if k == 0 {
        0
    } else {
        labels_before(targets, (k - 1) as nat) + if targets.contains((k - 1) as nat) {
            1nat
        } else {
            0nat
        }
    }
}

/// The lines of the first `k` positions are their blocks and the labels of
/// the targets among them.
pub proof fn lemma_layout_len(blocks: Seq<Seq<char>>, targets: Set<nat>, k: nat)
    requires
        k <= blocks.len() + 1,
    ensures
        layout(blocks, targets, k).len() == labels_before(targets, k) + if k <= blocks.len() {
            k
        } else {
            blocks.len()
        },
    decreases k,
{
    if k > 0 {
        lemma_layout_len(blocks, targets, (k - 1) as nat);
    }
}

/// The lines of the first `k` positions begin the lines of the first `m`
/// positions, for `k` up to `m`.
pub proof fn lemma_layout_prefix(blocks: Seq<Seq<char>>, targets: Set<nat>, k: nat, m: nat)
    requires
        k <= m,
    ensures
        layout(blocks, targets, k).len() <= layout(blocks, targets, m).len(),
        layout(blocks, targets, m).subrange(0, layout(blocks, targets, k).len() as int) == layout(
            blocks,
            targets,
            k,
        ),
    decreases m,
{
    let short = layout(blocks, targets, k);
    if k == m {
        assert(short.subrange(0, short.len() as int) =~= short);
    } else {
        lemma_layout_prefix(blocks, targets, k, (m - 1) as nat);
        let shorter = layout(blocks, targets, (m - 1) as nat);
        assert(shorter.subrange(0, short.len() as int) == short);
        assert(layout(blocks, targets, m).subrange(0, short.len() as int) =~= shorter.subrange(
            0,
            short.len() as int,
        ));
    }
}

/// Where among the lines the label of the target `t` stands: after the
/// blocks and the labels of all positions before `t`.
pub open spec fn label_position(targets: Set<nat>, t: nat) -> int {
    (t + labels_before(targets, t)) as int
}

/// Where among the lines the block of position `i` stands: after the blocks
/// of all positions before `i` and the labels of all targets up to `i`.
pub open spec fn block_position(targets: Set<nat>, i: nat) -> int {
    (i + labels_before(targets, i + 1)) as int
}

/// Every block stands among the lines, in the order of the blocks, and every
/// target has its label once, directly before the block that it names (for
/// the target past the last block: at the end). The lines hold nothing
/// else: they are as many as the blocks and the targets together.
pub proof fn lemma_lines_hold_blocks_and_labels(blocks: Seq<Seq<char>>, targets: Set<nat>)
    ensures
        lines(blocks, targets).len() == blocks.len() + labels_before(targets, blocks.len() + 1),
        forall|i: nat|
            i < blocks.len() ==> {
                &&& 0 <= #[trigger] block_position(targets, i) < lines(blocks, targets).len()
                &&& lines(blocks, targets)[block_position(targets, i)] == blocks[i as int]
            },
        forall|t: nat|
            t <= blocks.len() && targets.contains(t) ==> {
                &&& 0 <= #[trigger] label_position(targets, t) < lines(blocks, targets).len()
                &&& lines(blocks, targets)[label_position(targets, t)] == label(t)
                &&& label_position(targets, t) + 1 == block_position(targets, t)
            },
        forall|i: nat|
            i > 0 ==> block_position(targets, (i - 1) as nat) < #[trigger] block_position(
                targets,
                i,
            ),
{
    let all = lines(blocks, targets);
    let n = blocks.len();
    lemma_layout_len(blocks, targets, n + 1);
    assert forall|i: nat| i < n implies 0 <= #[trigger] block_position(targets, i) < all.len()
        && all[block_position(targets, i)] == blocks[i as int] by {
        lemma_layout_len(blocks, targets, i);
        lemma_layout_len(blocks, targets, i + 1);
        lemma_layout_prefix(blocks, targets, i + 1, n + 1);
        let upto = layout(blocks, targets, i + 1);
        assert(upto[upto.len() - 1] == blocks[i as int]);
        assert(all.subrange(0, upto.len() as int)[upto.len() - 1] == all[upto.len() - 1]);
    }
    assert forall|t: nat| t <= n && targets.contains(t) implies 0 <= #[trigger] label_position(
        targets,
        t,
    ) < all.len() && all[label_position(targets, t)] == label(t) && label_position(targets, t)
        + 1 == block_position(targets, t) by {
        lemma_layout_len(blocks, targets, t);
        lemma_layout_len(blocks, targets, t + 1);
        lemma_layout_prefix(blocks, targets, t + 1, n + 1);
        let upto = layout(blocks, targets, t + 1);
        let at = label_position(targets, t);
        assert(upto[at] == label(t));
        assert(all.subrange(0, upto.len() as int)[at] == all[at]);
    }
    assert forall|i: nat| i > 0 implies block_position(targets, (i - 1) as nat)
        < #[trigger] block_position(targets, i) by {
        assert(labels_before(targets, i + 1) >= labels_before(targets, i));
    }
}

/// Whether no word of `s` is greater than a later one.
pub open spec fn ascending(s: Seq<Word>) -> bool {
    forall|i: int, j: int| 0 <= i < j < s.len() ==> s[i] <= s[j]
}

/// The set of the first `n` words of `s`.
pub open spec fn members(s: Seq<Word>, n: nat) -> Set<nat> {
    Set::new(|t: nat| exists|i: int| 0 <= i < n && i < s.len() && s[i] == t)
}

/// The lines of the first `k` positions do not depend on targets from `k`
/// on.
pub proof fn lemma_layout_ignores_later_targets(
    blocks: Seq<Seq<char>>,
    a: Set<nat>,
    b: Set<nat>,
    k: nat,
)
    requires
        forall|t: nat| t < k ==> (a.contains(t) <==> b.contains(t)),
    ensures
        layout(blocks, a, k) == layout(blocks, b, k),
    decreases k,
{
    if k > 0 {
        lemma_layout_ignores_later_targets(blocks, a, b, (k - 1) as nat);
    }
}

/// The blocks from position `from` up to position `to`, without labels.
pub open spec fn plain(blocks: Seq<Seq<char>>, from: nat, to: nat) -> Seq<Seq<char>> {
    let end = if to <= blocks.len() {
        to
    } else {
        blocks.len()
    };
    if from <= end {
        blocks.subrange(from as int, end as int)
    } else {
        Seq::empty()
    }
}

/// Where no position from `from` up to `to` is a target, the lines of these
/// positions are their blocks.
pub proof fn lemma_layout_without_targets(
    blocks: Seq<Seq<char>>,
    targets: Set<nat>,
    from: nat,
    to: nat,
)
    requires
        from <= to,
        forall|t: nat| from <= t < to ==> !targets.contains(t),
    ensures
        layout(blocks, targets, to) == layout(blocks, targets, from) + plain(blocks, from, to),
    decreases to,
{
    if to == from {
        assert(plain(blocks, from, to) =~= Seq::empty());
        assert(layout(blocks, targets, from) + Seq::<Seq<char>>::empty() =~= layout(
            blocks,
            targets,
            from,
        ));
    } else {
        let before = (to - 1) as nat;
        lemma_layout_without_targets(blocks, targets, from, before);
        assert(label_at(targets, before) =~= Seq::empty());
        assert(plain(blocks, from, to) =~= plain(blocks, from, before) + block_at(blocks, before));
        assert(layout(blocks, targets, to) =~= layout(blocks, targets, from) + plain(
            blocks,
            from,
            to,
        ));
    }
}

/// Sorts `v` into ascending order.
pub fn sort(v: &mut Vec<Word>)
    ensures
        ascending(final(v)@),
        final(v)@.to_multiset() == old(v)@.to_multiset(),
{
    let mut sorted: Vec<Word> = Vec::new();
    let mut k: usize = 0;
    assert(sorted@ =~= v@.take(0));
    while k < v.len()
        invariant
            k <= v@.len(),
            ascending(sorted@),
            sorted@.to_multiset() == v@.take(k as int).to_multiset(),
        decreases v@.len() - k,
    {
        let x = v[k];
        let mut i: usize = 0;
        while i < sorted.len() && sorted[i] <= x
            invariant
                i <= sorted@.len(),
                forall|j: int| 0 <= j < i ==> sorted@[j] <= x,
            decreases sorted@.len() - i,
        {
            i += 1;
        }
        proof {
            to_multiset_insert(sorted@, i as int, x);
            to_multiset_build(v@.take(k as int), x);
            assert(v@.take(k + 1) =~= v@.take(k as int).push(x));
        }
        sorted.insert(i, x);
        k += 1;
    }
    assert(v@.take(k as int) =~= v@);
    *v = sorted;
}

/// The first position that comes after the first `n` words of the
/// ascending sequence `s`.
pub open spec fn frontier(s: Seq<Word>, n: nat) -> nat {
    if n == 0 {
        0
    } else {
        (s[n - 1] + 1) as nat
    }
}

/// The line that defines the label of the instruction with the index
/// `target`.
pub fn label_line(target: Word) -> (line: String)
    ensures
        line@ == label(target as nat),
{
    let mut line = String::from_str("l");
    push_decimal(&mut line, target);
    line.append(":");
    line
}

/// Puts the labels of the targets `jumps` among the blocks in `buffer`: the
/// targets are sorted, and the label of each is inserted before the block of
/// the instruction that it names, once, however often it occurs in `jumps`.
/// A target past the end of the blocks is `Error::Control`; the blocks are
/// then left as they were.
pub fn resolve(buffer: &mut Vec<String>, jumps: &mut Vec<Word>) -> (r: Result<(), Error>)
    ensures
        ascending(final(jumps)@),
        final(jumps)@.to_multiset() == old(jumps)@.to_multiset(),
        match r {
            Ok(()) => {
                &&& forall|i: int|
                    0 <= i < old(jumps)@.len() ==> old(jumps)@[i] <= old(buffer)@.len()
                &&& texts_of(final(buffer)@) == lines(
                    texts_of(old(buffer)@),
                    members(old(jumps)@, old(jumps)@.len()),
                )
            },
            Err(e) => {
                &&& e == Error::Control
                &&& exists|i: int| 0 <= i < old(jumps)@.len() && old(jumps)@[i] > old(buffer)@.len()
                &&& final(buffer)@ == old(buffer)@
            },
        },
{
    sort(jumps);
    let count = buffer.len();
    let total = jumps.len();
    proof {
        lemma_same_members(old(jumps)@, jumps@);
    }
    if total > 0 && jumps[total - 1] > count as u64 {
        proof {
            let top = jumps@[total - 1];
            assert(jumps@.contains(top));
            assert(old(jumps)@.contains(top));
        }
        return Err(Error::Control);
    }
    assert forall|i: int| 0 <= i < old(jumps)@.len() implies old(jumps)@[i] <= count by {
        assert(old(jumps)@.contains(old(jumps)@[i]));
        assert(jumps@.contains(old(jumps)@[i]));
    }
    let ghost blocks = texts_of(buffer@);
    let mut inserted: usize = 0;
    let mut j: usize = 0;
    assert(texts_of(buffer@) =~= layout(blocks, members(jumps@, 0), 0) + plain(blocks, 0, count as nat));
    while j < total
        invariant
            j <= total,
            total == jumps@.len(),
            ascending(jumps@),
            forall|i: int| 0 <= i < total ==> jumps@[i] <= count,
            blocks.len() == count,
            buffer@.len() == count + inserted,
            texts_of(buffer@) == layout(blocks, members(jumps@, j as nat), frontier(jumps@, j as nat))
                + plain(blocks, frontier(jumps@, j as nat), count as nat),
            layout(blocks, members(jumps@, j as nat), frontier(jumps@, j as nat)).len()
                == inserted + if frontier(jumps@, j as nat) <= count {
                frontier(jumps@, j as nat)
            } else {
                count as nat
            },
        decreases total - j,
    {
        let jump = jumps[j];
        let ghost before = members(jumps@, j as nat);
        let ghost after = members(jumps@, (j + 1) as nat);
        let ghost from = frontier(jumps@, j as nat);
        let ghost t = jump as nat;
        if j > 0 && jumps[j - 1] == jump {
            assert(after =~= before) by {
                assert forall|x: nat| after.contains(x) implies before.contains(x) by {
                    let i = choose|i: int| 0 <= i < j + 1 && i < jumps@.len() && jumps@[i] == x;
                    if i == j {
                        assert(jumps@[j - 1] == x);
                    }
                }
            }
        } else {
            proof {
                assert forall|x: nat| before.contains(x) implies x < from by {
                    let i = choose|i: int| 0 <= i < j && i < jumps@.len() && jumps@[i] == x;
                    assert(jumps@[i] <= jumps@[j - 1]);
                }
                assert(after =~= before.insert(t)) by {
                    assert forall|x: nat| after.contains(x) implies before.insert(t).contains(
                        x,
                    ) by {
                        let i = choose|i: int|
                            0 <= i < j + 1 && i < jumps@.len() && jumps@[i] == x;
                        if i < j {
                            assert(before.contains(x));
                        }
                    }
                    assert(after.contains(t));
                }
                lemma_insert_label(blocks, before, from, t, inserted as nat);
            }
            let ghost old_lines = texts_of(buffer@);
            assert(jump + inserted <= buffer.len());
            let line = label_line(jump);
            buffer.insert(jump as usize + inserted, line);
            assert(texts_of(buffer@) =~= old_lines.insert((t + inserted) as int, label(t)));
            inserted += 1;
        }
        j += 1;
    }
    proof {
        let all = members(jumps@, total as nat);
        let from = frontier(jumps@, total as nat);
        assert forall|x: nat| all.contains(x) implies x < from by {
            let i = choose|i: int| 0 <= i < total && i < jumps@.len() && jumps@[i] == x;
            assert(jumps@[i] <= jumps@[total - 1]);
        }
        lemma_layout_without_targets(blocks, all, from, (count + 1) as nat);
        assert(plain(blocks, from, (count + 1) as nat) =~= plain(blocks, from, count as nat));
    }
    Ok(())
}

/// Inserting the label of the target `t` into lines that hold the labels of
/// earlier targets only gives the lines up to `t` with that label, followed
/// by the blocks after `t`. `inserted` is the number of the earlier labels.
pub proof fn lemma_insert_label(
    blocks: Seq<Seq<char>>,
    before: Set<nat>,
    from: nat,
    t: nat,
    inserted: nat,
)
    requires
        from <= t <= blocks.len(),
        forall|x: nat| before.contains(x) ==> x < from,
        layout(blocks, before, from).len() == inserted + from,
    ensures
        (layout(blocks, before, from) + plain(blocks, from, blocks.len())).insert(
            (t + inserted) as int,
            label(t),
        ) == layout(blocks, before.insert(t), t + 1) + plain(blocks, t + 1, blocks.len()),
        layout(blocks, before.insert(t), t + 1).len() == inserted + 1 + if t + 1 <= blocks.len() {
            t + 1
        } else {
            blocks.len()
        },
{
    let after = before.insert(t);
    let head = layout(blocks, before, from);
    lemma_layout_ignores_later_targets(blocks, after, before, t);
    lemma_layout_without_targets(blocks, before, from, t);
    assert(layout(blocks, after, t) == head + plain(blocks, from, t));
    assert(label_at(after, t) =~= seq![label(t)]);
    assert(layout(blocks, after, t + 1) == layout(blocks, after, t) + label_at(after, t)
        + block_at(blocks, t));
    let old_lines = head + plain(blocks, from, blocks.len());
    assert(old_lines.insert((t + inserted) as int, label(t)) =~= layout(blocks, after, t + 1) + plain(
        blocks,
        t + 1,
        blocks.len(),
    ));
}

/// Two sequences with the same elements, each as often in the one as in the
/// other, have the same members.
pub proof fn lemma_same_members(a: Seq<Word>, b: Seq<Word>)
    requires
        a.to_multiset() == b.to_multiset(),
    ensures
        a.len() == b.len(),
        forall|x: Word| a.contains(x) <==> b.contains(x),
        members(a, a.len()) == members(b, b.len()),
{
    to_multiset_len(a);
    to_multiset_len(b);
    assert forall|x: Word| a.contains(x) <==> b.contains(x) by {
        to_multiset_contains(a, x);
        to_multiset_contains(b, x);
    }
    assert forall|t: nat| members(a, a.len()).contains(t) <==> members(b, b.len()).contains(t) by {
        if members(a, a.len()).contains(t) {
            let i = choose|i: int| 0 <= i < a.len() && i < a.len() && a[i] == t;
            assert(a.contains(a[i]));
            assert(b.contains(a[i]));
            let k = choose|k: int| 0 <= k < b.len() && b[k] == a[i];
            assert(b[k] == t);
        }
        if members(b, b.len()).contains(t) {
            let i = choose|i: int| 0 <= i < b.len() && i < b.len() && b[i] == t;
            assert(b.contains(b[i]));
            assert(a.contains(b[i]));
            let k = choose|k: int| 0 <= k < a.len() && a[k] == b[i];
            assert(a[k] == t);
        }
    }
    assert(members(a, a.len()) =~= members(b, b.len()));
}

} // verus!
