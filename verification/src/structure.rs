//! How the blocks that are found depend on the fences of a message.

use crate::extract::{blocks_of, extracted, fence_index, fence_tag, is_fence, is_python_tag, joined};
use crate::text::{lines_of, texts};
use vstd::prelude::*;

verus! {

/// The number of fences among `lines`.
pub open spec fn fences_in(lines: Seq<Seq<char>>) -> nat
    decreases lines.len(),
{
    if lines.len() == 0 {
        0
    } else if is_fence(lines[0]) {
        1 + fences_in(lines.skip(1))
    } else {
        fences_in(lines.skip(1))
    }
}

/// Whether no line of `lines` is a fence.
pub open spec fn no_fence(lines: Seq<Seq<char>>) -> bool {
    forall|i: int| 0 <= i < lines.len() ==> !is_fence(#[trigger] lines[i])
}

/// Whether line `i` of `lines` is a fence that opens a block: an even number
/// of fences stands before it.
pub open spec fn opens_block(lines: Seq<Seq<char>>, i: int) -> bool {
    0 <= i < lines.len() && is_fence(lines[i]) && fences_in(lines.take(i)) % 2 == 0
}

/// Whether every block of `lines` is closed.
pub open spec fn all_closed(lines: Seq<Seq<char>>) -> bool {
    fences_in(lines) % 2 == 0
}

/// Lines without a fence hold no fences, and the other way round.
pub proof fn lemma_no_fence_count(lines: Seq<Seq<char>>)
    ensures
        no_fence(lines) <==> fences_in(lines) == 0,
    decreases lines.len(),
{
    if lines.len() > 0 {
        let rest = lines.skip(1);
        lemma_no_fence_count(rest);
        if no_fence(lines) {
            assert forall|i: int| 0 <= i < rest.len() implies !is_fence(#[trigger] rest[i]) by {
                assert(rest[i] == lines[i + 1]);
            }
        }
        if fences_in(lines) == 0 {
            assert forall|i: int| 0 <= i < lines.len() implies !is_fence(#[trigger] lines[i]) by {
                if i > 0 {
                    assert(lines[i] == rest[i - 1]);
                }
            }
        }
    }
}

/// The fences of two runs of lines, one after the other, are those of both.
pub proof fn lemma_fences_in_concat(a: Seq<Seq<char>>, b: Seq<Seq<char>>)
    ensures
        fences_in(a + b) == fences_in(a) + fences_in(b),
    decreases a.len(),
{
    if a.len() == 0 {
        assert(a + b =~= b);
    } else {
        assert((a + b)[0] == a[0]);
        assert((a + b).skip(1) =~= a.skip(1) + b);
        lemma_fences_in_concat(a.skip(1), b);
    }
}

/// No fence stands before position `fence_index(lines)`, and a fence stands
/// at it unless it is the end of `lines`.
pub proof fn lemma_fence_index(lines: Seq<Seq<char>>)
    ensures
        fence_index(lines) <= lines.len(),
        fence_index(lines) < lines.len() ==> is_fence(lines[fence_index(lines) as int]),
        fences_in(lines.take(fence_index(lines) as int)) == 0,
        fence_index(lines) < lines.len() ==> fences_in(lines.take(fence_index(lines) as int + 1))
            == 1,
        fence_index(lines) >= lines.len() ==> fences_in(lines) == 0,
    decreases lines.len(),
{
    let n = fence_index(lines) as int;
    if lines.len() == 0 {
        assert(lines.take(0) =~= lines);
    } else if is_fence(lines[0]) {
        assert(lines.take(0) =~= Seq::<Seq<char>>::empty());
        let one = lines.take(1);
        assert(one[0] == lines[0]);
        assert(one.skip(1) =~= Seq::<Seq<char>>::empty());
    } else {
        let rest = lines.skip(1);
        lemma_fence_index(rest);
        let head = lines.take(n);
        assert(head[0] == lines[0]);
        assert(head.skip(1) =~= rest.take(n - 1));
        if n < lines.len() {
            let more = lines.take(n + 1);
            assert(more[0] == lines[0]);
            assert(more.skip(1) =~= rest.take(n));
        } else {
            assert(lines.take(n) =~= lines);
        }
    }
}

/// Where `a` holds a fence, the first fence of `a + b` is that of `a`.
pub proof fn lemma_fence_index_concat(a: Seq<Seq<char>>, b: Seq<Seq<char>>)
    ensures
        fence_index(a) < a.len() ==> fence_index(a + b) == fence_index(a),
        fence_index(a) >= a.len() ==> fence_index(a + b) == a.len() + fence_index(b),
    decreases a.len(),
{
    if a.len() == 0 {
        assert(a + b =~= b);
    } else {
        assert((a + b)[0] == a[0]);
        assert((a + b).skip(1) =~= a.skip(1) + b);
        lemma_fence_index_concat(a.skip(1), b);
    }
}

/// The blocks come out in the order of the message: where every block of `a`
/// is closed, the blocks of `a` followed by `b` are those of `a`, then those
/// of `b`.
pub proof fn lemma_blocks_in_order(a: Seq<Seq<char>>, b: Seq<Seq<char>>)
    requires
        all_closed(a),
    ensures
        blocks_of(a + b) == blocks_of(a) + blocks_of(b),
    decreases a.len(),
{
    let whole = a + b;
    if a.len() == 0 {
        assert(whole =~= b);
        assert(blocks_of(a) + blocks_of(b) =~= blocks_of(b));
    } else {
        assert(whole[0] == a[0]);
        assert(whole.skip(1) =~= a.skip(1) + b);
        if !is_fence(a[0]) {
            lemma_blocks_in_order(a.skip(1), b);
        } else {
            let body = a.skip(1);
            let n = fence_index(body) as int;
            lemma_fence_index(body);
            lemma_fence_index_concat(body, b);
            assert(n < body.len());
            let later = body.skip(n + 1);
            assert(body =~= body.take(n + 1) + later);
            lemma_fences_in_concat(body.take(n + 1), later);
            assert((body + b).take(n) =~= body.take(n));
            assert((body + b).skip(n + 1) =~= later + b);
            lemma_blocks_in_order(later, b);
            let found = seq![joined(body.take(n))];
            assert(found + (blocks_of(later) + blocks_of(b)) =~= (found + blocks_of(later))
                + blocks_of(b));
        }
    }
}

/// Where no fence that opens a block carries a tag that names Python, no
/// block is found.
pub proof fn lemma_no_python_fence(lines: Seq<Seq<char>>)
    requires
        forall|i: int| #[trigger] opens_block(lines, i) ==> !is_python_tag(fence_tag(lines[i])),
    ensures
        blocks_of(lines) == Seq::<Seq<char>>::empty(),
    decreases lines.len(),
{
    if lines.len() > 0 {
        if !is_fence(lines[0]) {
            let rest = lines.skip(1);
            assert forall|i: int| #[trigger] opens_block(rest, i) implies !is_python_tag(
                fence_tag(rest[i]),
            ) by {
                let head = lines.take(i + 1);
                assert(head[0] == lines[0]);
                assert(head.skip(1) =~= rest.take(i));
                assert(rest[i] == lines[i + 1]);
                assert(opens_block(lines, i + 1));
            }
            lemma_no_python_fence(rest);
        } else {
            assert(lines.take(0) =~= Seq::<Seq<char>>::empty());
            assert(opens_block(lines, 0));
            let body = lines.skip(1);
            let n = fence_index(body) as int;
            lemma_fence_index(body);
            if n < body.len() {
                let rest = body.skip(n + 1);
                let first = lines.take(n + 2);
                assert(first[0] == lines[0]);
                assert(first.skip(1) =~= body.take(n + 1));
                assert(fences_in(first) == 2);
                assert forall|i: int| #[trigger] opens_block(rest, i) implies !is_python_tag(
                    fence_tag(rest[i]),
                ) by {
                    assert(lines.take(n + 2 + i) =~= first + rest.take(i));
                    lemma_fences_in_concat(first, rest.take(i));
                    assert(rest[i] == lines[n + 2 + i]);
                    assert(opens_block(lines, n + 2 + i));
                }
                lemma_no_python_fence(rest);
            }
        }
    }
}

/// A message none of whose blocks is a Python block yields nothing; so does
/// one without a fence.
pub proof fn lemma_nothing_to_extract(text: Seq<char>)
    requires
        forall|i: int| #[trigger]
            opens_block(lines_of(text), i) ==> !is_python_tag(fence_tag(lines_of(text)[i])),
    ensures
        extracted(text) == Seq::<Seq<char>>::empty(),
{
    lemma_no_python_fence(lines_of(text));
}

/// One closed Python block, with no fence before it, in it or after it, yields
/// one content: the lines between its two fences, each followed by a line feed.
pub proof fn lemma_single_block(
    before: Seq<Seq<char>>,
    opening: Seq<char>,
    body: Seq<Seq<char>>,
    closing: Seq<char>,
    after: Seq<Seq<char>>,
)
    requires
        no_fence(before),
        no_fence(body),
        no_fence(after),
        is_fence(opening),
        is_python_tag(fence_tag(opening)),
        is_fence(closing),
    ensures
        blocks_of(before + seq![opening] + body + seq![closing] + after) == seq![joined(body)],
{
    let block = seq![opening] + body + seq![closing];
    let inner = body + seq![closing];
    let nothing = Seq::<Seq<char>>::empty();
    lemma_no_fence_count(before);
    lemma_no_fence_count(body);
    lemma_no_fence_count(after);
    // The block alone.
    assert(block[0] == opening);
    assert(block.skip(1) =~= inner);
    lemma_fence_index(body);
    lemma_fence_index_concat(body, seq![closing]);
    assert(fence_index(seq![closing]) == 0);
    assert(fence_index(inner) == body.len());
    assert(inner.take(body.len() as int) =~= body);
    assert(inner.skip(body.len() as int + 1) =~= nothing);
    assert(blocks_of(nothing) =~= nothing);
    assert(fences_in(nothing) == 0);
    assert(blocks_of(block) =~= seq![joined(body)] + nothing);
    // What stands round it adds nothing.
    lemma_fences_in_concat(seq![opening], inner);
    lemma_fences_in_concat(body, seq![closing]);
    assert(fences_in(seq![closing]) == 1) by {
        assert(seq![closing][0] == closing);
        assert(seq![closing].skip(1) =~= nothing);
    }
    assert(fences_in(seq![opening]) == 1) by {
        assert(seq![opening][0] == opening);
        assert(seq![opening].skip(1) =~= nothing);
    }
    assert(block =~= seq![opening] + inner);
    assert(all_closed(block));
    lemma_blocks_in_order(block, after);
    assert forall|i: int| #[trigger] opens_block(after, i) implies !is_python_tag(
        fence_tag(after[i]),
    ) by {}
    lemma_no_python_fence(after);
    assert forall|i: int| #[trigger] opens_block(before, i) implies !is_python_tag(
        fence_tag(before[i]),
    ) by {}
    lemma_no_python_fence(before);
    lemma_blocks_in_order(before, block + after);
    assert(before + seq![opening] + body + seq![closing] + after =~= before + (block + after));
    assert(nothing + (seq![joined(body)] + nothing) =~= seq![joined(body)]);
}

/// What is extracted depends on the text alone: two results for one text, as
/// `extract_blocks` gives them, hold the same contents in the same order.
pub proof fn lemma_same_text_same_blocks(text: Seq<char>, first: Vec<String>, second: Vec<String>)
    requires
        texts(first@) == extracted(text),
        texts(second@) == extracted(text),
    ensures
        first.len() == second.len(),
        forall|i: int| 0 <= i < first.len() ==> first[i]@ == second[i]@,
{
    assert(texts(first@).len() == first.len());
    assert(texts(second@).len() == second.len());
    assert forall|i: int| 0 <= i < first.len() implies first[i]@ == second[i]@ by {
        assert(texts(first@)[i] == first[i]@);
        assert(texts(second@)[i] == second[i]@);
    }
}

} // verus!
