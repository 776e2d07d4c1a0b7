//! The Python code blocks of a message.
//!
//! A line that begins with three backticks is a fence. Fences come in pairs:
//! the first opens a block, the next one closes it. What follows the opening
//! fence on its line is the block's language tag; a block is a Python block
//! where that tag is `py` or `python`, in any case of the letters.

use crate::text::{chars_of, line_end, lines_of, push_line, texts, lemma_lines_unfold, without_cr};
use vstd::prelude::*;

verus! {

/// Whether `line` begins with three backticks.
pub open spec fn is_fence(line: Seq<char>) -> bool {
    line.len() >= 3 && line[0] == '`' && line[1] == '`' && line[2] == '`'
}

/// What stands behind the three backticks of a fence.
pub open spec fn fence_tag(line: Seq<char>) -> Seq<char> {
    line.skip(3)
}

/// `c` with a capital letter of ASCII replaced by its small letter.
pub open spec fn small(c: char) -> char {
    if 65 <= c as u32 <= 90 {
        ((c as u32 + 32) as u8) as char
    } else {
        c
    }
}

/// `tag` with each character replaced by `small` of it.
pub open spec fn small_letters(tag: Seq<char>) -> Seq<char> {
    Seq::new(tag.len(), |i: int| small(tag[i]))
}

/// Whether `tag` names Python.
pub open spec fn is_python_tag(tag: Seq<char>) -> bool {
    small_letters(tag) == seq!['p', 'y'] || small_letters(tag) == seq!['p', 'y', 't', 'h', 'o', 'n']
}

/// The number of lines of `lines` that stand before its first fence; the
/// number of all its lines where it holds no fence.
pub open spec fn fence_index(lines: Seq<Seq<char>>) -> nat
    decreases lines.len(),
{
    if lines.len() == 0 || is_fence(lines[0]) {
        0
    } else {
        1 + fence_index(lines.skip(1))
    }
}

/// The lines of `lines` one after the other, each followed by a line feed.
pub open spec fn joined(lines: Seq<Seq<char>>) -> Seq<char>
    decreases lines.len(),
{
    if lines.len() == 0 {
        Seq::empty()
    } else {
        lines[0].push('\n') + joined(lines.skip(1))
    }
}

/// The contents of the Python blocks among `lines`, in the order in which the
/// blocks stand there.
///
/// A line outside a block that is no fence is passed over. A fence opens a
/// block, which reaches to the next fence; the lines between the two are its
/// content. A block that no fence closes is dropped, whatever it holds.
pub open spec fn blocks_of(lines: Seq<Seq<char>>) -> Seq<Seq<char>>
    decreases lines.len(),
{
    if lines.len() == 0 {
        Seq::empty()
    } else if !is_fence(lines[0]) {
        blocks_of(lines.skip(1))
    } else {
        let body = lines.skip(1);
        let n = fence_index(body);
        if n >= body.len() {
            Seq::empty()
        } else {
            let later = blocks_of(body.skip(n as int + 1));
            if is_python_tag(fence_tag(lines[0])) {
                seq![joined(body.take(n as int))] + later
            } else {
                later
            }
        }
    }
}

/// The contents of the Python blocks of the message `text`.
pub open spec fn extracted(text: Seq<char>) -> Seq<Seq<char>> {
    blocks_of(lines_of(text))
}

/// What a scan that has read some lines will still yield from the lines
/// `rest`: `in_block` says whether it stands inside a block, `in_python`
/// whether that block is a Python block, of which it has gathered `content`.
spec fn pending(
    in_block: bool,
    in_python: bool,
    content: Seq<char>,
    rest: Seq<Seq<char>>,
) -> Seq<Seq<char>> {
    if !in_block {
        blocks_of(rest)
    } else {
        let n = fence_index(rest);
        if n >= rest.len() {
            Seq::empty()
        } else {
            let later = blocks_of(rest.skip(n as int + 1));
            if in_python {
                seq![content + joined(rest.take(n as int))] + later
            } else {
                later
            }
        }
    }
}

/// What reading one line does to a scan: `line` is the next line, `tail` the
/// lines after it.
proof fn lemma_scan_line(
    in_block: bool,
    in_python: bool,
    content: Seq<char>,
    line: Seq<char>,
    tail: Seq<Seq<char>>,
)
    ensures
        !in_block && !is_fence(line) ==> pending(in_block, in_python, content, seq![line] + tail)
            == pending(false, false, Seq::empty(), tail),
        !in_block && is_fence(line) ==> pending(in_block, in_python, content, seq![line] + tail)
            == pending(true, is_python_tag(fence_tag(line)), Seq::empty(), tail),
        in_block && is_fence(line) && in_python ==> pending(
            in_block,
            in_python,
            content,
            seq![line] + tail,
        ) == seq![content] + pending(false, false, Seq::empty(), tail),
        in_block && is_fence(line) && !in_python ==> pending(
            in_block,
            in_python,
            content,
            seq![line] + tail,
        ) == pending(false, false, Seq::empty(), tail),
        in_block && !is_fence(line) && in_python ==> pending(
            in_block,
            in_python,
            content,
            seq![line] + tail,
        ) == pending(true, true, content + line.push('\n'), tail),
        in_block && !is_fence(line) && !in_python ==> pending(
            in_block,
            in_python,
            content,
            seq![line] + tail,
        ) == pending(true, false, content, tail),
{
    let rest = seq![line] + tail;
    assert(rest[0] == line);
    assert(rest.skip(1) =~= tail);
    if !in_block {
        if is_fence(line) {
            let n = fence_index(tail);
            if n < tail.len() {
                assert(Seq::<char>::empty() + joined(tail.take(n as int)) =~= joined(
                    tail.take(n as int),
                ));
            }
        }
    } else if is_fence(line) {
        assert(fence_index(rest) == 0);
        assert(rest.take(0) =~= Seq::<Seq<char>>::empty());
        assert(content + joined(rest.take(0)) =~= content);
    } else {
        let n = fence_index(tail);
        assert(fence_index(rest) == n + 1);
        if n < tail.len() {
            assert(rest.skip(n as int + 2) =~= tail.skip(n as int + 1));
            let head = rest.take(n as int + 1);
            assert(head[0] == line);
            assert(head.skip(1) =~= tail.take(n as int));
            assert(content + joined(head) =~= (content + line.push('\n')) + joined(
                tail.take(n as int),
            ));
        }
    }
}

/// Whether the characters of `chars` from `from` up to `to` are a fence.
fn is_fence_at(chars: &Vec<char>, from: usize, to: usize) -> (fence: bool)
    requires
        from <= to <= chars.len(),
    ensures
        fence == is_fence(chars@.subrange(from as int, to as int)),
{
    to - from >= 3 && chars[from] == '`' && chars[from + 1] == '`' && chars[from + 2] == '`'
}

/// Whether `c` is `letter` or the capital letter of it; `letter` is a small
/// letter of ASCII.
fn is_letter(c: char, letter: char) -> (same: bool)
    requires
        97 <= letter as u32 <= 122,
    ensures
        same == (small(c) == letter),
{
    let n: u32 = c as u32;
    let m: u32 = letter as u32;
    n == m || (65 <= n && n <= 90 && n + 32 == m)
}

/// Whether the characters of `chars` from `from` up to `to` are a tag that
/// names Python.
fn is_python_tag_at(chars: &Vec<char>, from: usize, to: usize) -> (python: bool)
    requires
        from <= to <= chars.len(),
    ensures
        python == is_python_tag(chars@.subrange(from as int, to as int)),
{
    let ghost tag = chars@.subrange(from as int, to as int);
    let ghost short = seq!['p', 'y'];
    let ghost long = seq!['p', 'y', 't', 'h', 'o', 'n'];
    let n: usize = to - from;
    proof {
        assert(short.len() == 2 && short[0] == 'p' && short[1] == 'y');
        assert(long.len() == 6 && long[0] == 'p' && long[1] == 'y' && long[2] == 't' && long[3]
            == 'h' && long[4] == 'o' && long[5] == 'n');
        assert(small_letters(tag).len() == n);
    }
    if n == 2 {
        let python = is_letter(chars[from], 'p') && is_letter(chars[from + 1], 'y');
        proof {
            let low = small_letters(tag);
            assert(low[0] == small(tag[0]) && low[1] == small(tag[1]));
            if python {
                assert(low =~= short);
            }
        }
        python
    } else if n == 6 {
        let python = is_letter(chars[from], 'p') && is_letter(chars[from + 1], 'y') && is_letter(
            chars[from + 2],
            't',
        ) && is_letter(chars[from + 3], 'h') && is_letter(chars[from + 4], 'o') && is_letter(
            chars[from + 5],
            'n',
        );
        proof {
            let low = small_letters(tag);
            assert(low[0] == small(tag[0]) && low[1] == small(tag[1]) && low[2] == small(tag[2])
                && low[3] == small(tag[3]) && low[4] == small(tag[4]) && low[5] == small(tag[5]));
            if python {
                assert(low =~= long);
            }
        }
        python
    } else {
        false
    }
}

/// The contents of the Python blocks of `text`, in the order of the message.
///
/// Each content is the lines between the two fences of its block, every line
/// followed by a line feed. A block that is still open where the message ends
/// is left out.
pub fn extract_blocks(text: &str) -> (blocks: Vec<String>)
    ensures
        texts(blocks@) == extracted(text@),
{
    let chars = chars_of(text);
    let mut blocks: Vec<String> = Vec::new();
    let mut content = String::new();
    let mut in_block = false;
    let mut in_python = false;
    let mut pos: usize = 0;
    assert(chars@.skip(0) =~= text@);
    assert(texts(blocks@) =~= Seq::<Seq<char>>::empty());
    while pos < chars.len()
        invariant
            chars@ == text@,
            pos <= chars.len(),
            in_python ==> in_block,
            !in_python ==> content@ == Seq::<char>::empty(),
            extracted(text@) == texts(blocks@) + pending(
                in_block,
                in_python,
                content@,
                lines_of(chars@.skip(pos as int)),
            ),
        decreases chars.len() - pos,
    {
        let end = line_end(&chars, pos);
        let stop = if end < chars.len() && end > pos && chars[end - 1] == '\r' {
            end - 1
        } else {
            end
        };
        let next = if end < chars.len() {
            end + 1
        } else {
            end
        };
        let ghost line = chars@.subrange(pos as int, stop as int);
        let ghost tail = lines_of(chars@.skip(next as int));
        proof {
            lemma_lines_unfold(chars@, pos as int, end as int);
            if end < chars.len() {
                let whole = chars@.subrange(pos as int, end as int);
                if stop < end {
                    assert(whole.drop_last() =~= line);
                }
                assert(without_cr(whole) == line);
            } else {
                assert(chars@.skip(next as int) =~= Seq::<char>::empty());
                assert(seq![line] + tail =~= seq![line]);
            }
            assert(lines_of(chars@.skip(pos as int)) == seq![line] + tail);
            lemma_scan_line(in_block, in_python, content@, line, tail);
        }
        let fence = is_fence_at(&chars, pos, stop);
        if in_block {
            if fence {
                in_block = false;
                if in_python {
                    in_python = false;
                    let ghost before = texts(blocks@);
                    let ghost done = content@;
                    blocks.push(content);
                    content = String::new();
                    assert(texts(blocks@) =~= before + seq![done]);
                    assert(before + (seq![done] + pending(false, false, Seq::empty(), tail)) =~= (
                    before + seq![done]) + pending(false, false, Seq::empty(), tail));
                }
            } else if in_python {
                push_line(&mut content, &chars, pos, stop);
            }
        } else if fence {
            in_block = true;
            in_python = is_python_tag_at(&chars, pos + 3, stop);
            assert(fence_tag(line) =~= chars@.subrange(pos + 3, stop as int));
        }
        pos = next;
    }
    proof {
        assert(chars@.skip(pos as int) =~= Seq::<char>::empty());
        assert(texts(blocks@) + Seq::<Seq<char>>::empty() =~= texts(blocks@));
    }
    blocks
}

} // verus!
