//! Text as a sequence of characters, and its division into lines.

use vstd::prelude::*;

verus! {

/// `String::push` of the standard library: the character is appended at the
/// end of the string and nothing else changes.
pub assume_specification[ String::push ](s: &mut String, ch: char)
    ensures
        final(s)@ == old(s)@.push(ch),
;

/// The number of characters of `s` that stand before its first line feed;
/// the length of `s` where it holds none.
pub open spec fn line_break(s: Seq<char>) -> nat
    decreases s.len(),
{
    if s.len() == 0 || s[0] == '\n' {
        0
    } else {
        1 + line_break(s.skip(1))
    }
}

/// `line` without the carriage return at its end, if it ends in one.
pub open spec fn without_cr(line: Seq<char>) -> Seq<char> {
    if line.len() > 0 && line.last() == '\r' {
        line.drop_last()
    } else {
        line
    }
}

/// The lines of `s`. A line ends at a line feed, which is not part of it, nor is
/// a carriage return directly before that line feed. What follows the last
/// line feed is a line of its own unless it is empty.
pub open spec fn lines_of(s: Seq<char>) -> Seq<Seq<char>>
    decreases s.len(),
{
    if s.len() == 0 {
        Seq::empty()
    } else {
        let n = line_break(s);
        if n >= s.len() {
            seq![s]
        } else {
            seq![without_cr(s.take(n as int))] + lines_of(s.skip(n as int + 1))
        }
    }
}

/// The views of the strings of `v`, in order.
pub open spec fn texts(v: Seq<String>) -> Seq<Seq<char>> {
    Seq::new(v.len(), |i: int| v[i]@)
}

/// `line_break(s)` is the only `n` such that no line feed stands before
/// position `n` and position `n` is the end of `s` or holds a line feed.
pub proof fn lemma_line_break_is_first(s: Seq<char>, n: int)
    requires
        0 <= n <= s.len(),
        forall|k: int| 0 <= k < n ==> s[k] != '\n',
        n == s.len() || s[n] == '\n',
    ensures
        line_break(s) == n,
    decreases n,
{
    if n > 0 {
        let rest = s.skip(1);
        assert forall|k: int| 0 <= k < n - 1 implies rest[k] != '\n' by {
            assert(rest[k] == s[k + 1]);
        }
        lemma_line_break_is_first(rest, n - 1);
    }
}

/// The first line of a text that is not empty, and the lines after it.
pub(crate) proof fn lemma_lines_unfold(s: Seq<char>, from: int, end: int)
    requires
        0 <= from < s.len(),
        from <= end <= s.len(),
        end - from == line_break(s.skip(from)),
    ensures
        end < s.len() ==> lines_of(s.skip(from)) == seq![
            without_cr(s.subrange(from, end)),
        ] + lines_of(s.skip(end + 1)),
        end == s.len() ==> lines_of(s.skip(from)) == seq![s.subrange(from, end)],
{
    let t = s.skip(from);
    let n = end - from;
    if end < s.len() {
        assert(t.take(n) =~= s.subrange(from, end));
        assert(t.skip(n + 1) =~= s.skip(end + 1));
    } else {
        assert(t =~= s.subrange(from, end));
    }
}

/// The digit for `d`, which is less than ten.
pub open spec fn digit(d: nat) -> char {
    ((48 + d) as u8) as char
}

/// `n` in decimal digits, without leading zeros.
pub open spec fn decimal_of(n: nat) -> Seq<char>
    decreases n,
{
    if n < 10 {
        seq![digit(n)]
    } else {
        decimal_of(n / 10).push(digit(n % 10))
    }
}

/// Appends `n` in decimal digits.
pub fn push_decimal(buffer: &mut String, n: usize)
    ensures
        final(buffer)@ == old(buffer)@ + decimal_of(n as nat),
    decreases n,
{
    if n >= 10 {
        push_decimal(buffer, n / 10);
    }
    let d: u8 = (n % 10) as u8;
    buffer.push((48 + d) as char);
    assert(buffer@ =~= old(buffer)@ + decimal_of(n as nat));
}

/// The characters of `text`, in order.
pub fn chars_of(text: &str) -> (chars: Vec<char>)
    ensures
        chars@ == text@,
{
    let mut chars: Vec<char> = Vec::new();
    for c in it: text.chars()
        invariant
            chars@ == text@.take(it.index() as int),
            it.seq() == text@,
    {
        chars.push(c);
    }
    chars
}

/// The position at which the line that starts at `from` ends: that of the next
/// line feed, or the end of `chars`.
pub(crate) fn line_end(chars: &Vec<char>, from: usize) -> (end: usize)
    requires
        from <= chars.len(),
    ensures
        from <= end <= chars.len(),
        end - from == line_break(chars@.skip(from as int)),
{
    let mut end: usize = from;
    while end < chars.len() && chars[end] != '\n'
        invariant
            from <= end <= chars.len(),
            forall|k: int| from <= k < end ==> chars@[k] != '\n',
        decreases chars.len() - end,
    {
        end = end + 1;
    }
    proof {
        let rest = chars@.skip(from as int);
        assert forall|k: int| 0 <= k < end - from implies rest[k] != '\n' by {
            assert(rest[k] == chars@[from + k]);
        }
        lemma_line_break_is_first(rest, end - from);
    }
    end
}

/// Appends the characters of `chars` from `from` up to `to`, and a line feed.
pub(crate) fn push_line(buffer: &mut String, chars: &Vec<char>, from: usize, to: usize)
    requires
        from <= to <= chars.len(),
    ensures
        final(buffer)@ == old(buffer)@ + chars@.subrange(from as int, to as int).push('\n'),
{
    let mut i: usize = from;
    while i < to
        invariant
            from <= i <= to <= chars.len(),
            buffer@ == old(buffer)@ + chars@.subrange(from as int, i as int),
        decreases to - i,
    {
        buffer.push(chars[i]);
        i = i + 1;
        assert(buffer@ =~= old(buffer)@ + chars@.subrange(from as int, i as int));
    }
    buffer.push('\n');
    assert(buffer@ =~= old(buffer)@ + chars@.subrange(from as int, to as int).push('\n'));
}

} // verus!
