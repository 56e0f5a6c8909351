//! The format of the backing file: one item per line, each line ended by a line break.

use std::collections::VecDeque;
use vstd::prelude::*;

verus! {

/// A text that fits on one line: it holds no line break.
pub open spec fn is_line(text: Seq<char>) -> bool {
    !text.contains('\n')
}

/// An item that the queue accepts: a line that is not empty.
pub open spec fn is_item(text: Seq<char>) -> bool {
    text.len() > 0 && is_line(text)
}

/// Every element of `items` fits on one line.
pub open spec fn all_lines(items: Seq<Seq<char>>) -> bool {
    forall|i: int| 0 <= i < items.len() ==> is_line(#[trigger] items[i])
}

/// What is written to the file for one item: the item and a line break.
pub open spec fn encode_item(item: Seq<char>) -> Seq<char> {
    item.push('\n')
}

/// The content of a file that holds `items`, in order.
pub open spec fn encode(items: Seq<Seq<char>>) -> Seq<char>
    decreases items.len(),
{
    if items.len() == 0 {
        Seq::empty()
    } else {
        encode(items.drop_last()) + encode_item(items.last())
    }
}

/// The number of characters of `text` that come before its first line break, or the
/// length of `text` if it holds none.
pub open spec fn line_len(text: Seq<char>) -> nat
    decreases text.len(),
{
    if text.len() == 0 || text[0] == '\n' {
        0
    } else {
        1 + line_len(text.drop_first())
    }
}

/// The items that a file with content `text` holds: one for each line. A line ends at
/// a line break; what follows the last line break, if it is not empty, is a line too.
pub open spec fn decode(text: Seq<char>) -> Seq<Seq<char>>
    decreases text.len(),
{
    let n = line_len(text) as int;
    if text.len() == 0 {
        Seq::empty()
    } else if n >= text.len() {
        seq![text]
    } else {
        seq![text.take(n)] + decode(text.skip(n + 1))
    }
}

/// A file content in which every line is ended by a line break.
pub open spec fn is_terminated(text: Seq<char>) -> bool {
    text.len() == 0 || text.last() == '\n'
}

/// Appends one character to a string, by `String::push` of the standard library:
/// afterwards the string holds what it held before, followed by `c`.
#[verifier::external_body]
fn push_char(text: &mut String, c: char)
    ensures
        final(text)@ == old(text)@.push(c),
{
    text.push(c);
}

/// Tells whether the queue accepts `item`: it is not empty and holds no line break.
pub fn is_valid_item(item: &str) -> (valid: bool)
    ensures
        valid == is_item(item@),
{
    if item.is_empty() {
        return false;
    }
    let mut valid = true;
    for c in it: item.chars()
        invariant
            it.seq() == item@,
            valid == is_line(item@.take(it.index())),
    {
        proof {
            let before = item@.take(it.index());
            let after = item@.take(it.index() + 1);
            if before.contains('\n') {
                let i = choose|i: int| 0 <= i < before.len() && before[i] == '\n';
                assert(after[i] == '\n');
            }
            if c == '\n' {
                assert(after[it.index()] == '\n');
            }
        }
        if c == '\n' {
            valid = false;
        }
    }
    proof {
        assert(item@.take(item@.len() as int) == item@);
    }
    valid
}

/// The text that is written to the file for `item`: the item and a line break.
pub fn encode_line(item: &str) -> (line: String)
    ensures
        line@ == encode_item(item@),
{
    let mut line = item.to_owned();
    push_char(&mut line, '\n');
    line
}

/// Splits the content of a file into its lines, in order: one item for each line.
pub fn decode_lines(text: &str) -> (lines: VecDeque<String>)
    ensures
        lines.deep_view() == decode(text@),
{
    let mut lines: VecDeque<String> = VecDeque::new();
    let mut line = String::new();
    // Where the line that is being read begins.
    let ghost mut start: int = 0;
    for c in it: text.chars()
        invariant
            it.seq() == text@,
            0 <= start <= it.index(),
            is_terminated(text@.take(start)),
            lines.deep_view() == decode(text@.take(start)),
            line@ == text@.subrange(start, it.index()),
            is_line(line@),
    {
        if c == '\n' {
            proof {
                let head = text@.take(start);
                lemma_decode_concat(head, encode_item(line@));
                lemma_decode_one(line@);
                assert(text@.take(it.index() + 1) == head + encode_item(line@));
                start = it.index() + 1;
            }
            lines.push_back(line);
            line = String::new();
        } else {
            let ghost before = line@;
            push_char(&mut line, c);
            assert forall|i: int| 0 <= i < line@.len() implies line@[i] != '\n' by {
                if i < before.len() {
                    assert(before[i] == line@[i]);
                }
            }
        }
    }
    proof {
        let head = text@.take(start);
        assert(head + line@ == text@);
        lemma_decode_concat(head, line@);
        lemma_decode_line(line@);
    }
    if !line.as_str().is_empty() {
        lines.push_back(line);
    }
    lines
}

/// `line_len` stops at the first line break and not before.
pub proof fn lemma_line_len(text: Seq<char>)
    ensures
        line_len(text) <= text.len(),
        is_line(text.take(line_len(text) as int)),
        line_len(text) < text.len() ==> text[line_len(text) as int] == '\n',
        is_line(text) <==> line_len(text) == text.len(),
    decreases text.len(),
{
    let n = line_len(text) as int;
    if text.len() > 0 && text[0] != '\n' {
        let rest = text.drop_first();
        lemma_line_len(rest);
        let m = line_len(rest) as int;
        assert forall|i: int| 0 <= i < n implies text.take(n)[i] != '\n' by {
            if i > 0 {
                assert(rest.take(m)[i - 1] == text.take(n)[i]);
            }
        }
        if is_line(text) {
            assert forall|i: int| 0 <= i < rest.len() implies rest[i] != '\n' by {
                assert(rest[i] == text[i + 1]);
            }
        }
        if n == text.len() {
            assert(text.take(n) == text);
        }
    }
}

/// A line followed by a line break decodes to that line alone.
pub proof fn lemma_decode_one(line: Seq<char>)
    requires
        is_line(line),
    ensures
        decode(encode_item(line)) == seq![line],
{
    let text = encode_item(line);
    lemma_line_len(text);
    let n = line_len(text) as int;
    // The only line break of `text` is its last character.
    assert(text[line.len() as int] == '\n');
    assert(text.take(n) == line);
    assert(decode(text.skip(n + 1)) == Seq::<Seq<char>>::empty());
}

/// A text without a line break decodes to itself as the only line, or to nothing if
/// it is empty.
pub proof fn lemma_decode_line(line: Seq<char>)
    requires
        is_line(line),
    ensures
        decode(line) == if line.len() == 0 {
            Seq::<Seq<char>>::empty()
        } else {
            seq![line]
        },
{
    lemma_line_len(line);
}

/// After a content in which every line is ended, decoding starts afresh.
pub proof fn lemma_decode_concat(head: Seq<char>, tail: Seq<char>)
    requires
        is_terminated(head),
    ensures
        decode(head + tail) == decode(head) + decode(tail),
    decreases head.len(),
{
    if head.len() > 0 {
        let text = head + tail;
        lemma_line_len(head);
        lemma_line_len(text);
        let n = line_len(head) as int;
        let m = line_len(text) as int;
        // The first line break of `head` is the first one of `head + tail`.
        if m < n {
            assert(text[m] == head.take(n)[m]);
        }
        if n < m {
            assert(head[n] == text.take(m)[n]);
        }
        assert(text.take(n) == head.take(n));
        assert(text.skip(n + 1) == head.skip(n + 1) + tail);
        lemma_decode_concat(head.skip(n + 1), tail);
    }
}

/// Every item that `decode` yields fits on one line.
pub proof fn lemma_decode_lines(text: Seq<char>)
    ensures
        all_lines(decode(text)),
    decreases text.len(),
{
    lemma_line_len(text);
    let n = line_len(text) as int;
    if text.len() != 0 && n < text.len() {
        lemma_decode_lines(text.skip(n + 1));
    }
}

/// The content for two sequences of items, one after the other, is the content for
/// the first followed by the content for the second.
pub proof fn lemma_encode_concat(front: Seq<Seq<char>>, back: Seq<Seq<char>>)
    ensures
        encode(front + back) == encode(front) + encode(back),
    decreases back.len(),
{
    if back.len() > 0 {
        assert((front + back).drop_last() == front + back.drop_last());
        lemma_encode_concat(front, back.drop_last());
    }
}

/// In the content for any items every line is ended.
pub proof fn lemma_encode_terminated(items: Seq<Seq<char>>)
    ensures
        is_terminated(encode(items)),
{
}

/// Reading back what was written gives the items that were written, provided that each
/// of them fits on one line.
pub proof fn lemma_decode_encode(items: Seq<Seq<char>>)
    requires
        all_lines(items),
    ensures
        decode(encode(items)) == items,
    decreases items.len(),
{
    if items.len() > 0 {
        let front = items.drop_last();
        lemma_decode_encode(front);
        lemma_encode_terminated(front);
        lemma_decode_concat(encode(front), encode_item(items.last()));
        lemma_decode_one(items.last());
    }
}

/// Writing what was read gives the content that was read, provided that every line
/// of it is ended.
pub proof fn lemma_encode_decode(text: Seq<char>)
    requires
        is_terminated(text),
    ensures
        encode(decode(text)) == text,
    decreases text.len(),
{
    if text.len() > 0 {
        lemma_line_len(text);
        let n = line_len(text) as int;
        let first = text.take(n);
        let rest = text.skip(n + 1);
        lemma_encode_decode(rest);
        lemma_encode_concat(seq![first], decode(rest));
        assert(encode(seq![first].drop_last()) == Seq::<char>::empty());
    }
}

} // verus!
