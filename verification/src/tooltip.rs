use vstd::prelude::*;

verus! {

/// Whether the byte ends a word: a space, a full stop or a comma.
pub open spec fn is_delimiter(b: u8) -> bool {
    b == 0x20 || b == 0x2E || b == 0x2C
}

/// Whether the byte ends a word.
pub fn delimiter(b: u8) -> (d: bool)
    ensures
        d == is_delimiter(b),
{
    b == 0x20 || b == 0x2E || b == 0x2C
}

/// A line of tooltip text, cut at its delimiters.
pub struct Words {
    /// For each delimiter of the line, in order, the word before it: the
    /// index where the word starts, and the index of the delimiter, where
    /// the word ends. A word may be empty.
    pub spans: Vec<(usize, usize)>,
    /// The index where the rest of the line starts, after the last
    /// delimiter.
    pub rest: usize,
}

/// Whether no byte of `line` from index `from` up to `to` is a delimiter.
pub open spec fn no_delimiter(line: Seq<u8>, from: int, to: int) -> bool {
    forall|i: int| from <= i < to ==> !is_delimiter(#[trigger] line[i])
}

/// Whether span `k` is a word of `line`: it starts the line or follows the
/// delimiter of the span before it, holds no delimiter, and ends with one.
pub open spec fn is_word(line: Seq<u8>, spans: Seq<(usize, usize)>, k: int) -> bool {
    &&& spans[k].0 == if k == 0 {
        0
    } else {
        spans[k - 1].1 + 1
    }
    &&& spans[k].0 <= spans[k].1 < line.len()
    &&& is_delimiter(line[spans[k].1 as int])
    &&& no_delimiter(line, spans[k].0 as int, spans[k].1 as int)
}

/// Whether `spans` and `rest` cut `line` at each of its delimiters: every
/// span is a word, and the rest starts behind the last delimiter and holds
/// none.
pub open spec fn cuts(line: Seq<u8>, spans: Seq<(usize, usize)>, rest: usize) -> bool {
    &&& forall|k: int| 0 <= k < spans.len() ==> #[trigger] is_word(line, spans, k)
    &&& rest == if spans.len() == 0 {
        0
    } else {
        spans.last().1 + 1
    }
    &&& rest <= line.len()
    &&& no_delimiter(line, rest as int, line.len() as int)
}

/// Cuts a line of tooltip text into its words.
pub fn split_words(line: &[u8]) -> (words: Words)
    ensures
        cuts(line@, words.spans@, words.rest),
{
    let mut spans: Vec<(usize, usize)> = Vec::new();
    let mut start: usize = 0;
    let mut i: usize = 0;
    while i < line.len()
        invariant
            start <= i <= line@.len(),
            forall|k: int| 0 <= k < spans@.len() ==> #[trigger] is_word(line@, spans@, k),
            start == if spans@.len() == 0 {
                0
            } else {
                spans@.last().1 + 1
            },
            no_delimiter(line@, start as int, i as int),
        decreases line@.len() - i,
    {
        if delimiter(line[i]) {
            let ghost old_spans = spans@;
            spans.push((start, i));
            start = i + 1;
            assert forall|k: int| 0 <= k < spans@.len() implies #[trigger] is_word(
                line@,
                spans@,
                k,
            ) by {
                if k < old_spans.len() {
                    assert(is_word(line@, old_spans, k));
                }
            }
        }
        i = i + 1;
    }
    Words { spans, rest: start }
}

} // verus!
