//! How joined text falls apart again: words that were joined by spaces, and
//! lines that were closed by a line ending, can be had back from the text in
//! one way only.

use crate::model::{is_digit, is_numeral, is_unsigned_numeral, lemma_unsigned_numeral_shape};
use crate::text::{decimal, spaced, terminated};
use vstd::prelude::*;

verus! {

/// Whether no byte of the text is `byte`.
pub open spec fn lacks(text: Seq<u8>, byte: u8) -> bool {
    forall|i: int| 0 <= i < text.len() ==> #[trigger] text[i] != byte
}

/// Whether each of the texts is a word: not empty, and without a space.
pub open spec fn are_words(words: Seq<Seq<u8>>) -> bool {
    forall|i: int| 0 <= i < words.len() ==> (#[trigger] words[i]).len() > 0 && lacks(words[i], 32)
}

/// Whether each of the texts fits on a line: none holds a line feed.
pub open spec fn are_lines(lines: Seq<Seq<u8>>) -> bool {
    forall|i: int| 0 <= i < lines.len() ==> lacks(#[trigger] lines[i], 10)
}

/// Two texts behind the same text are equal where the whole is.
pub proof fn lemma_same_head(head: Seq<u8>, first: Seq<u8>, second: Seq<u8>)
    requires
        head + first == head + second,
    ensures
        first == second,
{
    assert((head + first).skip(head.len() as int) =~= first);
    assert((head + second).skip(head.len() as int) =~= second);
}

/// A text without a byte, behind another such text, makes such a text.
pub proof fn lemma_lacks_add(first: Seq<u8>, second: Seq<u8>, byte: u8)
    requires
        lacks(first, byte),
        lacks(second, byte),
    ensures
        lacks(first + second, byte),
{
    assert forall|i: int| 0 <= i < (first + second).len() implies #[trigger] (first + second)[i]
        != byte by {
        if i < first.len() {
            assert((first + second)[i] == first[i]);
        } else {
            assert((first + second)[i] == second[i - first.len()]);
        }
    }
}

/// A decimal numeral is not empty and holds digits, a minus sign and a point
/// only.
pub proof fn lemma_numeral_bytes(s: Seq<u8>)
    requires
        is_numeral(s),
    ensures
        s.len() > 0,
        forall|i: int| 0 <= i < s.len() ==> is_digit(#[trigger] s[i]) || s[i] == 45 || s[i] == 46,
        lacks(s, 32),
        lacks(s, 10),
{
    assert forall|i: int| 0 <= i < s.len() implies is_digit(#[trigger] s[i]) || s[i] == 45 || s[i]
        == 46 by {
        if is_unsigned_numeral(s) {
            lemma_unsigned_numeral_shape(s, i);
        } else if i > 0 {
            lemma_unsigned_numeral_shape(s.skip(1), i - 1);
        }
    }
}

/// The decimal digits of a number are digits, and at least one.
pub proof fn lemma_decimal_digits(n: nat)
    ensures
        decimal(n).len() > 0,
        forall|i: int| 0 <= i < decimal(n).len() ==> is_digit(#[trigger] decimal(n)[i]),
        lacks(decimal(n), 32),
        lacks(decimal(n), 10),
    decreases n,
{
    if n >= 10 {
        lemma_decimal_digits(n / 10);
    }
}

/// Where the words end in a text that joins them: the last word closes the
/// text, and behind more than one word a space stands before it.
pub proof fn lemma_spaced_shape(words: Seq<Seq<u8>>)
    requires
        words.len() > 0,
    ensures
        ({
            let text = spaced(words);
            let last = words.last();
            &&& text.len() >= last.len()
            &&& text.skip(text.len() - last.len()) == last
            &&& words.len() == 1 ==> text == last
            &&& words.len() > 1 ==> {
                &&& text.len() > last.len()
                &&& text[text.len() - last.len() - 1] == 32
                &&& text.take(text.len() - last.len() - 1) == spaced(words.drop_last())
            }
        }),
{
    let text = spaced(words);
    let last = words.last();
    if words.len() == 1 {
        assert(text.skip(0) =~= text);
    } else {
        let before = spaced(words.drop_last());
        assert(text == before + seq![32u8] + last);
        assert(text.skip(text.len() - last.len()) =~= last);
        assert(text.take(text.len() - last.len() - 1) =~= before);
    }
}

/// Words without spaces that are joined by spaces make a text without line
/// feeds, where they hold none.
pub proof fn lemma_spaced_lacks(words: Seq<Seq<u8>>, byte: u8)
    requires
        byte != 32,
        forall|i: int| 0 <= i < words.len() ==> lacks(#[trigger] words[i], byte),
    ensures
        lacks(spaced(words), byte),
    decreases words.len(),
{
    if words.len() > 1 {
        lemma_spaced_lacks(words.drop_last(), byte);
        lemma_lacks_add(spaced(words.drop_last()), seq![32u8], byte);
        lemma_lacks_add(spaced(words.drop_last()) + seq![32u8], words.last(), byte);
    }
}

/// Words that are joined by spaces can be had back from the text: two lists
/// of words with the same text are the same list.
pub proof fn lemma_spaced_unique(first: Seq<Seq<u8>>, second: Seq<Seq<u8>>)
    requires
        are_words(first),
        are_words(second),
        spaced(first) == spaced(second),
    ensures
        first == second,
    decreases first.len(),
{
    let text = spaced(first);
    if first.len() == 0 {
        if second.len() > 0 {
            lemma_spaced_shape(second);
            assert(second.last().len() > 0);
        }
        assert(first =~= second);
    } else if second.len() == 0 {
        lemma_spaced_shape(first);
        assert(first.last().len() > 0);
    } else {
        let a = first.last();
        let b = second.last();
        lemma_spaced_shape(first);
        lemma_spaced_shape(second);
        lemma_word_ends(first, second);
        lemma_word_ends(second, first);
        assert(a == b);
        if first.len() == 1 {
            assert(second.len() == 1);
            assert(first =~= second);
        } else {
            assert(second.len() > 1);
            assert(are_words(first.drop_last()));
            assert(are_words(second.drop_last()));
            lemma_spaced_unique(first.drop_last(), second.drop_last());
            assert(first =~= first.drop_last().push(a));
            assert(second =~= second.drop_last().push(b));
        }
    }
}

/// Of two lists of words with the same text, the last word of the one is not
/// shorter than the last word of the other: else a space of the one would lie
/// inside a word of the other.
proof fn lemma_word_ends(first: Seq<Seq<u8>>, second: Seq<Seq<u8>>)
    requires
        are_words(first),
        are_words(second),
        first.len() > 0,
        second.len() > 0,
        spaced(first) == spaced(second),
    ensures
        first.last().len() >= second.last().len(),
{
    let text = spaced(first);
    let a = first.last();
    let b = second.last();
    lemma_spaced_shape(first);
    lemma_spaced_shape(second);
    if a.len() < b.len() && first.len() > 1 {
        let at = text.len() - a.len() - 1;
        assert(text.skip(text.len() - b.len())[at - (text.len() - b.len())] == text[at]);
        assert(b[at - (text.len() - b.len())] == 32);
    }
}

/// Where the lines end in a text that closes each with a line ending.
pub proof fn lemma_terminated_shape(lines: Seq<Seq<u8>>, ending: Seq<u8>)
    requires
        lines.len() > 0,
    ensures
        ({
            let text = terminated(lines, ending);
            let last = lines.last();
            let before = terminated(lines.drop_last(), ending);
            &&& text.len() == before.len() + last.len() + ending.len()
            &&& text.take(before.len() as int) == before
            &&& text.subrange(before.len() as int, (before.len() + last.len()) as int) == last
            &&& text.skip((before.len() + last.len()) as int) == ending
        }),
{
    let text = terminated(lines, ending);
    let last = lines.last();
    let before = terminated(lines.drop_last(), ending);
    assert(text == before + last + ending);
    assert(text.take(before.len() as int) =~= before);
    assert(text.subrange(before.len() as int, (before.len() + last.len()) as int) =~= last);
    assert(text.skip((before.len() + last.len()) as int) =~= ending);
}

/// Of two lists of lines with the same text, the last line of the one is not
/// shorter than the last line of the other: else a line feed of the one would
/// lie inside a line of the other.
proof fn lemma_line_ends(first: Seq<Seq<u8>>, second: Seq<Seq<u8>>, ending: Seq<u8>)
    requires
        are_lines(first),
        are_lines(second),
        first.len() > 0,
        second.len() > 0,
        ending.len() > 0,
        ending.last() == 10,
        terminated(first, ending) == terminated(second, ending),
    ensures
        first.last().len() >= second.last().len(),
{
    let text = terminated(first, ending);
    let a = first.last();
    let b = second.last();
    let before_a = terminated(first.drop_last(), ending);
    let before_b = terminated(second.drop_last(), ending);
    lemma_terminated_shape(first, ending);
    lemma_terminated_shape(second, ending);
    let earlier = first.drop_last();
    if a.len() < b.len() && earlier.len() > 0 {
        lemma_terminated_shape(earlier, ending);
        let at = before_a.len() - 1;
        assert(before_a.skip(before_a.len() - ending.len())[ending.len() - 1] == before_a[at]);
        assert(before_a[at] == 10);
        assert(text.take(before_a.len() as int)[at] == text[at]);
        assert(text.subrange(before_b.len() as int, (before_b.len() + b.len()) as int)[at - before_b.len()]
            == text[at]);
        assert(b[at - before_b.len()] == 10);
    }
}

/// Lines that were closed by a line ending can be had back from the text: two
/// lists of lines with the same text are the same list.
pub proof fn lemma_terminated_unique(first: Seq<Seq<u8>>, second: Seq<Seq<u8>>, ending: Seq<u8>)
    requires
        are_lines(first),
        are_lines(second),
        ending.len() > 0,
        ending.last() == 10,
        terminated(first, ending) == terminated(second, ending),
    ensures
        first == second,
    decreases first.len(),
{
    if first.len() == 0 {
        if second.len() > 0 {
            lemma_terminated_shape(second, ending);
        }
        assert(first =~= second);
    } else if second.len() == 0 {
        lemma_terminated_shape(first, ending);
    } else {
        let text = terminated(first, ending);
        let a = first.last();
        let b = second.last();
        lemma_terminated_shape(first, ending);
        lemma_terminated_shape(second, ending);
        lemma_line_ends(first, second, ending);
        lemma_line_ends(second, first, ending);
        assert(a == b);
        assert(are_lines(first.drop_last()));
        assert(are_lines(second.drop_last()));
        lemma_terminated_unique(first.drop_last(), second.drop_last(), ending);
        assert(first =~= first.drop_last().push(a));
        assert(second =~= second.drop_last().push(b));
    }
}

} // verus!
