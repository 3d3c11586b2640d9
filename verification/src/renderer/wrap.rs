//! Breaking a text into lines of a given width.

use crate::text::{
    char_is_whitespace, copy_chars, from_chars, is_whitespace, lemma_texts_push, texts, to_chars,
};
use vstd::prelude::*;

verus! {

/// A word with its width, and the widths of its characters where the word does
/// not fit a line.
pub struct MeasuredWord {
    pub chars: Vec<char>,
    pub width: u64,
    pub char_widths: Vec<u64>,
}

/// A line while it is filled.
#[verifier::ext_equal]
pub struct Filling {
    pub lines: Seq<FilledLine>,
    pub line: Seq<char>,
    pub width: int,
}

/// A line and its width.
#[verifier::ext_equal]
pub struct FilledLine {
    pub text: Seq<char>,
    pub width: int,
}

impl Filling {
    /// The line is finished.
    pub open spec fn flushed(self) -> Filling {
        Filling {
            lines: self.lines.push(FilledLine { text: self.line, width: self.width }),
            line: Seq::empty(),
            width: 0,
        }
    }

    /// A character added, on a new line where it does not fit this one.
    pub open spec fn with_char(self, c: char, width: int, max: int) -> Filling {
        let start = if self.width + width > max && self.line.len() > 0 {
            self.flushed()
        } else {
            self
        };
        Filling { line: start.line.push(c), width: start.width + width, ..start }
    }

    /// The first `n` characters of a word added one by one.
    pub open spec fn with_chars(self, word: MeasuredWord, max: int, n: int) -> Filling
        decreases n,
    {
        if n <= 0 {
            self
        } else {
            self.with_chars(word, max, n - 1).with_char(
                word.chars@[n - 1],
                word.char_widths@[n - 1] as int,
                max,
            )
        }
    }

    /// A word added: behind the line where there is room for it and a space, and
    /// else on a new line. A word that fits no line is broken.
    pub open spec fn with_word(self, word: MeasuredWord, space: int, max: int) -> Filling {
        if word.width > max {
            let start = if self.line.len() > 0 {
                self.flushed()
            } else {
                self
            };
            start.with_chars(word, max, word.chars@.len() as int)
        } else if self.line.len() == 0 {
            Filling { line: word.chars@, width: word.width as int, ..self }
        } else if self.width + space + word.width <= max {
            Filling {
                line: self.line.push(' ') + word.chars@,
                width: self.width + space + word.width,
                ..self
            }
        } else {
            Filling { line: word.chars@, width: word.width as int, ..self.flushed() }
        }
    }

    /// The first `n` words of a paragraph added.
    pub open spec fn with_words(self, words: Seq<MeasuredWord>, space: int, max: int, n: int) -> Filling
        decreases n,
    {
        if n <= 0 {
            self
        } else {
            self.with_words(words, space, max, n - 1).with_word(words[n - 1], space, max)
        }
    }

    /// A paragraph added. One without words is an empty line.
    pub open spec fn with_paragraph(self, words: Seq<MeasuredWord>, space: int, max: int) -> Filling {
        if words.len() == 0 {
            self.flushed()
        } else {
            let filled = self.with_words(words, space, max, words.len() as int);
            if filled.line.len() > 0 {
                filled.flushed()
            } else {
                filled
            }
        }
    }

    /// The first `n` paragraphs added.
    pub open spec fn with_paragraphs(
        self,
        paragraphs: Seq<Vec<MeasuredWord>>,
        space: int,
        max: int,
        n: int,
    ) -> Filling
        decreases n,
    {
        if n <= 0 {
            self
        } else {
            self.with_paragraphs(paragraphs, space, max, n - 1).with_paragraph(
                paragraphs[n - 1]@,
                space,
                max,
            )
        }
    }
}

/// Nothing filled yet.
pub open spec fn empty_filling() -> Filling {
    Filling { lines: Seq::empty(), line: Seq::empty(), width: 0 }
}

/// The texts of some lines.
pub open spec fn line_texts(lines: Seq<FilledLine>) -> Seq<Seq<char>> {
    lines.map_values(|l: FilledLine| l.text)
}

/// The lines that some paragraphs are broken into. There is at least one.
pub open spec fn wrapped(paragraphs: Seq<Vec<MeasuredWord>>, space: int, max: int) -> Seq<
    Seq<char>,
> {
    let lines = line_texts(
        empty_filling().with_paragraphs(paragraphs, space, max, paragraphs.len() as int).lines,
    );
    if lines.len() == 0 {
        seq![Seq::empty()]
    } else {
        lines
    }
}

/// Each word has a character, and each character of a word that fits no line
/// has its width.
pub open spec fn is_measured(words: Seq<MeasuredWord>, max: int) -> bool {
    forall|i: int|
        0 <= i < words.len() ==> (#[trigger] words[i]).chars@.len() > 0 && (words[i].width > max
            ==> words[i].char_widths@.len() == words[i].chars@.len())
}

/// A line being filled, with the finished ones.
struct Filler {
    lines: Vec<Vec<char>>,
    line: Vec<char>,
    width: u64,
}

impl Filler {
    spec fn fills(&self, model: Filling) -> bool {
        &&& texts(self.lines@) == line_texts(model.lines)
        &&& self.line@ == model.line
        &&& self.width == model.width
    }

    fn flush(&mut self, Ghost(model): Ghost<Filling>)
        requires
            old(self).fills(model),
        ensures
            final(self).fills(model.flushed()),
            final(self).line@.len() == 0,
    {
        let mut line: Vec<char> = Vec::new();
        core::mem::swap(&mut line, &mut self.line);
        proof {
            lemma_texts_push(self.lines@, line);
            assert(line_texts(model.flushed().lines) =~= line_texts(model.lines).push(model.line));
        }
        self.lines.push(line);
        self.width = 0;
        proof {
            assert(self.line@ =~= Seq::<char>::empty());
        }
    }

    fn add_char(&mut self, c: char, width: u64, max: u64, Ghost(model): Ghost<Filling>)
        requires
            old(self).fills(model),
            old(self).line@.len() == 0 ==> old(self).width == 0,
        ensures
            final(self).fills(model.with_char(c, width as int, max as int)),
            final(self).line@.len() > 0,
    {
        let ghost mut now = model;
        if self.width as u128 + width as u128 > max as u128 && self.line.len() > 0 {
            self.flush(Ghost(model));
            proof {
                now = model.flushed();
            }
        }
        proof {
            assert(self.width + width <= u64::MAX);
        }
        self.line.push(c);
        self.width = self.width + width;
    }

    fn add_word(&mut self, word: &MeasuredWord, space: u64, max: u64, Ghost(model): Ghost<Filling>)
        requires
            old(self).fills(model),
            old(self).line@.len() == 0 ==> old(self).width == 0,
            word.chars@.len() > 0,
            word.width > max ==> word.char_widths@.len() == word.chars@.len(),
        ensures
            final(self).fills(model.with_word(*word, space as int, max as int)),
            final(self).line@.len() > 0,
    {
        if word.width > max {
            let ghost mut start = model;
            if self.line.len() > 0 {
                self.flush(Ghost(model));
                proof {
                    start = model.flushed();
                }
            }
            let mut i: usize = 0;
            while i < word.chars.len()
                invariant
                    i <= word.chars@.len(),
                    word.char_widths@.len() == word.chars@.len(),
                    self.fills(start.with_chars(*word, max as int, i as int)),
                    self.line@.len() == 0 ==> self.width == 0,
                    i > 0 ==> self.line@.len() > 0,
                decreases word.chars@.len() - i,
            {
                self.add_char(
                    word.chars[i],
                    word.char_widths[i],
                    max,
                    Ghost(start.with_chars(*word, max as int, i as int)),
                );
                i += 1;
            }
        } else if self.line.len() == 0 {
            self.line = copy_chars(word.chars.as_slice());
            self.width = word.width;
        } else if self.width as u128 + space as u128 + word.width as u128 <= max as u128 {
            self.line.push(' ');
            let mut more: Vec<char> = copy_chars(word.chars.as_slice());
            self.line.append(&mut more);
            self.width = self.width + space + word.width;
        } else {
            self.flush(Ghost(model));
            self.line = copy_chars(word.chars.as_slice());
            self.width = word.width;
        }
    }

    fn add_paragraph(
        &mut self,
        words: &Vec<MeasuredWord>,
        space: u64,
        max: u64,
        Ghost(model): Ghost<Filling>,
    )
        requires
            old(self).fills(model),
            old(self).line@.len() == 0,
            old(self).width == 0,
            is_measured(words@, max as int),
        ensures
            final(self).fills(model.with_paragraph(words@, space as int, max as int)),
            final(self).line@.len() == 0,
            final(self).width == 0,
    {
        if words.len() == 0 {
            self.flush(Ghost(model));
            return;
        }
        let mut i: usize = 0;
        while i < words.len()
            invariant
                i <= words@.len(),
                is_measured(words@, max as int),
                self.fills(model.with_words(words@, space as int, max as int, i as int)),
                self.line@.len() == 0 ==> self.width == 0,
                i > 0 ==> self.line@.len() > 0,
            decreases words@.len() - i,
        {
            proof {
                assert(words@[i as int].chars@.len() > 0);
            }
            self.add_word(
                &words[i],
                space,
                max,
                Ghost(model.with_words(words@, space as int, max as int, i as int)),
            );
            i += 1;
        }
        self.flush(Ghost(model.with_words(words@, space as int, max as int, i as int)));
    }
}

/// Breaks measured paragraphs into lines.
pub fn wrap_measured(paragraphs: &Vec<Vec<MeasuredWord>>, space: u64, max: u64) -> (r: Vec<Vec<char>>)
    requires
        forall|i: int|
            0 <= i < paragraphs@.len() ==> is_measured(
                (#[trigger] paragraphs@[i])@,
                max as int,
            ),
    ensures
        texts(r@) == wrapped(paragraphs@, space as int, max as int),
{
    let mut filler: Filler = Filler { lines: Vec::new(), line: Vec::new(), width: 0 };
    let ghost start = empty_filling();
    proof {
        assert(texts(filler.lines@) =~= Seq::<Seq<char>>::empty());
        assert(line_texts(start.lines) =~= Seq::<Seq<char>>::empty());
        assert(filler.line@ =~= Seq::<char>::empty());
    }
    let mut i: usize = 0;
    while i < paragraphs.len()
        invariant
            i <= paragraphs@.len(),
            forall|k: int|
                0 <= k < paragraphs@.len() ==> is_measured(
                    (#[trigger] paragraphs@[k])@,
                    max as int,
                ),
            filler.fills(
                start.with_paragraphs(paragraphs@, space as int, max as int, i as int),
            ),
            filler.line@.len() == 0,
            filler.width == 0,
        decreases paragraphs@.len() - i,
    {
        proof {
            assert(is_measured(paragraphs@[i as int]@, max as int));
        }
        filler.add_paragraph(
            &paragraphs[i],
            space,
            max,
            Ghost(start.with_paragraphs(paragraphs@, space as int, max as int, i as int)),
        );
        i += 1;
    }
    if filler.lines.len() == 0 {
        let line: Vec<char> = Vec::new();
        proof {
            lemma_texts_push(filler.lines@, line);
            assert(line@ =~= Seq::<char>::empty());
            assert(texts(filler.lines@.push(line)) =~= seq![Seq::<char>::empty()]);
        }
        filler.lines.push(line);
    }
    filler.lines
}

/// The line is no wider than allowed, or a single character that is.
pub open spec fn line_fits(line: FilledLine, max: int) -> bool {
    line.width <= max || line.text.len() == 1
}

/// All finished lines, and the one being filled, fit.
pub open spec fn all_fit(filling: Filling, max: int) -> bool {
    &&& forall|i: int| 0 <= i < filling.lines.len() ==> line_fits(#[trigger] filling.lines[i], max)
    &&& line_fits(FilledLine { text: filling.line, width: filling.width }, max)
    &&& filling.line.len() == 0 ==> filling.width == 0
}

proof fn lemma_flushed_fits(filling: Filling, max: int)
    requires
        all_fit(filling, max),
        max >= 0,
    ensures
        all_fit(filling.flushed(), max),
{
}

proof fn lemma_chars_fit(filling: Filling, word: MeasuredWord, max: int, n: int)
    requires
        all_fit(filling, max),
        max >= 0,
    ensures
        all_fit(filling.with_chars(word, max, n), max),
    decreases n,
{
    if n > 0 {
        lemma_chars_fit(filling, word, max, n - 1);
        lemma_flushed_fits(filling.with_chars(word, max, n - 1), max);
    }
}

proof fn lemma_words_fit(filling: Filling, words: Seq<MeasuredWord>, space: int, max: int, n: int)
    requires
        all_fit(filling, max),
        max >= 0,
        0 <= n <= words.len(),
        forall|i: int| 0 <= i < words.len() ==> (#[trigger] words[i]).chars@.len() > 0,
    ensures
        all_fit(filling.with_words(words, space, max, n), max),
    decreases n,
{
    if n > 0 {
        lemma_words_fit(filling, words, space, max, n - 1);
        let before = filling.with_words(words, space, max, n - 1);
        let word = words[n - 1];
        assert(word.chars@.len() > 0);
        lemma_flushed_fits(before, max);
        if word.width > max {
            let start = if before.line.len() > 0 {
                before.flushed()
            } else {
                before
            };
            lemma_chars_fit(start, word, max, word.chars@.len() as int);
        }
    }
}

/// No line is wider than allowed, but for one that a single character fills.
pub proof fn law_wrapped_lines_fit(paragraphs: Seq<Vec<MeasuredWord>>, space: int, max: int, n: int)
    requires
        0 <= n <= paragraphs.len(),
        max >= 0,
        forall|i: int|
            0 <= i < paragraphs.len() ==> is_measured((#[trigger] paragraphs[i])@, max),
    ensures
        forall|i: int|
            0 <= i < empty_filling().with_paragraphs(paragraphs, space, max, n).lines.len()
                ==> line_fits(
                #[trigger] empty_filling().with_paragraphs(paragraphs, space, max, n).lines[i],
                max,
            ),
{
    lemma_paragraphs_fit(paragraphs, space, max, n);
}

proof fn lemma_paragraphs_fit(paragraphs: Seq<Vec<MeasuredWord>>, space: int, max: int, n: int)
    requires
        0 <= n <= paragraphs.len(),
        max >= 0,
        forall|i: int|
            0 <= i < paragraphs.len() ==> is_measured((#[trigger] paragraphs[i])@, max),
    ensures
        all_fit(empty_filling().with_paragraphs(paragraphs, space, max, n), max),
    decreases n,
{
    if n > 0 {
        lemma_paragraphs_fit(paragraphs, space, max, n - 1);
        let before = empty_filling().with_paragraphs(paragraphs, space, max, n - 1);
        let words = paragraphs[n - 1]@;
        assert(is_measured(words, max));
        assert forall|i: int| 0 <= i < words.len() implies (#[trigger] words[i]).chars@.len() > 0 by {
        }
        lemma_flushed_fits(before, max);
        lemma_words_fit(before, words, space, max, words.len() as int);
        lemma_flushed_fits(before.with_words(words, space, max, words.len() as int), max);
    }
}

/// The lines of a text: what stands between line feeds, without a carriage
/// return before them. Nothing follows the last line feed.
pub open spec fn lines_of(text: Seq<char>) -> Seq<Seq<char>>
    decreases text.len(),
{
    if text.len() == 0 {
        Seq::empty()
    } else {
        let end = line_end(text, 0);
        let line = text.take(end);
        let content = if end < text.len() && line.len() > 0 && line.last() == '\r' {
            line.drop_last()
        } else {
            line
        };
        if 0 <= end < text.len() {
            seq![content] + lines_of(text.skip(end + 1))
        } else {
            seq![content]
        }
    }
}

/// The position of the first line feed, from `from` on, or the end.
pub open spec fn line_end(text: Seq<char>, from: int) -> int
    decreases text.len() - from,
    when 0 <= from
{
    if from >= text.len() {
        text.len() as int
    } else if text[from] == '\n' {
        from
    } else {
        line_end(text, from + 1)
    }
}

/// The words of a line: what stands between white space.
pub open spec fn words_of(line: Seq<char>) -> Seq<Seq<char>>
    decreases line.len(),
{
    if line.len() == 0 {
        Seq::empty()
    } else if char_is_whitespace(line[0]) {
        words_of(line.skip(1))
    } else {
        let end = word_end(line, 0);
        if 0 < end <= line.len() {
            seq![line.take(end)] + words_of(line.skip(end))
        } else {
            Seq::empty()
        }
    }
}

/// The position of the first white space, from `from` on, or the end.
pub open spec fn word_end(line: Seq<char>, from: int) -> int
    decreases line.len() - from,
    when 0 <= from
{
    if from >= line.len() {
        line.len() as int
    } else if char_is_whitespace(line[from]) {
        from
    } else {
        word_end(line, from + 1)
    }
}

proof fn lemma_word_end(line: Seq<char>, from: int)
    requires
        0 <= from <= line.len(),
    ensures
        from <= word_end(line, from) <= line.len(),
    decreases line.len() - from,
{
    if from < line.len() && !char_is_whitespace(line[from]) {
        lemma_word_end(line, from + 1);
    }
}

fn split_words(line: &[char]) -> (r: Vec<Vec<char>>)
    ensures
        texts(r@) == words_of(line@),
        forall|i: int| 0 <= i < r@.len() ==> (#[trigger] r@[i])@.len() > 0,
{
    let mut out: Vec<Vec<char>> = Vec::new();
    let mut at: usize = 0;
    proof {
        assert(line@.skip(0) =~= line@);
        assert(texts(out@) + words_of(line@) =~= words_of(line@));
    }
    while at < line.len()
        invariant
            at <= line@.len(),
            texts(out@) + words_of(line@.skip(at as int)) == words_of(line@),
            forall|i: int| 0 <= i < out@.len() ==> (#[trigger] out@[i])@.len() > 0,
        decreases line@.len() - at,
    {
        let ghost rest = line@.skip(at as int);
        if is_whitespace(line[at]) {
            proof {
                assert(rest.skip(1) =~= line@.skip(at + 1));
            }
            at += 1;
        } else {
            let mut end: usize = at;
            while end < line.len() && !is_whitespace(line[end])
                invariant
                    at <= end <= line@.len(),
                    rest == line@.skip(at as int),
                    word_end(rest, 0) == word_end(rest, end - at),
                decreases line@.len() - end,
            {
                proof {
                    assert(rest[end - at] == line@[end as int]);
                }
                end += 1;
            }
            proof {
                if end < line@.len() {
                    assert(rest[end - at] == line@[end as int]);
                }
                assert(word_end(rest, 0) == end - at);
                assert(end > at) by {
                    assert(rest[0] == line@[at as int]);
                    if end == at {
                        assert(word_end(rest, 0) == 0);
                    }
                }
            }
            let word: Vec<char> = copy_chars(vstd::slice::slice_subrange(line, at, end));
            proof {
                lemma_texts_push(out@, word);
                assert(word@ =~= rest.take(end - at));
                assert(rest.skip(end - at) =~= line@.skip(end as int));
                assert(texts(out@).push(word@) + words_of(line@.skip(end as int)) =~= texts(out@)
                    + words_of(rest));
            }
            out.push(word);
            at = end;
        }
    }
    proof {
        assert(line@.skip(at as int) =~= Seq::<char>::empty());
        assert(texts(out@) + words_of(Seq::<char>::empty()) =~= texts(out@));
    }
    out
}

fn split_lines(text: &[char]) -> (r: Vec<Vec<char>>)
    ensures
        texts(r@) == lines_of(text@),
{
    let mut out: Vec<Vec<char>> = Vec::new();
    let mut at: usize = 0;
    proof {
        assert(text@.skip(0) =~= text@);
        assert(texts(out@) + lines_of(text@) =~= lines_of(text@));
    }
    while at < text.len()
        invariant
            at <= text@.len(),
            texts(out@) + lines_of(text@.skip(at as int)) == lines_of(text@),
        decreases text@.len() - at,
    {
        let ghost rest = text@.skip(at as int);
        let mut end: usize = at;
        while end < text.len() && text[end] != '\n'
            invariant
                at <= end <= text@.len(),
                rest == text@.skip(at as int),
                line_end(rest, 0) == line_end(rest, end - at),
            decreases text@.len() - end,
        {
            proof {
                assert(rest[end - at] == text@[end as int]);
            }
            end += 1;
        }
        proof {
            if end < text@.len() {
                assert(rest[end - at] == text@[end as int]);
            }
            assert(line_end(rest, 0) == end - at);
        }
        let found: bool = end < text.len();
        let mut stop: usize = end;
        if found && end > at && text[end - 1] == '\r' {
            stop = end - 1;
        }
        let line: Vec<char> = copy_chars(vstd::slice::slice_subrange(text, at, stop));
        proof {
            let whole = rest.take(end - at);
            if end > at {
                assert(whole.last() == text@[end - 1]);
            }
            let content = if end - at < rest.len() && whole.len() > 0 && whole.last() == '\r' {
                whole.drop_last()
            } else {
                whole
            };
            assert(line@ =~= content);
            lemma_texts_push(out@, line);
        }
        let ghost before = texts(out@);
        out.push(line);
        if found {
            proof {
                assert(rest.skip(end - at + 1) =~= text@.skip(end + 1));
                assert(before.push(line@) + lines_of(text@.skip(end + 1)) =~= before + lines_of(
                    rest,
                ));
            }
            at = end + 1;
        } else {
            proof {
                assert(lines_of(rest) == seq![line@]);
                assert(text@.skip(text@.len() as int) =~= Seq::<char>::empty());
                assert(before.push(line@) + lines_of(Seq::<char>::empty()) =~= before + lines_of(
                    rest,
                ));
            }
            at = end;
        }
    }
    proof {
        assert(text@.skip(at as int) =~= Seq::<char>::empty());
        assert(texts(out@) + lines_of(Seq::<char>::empty()) =~= texts(out@));
    }
    out
}

/// A text was measured with the given result.
pub open spec fn measures<F: Fn(String) -> u64>(measure: F, text: Seq<char>, width: u64) -> bool {
    exists|s: String| #[trigger] measure.ensures((s,), width) && s@ == text
}

/// A word was measured, and its characters too where it fits no line.
pub open spec fn word_measured<F: Fn(String) -> u64>(
    measure: F,
    word: MeasuredWord,
    chars: Seq<char>,
    max: u64,
) -> bool {
    &&& word.chars@ == chars
    &&& measures(measure, chars, word.width)
    &&& word.width > max ==> word.char_widths@.len() == chars.len() && forall|i: int|
        0 <= i < chars.len() ==> measures(
            measure,
            seq![chars[i]],
            #[trigger] word.char_widths@[i],
        )
}

/// The words of a line were measured.
pub open spec fn line_measured<F: Fn(String) -> u64>(
    measure: F,
    words: Seq<MeasuredWord>,
    line: Seq<char>,
    max: u64,
) -> bool {
    &&& words.len() == words_of(line).len()
    &&& forall|i: int|
        0 <= i < words.len() ==> word_measured(
            measure,
            #[trigger] words[i],
            words_of(line)[i],
            max,
        )
}

/// The words of a text, line by line, were measured.
pub open spec fn text_measured<F: Fn(String) -> u64>(
    measure: F,
    paragraphs: Seq<Vec<MeasuredWord>>,
    text: Seq<char>,
    max: u64,
) -> bool {
    &&& paragraphs.len() == lines_of(text).len()
    &&& forall|i: int|
        0 <= i < paragraphs.len() ==> line_measured(
            measure,
            (#[trigger] paragraphs[i])@,
            lines_of(text)[i],
            max,
        )
}

fn measure_word<F: Fn(String) -> u64>(chars: Vec<char>, max: u64, measure: &F) -> (r: MeasuredWord)
    requires
        forall|s: String| #[trigger] measure.requires((s,)),
    ensures
        word_measured(*measure, r, chars@, max),
{
    let text: String = from_chars(chars.as_slice());
    let width: u64 = measure(text);
    proof {
        assert(measures(*measure, chars@, width));
    }
    let mut char_widths: Vec<u64> = Vec::new();
    if width > max {
        let mut i: usize = 0;
        while i < chars.len()
            invariant
                i <= chars@.len(),
                char_widths@.len() == i,
                forall|s: String| #[trigger] measure.requires((s,)),
                forall|k: int|
                    0 <= k < i ==> measures(
                        *measure,
                        seq![chars@[k]],
                        #[trigger] char_widths@[k],
                    ),
            decreases chars@.len() - i,
        {
            let mut single: String = String::new();
            single.push(chars[i]);
            proof {
                assert(single@ =~= seq![chars@[i as int]]);
            }
            let char_width: u64 = measure(single);
            proof {
                assert(measures(*measure, seq![chars@[i as int]], char_width));
            }
            char_widths.push(char_width);
            i += 1;
        }
    }
    MeasuredWord { chars, width, char_widths }
}

fn measure_line<F: Fn(String) -> u64>(line: &Vec<char>, max: u64, measure: &F) -> (r: Vec<
    MeasuredWord,
>)
    requires
        forall|s: String| #[trigger] measure.requires((s,)),
    ensures
        line_measured(*measure, r@, line@, max),
        is_measured(r@, max as int),
{
    let words: Vec<Vec<char>> = split_words(line.as_slice());
    let mut out: Vec<MeasuredWord> = Vec::new();
    let mut i: usize = 0;
    while i < words.len()
        invariant
            i <= words@.len(),
            out@.len() == i,
            texts(words@) == words_of(line@),
            forall|s: String| #[trigger] measure.requires((s,)),
            forall|k: int| 0 <= k < words@.len() ==> (#[trigger] words@[k])@.len() > 0,
            forall|k: int|
                0 <= k < i ==> word_measured(
                    *measure,
                    #[trigger] out@[k],
                    words_of(line@)[k],
                    max,
                ) && out@[k].chars@.len() > 0,
        decreases words@.len() - i,
    {
        proof {
            assert(texts(words@)[i as int] == words@[i as int]@);
        }
        let word: MeasuredWord = measure_word(copy_chars(words[i].as_slice()), max, measure);
        out.push(word);
        i += 1;
    }
    proof {
        assert(texts(words@).len() == words@.len());
    }
    out
}

/// Breaks a text into lines of a given width. Words are kept whole where they
/// fit a line, and empty lines of the text stay.
pub fn wrap_text<F: Fn(String) -> u64>(text: &str, max_width: u64, measure: F) -> (r: Vec<String>)
    requires
        forall|s: String| #[trigger] measure.requires((s,)),
    ensures
        exists|paragraphs: Seq<Vec<MeasuredWord>>, space: u64|
            #[trigger] text_measured(measure, paragraphs, text@, max_width) && #[trigger] measures(
                measure,
                seq![' '],
                space,
            ) && string_texts(r@) == wrapped(paragraphs, space as int, max_width as int),
{
    let mut blank: String = String::new();
    blank.push(' ');
    proof {
        assert(blank@ =~= seq![' ']);
    }
    let space: u64 = measure(blank);
    proof {
        assert(measures(measure, seq![' '], space));
    }
    let lines: Vec<Vec<char>> = split_lines(to_chars(text).as_slice());
    let mut paragraphs: Vec<Vec<MeasuredWord>> = Vec::new();
    let mut i: usize = 0;
    while i < lines.len()
        invariant
            i <= lines@.len(),
            paragraphs@.len() == i,
            texts(lines@) == lines_of(text@),
            forall|s: String| #[trigger] measure.requires((s,)),
            forall|k: int|
                0 <= k < i ==> line_measured(
                    measure,
                    (#[trigger] paragraphs@[k])@,
                    lines_of(text@)[k],
                    max_width,
                ) && is_measured(paragraphs@[k]@, max_width as int),
        decreases lines@.len() - i,
    {
        proof {
            assert(texts(lines@)[i as int] == lines@[i as int]@);
        }
        let line: Vec<MeasuredWord> = measure_line(&lines[i], max_width, &measure);
        paragraphs.push(line);
        i += 1;
    }
    proof {
        assert(texts(lines@).len() == lines@.len());
        assert(text_measured(measure, paragraphs@, text@, max_width));
    }
    let filled: Vec<Vec<char>> = wrap_measured(&paragraphs, space, max_width);
    let mut out: Vec<String> = Vec::new();
    let mut k: usize = 0;
    while k < filled.len()
        invariant
            k <= filled@.len(),
            out@.len() == k,
            forall|j: int| 0 <= j < k ==> (#[trigger] out@[j])@ == filled@[j]@,
        decreases filled@.len() - k,
    {
        out.push(from_chars(filled[k].as_slice()));
        k += 1;
    }
    proof {
        assert(string_texts(out@) =~= texts(filled@));
    }
    out
}

/// The contents of some strings.
pub open spec fn string_texts(list: Seq<String>) -> Seq<Seq<char>> {
    list.map_values(|s: String| s@)
}

} // verus!
