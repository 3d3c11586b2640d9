//! What is drawn: colours, wrapped texts, frames and the cursor.

use crate::context::manager::ManagerModel;
use crate::context::pane::Context;
use crate::context::renderable::{BackgroundState, RenderableContent, WindowColor};
use crate::context::tab::TabModel;
use crate::renderer::frame::{
    any_tab_due, blinked, clamped_interval, frame_damage, is_blinking, is_drawn, is_due,
    is_refreshed, scroll_states, shows_color, tab_drawn, takes_part, unfocused_routes,
    window_color, Renderer,
};
use crate::renderer::palette::{
    indexed_bg_slot, indexed_slot, named_slot, CellStyle, Paint, Palette, StyleFlags,
};
use crate::renderer::tooltip::{elided, is_printable};
use crate::renderer::wrap::{
    empty_filling, line_end, line_measured, lines_of, text_measured, word_end, word_measured,
    words_of, wrapped, FilledLine, Filling, MeasuredWord,
};
use crate::terminal::{
    equal_doubles, AnsiColor, ColorBits, ColorRgb, NamedColor, TerminalDamage,
};
use crate::text::{char_is_control, char_is_whitespace};
use vstd::prelude::*;

verus! {

/// The eight colours have bright forms eight slots further and dim forms behind the
/// palette, and the bright and dim forms lead back; so does the text's colour. All
/// other colours have no such form.
pub proof fn law_bright_and_dim_colors_correspond(name: NamedColor)
    ensures
        name.slot() < 8 ==> name.light().slot() == name.slot() + 8 && name.dim().slot()
            == name.slot() + 259,
        8 <= name.slot() < 16 ==> name.dim().slot() == name.slot() - 8 && name.light() == name,
        259 <= name.slot() < 267 ==> name.light().slot() == name.slot() - 259 && name.dim() == name,
        NamedColor::Foreground.light() == NamedColor::LightForeground,
        NamedColor::Foreground.dim() == NamedColor::DimForeground,
        NamedColor::LightForeground.dim() == NamedColor::Foreground,
        NamedColor::LightForeground.light() == NamedColor::LightForeground,
        NamedColor::DimForeground.light() == NamedColor::Foreground,
        NamedColor::DimForeground.dim() == NamedColor::DimForeground,
        NamedColor::Background.light() == NamedColor::Background,
        NamedColor::Background.dim() == NamedColor::Background,
        NamedColor::Cursor.light() == NamedColor::Cursor,
        NamedColor::Cursor.dim() == NamedColor::Cursor,
{
}

/// Bold text is bright where that is configured, and dim text dim; both at once are
/// neither there, and dim elsewhere.
pub proof fn law_named_text_has_its_intensity(
    name: NamedColor,
    dim: bool,
    bold: bool,
    light_bold: bool,
    light_foreground: bool,
)
    ensures
        ({
            let slot = named_slot(name, dim, bold, light_bold, light_foreground);
            let faint = dim && bold && name == NamedColor::Foreground && !light_foreground;
            &&& !dim && !bold ==> slot == name.slot()
            &&& !dim && bold ==> slot == (if light_bold {
                name.light().slot()
            } else {
                name.slot()
            })
            &&& dim && !bold ==> slot == name.dim().slot()
            &&& faint ==> slot == 268
            &&& dim && bold && !faint && light_bold ==> slot == name.slot()
            &&& dim && bold && !faint && !light_bold ==> slot == name.dim().slot()
        }),
{
}

/// Numbered colours of dim text are dim: a bright one becomes the plain one, and a
/// plain one its dim form. Those of a background that stands for text also become
/// bright with bold text. All other numbers stay.
pub proof fn law_numbered_text_has_its_intensity(
    index: u8,
    dim: bool,
    bold: bool,
    light_bold: bool,
)
    ensures
        !dim ==> indexed_slot(index, dim) == index,
        dim && index < 8 ==> indexed_slot(index, dim) == index + 259,
        dim && 8 <= index < 16 ==> indexed_slot(index, dim) == index - 8,
        index >= 16 ==> indexed_slot(index, dim) == index && indexed_bg_slot(
            index,
            dim,
            bold,
            light_bold,
        ) == index,
        !dim && !bold ==> indexed_bg_slot(index, dim, bold, light_bold) == index,
        dim && bold ==> indexed_bg_slot(index, dim, bold, light_bold) == index,
        !dim && bold && light_bold && index < 8 ==> indexed_bg_slot(index, dim, bold, light_bold)
            == index + 8,
        !dim && bold && (!light_bold || index >= 8) ==> indexed_bg_slot(
            index,
            dim,
            bold,
            light_bold,
        ) == index,
        dim && !bold && light_bold ==> indexed_bg_slot(index, dim, bold, light_bold) == index,
        dim && !bold && !light_bold && index < 8 ==> indexed_bg_slot(index, dim, bold, light_bold)
            == index + 259,
        dim && !bold && !light_bold && 8 <= index < 16 ==> indexed_bg_slot(
            index,
            dim,
            bold,
            light_bold,
        ) == index - 8,
{
}

/// A colour of a slot is the terminal's own where it has set one, and else the
/// configured one.
pub proof fn law_terminal_colors_come_first(
    palette: &Palette,
    slot: int,
    own: Seq<Option<ColorBits>>,
)
    ensures
        own[slot] matches Some(color) ==> palette.in_slot(slot, own) == color,
        own[slot] is None ==> palette.in_slot(slot, own) == palette.colors@[slot],
{
}

/// Text is painted in its own colour: one by its components keeps them, faint where
/// the text is dim; others come from their slot.
pub proof fn law_text_is_painted_in_its_color(
    palette: &Palette,
    rgb: ColorRgb,
    index: u8,
    name: NamedColor,
    flags: StyleFlags,
    own: Seq<Option<ColorBits>>,
)
    ensures
        palette.text_paint(AnsiColor::Spec(rgb), flags, own) == (if flags.dim {
            Paint::FaintRgb(rgb)
        } else {
            Paint::Rgb(rgb)
        }),
        palette.text_paint(AnsiColor::Indexed(index), flags, own) == Paint::Table(
            palette.in_slot(indexed_slot(index, flags.dim), own),
        ),
        palette.text_paint(AnsiColor::Named(name), flags, own) == Paint::Table(
            palette.in_slot(
                named_slot(
                    name,
                    flags.dim,
                    flags.bold,
                    palette.draw_bold_text_with_light_colors,
                    palette.has_light_foreground,
                ),
                own,
            ),
        ),
{
}

/// A background is painted in its own colour, whatever the text's intensity; only
/// where the cell is inverse does that count, since the background is the text's
/// colour then.
pub proof fn law_background_is_painted_in_its_color(
    palette: &Palette,
    style: CellStyle,
    own: Seq<Option<ColorBits>>,
)
    ensures
        !style.flags.inverse ==> (style.bg matches AnsiColor::Spec(rgb)
            ==> palette.background_paint(style, own) == Paint::Rgb(rgb)),
        !style.flags.inverse ==> (style.bg matches AnsiColor::Indexed(index)
            ==> palette.background_paint(style, own) == Paint::Table(
            palette.in_slot(index as int, own),
        )),
        !style.flags.inverse ==> (style.bg matches AnsiColor::Named(name)
            ==> palette.background_paint(style, own) == Paint::Table(
            palette.in_slot(name.slot(), own),
        )),
        style.flags.inverse ==> (style.bg matches AnsiColor::Spec(rgb)
            ==> palette.background_paint(style, own) == (if style.flags.dim {
            Paint::DimRgb(rgb)
        } else {
            Paint::Rgb(rgb)
        })),
        style.flags.inverse ==> (style.bg matches AnsiColor::Named(name)
            ==> palette.background_paint(style, own) == palette.text_paint(
            AnsiColor::Named(name),
            style.flags,
            own,
        )),
        style.flags.inverse ==> (style.bg matches AnsiColor::Indexed(index)
            ==> palette.background_paint(style, own) == Paint::Table(
            palette.in_slot(
                indexed_bg_slot(
                    index,
                    style.flags.dim,
                    style.flags.bold,
                    palette.draw_bold_text_with_light_colors,
                ),
                own,
            ),
        )),
{
}

/// A shortened text is its first characters with an ellipsis behind them.
pub proof fn law_shortened_text_is_a_head_and_an_ellipsis(text: Seq<char>, n: int)
    requires
        0 <= n <= text.len(),
    ensures
        elided(text, n).len() == n + 1,
        elided(text, n).last() == '\u{2026}',
        forall|i: int| 0 <= i < n ==> #[trigger] elided(text, n)[i] == text[i],
        is_printable(text) <==> text.len() > 0 && forall|i: int|
            0 <= i < text.len() ==> !char_is_control(#[trigger] text[i]),
{
}

proof fn lemma_line_end(text: Seq<char>, from: int, end: int)
    requires
        0 <= from <= end <= text.len(),
        end < text.len() ==> text[end] == '\n',
        forall|i: int| from <= i < end ==> #[trigger] text[i] != '\n',
    ensures
        line_end(text, from) == end,
    decreases end - from,
{
    if from < end {
        lemma_line_end(text, from + 1, end);
    }
}

/// A text without line feeds is one line, an empty one none.
pub proof fn law_text_without_feeds_is_one_line(text: Seq<char>)
    requires
        !text.contains('\n'),
    ensures
        text.len() == 0 ==> lines_of(text).len() == 0,
        text.len() > 0 ==> lines_of(text) == seq![text],
{
    if text.len() > 0 {
        assert forall|i: int| 0 <= i < text.len() implies #[trigger] text[i] != '\n' by {
            assert(text.contains(text[i]));
        }
        lemma_line_end(text, 0, text.len() as int);
        assert(text.take(text.len() as int) =~= text);
    }
}

/// A line feed ends a line, with the carriage return before it; what stands behind it
/// makes the other lines.
pub proof fn law_line_feeds_end_lines(line: Seq<char>, rest: Seq<char>)
    requires
        !line.contains('\n'),
    ensures
        line.len() == 0 || line.last() != '\r' ==> lines_of(line.push('\n') + rest) == seq![line]
            + lines_of(rest),
        lines_of(line.push('\r').push('\n') + rest) == seq![line] + lines_of(rest),
{
    assert forall|i: int| 0 <= i < line.len() implies #[trigger] line[i] != '\n' by {
        assert(line.contains(line[i]));
    }
    let plain = line.push('\n') + rest;
    let n = line.len() as int;
    assert(plain[n] == '\n');
    lemma_line_end(plain, 0, n);
    assert(plain.take(n) =~= line);
    assert(plain.skip(n + 1) =~= rest);
    let returned = line.push('\r').push('\n') + rest;
    assert(returned[n] == '\r');
    assert(returned[n + 1] == '\n');
    assert forall|i: int| 0 <= i < n + 1 implies #[trigger] returned[i] != '\n' by {
        if i < n {
            assert(returned[i] == line[i]);
        }
    }
    lemma_line_end(returned, 0, n + 1);
    assert(returned.take(n + 1) =~= line.push('\r'));
    assert(line.push('\r').drop_last() =~= line);
    assert(returned.skip(n + 2) =~= rest);
}

proof fn lemma_word_end(line: Seq<char>, from: int, end: int)
    requires
        0 <= from <= end <= line.len(),
        end < line.len() ==> char_is_whitespace(line[end]),
        forall|i: int| from <= i < end ==> !char_is_whitespace(#[trigger] line[i]),
    ensures
        word_end(line, from) == end,
    decreases end - from,
{
    if from < end {
        lemma_word_end(line, from + 1, end);
    }
}

/// White space stands between words and in none: what it follows is a word, and what
/// stands behind it makes the other words.
pub proof fn law_words_stand_between_white_space(word: Seq<char>, space: char, rest: Seq<char>)
    requires
        char_is_whitespace(space),
        forall|i: int| 0 <= i < word.len() ==> !char_is_whitespace(#[trigger] word[i]),
    ensures
        words_of(seq![space] + rest) == words_of(rest),
        word.len() > 0 ==> words_of(word) == seq![word],
        word.len() > 0 ==> words_of(word.push(space) + rest) == seq![word] + words_of(rest),
        words_of(Seq::empty()).len() == 0,
{
    let led = seq![space] + rest;
    assert(led[0] == space);
    assert(led.skip(1) =~= rest);
    assert(words_of(led) == words_of(rest));
    assert(words_of(Seq::empty()) =~= Seq::<Seq<char>>::empty());
    if word.len() > 0 {
        let n = word.len() as int;
        lemma_word_end(word, 0, n);
        assert(!char_is_whitespace(word[0]));
        assert(word.take(n) =~= word);
        assert(word.skip(n) =~= Seq::<char>::empty());
        assert(words_of(word) =~= seq![word]);
        let all = word.push(space) + rest;
        assert(all[0] == word[0]);
        assert(all[n] == space);
        assert forall|i: int| 0 <= i < n implies !char_is_whitespace(#[trigger] all[i]) by {
            assert(all[i] == word[i]);
        }
        lemma_word_end(all, 0, n);
        assert(all.take(n) =~= word);
        assert(all.skip(n) =~= led);
    }
}

/// The characters of a text but the spaces.
pub open spec fn solid(s: Seq<char>) -> Seq<char> {
    s.filter(|c: char| c != ' ')
}

/// The characters of some lines but the spaces, one line after the other.
pub open spec fn solid_lines(lines: Seq<FilledLine>, n: int) -> Seq<char>
    decreases n,
{
    if n <= 0 {
        Seq::empty()
    } else {
        solid_lines(lines, n - 1) + solid(lines[n - 1].text)
    }
}

/// The characters of some words but the spaces, one word after the other.
pub open spec fn solid_words(words: Seq<MeasuredWord>, n: int) -> Seq<char>
    decreases n,
{
    if n <= 0 {
        Seq::empty()
    } else {
        solid_words(words, n - 1) + solid(words[n - 1].chars@)
    }
}

/// The characters of some paragraphs but the spaces.
pub open spec fn solid_paragraphs(paragraphs: Seq<Vec<MeasuredWord>>, n: int) -> Seq<char>
    decreases n,
{
    if n <= 0 {
        Seq::empty()
    } else {
        solid_paragraphs(paragraphs, n - 1) + solid_words(
            paragraphs[n - 1]@,
            paragraphs[n - 1]@.len() as int,
        )
    }
}

/// What was filled in so far but the spaces.
pub open spec fn solid_filling(filling: Filling) -> Seq<char> {
    solid_lines(filling.lines, filling.lines.len() as int) + solid(filling.line)
}

proof fn lemma_solid_prefix(lines: Seq<FilledLine>, more: FilledLine, n: int)
    requires
        0 <= n <= lines.len(),
    ensures
        solid_lines(lines.push(more), n) == solid_lines(lines, n),
    decreases n,
{
    if n > 0 {
        lemma_solid_prefix(lines, more, n - 1);
    }
}

proof fn lemma_solid_push(s: Seq<char>, c: char)
    ensures
        solid(s.push(c)) == solid(s) + solid(seq![c]),
{
    assert(s.push(c) =~= s + seq![c]);
    Seq::filter_distributes_over_add(s, seq![c], |c: char| c != ' ');
}

proof fn lemma_flushed(filling: Filling)
    ensures
        solid_filling(filling.flushed()) == solid_filling(filling),
{
    reveal(Seq::filter);
    let line = FilledLine { text: filling.line, width: filling.width };
    lemma_solid_prefix(filling.lines, line, filling.lines.len() as int);
    assert(solid(Seq::<char>::empty()) =~= Seq::<char>::empty());
    assert(solid_filling(filling.flushed()) =~= solid_filling(filling));
}

proof fn lemma_with_char(filling: Filling, c: char, width: int, max: int)
    ensures
        solid_filling(filling.with_char(c, width, max)) == solid_filling(filling) + solid(seq![c]),
{
    lemma_flushed(filling);
    let start = if filling.width + width > max && filling.line.len() > 0 {
        filling.flushed()
    } else {
        filling
    };
    lemma_solid_push(start.line, c);
    assert(solid_filling(filling.with_char(c, width, max)) =~= solid_filling(start) + solid(
        seq![c],
    ));
}

proof fn lemma_with_chars(filling: Filling, word: MeasuredWord, max: int, n: int)
    requires
        0 <= n <= word.chars@.len(),
    ensures
        solid_filling(filling.with_chars(word, max, n)) == solid_filling(filling) + solid(
            word.chars@.take(n),
        ),
    decreases n,
{
    reveal(Seq::filter);
    if n > 0 {
        lemma_with_chars(filling, word, max, n - 1);
        let before = filling.with_chars(word, max, n - 1);
        let c = word.chars@[n - 1];
        lemma_with_char(before, c, word.char_widths@[n - 1] as int, max);
        lemma_solid_push(word.chars@.take(n - 1), c);
        assert(word.chars@.take(n) =~= word.chars@.take(n - 1).push(c));
        assert(solid_filling(filling.with_chars(word, max, n)) =~= solid_filling(filling) + solid(
            word.chars@.take(n),
        ));
    } else {
        assert(word.chars@.take(0) =~= Seq::<char>::empty());
        assert(solid(Seq::<char>::empty()) =~= Seq::<char>::empty());
        assert(solid_filling(filling) =~= solid_filling(filling) + Seq::<char>::empty());
    }
}

proof fn lemma_with_word(filling: Filling, word: MeasuredWord, space: int, max: int)
    ensures
        solid_filling(filling.with_word(word, space, max)) == solid_filling(filling) + solid(
            word.chars@,
        ),
{
    reveal(Seq::filter);
    let n = word.chars@.len() as int;
    lemma_flushed(filling);
    assert(word.chars@.take(n) =~= word.chars@);
    assert(solid(Seq::<char>::empty()) =~= Seq::<char>::empty());
    let now = filling.with_word(word, space, max);
    if word.width > max {
        let start = if filling.line.len() > 0 {
            filling.flushed()
        } else {
            filling
        };
        lemma_with_chars(start, word, max, n);
    } else if filling.line.len() == 0 {
        assert(filling.line =~= Seq::<char>::empty());
        assert(solid_filling(now) =~= solid_filling(filling) + solid(word.chars@));
    } else if filling.width + space + word.width <= max {
        lemma_solid_push(filling.line, ' ');
        let blank = seq![' '];
        assert(blank.drop_last() =~= Seq::<char>::empty());
        assert(solid(blank) =~= Seq::<char>::empty());
        Seq::filter_distributes_over_add(
            filling.line.push(' '),
            word.chars@,
            |c: char| c != ' ',
        );
        assert(solid_filling(now) =~= solid_filling(filling) + solid(word.chars@));
    } else {
        let flushed = filling.flushed();
        assert(solid_filling(now) =~= solid_filling(flushed) + solid(word.chars@));
    }
}

proof fn lemma_with_words(
    filling: Filling,
    words: Seq<MeasuredWord>,
    space: int,
    max: int,
    n: int,
)
    requires
        0 <= n <= words.len(),
    ensures
        solid_filling(filling.with_words(words, space, max, n)) == solid_filling(filling)
            + solid_words(words, n),
    decreases n,
{
    if n > 0 {
        lemma_with_words(filling, words, space, max, n - 1);
        lemma_with_word(filling.with_words(words, space, max, n - 1), words[n - 1], space, max);
        assert(solid_filling(filling.with_words(words, space, max, n)) =~= solid_filling(filling)
            + solid_words(words, n));
    } else {
        assert(solid_filling(filling) =~= solid_filling(filling) + Seq::<char>::empty());
    }
}

/// Wrapping loses no character and adds none but spaces: the lines hold what the
/// words held, in its order.
pub proof fn law_wrapping_keeps_every_character(
    paragraphs: Seq<Vec<MeasuredWord>>,
    space: int,
    max: int,
    n: int,
)
    requires
        0 <= n <= paragraphs.len(),
    ensures
        ({
            let filled = empty_filling().with_paragraphs(paragraphs, space, max, n);
            &&& solid_lines(filled.lines, filled.lines.len() as int) == solid_paragraphs(
                paragraphs,
                n,
            )
            &&& filled.line.len() == 0
        }),
    decreases n,
{
    reveal(Seq::filter);
    if n > 0 {
        law_wrapping_keeps_every_character(paragraphs, space, max, n - 1);
        let before = empty_filling().with_paragraphs(paragraphs, space, max, n - 1);
        let words = paragraphs[n - 1]@;
        let now = empty_filling().with_paragraphs(paragraphs, space, max, n);
        assert(before.line =~= Seq::<char>::empty());
        assert(solid(Seq::<char>::empty()) =~= Seq::<char>::empty());
        lemma_flushed(before);
        if words.len() > 0 {
            lemma_with_words(before, words, space, max, words.len() as int);
            let filled = before.with_words(words, space, max, words.len() as int);
            lemma_flushed(filled);
        }
        assert(now.line =~= Seq::<char>::empty());
        assert(solid_filling(now) =~= solid_lines(now.lines, now.lines.len() as int));
        assert(solid_filling(before) =~= solid_lines(before.lines, before.lines.len() as int));
        assert(solid_lines(now.lines, now.lines.len() as int) =~= solid_paragraphs(paragraphs, n));
    }
}

/// Words that fit stay whole: a word goes behind the line with one space where there
/// is room, and else begins the next line. Only a word that fits no line is broken.
pub proof fn law_words_that_fit_stay_whole(
    filling: Filling,
    word: MeasuredWord,
    space: int,
    max: int,
)
    requires
        word.width <= max,
    ensures
        ({
            let now = filling.with_word(word, space, max);
            let room = filling.line.len() > 0 && filling.width + space + word.width <= max;
            &&& filling.line.len() == 0 ==> now.line == word.chars@ && now.lines == filling.lines
                && now.width == word.width
            &&& room ==> now.line == filling.line.push(' ') + word.chars@ && now.lines
                == filling.lines && now.width == filling.width + space + word.width
            &&& filling.line.len() > 0 && !room ==> now.line == word.chars@ && now.width
                == word.width && now.lines.len() == filling.lines.len() + 1 && now.lines.drop_last()
                == filling.lines && now.lines.last().text == filling.line
                && now.lines.last().width == filling.width
        }),
{
    let now = filling.with_word(word, space, max);
    if now.lines.len() > filling.lines.len() {
        assert(now.lines.drop_last() =~= filling.lines);
    }
}

/// Each paragraph begins on its own line, and one without words is an empty line.
pub proof fn law_paragraphs_begin_on_their_own_line(
    filling: Filling,
    words: Seq<MeasuredWord>,
    space: int,
    max: int,
)
    requires
        filling.line.len() == 0,
    ensures
        words.len() == 0 ==> filling.with_paragraph(words, space, max).lines == filling.lines.push(
            FilledLine { text: filling.line, width: filling.width },
        ),
        filling.with_paragraph(words, space, max).line.len() == 0,
{
}

/// There is always a line, and the lines are those that were filled.
pub proof fn law_wrapped_text_has_a_line(
    paragraphs: Seq<Vec<MeasuredWord>>,
    space: int,
    max: int,
)
    ensures
        ({
            let filled = empty_filling().with_paragraphs(
                paragraphs,
                space,
                max,
                paragraphs.len() as int,
            );
            let lines = wrapped(paragraphs, space, max);
            &&& lines.len() > 0
            &&& filled.lines.len() > 0 ==> lines.len() == filled.lines.len() && forall|i: int|
                0 <= i < lines.len() ==> #[trigger] lines[i] == filled.lines[i].text
            &&& filled.lines.len() == 0 ==> lines.len() == 1 && lines[0].len() == 0
        }),
{
}

/// A window shows a colour already where each component is equal.
pub proof fn law_shown_color_is_equal_by_components(shown: Option<WindowColor>, color: WindowColor)
    ensures
        shows_color(shown, color) <==> shown is Some && equal_doubles(shown->0.r, color.r)
            && equal_doubles(shown->0.g, color.g) && equal_doubles(shown->0.b, color.b)
            && equal_doubles(shown->0.a, color.a),
{
}

/// A window has the colour that its terminal gave it, or else the configured one, and
/// always the configured transparency.
pub proof fn law_window_has_its_terminals_color(
    background: Option<BackgroundState>,
    configured: WindowColor,
    alpha: u64,
)
    ensures
        ({
            let shown = window_color(background, configured, alpha);
            &&& shown.a == alpha
            &&& background matches Some(BackgroundState::Custom(color)) ==> shown.r == color.r
                && shown.g == color.g && shown.b == color.b
            &&& !(background matches Some(BackgroundState::Custom(color))) ==> shown.r
                == configured.r && shown.g == configured.g && shown.b == configured.b
        }),
{
}

/// A pane is drawn where it has something new, or all is drawn.
pub proof fn law_panes_are_drawn_when_due(pane: Context, force: bool)
    ensures
        is_due(pane, force) <==> force || pane.renderable_content.pending_update.dirty,
{
}

/// A frame is damaged where its terminal, its last frame or what waits says so; one
/// that is drawn in full in full.
pub proof fn law_frame_is_damaged_where_anything_changed(before: Context, force: bool)
    ensures
        force ==> frame_damage(before, force) == TerminalDamage::Full,
        !force ==> {
            let damage = frame_damage(before, force);
            let waiting = before.renderable_content.pending_update.terminal_damage;
            &&& damage.extent() >= before.renderable_content.frame_damage.extent()
            &&& damage.extent() >= before.terminal@.refreshed().damage.extent()
            &&& waiting matches Some(more) ==> damage.extent() >= more.extent()
            &&& damage == before.renderable_content.frame_damage || damage
                == before.terminal@.refreshed().damage || waiting == Some(damage)
        },
{
}

/// A pane that is drawn shows what its terminal shows: size, scroll offset, history,
/// colours, cursor and selection, and its error. Nothing waits for it any more.
pub proof fn law_drawn_pane_shows_its_terminal(now: Context, before: Context, force: bool)
    requires
        is_refreshed(now, before, force),
    ensures
        ({
            let content = now.renderable_content;
            let terminal = now.terminal@;
            let shown = before.terminal@.refreshed();
            &&& terminal.grid == shown.grid
            &&& terminal.session == shown.session
            &&& terminal.title == shown.title
            &&& terminal.frame == shown.frame
            &&& terminal.damage == TerminalDamage::Noop
            &&& content.term_colors@ == terminal.colors
            &&& content.display_offset == terminal.grid.display_offset
            &&& content.columns == terminal.grid.columns
            &&& content.screen_lines == terminal.grid.lines
            &&& content.history_size == terminal.grid.history
            &&& content.cursor.pos == terminal.grid.cursor
            &&& content.cursor.shape == terminal.cursor_shape
            &&& content.cursor.content_ref == before.renderable_content.cursor.content_ref
            &&& content.blinking_cursor == terminal.blinking_cursor
            &&& content.selection_range == terminal.selection_range
            &&& content.session_error is Some == terminal.shown_error() is Some
            &&& terminal.shown_error() matches Some(words) ==> content.session_error->0@ == words
            &&& content.frame_damage == frame_damage(before, force)
            &&& !content.pending_update.dirty
            &&& content.pending_update.terminal_damage is None
            &&& now.route_id == before.route_id
            &&& now.window_id == before.window_id
            &&& now.dimension == before.dimension
            &&& now.title == before.title
            &&& now.rich_text_id == before.rich_text_id
            &&& content.highlighted_hint == before.renderable_content.highlighted_hint
            &&& content.background == before.renderable_content.background
        }),
{
}

/// A pane that is not due stays as it is; one that is drawn is refreshed first.
pub proof fn law_only_due_panes_are_drawn(
    now: Context,
    before: Context,
    force: bool,
    shown: bool,
    focused: bool,
    interval: u64,
    time: u64,
)
    requires
        is_drawn(now, before, force, shown, focused, interval, time),
    ensures
        !force && !before.renderable_content.pending_update.dirty ==> now == before,
        force || before.renderable_content.pending_update.dirty ==> exists|mid: Context|
            {
                &&& #[trigger] is_refreshed(mid, before, force)
                &&& now.terminal == mid.terminal
                &&& now.route_id == before.route_id
                &&& now.renderable_content == if shown {
                    blinked(mid.renderable_content, focused, interval, time)
                } else {
                    mid.renderable_content
                }
            },
{
}

/// A tab is drawn pane by pane, and stays the same tab.
pub proof fn law_tabs_are_drawn_pane_by_pane(
    now: TabModel,
    before: TabModel,
    force: bool,
    shown: bool,
    focused: bool,
    interval: u64,
    time: u64,
    p: int,
)
    requires
        tab_drawn(now, before, force, shown, focused, interval, time),
        0 <= p < before.panes.len(),
    ensures
        now.id == before.id,
        now.current == before.current,
        now.custom_title == before.custom_title,
        now.custom_color == before.custom_color,
        now.panes.len() == before.panes.len(),
        is_drawn(now.panes[p], before.panes[p], force, shown, focused, interval, time),
{
}

/// A frame is made of the focused tab, and of others that do not hold the focused
/// pane; it is due where a pane of one of these is.
pub proof fn law_frame_is_due_with_a_pane(manager: ManagerModel, t: int, force: bool, n: int)
    requires
        0 <= t < n,
    ensures
        takes_part(manager, manager.current_index),
        takes_part(manager, t) <==> t == manager.current_index || !manager.tabs[t].has_route(
            manager.current_route(),
        ),
        takes_part(manager, t) && (exists|p: int|
            0 <= p < manager.tabs[t].panes.len() && (force || (
            #[trigger] manager.tabs[t].panes[p]).renderable_content.pending_update.dirty))
            ==> any_tab_due(manager, force, n),
{
    if takes_part(manager, t) && (exists|p: int|
        0 <= p < manager.tabs[t].panes.len() && (force || (
        #[trigger] manager.tabs[t].panes[p]).renderable_content.pending_update.dirty)) {
        let p = choose|p: int|
            0 <= p < manager.tabs[t].panes.len() && (force || (
            #[trigger] manager.tabs[t].panes[p]).renderable_content.pending_update.dirty);
        assert(is_due(manager.tabs[t].panes[p], force));
        assert(crate::renderer::frame::tab_due(manager, t, force));
    }
}

/// The cursor blinks in a window with the focus, unless a key was typed within the
/// last second.
pub proof fn law_cursor_rests_while_typing(content: RenderableContent, focused: bool, now: u64)
    ensures
        !focused ==> !is_blinking(content, focused, now),
        focused && content.last_typing is None ==> is_blinking(content, focused, now),
        focused ==> (content.last_typing matches Some(typed) ==> (is_blinking(
            content,
            focused,
            now,
        ) <==> now >= typed + 1000)),
{
}

/// A blinking cursor is visible at first, and changes when the interval has passed
/// since it last did; it is visible while it rests or something is selected.
pub proof fn law_cursor_blinks_by_turns(
    before: RenderableContent,
    focused: bool,
    interval: u64,
    now: u64,
)
    ensures
        ({
            let after = blinked(before, focused, interval, now);
            let blinks = before.selection_range is None && is_blinking(before, focused, now);
            &&& !before.blinking_cursor ==> after == before
            &&& before.blinking_cursor && !blinks ==> after.is_blinking_cursor_visible
                && after.last_blink_toggle is None
            &&& before.blinking_cursor && blinks && before.last_blink_toggle is None
                ==> after.is_blinking_cursor_visible && after.last_blink_toggle == Some(now)
            &&& before.blinking_cursor && blinks ==> (before.last_blink_toggle matches Some(last)
                ==> {
                &&& now >= last + interval ==> after.is_blinking_cursor_visible
                    != before.is_blinking_cursor_visible && after.last_blink_toggle == Some(now)
                &&& now < last + interval && !(now < last && interval == 0) ==> after == before
            })
            &&& after == (RenderableContent {
                is_blinking_cursor_visible: after.is_blinking_cursor_visible,
                last_blink_toggle: after.last_blink_toggle,
                ..before
            })
        }),
        clamped_interval(interval) >= 350,
        clamped_interval(interval) <= 1200,
        350 <= interval <= 1200 ==> clamped_interval(interval) == interval,
        interval < 350 ==> clamped_interval(interval) == 350,
        interval > 1200 ==> clamped_interval(interval) == 1200,
{
}

/// The panes without the focus are all panes of the tab but the one with it, in their
/// order.
pub proof fn law_unfocused_panes_are_the_others(tab: TabModel, n: int)
    requires
        0 <= n <= tab.panes.len(),
        0 <= tab.current,
    ensures
        tab.current >= n ==> unfocused_routes(tab, n).len() == n && forall|p: int|
            0 <= p < n ==> #[trigger] unfocused_routes(tab, n)[p] == tab.panes[p].route_id,
        tab.current < n ==> unfocused_routes(tab, n).len() == n - 1 && (forall|p: int|
            0 <= p < tab.current ==> #[trigger] unfocused_routes(tab, n)[p]
                == tab.panes[p].route_id) && (forall|p: int|
            tab.current <= p < n - 1 ==> #[trigger] unfocused_routes(tab, n)[p] == tab.panes[p
                + 1].route_id),
    decreases n,
{
    if n > 0 {
        law_unfocused_panes_are_the_others(tab, n - 1);
    }
}

/// Each pane has a scrollbar at its place, for what it shows of its history.
pub proof fn law_panes_have_their_scrollbars(tab: TabModel, p: int)
    requires
        0 <= p < tab.panes.len(),
    ensures
        ({
            let bars = scroll_states(tab);
            let content = tab.panes[p].renderable_content;
            &&& bars.len() == tab.panes.len()
            &&& bars[p].rich_text_id == tab.panes[p].rich_text_id
            &&& bars[p].panel_rect == tab.panes[p].layout_rect
            &&& bars[p].display_offset == content.display_offset
            &&& bars[p].history_size == content.history_size
            &&& bars[p].screen_lines == content.screen_lines
        }),
{
}

/// All is drawn when another pane got the focus, and in each frame of a game.
pub proof fn law_all_is_drawn_for_another_pane(renderer: &Renderer, route: usize)
    ensures
        renderer.draws_all(route) <==> renderer.is_game_mode_enabled || renderer.last_active
            is None || renderer.last_active->0 != route,
{
}

/// What is wrapped is what stands in the text: a paragraph for each line, with the
/// words of that line in their order, each as wide as it was measured.
pub proof fn law_measured_words_are_those_of_the_text<F: Fn(String) -> u64>(
    measure: F,
    paragraphs: Seq<Vec<MeasuredWord>>,
    text: Seq<char>,
    max: u64,
    i: int,
    j: int,
)
    requires
        text_measured(measure, paragraphs, text, max),
        0 <= i < paragraphs.len(),
        0 <= j < paragraphs[i]@.len(),
    ensures
        paragraphs.len() == lines_of(text).len(),
        paragraphs[i]@.len() == words_of(lines_of(text)[i]).len(),
        paragraphs[i]@[j].chars@ == words_of(lines_of(text)[i])[j],
        exists|s: String|
            #[trigger] measure.ensures((s,), paragraphs[i]@[j].width) && s@
                == words_of(lines_of(text)[i])[j],
        paragraphs[i]@[j].width > max ==> paragraphs[i]@[j].char_widths@.len()
            == paragraphs[i]@[j].chars@.len(),
{
    assert(line_measured(measure, paragraphs[i]@, lines_of(text)[i], max));
    assert(word_measured(measure, paragraphs[i]@[j], words_of(lines_of(text)[i])[j], max));
}

} // verus!
