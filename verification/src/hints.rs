//! Keyboard hints: finding links and patterns on the screen, labelling them,
//! and selecting one by typing its label.

use crate::context::title::{home_dir, text_of};
use crate::terminal::{Pos, Wide};
use crate::text::{
    begins_with, byte_len, char_is_lowercase, char_is_uppercase, char_lowercase, copy_chars,
    from_chars, is_lowercase, is_uppercase, lowercase, same_chars, same_text, starts_with,
    to_chars, trim_chars, trimmed, utf8_len, utf8_width,
};
use std::rc::Rc;
use vstd::prelude::*;

verus! {

/// What an internal hint action does with the selected text.
#[derive(Clone, Copy, Debug, PartialEq, Eq, Structural)]
pub enum HintInternalAction {
    Copy,
    Paste,
    Select,
    MoveViModeCursor,
    Open,
}

/// A program to run on the selected text.
pub enum HintCommand {
    Simple(String),
    WithArguments { program: String, args: Vec<String> },
}

/// What happens when a hint is selected.
pub enum HintAction {
    Action { action: HintInternalAction },
    Command { command: HintCommand },
}

/// A configured hint.
pub struct Hint {
    pub regex: Option<String>,
    pub hyperlinks: bool,
    pub post_processing: bool,
    pub persist: bool,
    pub action: HintAction,
}

impl Hint {
    /// Whether equal texts share one label: everything but the actions that
    /// depend on where the text stands.
    pub open spec fn shares_by_text(&self) -> bool {
        !(self.action matches HintAction::Action { action } && (action
            == HintInternalAction::Select || action == HintInternalAction::MoveViModeCursor))
    }

    fn share_by_text(&self) -> (r: bool)
        ensures
            r == self.shares_by_text(),
    {
        match &self.action {
            HintAction::Action { action } => match *action {
                HintInternalAction::Select | HintInternalAction::MoveViModeCursor => false,
                _ => true,
            },
            HintAction::Command { .. } => true,
        }
    }
}

/// The hyperlink that a cell belongs to. Cells of one span share the id.
pub struct HintLink {
    pub id: u16,
    pub uri: String,
}

/// What hint search reads of a cell: its characters (the base character and
/// the zero-width ones on it), its width and its link.
pub struct HintCell {
    pub text: Vec<char>,
    pub wide: Wide,
    pub link: Option<HintLink>,
}

impl HintCell {
    /// A cell that only fills the room of a wide glyph.
    pub open spec fn fills_room(&self) -> bool {
        self.wide == Wide::Spacer || self.wide == Wide::LeadingSpacer
    }

    pub fn is_spacer(&self) -> (r: bool)
        ensures
            r == self.fills_room(),
    {
        self.wide == Wide::Spacer || self.wide == Wide::LeadingSpacer
    }

    /// The characters that the cell shows: none for a spacer, a blank for an
    /// empty one.
    pub open spec fn shown(&self) -> Seq<char> {
        if self.fills_room() {
            Seq::empty()
        } else {
            self.text@.map_values(|c: char| shown_char(c))
        }
    }

    /// The id of the hyperlink, if the cell has one.
    pub open spec fn link_id(&self) -> Option<u16> {
        match self.link {
            Some(link) => Some(link.id),
            None => None,
        }
    }

    pub fn hyperlink_id(&self) -> (r: Option<u16>)
        ensures
            r == self.link_id(),
    {
        match &self.link {
            Some(link) => Some(link.id),
            None => None,
        }
    }
}

/// An empty cell is shown as a blank.
pub open spec fn shown_char(c: char) -> char {
    if c == '\0' {
        ' '
    } else {
        c
    }
}

/// The visible part of a terminal.
pub struct HintScreen {
    pub columns: usize,
    pub display_offset: usize,
    pub rows: Vec<Vec<HintCell>>,
}

impl HintScreen {
    /// Every row has the screen's width, and rows and offset fit a line number.
    pub open spec fn well_formed(&self) -> bool {
        &&& self.rows@.len() <= i32::MAX
        &&& self.display_offset <= i32::MAX
        &&& forall|i: int|
            0 <= i < self.rows@.len() ==> (#[trigger] self.rows@[i])@.len() == self.columns
    }

    /// The terminal line of a visible row.
    pub open spec fn line_of(&self, row: int) -> int {
        row - self.display_offset
    }

    fn line(&self, row: usize) -> (r: i32)
        requires
            self.well_formed(),
            row < self.rows@.len(),
        ensures
            r == self.line_of(row as int),
    {
        row as i32 - self.display_offset as i32
    }
}

/// The text of a row of cells.
pub open spec fn row_text(row: Seq<HintCell>) -> Seq<char>
    decreases row.len(),
{
    if row.len() == 0 {
        Seq::empty()
    } else {
        row_text(row.drop_last()) + row.last().shown()
    }
}

/// For each byte of a row's text, the column of the cell that it comes from.
pub open spec fn row_columns(row: Seq<HintCell>) -> Seq<usize>
    decreases row.len(),
{
    if row.len() == 0 {
        Seq::empty()
    } else {
        row_columns(row.drop_last()) + Seq::new(
            byte_len(row.last().shown()),
            |i: int| (row.len() - 1) as usize,
        )
    }
}

/// The column map has one entry for each byte of the text, each a column of
/// the row, and columns never decrease from left to right.
pub proof fn lemma_row_columns(row: Seq<HintCell>)
    requires
        row.len() <= usize::MAX,
    ensures
        row_columns(row).len() == byte_len(row_text(row)),
        forall|i: int| 0 <= i < row_columns(row).len() ==> #[trigger] row_columns(row)[i] < row.len(),
        forall|i: int, j: int|
            0 <= i <= j < row_columns(row).len() ==> #[trigger] row_columns(row)[i]
                <= #[trigger] row_columns(row)[j],
    decreases row.len(),
{
    if row.len() > 0 {
        lemma_row_columns(row.drop_last());
        crate::text::lemma_byte_len_add(row_text(row.drop_last()), row.last().shown());
    }
}

/// The visible text of a row together with the column of each of its bytes.
///
/// Spacer cells are skipped: their placeholder is no visible character, and
/// counting it would shift the columns of everything behind it.
pub fn extract_line_text_with_cols(row: &[HintCell]) -> (r: (String, Vec<usize>))
    ensures
        r.0@ == row_text(row@),
        r.1@ == row_columns(row@),
{
    let mut text: String = String::new();
    let mut cols: Vec<usize> = Vec::new();
    let mut col: usize = 0;
    while col < row.len()
        invariant
            col <= row.len(),
            text@ == row_text(row@.take(col as int)),
            cols@ == row_columns(row@.take(col as int)),
        decreases row.len() - col,
    {
        let cell: &HintCell = &row[col];
        let ghost prefix = row@.take(col as int);
        proof {
            assert(row@.take(col + 1).drop_last() =~= prefix);
            assert(row@.take(col + 1).last() == row@[col as int]);
        }
        if cell.is_spacer() {
            proof {
                assert(row_text(prefix) + cell.shown() =~= row_text(prefix));
                assert(row_columns(row@.take(col + 1)) =~= row_columns(prefix));
            }
        } else {
            let mut k: usize = 0;
            while k < cell.text.len()
                invariant
                    k <= cell.text.len(),
                    col < row.len(),
                    text@ == row_text(prefix) + cell.text@.take(k as int).map_values(
                        |c: char| shown_char(c),
                    ),
                    cols@ == row_columns(prefix) + Seq::new(
                        byte_len(cell.text@.take(k as int).map_values(|c: char| shown_char(c))),
                        |i: int| col,
                    ),
                decreases cell.text.len() - k,
            {
                let raw: char = cell.text[k];
                let c: char = if raw == '\0' {
                    ' '
                } else {
                    raw
                };
                let ghost done = cell.text@.take(k as int).map_values(|c: char| shown_char(c));
                proof {
                    assert(cell.text@.take(k + 1).map_values(|c: char| shown_char(c)) =~= done.push(
                        c,
                    ));
                    crate::text::lemma_byte_len_push(done, c);
                }
                text.push(c);
                proof {
                    assert(text@ =~= row_text(prefix) + done.push(c));
                }
                let width: usize = utf8_len(c);
                let ghost before = cols@;
                let mut n: usize = 0;
                while n < width
                    invariant
                        n <= width,
                        cols@ == before + Seq::new(n as nat, |i: int| col),
                    decreases width - n,
                {
                    cols.push(col);
                    n += 1;
                    proof {
                        assert(cols@ =~= before + Seq::new(n as nat, |i: int| col));
                    }
                }
                proof {
                    assert(cols@ =~= row_columns(prefix) + Seq::new(
                        byte_len(done.push(c)),
                        |i: int| col,
                    ));
                }
                k += 1;
            }
            proof {
                assert(cell.text@.take(cell.text@.len() as int) =~= cell.text@);
                assert(cols@ =~= row_columns(row@.take(col + 1)));
            }
        }
        col += 1;
    }
    proof {
        assert(row@.take(row@.len() as int) =~= row@);
    }
    (text, cols)
}

/// Byte `b` is where some character of `s`, or the end of `s`, begins.
pub open spec fn on_boundary(s: Seq<char>, b: int) -> bool {
    exists|n: int| 0 <= n <= s.len() && #[trigger] byte_len(s.take(n)) == b
}

/// How many characters stand before byte `b`.
pub open spec fn chars_before(s: Seq<char>, b: int) -> int {
    choose|n: int| 0 <= n <= s.len() && #[trigger] byte_len(s.take(n)) == b
}

pub(crate) proof fn lemma_chars_before(s: Seq<char>, n: int)
    requires
        0 <= n <= s.len(),
    ensures
        on_boundary(s, byte_len(s.take(n)) as int),
        chars_before(s, byte_len(s.take(n)) as int) == n,
{
    let b = byte_len(s.take(n)) as int;
    assert(byte_len(s.take(n)) == b);
    let m = chars_before(s, b);
    if m < n {
        crate::text::lemma_byte_len_monotone(s, m, n);
    } else if n < m {
        crate::text::lemma_byte_len_monotone(s, n, m);
    }
}

fn char_index(chars: &[char], byte: usize) -> (r: Option<usize>)
    ensures
        r is Some <==> on_boundary(chars@, byte as int),
        r matches Some(n) ==> n <= chars.len() && n == chars_before(chars@, byte as int)
            && byte_len(chars@.take(n as int)) == byte,
{
    let mut i: usize = 0;
    let mut at: usize = 0;
    proof {
        assert(chars@.take(0).len() == 0);
    }
    while i < chars.len() && at < byte
        invariant
            i <= chars.len(),
            at == byte_len(chars@.take(i as int)),
            at <= byte,
            forall|n: int| 0 <= n < i ==> #[trigger] byte_len(chars@.take(n)) < byte,
        decreases chars.len() - i,
    {
        let width: usize = utf8_len(chars[i]);
        proof {
            assert(chars@.take(i + 1) =~= chars@.take(i as int).push(chars@[i as int]));
            crate::text::lemma_byte_len_push(chars@.take(i as int), chars@[i as int]);
        }
        if width > byte - at {
            proof {
                assert forall|n: int| 0 <= n <= chars@.len() implies #[trigger] byte_len(
                    chars@.take(n),
                ) != byte by {
                    if n > i {
                        crate::text::lemma_byte_len_monotone(chars@, i + 1, n);
                    }
                }
            }
            return None;
        }
        at += width;
        i += 1;
    }
    if at == byte {
        proof {
            lemma_chars_before(chars@, i as int);
        }
        Some(i)
    } else {
        proof {
            assert forall|n: int| 0 <= n <= chars@.len() implies #[trigger] byte_len(
                chars@.take(n),
            ) != byte by {
                if n < i {
                } else {
                    assert(n == i);
                }
            }
        }
        None
    }
}

/// A match in the terms of its contents.
#[verifier::ext_equal]
pub struct FoundMatch {
    pub text: Seq<char>,
    pub start: Pos,
    pub end: Pos,
    pub hint: Rc<Hint>,
}

/// A match found by a hint.
pub struct HintMatch {
    /// The text that was matched.
    pub text: String,
    /// Start position of the match.
    pub start: Pos,
    /// End position of the match.
    pub end: Pos,
    /// The hint configuration that created this match.
    pub hint: Rc<Hint>,
}

impl View for HintMatch {
    type V = FoundMatch;

    open spec fn view(&self) -> FoundMatch {
        FoundMatch { text: self.text@, start: self.start, end: self.end, hint: self.hint }
    }
}

impl HintMatch {
    pub fn duplicate(&self) -> (r: Self)
        ensures
            r == *self,
    {
        HintMatch {
            text: self.text.clone(),
            start: self.start,
            end: self.end,
            hint: self.hint.clone(),
        }
    }
}

/// Where the first closing parenthesis or bracket without a partner stands,
/// looking from `from` with `parens` and `brackets` still open; the end of the
/// text if there is none.
pub open spec fn unbalanced_at(s: Seq<char>, from: int, parens: nat, brackets: nat) -> int
    decreases s.len() - from,
{
    if from >= s.len() {
        s.len() as int
    } else if s[from] == '(' {
        unbalanced_at(s, from + 1, parens + 1, brackets)
    } else if s[from] == '[' {
        unbalanced_at(s, from + 1, parens, brackets + 1)
    } else if s[from] == ')' {
        if parens == 0 {
            from
        } else {
            unbalanced_at(s, from + 1, (parens - 1) as nat, brackets)
        }
    } else if s[from] == ']' {
        if brackets == 0 {
            from
        } else {
            unbalanced_at(s, from + 1, parens, (brackets - 1) as nat)
        }
    } else {
        unbalanced_at(s, from + 1, parens, brackets)
    }
}

/// Characters that end a sentence rather than an address.
pub open spec fn trails_uri(c: char) -> bool {
    c == '.' || c == ',' || c == ':' || c == ';' || c == '?' || c == '!' || c == '(' || c == '['
        || c == '\''
}

/// A text without its trailing sentence characters.
pub open spec fn without_trailing(s: Seq<char>) -> Seq<char>
    decreases s.len(),
{
    if s.len() > 0 && trails_uri(s.last()) {
        without_trailing(s.drop_last())
    } else {
        s
    }
}

/// What remains of an address: the part before an unbalanced closing bracket,
/// without trailing sentence characters.
pub open spec fn processed_uri(uri: Seq<char>) -> Seq<char> {
    without_trailing(uri.take(unbalanced_at(uri, 0, 0, 0)))
}

proof fn lemma_unbalanced_bounds(s: Seq<char>, from: int, parens: nat, brackets: nat)
    requires
        0 <= from <= s.len(),
    ensures
        from <= unbalanced_at(s, from, parens, brackets) <= s.len(),
    decreases s.len() - from,
{
    if from < s.len() {
        if s[from] == '(' {
            lemma_unbalanced_bounds(s, from + 1, parens + 1, brackets);
        } else if s[from] == '[' {
            lemma_unbalanced_bounds(s, from + 1, parens, brackets + 1);
        } else if s[from] == ')' {
            if parens > 0 {
                lemma_unbalanced_bounds(s, from + 1, (parens - 1) as nat, brackets);
            }
        } else if s[from] == ']' {
            if brackets > 0 {
                lemma_unbalanced_bounds(s, from + 1, parens, (brackets - 1) as nat);
            }
        } else {
            lemma_unbalanced_bounds(s, from + 1, parens, brackets);
        }
    }
}

proof fn lemma_without_trailing_prefix(s: Seq<char>)
    ensures
        without_trailing(s).len() <= s.len(),
        without_trailing(s) == s.take(without_trailing(s).len() as int),
    decreases s.len(),
{
    if s.len() > 0 && trails_uri(s.last()) {
        lemma_without_trailing_prefix(s.drop_last());
        let n = without_trailing(s.drop_last()).len() as int;
        assert(s.drop_last().take(n) =~= s.take(n));
    } else {
        assert(s.take(s.len() as int) =~= s);
    }
}

/// Processing an address only ever cuts it short.
pub proof fn law_processed_uri_is_prefix(uri: Seq<char>)
    ensures
        processed_uri(uri).len() <= uri.len(),
        processed_uri(uri) == uri.take(processed_uri(uri).len() as int),
{
    lemma_unbalanced_bounds(uri, 0, 0, 0);
    let cut = uri.take(unbalanced_at(uri, 0, 0, 0));
    lemma_without_trailing_prefix(cut);
    assert(cut.take(without_trailing(cut).len() as int) =~= uri.take(
        without_trailing(cut).len() as int,
    ));
}

proof fn lemma_processed_again(s: Seq<char>, from: int, parens: nat, brackets: nat, n: int)
    requires
        0 <= from <= n <= unbalanced_at(s, from, parens, brackets),
        n <= s.len(),
    ensures
        unbalanced_at(s.take(n), from, parens, brackets) == n,
    decreases n - from,
{
    if from < n {
        let t = s.take(n);
        assert(t[from] == s[from]);
        if s[from] == '(' {
            lemma_processed_again(s, from + 1, parens + 1, brackets, n);
        } else if s[from] == '[' {
            lemma_processed_again(s, from + 1, parens, brackets + 1, n);
        } else if s[from] == ')' {
            lemma_processed_again(s, from + 1, (parens - 1) as nat, brackets, n);
        } else if s[from] == ']' {
            lemma_processed_again(s, from + 1, parens, (brackets - 1) as nat, n);
        } else {
            lemma_processed_again(s, from + 1, parens, brackets, n);
        }
    }
}

proof fn lemma_without_trailing_again(s: Seq<char>)
    ensures
        without_trailing(without_trailing(s)) == without_trailing(s),
    decreases s.len(),
{
    if s.len() > 0 && trails_uri(s.last()) {
        lemma_without_trailing_again(s.drop_last());
    }
}

/// Processing an address twice does nothing that processing it once did not.
pub proof fn law_processed_uri_is_stable(uri: Seq<char>)
    ensures
        processed_uri(processed_uri(uri)) == processed_uri(uri),
{
    lemma_unbalanced_bounds(uri, 0, 0, 0);
    let cut = uri.take(unbalanced_at(uri, 0, 0, 0));
    let out = without_trailing(cut);
    law_processed_uri_is_prefix(uri);
    lemma_without_trailing_prefix(cut);
    lemma_processed_again(uri, 0, 0, 0, out.len() as int);
    assert(out.take(out.len() as int) =~= out);
    lemma_without_trailing_again(cut);
}

fn is_trailing(c: char) -> (r: bool)
    ensures
        r == trails_uri(c),
{
    c == '.' || c == ',' || c == ':' || c == ';' || c == '?' || c == '!' || c == '(' || c == '['
        || c == '\''
}

fn processed_len(chars: &[char]) -> (r: usize)
    ensures
        r <= chars.len(),
        chars@.take(r as int) == processed_uri(chars@),
{
    let mut i: usize = 0;
    let mut parens: usize = 0;
    let mut brackets: usize = 0;
    let ghost cut = unbalanced_at(chars@, 0, 0, 0);
    while i < chars.len()
        invariant_except_break
            i <= chars.len(),
            parens <= i,
            brackets <= i,
            cut == unbalanced_at(chars@, i as int, parens as nat, brackets as nat),
        ensures
            i <= chars.len(),
            i == cut,
        decreases chars.len() - i,
    {
        let c: char = chars[i];
        if c == '(' {
            parens += 1;
        } else if c == '[' {
            brackets += 1;
        } else if c == ')' {
            if parens == 0 {
                break;
            }
            parens -= 1;
        } else if c == ']' {
            if brackets == 0 {
                break;
            }
            brackets -= 1;
        }
        i += 1;
    }
    let mut end: usize = i;
    while end > 0 && is_trailing(chars[end - 1])
        invariant
            end <= i <= chars.len(),
            without_trailing(chars@.take(i as int)) == without_trailing(chars@.take(end as int)),
        decreases end,
    {
        proof {
            assert(chars@.take(end as int).drop_last() =~= chars@.take(end - 1));
        }
        end -= 1;
    }
    end
}

/// The text of an address without what only surrounds it.
pub fn post_process_hyperlink_uri(uri: &str) -> (r: String)
    ensures
        r@ == processed_uri(uri@),
{
    let chars: Vec<char> = to_chars(uri);
    let n: usize = processed_len(chars.as_slice());
    from_chars(vstd::slice::slice_subrange(chars.as_slice(), 0, n))
}

/// What a hint makes of a matched text.
pub open spec fn hint_text(hint: &Hint, text: Seq<char>) -> Seq<char> {
    if hint.post_processing {
        processed_uri(text)
    } else {
        text
    }
}

/// A span of bytes that a text can be cut at.
pub open spec fn cuttable(s: Seq<char>, start: int, end: int) -> bool {
    start <= end && on_boundary(s, start) && on_boundary(s, end)
}

/// The match that a span of bytes of a row stands for, if any.
pub open spec fn span_match(
    row: Seq<HintCell>,
    line: i32,
    start: int,
    end: int,
    hint: Rc<Hint>,
) -> Option<FoundMatch> {
    let s = row_text(row);
    let cols = row_columns(row);
    let text = hint_text(&hint, s.subrange(chars_before(s, start), chars_before(s, end)));
    if start == end || end > cols.len() || text.len() == 0 {
        None
    } else {
        let last = cols[start + byte_len(text) - 1];
        Some(
            FoundMatch {
                text,
                start: Pos { row: line, col: cols[start] },
                end: Pos {
                    row: line,
                    col: if row[last as int].wide == Wide::Wide {
                        (last + 1) as usize
                    } else {
                        last
                    },
                },
                hint,
            },
        )
    }
}

proof fn lemma_span_text(s: Seq<char>, start: int, end: int, text: Seq<char>)
    requires
        cuttable(s, start, end),
        text.len() <= s.subrange(chars_before(s, start), chars_before(s, end)).len(),
        text == s.subrange(chars_before(s, start), chars_before(s, end)).take(text.len() as int),
    ensures
        0 <= chars_before(s, start) <= chars_before(s, end) <= s.len(),
        start + byte_len(text) <= end,
        text.len() <= byte_len(text),
        end <= byte_len(s),
{
    let a = chars_before(s, start);
    let b = chars_before(s, end);
    if b < a {
        crate::text::lemma_byte_len_monotone(s, b, a);
    }
    crate::text::lemma_byte_len_monotone(s, a, a + text.len());
    assert(s.subrange(a, a + text.len()) =~= text);
    crate::text::lemma_byte_len_monotone(s, a + text.len(), b);
    crate::text::lemma_byte_len_bounds(text);
    crate::text::lemma_byte_len_monotone(s, b, s.len() as int);
    assert(s.take(s.len() as int) =~= s);
}

/// The match for the bytes `start..end` of a row's text.
pub fn regex_match(
    row: &[HintCell],
    line: i32,
    line_text: &str,
    byte_to_col: &[usize],
    start: usize,
    end: usize,
    hint: &Rc<Hint>,
) -> (r: Option<HintMatch>)
    requires
        line_text@ == row_text(row@),
        byte_to_col@ == row_columns(row@),
        cuttable(line_text@, start as int, end as int),
    ensures
        r is Some <==> span_match(row@, line, start as int, end as int, *hint) is Some,
        r matches Some(m) ==> Some(m@) == span_match(row@, line, start as int, end as int, *hint),
{
    if start == end || end > byte_to_col.len() {
        return None;
    }
    let chars: Vec<char> = to_chars(line_text);
    let a: Option<usize> = char_index(chars.as_slice(), start);
    let b: Option<usize> = char_index(chars.as_slice(), end);
    match (a, b) {
        (Some(from), Some(to)) => {
            proof {
                if to < from {
                    crate::text::lemma_byte_len_monotone(line_text@, to as int, from as int);
                }
                assert(from <= to);
            }
            let span: &[char] = vstd::slice::slice_subrange(chars.as_slice(), from, to);
            proof {
                law_processed_uri_is_prefix(span@);
                assert(span@.take(span@.len() as int) =~= span@);
            }
            let len: usize = if hint.post_processing {
                processed_len(span)
            } else {
                span.len()
            };
            if len == 0 {
                return None;
            }
            let kept: &[char] = vstd::slice::slice_subrange(span, 0, len);
            proof {
                assert(kept@ == hint_text(hint, span@));
                lemma_span_text(line_text@, start as int, end as int, kept@);
                assert(row.len() <= usize::MAX);
                lemma_row_columns(row@);
            }
            let bytes: usize = bytes_of(kept, end - start);
            let start_col: usize = byte_to_col[start];
            let mut end_col: usize = byte_to_col[start + bytes - 1];
            if row[end_col].wide == Wide::Wide {
                end_col += 1;
            }
            Some(
                HintMatch {
                    text: from_chars(kept),
                    start: Pos::new(line, start_col),
                    end: Pos::new(line, end_col),
                    hint: hint.clone(),
                },
            )
        },
        _ => None,
    }
}

fn bytes_of(chars: &[char], limit: usize) -> (r: usize)
    requires
        byte_len(chars@) <= limit,
    ensures
        r == byte_len(chars@),
{
    let mut i: usize = 0;
    let mut n: usize = 0;
    while i < chars.len()
        invariant
            i <= chars.len(),
            n == byte_len(chars@.take(i as int)),
            byte_len(chars@) <= limit,
        decreases chars.len() - i,
    {
        proof {
            assert(chars@.take(i + 1) =~= chars@.take(i as int).push(chars@[i as int]));
            crate::text::lemma_byte_len_push(chars@.take(i as int), chars@[i as int]);
            crate::text::lemma_byte_len_monotone(chars@, i + 1, chars@.len() as int);
            assert(chars@.take(chars@.len() as int) =~= chars@);
        }
        n += utf8_len(chars[i]);
        i += 1;
    }
    proof {
        assert(chars@.take(chars@.len() as int) =~= chars@);
    }
    n
}

/// The matches of some spans of a row, in the order of the spans. Spans that
/// stand for no match are left out.
pub open spec fn spans_matches(
    row: Seq<HintCell>,
    line: i32,
    spans: Seq<(usize, usize)>,
    hint: Rc<Hint>,
) -> Seq<FoundMatch>
    decreases spans.len(),
{
    if spans.len() == 0 {
        Seq::empty()
    } else {
        let before = spans_matches(row, line, spans.drop_last(), hint);
        let (start, end) = spans.last();
        if cuttable(row_text(row), start as int, end as int) {
            match span_match(row, line, start as int, end as int, hint) {
                Some(found) => before.push(found),
                None => before,
            }
        } else {
            before
        }
    }
}

/// What a list of matches holds.
pub open spec fn contents(matches: Seq<HintMatch>) -> Seq<FoundMatch> {
    matches.map_values(|m: HintMatch| m@)
}

proof fn lemma_contents_push(matches: Seq<HintMatch>, m: HintMatch)
    ensures
        contents(matches.push(m)) == contents(matches).push(m@),
{
    assert(contents(matches.push(m)) =~= contents(matches).push(m@));
}

/// Appends the matches that spans of a row stand for.
pub fn push_span_matches(
    matches: &mut Vec<HintMatch>,
    row: &[HintCell],
    line: i32,
    spans: &[(usize, usize)],
    hint: &Rc<Hint>,
)
    ensures
        contents(final(matches)@) == contents(old(matches)@) + spans_matches(
            row@,
            line,
            spans@,
            *hint,
        ),
{
    let (text, cols) = extract_line_text_with_cols(row);
    let chars: Vec<char> = to_chars(text.as_str());
    let ghost start_matches = contents(matches@);
    let mut i: usize = 0;
    proof {
        assert(start_matches + spans_matches(row@, line, spans@.take(0), *hint) =~= start_matches);
    }
    while i < spans.len()
        invariant
            i <= spans.len(),
            text@ == row_text(row@),
            chars@ == text@,
            cols@ == row_columns(row@),
            contents(matches@) == start_matches + spans_matches(
                row@,
                line,
                spans@.take(i as int),
                *hint,
            ),
        decreases spans.len() - i,
    {
        let (start, end): (usize, usize) = spans[i];
        proof {
            assert(spans@.take(i + 1).drop_last() =~= spans@.take(i as int));
        }
        if start <= end && char_index(chars.as_slice(), start).is_some() && char_index(
            chars.as_slice(),
            end,
        ).is_some() {
            if let Some(found) = regex_match(
                row,
                line,
                text.as_str(),
                cols.as_slice(),
                start,
                end,
                hint,
            ) {
                proof {
                    lemma_contents_push(matches@, found);
                    assert((start_matches + spans_matches(row@, line, spans@.take(i as int), *hint)).push(
                        found@,
                    ) =~= start_matches + spans_matches(row@, line, spans@.take(i + 1), *hint));
                }
                matches.push(found);
            }
        }
        i += 1;
    }
    proof {
        assert(spans@.take(spans@.len() as int) =~= spans@);
    }
}

/// What a search for a pattern in a text finds from a byte on: the first byte of
/// the span and the one behind it, nothing, or the code with which the search
/// gave up. Absent where the pattern is no valid expression.
pub uninterp spec fn searched(pattern: Seq<char>, text: Seq<char>, from: usize) -> Option<
    Result<Option<(usize, usize)>, i32>,
>;

/// `onig::Regex::new` and `onig::Regex::search_with_param`, from a byte to the
/// end of the text: the result depends on the pattern, the text and the byte
/// alone. Which span a pattern matches, and where a search gives up, is left to
/// the expression library. A search starts where a character of the text begins,
/// or at its end.
#[verifier::external_body]
fn search(pattern: &str, text: &str, from: usize) -> (r: Option<
    Result<Option<(usize, usize)>, i32>,
>)
    requires
        on_boundary(text@, from as int),
    ensures
        r == searched(pattern@, text@, from),
{
    let regex = onig::Regex::new(pattern).ok()?;
    let mut region = onig::Region::new();
    let options = onig::SearchOptions::SEARCH_OPTION_NONE;
    let param = onig::MatchParam::default();
    match regex.search_with_param(text, from, text.len(), options, Some(&mut region), param) {
        Ok(Some(_)) => Some(Ok(region.pos(0))),
        Ok(None) => Some(Ok(None)),
        Err(error) => Some(Err(error.code())),
    }
}

/// How a walk over a text goes on behind a span that was found.
#[derive(Clone, Copy, Debug, PartialEq, Eq, Structural)]
pub enum SpanStep {
    /// The span counts; the next search starts at this byte.
    Take(usize),
    /// The span does not count; the next search starts at this byte.
    Skip(usize),
    /// The span does not count, and nothing more is searched for.
    Stop,
}

/// The step behind a span that was searched for from a byte, where the span
/// before it ended at `last`. An empty span that touches the one before it is
/// stepped over by one character. A span that does not end behind the place that
/// it was searched from, and is not empty, would be found for ever.
pub open spec fn span_step(
    text: Seq<char>,
    from: usize,
    last: Option<usize>,
    start: usize,
    end: usize,
) -> SpanStep {
    if start == end && last == Some(end) {
        let n = chars_before(text, from as int);
        if n < text.len() && from + utf8_width(text[n]) <= usize::MAX {
            SpanStep::Skip((from + utf8_width(text[n])) as usize)
        } else {
            SpanStep::Stop
        }
    } else if on_boundary(text, end as int) && (end > from || end == from && start == end) {
        SpanStep::Take(end)
    } else {
        SpanStep::Stop
    }
}

proof fn lemma_next_char(text: Seq<char>, from: int)
    requires
        on_boundary(text, from),
    ensures
        from <= byte_len(text),
        0 <= chars_before(text, from) <= text.len(),
        chars_before(text, from) < text.len() ==> {
            let next = from + utf8_width(text[chars_before(text, from)]);
            &&& next > from
            &&& next <= byte_len(text)
            &&& on_boundary(text, next)
        },
{
    let n = chars_before(text, from);
    assert(text.take(text.len() as int) =~= text);
    crate::text::lemma_byte_len_monotone(text, n, text.len() as int);
    if n < text.len() {
        assert(text.take(n + 1) =~= text.take(n).push(text[n]));
        crate::text::lemma_byte_len_push(text.take(n), text[n]);
        crate::text::lemma_byte_len_monotone(text, n + 1, text.len() as int);
        assert(byte_len(text.take(n + 1)) == from + utf8_width(text[n]));
    }
}

/// Where a walk stands with its searches: each step leaves less of the text, or
/// the same part with the empty span at its start behind it.
pub open spec fn steps_left(text: Seq<char>, from: usize, last: Option<usize>) -> int {
    2 * (byte_len(text) - from) + if last == Some(from) {
        0int
    } else {
        1int
    }
}

/// The spans that a pattern marks in a text from a byte on, from left to right,
/// where the span before them ended at `last`. A search that gives up ends them.
pub open spec fn spans_from(
    pattern: Seq<char>,
    text: Seq<char>,
    from: usize,
    last: Option<usize>,
) -> Seq<(usize, usize)>
    decreases steps_left(text, from, last),
    via spans_grow_fewer
{
    if !on_boundary(text, from as int) {
        Seq::empty()
    } else {
        match searched(pattern, text, from) {
            Some(Ok(Some((start, end)))) => match span_step(text, from, last, start, end) {
                SpanStep::Take(next) => seq![(start, end)] + spans_from(
                    pattern,
                    text,
                    next,
                    Some(end),
                ),
                SpanStep::Skip(next) => spans_from(pattern, text, next, last),
                SpanStep::Stop => Seq::empty(),
            },
            _ => Seq::empty(),
        }
    }
}

#[via_fn]
proof fn spans_grow_fewer(pattern: Seq<char>, text: Seq<char>, from: usize, last: Option<usize>) {
    if on_boundary(text, from as int) {
        lemma_next_char(text, from as int);
        if let Some(Ok(Some((start, end)))) = searched(pattern, text, from) {
            if on_boundary(text, end as int) {
                lemma_next_char(text, end as int);
            }
        }
    }
}

/// The spans of a text that a pattern marks: none where the pattern is not
/// valid.
pub open spec fn marked_spans(pattern: Seq<char>, text: Seq<char>) -> Seq<(usize, usize)> {
    spans_from(pattern, text, 0, None)
}

/// Spans end in a text, behind a byte of it and one behind the other.
spec fn go_forward(spans: Seq<(usize, usize)>, text: Seq<char>, from: usize) -> bool {
    &&& forall|i: int|
        0 <= i < spans.len() ==> from <= (#[trigger] spans[i]).1 && on_boundary(
            text,
            spans[i].1 as int,
        )
    &&& forall|i: int, j: int|
        #![trigger spans[i], spans[j]]
        0 <= i <= j < spans.len() ==> spans[i].1 <= spans[j].1
}

proof fn lemma_spans_go_forward(
    pattern: Seq<char>,
    text: Seq<char>,
    from: usize,
    last: Option<usize>,
)
    ensures
        go_forward(spans_from(pattern, text, from, last), text, from),
    decreases steps_left(text, from, last),
{
    let all = spans_from(pattern, text, from, last);
    if !on_boundary(text, from as int) {
        assert(all == Seq::<(usize, usize)>::empty());
    } else {
        lemma_next_char(text, from as int);
        match searched(pattern, text, from) {
            Some(Ok(Some((start, end)))) => match span_step(text, from, last, start, end) {
                SpanStep::Take(next) => {
                    lemma_next_char(text, next as int);
                    lemma_spans_go_forward(pattern, text, next, Some(end));
                    let rest = spans_from(pattern, text, next, Some(end));
                    assert(all == seq![(start, end)] + rest);
                    assert forall|i: int| 0 <= i < all.len() implies from <= (#[trigger] all[i]).1
                        && on_boundary(text, all[i].1 as int) by {
                        if i > 0 {
                            assert(all[i] == rest[i - 1]);
                        }
                    }
                    assert forall|i: int, j: int|
                        #![trigger all[i], all[j]]
                        0 <= i <= j < all.len() implies all[i].1 <= all[j].1 by {
                        if i > 0 {
                            assert(all[i] == rest[i - 1] && all[j] == rest[j - 1]);
                        } else if j > 0 {
                            assert(all[j] == rest[j - 1]);
                        }
                    }
                },
                SpanStep::Skip(next) => {
                    lemma_spans_go_forward(pattern, text, next, last);
                    assert(all == spans_from(pattern, text, next, last));
                },
                SpanStep::Stop => {
                    assert(all == Seq::<(usize, usize)>::empty());
                },
            },
            _ => {
                assert(all == Seq::<(usize, usize)>::empty());
            },
        }
    }
}

/// The spans that a pattern marks end in the text, and go forward through it,
/// whatever the searches find.
pub proof fn law_marked_spans_go_forward(pattern: Seq<char>, text: Seq<char>, i: int, j: int)
    requires
        0 <= i <= j < marked_spans(pattern, text).len(),
    ensures
        on_boundary(text, marked_spans(pattern, text)[i].1 as int),
        marked_spans(pattern, text)[i].1 <= marked_spans(pattern, text)[j].1,
{
    lemma_spans_go_forward(pattern, text, 0, None);
}

/// Decides how a walk over a text goes on behind a span.
pub fn step_over_span(
    text: &[char],
    from: usize,
    last: Option<usize>,
    start: usize,
    end: usize,
) -> (r: SpanStep)
    requires
        on_boundary(text@, from as int),
    ensures
        r == span_step(text@, from, last, start, end),
{
    let touches: bool = match last {
        Some(last) => last == end,
        None => false,
    };
    if start == end && touches {
        return match char_index(text, from) {
            Some(n) => {
                if n < text.len() {
                    match from.checked_add(utf8_len(text[n])) {
                        Some(next) => SpanStep::Skip(next),
                        None => SpanStep::Stop,
                    }
                } else {
                    SpanStep::Stop
                }
            },
            None => SpanStep::Stop,
        };
    }
    if char_index(text, end).is_some() && (end > from || end == from && start == end) {
        SpanStep::Take(end)
    } else {
        SpanStep::Stop
    }
}

fn mark_spans(pattern: &str, text: &str) -> (r: Vec<(usize, usize)>)
    ensures
        r@ == marked_spans(pattern@, text@),
{
    let chars: Vec<char> = to_chars(text);
    let mut spans: Vec<(usize, usize)> = Vec::new();
    let mut from: usize = 0;
    let mut last: Option<usize> = None;
    proof {
        assert(byte_len(text@.take(0)) == 0);
        assert(spans@ + marked_spans(pattern@, text@) =~= marked_spans(pattern@, text@));
    }
    loop
        invariant
            chars@ == text@,
            on_boundary(text@, from as int),
            spans@ + spans_from(pattern@, text@, from, last) == marked_spans(pattern@, text@),
        decreases steps_left(text@, from, last),
    {
        proof {
            lemma_next_char(text@, from as int);
        }
        let (start, end): (usize, usize) = match search(pattern, text, from) {
            Some(Ok(Some(span))) => span,
            _ => {
                proof {
                    assert(spans@ + Seq::empty() =~= spans@);
                }
                return spans;
            },
        };
        let ghost rest = spans_from(pattern@, text@, from, last);
        match step_over_span(chars.as_slice(), from, last, start, end) {
            SpanStep::Take(next) => {
                proof {
                    lemma_next_char(text@, next as int);
                    assert(spans@ + rest =~= spans@.push((start, end)) + spans_from(
                        pattern@,
                        text@,
                        next,
                        Some(end),
                    ));
                }
                spans.push((start, end));
                from = next;
                last = Some(end);
            },
            SpanStep::Skip(next) => {
                from = next;
            },
            SpanStep::Stop => {
                proof {
                    assert(spans@ + Seq::empty() =~= spans@);
                }
                return spans;
            },
        }
    }
}

/// The matches of a pattern in the first `n` rows of a screen.
pub open spec fn regex_matches(
    screen: &HintScreen,
    pattern: Seq<char>,
    hint: Rc<Hint>,
    n: int,
) -> Seq<FoundMatch>
    decreases n,
{
    if n <= 0 {
        Seq::empty()
    } else {
        let row = screen.rows@[n - 1]@;
        regex_matches(screen, pattern, hint, n - 1) + spans_matches(
            row,
            screen.line_of(n - 1) as i32,
            marked_spans(pattern, row_text(row)),
            hint,
        )
    }
}

/// Where the run of cells of hyperlink `id` that covers `from` ends.
pub open spec fn run_end(row: Seq<HintCell>, from: int, id: u16) -> int
    decreases row.len() - from,
{
    if from < row.len() && row[from].link_id() == Some(id) {
        run_end(row, from + 1, id)
    } else {
        from
    }
}

pub(crate) proof fn lemma_run_end(row: Seq<HintCell>, from: int, id: u16)
    requires
        0 <= from <= row.len(),
    ensures
        from <= run_end(row, from, id) <= row.len(),
        from < row.len() && row[from].link_id() == Some(id) ==> from < run_end(row, from, id),
    decreases row.len() - from,
{
    if from < row.len() && row[from].link_id() == Some(id) {
        lemma_run_end(row, from + 1, id);
    }
}

/// The hyperlinks of a row from column `from` on: one match for each run of
/// cells of the same link whose address is not empty.
pub open spec fn link_matches(row: Seq<HintCell>, line: i32, hint: Rc<Hint>, from: int) -> Seq<
    FoundMatch,
>
    decreases row.len() - from,
{
    if from < 0 || from >= row.len() {
        Seq::empty()
    } else {
        match row[from].link {
            None => link_matches(row, line, hint, from + 1),
            Some(link) => {
                let end = run_end(row, from, link.id);
                let uri = hint_text(&hint, link.uri@);
                if end <= from || end > row.len() {
                    Seq::empty()
                } else if uri.len() == 0 {
                    link_matches(row, line, hint, end)
                } else {
                    seq![
                        FoundMatch {
                            text: uri,
                            start: Pos { row: line, col: from as usize },
                            end: Pos { row: line, col: (end - 1) as usize },
                            hint,
                        },
                    ] + link_matches(row, line, hint, end)
                }
            },
        }
    }
}

/// The hyperlinks in the first `n` rows of a screen.
pub open spec fn screen_link_matches(screen: &HintScreen, hint: Rc<Hint>, n: int) -> Seq<FoundMatch>
    decreases n,
{
    if n <= 0 {
        Seq::empty()
    } else {
        screen_link_matches(screen, hint, n - 1) + link_matches(
            screen.rows@[n - 1]@,
            screen.line_of(n - 1) as i32,
            hint,
            0,
        )
    }
}

/// Everything that a hint finds on a screen: hyperlinks first, so that they
/// win where a pattern matches at the same cell.
pub open spec fn found_on(screen: &HintScreen, hint: Rc<Hint>) -> Seq<FoundMatch> {
    let n = screen.rows@.len() as int;
    (if hint.hyperlinks {
        screen_link_matches(screen, hint, n)
    } else {
        Seq::empty()
    }) + (match hint.regex {
        Some(pattern) => regex_matches(screen, pattern@, hint, n),
        None => Seq::empty(),
    })
}

/// Appends the hyperlinks of one row.
pub fn push_link_matches(
    matches: &mut Vec<HintMatch>,
    row: &[HintCell],
    line: i32,
    hint: &Rc<Hint>,
)
    ensures
        contents(final(matches)@) == contents(old(matches)@) + link_matches(row@, line, *hint, 0),
{
    let ghost goal = contents(matches@) + link_matches(row@, line, *hint, 0);
    let mut col: usize = 0;
    while col < row.len()
        invariant
            col <= row.len(),
            goal == contents(matches@) + link_matches(row@, line, *hint, col as int),
        decreases row.len() - col,
    {
        match &row[col].link {
            None => {
                col += 1;
            },
            Some(link) => {
                let id: u16 = link.id;
                let mut end: usize = col;
                let ghost run = run_end(row@, col as int, id);
                while end < row.len() && row[end].hyperlink_id() == Some(id)
                    invariant
                        col <= end <= row.len(),
                        run == run_end(row@, end as int, id),
                    decreases row.len() - end,
                {
                    end += 1;
                }
                proof {
                    lemma_run_end(row@, col as int, id);
                    assert(end == run);
                }
                let uri: String = if hint.post_processing {
                    post_process_hyperlink_uri(link.uri.as_str())
                } else {
                    link.uri.clone()
                };
                if !uri.as_str().is_empty() {
                    let found: HintMatch = HintMatch {
                        text: uri,
                        start: Pos::new(line, col),
                        end: Pos::new(line, end - 1),
                        hint: hint.clone(),
                    };
                    proof {
                        lemma_contents_push(matches@, found);
                        assert(contents(matches@) + link_matches(row@, line, *hint, col as int)
                            =~= contents(matches@).push(found@) + link_matches(
                            row@,
                            line,
                            *hint,
                            end as int,
                        ));
                    }
                    matches.push(found);
                }
                col = end;
            },
        }
    }
    proof {
        assert(contents(matches@) + Seq::<FoundMatch>::empty() =~= contents(matches@));
    }
}

/// `ordered` lists, in reading order, the first of the matches in `found` for
/// each position that one of them starts at.
pub open spec fn first_at_each_start(found: Seq<FoundMatch>, ordered: Seq<FoundMatch>) -> bool {
    &&& reading_order(ordered)
    &&& forall|k: int| 0 <= k < ordered.len() ==> first_found(found, #[trigger] ordered[k])
    &&& forall|i: int| 0 <= i < found.len() ==> start_listed(ordered, (#[trigger] found[i]).start)
}

/// Each match starts behind the one before it.
pub open spec fn reading_order(ordered: Seq<FoundMatch>) -> bool {
    forall|i: int, j: int|
        0 <= i < j < ordered.len() ==> (#[trigger] ordered[i]).start.precedes(
            (#[trigger] ordered[j]).start,
        )
}

/// No match before the `i`-th one starts where it does.
pub open spec fn first_with_start(found: Seq<FoundMatch>, i: int) -> bool {
    forall|j: int| 0 <= j < i ==> (#[trigger] found[j]).start != found[i].start
}

/// `m` is the first of the matches in `found` with its start.
#[verifier::opaque]
pub open spec fn first_found(found: Seq<FoundMatch>, m: FoundMatch) -> bool {
    exists|i: int| 0 <= i < found.len() && first_with_start(found, i) && #[trigger] found[i] == m
}

/// One of the listed matches starts at `start`.
#[verifier::opaque]
pub open spec fn start_listed(ordered: Seq<FoundMatch>, start: Pos) -> bool {
    exists|k: int| 0 <= k < ordered.len() && (#[trigger] ordered[k]).start == start
}

proof fn lemma_found_index(found: Seq<FoundMatch>, m: FoundMatch) -> (i: int)
    requires
        first_found(found, m),
    ensures
        0 <= i < found.len(),
        first_with_start(found, i),
        found[i] == m,
{
    reveal(first_found);
    choose|i: int| 0 <= i < found.len() && first_with_start(found, i) && #[trigger] found[i] == m
}

proof fn lemma_listed_index(ordered: Seq<FoundMatch>, start: Pos) -> (k: int)
    requires
        start_listed(ordered, start),
    ensures
        0 <= k < ordered.len(),
        ordered[k].start == start,
{
    reveal(start_listed);
    choose|k: int| 0 <= k < ordered.len() && (#[trigger] ordered[k]).start == start
}

proof fn lemma_is_found(found: Seq<FoundMatch>, i: int)
    requires
        0 <= i < found.len(),
        first_with_start(found, i),
    ensures
        first_found(found, found[i]),
{
    reveal(first_found);
}

proof fn lemma_is_listed(ordered: Seq<FoundMatch>, k: int)
    requires
        0 <= k < ordered.len(),
    ensures
        start_listed(ordered, ordered[k].start),
{
    reveal(start_listed);
}

/// There is only one such list.
pub proof fn law_order_is_unique(
    found: Seq<FoundMatch>,
    a: Seq<FoundMatch>,
    b: Seq<FoundMatch>,
)
    requires
        first_at_each_start(found, a),
        first_at_each_start(found, b),
    ensures
        a == b,
{
    lemma_order_covers(found, a, b);
    lemma_order_covers(found, b, a);
    lemma_ordered_same(a, b);
}

proof fn lemma_order_covers(found: Seq<FoundMatch>, a: Seq<FoundMatch>, b: Seq<FoundMatch>)
    requires
        first_at_each_start(found, a),
        first_at_each_start(found, b),
    ensures
        forall|k: int| 0 <= k < a.len() ==> b.contains(#[trigger] a[k]),
{
    assert forall|k: int| 0 <= k < a.len() implies b.contains(#[trigger] a[k]) by {
        let i = lemma_found_index(found, a[k]);
        let m = lemma_listed_index(b, found[i].start);
        let j = lemma_found_index(found, b[m]);
        if i < j {
            assert(found[i].start != found[j].start);
        } else if j < i {
            assert(found[j].start != found[i].start);
        }
        assert(b[m] == a[k]);
    }
}

proof fn lemma_ordered_same(a: Seq<FoundMatch>, b: Seq<FoundMatch>)
    requires
        reading_order(a),
        reading_order(b),
        forall|k: int| 0 <= k < a.len() ==> b.contains(#[trigger] a[k]),
        forall|k: int| 0 <= k < b.len() ==> a.contains(#[trigger] b[k]),
    ensures
        a == b,
    decreases a.len(),
{
    if a.len() == 0 {
        if b.len() > 0 {
            assert(a.contains(b[0]));
        }
        assert(a =~= b);
    } else {
        assert(b.contains(a[0]));
        let la = a.last();
        let lb = b.last();
        assert(b.contains(a[a.len() - 1]));
        assert(a.contains(b[b.len() - 1]));
        let i = choose|i: int| 0 <= i < a.len() && a[i] == lb;
        let j = choose|j: int| 0 <= j < b.len() && b[j] == la;
        if i < a.len() - 1 {
            assert(a[i].start.precedes(a[a.len() - 1].start));
            if j < b.len() - 1 {
                assert(b[j].start.precedes(b[b.len() - 1].start));
            }
            assert(false);
        }
        assert(la == lb);
        let a1 = a.drop_last();
        let b1 = b.drop_last();
        assert forall|k: int| 0 <= k < a1.len() implies b1.contains(#[trigger] a1[k]) by {
            assert(b.contains(a[k]));
            let m = choose|m: int| 0 <= m < b.len() && b[m] == a[k];
            assert(a[k].start.precedes(a[a.len() - 1].start));
            assert(b1[m] == a1[k]);
        }
        assert forall|k: int| 0 <= k < b1.len() implies a1.contains(#[trigger] b1[k]) by {
            assert(a.contains(b[k]));
            let m = choose|m: int| 0 <= m < a.len() && a[m] == b[k];
            assert(b[k].start.precedes(b[b.len() - 1].start));
            assert(a1[m] == b1[k]);
        }
        lemma_ordered_same(a1, b1);
        assert(a =~= a1.push(la));
        assert(b =~= b1.push(lb));
    }
}

/// Matches in reading order, the first one for each start.
pub fn order_matches(found: Vec<HintMatch>) -> (r: Vec<HintMatch>)
    ensures
        first_at_each_start(contents(found@), contents(r@)),
{
    let ghost all = contents(found@);
    let mut out: Vec<HintMatch> = Vec::new();
    let mut n: usize = 0;
    proof {
        assert(all.take(0) =~= Seq::<FoundMatch>::empty());
    }
    while n < found.len()
        invariant
            n <= found.len(),
            all == contents(found@),
            first_at_each_start(all.take(n as int), contents(out@)),
        decreases found.len() - n,
    {
        let m: &HintMatch = &found[n];
        let ghost seen = all.take(n as int);
        let ghost next = all.take(n + 1);
        let ghost cur = contents(out@);
        let mut at: usize = 0;
        while at < out.len() && out[at].start.is_before(&m.start)
            invariant
                at <= out.len(),
                cur == contents(out@),
                forall|k: int| 0 <= k < at ==> (#[trigger] cur[k]).start.precedes(m.start),
            decreases out.len() - at,
        {
            assert(cur[at as int].start == out@[at as int].start);
            at += 1;
        }
        if at < out.len() && out[at].start == m.start {
            proof {
                assert(cur[at as int].start == m.start);
                lemma_order_skip(all, n as int, cur, at as int);
            }
        } else {
            proof {
                if at < out.len() {
                    assert(cur[at as int].start == out@[at as int].start);
                }
                lemma_order_insert(all, n as int, cur, at as int);
                assert(contents(out@.insert(at as int, *m)) =~= cur.insert(at as int, m@));
                assert(all[n as int] == m@);
            }
            out.insert(at, m.duplicate());
        }
        n += 1;
    }
    proof {
        assert(all.take(all.len() as int) =~= all);
    }
    out
}

proof fn lemma_found_extends(all: Seq<FoundMatch>, n: int, m: FoundMatch)
    requires
        0 <= n < all.len(),
        first_found(all.take(n), m),
    ensures
        first_found(all.take(n + 1), m),
{
    let seen = all.take(n);
    let next = all.take(n + 1);
    let i = lemma_found_index(seen, m);
    assert(first_with_start(next, i)) by {
        assert forall|j: int| 0 <= j < i implies (#[trigger] next[j]).start != next[i].start by {
            assert(seen[j].start != seen[i].start);
        }
    }
    lemma_is_found(next, i);
}

pub(crate) proof fn lemma_order_skip(all: Seq<FoundMatch>, n: int, cur: Seq<FoundMatch>, at: int)
    requires
        0 <= n < all.len(),
        0 <= at < cur.len(),
        first_at_each_start(all.take(n), cur),
        cur[at].start == all[n].start,
    ensures
        first_at_each_start(all.take(n + 1), cur),
{
    let seen = all.take(n);
    let next = all.take(n + 1);
    assert forall|k: int| 0 <= k < cur.len() implies first_found(next, #[trigger] cur[k]) by {
        lemma_found_extends(all, n, cur[k]);
    }
    assert forall|i: int| 0 <= i < next.len() implies start_listed(
        cur,
        (#[trigger] next[i]).start,
    ) by {
        if i < n {
            assert(start_listed(cur, seen[i].start));
        } else {
            lemma_is_listed(cur, at);
        }
    }
}

pub(crate) proof fn lemma_order_insert(all: Seq<FoundMatch>, n: int, cur: Seq<FoundMatch>, at: int)
    requires
        0 <= n < all.len(),
        0 <= at <= cur.len(),
        first_at_each_start(all.take(n), cur),
        forall|k: int| 0 <= k < at ==> (#[trigger] cur[k]).start.precedes(all[n].start),
        at < cur.len() ==> !cur[at].start.precedes(all[n].start) && cur[at].start != all[n].start,
    ensures
        first_at_each_start(all.take(n + 1), cur.insert(at, all[n])),
{
    let seen = all.take(n);
    let next = all.take(n + 1);
    let m = all[n];
    let out = cur.insert(at, m);
    assert forall|k: int| at <= k < cur.len() implies m.start.precedes(
        (#[trigger] cur[k]).start,
    ) by {
        if k > at {
            assert(cur[at].start.precedes(cur[k].start));
        }
    }
    assert(reading_order(out)) by {
        assert forall|i: int, j: int| 0 <= i < j < out.len() implies (
        #[trigger] out[i]).start.precedes((#[trigger] out[j]).start) by {
            let si = if i < at { i } else { i - 1 };
            let sj = if j < at { j } else { j - 1 };
            if i == at {
                assert(out[j] == cur[sj]);
            } else if j == at {
                assert(out[i] == cur[si]);
            } else {
                assert(out[i] == cur[si] && out[j] == cur[sj]);
            }
        }
    }
    assert(first_with_start(next, n)) by {
        assert forall|j: int| 0 <= j < n implies (#[trigger] next[j]).start != next[n].start by {
            assert(start_listed(cur, seen[j].start));
            let k = lemma_listed_index(cur, seen[j].start);
            if k < at {
                assert(cur[k].start.precedes(m.start));
            } else {
                assert(m.start.precedes(cur[k].start));
            }
        }
    }
    assert forall|k: int| 0 <= k < out.len() implies first_found(next, #[trigger] out[k]) by {
        if k == at {
            lemma_is_found(next, n);
        } else {
            let c = if k < at { k } else { k - 1 };
            assert(out[k] == cur[c]);
            lemma_found_extends(all, n, cur[c]);
        }
    }
    assert forall|i: int| 0 <= i < next.len() implies start_listed(
        out,
        (#[trigger] next[i]).start,
    ) by {
        if i < n {
            assert(start_listed(cur, seen[i].start));
            let k = lemma_listed_index(cur, seen[i].start);
            let o = if k < at { k } else { k + 1 };
            assert(out[o] == cur[k]);
            lemma_is_listed(out, o);
        } else {
            lemma_is_listed(out, at);
        }
    }
}

/// `p` is the beginning of `l`.
pub open spec fn is_prefix(p: Seq<char>, l: Seq<char>) -> bool {
    p.len() <= l.len() && l.take(p.len() as int) == p
}

/// No label is the beginning of another one.
pub open spec fn prefix_free(labels: Seq<Seq<char>>) -> bool {
    forall|i: int, j: int|
        0 <= i < labels.len() && 0 <= j < labels.len() && i != j ==> !is_prefix(
            #[trigger] labels[i],
            #[trigger] labels[j],
        )
}

/// Each character of the alphabet as a label of its own.
pub open spec fn single_labels(alphabet: Seq<char>) -> Seq<Seq<char>> {
    Seq::new(alphabet.len(), |i: int| seq![alphabet[i]])
}

/// A label continued by each character of the alphabet.
pub open spec fn continued(alphabet: Seq<char>, label: Seq<char>) -> Seq<Seq<char>> {
    Seq::new(alphabet.len(), |i: int| label.push(alphabet[i]))
}

/// How many labels there are still to make.
pub open spec fn missing(have: nat, count: int) -> nat {
    if have >= count {
        0
    } else {
        (count - have) as nat
    }
}

/// A queue of labels, its front replaced by that label's continuations until
/// there are `count` labels.
pub open spec fn grown(alphabet: Seq<char>, labels: Seq<Seq<char>>, count: int) -> Seq<Seq<char>>
    decreases missing(labels.len(), count),
{
    if labels.len() >= count || alphabet.len() < 2 || labels.len() == 0 {
        labels
    } else {
        grown(alphabet, labels.skip(1) + continued(alphabet, labels[0]), count)
    }
}

/// The labels for `count` matches.
pub open spec fn labels_for(alphabet: Seq<char>, count: int) -> Seq<Seq<char>> {
    grown(alphabet, single_labels(alphabet), count).take(count)
}

/// No two characters of the alphabet differ in case only.
pub open spec fn distinct_ignoring_case(alphabet: Seq<char>) -> bool {
    forall|i: int, j: int|
        0 <= i < j < alphabet.len() ==> char_lowercase(#[trigger] alphabet[i]) != char_lowercase(
            #[trigger] alphabet[j],
        )
}

/// The alphabet yields `count` labels.
pub open spec fn alphabet_suffices(alphabet: Seq<char>, count: int) -> bool {
    distinct_ignoring_case(alphabet) && alphabet.len() > 0 && (alphabet.len() == 1 ==> count <= 1)
}

proof fn lemma_grow_step(alphabet: Seq<char>, labels: Seq<Seq<char>>)
    requires
        distinct_ignoring_case(alphabet),
        prefix_free(labels),
        labels.len() > 0,
    ensures
        prefix_free(labels.skip(1) + continued(alphabet, labels[0])),
{
    let p = labels[0];
    let rest = labels.skip(1);
    let next = rest + continued(alphabet, p);
    assert forall|i: int, j: int|
        0 <= i < next.len() && 0 <= j < next.len() && i != j implies !is_prefix(
        #[trigger] next[i],
        #[trigger] next[j],
    ) by {
        let n = rest.len() as int;
        let a = next[i];
        let b = next[j];
        if i < n && j < n {
            assert(a == labels[i + 1] && b == labels[j + 1]);
        } else if i < n {
            assert(a == labels[i + 1] && b == p.push(alphabet[j - n]));
            if is_prefix(a, b) {
                if a.len() <= p.len() {
                    assert(p.take(a.len() as int) =~= b.take(a.len() as int));
                    assert(is_prefix(labels[i + 1], labels[0]));
                } else {
                    assert(a.take(p.len() as int) =~= b.take(p.len() as int));
                    assert(b.take(p.len() as int) =~= p);
                    assert(is_prefix(labels[0], labels[i + 1]));
                }
            }
        } else if j < n {
            assert(b == labels[j + 1] && a == p.push(alphabet[i - n]));
            if is_prefix(a, b) {
                assert(b.take(p.len() as int) =~= a.take(p.len() as int));
                assert(a.take(p.len() as int) =~= p);
                assert(is_prefix(labels[0], labels[j + 1]));
            }
        } else {
            assert(a == p.push(alphabet[i - n]) && b == p.push(alphabet[j - n]));
            if is_prefix(a, b) {
                assert(b.take(a.len() as int) =~= b);
                assert(a[p.len() as int] == alphabet[i - n]);
                assert(b[p.len() as int] == alphabet[j - n]);
                if i < j {
                    assert(char_lowercase(alphabet[i - n]) != char_lowercase(alphabet[j - n]));
                } else {
                    assert(char_lowercase(alphabet[j - n]) != char_lowercase(alphabet[i - n]));
                }
            }
        }
    }
}

proof fn lemma_grown(alphabet: Seq<char>, labels: Seq<Seq<char>>, count: int)
    requires
        distinct_ignoring_case(alphabet),
        prefix_free(labels),
        labels.len() > 0,
        alphabet.len() >= 2 || count <= labels.len(),
        forall|i: int| 0 <= i < labels.len() ==> (#[trigger] labels[i]).len() > 0,
    ensures
        prefix_free(grown(alphabet, labels, count)),
        grown(alphabet, labels, count).len() >= count,
        forall|i: int|
            0 <= i < grown(alphabet, labels, count).len() ==> (#[trigger] grown(
                alphabet,
                labels,
                count,
            )[i]).len() > 0,
    decreases missing(labels.len(), count),
{
    if labels.len() < count {
        lemma_grow_step(alphabet, labels);
        lemma_grown(alphabet, labels.skip(1) + continued(alphabet, labels[0]), count);
    }
}

/// The labels of a hint are as many as asked for, none is empty, and none is
/// the beginning of another one: what is typed never leaves two readings.
pub proof fn law_labels_are_prefix_free(alphabet: Seq<char>, count: int)
    requires
        alphabet_suffices(alphabet, count),
        count >= 0,
    ensures
        labels_for(alphabet, count).len() == count,
        prefix_free(labels_for(alphabet, count)),
        labels_for(alphabet, count).no_duplicates(),
        forall|i: int| 0 <= i < count ==> (#[trigger] labels_for(alphabet, count)[i]).len() > 0,
{
    let singles = single_labels(alphabet);
    assert(prefix_free(singles)) by {
        assert forall|i: int, j: int|
            0 <= i < singles.len() && 0 <= j < singles.len() && i != j implies !is_prefix(
            #[trigger] singles[i],
            #[trigger] singles[j],
        ) by {
            if is_prefix(singles[i], singles[j]) {
                assert(singles[j].take(1)[0] == alphabet[j]);
                assert(alphabet[i] == alphabet[j]);
                if i < j {
                    assert(char_lowercase(alphabet[i]) != char_lowercase(alphabet[j]));
                } else {
                    assert(char_lowercase(alphabet[j]) != char_lowercase(alphabet[i]));
                }
            }
        }
    }
    lemma_grown(alphabet, singles, count);
    let all = grown(alphabet, singles, count);
    let labels = labels_for(alphabet, count);
    assert forall|i: int, j: int|
        0 <= i < labels.len() && 0 <= j < labels.len() && i != j implies labels[i]
        != labels[j] by {
        if labels[i] == labels[j] {
            assert(all[j].take(all[i].len() as int) =~= all[i]);
            assert(is_prefix(all[i], all[j]));
        }
    }
    assert forall|i: int, j: int|
        0 <= i < labels.len() && 0 <= j < labels.len() && i != j implies !is_prefix(
        #[trigger] labels[i],
        #[trigger] labels[j],
    ) by {
        assert(!is_prefix(all[i], all[j]));
    }
}

/// What a list of labels holds.
pub open spec fn label_texts(labels: Seq<Vec<char>>) -> Seq<Seq<char>> {
    labels.map_values(|l: Vec<char>| l@)
}

proof fn lemma_label_texts_push(labels: Seq<Vec<char>>, label: Vec<char>)
    ensures
        label_texts(labels.push(label)) == label_texts(labels).push(label@),
{
    assert(label_texts(labels.push(label)) =~= label_texts(labels).push(label@));
}

fn continue_label(label: &Vec<char>, c: char) -> (r: Vec<char>)
    ensures
        r@ == label@.push(c),
{
    let mut out: Vec<char> = copy_chars(label.as_slice());
    out.push(c);
    out
}

fn has_case_duplicate(alphabet: &[char]) -> (r: bool)
    ensures
        r == !distinct_ignoring_case(alphabet@),
{
    let mut j: usize = 0;
    while j < alphabet.len()
        invariant
            j <= alphabet.len(),
            forall|a: int, b: int|
                0 <= a < b < j ==> char_lowercase(#[trigger] alphabet@[a]) != char_lowercase(
                    #[trigger] alphabet@[b],
                ),
        decreases alphabet.len() - j,
    {
        let folded: Vec<char> = lowercase(alphabet[j]);
        let mut i: usize = 0;
        while i < j
            invariant
                i <= j < alphabet.len(),
                folded@ == char_lowercase(alphabet@[j as int]),
                forall|a: int|
                    0 <= a < i ==> char_lowercase(#[trigger] alphabet@[a]) != char_lowercase(
                        alphabet@[j as int],
                    ),
            decreases j - i,
        {
            if same_chars(lowercase(alphabet[i]).as_slice(), folded.as_slice()) {
                proof {
                    assert(char_lowercase(alphabet@[i as int]) == char_lowercase(
                        alphabet@[j as int],
                    ));
                }
                return true;
            }
            i += 1;
        }
        j += 1;
    }
    false
}

/// Labels for `count` matches, or none where the alphabet repeats a character
/// (in either case) or cannot make that many.
pub fn hint_labels(alphabet: &str, count: usize) -> (r: Option<Vec<Vec<char>>>)
    ensures
        r is Some <==> alphabet_suffices(alphabet@, count as int),
        r matches Some(labels) ==> label_texts(labels@) == labels_for(alphabet@, count as int),
{
    let letters: Vec<char> = to_chars(alphabet);
    if has_case_duplicate(letters.as_slice()) {
        return None;
    }
    if letters.len() == 0 || (letters.len() == 1 && count > 1) {
        return None;
    }
    let mut labels: std::collections::VecDeque<Vec<char>> = std::collections::VecDeque::new();
    let mut i: usize = 0;
    while i < letters.len()
        invariant
            i <= letters.len(),
            letters@ == alphabet@,
            label_texts(labels@) == single_labels(alphabet@).take(i as int),
        decreases letters.len() - i,
    {
        let mut label: Vec<char> = Vec::new();
        label.push(letters[i]);
        proof {
            assert(label@ =~= seq![alphabet@[i as int]]);
            lemma_label_texts_push(labels@, label);
                assert(label_texts(labels@.push(label)) =~= single_labels(alphabet@).take(i + 1));
        }
        labels.push_back(label);
        i += 1;
    }
    proof {
        assert(single_labels(alphabet@).take(alphabet@.len() as int) =~= single_labels(alphabet@));
    }
    let ghost goal = grown(alphabet@, single_labels(alphabet@), count as int);
    while labels.len() < count
        invariant
            letters@ == alphabet@,
            labels@.len() > 0,
            letters.len() >= 2 || count <= labels@.len(),
            goal == grown(alphabet@, label_texts(labels@), count as int),
        decreases missing(labels@.len(), count as int),
    {
        let ghost before = label_texts(labels@);
        match labels.pop_front() {
            Some(parent) => {
                proof {
                    assert(parent@ == before[0]);
                    assert(label_texts(labels@) =~= before.skip(1));
                }
                let ghost len = labels@.len();
                let mut k: usize = 0;
                while k < letters.len()
                    invariant
                        k <= letters.len(),
                        letters@ == alphabet@,
                        label_texts(labels@) == before.skip(1) + continued(alphabet@, parent@).take(
                            k as int,
                        ),
                        labels@.len() == len + k,
                    decreases letters.len() - k,
                {
                    let child: Vec<char> = continue_label(&parent, letters[k]);
                    proof {
                        lemma_label_texts_push(labels@, child);
                assert(label_texts(labels@.push(child)) =~= before.skip(1) + continued(
                            alphabet@,
                            parent@,
                        ).take(k + 1));
                    }
                    labels.push_back(child);
                    k += 1;
                }
                proof {
                    assert(continued(alphabet@, parent@).take(alphabet@.len() as int) =~= continued(
                        alphabet@,
                        parent@,
                    ));
                }
            },
            None => {
                return None;
            },
        }
    }
    let mut out: Vec<Vec<char>> = Vec::new();
    let ghost all = label_texts(labels@);
    let ghost full = labels@;
    let mut n: usize = 0;
    while n < count
        invariant
            n <= count <= full.len(),
            labels@ == full.skip(n as int),
            all == label_texts(full),
            label_texts(out@) == all.take(n as int),
        decreases count - n,
    {
        match labels.pop_front() {
            Some(label) => {
                proof {
                    assert(label == full[n as int]);
                    lemma_label_texts_push(out@, label);
                assert(label_texts(out@.push(label)) =~= all.take(n + 1));
                    assert(full.skip(n as int).subrange(1, full.skip(n as int).len() as int)
                        =~= full.skip(n + 1));
                }
                out.push(label);
            },
            None => {},
        }
        n += 1;
    }
    Some(out)
}

/// Typing `input` where the label has the lower-case `label`: its capital.
pub open spec fn uppercase_variant(label: char, input: char) -> bool {
    char_is_uppercase(input) && char_lowercase(input) == seq![label]
}

/// Typing `input` is accepted for `label`.
pub open spec fn key_fits(label: char, input: char) -> bool {
    label == input || uppercase_variant(label, input)
}

pub fn is_uppercase_variant(label: char, input: char) -> (r: bool)
    ensures
        r == uppercase_variant(label, input),
{
    let lower: Vec<char> = lowercase(input);
    let single: bool = lower.len() == 1 && lower[0] == label;
    proof {
        if single {
            assert(lower@ =~= seq![label]);
        }
    }
    is_uppercase(input) && single
}

pub fn key_matches(label: char, input: char) -> (r: bool)
    ensures
        r == key_fits(label, input),
{
    label == input || is_uppercase_variant(label, input)
}

/// The keys typed so far fit the beginning of the label.
pub open spec fn label_fits(label: Seq<char>, keys: Seq<char>) -> bool {
    label.len() >= keys.len() && forall|k: int|
        0 <= k < keys.len() ==> key_fits(#[trigger] label[k], keys[k])
}

fn label_matches(label: &[char], keys: &[char]) -> (r: bool)
    ensures
        r == label_fits(label@, keys@),
{
    if label.len() < keys.len() {
        return false;
    }
    let mut k: usize = 0;
    while k < keys.len()
        invariant
            k <= keys.len() <= label.len(),
            forall|j: int| 0 <= j < k ==> key_fits(#[trigger] label@[j], keys@[j]),
        decreases keys.len() - k,
    {
        if !key_matches(label[k], keys[k]) {
            assert(!key_fits(label@[k as int], keys@[k as int]));
            return false;
        }
        k += 1;
    }
    true
}

/// The labels among the first `n` that the typed keys fit, each with its
/// position and what is left to type.
pub open spec fn fitting_labels(labels: Seq<Seq<char>>, keys: Seq<char>, n: int) -> Seq<
    (int, Seq<char>),
>
    decreases n,
{
    if n <= 0 {
        Seq::empty()
    } else {
        let before = fitting_labels(labels, keys, n - 1);
        if label_fits(labels[n - 1], keys) {
            before.push((n - 1, labels[n - 1].skip(keys.len() as int)))
        } else {
            before
        }
    }
}

/// The next key `c` continues the label.
pub open spec fn continues(label: Seq<char>, keys: Seq<char>, c: char) -> bool {
    label_fits(label, keys) && label.len() > keys.len() && key_fits(label[keys.len() as int], c)
}

/// The last of the first `n` labels that `c` continues.
pub open spec fn last_continued(
    labels: Seq<Seq<char>>,
    keys: Seq<char>,
    c: char,
    n: int,
) -> Option<int>
    decreases n,
{
    if n <= 0 {
        None
    } else if continues(labels[n - 1], keys, c) {
        Some(n - 1)
    } else {
        last_continued(labels, keys, c, n - 1)
    }
}

/// Every lower-case character of the label, and at least one, was typed as its
/// capital.
pub open spec fn typed_in_capitals(label: Seq<char>, typed: Seq<char>) -> bool {
    &&& forall|k: int|
        0 <= k < label.len() && k < typed.len() && char_is_lowercase(#[trigger] label[k])
            ==> uppercase_variant(label[k], typed[k])
    &&& exists|k: int| 0 <= k < label.len() && char_is_lowercase(#[trigger] label[k])
}

fn in_capitals(label: &[char], typed: &[char]) -> (r: bool)
    requires
        label.len() == typed.len(),
    ensures
        r == typed_in_capitals(label@, typed@),
{
    let mut any: bool = false;
    let mut k: usize = 0;
    while k < label.len()
        invariant
            k <= label.len(),
            label.len() == typed.len(),
            any == exists|j: int| 0 <= j < k && char_is_lowercase(#[trigger] label@[j]),
            forall|j: int|
                0 <= j < k && char_is_lowercase(#[trigger] label@[j]) ==> uppercase_variant(
                    label@[j],
                    typed@[j],
                ),
        decreases label.len() - k,
    {
        if is_lowercase(label[k]) {
            if !is_uppercase_variant(label[k], typed[k]) {
                assert(char_is_lowercase(label@[k as int]));
                return false;
            }
            assert(char_is_lowercase(label@[k as int]));
            any = true;
        }
        k += 1;
    }
    any
}

/// The distinct texts, in the order in which they first occur.
pub open spec fn distinct_texts(texts: Seq<Seq<char>>) -> Seq<Seq<char>>
    decreases texts.len(),
{
    if texts.len() == 0 {
        Seq::empty()
    } else {
        let before = distinct_texts(texts.drop_last());
        if before.contains(texts.last()) {
            before
        } else {
            before.push(texts.last())
        }
    }
}

proof fn lemma_distinct_texts(texts: Seq<Seq<char>>)
    ensures
        distinct_texts(texts).no_duplicates(),
        distinct_texts(texts).len() <= texts.len(),
        forall|i: int| 0 <= i < texts.len() ==> distinct_texts(texts).contains(#[trigger] texts[i]),
        texts.len() > 0 ==> distinct_texts(texts).len() > 0,
    decreases texts.len(),
{
    if texts.len() > 0 {
        let init = texts.drop_last();
        let before = distinct_texts(init);
        lemma_distinct_texts(init);
        let all = distinct_texts(texts);
        assert forall|i: int| 0 <= i < texts.len() implies all.contains(#[trigger] texts[i]) by {
            if i < init.len() {
                assert(before.contains(init[i]));
                let k = choose|k: int| 0 <= k < before.len() && before[k] == init[i];
                assert(all[k] == texts[i]);
            } else if before.contains(texts.last()) {
            } else {
                assert(all[before.len() as int] == texts.last());
            }
        }
        assert(all.no_duplicates()) by {
            assert forall|i: int, j: int|
                0 <= i < all.len() && 0 <= j < all.len() && i != j implies all[i] != all[j] by {
                if !before.contains(texts.last()) {
                    if i == before.len() {
                        assert(before.contains(before[j]));
                    } else if j == before.len() {
                        assert(before.contains(before[i]));
                    }
                }
            }
        }
        assert(all.contains(texts[0]));
    }
}

/// The state of hint selection in terms of its contents.
#[verifier::ext_equal]
pub struct HintModel {
    pub active: Option<Rc<Hint>>,
    pub matches: Seq<FoundMatch>,
    pub labels: Seq<Seq<char>>,
    pub keys: Seq<char>,
    pub alphabet: Seq<char>,
}

impl HintModel {
    /// Hint mode left: only the alphabet stays.
    pub open spec fn stopped(self) -> HintModel {
        HintModel {
            active: None,
            matches: Seq::empty(),
            labels: Seq::empty(),
            keys: Seq::empty(),
            alphabet: self.alphabet,
        }
    }

    /// The texts of the matches.
    pub open spec fn texts(self) -> Seq<Seq<char>> {
        self.matches.map_values(|m: FoundMatch| m.text)
    }

    /// How many labels the matches need under `hint`.
    pub open spec fn label_count(self, hint: &Hint) -> int {
        if hint.shares_by_text() {
            distinct_texts(self.texts()).len() as int
        } else {
            self.matches.len() as int
        }
    }

    /// Which label the `i`-th match gets under `hint`.
    pub open spec fn label_index(self, hint: &Hint, i: int) -> int {
        if hint.shares_by_text() {
            distinct_texts(self.texts()).index_of(self.texts()[i])
        } else {
            i
        }
    }

    /// Every match labelled, or hint mode left where the alphabet does not suffice.
    pub open spec fn labelled(self, hint: &Hint) -> HintModel {
        let count = self.label_count(hint);
        if alphabet_suffices(self.alphabet, count) {
            HintModel {
                labels: Seq::new(
                    self.matches.len(),
                    |i: int| labels_for(self.alphabet, count)[self.label_index(hint, i)],
                ),
                ..self
            }
        } else {
            self.stopped()
        }
    }

    /// Matches searched anew on a screen and labelled.
    pub open spec fn rebuilt(self, screen: &HintScreen) -> HintModel {
        match self.active {
            None => HintModel { matches: Seq::empty(), ..self },
            Some(hint) => {
                let found = found_on(screen, hint);
                if found.len() == 0 {
                    HintModel { matches: Seq::empty(), labels: Seq::empty(), ..self }
                } else {
                    HintModel { matches: in_reading_order(found), ..self }.labelled(&hint)
                }
            },
        }
    }

    /// As `rebuilt`, but hint mode is left where nothing is found.
    pub open spec fn updated(self, screen: &HintScreen) -> HintModel {
        let next = self.rebuilt(screen);
        if next.matches.len() == 0 {
            next.stopped()
        } else {
            next
        }
    }
}

/// The first match for each start, in reading order.
pub open spec fn in_reading_order(found: Seq<FoundMatch>) -> Seq<FoundMatch> {
    choose|ordered: Seq<FoundMatch>| first_at_each_start(found, ordered)
}

/// Under a hint that shares labels, two matches have the same label exactly
/// when they have the same text.
pub proof fn law_labels_shared_by_text(model: HintModel, hint: &Hint, i: int, j: int)
    requires
        hint.shares_by_text(),
        alphabet_suffices(model.alphabet, model.label_count(hint)),
        0 <= i < model.matches.len(),
        0 <= j < model.matches.len(),
    ensures
        model.labelled(hint).labels[i] == model.labelled(hint).labels[j] <==> model.matches[i].text
            == model.matches[j].text,
{
    let texts = model.texts();
    let distinct = distinct_texts(texts);
    lemma_distinct_texts(texts);
    assert(distinct.contains(texts[i]) && distinct.contains(texts[j]));
    let a = distinct.index_of(texts[i]);
    let b = distinct.index_of(texts[j]);
    let count = model.label_count(hint);
    law_labels_are_prefix_free(model.alphabet, count);
    let labels = labels_for(model.alphabet, count);
    assert(0 <= a < count && distinct[a] == texts[i]);
    assert(0 <= b < count && distinct[b] == texts[j]);
    if a != b {
        assert(labels[a] != labels[b]);
    }
}

/// Under a hint that depends on position, no two matches have the same label.
pub proof fn law_labels_distinct_by_position(model: HintModel, hint: &Hint, i: int, j: int)
    requires
        !hint.shares_by_text(),
        alphabet_suffices(model.alphabet, model.label_count(hint)),
        0 <= i < j < model.matches.len(),
    ensures
        model.labelled(hint).labels[i] != model.labelled(hint).labels[j],
{
    law_labels_are_prefix_free(model.alphabet, model.label_count(hint));
}

/// State for hint selection mode.
pub struct HintState {
    /// Currently active hint configuration.
    pub active_hint: Option<Rc<Hint>>,
    /// Visible matches for the current hint.
    pub matches: Vec<HintMatch>,
    /// Labels for each match.
    pub labels: Vec<Vec<char>>,
    /// Keys pressed so far for hint selection.
    pub keys: Vec<char>,
    /// Alphabet for generating labels.
    pub alphabet: String,
}

impl View for HintState {
    type V = HintModel;

    open spec fn view(&self) -> HintModel {
        HintModel {
            active: self.active_hint,
            matches: contents(self.matches@),
            labels: label_texts(self.labels@),
            keys: self.keys@,
            alphabet: self.alphabet@,
        }
    }
}

impl HintState {
    pub fn new(alphabet: String) -> (r: Self)
        ensures
            r@.active is None,
            r@ == r@.stopped(),
            r@.alphabet == alphabet@,
    {
        let r: HintState = HintState {
            active_hint: None,
            matches: Vec::new(),
            labels: Vec::new(),
            keys: Vec::new(),
            alphabet,
        };
        proof {
            assert(contents(r.matches@) =~= Seq::<FoundMatch>::empty());
            assert(label_texts(r.labels@) =~= Seq::<Seq<char>>::empty());
        }
        r
    }

    /// Whether hint mode is active.
    pub fn is_active(&self) -> (r: bool)
        ensures
            r == (self@.active is Some),
    {
        self.active_hint.is_some()
    }

    /// Start hint mode with the given hint configuration.
    pub fn start(&mut self, hint: Rc<Hint>)
        ensures
            final(self)@ == (HintModel { active: Some(hint), keys: Seq::empty(), ..old(self)@ }),
    {
        self.active_hint = Some(hint);
        self.keys.clear();
    }

    /// Stop hint mode.
    pub fn stop(&mut self)
        ensures
            final(self)@ == old(self)@.stopped(),
    {
        self.active_hint = None;
        self.matches.clear();
        self.labels.clear();
        self.keys.clear();
        proof {
            assert(contents(self.matches@) =~= Seq::<FoundMatch>::empty());
            assert(label_texts(self.labels@) =~= Seq::<Seq<char>>::empty());
        }
    }

    /// Update visible matches for the current hint.
    pub fn update_matches(&mut self, screen: &HintScreen)
        requires
            screen.well_formed(),
        ensures
            final(self)@ == old(self)@.updated(screen),
    {
        self.rebuild_matches(screen);
        if self.matches.len() == 0 {
            self.stop();
        }
    }

    /// Refresh matches without leaving hint mode when none are visible.
    pub fn refresh_matches(&mut self, screen: &HintScreen)
        requires
            screen.well_formed(),
        ensures
            final(self)@ == (HintModel { keys: Seq::empty(), ..old(self)@ }).rebuilt(screen),
    {
        self.keys.clear();
        proof {
            assert(self@ =~= (HintModel { keys: Seq::empty(), ..old(self)@ }));
        }
        self.rebuild_matches(screen);
    }

    fn rebuild_matches(&mut self, screen: &HintScreen)
        requires
            screen.well_formed(),
        ensures
            final(self)@ == old(self)@.rebuilt(screen),
    {
        let ghost start = self@;
        self.matches.clear();
        proof {
            assert(contents(self.matches@) =~= Seq::<FoundMatch>::empty());
        }
        let hint: Rc<Hint> = match &self.active_hint {
            Some(hint) => hint.clone(),
            None => {
                return;
            },
        };
        let mut found: Vec<HintMatch> = Vec::new();
        proof {
            assert(contents(found@) =~= Seq::<FoundMatch>::empty());
        }
        if hint.hyperlinks {
            find_hyperlink_matches(&mut found, screen, &hint);
        }
        if let Some(pattern) = &hint.regex {
            find_regex_matches(&mut found, screen, pattern.as_str(), &hint);
        }
        proof {
            assert(contents(found@) =~= found_on(screen, hint));
        }
        if found.len() == 0 {
            self.labels.clear();
            proof {
                assert(label_texts(self.labels@) =~= Seq::<Seq<char>>::empty());
                assert(self@ =~= start.rebuilt(screen));
            }
            return;
        }
        let ghost all = contents(found@);
        self.matches = order_matches(found);
        proof {
            let ordered = contents(self.matches@);
            assert(first_at_each_start(all, ordered));
            law_order_is_unique(all, ordered, in_reading_order(all));
            assert(all.len() > 0);
            assert(self@ =~= (HintModel { matches: in_reading_order(all), ..start }));
        }
        self.generate_labels();
    }

    /// Handle keyboard input during hint selection. A completed label yields
    /// its match, and whether the label was typed in capitals.
    pub fn keyboard_input(&mut self, screen: &HintScreen, c: char) -> (r: Option<(HintMatch, bool)>)
        requires
            screen.well_formed(),
        ensures
            c == '\x08' || c == '\x1f' ==> r is None && final(self)@ == (HintModel {
                keys: if old(self)@.keys.len() > 0 {
                    old(self)@.keys.drop_last()
                } else {
                    old(self)@.keys
                },
                ..old(self)@
            }).updated(screen),
            c == '\x1b' || c == '\x03' ==> r is None && final(self)@ == old(self)@.stopped(),
            c != '\x08' && c != '\x1f' && c != '\x1b' && c != '\x03' ==> {
                let model = old(self)@;
                match last_continued(model.labels, model.keys, c, model.labels.len() as int) {
                    Some(i) if model.active is Some => {
                        let label = model.labels[i];
                        if label.len() > model.keys.len() + 1 {
                            r is None && final(self)@ == (HintModel {
                                keys: model.keys.push(c),
                                ..model
                            })
                        } else if i < model.matches.len() {
                            &&& r matches Some((m, capitals)) && m@ == model.matches[i] && capitals
                                == typed_in_capitals(label, model.keys.push(c))
                            &&& final(self)@ == if model.active->0.persist {
                                HintModel { keys: Seq::empty(), ..model }
                            } else {
                                model.stopped()
                            }
                        } else {
                            r is None && final(self)@ == model
                        }
                    },
                    _ => r is None && final(self)@ == model,
                }
            },
    {
        let ghost model = self@;
        if c == '\x08' || c == '\x1f' {
            let _ = self.keys.pop();
            proof {
                assert(self@ =~= (HintModel {
                    keys: if model.keys.len() > 0 {
                        model.keys.drop_last()
                    } else {
                        model.keys
                    },
                    ..model
                }));
            }
            self.update_matches(screen);
            return None;
        }
        if c == '\x1b' || c == '\x03' {
            self.stop();
            return None;
        }
        let persist: bool = match &self.active_hint {
            Some(hint) => hint.persist,
            None => {
                return None;
            },
        };
        let index: usize = match self.continued_label(c) {
            Some(index) => index,
            None => {
                return None;
            },
        };
        let label: Vec<char> = copy_chars(self.labels[index].as_slice());
        proof {
            assert(label@ == model.labels[index as int]);
        }
        if label.len() - self.keys.len() == 1 {
            if index >= self.matches.len() {
                return None;
            }
            let found: HintMatch = self.matches[index].duplicate();
            let mut typed: Vec<char> = copy_chars(self.keys.as_slice());
            typed.push(c);
            let capitals: bool = in_capitals(label.as_slice(), typed.as_slice());
            if persist {
                self.keys.clear();
                proof {
                    assert(self@ =~= (HintModel { keys: Seq::empty(), ..model }));
                }
            } else {
                self.stop();
            }
            Some((found, capitals))
        } else {
            self.keys.push(c);
            proof {
                assert(self@ =~= (HintModel { keys: model.keys.push(c), ..model }));
            }
            None
        }
    }

    fn continued_label(&self, c: char) -> (r: Option<usize>)
        ensures
            (match r {
                Some(i) => Some(i as int),
                None => None,
            }) == last_continued(self@.labels, self@.keys, c, self@.labels.len() as int),
            r matches Some(i) ==> i < self.labels@.len() && continues(self@.labels[i as int], self@.keys, c),
    {
        let mut n: usize = self.labels.len();
        while n > 0
            invariant
                n <= self.labels@.len(),
                last_continued(self@.labels, self@.keys, c, self@.labels.len() as int)
                    == last_continued(self@.labels, self@.keys, c, n as int),
            decreases n,
        {
            let label: &Vec<char> = &self.labels[n - 1];
            proof {
                assert(self@.labels[n - 1] == label@);
            }
            if label_matches(label.as_slice(), self.keys.as_slice()) && label.len()
                > self.keys.len() && key_matches(label[self.keys.len()], c) {
                return Some(n - 1);
            }
            n -= 1;
        }
        None
    }

    /// Current matches.
    pub fn matches(&self) -> (r: &[HintMatch])
        ensures
            r@ == self.matches@,
    {
        self.matches.as_slice()
    }

    /// Visible labels (filtered by current input), each with its position and
    /// what is left to type.
    pub fn visible_labels(&self) -> (r: Vec<(usize, &[char])>)
        ensures
            r@.map_values(|p: (usize, &[char])| (p.0 as int, p.1@)) == fitting_labels(
                self@.labels,
                self@.keys,
                self@.labels.len() as int,
            ),
    {
        let mut out: Vec<(usize, &[char])> = Vec::new();
        let mut i: usize = 0;
        proof {
            assert(out@.map_values(|p: (usize, &[char])| (p.0 as int, p.1@)) =~= Seq::<
                (int, Seq<char>),
            >::empty());
        }
        while i < self.labels.len()
            invariant
                i <= self.labels@.len(),
                out@.map_values(|p: (usize, &[char])| (p.0 as int, p.1@)) == fitting_labels(
                    self@.labels,
                    self@.keys,
                    i as int,
                ),
            decreases self.labels@.len() - i,
        {
            let label: &Vec<char> = &self.labels[i];
            proof {
                assert(self@.labels[i as int] == label@);
            }
            if label_matches(label.as_slice(), self.keys.as_slice()) {
                let rest: &[char] = vstd::slice::slice_subrange(
                    label.as_slice(),
                    self.keys.len(),
                    label.len(),
                );
                proof {
                    assert(rest@ =~= label@.skip(self.keys@.len() as int));
                    assert(out@.push((i, rest)).map_values(|p: (usize, &[char])| (p.0 as int, p.1@))
                        =~= out@.map_values(|p: (usize, &[char])| (p.0 as int, p.1@)).push(
                        (i as int, rest@),
                    ));
                }
                out.push((i, rest));
            }
            i += 1;
        }
        out
    }

    /// Labels every match for the active hint.
    pub fn generate_labels(&mut self)
        requires
            old(self)@.active is Some,
        ensures
            final(self)@ == old(self)@.labelled(&old(self)@.active->0),
    {
        let ghost model = self@;
        let ghost hint0 = self@.active->0;
        let share: bool = match &self.active_hint {
            Some(hint) => hint.share_by_text(),
            None => false,
        };
        let (indices, count) = self.label_indices(share);
        let labels: Vec<Vec<char>> = match hint_labels(self.alphabet.as_str(), count) {
            Some(labels) => labels,
            None => {
                self.stop();
                return;
            },
        };
        proof {
            law_labels_are_prefix_free(model.alphabet, count as int);
        }
        let ghost made = label_texts(labels@);
        let mut out: Vec<Vec<char>> = Vec::new();
        let ghost goal = model.labelled(&hint0).labels;
        let mut i: usize = 0;
        while i < indices.len()
            invariant
                i <= indices.len(),
                made == label_texts(labels@),
                made == labels_for(model.alphabet, count as int),
                count == model.label_count(&hint0),
                made.len() == count,
                labels@.len() == count,
                indices@.len() == model.matches.len(),
                forall|k: int|
                    0 <= k < indices@.len() ==> (#[trigger] indices@[k]) < count && indices@[k]
                        == model.label_index(&hint0, k),
                goal == model.labelled(&hint0).labels,
                alphabet_suffices(model.alphabet, count as int),
                label_texts(out@) == goal.take(i as int),
            decreases indices.len() - i,
        {
            let label: Vec<char> = copy_chars(labels[indices[i]].as_slice());
            proof {
                assert(label@ == made[indices@[i as int] as int]);
                assert(goal[i as int] == label@);
                lemma_label_texts_push(out@, label);
                assert(label_texts(out@.push(label)) =~= goal.take(i + 1));
            }
            out.push(label);
            i += 1;
        }
        self.labels = out;
        proof {
            assert(goal.take(goal.len() as int) =~= goal);
            assert(self@ =~= model.labelled(&hint0));
        }
    }

    fn label_indices(&self, share: bool) -> (r: (Vec<usize>, usize))
        requires
            self@.active is Some,
            share == self@.active->0.shares_by_text(),
        ensures
            r.1 == self@.label_count(&self@.active->0),
            r.0@.len() == self@.matches.len(),
            forall|k: int|
                0 <= k < r.0@.len() ==> (#[trigger] r.0@[k]) < r.1 && r.0@[k]
                    == self@.label_index(&self@.active->0, k),
    {
        let mut indices: Vec<usize> = Vec::new();
        let mut i: usize = 0;
        if !share {
            while i < self.matches.len()
                invariant
                    i <= self.matches@.len(),
                    indices@.len() == i,
                    forall|k: int| 0 <= k < i ==> (#[trigger] indices@[k]) == k,
                decreases self.matches@.len() - i,
            {
                indices.push(i);
                i += 1;
            }
            return (indices, self.matches.len());
        }
        let ghost texts = self@.texts();
        // Positions of the matches that have each distinct text first.
        let mut firsts: Vec<usize> = Vec::new();
        proof {
            assert(texts.take(0) =~= Seq::<Seq<char>>::empty());
        }
        while i < self.matches.len()
            invariant
                i <= self.matches@.len(),
                texts == self@.texts(),
                indices@.len() == i,
                firsts@.len() == distinct_texts(texts.take(i as int)).len(),
                firsts@.len() <= i,
                forall|d: int|
                    0 <= d < firsts@.len() ==> (#[trigger] firsts@[d]) < i && texts[firsts@[d] as int]
                        == distinct_texts(texts.take(i as int))[d],
                forall|k: int|
                    0 <= k < i ==> (#[trigger] indices@[k]) < firsts@.len() && distinct_texts(
                        texts.take(i as int),
                    )[indices@[k] as int] == texts[k],
            decreases self.matches@.len() - i,
        {
            let ghost before = distinct_texts(texts.take(i as int));
            let ghost after = distinct_texts(texts.take(i + 1));
            proof {
                assert(texts.take(i + 1).drop_last() =~= texts.take(i as int));
                assert(texts[i as int] == self.matches@[i as int].text@);
            }
            let mut d: usize = 0;
            while d < firsts.len() && !same_text(
                self.matches[firsts[d]].text.as_str(),
                self.matches[i].text.as_str(),
            )
                invariant
                    d <= firsts@.len(),
                    i < self.matches@.len(),
                    texts == self@.texts(),
                    firsts@.len() == before.len(),
                    forall|e: int|
                        0 <= e < firsts@.len() ==> (#[trigger] firsts@[e]) < i
                            && texts[firsts@[e] as int] == before[e],
                    forall|e: int| 0 <= e < d ==> #[trigger] before[e] != texts[i as int],
                decreases firsts@.len() - d,
            {
                proof {
                    assert(texts[firsts@[d as int] as int]
                        == self.matches@[firsts@[d as int] as int].text@);
                }
                d += 1;
            }
            if d < firsts.len() {
                proof {
                    assert(texts[firsts@[d as int] as int]
                        == self.matches@[firsts@[d as int] as int].text@);
                    assert(before[d as int] == texts[i as int]);
                    assert(before.contains(texts[i as int]));
                    assert(after == before);
                }
            } else {
                proof {
                    if before.contains(texts[i as int]) {
                        let e = choose|e: int| 0 <= e < before.len() && before[e] == texts[i as int];
                        assert(before[e] != texts[i as int]);
                    }
                    assert(after == before.push(texts[i as int]));
                }
                firsts.push(i);
            }
            indices.push(d);
            i += 1;
        }
        proof {
            assert(texts.take(texts.len() as int) =~= texts);
            let all = distinct_texts(texts);
            lemma_distinct_texts(texts);
            assert forall|k: int| 0 <= k < indices@.len() implies (#[trigger] indices@[k])
                < firsts@.len() && indices@[k] == self@.label_index(&self@.active->0, k) by {
                let p = all.index_of(texts[k]);
                assert(all[indices@[k] as int] == texts[k]);
                assert(all.contains(texts[k]));
                assert(all[p] == texts[k]);
            }
        }
        let count: usize = firsts.len();
        (indices, count)
    }
}

/// Appends the matches of a pattern on a screen, row by row.
pub fn find_regex_matches(
    matches: &mut Vec<HintMatch>,
    screen: &HintScreen,
    pattern: &str,
    hint: &Rc<Hint>,
)
    requires
        screen.well_formed(),
    ensures
        contents(final(matches)@) == contents(old(matches)@) + regex_matches(
            screen,
            pattern@,
            *hint,
            screen.rows@.len() as int,
        ),
{
    let ghost start = contents(matches@);
    let mut i: usize = 0;
    proof {
        assert(start + regex_matches(screen, pattern@, *hint, 0) =~= start);
    }
    while i < screen.rows.len()
        invariant
            screen.well_formed(),
            i <= screen.rows@.len(),
            contents(matches@) == start + regex_matches(screen, pattern@, *hint, i as int),
        decreases screen.rows@.len() - i,
    {
        let row: &[HintCell] = screen.rows[i].as_slice();
        let line: i32 = screen.line(i);
        let (text, _cols) = extract_line_text_with_cols(row);
        let spans: Vec<(usize, usize)> = mark_spans(pattern, text.as_str());
        push_span_matches(matches, row, line, spans.as_slice(), hint);
        proof {
            assert(contents(matches@) =~= start + regex_matches(screen, pattern@, *hint, i + 1));
        }
        i += 1;
    }
}

/// Appends the hyperlinks on a screen, row by row.
pub fn find_hyperlink_matches(
    matches: &mut Vec<HintMatch>,
    screen: &HintScreen,
    hint: &Rc<Hint>,
)
    requires
        screen.well_formed(),
    ensures
        contents(final(matches)@) == contents(old(matches)@) + screen_link_matches(
            screen,
            *hint,
            screen.rows@.len() as int,
        ),
{
    let ghost start = contents(matches@);
    let mut i: usize = 0;
    proof {
        assert(start + screen_link_matches(screen, *hint, 0) =~= start);
    }
    while i < screen.rows.len()
        invariant
            screen.well_formed(),
            i <= screen.rows@.len(),
            contents(matches@) == start + screen_link_matches(screen, *hint, i as int),
        decreases screen.rows@.len() - i,
    {
        let line: i32 = screen.line(i);
        push_link_matches(matches, screen.rows[i].as_slice(), line, hint);
        proof {
            assert(contents(matches@) =~= start + screen_link_matches(screen, *hint, i + 1));
        }
        i += 1;
    }
}

/// The text names a resource by a scheme, and so is no path.
pub open spec fn names_scheme(s: Seq<char>) -> bool {
    begins_with(s, "ipfs:"@) || begins_with(s, "ipns:"@) || begins_with(s, "magnet:"@)
        || begins_with(s, "mailto:"@) || begins_with(s, "gemini://"@) || begins_with(
        s,
        "gopher://"@,
    ) || begins_with(s, "https://"@) || begins_with(s, "http://"@) || begins_with(s, "news:"@)
        || begins_with(s, "file:"@) || begins_with(s, "git://"@) || begins_with(s, "ssh:"@)
        || begins_with(s, "ssh://"@) || begins_with(s, "ftp://"@) || begins_with(s, "tel:"@)
}

fn is_scheme_url(s: &[char]) -> (r: bool)
    ensures
        r == names_scheme(s@),
{
    starts_with(s, "ipfs:") || starts_with(s, "ipns:") || starts_with(s, "magnet:") || starts_with(
        s,
        "mailto:",
    ) || starts_with(s, "gemini://") || starts_with(s, "gopher://") || starts_with(s, "https://")
        || starts_with(s, "http://") || starts_with(s, "news:") || starts_with(s, "file:")
        || starts_with(s, "git://") || starts_with(s, "ssh:") || starts_with(s, "ssh://")
        || starts_with(s, "ftp://") || starts_with(s, "tel:")
}

/// The text is a path from the root.
pub open spec fn is_absolute(path: Seq<char>) -> bool {
    path.len() > 0 && path[0] == '/'
}

/// A path taken relative to a base directory.
pub open spec fn path_joined(base: Seq<char>, path: Seq<char>) -> Seq<char> {
    if is_absolute(path) {
        path
    } else if base.len() == 0 || base.last() == '/' {
        base + path
    } else {
        base.push('/') + path
    }
}

fn join_path(base: &[char], path: &[char]) -> (r: Vec<char>)
    ensures
        r@ == path_joined(base@, path@),
{
    if path.len() > 0 && path[0] == '/' {
        return copy_chars(path);
    }
    let mut out: Vec<char> = copy_chars(base);
    if base.len() > 0 && base[base.len() - 1] != '/' {
        out.push('/');
    }
    let mut tail: Vec<char> = copy_chars(path);
    out.append(&mut tail);
    out
}

/// Everything before the first slash.
pub open spec fn before_slash(s: Seq<char>) -> Seq<char>
    decreases s.len(),
{
    if s.len() == 0 || s[0] == '/' {
        Seq::empty()
    } else {
        seq![s[0]] + before_slash(s.skip(1))
    }
}

/// Everything behind the first slash; nothing where there is none.
pub open spec fn behind_slash(s: Seq<char>) -> Seq<char> {
    let n = before_slash(s).len() as int;
    if n < s.len() {
        s.skip(n + 1)
    } else {
        Seq::empty()
    }
}

proof fn lemma_before_slash(s: Seq<char>, n: int)
    requires
        0 <= n <= s.len(),
        forall|i: int| 0 <= i < n ==> s[i] != '/',
        n < s.len() ==> s[n] == '/',
    ensures
        before_slash(s) == s.take(n),
    decreases n,
{
    if n > 0 {
        lemma_before_slash(s.skip(1), n - 1);
        assert(s.take(n) =~= seq![s[0]] + s.skip(1).take(n - 1));
    } else {
        assert(s.take(0) =~= Seq::<char>::empty());
    }
}

fn slash_at(s: &[char]) -> (r: usize)
    ensures
        r <= s.len(),
        before_slash(s@) == s@.take(r as int),
        before_slash(s@).len() == r,
{
    let mut i: usize = 0;
    while i < s.len() && s[i] != '/'
        invariant
            i <= s.len(),
            forall|k: int| 0 <= k < i ==> s@[k] != '/',
        decreases s.len() - i,
    {
        i += 1;
    }
    proof {
        lemma_before_slash(s@, i as int);
    }
    i
}

/// The name of the environment variable that a path begins with, if it does.
pub open spec fn leading_variable(text: Seq<char>) -> Option<Seq<char>> {
    let t = trimmed(text);
    if !names_scheme(t) && begins_with(t, "$"@) && before_slash(t.skip(1)).len() > 0 {
        Some(before_slash(t.skip(1)))
    } else {
        None
    }
}

/// The name of the environment variable that has to be looked up before
/// `resolve_path_for_opening` can resolve the text.
pub fn path_variable(text: &str) -> (r: Option<String>)
    ensures
        r is Some <==> leading_variable(text@) is Some,
        r matches Some(name) ==> leading_variable(text@) == Some(name@),
{
    let chars: Vec<char> = trim_chars(to_chars(text).as_slice());
    if is_scheme_url(chars.as_slice()) || !starts_with(chars.as_slice(), "$") {
        return None;
    }
    proof {
        reveal_strlit("$");
    }
    let rest: &[char] = vstd::slice::slice_subrange(chars.as_slice(), 1, chars.len());
    proof {
        assert(rest@ =~= chars@.skip(1));
    }
    let n: usize = slash_at(rest);
    if n == 0 {
        return None;
    }
    Some(from_chars(vstd::slice::slice_subrange(rest, 0, n)))
}

/// A path with its leading `~` or `$NAME` replaced, where that can be done.
pub open spec fn expanded_path(
    t: Seq<char>,
    home: Option<Seq<char>>,
    variable: Option<Seq<char>>,
) -> Option<Seq<char>> {
    if begins_with(t, "~/"@) {
        match home {
            Some(home) => Some(path_joined(home, t.skip(2))),
            None => None,
        }
    } else if t == "~"@ {
        home
    } else if begins_with(t, "$"@) {
        let tail = behind_slash(t.skip(1));
        if before_slash(t.skip(1)).len() == 0 {
            None
        } else {
            match variable {
                Some(value) => if tail.len() == 0 {
                    Some(value)
                } else {
                    Some(path_joined(value, tail))
                },
                None => None,
            }
        }
    } else {
        Some(t)
    }
}

/// The absolute path that a text stands for, where it stands for one.
pub open spec fn resolved_path(
    text: Seq<char>,
    cwd: Option<Seq<char>>,
    home: Option<Seq<char>>,
    variable: Option<Seq<char>>,
) -> Option<Seq<char>> {
    let t = trimmed(text);
    if t.len() == 0 || names_scheme(t) {
        None
    } else {
        match expanded_path(t, home, variable) {
            None => None,
            Some(path) => if is_absolute(path) {
                Some(path)
            } else {
                match cwd {
                    Some(cwd) => Some(path_joined(cwd, path)),
                    None => None,
                }
            },
        }
    }
}

/// The view of an optional text.
pub open spec fn optional_text(s: Option<&str>) -> Option<Seq<char>> {
    match s {
        Some(s) => Some(s@),
        None => None,
    }
}

fn expand_path(t: &[char], home: Option<&str>, variable: Option<&str>) -> (r: Option<Vec<char>>)
    ensures
        r is Some <==> expanded_path(t@, optional_text(home), optional_text(variable)) is Some,
        r matches Some(path) ==> expanded_path(t@, optional_text(home), optional_text(variable))
            == Some(path@),
{
    proof {
        reveal_strlit("~/");
        reveal_strlit("$");
    }
    if starts_with(t, "~/") {
        let rest: &[char] = vstd::slice::slice_subrange(t, 2, t.len());
        proof {
            assert(rest@ =~= t@.skip(2));
        }
        match home {
            Some(home) => Some(join_path(to_chars(home).as_slice(), rest)),
            None => None,
        }
    } else if same_chars(t, to_chars("~").as_slice()) {
        match home {
            Some(home) => Some(to_chars(home)),
            None => None,
        }
    } else if starts_with(t, "$") {
        let rest: &[char] = vstd::slice::slice_subrange(t, 1, t.len());
        proof {
            assert(rest@ =~= t@.skip(1));
        }
        let n: usize = slash_at(rest);
        if n == 0 {
            return None;
        }
        match variable {
            Some(value) => {
                if n >= rest.len() || n + 1 == rest.len() {
                    proof {
                        assert(behind_slash(rest@).len() == 0);
                    }
                    Some(to_chars(value))
                } else {
                    let tail: &[char] = vstd::slice::slice_subrange(rest, n + 1, rest.len());
                    proof {
                        assert(tail@ =~= behind_slash(rest@));
                    }
                    Some(join_path(to_chars(value).as_slice(), tail))
                }
            },
            None => None,
        }
    } else {
        Some(copy_chars(t))
    }
}

/// What a text names below the home directory, where it is a path from there.
pub open spec fn below_tilde(text: Seq<char>) -> Option<Seq<char>> {
    let t = trimmed(text);
    if begins_with(t, "~/"@) {
        Some(t.skip(2))
    } else if t == "~"@ {
        Some(Seq::empty())
    } else {
        None
    }
}

/// What a text names below the home directory, for a home directory that is no
/// valid text itself.
pub fn home_part(text: &str) -> (r: Option<String>)
    ensures
        text_of(r) == below_tilde(text@),
{
    proof {
        reveal_strlit("~/");
    }
    let chars: Vec<char> = trim_chars(to_chars(text).as_slice());
    if starts_with(chars.as_slice(), "~/") {
        let rest: &[char] = vstd::slice::slice_subrange(chars.as_slice(), 2, chars.len());
        proof {
            assert(rest@ =~= chars@.skip(2));
        }
        Some(from_chars(rest))
    } else if same_chars(chars.as_slice(), to_chars("~").as_slice()) {
        Some(String::new())
    } else {
        None
    }
}

/// If `text` looks like a local path, the absolute path that it stands for.
///
/// `variable` is the value of the variable that `path_variable` names. There is
/// no path for texts with a scheme, or where the home directory, the variable or
/// the working directory that the text needs is unknown. Whether the path exists
/// is left to the caller. The home directory is that of the user and only plays
/// a part where the text begins with `~`.
pub fn resolve_path_for_opening(
    text: &str,
    cwd: Option<&str>,
    variable: Option<&str>,
) -> (r: Option<String>)
    ensures
        exists|home: Option<Seq<char>>|
            text_of(r) == #[trigger] resolved_path(
                text@,
                optional_text(cwd),
                home,
                optional_text(variable),
            ),
        !begins_with(trimmed(text@), "~"@) ==> text_of(r) == resolved_path(
            text@,
            optional_text(cwd),
            None,
            optional_text(variable),
        ),
{
    let home: Option<String> = home_dir();
    let r: Option<String> = match &home {
        Some(dir) => resolve_path_at_home(text, cwd, Some(dir.as_str()), variable),
        None => resolve_path_at_home(text, cwd, None, variable),
    };
    proof {
        reveal_strlit("~");
        reveal_strlit("~/");
        let t = trimmed(text@);
        if begins_with(t, "~/"@) {
            assert(t.subrange(0, 2)[0] == '~');
            assert(t.subrange(0, 1) =~= "~"@);
        }
        assert(t == "~"@ ==> t.subrange(0, 1) =~= t);
        assert(text_of(r) == resolved_path(
            text@,
            optional_text(cwd),
            text_of(home),
            optional_text(variable),
        ));
    }
    r
}

/// As `resolve_path_for_opening`, for a given home directory.
pub fn resolve_path_at_home(
    text: &str,
    cwd: Option<&str>,
    home: Option<&str>,
    variable: Option<&str>,
) -> (r: Option<String>)
    ensures
        r is Some <==> resolved_path(
            text@,
            optional_text(cwd),
            optional_text(home),
            optional_text(variable),
        ) is Some,
        r matches Some(path) ==> resolved_path(
            text@,
            optional_text(cwd),
            optional_text(home),
            optional_text(variable),
        ) == Some(path@),
{
    let chars: Vec<char> = trim_chars(to_chars(text).as_slice());
    if chars.len() == 0 || is_scheme_url(chars.as_slice()) {
        return None;
    }
    match expand_path(chars.as_slice(), home, variable) {
        Some(path) => {
            if path.len() > 0 && path[0] == '/' {
                return Some(from_chars(path.as_slice()));
            }
            match cwd {
                Some(cwd) => Some(
                    from_chars(join_path(to_chars(cwd).as_slice(), path.as_slice()).as_slice()),
                ),
                None => None,
            }
        },
        None => None,
    }
}

/// A resolved path is a path from the root, unless the working directory that
/// it was joined to is not.
pub proof fn law_resolved_path_is_absolute(
    text: Seq<char>,
    cwd: Option<Seq<char>>,
    home: Option<Seq<char>>,
    variable: Option<Seq<char>>,
)
    requires
        cwd matches Some(dir) ==> is_absolute(dir),
    ensures
        resolved_path(text, cwd, home, variable) matches Some(path) ==> is_absolute(path),
{
}

} // verus!
