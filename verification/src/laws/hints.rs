//! Hints: what is found on a screen, in which order it is listed, which keys
//! choose it, and which path it stands for.

use crate::hints::{
    alphabet_suffices, below_tilde, before_slash, behind_slash, continues, cuttable,
    distinct_texts, first_at_each_start, first_found, fitting_labels, found_on, grown, hint_text,
    in_reading_order, is_prefix, label_fits, labels_for, last_continued, leading_variable,
    lemma_chars_before, lemma_order_insert, lemma_order_skip, lemma_run_end, link_matches,
    marked_spans, names_scheme, path_joined, processed_uri, regex_matches,
    resolved_path, row_columns, row_text, run_end, screen_link_matches, single_labels, span_match,
    spans_matches, start_listed, trails_uri, typed_in_capitals, unbalanced_at, without_trailing,
    FoundMatch, Hint, HintAction, HintCell, HintInternalAction, HintModel, HintScreen,
};
use crate::terminal::{Pos, Wide};
use crate::text::{byte_len, char_is_uppercase, char_lowercase, trimmed};
use std::rc::Rc;
use vstd::prelude::*;

verus! {

proof fn lemma_place(cur: Seq<FoundMatch>, start: Pos, from: int) -> (at: int)
    requires
        0 <= from <= cur.len(),
        forall|k: int| 0 <= k < from ==> (#[trigger] cur[k]).start.precedes(start),
    ensures
        from <= at <= cur.len(),
        forall|k: int| 0 <= k < at ==> (#[trigger] cur[k]).start.precedes(start),
        at < cur.len() ==> !cur[at].start.precedes(start),
    decreases cur.len() - from,
{
    if from < cur.len() && cur[from].start.precedes(start) {
        lemma_place(cur, start, from + 1)
    } else {
        from
    }
}

proof fn lemma_order_exists(all: Seq<FoundMatch>, n: int) -> (ordered: Seq<FoundMatch>)
    requires
        0 <= n <= all.len(),
    ensures
        first_at_each_start(all.take(n), ordered),
    decreases n,
{
    if n == 0 {
        assert(all.take(0) =~= Seq::<FoundMatch>::empty());
        Seq::empty()
    } else {
        let cur = lemma_order_exists(all, n - 1);
        let at = lemma_place(cur, all[n - 1].start, 0);
        if at < cur.len() && cur[at].start == all[n - 1].start {
            lemma_order_skip(all, n - 1, cur, at);
            cur
        } else {
            lemma_order_insert(all, n - 1, cur, at);
            cur.insert(at, all[n - 1])
        }
    }
}

/// What is found is listed in the order of reading: one match for each place that
/// a match starts at, the one that was found first.
#[verifier::rlimit(40)]
pub proof fn law_finds_are_listed_in_reading_order(found: Seq<FoundMatch>)
    ensures
        ({
            let listed = in_reading_order(found);
            &&& forall|i: int, j: int|
                0 <= i < j < listed.len() ==> {
                    let a = (#[trigger] listed[i]).start;
                    let b = (#[trigger] listed[j]).start;
                    a.row < b.row || a.row == b.row && a.col < b.col
                }
            &&& forall|i: int|
                0 <= i < found.len() ==> exists|k: int|
                    0 <= k < listed.len() && (#[trigger] listed[k]).start == (
                    #[trigger] found[i]).start
            &&& forall|k: int|
                0 <= k < listed.len() ==> exists|i: int|
                    {
                        &&& 0 <= i < found.len()
                        &&& #[trigger] found[i] == #[trigger] listed[k]
                        &&& forall|j: int|
                            0 <= j < i ==> (#[trigger] found[j]).start != listed[k].start
                    }
        }),
{
    let n = found.len() as int;
    let one = lemma_order_exists(found, n);
    assert(found.take(n) =~= found);
    let listed = in_reading_order(found);
    assert(first_at_each_start(found, listed));
    reveal(first_found);
    reveal(start_listed);
    assert forall|i: int| 0 <= i < found.len() implies exists|k: int|
        0 <= k < listed.len() && (#[trigger] listed[k]).start == (#[trigger] found[i]).start by {
        assert(start_listed(listed, found[i].start));
    }
    assert forall|k: int| 0 <= k < listed.len() implies exists|i: int|
        {
            &&& 0 <= i < found.len()
            &&& #[trigger] found[i] == #[trigger] listed[k]
            &&& forall|j: int| 0 <= j < i ==> (#[trigger] found[j]).start != listed[k].start
        } by {
        assert(first_found(found, listed[k]));
    }
}

/// The pattern of a hint, if it has one.
pub open spec fn pattern_of(hint: Rc<Hint>) -> Option<Seq<char>> {
    match hint.regex {
        Some(pattern) => Some(pattern@),
        None => None,
    }
}

/// The letters can label whatever is found: there are two or more, and no two are the
/// same but for their case.
pub open spec fn has_letters(model: HintModel) -> bool {
    &&& model.alphabet.len() >= 2
    &&& forall|i: int, j: int|
        0 <= i < j < model.alphabet.len() ==> char_lowercase(#[trigger] model.alphabet[i])
            != char_lowercase(#[trigger] model.alphabet[j])
}

/// Some listed match starts at a place.
pub open spec fn starts_at(matches: Seq<FoundMatch>, start: Pos) -> bool {
    exists|k: int| 0 <= k < matches.len() && (#[trigger] matches[k]).start == start
}

proof fn lemma_rebuilt(model: HintModel, screen: &HintScreen, hint: Rc<Hint>)
    requires
        model.active == Some(hint),
        has_letters(model),
    ensures
        ({
            let now = model.rebuilt(screen);
            &&& now.active == Some(hint)
            &&& now.keys == model.keys
            &&& now.alphabet == model.alphabet
            &&& now.labels.len() == now.matches.len()
            &&& now.matches == in_reading_order(found_on(screen, hint))
        }),
{
    let found = found_on(screen, hint);
    let listed = in_reading_order(found);
    law_finds_are_listed_in_reading_order(found);
    assert(alphabet_suffices(
        model.alphabet,
        (HintModel { matches: listed, ..model }).label_count(&hint),
    ));
    if found.len() == 0 {
        if listed.len() > 0 {
            let m = listed[0];
            let i = choose|i: int| 0 <= i < found.len() && #[trigger] found[i] == m;
            assert(found[i] == m);
        }
        assert(listed =~= Seq::<FoundMatch>::empty());
    }
}

/// Under a hint what is found is listed in the order of reading, each with a label, and
/// the keys that were typed stay. With letters enough hint mode is left only where
/// nothing is found.
pub proof fn law_finds_are_labelled_in_reading_order(
    model: HintModel,
    screen: &HintScreen,
    hint: Rc<Hint>,
    i: int,
    j: int,
)
    requires
        model.active == Some(hint),
        has_letters(model),
    ensures
        ({
            let now = model.rebuilt(screen);
            &&& now.active == Some(hint)
            &&& now.keys == model.keys
            &&& now.alphabet == model.alphabet
            &&& now.labels.len() == now.matches.len()
            &&& 0 <= i < j < now.matches.len() ==> {
                let a = now.matches[i].start;
                let b = now.matches[j].start;
                a.row < b.row || a.row == b.row && a.col < b.col
            }
            &&& now.matches.len() > 0 ==> model.updated(screen) == now
            &&& now.matches.len() == 0 ==> model.updated(screen).active is None
        }),
{
    lemma_rebuilt(model, screen, hint);
    law_finds_are_listed_in_reading_order(found_on(screen, hint));
}

/// Under a hint each match of its pattern starts where a listed match does, whether it
/// looks for hyperlinks or not.
pub proof fn law_every_find_is_listed(
    model: HintModel,
    screen: &HintScreen,
    hint: Rc<Hint>,
    pattern: Seq<char>,
    i: int,
)
    requires
        model.active == Some(hint),
        has_letters(model),
        hint.regex matches Some(text) && text@ == pattern,
        0 <= i < regex_matches(screen, pattern, hint, screen.rows@.len() as int).len(),
    ensures
        starts_at(
            model.rebuilt(screen).matches,
            regex_matches(screen, pattern, hint, screen.rows@.len() as int)[i].start,
        ),
{
    let rows = screen.rows@.len() as int;
    let found = found_on(screen, hint);
    let links = screen_link_matches(screen, hint, rows);
    let marks = regex_matches(screen, pattern, hint, rows);
    lemma_rebuilt(model, screen, hint);
    law_finds_are_listed_in_reading_order(found);
    let at: int = if hint.hyperlinks {
        links.len() + i
    } else {
        i
    };
    assert(found[at] == marks[i]);
}

/// Under a hint that looks for hyperlinks each hyperlink starts where a listed match
/// does, whether it has a pattern or not.
pub proof fn law_every_link_is_listed(
    model: HintModel,
    screen: &HintScreen,
    hint: Rc<Hint>,
    i: int,
)
    requires
        model.active == Some(hint),
        has_letters(model),
        hint.hyperlinks,
        0 <= i < screen_link_matches(screen, hint, screen.rows@.len() as int).len(),
    ensures
        starts_at(
            model.rebuilt(screen).matches,
            screen_link_matches(screen, hint, screen.rows@.len() as int)[i].start,
        ),
{
    let found = found_on(screen, hint);
    let links = screen_link_matches(screen, hint, screen.rows@.len() as int);
    lemma_rebuilt(model, screen, hint);
    law_finds_are_listed_in_reading_order(found);
    assert(found[i] == links[i]);
}

/// Under a hint nothing is listed but matches of its pattern, and hyperlinks where it
/// looks for those.
pub proof fn law_nothing_else_is_listed(
    model: HintModel,
    screen: &HintScreen,
    hint: Rc<Hint>,
    k: int,
)
    requires
        model.active == Some(hint),
        has_letters(model),
        0 <= k < model.rebuilt(screen).matches.len(),
    ensures
        ({
            let m = model.rebuilt(screen).matches[k];
            let rows = screen.rows@.len() as int;
            ||| hint.hyperlinks && screen_link_matches(screen, hint, rows).contains(m)
            ||| pattern_of(hint) is Some && regex_matches(
                screen,
                pattern_of(hint)->0,
                hint,
                rows,
            ).contains(m)
        }),
{
    let rows = screen.rows@.len() as int;
    let found = found_on(screen, hint);
    let links = screen_link_matches(screen, hint, rows);
    let pattern = pattern_of(hint);
    lemma_rebuilt(model, screen, hint);
    law_finds_are_listed_in_reading_order(found);
    let m = model.rebuilt(screen).matches[k];
    let i = choose|i: int| 0 <= i < found.len() && #[trigger] found[i] == m;
    let off = if hint.hyperlinks {
        links.len() as int
    } else {
        0
    };
    if i < off {
        assert(links[i] == m);
    } else {
        assert(pattern is Some);
        assert(regex_matches(screen, pattern->0, hint, rows)[i - off] == m);
    }
}

/// Without a hint nothing is found.
pub proof fn law_no_hint_finds_nothing(model: HintModel, screen: &HintScreen)
    requires
        model.active is None,
    ensures
        model.rebuilt(screen).matches.len() == 0,
        model.updated(screen).active is None,
{
}

/// Hint mode that is left keeps nothing but the letters.
pub proof fn law_left_hint_mode_is_empty(model: HintModel)
    ensures
        model.stopped().active is None,
        model.stopped().matches.len() == 0,
        model.stopped().labels.len() == 0,
        model.stopped().keys.len() == 0,
        model.stopped().alphabet == model.alphabet,
{
}

#[verifier::rlimit(40)]
proof fn lemma_spans_matches(
    row: Seq<HintCell>,
    line: i32,
    spans: Seq<(usize, usize)>,
    hint: Rc<Hint>,
)
    ensures
        forall|s: int|
            0 <= s < spans.len() && cuttable(
                row_text(row),
                (#[trigger] spans[s]).0 as int,
                spans[s].1 as int,
            ) && span_match(row, line, spans[s].0 as int, spans[s].1 as int, hint) is Some
                ==> spans_matches(row, line, spans, hint).contains(
                span_match(row, line, spans[s].0 as int, spans[s].1 as int, hint)->0,
            ),
        forall|k: int|
            0 <= k < spans_matches(row, line, spans, hint).len() ==> exists|s: int|
                0 <= s < spans.len() && cuttable(
                    row_text(row),
                    (#[trigger] spans[s]).0 as int,
                    spans[s].1 as int,
                ) && span_match(row, line, spans[s].0 as int, spans[s].1 as int, hint) == Some(
                    #[trigger] spans_matches(row, line, spans, hint)[k],
                ),
    decreases spans.len(),
{
    if spans.len() > 0 {
        let rest = spans.drop_last();
        lemma_spans_matches(row, line, rest, hint);
        let before = spans_matches(row, line, rest, hint);
        let all = spans_matches(row, line, spans, hint);
        assert forall|s: int|
            0 <= s < spans.len() && cuttable(
                row_text(row),
                (#[trigger] spans[s]).0 as int,
                spans[s].1 as int,
            ) && span_match(
                row,
                line,
                spans[s].0 as int,
                spans[s].1 as int,
                hint,
            ) is Some implies all.contains(
            span_match(row, line, spans[s].0 as int, spans[s].1 as int, hint)->0,
        ) by {
            let m = span_match(row, line, spans[s].0 as int, spans[s].1 as int, hint)->0;
            if s < rest.len() {
                assert(rest[s] == spans[s]);
                assert(before.contains(m));
                let k = choose|k: int| 0 <= k < before.len() && before[k] == m;
                assert(all[k] == m);
            } else {
                assert(all[all.len() - 1] == m);
            }
        }
        assert forall|k: int| 0 <= k < all.len() implies exists|s: int|
            0 <= s < spans.len() && cuttable(
                row_text(row),
                (#[trigger] spans[s]).0 as int,
                spans[s].1 as int,
            ) && span_match(row, line, spans[s].0 as int, spans[s].1 as int, hint) == Some(
                #[trigger] all[k],
            ) by {
            if k < before.len() {
                assert(all[k] == before[k]);
                let s = choose|s: int|
                    0 <= s < rest.len() && cuttable(
                        row_text(row),
                        (#[trigger] rest[s]).0 as int,
                        rest[s].1 as int,
                    ) && span_match(row, line, rest[s].0 as int, rest[s].1 as int, hint) == Some(
                        before[k],
                    );
                assert(spans[s] == rest[s]);
            } else {
                assert(spans[spans.len() - 1] == spans.last());
            }
        }
    }
}

/// What a span that a pattern marks in a row of a screen comes to: nothing where its
/// ends cut characters, or nothing is left of its text.
pub open spec fn marked_match(
    screen: &HintScreen,
    pattern: Seq<char>,
    hint: Rc<Hint>,
    r: int,
    s: int,
) -> Option<FoundMatch> {
    let row = screen.rows@[r]@;
    let span = marked_spans(pattern, row_text(row))[s];
    if cuttable(row_text(row), span.0 as int, span.1 as int) {
        span_match(
            row,
            (r - screen.display_offset) as i32,
            span.0 as int,
            span.1 as int,
            hint,
        )
    } else {
        None
    }
}

/// Every span that a pattern marks in a row of a screen is a match, unless nothing
/// is left of its text.
pub proof fn law_marked_spans_are_matches(
    screen: &HintScreen,
    pattern: Seq<char>,
    hint: Rc<Hint>,
    n: int,
    r: int,
    s: int,
)
    requires
        0 <= r < n <= screen.rows@.len(),
        0 <= s < marked_spans(pattern, row_text(screen.rows@[r]@)).len(),
        marked_match(screen, pattern, hint, r, s) is Some,
    ensures
        regex_matches(screen, pattern, hint, n).contains(
            marked_match(screen, pattern, hint, r, s)->0,
        ),
    decreases n,
{
    let m = marked_match(screen, pattern, hint, r, s)->0;
    let row = screen.rows@[n - 1]@;
    let line = (n - 1 - screen.display_offset) as i32;
    let spans = marked_spans(pattern, row_text(row));
    let before = regex_matches(screen, pattern, hint, n - 1);
    let more = spans_matches(row, line, spans, hint);
    let all = regex_matches(screen, pattern, hint, n);
    assert(all == before + more);
    if r < n - 1 {
        law_marked_spans_are_matches(screen, pattern, hint, n - 1, r, s);
        let k = choose|k: int| 0 <= k < before.len() && before[k] == m;
        assert(all[k] == m);
    } else {
        lemma_spans_matches(row, line, spans, hint);
        assert(span_match(row, line, spans[s].0 as int, spans[s].1 as int, hint) == Some(m));
        assert(more.contains(m));
        let k = choose|k: int| 0 <= k < more.len() && more[k] == m;
        assert(all[before.len() + k] == m);
    }
}

/// Each match of a pattern comes from a span that it marks in a row of the screen.
pub proof fn law_matches_come_from_marked_spans(
    screen: &HintScreen,
    pattern: Seq<char>,
    hint: Rc<Hint>,
    n: int,
    k: int,
)
    requires
        0 <= n <= screen.rows@.len(),
        0 <= k < regex_matches(screen, pattern, hint, n).len(),
    ensures
        exists|r: int, s: int|
            0 <= r < n && 0 <= s < marked_spans(pattern, row_text(screen.rows@[r]@)).len()
                && #[trigger] marked_match(screen, pattern, hint, r, s) == Some(
                regex_matches(screen, pattern, hint, n)[k],
            ),
    decreases n,
{
    let row = screen.rows@[n - 1]@;
    let line = (n - 1 - screen.display_offset) as i32;
    let spans = marked_spans(pattern, row_text(row));
    let before = regex_matches(screen, pattern, hint, n - 1);
    let more = spans_matches(row, line, spans, hint);
    let all = regex_matches(screen, pattern, hint, n);
    assert(all == before + more);
    if k < before.len() {
        law_matches_come_from_marked_spans(screen, pattern, hint, n - 1, k);
        assert(all[k] == before[k]);
        let (r, s) = choose|r: int, s: int|
            0 <= r < n - 1 && 0 <= s < marked_spans(pattern, row_text(screen.rows@[r]@)).len()
                && #[trigger] marked_match(screen, pattern, hint, r, s) == Some(before[k]);
        assert(marked_match(screen, pattern, hint, r, s) == Some(all[k]));
    } else {
        lemma_spans_matches(row, line, spans, hint);
        assert(all[k] == more[k - before.len()]);
        let s = choose|s: int|
            0 <= s < spans.len() && cuttable(
                row_text(row),
                (#[trigger] spans[s]).0 as int,
                spans[s].1 as int,
            ) && span_match(row, line, spans[s].0 as int, spans[s].1 as int, hint) == Some(
                more[k - before.len()],
            );
        assert(marked_match(screen, pattern, hint, n - 1, s) == Some(all[k]));
    }
}

/// A match has the text between the first and the last character of its span, or
/// what is left of it as an address. It starts in the column of its first byte and
/// ends in that of its last one, of which a wide cell takes two.
pub proof fn law_match_shows_its_span(
    row: Seq<HintCell>,
    line: i32,
    hint: Rc<Hint>,
    a: int,
    b: int,
)
    requires
        0 <= a <= b <= row_text(row).len(),
    ensures
        ({
            let s = row_text(row);
            let cols = row_columns(row);
            let start = byte_len(s.take(a)) as int;
            let end = byte_len(s.take(b)) as int;
            let whole = s.subrange(a, b);
            let text = if hint.post_processing {
                processed_uri(whole)
            } else {
                whole
            };
            let m = span_match(row, line, start, end, hint);
            &&& cuttable(s, start, end)
            &&& a == b || text.len() == 0 ==> m is None
            &&& a < b && text.len() > 0 && end <= cols.len() ==> {
                let last = cols[start + byte_len(text) - 1];
                &&& m is Some
                &&& m->0.text == text
                &&& m->0.hint == hint
                &&& m->0.start.row == line
                &&& m->0.start.col == cols[start]
                &&& m->0.end.row == line
                &&& row[last as int].wide != Wide::Wide ==> m->0.end.col == last
                &&& row[last as int].wide == Wide::Wide && last < usize::MAX ==> m->0.end.col == last
                    + 1
            }
        }),
{
    let s = row_text(row);
    lemma_chars_before(s, a);
    lemma_chars_before(s, b);
    crate::text::lemma_byte_len_monotone(s, a, b);
}

/// The text of a row is what its cells show, one after the other: a blank for an
/// empty cell, and nothing for the second half of a wide one. Each byte of it
/// belongs to the column of the cell that it comes from.
pub proof fn law_row_text_is_what_its_cells_show(row: Seq<HintCell>, cell: HintCell)
    requires
        row.len() < usize::MAX,
    ensures
        row_text(Seq::empty()).len() == 0,
        row_columns(Seq::empty()).len() == 0,
        cell.wide == Wide::Spacer || cell.wide == Wide::LeadingSpacer ==> row_text(row.push(cell))
            == row_text(row) && row_columns(row.push(cell)) == row_columns(row),
        cell.wide != Wide::Spacer && cell.wide != Wide::LeadingSpacer ==> {
            let now = row_text(row.push(cell));
            let cols = row_columns(row.push(cell));
            let old = row_text(row).len() as int;
            &&& now.len() == old + cell.text@.len()
            &&& now.take(old) == row_text(row)
            &&& forall|i: int|
                0 <= i < cell.text@.len() ==> now[old + i] == if (#[trigger] cell.text@[i]) == '\0' {
                    ' '
                } else {
                    cell.text@[i]
                }
            &&& cols.take(row_columns(row).len() as int) == row_columns(row)
            &&& cols.len() == row_columns(row).len() + byte_len(now.skip(old))
            &&& forall|i: int|
                row_columns(row).len() <= i < cols.len() ==> #[trigger] cols[i] == row.len()
        },
{
    let longer = row.push(cell);
    assert(longer.drop_last() =~= row);
    let now = row_text(longer);
    let old = row_text(row).len() as int;
    if cell.wide == Wide::Spacer || cell.wide == Wide::LeadingSpacer {
        assert(now =~= row_text(row));
        assert(byte_len(cell.shown()) == 0);
        assert(row_columns(longer) =~= row_columns(row));
    } else {
        assert(now.take(old) =~= row_text(row));
        assert(now.skip(old) =~= cell.shown());
        assert(row_columns(longer).take(row_columns(row).len() as int) =~= row_columns(row));
    }
}

/// The cells of a run of one hyperlink, which none before or behind it belongs to.
pub open spec fn is_link_run(row: Seq<HintCell>, a: int, b: int, id: u16) -> bool {
    &&& 0 <= a < b <= row.len()
    &&& forall|i: int| a <= i < b ==> is_linked(#[trigger] row[i], id)
    &&& a > 0 ==> !is_linked(row[a - 1], id)
    &&& b < row.len() ==> !is_linked(row[b], id)
}

/// The cell belongs to the hyperlink.
pub open spec fn is_linked(cell: HintCell, id: u16) -> bool {
    cell.link matches Some(link) && link.id == id
}

proof fn lemma_run(row: Seq<HintCell>, from: int, id: u16)
    requires
        0 <= from <= row.len(),
    ensures
        ({
            let end = run_end(row, from, id);
            &&& from <= end <= row.len()
            &&& forall|i: int| from <= i < end ==> is_linked(#[trigger] row[i], id)
            &&& end < row.len() ==> !is_linked(row[end], id)
        }),
    decreases row.len() - from,
{
    lemma_run_end(row, from, id);
    if from < row.len() && is_linked(row[from], id) {
        lemma_run(row, from + 1, id);
    }
}

/// Each run of cells of one hyperlink is a match, unless nothing is left of its
/// address: it has the address as its text, starts in the first column of the run
/// and ends in its last.
#[verifier::rlimit(40)]
pub proof fn law_link_runs_are_matches(
    row: Seq<HintCell>,
    line: i32,
    hint: Rc<Hint>,
    a: int,
    b: int,
    id: u16,
)
    requires
        row.len() <= usize::MAX,
        is_link_run(row, a, b, id),
        hint_text(&hint, row[a].link->0.uri@).len() > 0,
    ensures
        link_matches(row, line, hint, 0).contains(
            FoundMatch {
                text: if hint.post_processing {
                    processed_uri(row[a].link->0.uri@)
                } else {
                    row[a].link->0.uri@
                },
                start: Pos { row: line, col: a as usize },
                end: Pos { row: line, col: (b - 1) as usize },
                hint,
            },
        ),
{
    lemma_link_found(row, line, hint, a, b, id, 0);
}

proof fn lemma_link_found(
    row: Seq<HintCell>,
    line: i32,
    hint: Rc<Hint>,
    a: int,
    b: int,
    id: u16,
    from: int,
)
    requires
        0 <= from <= a,
        row.len() <= usize::MAX,
        is_link_run(row, a, b, id),
        hint_text(&hint, row[a].link->0.uri@).len() > 0,
    ensures
        link_matches(row, line, hint, from).contains(
            FoundMatch {
                text: hint_text(&hint, row[a].link->0.uri@),
                start: Pos { row: line, col: a as usize },
                end: Pos { row: line, col: (b - 1) as usize },
                hint,
            },
        ),
    decreases row.len() - from,
{
    let m = FoundMatch {
        text: hint_text(&hint, row[a].link->0.uri@),
        start: Pos { row: line, col: a as usize },
        end: Pos { row: line, col: (b - 1) as usize },
        hint,
    };
    let all = link_matches(row, line, hint, from);
    assert(is_linked(row[a], id));
    match row[from].link {
        None => {
            assert(from != a);
            lemma_link_found(row, line, hint, a, b, id, from + 1);
        },
        Some(link) => {
            let end = run_end(row, from, link.id);
            lemma_run(row, from, link.id);
            lemma_run_end(row, from, link.id);
            assert(end > from);
            if from == a {
                assert(end == b) by {
                    if end < b {
                        assert(is_linked(row[end], id));
                    }
                    if b < end {
                        assert(is_linked(row[b], link.id));
                    }
                }
                assert(all[0] == m);
            } else {
                assert(end <= a) by {
                    if a < end {
                        assert(is_linked(row[a], link.id));
                        assert(is_linked(row[a - 1], link.id));
                    }
                }
                lemma_link_found(row, line, hint, a, b, id, end);
                let rest = link_matches(row, line, hint, end);
                let k = choose|k: int| 0 <= k < rest.len() && rest[k] == m;
                if hint_text(&hint, link.uri@).len() == 0 {
                    assert(all[k] == m);
                } else {
                    assert(all[k + 1] == m);
                }
            }
        },
    }
}

/// The hyperlinks of a screen are those of its rows, each in the line of its row.
pub proof fn law_links_of_a_screen_are_those_of_its_rows(
    screen: &HintScreen,
    hint: Rc<Hint>,
    n: int,
    r: int,
    m: FoundMatch,
)
    requires
        0 <= r < n <= screen.rows@.len(),
        link_matches(screen.rows@[r]@, (r - screen.display_offset) as i32, hint, 0).contains(m),
    ensures
        screen_link_matches(screen, hint, n).contains(m),
    decreases n,
{
    let before = screen_link_matches(screen, hint, n - 1);
    let all = screen_link_matches(screen, hint, n);
    let here = link_matches(
        screen.rows@[n - 1]@,
        (n - 1 - screen.display_offset) as i32,
        hint,
        0,
    );
    assert(all == before + here);
    if r < n - 1 {
        law_links_of_a_screen_are_those_of_its_rows(screen, hint, n - 1, r, m);
        let k = choose|k: int| 0 <= k < before.len() && before[k] == m;
        assert(all[k] == m);
    } else {
        let k = choose|k: int| 0 <= k < here.len() && here[k] == m;
        assert(all[before.len() + k] == m);
    }
}

/// Typing a label letter by letter chooses the match that it labels, and no other
/// one.
pub proof fn law_typed_label_chooses_its_match(labels: Seq<Seq<char>>, i: int)
    requires
        0 <= i < labels.len(),
        labels[i].len() > 0,
        forall|k: int| 0 <= k < labels[i].len() ==> !char_is_uppercase(#[trigger] labels[i][k]),
        forall|j: int|
            0 <= j < labels.len() && j != i ==> !is_prefix(labels[i], #[trigger] labels[j]),
    ensures
        last_continued(labels, labels[i].drop_last(), labels[i].last(), labels.len() as int)
            == Some(i),
        label_fits(labels[i], labels[i].drop_last()),
{
    let keys = labels[i].drop_last();
    let c = labels[i].last();
    assert forall|j: int| 0 <= j < labels.len() && j != i implies !continues(
        #[trigger] labels[j],
        keys,
        c,
    ) by {
        if continues(labels[j], keys, c) {
            assert forall|k: int| 0 <= k < labels[i].len() implies labels[j][k]
                == #[trigger] labels[i][k] by {
                if k < keys.len() {
                    assert(crate::hints::key_fits(labels[j][k], keys[k]));
                    assert(keys[k] == labels[i][k]);
                }
            }
            assert(labels[j].take(labels[i].len() as int) =~= labels[i]);
        }
    }
    assert(continues(labels[i], keys, c));
    lemma_last_continued(labels, keys, c, i, labels.len() as int);
}

proof fn lemma_last_continued(
    labels: Seq<Seq<char>>,
    keys: Seq<char>,
    c: char,
    i: int,
    n: int,
)
    requires
        0 <= i < n <= labels.len(),
        continues(labels[i], keys, c),
        forall|j: int|
            0 <= j < labels.len() && j != i ==> !continues(#[trigger] labels[j], keys, c),
    ensures
        last_continued(labels, keys, c, n) == Some(i),
    decreases n,
{
    if n - 1 != i {
        assert(!continues(labels[n - 1], keys, c));
        lemma_last_continued(labels, keys, c, i, n - 1);
    }
}

/// A label that no typed letter fits is never chosen.
pub proof fn law_other_keys_choose_nothing(
    labels: Seq<Seq<char>>,
    keys: Seq<char>,
    c: char,
    n: int,
)
    requires
        0 <= n <= labels.len(),
        forall|j: int|
            0 <= j < n && (#[trigger] labels[j]).len() > keys.len() ==> labels[j][keys.len() as int]
                != c && !(char_is_uppercase(c) && char_lowercase(c) == seq![
                labels[j][keys.len() as int],
            ]),
    ensures
        last_continued(labels, keys, c, n) is None,
    decreases n,
{
    if n > 0 {
        law_other_keys_choose_nothing(labels, keys, c, n - 1);
    }
}

/// A label was typed in capitals where it has a small letter, and each small
/// letter of it was typed as its capital.
pub proof fn law_capitals_are_typed_for_every_small_letter(label: Seq<char>, typed: Seq<char>)
    requires
        label.len() == typed.len(),
    ensures
        typed_in_capitals(label, typed) <==> {
            &&& exists|k: int|
                0 <= k < label.len() && crate::text::char_is_lowercase(#[trigger] label[k])
            &&& forall|k: int|
                0 <= k < label.len() && crate::text::char_is_lowercase(#[trigger] label[k])
                    ==> char_is_uppercase(typed[k]) && char_lowercase(typed[k]) == seq![label[k]]
        },
{
}

/// Labels are made of the letters alone. As long as there are letters enough, the
/// labels are the letters, in their order.
pub proof fn law_labels_are_made_of_the_letters(alphabet: Seq<char>, count: int)
    requires
        alphabet_suffices(alphabet, count),
        count >= 0,
    ensures
        count <= alphabet.len() ==> forall|i: int|
            0 <= i < count ==> #[trigger] labels_for(alphabet, count)[i] == seq![alphabet[i]],
        labels_for(alphabet, count).len() == count,
        are_made_of(labels_for(alphabet, count), alphabet),
{
    let singles = single_labels(alphabet);
    assert forall|i: int, k: int|
        #![trigger singles[i][k]]
        0 <= i < singles.len() && 0 <= k < singles[i].len() implies alphabet.contains(
        singles[i][k],
    ) by {
        assert(singles[i][k] == alphabet[i]);
    }
    lemma_grown_letters(alphabet, singles, count);
    let all = grown(alphabet, singles, count);
    let some = labels_for(alphabet, count);
    assert forall|i: int, k: int|
        #![trigger some[i][k]]
        0 <= i < some.len() && 0 <= k < some[i].len() implies alphabet.contains(some[i][k]) by {
        assert(some[i] == all[i]);
        assert(alphabet.contains(all[i][k]));
    }
}

/// Every character of some labels is one of the letters.
pub open spec fn are_made_of(labels: Seq<Seq<char>>, alphabet: Seq<char>) -> bool {
    forall|i: int, k: int|
        #![trigger labels[i][k]]
        0 <= i < labels.len() && 0 <= k < labels[i].len() ==> alphabet.contains(labels[i][k])
}

proof fn lemma_grown_letters(alphabet: Seq<char>, labels: Seq<Seq<char>>, count: int)
    requires
        are_made_of(labels, alphabet),
        labels.len() > 0,
        alphabet.len() >= 2 || labels.len() >= count,
    ensures
        are_made_of(grown(alphabet, labels, count), alphabet),
        grown(alphabet, labels, count).len() >= count,
        labels.len() >= count ==> grown(alphabet, labels, count) == labels,
    decreases crate::hints::missing(labels.len(), count),
{
    if labels.len() < count {
        let front = labels[0];
        let more = crate::hints::continued(alphabet, front);
        let next = labels.skip(1) + more;
        assert forall|i: int, k: int|
            #![trigger next[i][k]]
            0 <= i < next.len() && 0 <= k < next[i].len() implies alphabet.contains(
            next[i][k],
        ) by {
            let m = labels.len() - 1;
            if i < m {
                assert(next[i] == labels[i + 1]);
                assert(alphabet.contains(labels[i + 1][k]));
            } else {
                assert(next[i] == front.push(alphabet[i - m]));
                if k < front.len() {
                    assert(next[i][k] == labels[0][k]);
                } else {
                    assert(next[i][k] == alphabet[i - m]);
                }
            }
        }
        lemma_grown_letters(alphabet, next, count);
    }
}

/// How often a character stands in the first `n` of a text.
pub open spec fn times(s: Seq<char>, n: int, c: char) -> int
    decreases n,
{
    if n <= 0 {
        0
    } else {
        times(s, n - 1, c) + if s[n - 1] == c {
            1int
        } else {
            0int
        }
    }
}

/// An address ends before its first bracket that closes none: up to there every
/// closing bracket stands behind one that opens it.
pub proof fn law_address_ends_before_an_unbalanced_bracket(s: Seq<char>)
    ensures
        ({
            let end = unbalanced_at(s, 0, 0, 0);
            &&& 0 <= end <= s.len()
            &&& end < s.len() ==> (s[end] == ')' && times(s, end, '(') == times(s, end, ')')) || (
            s[end] == ']' && times(s, end, '[') == times(s, end, ']'))
            &&& forall|i: int|
                0 <= i < end ==> ((#[trigger] s[i]) == ')' ==> times(s, i, '(') > times(s, i, ')'))
            &&& forall|i: int|
                0 <= i < end ==> ((#[trigger] s[i]) == ']' ==> times(s, i, '[') > times(s, i, ']'))
        }),
{
    lemma_unbalanced(s, 0, 0, 0);
}

proof fn lemma_unbalanced(s: Seq<char>, from: int, parens: nat, brackets: nat)
    requires
        0 <= from <= s.len(),
        parens == times(s, from, '(') - times(s, from, ')'),
        brackets == times(s, from, '[') - times(s, from, ']'),
    ensures
        ({
            let end = unbalanced_at(s, from, parens, brackets);
            &&& from <= end <= s.len()
            &&& end < s.len() ==> (s[end] == ')' && times(s, end, '(') == times(s, end, ')')) || (
            s[end] == ']' && times(s, end, '[') == times(s, end, ']'))
            &&& forall|i: int|
                from <= i < end ==> ((#[trigger] s[i]) == ')' ==> times(s, i, '(') > times(
                    s,
                    i,
                    ')',
                ))
            &&& forall|i: int|
                from <= i < end ==> ((#[trigger] s[i]) == ']' ==> times(s, i, '[') > times(
                    s,
                    i,
                    ']',
                ))
        }),
    decreases s.len() - from,
{
    if from < s.len() {
        let c = s[from];
        if c == '(' {
            lemma_unbalanced(s, from + 1, parens + 1, brackets);
        } else if c == '[' {
            lemma_unbalanced(s, from + 1, parens, brackets + 1);
        } else if c == ')' {
            if parens > 0 {
                lemma_unbalanced(s, from + 1, (parens - 1) as nat, brackets);
            }
        } else if c == ']' {
            if brackets > 0 {
                lemma_unbalanced(s, from + 1, parens, (brackets - 1) as nat);
            }
        } else {
            lemma_unbalanced(s, from + 1, parens, brackets);
        }
    }
}

/// What is left of an address does not end with a character that ends a sentence,
/// and only such characters are taken off its end.
pub proof fn law_address_does_not_end_a_sentence(s: Seq<char>)
    ensures
        without_trailing(s).len() <= s.len(),
        without_trailing(s) == s.take(without_trailing(s).len() as int),
        without_trailing(s).len() > 0 ==> !ends_sentence(without_trailing(s).last()),
        forall|i: int|
            without_trailing(s).len() <= i < s.len() ==> ends_sentence(#[trigger] s[i]),
        processed_uri(s) == without_trailing(s.take(unbalanced_at(s, 0, 0, 0))),
    decreases s.len(),
{
    if s.len() > 0 && trails_uri(s.last()) {
        let rest = s.drop_last();
        law_address_does_not_end_a_sentence(rest);
        assert(without_trailing(s) =~= s.take(without_trailing(s).len() as int));
        assert forall|i: int| without_trailing(s).len() <= i < s.len() implies ends_sentence(
            #[trigger] s[i],
        ) by {
            if i < s.len() - 1 {
                assert(rest[i] == s[i]);
            }
        }
    } else {
        assert(s.take(s.len() as int) =~= s);
    }
}

/// The characters that end a sentence, or open what follows an address.
pub open spec fn ends_sentence(c: char) -> bool {
    seq!['.', ',', ':', ';', '?', '!', '(', '[', '\''].contains(c)
}

/// The characters that an address does not end with are those that end a sentence.
pub proof fn law_sentence_ends_are_not_part_of_addresses(c: char)
    ensures
        trails_uri(c) == ends_sentence(c),
{
    let all = seq!['.', ',', ':', ';', '?', '!', '(', '[', '\''];
    assert(all[0] == '.' && all[1] == ',' && all[2] == ':' && all[3] == ';' && all[4] == '?'
        && all[5] == '!' && all[6] == '(' && all[7] == '[' && all[8] == '\'');
}

/// Texts that are the same are listed once, in the order in which they came.
pub proof fn law_distinct_texts_are_listed_once(texts: Seq<Seq<char>>, text: Seq<char>)
    ensures
        distinct_texts(texts).no_duplicates(),
        distinct_texts(texts).contains(text) == texts.contains(text),
    decreases texts.len(),
{
    if texts.len() > 0 {
        let rest = texts.drop_last();
        law_distinct_texts_are_listed_once(rest, text);
        law_distinct_texts_are_listed_once(rest, texts.last());
        let before = distinct_texts(rest);
        let all = distinct_texts(texts);
        if texts.contains(text) {
            let i = choose|i: int| 0 <= i < texts.len() && texts[i] == text;
            if i < rest.len() {
                assert(rest[i] == text);
                let k = choose|k: int| 0 <= k < before.len() && before[k] == text;
                assert(all[k] == text);
            } else if !before.contains(text) {
                assert(all[all.len() - 1] == text);
            }
        }
        if all.contains(text) {
            let k = choose|k: int| 0 <= k < all.len() && all[k] == text;
            if k < before.len() {
                assert(before[k] == text);
                let i = choose|i: int| 0 <= i < rest.len() && rest[i] == text;
                assert(texts[i] == text);
            } else {
                assert(texts[texts.len() - 1] == text);
            }
        }
    }
}

/// A path from the root is put in the place of any other; a relative one stands
/// behind the directory that it is taken from, with one slash between them.
pub proof fn law_joined_paths_have_one_slash_between(base: Seq<char>, path: Seq<char>)
    ensures
        path.len() > 0 && path[0] == '/' ==> path_joined(base, path) == path,
        !(path.len() > 0 && path[0] == '/') && base.len() > 0 && base[base.len() - 1] != '/'
            ==> path_joined(base, path) == base + seq!['/'] + path,
        !(path.len() > 0 && path[0] == '/') && (base.len() == 0 || base[base.len() - 1] == '/')
            ==> path_joined(base, path) == base + path,
{
    assert(base.push('/') + path =~= base + seq!['/'] + path);
}

/// The first part of a path goes up to its first slash, and what is behind it is
/// the rest.
pub proof fn law_paths_are_cut_at_their_first_slash(s: Seq<char>)
    ensures
        before_slash(s).len() <= s.len(),
        before_slash(s) == s.take(before_slash(s).len() as int),
        forall|i: int| 0 <= i < before_slash(s).len() ==> (#[trigger] s[i]) != '/',
        before_slash(s).len() < s.len() ==> s[before_slash(s).len() as int] == '/' && s
            == before_slash(s) + seq!['/'] + behind_slash(s),
        before_slash(s).len() == s.len() ==> behind_slash(s).len() == 0,
    decreases s.len(),
{
    if s.len() > 0 && s[0] != '/' {
        let rest = s.skip(1);
        law_paths_are_cut_at_their_first_slash(rest);
        let n = before_slash(s).len() as int;
        assert(before_slash(s) =~= s.take(n));
        assert forall|i: int| 0 <= i < n implies (#[trigger] s[i]) != '/' by {
            if i > 0 {
                assert(rest[i - 1] == s[i]);
            }
        }
        if n < s.len() {
            assert(rest[n - 1] == s[n]);
            assert(s =~= before_slash(s) + seq!['/'] + behind_slash(s));
        }
    } else if s.len() > 0 {
        assert(s =~= before_slash(s) + seq!['/'] + behind_slash(s));
    } else {
        assert(s.take(0) =~= before_slash(s));
    }
}

/// What a text on the screen stands for as a path: one from the root is itself, a
/// relative one lies in the directory at hand, a tilde stands for the home
/// directory and a dollar sign for the value of a variable. An address of another
/// kind stands for no path, nor does a text of white space.
pub proof fn law_texts_stand_for_their_paths(
    text: Seq<char>,
    cwd: Option<Seq<char>>,
    home: Option<Seq<char>>,
    variable: Option<Seq<char>>,
)
    ensures
        ({
            let t = trimmed(text);
            let path = resolved_path(text, cwd, home, variable);
            &&& t.len() == 0 || names_scheme(t) ==> path is None
            &&& t.len() > 0 && !names_scheme(t) && t[0] == '/' ==> path == Some(t)
            &&& t.len() > 0 && !names_scheme(t) && t[0] != '/' && t[0] != '~' && t[0] != '$'
                ==> path == match cwd {
                Some(cwd) => Some(path_joined(cwd, t)),
                None => None,
            }
            &&& t.len() == 1 && t[0] == '~' && !names_scheme(t) && (home matches Some(home)
                && home.len() > 0 && home[0] == '/') ==> path == home && below_tilde(text) == Some(
                Seq::<char>::empty(),
            )
            &&& t.len() > 1 && t[0] == '~' && t[1] == '/' && !names_scheme(t) && (home matches Some(
                home,
            ) && home.len() > 0 && home[0] == '/') ==> path == Some(
                path_joined(home->0, t.skip(2)),
            ) && below_tilde(text) == Some(t.skip(2))
            &&& t.len() > 1 && t[0] == '$' && t[1] != '/' && !names_scheme(t) && (
            variable matches Some(value) && value.len() > 0 && value[0] == '/') ==> {
                &&& leading_variable(text) == Some(before_slash(t.skip(1)))
                &&& behind_slash(t.skip(1)).len() == 0 ==> path == variable
                &&& behind_slash(t.skip(1)).len() > 0 ==> path == Some(
                    path_joined(variable->0, behind_slash(t.skip(1))),
                )
            }
            &&& t.len() > 0 && t[0] == '~' && home is None && !names_scheme(t) && (t.len() == 1
                || t[1] == '/') ==> path is None
            &&& t.len() > 0 && t[0] == '$' && variable is None ==> path is None
        }),
{
    let t = trimmed(text);
    reveal_strlit("~/");
    reveal_strlit("~");
    reveal_strlit("$");
    crate::laws::texts::law_texts_occur_by_character(t, "~/"@, 0);
    crate::laws::texts::law_texts_occur_by_character(t, "$"@, 0);
    let tilde = "~/"@;
    let dollar = "$"@;
    assert(tilde[0] == '~' && tilde[1] == '/');
    assert(dollar[0] == '$');
    if t.len() == 1 && t[0] == '~' {
        assert(t =~= "~"@);
    }
    if t.len() > 1 {
        assert(t.skip(1)[0] == t[1]);
        law_paths_are_cut_at_their_first_slash(t.skip(1));
    }
    if home is Some && home->0.len() > 0 {
        law_joined_paths_have_one_slash_between(home->0, t.skip(2));
    }
    if variable is Some && variable->0.len() > 0 {
        law_joined_paths_have_one_slash_between(variable->0, behind_slash(t.skip(1)));
    }
}

/// Labels that fit what was typed are shown in their order, each without what was
/// typed of it.
pub proof fn law_fitting_labels_are_shown_without_what_was_typed(
    labels: Seq<Seq<char>>,
    keys: Seq<char>,
    n: int,
)
    requires
        0 <= n <= labels.len(),
    ensures
        ({
            let shown = fitting_labels(labels, keys, n);
            &&& forall|k: int|
                0 <= k < shown.len() ==> {
                    let (i, rest) = #[trigger] shown[k];
                    &&& 0 <= i < n
                    &&& label_fits(labels[i], keys)
                    &&& rest == labels[i].skip(keys.len() as int)
                }
            &&& forall|k: int, l: int|
                0 <= k < l < shown.len() ==> (#[trigger] shown[k]).0 < (#[trigger] shown[l]).0
            &&& forall|i: int|
                0 <= i < n && label_fits(#[trigger] labels[i], keys) ==> shown.contains(
                    (i, labels[i].skip(keys.len() as int)),
                )
        }),
    decreases n,
{
    if n > 0 {
        law_fitting_labels_are_shown_without_what_was_typed(labels, keys, n - 1);
        let before = fitting_labels(labels, keys, n - 1);
        let shown = fitting_labels(labels, keys, n);
        assert forall|i: int| 0 <= i < n && label_fits(#[trigger] labels[i], keys) implies shown.contains(
            (i, labels[i].skip(keys.len() as int)),
        ) by {
            let pair = (i, labels[i].skip(keys.len() as int));
            if i < n - 1 {
                let k = choose|k: int| 0 <= k < before.len() && before[k] == pair;
                assert(shown[k] == pair);
            } else {
                assert(shown[before.len() as int] == pair);
            }
        }
    }
}

/// Equal texts share a label, except where the place is what counts: for selecting,
/// and for moving the cursor there.
pub proof fn law_places_have_labels_of_their_own(hint: &Hint)
    ensures
        !hint.shares_by_text() <==> hint.action == (HintAction::Action {
            action: HintInternalAction::Select,
        }) || hint.action == (HintAction::Action { action: HintInternalAction::MoveViModeCursor }),
{
}

/// Hint mode is left where nothing is found; else the finds are shown.
pub proof fn law_mode_is_left_where_nothing_is_found(model: HintModel, screen: &HintScreen)
    ensures
        model.rebuilt(screen).matches.len() == 0 ==> model.updated(screen).active is None
            && model.updated(screen).matches.len() == 0 && model.updated(screen).labels.len() == 0
            && model.updated(screen).keys.len() == 0 && model.updated(screen).alphabet
            == model.rebuilt(screen).alphabet,
        model.rebuilt(screen).matches.len() > 0 ==> model.updated(screen) == model.rebuilt(screen),
{
}

/// Each match has one of the labels, found by its text or by its place; all letters
/// suffice as long as no two are the same but for their case, and a single one for a
/// single label.
pub proof fn law_matches_have_their_labels(model: HintModel, hint: &Hint, i: int)
    requires
        0 <= i < model.matches.len(),
    ensures
        ({
            let count = model.label_count(hint);
            let now = model.labelled(hint);
            let suffices = model.alphabet.len() > 0 && (model.alphabet.len() > 1 || count <= 1) && (
            forall|a: int, b: int|
                0 <= a < b < model.alphabet.len() ==> char_lowercase(#[trigger] model.alphabet[a])
                    != char_lowercase(#[trigger] model.alphabet[b]));
            &&& suffices ==> {
                &&& now.matches == model.matches
                &&& now.active == model.active
                &&& now.keys == model.keys
                &&& now.labels.len() == model.matches.len()
                &&& !hint.shares_by_text() ==> count == model.matches.len() && now.labels[i]
                    == labels_for(model.alphabet, count)[i]
            }
            &&& !suffices ==> now.active is None && now.matches.len() == 0 && now.labels.len() == 0
        }),
{
    let count = model.label_count(hint);
    assert(crate::hints::alphabet_suffices(model.alphabet, count) <==> (model.alphabet.len() > 0
        && (model.alphabet.len() > 1 || count <= 1) && (forall|a: int, b: int|
        0 <= a < b < model.alphabet.len() ==> char_lowercase(#[trigger] model.alphabet[a])
            != char_lowercase(#[trigger] model.alphabet[b]))));
}

} // verus!
