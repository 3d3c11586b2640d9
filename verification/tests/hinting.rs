use std::collections::HashSet;
use std::rc::Rc;

use rioterm::hints::{
    extract_line_text_with_cols, find_hyperlink_matches, find_regex_matches, hint_labels, home_part,
    path_variable, post_process_hyperlink_uri, resolve_path_at_home, resolve_path_for_opening,
    step_over_span, Hint, HintAction, HintCell, HintCommand, HintInternalAction, HintLink,
    HintMatch, HintScreen, HintState, SpanStep,
};
use rioterm::terminal::{Pos, Wide};
use unicode_width::UnicodeWidthChar;

const URL_REGEX: &str = r#"(?:https?://|ftp://|file:|mailto:)[^\s<>"`\\^{}]+"#;

fn hint_with(action: HintAction, persist: bool, regex: &str) -> Rc<Hint> {
    Rc::new(Hint {
        regex: Some(regex.to_string()),
        hyperlinks: false,
        post_processing: true,
        persist,
        action,
    })
}

fn hint() -> Rc<Hint> {
    hint_with(HintAction::Action { action: HintInternalAction::Copy }, false, "test")
}

fn hint_match(text: &str, col: usize, hint: &Rc<Hint>) -> HintMatch {
    HintMatch {
        text: text.to_string(),
        start: Pos::new(0, col),
        end: Pos::new(0, col + text.chars().count().saturating_sub(1)),
        hint: hint.clone(),
    }
}

fn plain_cell(c: char, wide: Wide) -> HintCell {
    HintCell { text: vec![c], wide, link: None }
}

/// A row that shows `content`, with `columns` cells.
fn cells(content: &str, columns: usize) -> Vec<HintCell> {
    let mut row = Vec::new();
    for c in content.chars() {
        if c.width().unwrap_or(1) == 2 {
            row.push(plain_cell(c, Wide::Wide));
            row.push(plain_cell(' ', Wide::Spacer));
        } else {
            row.push(plain_cell(c, Wide::Narrow));
        }
    }
    while row.len() < columns {
        row.push(plain_cell('\0', Wide::Narrow));
    }
    row
}

/// A screen of one line that shows `content`, and some cells behind it.
fn screen_with_line(content: &str) -> HintScreen {
    let width: usize = content.chars().map(|c| c.width().unwrap_or(1)).sum();
    let columns = width.max(1) + 4;
    HintScreen { columns, display_offset: 0, rows: vec![cells(content, columns)] }
}

#[test]
fn test_label_generator() {
    assert_eq!(hint_labels("abc", 3), Some(vec![vec!['a'], vec!['b'], vec!['c']]));

    let labels = hint_labels("abc", 7).unwrap();
    assert_eq!(labels.len(), 7);
    assert_eq!(labels.iter().collect::<HashSet<_>>().len(), labels.len());
    assert!(labels
        .iter()
        .all(|label| labels.iter().all(|other| label == other || !other.starts_with(label))));
    assert_eq!(hint_labels("aaa", 2), None);
    assert_eq!(hint_labels("aA", 2), None);
}

#[test]
fn test_visible_labels() {
    let mut state = HintState::new("abc".to_string());
    state.labels = vec![vec!['a', 'a'], vec!['a', 'b'], vec!['b', 'a']];

    state.keys = vec!['a'];
    assert_eq!(state.visible_labels(), vec![(0, &['a'][..]), (1, &['b'][..])]);
}

#[test]
fn extraction_renders_empty_cells_as_spaces() {
    let screen = screen_with_line("");
    let (text, columns) = extract_line_text_with_cols(&screen.rows[0]);

    assert_eq!(text, " ".repeat(screen.columns));
    assert_eq!(columns.len(), screen.columns);
}

#[test]
fn uppercase_label_selects_copy_and_paste_variant() {
    let hint = hint();
    let screen = screen_with_line("test");
    let mut state = HintState::new("ab".to_string());
    state.active_hint = Some(hint.clone());
    state.matches = vec![hint_match("test", 0, &hint)];
    state.labels = vec![vec!['a', 'b']];

    assert!(state.keyboard_input(&screen, 'A').is_none());
    let (selected, paste) = state.keyboard_input(&screen, 'B').unwrap();

    assert_eq!(selected.text, "test");
    assert!(paste);
}

#[test]
fn lowercase_or_mixed_case_label_only_selects() {
    let hint = hint();
    let screen = screen_with_line("test");

    for input in [['a', 'b'], ['A', 'b']] {
        let mut state = HintState::new("ab".to_string());
        state.active_hint = Some(hint.clone());
        state.matches = vec![hint_match("test", 0, &hint)];
        state.labels = vec![vec!['a', 'b']];

        assert!(state.keyboard_input(&screen, input[0]).is_none());
        let (_, paste) = state.keyboard_input(&screen, input[1]).unwrap();
        assert!(!paste);
    }
}

#[test]
fn persistent_hint_remains_active_after_selection() {
    let hint =
        hint_with(HintAction::Action { action: HintInternalAction::Copy }, true, "test");
    let screen = screen_with_line("test");
    let mut state = HintState::new("ab".to_string());
    state.active_hint = Some(hint.clone());
    state.matches = vec![hint_match("test", 0, &hint)];
    state.labels = vec![vec!['a']];

    assert!(state.keyboard_input(&screen, 'a').is_some());
    assert!(state.is_active());
    assert!(state.keys.is_empty());
}

#[test]
fn scrolling_keeps_hint_mode_active_until_matches_reappear() {
    let mut screen = HintScreen {
        columns: 4,
        display_offset: 0,
        rows: vec![cells("", 4), cells("", 4)],
    };

    let mut state = HintState::new("ab".to_string());
    state.start(hint());

    state.refresh_matches(&screen);
    assert!(state.is_active());
    assert!(state.matches().is_empty());

    screen.display_offset = 1;
    screen.rows = vec![cells("test", 4), cells("", 4)];
    state.refresh_matches(&screen);
    assert!(state.is_active());
    assert_eq!(state.matches().len(), 1);
    assert_eq!(state.matches()[0].start, Pos::new(-1, 0));
    assert_eq!(state.visible_labels().len(), 1);
}

#[test]
fn repeated_matches_share_labels_unless_position_sensitive() {
    let labels_for = |action| {
        let hint = hint_with(action, false, "test");
        let mut state = HintState::new("abc".to_string());
        state.start(hint.clone());
        state.matches = ["foo", "bar", "foo"]
            .into_iter()
            .enumerate()
            .map(|(col, text)| hint_match(text, col, &hint))
            .collect();

        state.generate_labels();

        state.labels.into_iter().flatten().collect::<String>()
    };

    for action in [HintInternalAction::Copy, HintInternalAction::Paste, HintInternalAction::Open] {
        assert_eq!(labels_for(HintAction::Action { action }), "aba");
    }
    assert_eq!(
        labels_for(HintAction::Command { command: HintCommand::Simple("open".into()) }),
        "aba"
    );
    for action in [HintInternalAction::Select, HintInternalAction::MoveViModeCursor] {
        assert_eq!(labels_for(HintAction::Action { action }), "abc");
    }
}

#[test]
fn test_resolve_path_skips_scheme_urls() {
    assert!(resolve_path_for_opening("https://example.com", None, None).is_none());
    assert!(resolve_path_for_opening("mailto:a@b.c", None, None).is_none());
    assert!(resolve_path_for_opening("file:///tmp", None, None).is_none());
    assert!(resolve_path_for_opening("ssh://host/path", None, None).is_none());
}

#[test]
fn test_resolve_path_requires_cwd_for_relative() {
    // With no cwd and a relative path, we can't resolve; return None.
    assert!(resolve_path_for_opening("foo/bar.txt", None, None).is_none());
}

#[test]
fn paths_are_completed_by_directory_home_and_variable() {
    assert_eq!(
        resolve_path_for_opening("/etc/hosts", None, None).as_deref(),
        Some("/etc/hosts")
    );
    assert_eq!(
        resolve_path_for_opening("child.txt", Some("/tmp/dir"), None).as_deref(),
        Some("/tmp/dir/child.txt")
    );
    assert_eq!(
        resolve_path_for_opening("./child.txt", Some("/tmp/dir"), None).as_deref(),
        Some("/tmp/dir/./child.txt")
    );
    assert_eq!(
        resolve_path_at_home("~/notes", None, Some("/home/me"), None).as_deref(),
        Some("/home/me/notes")
    );
    assert_eq!(path_variable("$DIR/file.txt").as_deref(), Some("DIR"));
    assert_eq!(path_variable("/DIR/file.txt"), None);
    assert_eq!(
        resolve_path_for_opening("$DIR/file.txt", None, Some("/srv")).as_deref(),
        Some("/srv/file.txt")
    );
}

#[test]
fn a_path_from_home_is_told_apart() {
    assert_eq!(home_part(" ~/src/a ").as_deref(), Some("src/a"));
    assert_eq!(home_part("~").as_deref(), Some(""));
    assert_eq!(home_part("~me/src"), None);
    assert_eq!(home_part("/etc"), None);
}

#[test]
fn a_search_that_gives_up_marks_nothing() {
    let screen = screen_with_line(&"x".repeat(60));
    let hint = hint_with(
        HintAction::Action { action: HintInternalAction::Copy },
        false,
        "(x+x+)+[yz]",
    );
    let mut matches = Vec::new();
    find_regex_matches(&mut matches, &screen, "(x+x+)+[yz]", &hint);
    assert!(matches.is_empty());
    find_regex_matches(&mut matches, &screen, "(", &hint);
    assert!(matches.is_empty());
    find_regex_matches(&mut matches, &screen, "x{30}", &hint);
    assert_eq!(matches.len(), 2);
}

/// The columns of every match of `pattern` on a line that shows `content`.
fn columns_of(pattern: &str, content: &str) -> Vec<(usize, usize)> {
    let hint = hint_with(
        HintAction::Action { action: HintInternalAction::Copy },
        false,
        pattern,
    );
    let mut matches = Vec::new();
    find_regex_matches(&mut matches, &screen_with_line(content), pattern, &hint);
    matches.iter().map(|m| (m.start.col, m.end.col)).collect()
}

#[test]
fn a_span_that_is_found_again_counts_once() {
    assert_eq!(columns_of(r"(?<=\Ka)", "a"), [(0, 0)]);
    assert_eq!(columns_of(r"(?<=\Ka)", "aba"), [(0, 0)]);
}

#[test]
fn empty_spans_are_stepped_over() {
    assert_eq!(columns_of("b*", "aabaab"), [(2, 2), (5, 5)]);
    assert_eq!(columns_of("x*", "\u{e9}x\u{e9}xx"), [(1, 1), (3, 4)]);
    assert_eq!(columns_of("ab|b", "abbab"), [(0, 1), (2, 2), (3, 4)]);
}

#[test]
fn a_walk_goes_on_behind_each_span() {
    let text = ['\u{e9}', 'x'];
    assert_eq!(step_over_span(&text, 0, None, 0, 2), SpanStep::Take(2));
    assert_eq!(step_over_span(&text, 0, None, 0, 0), SpanStep::Take(0));
    assert_eq!(step_over_span(&text, 0, Some(0), 0, 0), SpanStep::Skip(2));
    assert_eq!(step_over_span(&text, 2, Some(2), 2, 2), SpanStep::Skip(3));
    assert_eq!(step_over_span(&text, 3, Some(3), 3, 3), SpanStep::Stop);
    assert_eq!(step_over_span(&text, 2, Some(2), 0, 2), SpanStep::Stop);
    assert_eq!(step_over_span(&text, 0, None, 0, 1), SpanStep::Stop);
}

/// Every match on the first line of `screen` as its columns and its text.
fn url_matches(screen: &HintScreen) -> Vec<(usize, usize, String)> {
    let hint = hint_with(
        HintAction::Action { action: HintInternalAction::Copy },
        false,
        URL_REGEX,
    );
    let mut matches = Vec::new();
    find_regex_matches(&mut matches, screen, URL_REGEX, &hint);
    let mut out: Vec<(usize, usize, String)> =
        matches.into_iter().map(|m| (m.start.col, m.end.col, m.text)).collect();
    out.sort_by_key(|(s, _, _)| *s);
    out
}

/// The first and last column of `needle` where `content` is shown.
fn col_of_substr(content: &str, needle: &str) -> (usize, usize) {
    let byte_start = content.find(needle).expect("needle in content");
    let mut col = 0usize;
    let mut byte = 0usize;
    let mut start_col = None;
    let mut end_col = 0usize;
    let needle_end = byte_start + needle.len();
    for c in content.chars() {
        let len = c.len_utf8();
        if start_col.is_none() && byte >= byte_start {
            start_col = Some(col);
        }
        if byte < needle_end {
            let width = c.width().unwrap_or(1).max(1);
            end_col = col + width - 1;
        }
        byte += len;
        col += c.width().unwrap_or(1).max(1);
    }
    (start_col.expect("needle found"), end_col)
}

fn assert_single_url(content: &str, expected_url: &str) {
    let screen = screen_with_line(content);
    let matches = url_matches(&screen);
    assert_eq!(
        matches.len(),
        1,
        "expected exactly one URL match for line {:?}, got {:?}",
        content,
        matches
    );
    let (start_col, end_col, text) = &matches[0];
    let (expected_start, expected_end) = col_of_substr(content, expected_url);
    assert_eq!(text, expected_url, "matched text mismatch for line {:?}", content);
    assert_eq!(*start_col, expected_start, "start column mismatch for line {:?}", content);
    assert_eq!(*end_col, expected_end, "end column mismatch for line {:?}", content);
}

#[test]
fn issue_1619_url_hitboxes_follow_visible_columns() {
    for (content, url) in [
        ("https://example.com", "https://example.com"),
        ("ab https://example.com/ascii", "https://example.com/ascii"),
        ("😀 https://example.com/emoji", "https://example.com/emoji"),
        ("世界 https://example.com/cjk", "https://example.com/cjk"),
        ("⏺ https://linear.app/ENG-993", "https://linear.app/ENG-993"),
        ("🎉🎉🎉 https://example.com/party", "https://example.com/party"),
        ("a😀b⏺c https://example.com/mix", "https://example.com/mix"),
        ("(😀 https://example.com/end)", "https://example.com/end"),
        ("see https://example.com/page.", "https://example.com/page"),
    ] {
        assert_single_url(content, url);
    }
}

#[test]
fn linked_cells_are_one_match() {
    let mut row = cells("see link", 10);
    for cell in &mut row[4..8] {
        cell.link = Some(HintLink { id: 3, uri: "https://example.com/a.".into() });
    }
    let screen = HintScreen { columns: 10, display_offset: 0, rows: vec![row] };
    let mut matches = Vec::new();
    find_hyperlink_matches(&mut matches, &screen, &hint());
    assert_eq!(matches.len(), 1);
    assert_eq!((matches[0].start, matches[0].end), (Pos::new(0, 4), Pos::new(0, 7)));
}

#[test]
fn closing_brackets_and_full_stops_end_an_address() {
    assert_eq!(post_process_hyperlink_uri("https://a.b/c)."), "https://a.b/c");
    assert_eq!(post_process_hyperlink_uri("https://a.b/(c)"), "https://a.b/(c)");
    let once = post_process_hyperlink_uri("https://a.b/c!,;");
    assert_eq!(post_process_hyperlink_uri(&once), once);
}

#[test]
fn labels_are_typed_away_from_the_end() {
    let hint = hint();
    let screen = screen_with_line("test test");
    let mut state = HintState::new("ab".to_string());
    state.start(hint_with(
        HintAction::Action { action: HintInternalAction::Select },
        false,
        "test",
    ));
    state.update_matches(&screen);
    assert_eq!(state.matches().len(), 2);
    assert_eq!(state.labels, [vec!['a'], vec!['b']]);
    assert!(state.keyboard_input(&screen, 'x').is_none());
    assert!(state.is_active());
    let (chosen, paste) = state.keyboard_input(&screen, 'b').unwrap();
    assert_eq!(chosen.start, Pos::new(0, 5));
    assert!(!paste);
    assert!(!state.is_active());
    drop(hint);
}
