use rioterm::context::manager::{ContextManager, ContextManagerConfig, Shell};
use rioterm::context::pane::IdSource;
use rioterm::context::renderable::{BackgroundState, Cursor, RenderableContent, WindowColor};
use rioterm::renderer::assistant::{visible_lines, AssistantOverlay, RioError, RioErrorLevel};
use rioterm::renderer::frame::{advance_blink, OverlayState, Renderer, RendererConfig};
use rioterm::renderer::palette::{CellStyle, Paint, Palette, StyleFlags};
use rioterm::renderer::tooltip::{elide_tail, is_printable_text};
use rioterm::renderer::wrap::wrap_text;
use rioterm::terminal::{AnsiColor, ColorBits, ColorRgb, NamedColor};

fn palette(draw_bold_text_with_light_colors: bool) -> Palette {
    Palette {
        colors: (0..269).map(|i| ColorBits { r: i, g: 0, b: 0, a: 0 }).collect(),
        draw_bold_text_with_light_colors,
        has_light_foreground: false,
    }
}

fn style(bg: AnsiColor, dim: bool, bold: bool, inverse: bool) -> CellStyle {
    CellStyle { bg, flags: StyleFlags { dim, bold, inverse } }
}

fn window_color(r: f64) -> WindowColor {
    WindowColor { r: r.to_bits(), g: 0, b: 0, a: 1.0f64.to_bits() }
}

#[test]
fn a_window_takes_a_color_once() {
    let config = ContextManagerConfig {
        shell: Shell { program: None, args: Vec::new() },
        working_dir: None,
        cwd: false,
        is_native: false,
        should_update_title_extra: false,
        title_template: String::new(),
        scrollback_history_limit: 10_000,
        grapheme_clustering: false,
        closes_last_tab: false,
    };
    let mut manager = ContextManager::start_with_capacity(2, 1, config, &mut IdSource::new());
    let mut renderer = Renderer::new(RendererConfig {
        palette: palette(false),
        background: window_color(0.0),
        background_alpha: 1.0f64.to_bits(),
        is_translucent: false,
        has_background_image: false,
        is_game_mode: false,
        has_blinking_enabled: false,
        blinking_interval: 500,
        dims_unfocused_splits: false,
        has_scrollbar: false,
        use_drawable_chars: false,
        ignore_selection_fg_color: false,
        opacity_cells: false,
        cell_bg_alpha: 255,
        trail_cursor_enabled: false,
    });
    let overlays = OverlayState { command_palette: false, search: false, confirm_quit: false };
    let mut drawn = |manager: &mut ContextManager| renderer.run(manager, overlays, 0).window_update;
    assert_eq!(drawn(&mut manager), Some(window_color(0.0)));
    assert_eq!(drawn(&mut manager), None);
    let set = |manager: &mut ContextManager, r: f64| {
        let content = &mut manager.current_mut().renderable_content;
        content.background = Some(BackgroundState::Custom(window_color(r)));
    };
    set(&mut manager, -0.0);
    assert_eq!(drawn(&mut manager), None);
    set(&mut manager, 0.5);
    assert_eq!(drawn(&mut manager), Some(window_color(0.5)));
    assert_eq!(drawn(&mut manager), None);
    set(&mut manager, f64::NAN);
    assert!(drawn(&mut manager).is_some());
    assert!(drawn(&mut manager).is_some());
}

#[test]
fn test_wrap_text_basic() {
    let text = "hello world from rio terminal emulator";
    // 1 char = 10 width
    let lines = wrap_text(text, 100, |s: String| s.len() as u64 * 10);
    assert_eq!(lines[0], "hello");
    assert_eq!(lines[1], "world from");
    assert_eq!(lines[2], "rio");
    assert_eq!(lines[3], "terminal");
    assert_eq!(lines[4], "emulator");
}

#[test]
fn test_wrap_text_long_word() {
    let text = "short /home/user/very_long_path_without_spaces_here_that_exceeds_width done";
    let lines = wrap_text(text, 100, |s: String| s.len() as u64 * 10);
    assert_eq!(lines[0], "short");
    for line in &lines {
        assert!((line.len() as f32 * 10.0) <= 100.0, "line overflows: {line:?}");
    }
    assert!(lines.last().unwrap().ends_with("done"));
}

#[test]
fn test_wrap_text_preserves_empty_lines() {
    let text = "paragraph 1\n\nparagraph 2";
    let lines = wrap_text(text, 200, |s: String| s.len() as u64 * 10);
    assert_eq!(lines.len(), 3);
    assert_eq!(lines[0], "paragraph 1");
    assert_eq!(lines[1], "");
    assert_eq!(lines[2], "paragraph 2");
}

#[test]
fn test_wrap_text_stale_working_directory() {
    let text = "Working directory \"/home/mirsella/dev/mightyminions/androidsdk\" is not available; started in \"/home/mirsella\" instead.";
    let lines = wrap_text(text, 400, |s: String| s.len() as u64 * 8);
    for line in &lines {
        assert!((line.len() as f32 * 8.0) <= 400.0);
    }
    assert!(lines.len() > 1);
}

/// Same rule for a background as for the field around it.
#[test]
fn dim_leaves_an_explicit_rgb_background_alone() {
    let r = palette(false);
    let colors = vec![None; 269];
    let bg = ColorRgb { r: 0x28, g: 0x2c, b: 0x34 };

    let plain = r.compute_bg_color(&style(AnsiColor::Spec(bg), false, false, false), &colors);
    let dimmed = r.compute_bg_color(&style(AnsiColor::Spec(bg), true, false, false), &colors);

    assert_eq!(plain, Paint::Rgb(bg));
    assert_eq!(dimmed, plain);
}

#[test]
fn dim_leaves_an_indexed_background_alone() {
    let r = palette(false);
    let colors = vec![None; 269];

    for idx in [1u8, 9] {
        let dimmed =
            r.compute_bg_color(&style(AnsiColor::Indexed(idx), true, false, false), &colors);
        assert_eq!(dimmed, Paint::Table(r.colors[idx as usize]), "index {idx}");
    }
}

#[test]
fn inverse_still_dims_the_swapped_foreground() {
    let r = palette(false);
    let colors = vec![None; 269];
    let fg = ColorRgb { r: 0xab, g: 0xb2, b: 0xbf };

    let spec = r.compute_bg_color(&style(AnsiColor::Spec(fg), true, false, true), &colors);
    assert_eq!(spec, Paint::DimRgb(fg));

    let indexed = r.compute_bg_color(&style(AnsiColor::Indexed(1), true, false, true), &colors);
    assert_eq!(indexed, Paint::Table(r.colors[NamedColor::DimBlack.index() + 1]));
}

#[test]
fn inverse_dims_a_named_swapped_foreground() {
    let r = palette(false);
    let colors = vec![None; 269];
    let foreground = AnsiColor::Named(NamedColor::Foreground);

    let plain = r.compute_bg_color(&style(foreground, true, false, false), &colors);
    assert_eq!(plain, Paint::Table(r.colors[NamedColor::Foreground.index()]));

    let inverted = r.compute_bg_color(&style(foreground, true, false, true), &colors);
    assert_eq!(inverted, Paint::Table(r.colors[NamedColor::DimForeground.index()]));
}

#[test]
fn bold_brightens_an_indexed_background_only_under_inverse() {
    let r = palette(true);
    let colors = vec![None; 269];

    let plain = r.compute_bg_color(&style(AnsiColor::Indexed(1), false, true, false), &colors);
    assert_eq!(plain, Paint::Table(r.colors[1]));

    let inverted = r.compute_bg_color(&style(AnsiColor::Indexed(1), false, true, true), &colors);
    assert_eq!(inverted, Paint::Table(r.colors[9]));
}

#[test]
fn faint_text_keeps_its_color_and_numbered_colors_have_faint_slots() {
    let r = palette(false);
    let colors = vec![None; 269];
    let faint = StyleFlags { dim: true, bold: false, inverse: false };
    let plain = StyleFlags { dim: false, bold: false, inverse: false };
    let fg = ColorRgb { r: 1, g: 2, b: 3 };
    assert_eq!(r.compute_color(&AnsiColor::Spec(fg), faint, &colors), Paint::FaintRgb(fg));
    assert_eq!(r.compute_color(&AnsiColor::Spec(fg), plain, &colors), Paint::Rgb(fg));
    assert_eq!(
        r.compute_color(&AnsiColor::Indexed(9), faint, &colors),
        Paint::Table(r.colors[1])
    );
    assert_eq!(
        r.compute_color(&AnsiColor::Indexed(2), faint, &colors),
        Paint::Table(r.colors[NamedColor::DimGreen.index()])
    );
    assert_eq!(
        r.compute_color(&AnsiColor::Named(NamedColor::Red), plain, &colors),
        Paint::Table(r.colors[1])
    );
}

#[test]
fn a_terminal_color_goes_before_the_table() {
    let r = palette(false);
    let mut colors = vec![None; 269];
    let own = ColorBits { r: 1, g: 2, b: 3, a: 4 };
    colors[1] = Some(own);
    assert_eq!(
        r.compute_bg_color(&style(AnsiColor::Indexed(1), false, false, false), &colors),
        Paint::Table(own)
    );
}

/// Every char is 10 wide.
fn measure(s: String) -> u64 {
    s.chars().count() as u64 * 10
}

#[test]
fn text_that_fits_is_returned_untouched() {
    assert_eq!(elide_tail("https://example.com", 1000, measure), "https://example.com");
}

#[test]
fn long_text_keeps_its_head_and_fits_the_budget() {
    let out = elide_tail("https://example.com/a/very/long/path", 100, measure);
    assert_eq!(out, "https://e\u{2026}");
    assert!(measure(out) <= 100);
}

#[test]
fn truncation_takes_the_longest_prefix_that_fits() {
    let text = "https://example.com/path";
    for budget in 1..40usize {
        let out = elide_tail(text, budget as u64 * 10, measure);
        assert_eq!(
            out.chars().count(),
            budget.min(text.chars().count()),
            "budget {budget} produced {out:?}",
        );
    }
}

#[test]
fn zero_budget_yields_just_an_ellipsis() {
    assert_eq!(elide_tail("abc", 0, measure), "\u{2026}");
}

#[test]
fn multibyte_text_is_sliced_on_char_boundaries() {
    assert_eq!(elide_tail("héllo wörld", 40, measure), "hél\u{2026}");
}

#[test]
fn control_characters_are_not_shown() {
    assert!(is_printable_text("https://example.com"));
    assert!(!is_printable_text("a\u{7}b"));
    assert!(!is_printable_text("\u{1f}"));
    assert!(is_printable_text(" ~"));
    assert!(!is_printable_text("\u{7f}"));
    assert!(!is_printable_text("\u{9f}"));
    assert!(is_printable_text("\u{a0}"));
}

#[test]
fn an_error_goes_before_a_warning() {
    let mut overlay = AssistantOverlay::default();
    assert!(!overlay.is_active());
    assert_eq!(overlay.heading(), None);
    overlay.set_warning("fonts".into());
    assert!(overlay.is_active());
    assert!(!overlay.is_error());
    overlay.set_error(RioError { report: "broken".into(), level: RioErrorLevel::Error });
    assert!(overlay.is_error());
    overlay.clear();
    assert!(!overlay.is_active());
    assert_eq!(visible_lines(3), 3);
    assert_eq!(visible_lines(99), 16);
}

#[test]
fn typing_keeps_the_cursor_visible() {
    let mut content = RenderableContent::new(Cursor::default());
    content.has_blinking_enabled = true;
    content.blinking_cursor = true;
    content.is_blinking_cursor_visible = false;
    content.last_typing = Some(1_000);
    advance_blink(&mut content, true, 500, 1_500);
    assert!(content.is_blinking_cursor_visible);
}
