use rioterm::context::lifecycle::open_url_path;
use rioterm::context::title::{
    create_title_extra_from_context, shorten_below, shorten_path, title_at_home, update_title,
    ContextTitle, TitleSource,
};

fn source() -> TitleSource {
    TitleSource {
        columns: 64,
        lines: 84,
        title: String::new(),
        program: None,
        directory: None,
        process_path: None,
    }
}

#[test]
fn test_update_title() {
    let context = source();
    assert_eq!(update_title("", &context), String::from(""));
    assert_eq!(update_title("{{columns}}", &context), String::from("64"));
    assert_eq!(update_title("{{COLUMNS}}", &context), String::from("64"));
    assert_eq!(update_title("{{ COLUMNS }}", &context), String::from("64"));
    assert_eq!(update_title("{{ columns }}", &context), String::from("64"));
    assert_eq!(
        update_title("hello {{ COLUMNS }} AbC", &context),
        String::from("hello 64 AbC")
    );
    assert_eq!(update_title("hello {{ Lines }} AbC", &context), String::from("hello 84 AbC"));
    assert_eq!(update_title("{{ columns }}x{{lines}}", &context), String::from("64x84"));

    assert_eq!(update_title("{{ title }}", &context), String::from(""));
}

#[test]
fn test_update_title_with_logical_or() {
    let mut context = source();
    assert_eq!(update_title("", &context), String::from(""));
    // Title always starts empty
    assert_eq!(update_title("{{title}}", &context), String::from(""));

    assert_eq!(update_title("{{ title || columns }}", &context), String::from("64"));

    assert_eq!(update_title("{{ program || columns }}", &context), String::from("64"));

    assert_eq!(update_title("{{ title || title }}", &context), String::from(""));

    context.title = "Something".to_string();

    assert_eq!(update_title("{{ title || columns }}", &context), String::from("Something"));

    assert_eq!(update_title("{{ columns || title }}", &context), String::from("64"));

    context.directory = Some("/rio-sandbox-test-dir".to_string());

    assert_eq!(
        update_title("{{ absolute_path || title }}", &context),
        String::from("/rio-sandbox-test-dir"),
    );

    assert_eq!(
        update_title("{{ relative_path || title }}", &context),
        String::from("/rio-sandbox-test-dir"),
    );
}

#[test]
fn a_title_without_a_directory_is_made() {
    assert_eq!(update_title("{{ TITLE || RELATIVE_PATH }}", &source()), "");
}

#[test]
fn test_shorten_path() {
    // A prefix that cannot plausibly be the home directory.
    assert_eq!(shorten_path("/rio-sandbox-test-dir"), "/rio-sandbox-test-dir");
    assert_eq!(shorten_path("/rio-sandbox-test-dir/sub"), "/rio-sandbox-test-dir/sub");

    // Deep paths get truncated to last 3 components
    assert_eq!(shorten_path("/a/b/c/d/e"), "…/c/d/e");
    assert_eq!(shorten_path("/a/b/c/d"), "…/b/c/d");

    // 3 components stays as-is
    assert_eq!(shorten_path("/a/b/c"), "/a/b/c");
}

#[test]
fn the_home_directory_is_a_tilde() {
    assert_eq!(shorten_below("/home/me", Some("/home/me")), "~");
    assert_eq!(shorten_below("/home/me/src", Some("/home/me")), "~/src");
    assert_eq!(shorten_below("/home/me/a/b/c/d", Some("/home/me")), "…/b/c/d");
    assert_eq!(shorten_below("/home/mean", Some("/home/me")), "/home/mean");
    assert_eq!(
        shorten_below("/Users/rapha/Documents/a/rio", Some("/Users/rapha")),
        "~/Documents/a/rio"
    );
    // Elsewhere every part counts.
    assert_eq!(shorten_below("/Users/rapha/Documents/a/rio", None), "…/Documents/a/rio");
}

#[test]
fn unknown_variables_and_plain_text_stay() {
    let mut context = source();
    context.program = Some("vim".into());
    context.directory = Some("/home/me/src".into());
    assert_eq!(title_at_home("no slots", &context, None), "no slots");
    assert_eq!(title_at_home("{{ nothing }}!", &context, None), "{{ nothing }}!");
    assert_eq!(
        title_at_home("{{ program }} in {{ relative_path }}", &context, Some("/home/me")),
        "vim in ~/src"
    );
    assert_eq!(create_title_extra_from_context(&context).unwrap().program, "vim");
    assert!(create_title_extra_from_context(&source()).is_none());
    assert_eq!(ContextTitle::default().content, "~");
}

#[test]
fn a_file_address_is_its_path() {
    assert_eq!(
        open_url_path(Some("file:///etc/a%20b")),
        Some(("/etc/a b".to_string(), b"/etc/a b".to_vec()))
    );
    assert_eq!(
        open_url_path(Some("file:///etc/%FFb")),
        Some(("/etc/\u{fffd}b".to_string(), b"/etc/\xffb".to_vec()))
    );
    assert_eq!(open_url_path(Some("https://example.com/etc")), None);
    assert_eq!(open_url_path(None), None);
}
