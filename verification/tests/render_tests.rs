use cargo_loom::render::{pad_left, CargoFormatter, DisplayOpt, Level, Piece, Prefixed, Span, Visitor};
use cargo_loom::trace::{Style, Styles};

fn styles() -> Styles {
    Styles::with(true)
}

fn piece(text: &str, style: Style) -> Piece {
    Piece { text: text.to_string(), style }
}

fn plain(text: &str) -> Piece {
    piece(text, Style { color: None, bold: false })
}

fn visitor(level: Level, from_escargot: bool) -> Visitor {
    CargoFormatter { styles: styles() }.visitor(level, from_escargot)
}

fn text(pieces: &[Piece]) -> String {
    pieces.iter().map(|p| p.text.as_str()).collect()
}

#[test]
fn fresh_visitor_has_written_nothing() {
    let v = visitor(Level::Warn, true);
    assert_eq!(v.level, Level::Warn);
    assert!(v.is_empty);
    assert!(!v.did_cargo_format);
    assert!(v.from_escargot);
    assert!(v.written.is_empty());
    assert_eq!(v.styles, styles());
}

#[test]
fn padding_sets_flush_right() {
    assert_eq!(pad_left("abc", 12), "         abc");
    assert_eq!(pad_left("", 3), "   ");
    assert_eq!(pad_left("exactly12chr", 12), "exactly12chr");
    assert_eq!(pad_left("more than twelve", 12), "more than twelve");
    assert_eq!(pad_left("\u{e9}\u{e9}", 4), "  \u{e9}\u{e9}");
    assert_eq!(pad_left("x", 0), "x");
}

#[test]
fn info_message_with_a_tag_is_written_in_cargo_manner() {
    let mut v = visitor(Level::Info, false);
    v.record_debug("message", "compiling mycrate v0.1.0");
    assert_eq!(
        v.written,
        vec![piece("   Compiling", styles().info), plain(" "), plain("mycrate v0.1.0")]
    );
    assert!(v.did_cargo_format);
    assert!(!v.is_empty);
}

#[test]
fn tag_is_set_in_title_case() {
    let mut v = visitor(Level::Info, false);
    v.record_debug("message", "re_running test");
    assert_eq!(v.written[0], piece("  Re Running", styles().info));
    assert_eq!(text(&v.written), "  Re Running test");
    let mut v = visitor(Level::Info, false);
    v.record_debug("message", "alreadyDon_x test");
    assert_eq!(text(&v.written), "Already Don X test");
}

#[test]
fn tag_of_more_than_twelve_bytes_is_no_tag() {
    let mut v = visitor(Level::Info, false);
    v.record_debug("message", "thirteen_char rest");
    assert!(!v.did_cargo_format);
    assert_eq!(
        v.written,
        vec![
            piece("info", styles().info),
            piece(":", styles().bold),
            plain(" "),
            piece("thirteen_char rest", styles().bold),
        ]
    );
    let mut v = visitor(Level::Info, false);
    v.record_debug("message", "twelve_chars rest");
    assert!(v.did_cargo_format);
}

#[test]
fn message_without_a_space_follows_the_level() {
    let mut v = visitor(Level::Info, false);
    v.record_debug("message", "done");
    assert!(!v.did_cargo_format);
    assert_eq!(text(&v.written), "info: done");
}

#[test]
fn only_info_gets_a_cargo_tag() {
    let mut v = visitor(Level::Debug, false);
    v.record_debug("message", "checkpointed test");
    assert!(!v.did_cargo_format);
    assert_eq!(
        v.written,
        vec![
            piece("debug", styles().debug),
            piece(":", styles().bold),
            plain(" "),
            piece("checkpointed test", styles().bold),
        ]
    );
}

#[test]
fn every_level_has_its_word_and_style() {
    let cases = [
        (Level::Error, "error", styles().error),
        (Level::Warn, "warning", styles().warn),
        (Level::Info, "info", styles().info),
        (Level::Debug, "debug", styles().debug),
        (Level::Trace, "trace", styles().trace),
    ];
    for (level, word, style) in cases {
        let mut v = visitor(level, false);
        v.record_debug("path", "\"/x\"");
        assert_eq!(
            v.written,
            vec![
                piece(word, style),
                piece(":", styles().bold),
                plain(" "),
                piece("path", styles().bold),
                piece(":", styles().bold),
                plain(" "),
                plain("\"/x\""),
            ]
        );
    }
}

#[test]
fn later_fields_follow_a_comma() {
    let mut v = visitor(Level::Error, false);
    v.record_debug("message", "boom");
    v.record_debug("suite", "mysuite");
    v.record_debug("message", "again");
    assert_eq!(text(&v.written), "error: boom, suite: mysuite, again");
    assert_eq!(v.written[4], plain(", "));
}

#[test]
fn log_fields_are_passed_over() {
    let mut v = visitor(Level::Error, false);
    v.record_debug("log.target", "cargo");
    v.record_debug("log.line", "12");
    assert!(v.written.is_empty());
    assert!(v.is_empty);
    v.record_debug("logx", "1");
    assert_eq!(text(&v.written), "error: logx: 1");
}

#[test]
fn forwarded_cargo_warning() {
    let mut v = visitor(Level::Warn, true);
    v.record_debug("message", "warning: unused variable\r\n  --> src/lib.rs:1\n   |\n");
    assert_eq!(
        v.written,
        vec![
            piece("warning", styles().warn),
            piece(": unused variable", styles().bold),
            plain("\n"),
            plain("  --> src/lib.rs:1"),
            plain("\n"),
            plain("   |"),
            plain("\n"),
        ]
    );
    assert!(!v.did_cargo_format);
    assert!(!v.is_empty);
}

#[test]
fn forwarded_cargo_error_and_plain_output() {
    let mut v = visitor(Level::Error, true);
    v.record_debug("message", "error[E0308]: mismatched types");
    assert_eq!(
        v.written,
        vec![piece("error", styles().error), piece("[E0308]: mismatched types", styles().bold), plain("\n")]
    );
    let mut v = visitor(Level::Warn, true);
    v.record_debug("message", "note: something\nmore");
    assert_eq!(
        v.written,
        vec![piece("note: something", styles().bold), plain("\n"), plain("more"), plain("\n")]
    );
    let mut v = visitor(Level::Warn, true);
    v.record_debug("message", "");
    assert!(v.written.is_empty());
    assert!(!v.is_empty);
    let mut v = visitor(Level::Warn, true);
    v.record_debug("message", "error");
    assert_eq!(v.written, vec![piece("error", styles().error)]);
}

#[test]
fn info_tag_wins_over_forwarding() {
    let mut v = visitor(Level::Info, true);
    v.record_debug("message", "fresh serde v1.0");
    assert!(v.did_cargo_format);
    assert_eq!(text(&v.written), "       Fresh serde v1.0");
}

#[test]
fn prefix_sets_a_text_before_a_value() {
    let colon = Prefixed::prefix(":");
    let p = colon(42u32);
    assert_eq!(p, Prefixed { prefix: ":", val: 42 });
    assert_eq!(p.text(), ":42");
    assert_eq!(colon(0u32).text(), ":0");
    assert_eq!(DisplayOpt(Some(Prefixed { prefix: "#", val: 7u32 })).text(), "#7");
    assert_eq!(DisplayOpt::<Prefixed<u32>>(None).text(), "");
}

#[test]
fn event_outside_a_span_is_its_fields_and_a_line_feed() {
    let f = CargoFormatter { styles: styles() };
    let mut v = f.visitor(Level::Warn, false);
    v.record_debug("message", "careful");
    let out = f.format_event(v, false, "src/lib.rs", Some(3), &Vec::new());
    assert_eq!(text(&out), "warning: careful\n");
}

#[test]
fn event_in_spans_tells_where_it_comes_from() {
    let f = CargoFormatter { styles: styles() };
    let mut v = f.visitor(Level::Warn, false);
    v.record_debug("message", "careful");
    let spans = vec![
        Span { name: "run_package".to_string(), fields: "pkg=\"x\"".to_string() },
        Span { name: "rerun".to_string(), fields: String::new() },
    ];
    let out = f.format_event(v, true, "src/lib.rs", Some(412), &spans);
    assert_eq!(
        text(&out),
        "warning: careful\n   --> src/lib.rs:412\n    | run_package: pkg=\"x\"\n    | rerun\n\n"
    );
    assert_eq!(out[6], piece("-->", styles().pipes));
    assert!(out.contains(&piece("|", styles().pipes)));
    assert!(out.contains(&piece("run_package", styles().bold)));
}

#[test]
fn event_without_line_has_no_suffix() {
    let f = CargoFormatter { styles: Styles::with(false) };
    let mut v = f.visitor(Level::Trace, false);
    v.record_debug("n", "1");
    let out = f.format_event(v, true, "cargo_loom", None, &Vec::new());
    assert_eq!(text(&out), "trace: n: 1\n   --> cargo_loom\n\n");
    assert!(out.iter().all(|p| p.style == Style { color: None, bold: false }));
}

#[test]
fn cargo_formatted_event_shows_no_spans() {
    let f = CargoFormatter { styles: styles() };
    let mut v = f.visitor(Level::Info, false);
    v.record_debug("message", "running unittests");
    let spans = vec![Span { name: "s".to_string(), fields: String::new() }];
    let out = f.format_event(v, true, "src/lib.rs", Some(1), &spans);
    assert_eq!(text(&out), "     Running unittests\n");
}
