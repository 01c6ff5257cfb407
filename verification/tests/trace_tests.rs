use cargo_loom::trace::{
    Color, ColorMode, Global, Layout, MessageFormat, Style, Styles, TraceSettings,
};

fn bold_in(color: Color) -> Style {
    Style { color: Some(color), bold: true }
}

fn plain() -> Style {
    Style { color: None, bold: false }
}

#[test]
fn modes_start_as_auto_and_human() {
    let global = Global::new();
    assert_eq!(ColorMode::current(&global), ColorMode::Auto);
    assert_eq!(MessageFormat::current(&global), MessageFormat::Human);
    assert_eq!(ColorMode::default(), ColorMode::Auto);
    assert_eq!(MessageFormat::default(), MessageFormat::Human);
}

#[test]
fn color_mode_in_force_is_the_one_that_was_set() {
    for mode in [ColorMode::Auto, ColorMode::Always, ColorMode::Never] {
        let mut global = Global::new();
        mode.set_global(&mut global);
        assert_eq!(ColorMode::current(&global), mode);
        assert_eq!(MessageFormat::current(&global), MessageFormat::Human);
    }
}

#[test]
fn message_format_in_force_is_the_one_that_was_set() {
    for format in [MessageFormat::Human, MessageFormat::Json] {
        let mut global = Global::new();
        ColorMode::Never.set_global(&mut global);
        format.set_global(&mut global);
        assert_eq!(MessageFormat::current(&global), format);
        assert_eq!(ColorMode::current(&global), ColorMode::Never);
    }
}

#[test]
fn every_reader_of_the_modes_sees_the_same() {
    let mut global = Global::new();
    ColorMode::Always.set_global(&mut global);
    MessageFormat::Json.set_global(&mut global);
    let first = (ColorMode::current(&global), MessageFormat::current(&global));
    let second = (ColorMode::current(&global), MessageFormat::current(&global));
    assert_eq!(first, second);
    assert_eq!(first, (ColorMode::Always, MessageFormat::Json));
}

#[test]
fn color_mode_words() {
    assert_eq!(ColorMode::Auto.as_str(), "auto");
    assert_eq!(ColorMode::Always.as_str(), "always");
    assert_eq!(ColorMode::Never.as_str(), "never");
}

#[test]
fn only_json_is_json() {
    assert!(MessageFormat::Json.is_json());
    assert!(!MessageFormat::Human.is_json());
}

#[test]
fn auto_colors_a_terminal_only() {
    assert!(ColorMode::Auto.should_color(true));
    assert!(!ColorMode::Auto.should_color(false));
    assert!(ColorMode::Always.should_color(true));
    assert!(ColorMode::Always.should_color(false));
    assert!(!ColorMode::Never.should_color(true));
    assert!(!ColorMode::Never.should_color(false));
}

#[test]
fn stderr_is_colored_always_or_never_as_told() {
    assert!(ColorMode::Always.should_color_stderr());
    assert!(!ColorMode::Never.should_color_stderr());
    let auto = ColorMode::Auto.should_color_stderr();
    assert!(auto || !auto);
}

#[test]
fn style_is_kept_only_where_color_is_used() {
    let red = bold_in(Color::Red);
    assert_eq!(ColorMode::Always.if_color(red), red);
    assert_eq!(ColorMode::Never.if_color(red), plain());
    let auto = ColorMode::Auto.if_color(red);
    assert!(auto == red || auto == plain());
    assert_eq!(Style::new(), plain());
}

#[test]
fn colored_styles() {
    let s = Styles::with(true);
    assert_eq!(s.error, bold_in(Color::Red));
    assert_eq!(s.warn, bold_in(Color::Yellow));
    assert_eq!(s.info, bold_in(Color::Green));
    assert_eq!(s.debug, bold_in(Color::Blue));
    assert_eq!(s.trace, bold_in(Color::Purple));
    assert_eq!(s.pipes, bold_in(Color::Blue));
    assert_eq!(s.bold, Style { color: None, bold: true });
    assert_eq!(Styles::new(ColorMode::Always), s);
}

#[test]
fn uncolored_styles_are_all_plain() {
    let s = Styles::with(false);
    for style in [s.error, s.warn, s.info, s.debug, s.trace, s.pipes, s.bold] {
        assert_eq!(style, plain());
    }
    assert_eq!(Styles::new(ColorMode::Never), s);
}

#[test]
fn settings_give_their_message_format() {
    let settings = TraceSettings {
        color: ColorMode::Auto,
        message_format: MessageFormat::Json,
        filter: "cargo=info,warn".to_string(),
    };
    assert_eq!(settings.message_format(), MessageFormat::Json);
}

#[test]
fn init_puts_the_modes_in_force_and_hands_the_filter_on() {
    let mut settings = TraceSettings {
        color: ColorMode::Always,
        message_format: MessageFormat::Human,
        filter: "cargo=info,warn".to_string(),
    };
    let mut global = Global::new();
    let subscriber = settings.try_init(&mut global);
    assert_eq!(global, Global { color: ColorMode::Always, message_format: MessageFormat::Human });
    assert_eq!(subscriber.filter, "cargo=info,warn");
    assert_eq!(subscriber.layout, Layout::Human(Styles::with(true)));
    assert_eq!(settings.filter, "");
    assert_eq!(settings.color, ColorMode::Always);
}

#[test]
fn init_with_a_filter_of_its_own() {
    let settings = TraceSettings {
        color: ColorMode::Never,
        message_format: MessageFormat::Json,
        filter: "unused".to_string(),
    };
    let mut global = Global::new();
    let subscriber = settings.try_init_with(&mut global, "trace".to_string());
    assert_eq!(global, Global { color: ColorMode::Never, message_format: MessageFormat::Json });
    assert_eq!(subscriber.layout, Layout::Json);
    assert_eq!(subscriber.filter, "trace");
    assert_eq!(settings.filter, "unused");
    let human = TraceSettings { color: ColorMode::Never, message_format: MessageFormat::Human, filter: String::new() };
    let subscriber = human.try_init_with(&mut global, String::new());
    assert_eq!(subscriber.layout, Layout::Human(Styles::with(false)));
}
