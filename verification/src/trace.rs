//! How diagnostics are to be shown: whether in colour, and whether for a
//! human reader or as JSON.

use vstd::prelude::*;

verus! {

/// When output is coloured.
#[derive(Copy, Clone, Debug, Eq, PartialEq, Structural)]
pub enum ColorMode {
    /// Where the output goes to a terminal.
    Auto,
    /// Always.
    Always,
    /// Never.
    Never,
}

/// The format of trace messages and diagnostics.
#[derive(Copy, Clone, Debug, Eq, PartialEq, Structural)]
pub enum MessageFormat {
    /// Text for a human reader.
    Human,
    /// JSON, one message per line.
    Json,
}

/// The modes that every place that renders output goes by. They are
/// decided once, at startup, and handed on from there.
#[derive(Copy, Clone, Debug, Eq, PartialEq, Structural)]
pub struct Global {
    pub color: ColorMode,
    pub message_format: MessageFormat,
}

impl Global {
    /// The modes before anything was decided: colour where the output
    /// goes to a terminal, text for a human reader.
    pub fn new() -> (r: Global)
        ensures
            r == (Global { color: ColorMode::Auto, message_format: MessageFormat::Human }),
    {
        Global { color: ColorMode::Auto, message_format: MessageFormat::Human }
    }
}

/// Whether standard error is a terminal, as `atty::is` sees it.
#[verifier::external_body]
fn stderr_is_tty() -> bool {
    atty::is(atty::Stream::Stderr)
}

impl ColorMode {
    /// The colour mode in force.
    pub fn current(global: &Global) -> (r: ColorMode)
        ensures
            r == global.color,
    {
        global.color
    }

    /// Puts this colour mode in force.
    pub fn set_global(self, global: &mut Global)
        ensures
            final(global).color == self,
            final(global).message_format == old(global).message_format,
    {
        global.color = self;
    }

    /// The word for this mode on the command line.
    pub fn as_str(&self) -> (r: &'static str)
        ensures
            r@ == match *self {
                ColorMode::Auto => "auto"@,
                ColorMode::Always => "always"@,
                ColorMode::Never => "never"@,
            },
    {
        match self {
            ColorMode::Auto => "auto",
            ColorMode::Always => "always",
            ColorMode::Never => "never",
        }
    }

    /// Whether output is coloured under this mode when it goes to a
    /// terminal (`is_tty`) or does not.
    pub fn should_color(self, is_tty: bool) -> (r: bool)
        ensures
            r == match self {
                ColorMode::Auto => is_tty,
                ColorMode::Always => true,
                ColorMode::Never => false,
            },
    {
        match self {
            ColorMode::Auto => is_tty,
            ColorMode::Always => true,
            ColorMode::Never => false,
        }
    }

    /// Whether what is written to standard error is coloured: under
    /// `Auto` that depends on whether standard error is a terminal.
    pub fn should_color_stderr(self) -> (r: bool)
        ensures
            self == ColorMode::Always ==> r,
            self == ColorMode::Never ==> !r,
    {
        match self {
            ColorMode::Auto => self.should_color(stderr_is_tty()),
            ColorMode::Always => true,
            ColorMode::Never => false,
        }
    }

    /// `style` where standard error is coloured, no style where it is not.
    pub fn if_color(self, style: Style) -> (r: Style)
        ensures
            r == style || r == Style::plain(),
            self == ColorMode::Always ==> r == style,
            self == ColorMode::Never ==> r == Style::plain(),
    {
        if self.should_color_stderr() {
            style
        } else {
            Style::new()
        }
    }
}

impl Default for ColorMode {
    fn default() -> (r: ColorMode)
        ensures
            r == ColorMode::Auto,
    {
        ColorMode::Auto
    }
}

impl MessageFormat {
    /// Whether messages are written as JSON.
    pub fn is_json(self) -> (r: bool)
        ensures
            r == (self == MessageFormat::Json),
    {
        match self {
            MessageFormat::Json => true,
            MessageFormat::Human => false,
        }
    }

    /// The message format in force.
    pub fn current(global: &Global) -> (r: MessageFormat)
        ensures
            r == global.message_format,
    {
        global.message_format
    }

    /// Puts this message format in force.
    pub fn set_global(self, global: &mut Global)
        ensures
            final(global).message_format == self,
            final(global).color == old(global).color,
    {
        global.message_format = self;
    }
}

impl Default for MessageFormat {
    fn default() -> (r: MessageFormat)
        ensures
            r == MessageFormat::Human,
    {
        MessageFormat::Human
    }
}

/// A colour of the terminal's palette.
#[derive(Copy, Clone, Debug, Eq, PartialEq, Structural)]
pub enum Color {
    Red,
    Yellow,
    Green,
    Blue,
    Purple,
}

/// How a piece of text is set: in which colour, if any, and whether bold.
#[derive(Copy, Clone, Debug, Eq, PartialEq, Structural)]
pub struct Style {
    pub color: Option<Color>,
    pub bold: bool,
}

impl Style {
    /// No colour, not bold.
    pub open spec fn plain() -> Style {
        Style { color: None, bold: false }
    }

    /// Bold in the given colour.
    pub open spec fn bold_in(color: Color) -> Style {
        Style { color: Some(color), bold: true }
    }

    /// No colour, not bold.
    #[verifier::when_used_as_spec(plain)]
    pub fn new() -> (r: Style)
        ensures
            r == Style::plain(),
    {
        Style { color: None, bold: false }
    }
}

/// The styles of the parts of a trace message.
#[derive(Copy, Clone, Debug, Eq, PartialEq, Structural)]
pub struct Styles {
    pub error: Style,
    pub warn: Style,
    pub info: Style,
    pub debug: Style,
    pub trace: Style,
    pub pipes: Style,
    pub bold: Style,
}

impl Styles {
    /// The styles of coloured output.
    pub open spec fn colored() -> Styles {
        Styles {
            error: Style::bold_in(Color::Red),
            warn: Style::bold_in(Color::Yellow),
            info: Style::bold_in(Color::Green),
            debug: Style::bold_in(Color::Blue),
            trace: Style::bold_in(Color::Purple),
            pipes: Style::bold_in(Color::Blue),
            bold: Style { color: None, bold: true },
        }
    }

    /// The styles of output without colour: all plain.
    pub open spec fn uncolored() -> Styles {
        Styles {
            error: Style::plain(),
            warn: Style::plain(),
            info: Style::plain(),
            debug: Style::plain(),
            trace: Style::plain(),
            pipes: Style::plain(),
            bold: Style::plain(),
        }
    }

    /// The styles for output that is coloured (`colored`) or is not.
    pub fn with(colored: bool) -> (r: Styles)
        ensures
            r == if colored {
                Styles::colored()
            } else {
                Styles::uncolored()
            },
    {
        if colored {
            Styles {
                error: Style { color: Some(Color::Red), bold: true },
                warn: Style { color: Some(Color::Yellow), bold: true },
                info: Style { color: Some(Color::Green), bold: true },
                debug: Style { color: Some(Color::Blue), bold: true },
                trace: Style { color: Some(Color::Purple), bold: true },
                pipes: Style { color: Some(Color::Blue), bold: true },
                bold: Style { color: None, bold: true },
            }
        } else {
            let plain = Style { color: None, bold: false };
            Styles {
                error: plain,
                warn: plain,
                info: plain,
                debug: plain,
                trace: plain,
                pipes: plain,
                bold: plain,
            }
        }
    }

    /// The styles under the colour mode `colors`, for what is written to
    /// standard error.
    pub fn new(colors: ColorMode) -> (r: Styles)
        ensures
            r == Styles::colored() || r == Styles::uncolored(),
            colors == ColorMode::Always ==> r == Styles::colored(),
            colors == ColorMode::Never ==> r == Styles::uncolored(),
    {
        Styles::with(colors.should_color_stderr())
    }
}

/// How tracing is set up.
#[derive(Debug, PartialEq, Eq)]
pub struct TraceSettings {
    /// When colour is used.
    pub color: ColorMode,
    /// The format of trace messages and diagnostics.
    pub message_format: MessageFormat,
    /// The filter that says which traces are enabled.
    pub filter: String,
}

/// How trace events are laid out.
#[derive(Copy, Clone, Debug, PartialEq, Eq, Structural)]
pub enum Layout {
    /// In the manner of Cargo's own output, with these styles.
    Human(Styles),
    /// As JSON.
    Json,
}

/// The subscriber that is to be installed: how it lays events out, and
/// which events it lets through.
#[derive(Debug, PartialEq, Eq)]
pub struct Subscriber {
    pub layout: Layout,
    pub filter: String,
}

impl TraceSettings {
    /// The format of trace messages and diagnostics.
    pub fn message_format(&self) -> (r: MessageFormat)
        ensures
            r == self.message_format,
    {
        self.message_format
    }

    /// Puts the modes of these settings in force and says which
    /// subscriber is to be installed. The filter of the settings goes to
    /// the subscriber, and an empty one is left in its place.
    pub fn try_init(&mut self, global: &mut Global) -> (r: Subscriber)
        ensures
            *final(global) == (Global {
                color: old(self).color,
                message_format: old(self).message_format,
            }),
            final(self).color == old(self).color,
            final(self).message_format == old(self).message_format,
            final(self).filter@ == Seq::<char>::empty(),
            r.filter == old(self).filter,
            old(self).message_format == MessageFormat::Json ==> r.layout == Layout::Json,
            old(self).message_format == MessageFormat::Human ==> r.layout == Layout::Human(
                Styles::colored(),
            ) || r.layout == Layout::Human(Styles::uncolored()),
            old(self).message_format == MessageFormat::Human && old(self).color == ColorMode::Always
                ==> r.layout == Layout::Human(Styles::colored()),
            old(self).message_format == MessageFormat::Human && old(self).color == ColorMode::Never
                ==> r.layout == Layout::Human(Styles::uncolored()),
    {
        let mut filter = String::new();
        std::mem::swap(&mut self.filter, &mut filter);
        self.try_init_with(global, filter)
    }

    /// Puts the modes of these settings in force and says which
    /// subscriber is to be installed, with `filter` as its filter.
    pub fn try_init_with(&self, global: &mut Global, filter: String) -> (r: Subscriber)
        ensures
            *final(global) == (Global { color: self.color, message_format: self.message_format }),
            r.filter == filter,
            self.message_format == MessageFormat::Json ==> r.layout == Layout::Json,
            self.message_format == MessageFormat::Human ==> r.layout == Layout::Human(
                Styles::colored(),
            ) || r.layout == Layout::Human(Styles::uncolored()),
            self.message_format == MessageFormat::Human && self.color == ColorMode::Always
                ==> r.layout == Layout::Human(Styles::colored()),
            self.message_format == MessageFormat::Human && self.color == ColorMode::Never
                ==> r.layout == Layout::Human(Styles::uncolored()),
    {
        self.color.set_global(global);
        self.message_format.set_global(global);
        let layout = match self.message_format {
            MessageFormat::Human => Layout::Human(Styles::new(self.color)),
            MessageFormat::Json => Layout::Json,
        };
        Subscriber { layout, filter }
    }
}

} // verus!
