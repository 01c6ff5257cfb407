//! How a trace event is laid out for a human reader, in the manner of
//! Cargo's own output: as pieces of text, each with its style.

use vstd::prelude::*;
use vstd::string::*;
use vstd::utf8::encode_utf8;
use crate::text::{
    decimal, decimal_digits, first_index, has_prefix, lines, lines_of, split_once, starts_with,
    strip_prefix, texts,
};
use crate::trace::{Style, Styles};

verus! {

/// The text that `heck`'s `to_title_case` makes of `s`.
pub uninterp spec fn title_cased(s: Seq<char>) -> Seq<char>;

/// `heck::TitleCase::to_title_case`: the words of `s`, each capitalised,
/// with single spaces between them.
#[verifier::external_body]
fn title_case(s: &str) -> (r: String)
    ensures
        r@ == title_cased(s@),
{
    heck::TitleCase::to_title_case(s)
}

/// How severe a trace event is.
#[derive(Copy, Clone, Debug, PartialEq, Eq, Structural)]
pub enum Level {
    Error,
    Warn,
    Info,
    Debug,
    Trace,
}

/// A piece of text and the style it is set in.
#[derive(Debug, PartialEq, Eq)]
pub struct Piece {
    pub text: String,
    pub style: Style,
}

/// A piece as a mathematical value.
pub struct PieceView {
    pub text: Seq<char>,
    pub style: Style,
}

impl View for Piece {
    type V = PieceView;

    open spec fn view(&self) -> PieceView {
        PieceView { text: self.text@, style: self.style }
    }
}

/// The views of a list of pieces.
pub open spec fn piece_views(v: Seq<Piece>) -> Seq<PieceView> {
    Seq::new(v.len(), |i: int| v[i]@)
}

/// A piece of text in a style.
pub open spec fn styled(text: Seq<char>, style: Style) -> PieceView {
    PieceView { text, style }
}

/// A piece of text in no style.
pub open spec fn plain(text: Seq<char>) -> PieceView {
    PieceView { text, style: Style::plain() }
}

/// The width to which Cargo's tags are set.
pub const INDENT: usize = 12;

/// `n` spaces.
pub open spec fn spaces(n: nat) -> Seq<char> {
    Seq::new(n, |i: int| ' ')
}

/// `s` set flush right in `width` columns; as it is where it is wider.
pub open spec fn flush_right(s: Seq<char>, width: nat) -> Seq<char> {
    if s.len() >= width {
        s
    } else {
        spaces((width - s.len()) as nat) + s
    }
}

/// Sets `s` flush right in `width` columns.
pub fn pad_left(s: &str, width: usize) -> (r: String)
    ensures
        r@ == flush_right(s@, width as nat),
{
    let len = s.unicode_len();
    let mut out = String::new();
    if len < width {
        let mut i: usize = 0;
        while i < width - len
            invariant
                len < width,
                i <= width - len,
                out@ == spaces(i as nat),
            decreases width - len - i,
        {
            out.append(" ");
            proof {
                reveal_strlit(" ");
                assert(out@ =~= spaces((i + 1) as nat));
            }
            i += 1;
        }
    }
    out.append(s);
    proof {
        if len >= width {
            assert(out@ =~= s@);
        }
    }
    out
}

/// The word that announces an event of `level`, in the level's style,
/// followed by a bold colon and a space.
pub open spec fn level_tag(level: Level, styles: Styles) -> Seq<PieceView> {
    let word = match level {
        Level::Error => styled("error"@, styles.error),
        Level::Warn => styled("warning"@, styles.warn),
        Level::Info => styled("info"@, styles.info),
        Level::Debug => styled("debug"@, styles.debug),
        Level::Trace => styled("trace"@, styles.trace),
    };
    seq![word, styled(":"@, styles.bold), plain(" "@)]
}

/// The tag and the rest of a message that begins with a tag in Cargo's
/// manner: a first word of at most twelve bytes, followed by a space.
pub open spec fn cargo_tag(message: Seq<char>) -> Option<(Seq<char>, Seq<char>)> {
    let at = first_index(message, ' ');
    if 0 <= at < message.len() && encode_utf8(message.subrange(0, at)).len() as usize <= INDENT {
        Some((message.subrange(0, at), message.subrange(at + 1, message.len() as int)))
    } else {
        None
    }
}

/// Lines, each followed by a line feed.
pub open spec fn line_pieces(lines: Seq<Seq<char>>) -> Seq<PieceView>
    decreases lines.len(),
{
    if lines.len() == 0 {
        Seq::empty()
    } else {
        line_pieces(lines.drop_last()).push(plain(lines.last())).push(plain("\n"@))
    }
}

/// The first line in bold, then the other lines, each followed by a line
/// feed.
pub open spec fn message_pieces(lines: Seq<Seq<char>>, styles: Styles) -> Seq<PieceView> {
    if lines.len() == 0 {
        Seq::empty()
    } else {
        seq![styled(lines.first(), styles.bold), plain("\n"@)] + line_pieces(lines.drop_first())
    }
}

/// Output that Cargo wrote and that is passed on: a leading `error` or
/// `warning` in its style, the rest of the first line in bold, the other
/// lines as they are.
pub open spec fn forwarded(message: Seq<char>, styles: Styles) -> Seq<PieceView> {
    if has_prefix(message, "error"@) {
        seq![styled("error"@, styles.error)] + message_pieces(
            lines_of(message.subrange("error"@.len() as int, message.len() as int)),
            styles,
        )
    } else if has_prefix(message, "warning"@) {
        seq![styled("warning"@, styles.warn)] + message_pieces(
            lines_of(message.subrange("warning"@.len() as int, message.len() as int)),
            styles,
        )
    } else {
        message_pieces(lines_of(message), styles)
    }
}

/// A field as it is written out: the message in bold; any other field as
/// its name and a colon in bold, a space, and its value.
pub open spec fn field_pieces(name: Seq<char>, value: Seq<char>, styles: Styles) -> Seq<PieceView> {
    if name == "message"@ {
        seq![styled(value, styles.bold)]
    } else {
        seq![styled(name, styles.bold), styled(":"@, styles.bold), plain(" "@), plain(value)]
    }
}

/// A value with a fixed text set before it.
#[derive(Debug, PartialEq, Eq)]
pub struct Prefixed<T> {
    pub prefix: &'static str,
    pub val: T,
}

impl<T> Prefixed<T> {
    /// The function that sets `prefix` before a value.
    pub fn prefix(prefix: &'static str) -> (r: impl Fn(T) -> Prefixed<T>)
        ensures
            forall|val: T| call_requires(r, (val,)),
            forall|val: T, out: Prefixed<T>|
                call_ensures(r, (val,), out) ==> out.val == val && out.prefix == prefix,
    {
        move |val: T| -> (out: Prefixed<T>)
            ensures
                out.val == val,
                out.prefix == prefix,
            { Prefixed { val, prefix } }
    }
}

impl Prefixed<u32> {
    /// The prefix followed by the number in decimal digits.
    pub fn text(&self) -> (r: String)
        ensures
            r@ == self.prefix@ + decimal_digits(self.val as nat),
    {
        let mut out = self.prefix.to_owned();
        out.append(decimal(self.val as u64).as_str());
        out
    }
}

/// A value that may be missing, and is shown as nothing where it is.
#[derive(Debug, PartialEq, Eq)]
pub struct DisplayOpt<T>(pub Option<T>);

/// The text of a line number set after a colon; nothing without one.
pub open spec fn line_suffix(line: Option<u32>) -> Seq<char> {
    match line {
        Some(n) => ":"@ + decimal_digits(n as nat),
        None => Seq::empty(),
    }
}

impl DisplayOpt<Prefixed<u32>> {
    /// The text of the value, or nothing where it is missing.
    pub fn text(&self) -> (r: String)
        ensures
            r@ == match self.0 {
                Some(p) => p.prefix@ + decimal_digits(p.val as nat),
                None => Seq::<char>::empty(),
            },
    {
        match &self.0 {
            Some(p) => p.text(),
            None => String::new(),
        }
    }
}

/// Writes the fields of one trace event, one after the other.
#[derive(Debug, PartialEq, Eq)]
pub struct Visitor {
    pub level: Level,
    /// Nothing has been written yet.
    pub is_empty: bool,
    pub styles: Styles,
    /// The message was written in Cargo's manner, with a tag.
    pub did_cargo_format: bool,
    /// The event passes on what Cargo wrote.
    pub from_escargot: bool,
    /// What has been written so far.
    pub written: Vec<Piece>,
}

/// A visitor as a mathematical value.
pub struct VisitorView {
    pub level: Level,
    pub is_empty: bool,
    pub styles: Styles,
    pub did_cargo_format: bool,
    pub from_escargot: bool,
    pub written: Seq<PieceView>,
}

impl View for Visitor {
    type V = VisitorView;

    open spec fn view(&self) -> VisitorView {
        VisitorView {
            level: self.level,
            is_empty: self.is_empty,
            styles: self.styles,
            did_cargo_format: self.did_cargo_format,
            from_escargot: self.from_escargot,
            written: piece_views(self.written@),
        }
    }
}

impl VisitorView {
    /// This visitor after `pieces` were written.
    pub open spec fn wrote(self, pieces: Seq<PieceView>) -> VisitorView {
        VisitorView { written: self.written + pieces, is_empty: false, ..self }
    }

    /// This visitor after the field `name` with the value `value` was
    /// recorded.
    ///
    /// A field whose name begins with `log.` is passed over. As the first
    /// field, the message of an event of level `Info` that begins with a
    /// tag is written in Cargo's manner: the tag in title case, flush
    /// right in twelve columns, then the rest. As the first field, the
    /// message of an event that passes on what Cargo wrote is written as
    /// that. Every other first field follows the word for the level, every
    /// later field a comma.
    pub open spec fn record_debug(self, name: Seq<char>, value: Seq<char>) -> VisitorView {
        if has_prefix(name, "log."@) {
            self
        } else if self.is_empty && self.level == Level::Info && name == "message"@ && cargo_tag(
            value,
        ) is Some {
            let (tag, rest) = cargo_tag(value)->0;
            VisitorView {
                did_cargo_format: true,
                ..self.wrote(
                    seq![
                        styled(flush_right(title_cased(tag), INDENT as nat), self.styles.info),
                        plain(" "@),
                        plain(rest),
                    ],
                )
            }
        } else if self.is_empty && name == "message"@ && self.from_escargot {
            self.wrote(forwarded(value, self.styles))
        } else if self.is_empty {
            self.wrote(level_tag(self.level, self.styles) + field_pieces(name, value, self.styles))
        } else {
            self.wrote(seq![plain(", "@)] + field_pieces(name, value, self.styles))
        }
    }
}

impl Visitor {
    /// Writes a piece of text.
    fn write(&mut self, text: String, style: Style)
        ensures
            final(self)@ == (VisitorView {
                written: old(self)@.written.push(styled(text@, style)),
                ..old(self)@
            }),
    {
        self.written.push(Piece { text, style });
        proof {
            assert(piece_views(self.written@) =~= piece_views(old(self).written@).push(
                styled(text@, style),
            ));
        }
    }

    /// Writes the first line in bold and the other lines as they are,
    /// each followed by a line feed.
    fn write_lines(&mut self, lines: &Vec<String>)
        ensures
            final(self)@ == (VisitorView {
                written: old(self)@.written + message_pieces(texts(lines@), old(self).styles),
                ..old(self)@
            }),
    {
        if lines.len() == 0 {
            proof {
                assert(self@.written + message_pieces(texts(lines@), self.styles) =~= self@.written);
            }
            return ;
        }
        self.write(lines[0].clone(), self.styles.bold);
        self.write("\n".to_owned(), Style::new());
        let mut k: usize = 1;
        proof {
            assert(texts(lines@).subrange(1, 1) =~= Seq::<Seq<char>>::empty());
            assert(self@.written =~= old(self)@.written + seq![
                styled(lines[0]@, self.styles.bold),
                plain("\n"@),
            ] + line_pieces(texts(lines@).subrange(1, 1)));
        }
        while k < lines.len()
            invariant
                1 <= k <= lines.len(),
                self@ == (VisitorView {
                    written: old(self)@.written + seq![
                        styled(lines[0]@, old(self).styles.bold),
                        plain("\n"@),
                    ] + line_pieces(texts(lines@).subrange(1, k as int)),
                    ..old(self)@
                }),
            decreases lines.len() - k,
        {
            let ghost done = texts(lines@).subrange(1, k as int);
            let ghost next = texts(lines@).subrange(1, k + 1);
            self.write(lines[k].clone(), Style::new());
            self.write("\n".to_owned(), Style::new());
            proof {
                assert(next.drop_last() =~= done);
                assert(next.last() == lines[k as int]@);
                assert(self@.written =~= old(self)@.written + seq![
                    styled(lines[0]@, old(self).styles.bold),
                    plain("\n"@),
                ] + line_pieces(next));
            }
            k += 1;
        }
        proof {
            assert(texts(lines@).subrange(1, lines.len() as int) =~= texts(lines@).drop_first());
            assert(texts(lines@).first() == lines[0]@);
            assert(self@.written =~= old(self)@.written + message_pieces(
                texts(lines@),
                old(self).styles,
            ));
        }
    }

    /// Writes the word for the level, a colon and a space.
    fn write_level(&mut self)
        ensures
            final(self)@ == (VisitorView {
                written: old(self)@.written + level_tag(old(self).level, old(self).styles),
                ..old(self)@
            }),
    {
        match self.level {
            Level::Error => self.write("error".to_owned(), self.styles.error),
            Level::Warn => self.write("warning".to_owned(), self.styles.warn),
            Level::Info => self.write("info".to_owned(), self.styles.info),
            Level::Debug => self.write("debug".to_owned(), self.styles.debug),
            Level::Trace => self.write("trace".to_owned(), self.styles.trace),
        }
        self.write(":".to_owned(), self.styles.bold);
        self.write(" ".to_owned(), Style::new());
        proof {
            assert(self@.written =~= old(self)@.written + level_tag(old(self).level, old(self).styles));
        }
    }

    /// Records the field `name`, whose value is shown as `value`.
    pub fn record_debug(&mut self, name: &str, value: &str)
        ensures
            final(self)@ == old(self)@.record_debug(name@, value@),
    {
        if starts_with(name, "log.") {
            return ;
        }
        let is_message = *name == *"message";
        if self.is_empty {
            if is_message && self.level == Level::Info {
                if let Some((tag, rest)) = split_once(value, ' ') {
                    if tag.as_str().len() <= INDENT {
                        let tag = pad_left(title_case(tag.as_str()).as_str(), INDENT);
                        self.write(tag, self.styles.info);
                        self.write(" ".to_owned(), Style::new());
                        self.write(rest, Style::new());
                        self.is_empty = false;
                        self.did_cargo_format = true;
                        proof {
                            let (head, tail) = cargo_tag(value@)->0;
                            assert(self@.written =~= old(self)@.written + seq![
                                styled(
                                    flush_right(title_cased(head), INDENT as nat),
                                    self.styles.info,
                                ),
                                plain(" "@),
                                plain(tail),
                            ]);
                        }
                        return ;
                    }
                }
            }
            if is_message && self.from_escargot {
                match strip_prefix(value, "error") {
                    Some(rest) => {
                        self.write("error".to_owned(), self.styles.error);
                        self.write_lines(&lines(rest.as_str()));
                    },
                    None => match strip_prefix(value, "warning") {
                        Some(rest) => {
                            self.write("warning".to_owned(), self.styles.warn);
                            self.write_lines(&lines(rest.as_str()));
                        },
                        None => {
                            self.write_lines(&lines(value));
                        },
                    },
                }
                self.is_empty = false;
                proof {
                    assert(self@.written =~= old(self)@.written + forwarded(value@, self.styles));
                }
                return ;
            }
            self.write_level();
        } else {
            self.write(", ".to_owned(), Style::new());
        }
        if is_message {
            self.write(value.to_owned(), self.styles.bold);
        } else {
            self.write(name.to_owned(), self.styles.bold);
            self.write(":".to_owned(), self.styles.bold);
            self.write(" ".to_owned(), Style::new());
            self.write(value.to_owned(), Style::new());
        }
        self.is_empty = false;
        proof {
            if old(self).is_empty {
                assert(self@.written =~= old(self)@.written + (level_tag(self.level, self.styles)
                    + field_pieces(name@, value@, self.styles)));
            } else {
                assert(self@.written =~= old(self)@.written + (seq![plain(", "@)] + field_pieces(
                    name@,
                    value@,
                    self.styles,
                )));
            }
        }
    }
}

/// A span that an event stands in: its name, and its fields as they were
/// formatted when it was entered.
#[derive(Debug, PartialEq, Eq)]
pub struct Span {
    pub name: String,
    pub fields: String,
}

/// The views of a list of spans: name and fields of each.
pub open spec fn span_views(v: Seq<Span>) -> Seq<(Seq<char>, Seq<char>)> {
    Seq::new(v.len(), |i: int| (v[i].name@, v[i].fields@))
}

/// The line that tells where an event comes from.
pub open spec fn location_pieces(location: Seq<char>, line: Option<u32>, styles: Styles) -> Seq<
    PieceView,
> {
    seq![
        plain("   "@),
        styled("-->"@, styles.pipes),
        plain(" "@),
        plain(location),
        plain(line_suffix(line)),
        plain("\n"@),
    ]
}

/// The line of one span: its name in bold and, where it has any, its
/// fields after a colon.
pub open spec fn span_pieces(name: Seq<char>, fields: Seq<char>, styles: Styles) -> Seq<PieceView> {
    seq![
        plain("    "@),
        styled("|"@, styles.pipes),
        plain(" "@),
        styled(name, styles.bold),
        plain(
            if fields.len() == 0 {
                ""@
            } else {
                ": "@
            },
        ),
        plain(fields),
        plain("\n"@),
    ]
}

/// The lines of the spans, outermost first.
pub open spec fn spans_pieces(spans: Seq<(Seq<char>, Seq<char>)>, styles: Styles) -> Seq<PieceView>
    decreases spans.len(),
{
    if spans.len() == 0 {
        Seq::empty()
    } else {
        spans_pieces(spans.drop_last(), styles) + span_pieces(spans.last().0, spans.last().1, styles)
    }
}

/// A whole event: its fields as the visitor wrote them and a line feed;
/// then, unless the message was written in Cargo's manner or the event
/// stands in no span, where it comes from, the spans it stands in, and an
/// empty line.
pub open spec fn event_pieces(
    visitor: VisitorView,
    in_span: bool,
    location: Seq<char>,
    line: Option<u32>,
    spans: Seq<(Seq<char>, Seq<char>)>,
) -> Seq<PieceView> {
    let fields = visitor.written.push(plain("\n"@));
    if !visitor.did_cargo_format && in_span {
        fields + location_pieces(location, line, visitor.styles) + spans_pieces(
            spans,
            visitor.styles,
        ) + seq![plain("\n"@)]
    } else {
        fields
    }
}

/// Lays out trace events in the manner of Cargo's own output.
#[derive(Debug, PartialEq, Eq)]
pub struct CargoFormatter {
    pub styles: Styles,
}

/// Adds a piece of text to what is written.
fn put(out: &mut Vec<Piece>, text: &str, style: Style)
    ensures
        piece_views(final(out)@) == piece_views(old(out)@).push(styled(text@, style)),
{
    out.push(Piece { text: text.to_owned(), style });
    proof {
        assert(piece_views(out@) =~= piece_views(old(out)@).push(styled(text@, style)));
    }
}

impl CargoFormatter {
    /// The visitor for the fields of an event of `level`.
    pub fn visitor(&self, level: Level, from_escargot: bool) -> (r: Visitor)
        ensures
            r@ == (VisitorView {
                level,
                is_empty: true,
                styles: self.styles,
                did_cargo_format: false,
                from_escargot,
                written: Seq::empty(),
            }),
    {
        let r = Visitor {
            level,
            is_empty: true,
            styles: self.styles,
            did_cargo_format: false,
            from_escargot,
            written: Vec::new(),
        };
        proof {
            assert(piece_views(r.written@) =~= Seq::<PieceView>::empty());
        }
        r
    }

    /// Lays out an event whose fields `visitor` has recorded. `in_span`
    /// says whether the event stands in a span, `location` is its file, or
    /// its target where the file is not known, `line` its line, and
    /// `spans` are the spans it stands in, outermost first.
    pub fn format_event(
        &self,
        visitor: Visitor,
        in_span: bool,
        location: &str,
        line: Option<u32>,
        spans: &Vec<Span>,
    ) -> (r: Vec<Piece>)
        ensures
            piece_views(r@) == event_pieces(visitor@, in_span, location@, line, span_views(spans@)),
    {
        let include_spans = !visitor.did_cargo_format && in_span;
        let styles = visitor.styles;
        let ghost view = visitor@;
        let mut out = visitor.written;
        put(&mut out, "\n", Style::new());
        if include_spans {
            let suffix = DisplayOpt(line.map(Prefixed::prefix(":"))).text();
            put(&mut out, "   ", Style::new());
            put(&mut out, "-->", styles.pipes);
            put(&mut out, " ", Style::new());
            put(&mut out, location, Style::new());
            put(&mut out, suffix.as_str(), Style::new());
            put(&mut out, "\n", Style::new());
            let ghost base = piece_views(out@);
            proof {
                assert(suffix@ == line_suffix(line));
                assert(base =~= view.written.push(plain("\n"@)) + location_pieces(
                    location@,
                    line,
                    styles,
                ));
                assert(span_views(spans@).subrange(0, 0) =~= Seq::<(Seq<char>, Seq<char>)>::empty());
                assert(base + spans_pieces(span_views(spans@).subrange(0, 0), styles) =~= base);
            }
            let mut k: usize = 0;
            while k < spans.len()
                invariant
                    k <= spans.len(),
                    piece_views(out@) == base + spans_pieces(
                        span_views(spans@).subrange(0, k as int),
                        styles,
                    ),
                decreases spans.len() - k,
            {
                let ghost done = span_views(spans@).subrange(0, k as int);
                let ghost next = span_views(spans@).subrange(0, k + 1);
                let span = &spans[k];
                put(&mut out, "    ", Style::new());
                put(&mut out, "|", styles.pipes);
                put(&mut out, " ", Style::new());
                put(&mut out, span.name.as_str(), styles.bold);
                if span.fields.as_str().is_empty() {
                    put(&mut out, "", Style::new());
                } else {
                    put(&mut out, ": ", Style::new());
                }
                put(&mut out, span.fields.as_str(), Style::new());
                put(&mut out, "\n", Style::new());
                proof {
                    assert(next.drop_last() =~= done);
                    assert(next.last() == (span.name@, span.fields@));
                    assert(piece_views(out@) =~= base + spans_pieces(done, styles) + span_pieces(
                        span.name@,
                        span.fields@,
                        styles,
                    ));
                    assert(piece_views(out@) =~= base + spans_pieces(next, styles));
                }
                k += 1;
            }
            put(&mut out, "\n", Style::new());
            proof {
                assert(span_views(spans@).subrange(0, spans.len() as int) =~= span_views(spans@));
            }
        }
        out
    }
}

} // verus!
