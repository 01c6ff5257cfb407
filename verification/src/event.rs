//! The events a running test binary reports, one JSON document per line,
//! and how a line is decoded into one.
//!
//! Reading JSON is left to `serde_json`. What is decided here is which
//! event a document stands for: that mapping is total, so a document of a
//! shape that is not known is an event like any other, `Event::Other`.

use vstd::prelude::*;
use vstd::string::*;
use crate::json::{count_at, count_member, json_parsed, parse_json, string_member, text_at};
use crate::text::opt_text;

verus! {

/// One event of a test run.
#[derive(Debug, PartialEq, Eq)]
pub enum Event {
    /// The suite starts to run `test_count` tests.
    SuiteStarted { test_count: u64 },
    /// The suite finished and no test failed.
    SuiteOk { passed: u64, failed: u64, ignored: u64, measured: u64, filtered_out: u64 },
    /// The suite finished and some test failed.
    SuiteFailed { passed: u64, failed: u64, ignored: u64, measured: u64, filtered_out: u64 },
    /// A test passed.
    TestOk { name: String },
    /// A test failed.
    TestFailed { name: String },
    /// A test was not run.
    TestIgnored { name: String },
    /// Any other message.
    Other,
}

/// An event as a mathematical value.
pub enum EventView {
    SuiteStarted { test_count: u64 },
    SuiteOk { passed: u64, failed: u64, ignored: u64, measured: u64, filtered_out: u64 },
    SuiteFailed { passed: u64, failed: u64, ignored: u64, measured: u64, filtered_out: u64 },
    TestOk { name: Seq<char> },
    TestFailed { name: Seq<char> },
    TestIgnored { name: Seq<char> },
    Other,
}

impl View for Event {
    type V = EventView;

    open spec fn view(&self) -> EventView {
        match *self {
            Event::SuiteStarted { test_count } => EventView::SuiteStarted { test_count },
            Event::SuiteOk { passed, failed, ignored, measured, filtered_out } => EventView::SuiteOk {
                passed,
                failed,
                ignored,
                measured,
                filtered_out,
            },
            Event::SuiteFailed {
                passed,
                failed,
                ignored,
                measured,
                filtered_out,
            } => EventView::SuiteFailed { passed, failed, ignored, measured, filtered_out },
            Event::TestOk { name } => EventView::TestOk { name: name@ },
            Event::TestFailed { name } => EventView::TestFailed { name: name@ },
            Event::TestIgnored { name } => EventView::TestIgnored { name: name@ },
            Event::Other => EventView::Other,
        }
    }
}

/// The members of a message that decide which event it is.
#[derive(Debug, PartialEq, Eq)]
pub struct Fields {
    pub kind: Option<String>,
    pub event: Option<String>,
    pub name: Option<String>,
    pub test_count: Option<u64>,
    pub passed: Option<u64>,
    pub failed: Option<u64>,
    pub ignored: Option<u64>,
    pub measured: Option<u64>,
    pub filtered_out: Option<u64>,
}

/// The deciding members of a message as a mathematical value.
pub struct FieldsView {
    pub kind: Option<Seq<char>>,
    pub event: Option<Seq<char>>,
    pub name: Option<Seq<char>>,
    pub test_count: Option<u64>,
    pub passed: Option<u64>,
    pub failed: Option<u64>,
    pub ignored: Option<u64>,
    pub measured: Option<u64>,
    pub filtered_out: Option<u64>,
}

impl View for Fields {
    type V = FieldsView;

    open spec fn view(&self) -> FieldsView {
        FieldsView {
            kind: opt_text(self.kind),
            event: opt_text(self.event),
            name: opt_text(self.name),
            test_count: self.test_count,
            passed: self.passed,
            failed: self.failed,
            ignored: self.ignored,
            measured: self.measured,
            filtered_out: self.filtered_out,
        }
    }
}

impl FieldsView {
    /// Whether all five counters of a suite's result are there.
    pub open spec fn has_counts(self) -> bool {
        self.passed is Some && self.failed is Some && self.ignored is Some && self.measured is Some
            && self.filtered_out is Some
    }
}

/// The event that a message with the members `f` stands for.
///
/// A `suite` message is `started` with a `test_count`, or `ok` or `failed`
/// with all five counters; a `test` message is `ok`, `failed` or `ignored`
/// with a `name`. Everything else is `Other`.
pub open spec fn classified(f: FieldsView) -> EventView {
    if f.kind == Some("suite"@) {
        if f.event == Some("started"@) && f.test_count is Some {
            EventView::SuiteStarted { test_count: f.test_count->0 }
        } else if f.event == Some("ok"@) && f.has_counts() {
            EventView::SuiteOk {
                passed: f.passed->0,
                failed: f.failed->0,
                ignored: f.ignored->0,
                measured: f.measured->0,
                filtered_out: f.filtered_out->0,
            }
        } else if f.event == Some("failed"@) && f.has_counts() {
            EventView::SuiteFailed {
                passed: f.passed->0,
                failed: f.failed->0,
                ignored: f.ignored->0,
                measured: f.measured->0,
                filtered_out: f.filtered_out->0,
            }
        } else {
            EventView::Other
        }
    } else if f.kind == Some("test"@) && f.name is Some {
        if f.event == Some("ok"@) {
            EventView::TestOk { name: f.name->0 }
        } else if f.event == Some("failed"@) {
            EventView::TestFailed { name: f.name->0 }
        } else if f.event == Some("ignored"@) {
            EventView::TestIgnored { name: f.name->0 }
        } else {
            EventView::Other
        }
    } else {
        EventView::Other
    }
}

/// Whether an optional string is there and equal to `word`.
fn is_word(o: &Option<String>, word: &str) -> (r: bool)
    ensures
        r == (opt_text(*o) == Some(word@)),
{
    match o {
        Some(s) => *s.as_str() == *word,
        None => false,
    }
}

/// The event that a message with the members `fields` stands for.
pub fn classify(fields: Fields) -> (r: Event)
    ensures
        r@ == classified(fields@),
{
    if is_word(&fields.kind, "suite") {
        if is_word(&fields.event, "started") {
            if let Some(test_count) = fields.test_count {
                return Event::SuiteStarted { test_count };
            }
        }
        let ok = is_word(&fields.event, "ok");
        let failed = is_word(&fields.event, "failed");
        if ok || failed {
            match (fields.passed, fields.failed, fields.ignored, fields.measured, fields.filtered_out) {
                (Some(passed), Some(fail), Some(ignored), Some(measured), Some(filtered_out)) => {
                    if ok {
                        Event::SuiteOk { passed, failed: fail, ignored, measured, filtered_out }
                    } else {
                        Event::SuiteFailed { passed, failed: fail, ignored, measured, filtered_out }
                    }
                },
                _ => Event::Other,
            }
        } else {
            Event::Other
        }
    } else if is_word(&fields.kind, "test") {
        let ok = is_word(&fields.event, "ok");
        let failed = is_word(&fields.event, "failed");
        let ignored = is_word(&fields.event, "ignored");
        match fields.name {
            Some(name) => {
                if ok {
                    Event::TestOk { name }
                } else if failed {
                    Event::TestFailed { name }
                } else if ignored {
                    Event::TestIgnored { name }
                } else {
                    Event::Other
                }
            },
            None => Event::Other,
        }
    } else {
        Event::Other
    }
}

/// A line that could not be decoded.
#[derive(Debug, PartialEq, Eq)]
pub struct DecodeError {
    /// The line as it was read.
    pub line: String,
    /// Why it is not a message.
    pub reason: String,
}

/// A decode error as a mathematical value.
pub struct DecodeErrorView {
    pub line: Seq<char>,
    pub reason: Seq<char>,
}

impl View for DecodeError {
    type V = DecodeErrorView;

    open spec fn view(&self) -> DecodeErrorView {
        DecodeErrorView { line: self.line@, reason: self.reason@ }
    }
}

/// The view of the outcome of decoding a line.
pub open spec fn outcome_view(r: Result<Event, DecodeError>) -> Result<EventView, DecodeErrorView> {
    match r {
        Ok(e) => Ok(e@),
        Err(e) => Err(e@),
    }
}

/// The views of the outcomes of decoding a stream.
pub open spec fn outcome_views(v: Seq<Result<Event, DecodeError>>) -> Seq<
    Result<EventView, DecodeErrorView>,
> {
    Seq::new(v.len(), |i: int| outcome_view(v[i]))
}

/// The deciding members of a document.
pub open spec fn fields_of(doc: serde_json::Value) -> FieldsView {
    FieldsView {
        kind: text_at(doc, "type"@),
        event: text_at(doc, "event"@),
        name: text_at(doc, "name"@),
        test_count: count_at(doc, "test_count"@),
        passed: count_at(doc, "passed"@),
        failed: count_at(doc, "failed"@),
        ignored: count_at(doc, "ignored"@),
        measured: count_at(doc, "measured"@),
        filtered_out: count_at(doc, "filtered_out"@),
    }
}

/// What a line decodes to: the event its document stands for, or an error
/// that carries the line where it is no JSON document.
pub open spec fn decoded(line: Seq<char>) -> Result<EventView, DecodeErrorView> {
    match json_parsed(line) {
        Ok(doc) => Ok(classified(fields_of(doc))),
        Err(reason) => Err(DecodeErrorView { line, reason }),
    }
}

/// What a stream of lines decodes to, line by line.
pub open spec fn decoded_stream(lines: Seq<Seq<char>>) -> Seq<Result<EventView, DecodeErrorView>> {
    Seq::new(lines.len(), |i: int| decoded(lines[i]))
}

/// Reads the deciding members out of a document.
fn read_fields(doc: &serde_json::Value) -> (r: Fields)
    ensures
        r@ == fields_of(*doc),
{
    Fields {
        kind: string_member(doc, "type"),
        event: string_member(doc, "event"),
        name: string_member(doc, "name"),
        test_count: count_member(doc, "test_count"),
        passed: count_member(doc, "passed"),
        failed: count_member(doc, "failed"),
        ignored: count_member(doc, "ignored"),
        measured: count_member(doc, "measured"),
        filtered_out: count_member(doc, "filtered_out"),
    }
}

/// Decodes one line of a test binary's output.
///
/// A line that is a JSON document gives the event the document stands
/// for, `Event::Other` where its shape is not known. A line that is not
/// gives an error that carries the line.
pub fn decode_line(line: &str) -> (r: Result<Event, DecodeError>)
    ensures
        outcome_view(r) == decoded(line@),
{
    match parse_json(line) {
        Ok(doc) => Ok(classify(read_fields(&doc))),
        Err(reason) => Err(DecodeError { line: line.to_owned(), reason }),
    }
}

/// Decodes a stream of lines, each on its own: the outcome for a line
/// depends on no other line.
pub fn decode_lines(lines: &Vec<String>) -> (r: Vec<Result<Event, DecodeError>>)
    ensures
        outcome_views(r@) == decoded_stream(crate::text::texts(lines@)),
{
    let mut out: Vec<Result<Event, DecodeError>> = Vec::new();
    let mut i: usize = 0;
    while i < lines.len()
        invariant
            i <= lines.len(),
            out.len() == i,
            forall|k: int| 0 <= k < i ==> outcome_view(out[k]) == decoded(lines[k]@),
        decreases lines.len() - i,
    {
        out.push(decode_line(lines[i].as_str()));
        i += 1;
    }
    proof {
        assert(outcome_views(out@) =~= decoded_stream(crate::text::texts(lines@)));
    }
    out
}

/// A line in the middle of a stream, whatever it holds, leaves what the
/// lines before and after it decode to as it is.
pub proof fn lemma_decoding_is_line_by_line(
    before: Seq<Seq<char>>,
    line: Seq<char>,
    after: Seq<Seq<char>>,
)
    ensures
        decoded_stream(before + seq![line] + after) == decoded_stream(before) + seq![decoded(line)]
            + decoded_stream(after),
        forall|i: int|
            0 <= i < after.len() ==> decoded_stream(before + seq![line] + after)[before.len() + 1 + i]
                == decoded(#[trigger] after[i]),
{
    assert(decoded_stream(before + seq![line] + after) =~= decoded_stream(before) + seq![
        decoded(line),
    ] + decoded_stream(after));
}

} // verus!
