//! Progress and status messages: their levels, which of them a console lets
//! through (`--quiet` / `--verbose`), and how the terminal lays each level
//! out. Delivering a message (printing it, or handing it to an embedder's
//! sink) is the caller's part.

use vstd::prelude::*;

use crate::text::owned;

verus! {

/// The kind of a message, so a sink can route or style it.
#[derive(Clone, Copy, PartialEq, Eq, Debug)]
pub enum Level {
    /// A `>> …` progress step.
    Step,
    /// An indented sub-line.
    Item,
    /// Extra detail (shown only when verbose).
    Detail,
    /// A terminal success line.
    Success,
    /// A section heading.
    Heading,
    /// A warning (stderr in the terminal sink).
    Warn,
    /// An error (stderr in the terminal sink).
    Error,
    /// Unstyled output (status rows etc.).
    Plain,
}

pub open spec fn level_name(l: Level) -> Seq<char> {
    match l {
        Level::Step => "step"@,
        Level::Item => "item"@,
        Level::Detail => "detail"@,
        Level::Success => "success"@,
        Level::Heading => "heading"@,
        Level::Warn => "warn"@,
        Level::Error => "error"@,
        Level::Plain => "plain"@,
    }
}

impl Level {
    /// A lowercase label (`"step"`, `"error"`, …), handy for forwarding to a UI.
    pub fn as_str(self) -> (s: &'static str)
        ensures
            s@ == level_name(self),
    {
        match self {
            Level::Step => "step",
            Level::Item => "item",
            Level::Detail => "detail",
            Level::Success => "success",
            Level::Heading => "heading",
            Level::Warn => "warn",
            Level::Error => "error",
            Level::Plain => "plain",
        }
    }
}

/// One message: its level and its text.
#[derive(Debug)]
pub struct Message {
    pub level: Level,
    pub text: String,
}

pub struct MessageView {
    pub level: Level,
    pub text: Seq<char>,
}

impl View for Message {
    type V = MessageView;

    open spec fn view(&self) -> MessageView {
        MessageView { level: self.level, text: self.text@ }
    }
}

pub open spec fn messages_view(v: Seq<Message>) -> Seq<MessageView> {
    Seq::new(v.len(), |i: int| v[i]@)
}

pub open spec fn mv(level: Level, text: Seq<char>) -> MessageView {
    MessageView { level, text }
}

impl Message {
    pub fn new(level: Level, text: String) -> (m: Message)
        ensures
            m@ == mv(level, text@),
    {
        Message { level, text }
    }
}

/// Appends a message to a list.
pub fn say(out: &mut Vec<Message>, level: Level, text: String)
    ensures
        messages_view(final(out)@) == messages_view(old(out)@).push(mv(level, text@)),
{
    let m = Message { level, text };
    let ghost v = m@;
    out.push(m);
    assert(messages_view(out@) =~= messages_view(old(out)@).push(v));
}

/// A destination for console messages, which an embedder implements to
/// route or render them (a channel, a UI event).
pub trait Sink {
    fn emit(&self, level: Level, message: &str);
}

/// Where a console's messages go.
#[derive(Clone, Copy, PartialEq, Eq, Debug)]
pub enum SinkKind {
    /// Colored output to stdout, warnings and errors to stderr.
    Terminal,
    /// A sink the embedder supplies.
    Custom,
    /// Nowhere: every message is dropped.
    Discard,
}

/// Which messages reach the sink.
#[derive(Debug)]
pub struct Console {
    pub quiet: bool,
    pub verbose: bool,
    pub sink: SinkKind,
}

/// Whether a console with these switches lets a message of `level` through:
/// progress (steps, items, successes) unless quiet, detail only when
/// verbose, everything else always.
pub open spec fn lets_through(quiet: bool, verbose: bool, level: Level) -> bool {
    match level {
        Level::Step | Level::Item | Level::Success => !quiet,
        Level::Detail => verbose,
        _ => true,
    }
}

impl Console {
    /// CLI console: output to the terminal, gated by `quiet`/`verbose`.
    pub fn new(quiet: bool, verbose: bool) -> (c: Console)
        ensures
            c.quiet == quiet,
            c.verbose == verbose,
            c.sink == SinkKind::Terminal,
    {
        Console { quiet, verbose, sink: SinkKind::Terminal }
    }

    /// Console for an embedder's sink. Filtering is off (`quiet = false`,
    /// `verbose = true`), so the sink sees every level, including `Detail`.
    pub fn with_sink() -> (c: Console)
        ensures
            !c.quiet,
            c.verbose,
            c.sink == SinkKind::Custom,
    {
        Console { quiet: false, verbose: true, sink: SinkKind::Custom }
    }

    /// A console that discards every message.
    pub fn silent() -> (c: Console)
        ensures
            !c.quiet,
            c.verbose,
            c.sink == SinkKind::Discard,
    {
        Console { quiet: false, verbose: true, sink: SinkKind::Discard }
    }

    /// Whether a message of `level` reaches the sink.
    pub open spec fn delivers(&self, level: Level) -> bool {
        self.sink != SinkKind::Discard && lets_through(self.quiet, self.verbose, level)
    }

    /// The message to hand to the sink, if this console delivers `level`.
    pub fn emit(&self, level: Level, msg: &str) -> (r: Option<Message>)
        ensures
            self.delivers(level) ==> (r matches Some(m) && m@ == mv(level, msg@)),
            !self.delivers(level) ==> r is None,
    {
        let pass = match level {
            Level::Step | Level::Item | Level::Success => !self.quiet,
            Level::Detail => self.verbose,
            _ => true,
        };
        if pass && !matches!(self.sink, SinkKind::Discard) {
            Some(Message { level, text: owned(msg) })
        } else {
            None
        }
    }

    /// A `>> step…` progress line.
    pub fn step(&self, msg: &str) -> (r: Option<Message>)
        ensures
            self.delivers(Level::Step) ==> (r matches Some(m) && m@ == mv(Level::Step, msg@)),
            !self.delivers(Level::Step) ==> r is None,
    {
        self.emit(Level::Step, msg)
    }

    /// An indented sub-line (e.g. each applied patch).
    pub fn item(&self, msg: &str) -> (r: Option<Message>)
        ensures
            self.delivers(Level::Item) ==> (r matches Some(m) && m@ == mv(Level::Item, msg@)),
            !self.delivers(Level::Item) ==> r is None,
    {
        self.emit(Level::Item, msg)
    }

    /// Extra detail, only shown under `--verbose`.
    pub fn detail(&self, msg: &str) -> (r: Option<Message>)
        ensures
            self.delivers(Level::Detail) ==> (r matches Some(m) && m@ == mv(Level::Detail, msg@)),
            !self.delivers(Level::Detail) ==> r is None,
    {
        self.emit(Level::Detail, msg)
    }

    /// A terminal success line for a finished operation.
    pub fn success(&self, msg: &str) -> (r: Option<Message>)
        ensures
            self.delivers(Level::Success) ==> (r matches Some(m) && m@ == mv(
                Level::Success,
                msg@,
            )),
            !self.delivers(Level::Success) ==> r is None,
    {
        self.emit(Level::Success, msg)
    }

    /// A section heading.
    pub fn heading(&self, msg: &str) -> (r: Option<Message>)
        ensures
            self.delivers(Level::Heading) ==> (r matches Some(m) && m@ == mv(
                Level::Heading,
                msg@,
            )),
            !self.delivers(Level::Heading) ==> r is None,
    {
        self.emit(Level::Heading, msg)
    }

    /// A warning.
    pub fn warn(&self, msg: &str) -> (r: Option<Message>)
        ensures
            self.delivers(Level::Warn) ==> (r matches Some(m) && m@ == mv(Level::Warn, msg@)),
            !self.delivers(Level::Warn) ==> r is None,
    {
        self.emit(Level::Warn, msg)
    }

    /// An error.
    pub fn error(&self, msg: &str) -> (r: Option<Message>)
        ensures
            self.delivers(Level::Error) ==> (r matches Some(m) && m@ == mv(Level::Error, msg@)),
            !self.delivers(Level::Error) ==> r is None,
    {
        self.emit(Level::Error, msg)
    }

    /// Unstyled output (status rows etc.), delivered even under `--quiet`.
    pub fn plain(&self, msg: &str) -> (r: Option<Message>)
        ensures
            self.delivers(Level::Plain) ==> (r matches Some(m) && m@ == mv(Level::Plain, msg@)),
            !self.delivers(Level::Plain) ==> r is None,
    {
        self.emit(Level::Plain, msg)
    }
}

/// A terminal color for a styled part of a line.
#[derive(Clone, Copy, PartialEq, Eq, Debug)]
pub enum Tint {
    Green,
    Cyan,
    Yellow,
    Red,
}

/// How the terminal prints one level: to stderr or stdout, a leading tag (and
/// its style), an indent, and whether the message text itself is dimmed.
#[derive(Debug)]
pub struct TerminalLayout {
    pub to_stderr: bool,
    /// The leading tag (`>>`, `✓`, `warning:`, `error:`), styled bold.
    pub tag: Option<&'static str>,
    /// The color of the tag, or of the whole text for a heading.
    pub tint: Option<Tint>,
    /// Spaces before the text.
    pub indent: usize,
    /// Whether the text is dimmed.
    pub dimmed: bool,
    /// Whether the text itself is styled bold in `tint` (a heading).
    pub bold_text: bool,
}

/// The terminal layout of each level: steps `>>` in green, successes `✓` in
/// green, headings bold cyan, warnings `warning:` in yellow and errors
/// `error:` in red on stderr, items indented, detail indented and dimmed,
/// plain text as is.
pub open spec fn layout_of(level: Level) -> (bool, Option<Seq<char>>, Option<Tint>, usize, bool, bool) {
    match level {
        Level::Step => (false, Some(">>"@), Some(Tint::Green), 0, false, false),
        Level::Item => (false, None, None, 3, false, false),
        Level::Detail => (false, None, None, 3, true, false),
        Level::Success => (false, Some("✓"@), Some(Tint::Green), 0, false, false),
        Level::Heading => (false, None, Some(Tint::Cyan), 0, false, true),
        Level::Warn => (true, Some("warning:"@), Some(Tint::Yellow), 0, false, false),
        Level::Error => (true, Some("error:"@), Some(Tint::Red), 0, false, false),
        Level::Plain => (false, None, None, 0, false, false),
    }
}

pub open spec fn tag_view(t: Option<&'static str>) -> Option<Seq<char>> {
    match t {
        Some(s) => Some(s@),
        None => None,
    }
}

/// The terminal layout of `level`.
pub fn terminal_layout(level: Level) -> (l: TerminalLayout)
    ensures
        (l.to_stderr, tag_view(l.tag), l.tint, l.indent, l.dimmed, l.bold_text) == layout_of(level),
{
    match level {
        Level::Step => TerminalLayout {
            to_stderr: false,
            tag: Some(">>"),
            tint: Some(Tint::Green),
            indent: 0,
            dimmed: false,
            bold_text: false,
        },
        Level::Item => TerminalLayout {
            to_stderr: false,
            tag: None,
            tint: None,
            indent: 3,
            dimmed: false,
            bold_text: false,
        },
        Level::Detail => TerminalLayout {
            to_stderr: false,
            tag: None,
            tint: None,
            indent: 3,
            dimmed: true,
            bold_text: false,
        },
        Level::Success => TerminalLayout {
            to_stderr: false,
            tag: Some("✓"),
            tint: Some(Tint::Green),
            indent: 0,
            dimmed: false,
            bold_text: false,
        },
        Level::Heading => TerminalLayout {
            to_stderr: false,
            tag: None,
            tint: Some(Tint::Cyan),
            indent: 0,
            dimmed: false,
            bold_text: true,
        },
        Level::Warn => TerminalLayout {
            to_stderr: true,
            tag: Some("warning:"),
            tint: Some(Tint::Yellow),
            indent: 0,
            dimmed: false,
            bold_text: false,
        },
        Level::Error => TerminalLayout {
            to_stderr: true,
            tag: Some("error:"),
            tint: Some(Tint::Red),
            indent: 0,
            dimmed: false,
            bold_text: false,
        },
        Level::Plain => TerminalLayout {
            to_stderr: false,
            tag: None,
            tint: None,
            indent: 0,
            dimmed: false,
            bold_text: false,
        },
    }
}

} // verus!
