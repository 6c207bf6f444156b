//! The web front end's logic: color styles, the bounded screen buffer and the
//! page state.

use crate::text::{
    decimal, is_ws, lemma_trim_padded, push_decimal, str_equal, to_string, trim, trim_spec,
};
use std::collections::VecDeque;
use vstd::prelude::*;
use vstd::string::*;

verus! {

/// An RGB color.
#[derive(Clone, Copy, Debug, Eq, Hash, PartialEq)]
pub struct Color(pub u8, pub u8, pub u8);

/// `rgb(r, g, b)` with the components in decimal.
pub open spec fn rgb_spec(c: Color) -> Seq<char> {
    "rgb("@ + decimal(c.0 as nat) + ", "@ + decimal(c.1 as nat) + ", "@ + decimal(c.2 as nat) + ")"@
}

/// Color to RGB style text.
pub fn color_to_rgb_text(color: Color) -> (s: String)
    ensures
        s@ == rgb_spec(color),
{
    let mut s = to_string("rgb(");
    push_decimal(&mut s, color.0);
    s.append(", ");
    push_decimal(&mut s, color.1);
    s.append(", ");
    push_decimal(&mut s, color.2);
    s.append(")");
    s
}

/// Color as a foreground style.
pub fn as_foreground(color: Color) -> (s: String)
    ensures
        s@ == "color: "@ + rgb_spec(color),
{
    let mut s = to_string("color: ");
    let rgb = color_to_rgb_text(color);
    s.append(rgb.as_str());
    s
}

/// Color as a background style.
pub fn as_background(color: Color) -> (s: String)
    ensures
        s@ == "background: "@ + rgb_spec(color),
{
    let mut s = to_string("background: ");
    let rgb = color_to_rgb_text(color);
    s.append(rgb.as_str());
    s
}

/// Color pair as a foreground/background style.
pub fn as_color_style(foreground: Color, background: Color) -> (s: String)
    ensures
        s@ == "color: "@ + rgb_spec(foreground) + "; background: "@ + rgb_spec(background),
{
    let mut s = to_string("color: ");
    let f = color_to_rgb_text(foreground);
    s.append(f.as_str());
    s.append("; background: ");
    let b = color_to_rgb_text(background);
    s.append(b.as_str());
    s
}

/// A text attribute.
#[derive(Clone, Copy, Debug, Eq, Hash, PartialEq)]
pub enum Attribute {
    Bold,
    Italic,
    BoldItalic,
    Underlined,
    BoldUnderlined,
    ItalicUnderlined,
    BoldItalicUnderlined,
}

/// The style that text is written in.
#[derive(Clone, Copy, Debug, Eq, Hash, PartialEq)]
pub enum WriteStyle {
    /// No style.
    Plain,
    /// A foreground color.
    Foreground(Color),
    /// A background color.
    Background(Color),
    /// Foreground and background colors.
    Color(Color, Color),
    /// An attribute.
    Attribute(Attribute),
    /// A foreground color and an attribute.
    ForegroundAttribute(Color, Attribute),
    /// A background color and an attribute.
    BackgroundAttribute(Color, Attribute),
    /// Foreground and background colors and an attribute.
    ColorAttribute(Color, Color, Attribute),
}

/// Page markup for a piece of text: bare text, text in a styled span, or
/// markup in bold or italics.
#[derive(Debug, Eq, Hash, PartialEq)]
pub enum Markup {
    /// Bare text.
    Text(String),
    /// Text in a span with the given style.
    Span(String, String),
    /// Bold markup.
    Bold(Box<Markup>),
    /// Italic markup.
    Italic(Box<Markup>),
}

/// The value of a piece of markup.
pub enum MarkupView {
    Text(Seq<char>),
    Span(Seq<char>, Seq<char>),
    Bold(Box<MarkupView>),
    Italic(Box<MarkupView>),
}

impl Markup {
    /// The value of this markup.
    pub open spec fn markup_view(self) -> MarkupView
        decreases self,
    {
        match self {
            Markup::Text(t) => MarkupView::Text(t@),
            Markup::Span(style, t) => MarkupView::Span(style@, t@),
            Markup::Bold(m) => MarkupView::Bold(Box::new((*m).markup_view())),
            Markup::Italic(m) => MarkupView::Italic(Box::new((*m).markup_view())),
        }
    }
}

/// Text with a style: bare when the style is blank, else in a styled span.
pub open spec fn preformatted_spec(style: Seq<char>, text: Seq<char>) -> MarkupView {
    if trim_spec(style).len() == 0 {
        MarkupView::Text(text)
    } else {
        MarkupView::Span(style, text)
    }
}

/// Markup with an attribute added: bold and italics wrap it, underlining
/// adds nothing.
pub open spec fn add_attribute_spec(attr: Attribute, m: MarkupView) -> MarkupView {
    match attr {
        Attribute::Bold | Attribute::BoldUnderlined => MarkupView::Bold(Box::new(m)),
        Attribute::Italic | Attribute::ItalicUnderlined => MarkupView::Italic(Box::new(m)),
        Attribute::BoldItalic | Attribute::BoldItalicUnderlined => MarkupView::Bold(
            Box::new(MarkupView::Italic(Box::new(m))),
        ),
        Attribute::Underlined => m,
    }
}

/// Whether a style carries an attribute.
pub open spec fn style_rank(style: WriteStyle) -> nat {
    match style {
        WriteStyle::Attribute(_) | WriteStyle::ForegroundAttribute(_, _)
        | WriteStyle::BackgroundAttribute(_, _) | WriteStyle::ColorAttribute(_, _, _) => 1,
        _ => 0,
    }
}

/// Text in a style: the colors give the span's style, and the attribute, if
/// any, is added around the text in its colors.
pub open spec fn styled_spec(text: Seq<char>, style: WriteStyle) -> MarkupView
    decreases style_rank(style),
{
    match style {
        WriteStyle::Plain => preformatted_spec(Seq::empty(), text),
        WriteStyle::Foreground(c) => preformatted_spec("color: "@ + rgb_spec(c), text),
        WriteStyle::Background(c) => preformatted_spec("background: "@ + rgb_spec(c), text),
        WriteStyle::Color(f, b) => preformatted_spec(
            "color: "@ + rgb_spec(f) + "; background: "@ + rgb_spec(b),
            text,
        ),
        WriteStyle::Attribute(a) => add_attribute_spec(a, styled_spec(text, WriteStyle::Plain)),
        WriteStyle::ForegroundAttribute(c, a) => add_attribute_spec(
            a,
            styled_spec(text, WriteStyle::Foreground(c)),
        ),
        WriteStyle::BackgroundAttribute(c, a) => add_attribute_spec(
            a,
            styled_spec(text, WriteStyle::Background(c)),
        ),
        WriteStyle::ColorAttribute(f, b, a) => add_attribute_spec(
            a,
            styled_spec(text, WriteStyle::Color(f, b)),
        ),
    }
}

/// The foreground color a style names, if any.
pub open spec fn foreground_of(style: WriteStyle) -> Option<Color> {
    match style {
        WriteStyle::Foreground(c) | WriteStyle::ForegroundAttribute(c, _) => Some(c),
        WriteStyle::Color(f, _) | WriteStyle::ColorAttribute(f, _, _) => Some(f),
        _ => None,
    }
}

/// The background color a style names, if any.
pub open spec fn background_of(style: WriteStyle) -> Option<Color> {
    match style {
        WriteStyle::Background(c) | WriteStyle::BackgroundAttribute(c, _) => Some(c),
        WriteStyle::Color(_, b) | WriteStyle::ColorAttribute(_, b, _) => Some(b),
        _ => None,
    }
}

/// The attribute a style names, if any.
pub open spec fn attribute_of(style: WriteStyle) -> Option<Attribute> {
    match style {
        WriteStyle::Attribute(a) | WriteStyle::ForegroundAttribute(_, a)
        | WriteStyle::BackgroundAttribute(_, a) | WriteStyle::ColorAttribute(_, _, a) => Some(a),
        _ => None,
    }
}

/// The span style for the colors given: `color: ` with the foreground,
/// `background: ` with the background, joined by `; ` when both are given.
pub open spec fn color_style_text(fg: Option<Color>, bg: Option<Color>) -> Seq<char> {
    match (fg, bg) {
        (None, None) => Seq::empty(),
        (Some(f), None) => "color: "@ + rgb_spec(f),
        (None, Some(b)) => "background: "@ + rgb_spec(b),
        (Some(f), Some(b)) => "color: "@ + rgb_spec(f) + "; background: "@ + rgb_spec(b),
    }
}

/// The markup inside any bold and italic wrappers.
pub open spec fn inner_markup(m: MarkupView) -> MarkupView
    decreases m,
{
    match m {
        MarkupView::Bold(b) => inner_markup(*b),
        MarkupView::Italic(b) => inner_markup(*b),
        _ => m,
    }
}

/// Styled text is the text styled with every color the style names, and
/// with the style's attribute, if any, added around it: the colors and the
/// attribute of a style act independently.
pub proof fn law_styled_text(text: Seq<char>, style: WriteStyle)
    ensures
        inner_markup(styled_spec(text, style)) == preformatted_spec(
            color_style_text(foreground_of(style), background_of(style)),
            text,
        ),
        styled_spec(text, style) == match attribute_of(style) {
            None => inner_markup(styled_spec(text, style)),
            Some(a) => add_attribute_spec(a, inner_markup(styled_spec(text, style))),
        },
{
    let inner = preformatted_spec(color_style_text(foreground_of(style), background_of(style)), text);
    assert(inner_markup(inner) == inner);
    let base = match style {
        WriteStyle::Attribute(_) => WriteStyle::Plain,
        WriteStyle::ForegroundAttribute(c, _) => WriteStyle::Foreground(c),
        WriteStyle::BackgroundAttribute(c, _) => WriteStyle::Background(c),
        WriteStyle::ColorAttribute(f, b, _) => WriteStyle::Color(f, b),
        _ => style,
    };
    assert(styled_spec(text, base) == inner);
    match attribute_of(style) {
        Some(a) => {
            assert(styled_spec(text, style) == add_attribute_spec(a, styled_spec(text, base)));
            assert(inner_markup(add_attribute_spec(a, inner)) == inner) by {
                match a {
                    Attribute::BoldItalic | Attribute::BoldItalicUnderlined => {
                        assert(inner_markup(MarkupView::Italic(Box::new(inner))) == inner);
                    },
                    _ => {},
                }
            }
        },
        None => {},
    }
}

/// Text with a style: bare when the style is blank, else in a styled span.
pub fn preformatted(style: &str, text: &str) -> (m: Markup)
    ensures
        m.markup_view() == preformatted_spec(style@, text@),
{
    if trim(style).unicode_len() == 0 {
        Markup::Text(to_string(text))
    } else {
        Markup::Span(to_string(style), to_string(text))
    }
}

/// Add an attribute to markup.
pub fn add_attribute(attr: Attribute, m: Markup) -> (r: Markup)
    ensures
        r.markup_view() == add_attribute_spec(attr, m.markup_view()),
{
    let ghost v = m.markup_view();
    match attr {
        Attribute::Bold | Attribute::BoldUnderlined => {
            let r = Markup::Bold(Box::new(m));
            assert(r.markup_view() == MarkupView::Bold(Box::new(v)));
            r
        },
        Attribute::Italic | Attribute::ItalicUnderlined => {
            let r = Markup::Italic(Box::new(m));
            assert(r.markup_view() == MarkupView::Italic(Box::new(v)));
            r
        },
        Attribute::BoldItalic | Attribute::BoldItalicUnderlined => {
            let i = Markup::Italic(Box::new(m));
            assert(i.markup_view() == MarkupView::Italic(Box::new(v)));
            let r = Markup::Bold(Box::new(i));
            assert(r.markup_view() == MarkupView::Bold(Box::new(i.markup_view())));
            r
        },
        Attribute::Underlined => m,
    }
}

/// Convert styled text to markup.
pub fn styled_text_to_html(text: &str, style: WriteStyle) -> (m: Markup)
    ensures
        m.markup_view() == styled_spec(text@, style),
    decreases style_rank(style),
{
    proof {
        reveal_strlit("");
        assert(trim_spec(""@) =~= Seq::<char>::empty()) by {
            crate::text::lemma_trim(""@);
        }
    }
    match style {
        WriteStyle::Plain => preformatted("", text),
        WriteStyle::Foreground(color) => preformatted(as_foreground(color).as_str(), text),
        WriteStyle::Background(color) => preformatted(as_background(color).as_str(), text),
        WriteStyle::Color(foreground, background) => preformatted(
            as_color_style(foreground, background).as_str(),
            text,
        ),
        WriteStyle::Attribute(attr) => add_attribute(attr, styled_text_to_html(text, WriteStyle::Plain)),
        WriteStyle::ForegroundAttribute(color, attr) => add_attribute(
            attr,
            styled_text_to_html(text, WriteStyle::Foreground(color)),
        ),
        WriteStyle::BackgroundAttribute(color, attr) => add_attribute(
            attr,
            styled_text_to_html(text, WriteStyle::Background(color)),
        ),
        WriteStyle::ColorAttribute(foreground, background, attr) => add_attribute(
            attr,
            styled_text_to_html(text, WriteStyle::Color(foreground, background)),
        ),
    }
}

/// What to clear on the screen.
#[derive(Clone, Copy, Debug, Eq, Hash, PartialEq)]
pub enum Clear {
    /// Everything written so far.
    All,
    /// The current command line.
    CurrentLine,
}

/// The web terminal's screen: a bounded list of entries, each made of the
/// pieces written to it until the writer was done.
#[derive(Clone, Debug, PartialEq)]
pub struct Terminal<E> {
    entries: VecDeque<Vec<E>>,
    max_capacity: usize,
    drop_count: usize,
    is_flushed: bool,
}

impl<E> Terminal<E> {
    /// The entries on the screen, oldest first.
    pub closed spec fn entries_view(&self) -> Seq<Seq<E>> {
        self.entries@.map_values(|e: Vec<E>| e@)
    }

    /// The largest number of entries kept.
    pub closed spec fn capacity(&self) -> nat {
        self.max_capacity as nat
    }

    /// The number of entries dropped when the screen is full.
    pub closed spec fn drop_spec(&self) -> nat {
        self.drop_count as nat
    }

    /// Whether the last entry is finished: the next piece starts a new one.
    pub closed spec fn flushed(&self) -> bool {
        self.is_flushed
    }

    /// At least one entry is dropped and fewer than the capacity; the screen
    /// never holds more entries than its capacity.
    pub open spec fn wf(&self) -> bool {
        &&& 1 <= self.drop_spec() < self.capacity()
        &&& self.entries_view().len() <= self.capacity()
    }

    /// Build a new Terminal with the given `max_capacity` and `drop_count`.
    ///
    /// Returns `None` if the `drop_count == 0` or if `drop_count >= max_capacity`.
    pub fn new(max_capacity: usize, drop_count: usize) -> (t: Option<Self>)
        ensures
            t is Some <==> 1 <= drop_count < max_capacity,
            t matches Some(t) ==> {
                &&& t.wf()
                &&& t.entries_view() == Seq::<Seq<E>>::empty()
                &&& t.capacity() == max_capacity
                &&& t.drop_spec() == drop_count
                &&& !t.flushed()
            },
    {
        if drop_count >= 1 && drop_count < max_capacity {
            let t = Terminal {
                entries: VecDeque::with_capacity(drop_count),
                max_capacity,
                drop_count,
                is_flushed: false,
            };
            assert(t.entries_view() =~= Seq::<Seq<E>>::empty());
            Some(t)
        } else {
            None
        }
    }

    /// Return the maximum capacity of the internal buffer.
    pub fn max_capacity(&self) -> (n: usize)
        ensures
            n == self.capacity(),
    {
        self.max_capacity
    }

    /// Return the number of elements to be dropped on every resize.
    pub fn drop_count(&self) -> (n: usize)
        ensures
            n == self.drop_spec(),
    {
        self.drop_count
    }

    /// The entries on the screen, oldest first.
    pub fn entries(&self) -> (e: &VecDeque<Vec<E>>)
        ensures
            e@.map_values(|v: Vec<E>| v@) == self.entries_view(),
    {
        &self.entries
    }

    /// Drop elements if the length of the internal buffer equals the
    /// capacity: the `drop_count` oldest entries leave. Returns whether any
    /// were dropped.
    pub fn maybe_drop(&mut self) -> (dropped: bool)
        requires
            old(self).wf(),
        ensures
            final(self).wf(),
            dropped == (old(self).entries_view().len() == old(self).capacity()),
            final(self).entries_view() == (if dropped {
                old(self).entries_view().subrange(
                    old(self).drop_spec() as int,
                    old(self).entries_view().len() as int,
                )
            } else {
                old(self).entries_view()
            }),
            final(self).capacity() == old(self).capacity(),
            final(self).drop_spec() == old(self).drop_spec(),
            final(self).flushed() == old(self).flushed(),
    {
        if self.entries.len() == self.max_capacity {
            let ghost v0 = self.entries@;
            let rest = self.entries.split_off(self.drop_count);
            self.entries = rest;
            assert(self.entries@ =~= v0.subrange(self.drop_count as int, v0.len() as int));
            assert(self.entries_view() =~= old(self).entries_view().subrange(
                self.drop_count as int,
                v0.len() as int,
            ));
            true
        } else {
            false
        }
    }

    /// The entries after writing `piece`: after `done`, or on an empty screen,
    /// it starts a new entry, the `drop_count` oldest entries dropped first
    /// when the screen is full; otherwise it is added to the last entry.
    pub open spec fn written(self, piece: E) -> Seq<Seq<E>> {
        let v = self.entries_view();
        if self.flushed() || v.len() == 0 {
            (if v.len() == self.capacity() {
                v.subrange(self.drop_spec() as int, v.len() as int)
            } else {
                v
            }).push(seq![piece])
        } else {
            v.update(v.len() - 1, v.last().push(piece))
        }
    }

    /// Write a piece: after `done`, or on an empty screen, it starts a new
    /// entry (dropping old entries first when the screen is full); otherwise
    /// it is added to the last entry.
    pub fn write_styled(&mut self, piece: E)
        requires
            old(self).wf(),
        ensures
            final(self).wf(),
            !final(self).flushed(),
            final(self).capacity() == old(self).capacity(),
            final(self).drop_spec() == old(self).drop_spec(),
            final(self).entries_view() == old(self).written(piece),
    {
        if self.is_flushed || self.entries.len() == 0 {
            self.is_flushed = false;
            self.maybe_drop();
            let ghost v0 = self.entries_view();
            let mut entry: Vec<E> = Vec::new();
            entry.push(piece);
            self.entries.push_back(entry);
            assert(self.entries_view() =~= v0.push(seq![piece]));
        } else {
            let ghost v0 = self.entries_view();
            let mut last = self.entries.pop_back().unwrap();
            last.push(piece);
            self.entries.push_back(last);
            assert(self.entries_view() =~= v0.update(v0.len() - 1, v0.last().push(piece)));
        }
    }

    /// Finish the current entry: the next piece starts a new one.
    pub fn done(&mut self)
        requires
            old(self).wf(),
        ensures
            final(self).wf(),
            final(self).flushed(),
            final(self).entries_view() == old(self).entries_view(),
            final(self).capacity() == old(self).capacity(),
            final(self).drop_spec() == old(self).drop_spec(),
    {
        self.is_flushed = true;
    }

    /// Clear the screen (`All`) or the current command line (which changes
    /// nothing on the screen).
    pub fn clear(&mut self, clear: Clear)
        requires
            old(self).wf(),
        ensures
            final(self).wf(),
            final(self).entries_view() == (match clear {
                Clear::All => Seq::<Seq<E>>::empty(),
                Clear::CurrentLine => old(self).entries_view(),
            }),
            final(self).flushed() == old(self).flushed(),
            final(self).capacity() == old(self).capacity(),
            final(self).drop_spec() == old(self).drop_spec(),
    {
        match clear {
            Clear::CurrentLine => {},
            Clear::All => {
                self.entries.clear();
                assert(self.entries_view() =~= Seq::<Seq<E>>::empty());
            },
        }
    }
}

impl<E> Default for Terminal<E> {
    /// A screen of 1024 entries that drops 256 when full.
    fn default() -> (t: Self)
        ensures
            t.wf(),
            t.entries_view() == Seq::<Seq<E>>::empty(),
            t.capacity() == 1024,
            t.drop_spec() == 256,
            !t.flushed(),
    {
        let t = Terminal {
            entries: VecDeque::with_capacity(256),
            max_capacity: 1024,
            drop_count: 256,
            is_flushed: false,
        };
        assert(t.entries_view() =~= Seq::<Seq<E>>::empty());
        t
    }
}

/// Writing any piece keeps the screen within its capacity, and the piece
/// written is the last piece of the last entry.
pub proof fn law_write_within_capacity<E>(t: Terminal<E>, piece: E)
    requires
        t.wf(),
    ensures
        1 <= t.written(piece).len() <= t.capacity(),
        t.written(piece).last().last() == piece,
{
}

/// A piece that starts a new entry on a full screen first drops exactly the
/// `drop_count` oldest entries, keeping the others in order, so that the
/// screen then holds `capacity - drop_count + 1` entries, the last of them
/// the piece alone.
pub proof fn law_write_on_full_screen<E>(t: Terminal<E>, piece: E)
    requires
        t.wf(),
        t.flushed(),
        t.entries_view().len() == t.capacity(),
    ensures
        t.written(piece).len() == t.capacity() - t.drop_spec() + 1,
        forall|i: int|
            0 <= i < t.capacity() - t.drop_spec() ==> #[trigger] t.written(piece)[i]
                == t.entries_view()[i + t.drop_spec()],
        t.written(piece).last() == seq![piece],
{
}

/// A piece that starts a new entry on a screen that is not full keeps every
/// entry and adds the piece alone after them; a piece written before `done`
/// on a non-empty screen is added to the last entry, and every other entry
/// stays as it was.
pub proof fn law_write_keeps_entries<E>(t: Terminal<E>, piece: E)
    requires
        t.wf(),
    ensures
        (t.flushed() || t.entries_view().len() == 0) && t.entries_view().len() < t.capacity()
            ==> t.written(piece) == t.entries_view().push(seq![piece]),
        !t.flushed() && t.entries_view().len() > 0 ==> {
            &&& t.written(piece).len() == t.entries_view().len()
            &&& forall|i: int|
                0 <= i < t.entries_view().len() - 1 ==> #[trigger] t.written(piece)[i]
                    == t.entries_view()[i]
            &&& t.written(piece).last() == t.entries_view().last().push(piece)
        },
{
}

/// A message to the page.
pub enum Msg {
    /// The command line's text changed.
    Update(String),
    /// Clear the screen.
    Clear,
    /// Previous history entry (not available yet).
    Up,
    /// Next history entry (not available yet).
    Down,
    /// Run the command line.
    Run,
    /// Nothing (a key other than enter).
    Idle,
}

/// The page's state: the screen entries, the command line's text, and
/// whether a command has been run yet (until then a welcome screen shows).
pub struct State {
    entries: Vec<String>,
    value: String,
    started: bool,
}

impl State {
    /// The screen entries.
    pub closed spec fn entries_view(&self) -> Seq<Seq<char>> {
        self.entries@.map_values(|s: String| s@)
    }

    /// The command line's text.
    pub closed spec fn value_view(&self) -> Seq<char> {
        self.value@
    }

    /// Whether a command has been run.
    pub closed spec fn started_view(&self) -> bool {
        self.started
    }

    /// The state of a fresh page.
    pub fn new() -> (s: Self)
        ensures
            s.entries_view() == Seq::<Seq<char>>::empty(),
            s.value_view() == Seq::<char>::empty(),
            !s.started_view(),
    {
        let s = State { entries: Vec::new(), value: String::new(), started: false };
        assert(s.entries_view() =~= Seq::<Seq<char>>::empty());
        s
    }

    /// The screen entries.
    pub fn entries(&self) -> (e: &Vec<String>)
        ensures
            e@.map_values(|s: String| s@) == self.entries_view(),
    {
        &self.entries
    }

    /// The command line's text.
    pub fn value(&self) -> (v: &str)
        ensures
            v@ == self.value_view(),
    {
        self.value.as_str()
    }

    /// Whether a command has been run.
    pub fn started(&self) -> (b: bool)
        ensures
            b == self.started_view(),
    {
        self.started
    }

    /// The entries after running the command line `value`: `clear` empties
    /// the screen, `help` and `?` add the help text, anything else adds a
    /// report that the command is missing.
    pub open spec fn run_entries(entries: Seq<Seq<char>>, value: Seq<char>) -> Seq<Seq<char>> {
        let cmd = trim_spec(value);
        if cmd == "clear"@ {
            Seq::empty()
        } else if cmd == "help"@ || cmd == "?"@ {
            entries.push("help information ..."@)
        } else {
            entries.push("missing command: "@ + value)
        }
    }

    /// Running a line chooses its command by the line without the
    /// whitespace around it: `c` with any whitespace before and after runs
    /// as `c` does; `clear` empties the screen, `help` and `?` add the help
    /// text, and any other command adds a report naming the whole line.
    pub proof fn law_run_padded_command(entries: Seq<Seq<char>>, p: Seq<char>, c: Seq<char>, q: Seq<char>)
        requires
            forall|k: int| 0 <= k < p.len() ==> is_ws(#[trigger] p[k]),
            forall|k: int| 0 <= k < q.len() ==> is_ws(#[trigger] q[k]),
            c.len() > 0,
            !is_ws(c[0]),
            !is_ws(c.last()),
        ensures
            c == "clear"@ ==> State::run_entries(entries, p + c + q) == Seq::<Seq<char>>::empty(),
            (c == "help"@ || c == "?"@) ==> State::run_entries(entries, p + c + q) == entries.push(
                "help information ..."@,
            ),
            !(c == "clear"@ || c == "help"@ || c == "?"@) ==> State::run_entries(entries, p + c + q)
                == entries.push("missing command: "@ + (p + c + q)),
    {
        lemma_trim_padded(p, c, q);
        reveal_strlit("clear");
        reveal_strlit("help");
        reveal_strlit("?");
        assert("clear"@.len() == 5 && "help"@.len() == 4 && "?"@.len() == 1);
    }

    /// Two lines with the same text between their surrounding whitespace
    /// run the same command: both empty the screen or neither does, and both
    /// leave the same number of entries.
    pub proof fn law_run_same_trim(entries: Seq<Seq<char>>, v: Seq<char>, w: Seq<char>)
        requires
            trim_spec(v) == trim_spec(w),
        ensures
            State::run_entries(entries, v).len() == State::run_entries(entries, w).len(),
            (State::run_entries(entries, v) == Seq::<Seq<char>>::empty()) <==> (State::run_entries(
                entries,
                w,
            ) == Seq::<Seq<char>>::empty()),
    {
        if trim_spec(v) != "clear"@ {
            assert(State::run_entries(entries, v).len() > 0);
            assert(State::run_entries(entries, w).len() > 0);
        }
    }

    /// Handle a message; the page is always redrawn.
    pub fn update(&mut self, msg: Msg) -> (render: bool)
        requires
            !(msg is Up || msg is Down),
        ensures
            render,
            match msg {
                Msg::Update(text) => {
                    &&& final(self).value_view() == text@
                    &&& final(self).entries_view() == old(self).entries_view()
                    &&& final(self).started_view() == old(self).started_view()
                },
                Msg::Clear => {
                    &&& final(self).entries_view() == Seq::<Seq<char>>::empty()
                    &&& final(self).value_view() == old(self).value_view()
                    &&& final(self).started_view() == old(self).started_view()
                },
                Msg::Run => {
                    &&& final(self).value_view() == Seq::<char>::empty()
                    &&& if trim_spec(old(self).value_view()).len() == 0 {
                        &&& final(self).entries_view() == old(self).entries_view()
                        &&& final(self).started_view() == old(self).started_view()
                    } else {
                        &&& final(self).entries_view() == State::run_entries(
                            old(self).entries_view(),
                            old(self).value_view(),
                        )
                        &&& final(self).started_view()
                    }
                },
                _ => {
                    &&& final(self).entries_view() == old(self).entries_view()
                    &&& final(self).value_view() == old(self).value_view()
                    &&& final(self).started_view() == old(self).started_view()
                },
            },
    {
        match msg {
            Msg::Update(text) => {
                self.value = text;
            },
            Msg::Clear => {
                self.entries = Vec::new();
                assert(self.entries_view() =~= Seq::<Seq<char>>::empty());
            },
            Msg::Run => {
                let cmd = trim(self.value.as_str());
                if cmd.unicode_len() != 0 {
                    if str_equal(cmd, "clear") {
                        self.entries = Vec::new();
                        assert(self.entries_view() =~= Seq::<Seq<char>>::empty());
                    } else if str_equal(cmd, "help") || str_equal(cmd, "?") {
                        let ghost e0 = self.entries_view();
                        self.entries.push(to_string("help information ..."));
                        assert(self.entries_view() =~= e0.push("help information ..."@));
                    } else {
                        let ghost e0 = self.entries_view();
                        let mut line = to_string("missing command: ");
                        line.append(self.value.as_str());
                        self.entries.push(line);
                        assert(self.entries_view() =~= e0.push("missing command: "@ + old(self).value_view()));
                    }
                    self.started = true;
                }
                self.value = String::new();
            },
            _ => {},
        }
        true
    }
}

impl Default for State {
    fn default() -> (s: Self)
        ensures
            s.entries_view() == Seq::<Seq<char>>::empty(),
            s.value_view() == Seq::<char>::empty(),
            !s.started_view(),
    {
        Self::new()
    }
}

} // verus!
