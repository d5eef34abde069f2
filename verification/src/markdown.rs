//! Rendering markdown for the terminal: the events of a CommonMark parse
//! (given as plain values) become lines of styled spans — headings, emphasis,
//! inline and block code, bullet and ordered lists, block quotes, task-list
//! markers, links and rules. Line breaks in the source are kept (soft breaks
//! start new lines). pulldown-cmark parses, this module lays out, the host
//! draws.

use vstd::prelude::*;

use pulldown_cmark::{Event, Options, Parser, Tag, TagEnd};

use crate::text::{chars_of, int_text, int_to_text, owned, push_str, string_of};

verus! {

/// How a span is styled, as the host's palette will render it.
#[derive(Debug, Clone, Copy, PartialEq, Eq, Structural)]
pub enum SpanStyle {
    /// The default style.
    Plain,
    /// Inline or block code.
    Code,
    /// A block-quote marker or a rule.
    Quote,
    /// Running text: in a heading or not, with the inline emphasis in force.
    Inline { heading: bool, italic: bool, bold: bool, crossed: bool, link: bool },
}

/// A styled piece of text.
#[derive(Debug, Clone)]
pub struct MdSpan {
    pub text: String,
    pub style: SpanStyle,
}

/// An inline emphasis.
#[derive(Debug, Clone, Copy, PartialEq, Eq, Structural)]
pub enum Emphasis {
    Italic,
    Bold,
    Crossed,
}

/// A block or inline element that a parse event opens or closes.
#[derive(Debug, Clone, Copy, PartialEq, Eq, Structural)]
pub enum MdTag {
    Paragraph,
    Heading,
    CodeBlock,
    BlockQuote,
    /// A list; ordered ones give the number of their first item.
    List(Option<u64>),
    Item,
    Emphasis(Emphasis),
    Link,
    Other,
}

/// A CommonMark parse event, as plain values.
#[derive(Debug, Clone)]
pub enum MdEvent {
    Start(MdTag),
    End(MdTag),
    Text(String),
    /// Inline code (and inline or display math).
    Code(String),
    /// A soft or hard line break.
    Break,
    Rule,
    TaskListMarker(bool),
    /// Raw HTML (block or inline).
    Html(String),
    Other,
}

/// The plain value of an [`MdEvent`].
pub enum MdEventView {
    Start(MdTag),
    End(MdTag),
    Text(Seq<char>),
    Code(Seq<char>),
    Break,
    Rule,
    TaskListMarker(bool),
    Html(Seq<char>),
    Other,
}

impl View for MdEvent {
    type V = MdEventView;

    open spec fn view(&self) -> MdEventView {
        match self {
            MdEvent::Start(t) => MdEventView::Start(*t),
            MdEvent::End(t) => MdEventView::End(*t),
            MdEvent::Text(s) => MdEventView::Text(s@),
            MdEvent::Code(s) => MdEventView::Code(s@),
            MdEvent::Break => MdEventView::Break,
            MdEvent::Rule => MdEventView::Rule,
            MdEvent::TaskListMarker(b) => MdEventView::TaskListMarker(*b),
            MdEvent::Html(s) => MdEventView::Html(s@),
            MdEvent::Other => MdEventView::Other,
        }
    }
}

/// A span as plain values.
pub open spec fn span_view(s: MdSpan) -> (Seq<char>, SpanStyle) {
    (s.text@, s.style)
}

/// Spans as plain values.
pub open spec fn spans_view(v: Seq<MdSpan>) -> Seq<(Seq<char>, SpanStyle)> {
    v.map_values(|s: MdSpan| span_view(s))
}

/// Lines as plain values.
pub open spec fn lines_view(v: Seq<Vec<MdSpan>>) -> Seq<Seq<(Seq<char>, SpanStyle)>> {
    v.map_values(|l: Vec<MdSpan>| spans_view(l@))
}

/// The state of the layout after some events.
pub struct MdState {
    pub lines: Seq<Seq<(Seq<char>, SpanStyle)>>,
    pub cur: Seq<(Seq<char>, SpanStyle)>,
    pub emphasis: Seq<Emphasis>,
    pub link_depth: nat,
    pub heading: bool,
    pub in_code: bool,
    pub code: Seq<char>,
    pub prefixes: Seq<(Seq<char>, SpanStyle)>,
    pub bullet: Option<int>,
    /// The open lists, innermost last, with the number of the first item of
    /// the ordered ones.
    pub lists: Seq<Option<u64>>,
    /// Items so far since the innermost list opened (one count shared by all
    /// open lists: a nested list starts it again, and its end leaves it).
    pub counter: nat,
    pub depth: nat,
}

pub const QUOTE_MARKER: &'static str = "▎ ";

pub const BULLET: &'static str = "• ";

pub const ORDERED_TAIL: &'static str = ". ";

pub const CHECKED: &'static str = "☑ ";

pub const UNCHECKED: &'static str = "☐ ";

/// The width of a rule, in characters.
pub const RULE_WIDTH: usize = 40;

/// A rule's text.
pub open spec fn rule_text() -> Seq<char> {
    Seq::new(RULE_WIDTH as nat, |i: int| '─')
}

/// `n` spaces.
pub open spec fn spaces(n: nat) -> Seq<char> {
    Seq::new(n, |i: int| ' ')
}

/// The style of running text.
pub open spec fn inline_style(s: MdState) -> SpanStyle {
    SpanStyle::Inline {
        heading: s.heading,
        italic: s.emphasis.contains(Emphasis::Italic),
        bold: s.emphasis.contains(Emphasis::Bold),
        crossed: s.emphasis.contains(Emphasis::Crossed),
        link: s.link_depth > 0,
    }
}

/// Flush the current spans as a line, after the active prefixes.
pub open spec fn flushed(s: MdState) -> MdState {
    if s.cur.len() == 0 {
        s
    } else {
        MdState { lines: s.lines.push(s.prefixes + s.cur), cur: seq![], ..s }
    }
}

/// A blank line between top-level blocks (not inside lists or quotes, and
/// not at the start or after a blank line).
pub open spec fn separated(s: MdState) -> MdState {
    if s.depth == 0 && s.lines.len() > 0 && s.lines.last().len() > 0 {
        MdState { lines: s.lines.push(seq![]), ..s }
    } else {
        s
    }
}

/// The bullet of the active item turned into an indent of the same width.
pub open spec fn bullet_indented(s: MdState) -> MdState {
    match s.bullet {
        Some(i) => if 0 <= i < s.prefixes.len() {
            MdState {
                prefixes: s.prefixes.update(i, (spaces(s.prefixes[i].0.len()), SpanStyle::Plain)),
                ..s
            }
        } else {
            s
        },
        None => s,
    }
}

/// `s` split at each `\n` (an empty text gives one empty piece).
pub open spec fn split_newlines(s: Seq<char>) -> Seq<Seq<char>>
    decreases s.len(),
{
    if s.len() == 0 {
        seq![seq![]]
    } else {
        let prev = split_newlines(s.drop_last());
        if s.last() == '\n' {
            prev.push(seq![])
        } else {
            prev.update(prev.len() - 1, prev.last().push(s.last()))
        }
    }
}

/// The body of a code block: its text without one trailing line break.
pub open spec fn code_body(code: Seq<char>) -> Seq<char> {
    if code.len() > 0 && code.last() == '\n' {
        code.drop_last()
    } else {
        code
    }
}

/// The bullet of the next item of the innermost list.
pub open spec fn item_bullet(lists: Seq<Option<u64>>, counter: nat) -> Seq<char> {
    if lists.len() > 0 && lists.last() is Some {
        int_text(lists.last()->Some_0 + counter - 1) + ORDERED_TAIL@
    } else {
        BULLET@
    }
}

/// The state after an event.
pub open spec fn md_step(s: MdState, e: MdEventView) -> MdState {
    match e {
        MdEventView::Start(tag) => match tag {
            MdTag::Paragraph => separated(s),
            MdTag::Heading => MdState { heading: true, ..separated(s) },
            MdTag::CodeBlock => MdState { in_code: true, code: seq![], ..separated(s) },
            MdTag::BlockQuote => {
                let t = separated(flushed(s));
                MdState {
                    depth: t.depth + 1,
                    prefixes: t.prefixes.push((QUOTE_MARKER@, SpanStyle::Quote)),
                    ..t
                }
            },
            MdTag::List(number) => {
                let t = if s.lists.len() > 0 {
                    MdState { bullet: None, ..bullet_indented(flushed(s)) }
                } else {
                    s
                };
                let u = separated(t);
                MdState { lists: u.lists.push(number), counter: 0, depth: u.depth + 1, ..u }
            },
            MdTag::Item => {
                let c = s.counter + 1;
                MdState {
                    counter: c,
                    prefixes: s.prefixes.push((item_bullet(s.lists, c), SpanStyle::Plain)),
                    bullet: Some(s.prefixes.len() as int),
                    ..s
                }
            },
            MdTag::Emphasis(m) => MdState { emphasis: s.emphasis.push(m), ..s },
            MdTag::Link => MdState { link_depth: s.link_depth + 1, ..s },
            MdTag::Other => s,
        },
        MdEventView::End(tag) => match tag {
            MdTag::Paragraph | MdTag::Heading => MdState { heading: false, ..flushed(s) },
            MdTag::CodeBlock => {
                let segs = split_newlines(code_body(s.code));
                MdState {
                    in_code: false,
                    code: seq![],
                    heading: false,
                    lines: s.lines + segs.map_values(|g: Seq<char>| seq![(g, SpanStyle::Code)]),
                    ..s
                }
            },
            MdTag::BlockQuote => {
                let t = MdState {
                    prefixes: if s.prefixes.len() > 0 {
                        s.prefixes.drop_last()
                    } else {
                        s.prefixes
                    },
                    depth: if s.depth > 0 {
                        (s.depth - 1) as nat
                    } else {
                        0
                    },
                    ..s
                };
                MdState { heading: false, ..flushed(t) }
            },
            MdTag::List(_) => {
                let t = MdState {
                    lists: if s.lists.len() > 0 {
                        s.lists.drop_last()
                    } else {
                        s.lists
                    },
                    depth: if s.depth > 0 {
                        (s.depth - 1) as nat
                    } else {
                        0
                    },
                    ..s
                };
                flushed(t)
            },
            MdTag::Item => {
                let t = flushed(s);
                MdState {
                    prefixes: if t.prefixes.len() > 0 {
                        t.prefixes.drop_last()
                    } else {
                        t.prefixes
                    },
                    bullet: None,
                    ..t
                }
            },
            MdTag::Emphasis(_) => MdState {
                emphasis: if s.emphasis.len() > 0 {
                    s.emphasis.drop_last()
                } else {
                    s.emphasis
                },
                ..s
            },
            MdTag::Link => MdState {
                link_depth: if s.link_depth > 0 {
                    (s.link_depth - 1) as nat
                } else {
                    0
                },
                ..s
            },
            MdTag::Other => s,
        },
        MdEventView::Text(t) => if s.in_code {
            MdState { code: s.code + t, ..s }
        } else {
            MdState { cur: s.cur.push((t, inline_style(s))), ..s }
        },
        MdEventView::Code(t) => MdState { cur: s.cur.push((t, SpanStyle::Code)), ..s },
        MdEventView::Break => bullet_indented(flushed(s)),
        MdEventView::Rule => {
            let t = flushed(s);
            MdState { lines: t.lines.push(seq![(rule_text(), SpanStyle::Quote)]), ..t }
        },
        MdEventView::TaskListMarker(checked) => MdState {
            cur: s.cur.push(
                (
                    if checked {
                        CHECKED@
                    } else {
                        UNCHECKED@
                    },
                    SpanStyle::Plain,
                ),
            ),
            ..s
        },
        MdEventView::Html(t) => MdState { cur: s.cur.push((t, SpanStyle::Plain)), ..s },
        MdEventView::Other => s,
    }
}

/// The state before any event.
pub open spec fn md_start() -> MdState {
    MdState {
        lines: seq![],
        cur: seq![],
        emphasis: seq![],
        link_depth: 0,
        heading: false,
        in_code: false,
        code: seq![],
        prefixes: seq![],
        bullet: None,
        lists: seq![],
        counter: 0,
        depth: 0,
    }
}

/// The state after the first `n` events.
pub open spec fn md_run(events: Seq<MdEventView>, n: int) -> MdState
    decreases n,
{
    if n <= 0 {
        md_start()
    } else {
        md_step(md_run(events, n - 1), events[n - 1])
    }
}

/// The rendered lines: the layout after every event, with the pending spans
/// flushed; a single empty line when nothing was rendered.
pub open spec fn md_render(events: Seq<MdEventView>) -> Seq<Seq<(Seq<char>, SpanStyle)>> {
    let t = flushed(md_run(events, events.len() as int));
    if t.lines.len() == 0 {
        seq![seq![]]
    } else {
        t.lines
    }
}

/// The layout in progress.
struct Layout {
    lines: Vec<Vec<MdSpan>>,
    cur: Vec<MdSpan>,
    emphasis: Vec<Emphasis>,
    link_depth: usize,
    heading: bool,
    in_code: bool,
    code: Vec<char>,
    prefixes: Vec<MdSpan>,
    bullet: Option<usize>,
    lists: Vec<Option<u64>>,
    counter: usize,
    depth: usize,
}

impl Layout {
    spec fn state(&self) -> MdState {
        MdState {
            lines: lines_view(self.lines@),
            cur: spans_view(self.cur@),
            emphasis: self.emphasis@,
            link_depth: self.link_depth as nat,
            heading: self.heading,
            in_code: self.in_code,
            code: self.code@,
            prefixes: spans_view(self.prefixes@),
            bullet: match self.bullet {
                Some(i) => Some(i as int),
                None => None,
            },
            lists: self.lists@,
            counter: self.counter as nat,
            depth: self.depth as nat,
        }
    }

    fn copy_spans(v: &Vec<MdSpan>) -> (r: Vec<MdSpan>)
        ensures
            spans_view(r@) == spans_view(v@),
    {
        let mut r: Vec<MdSpan> = Vec::new();
        let mut i: usize = 0;
        while i < v.len()
            invariant
                i <= v.len(),
                r@.len() == i,
                forall|k: int| 0 <= k < i ==> span_view(#[trigger] r@[k]) == span_view(v@[k]),
            decreases v.len() - i,
        {
            r.push(MdSpan { text: v[i].text.clone(), style: v[i].style });
            i = i + 1;
        }
        assert(spans_view(r@) =~= spans_view(v@));
        r
    }

    fn push_line(&mut self, line: Vec<MdSpan>)
        ensures
            final(self).state() == (MdState {
                lines: old(self).state().lines.push(spans_view(line@)),
                ..old(self).state()
            }),
    {
        let ghost before = self.lines@;
        self.lines.push(line);
        assert(lines_view(self.lines@) =~= lines_view(before).push(spans_view(line@)));
    }

    fn flush(&mut self)
        ensures
            final(self).state() == flushed(old(self).state()),
    {
        if self.cur.len() > 0 {
            let mut line = Self::copy_spans(&self.prefixes);
            let mut cur: Vec<MdSpan> = Vec::new();
            std::mem::swap(&mut cur, &mut self.cur);
            let ghost a = line@;
            let ghost b = cur@;
            line.append(&mut cur);
            assert(spans_view(line@) =~= spans_view(a) + spans_view(b));
            self.push_line(line);
            assert(spans_view(self.cur@) =~= Seq::<(Seq<char>, SpanStyle)>::empty());
        }
    }

    fn separate(&mut self)
        ensures
            final(self).state() == separated(old(self).state()),
    {
        let n = self.lines.len();
        if self.depth == 0 && n > 0 && self.lines[n - 1].len() > 0 {
            assert(lines_view(self.lines@).last() == spans_view(self.lines@[n - 1]@));
            self.push_line(Vec::new());
            assert(spans_view(Seq::<MdSpan>::empty()) =~= Seq::<(Seq<char>, SpanStyle)>::empty());
        } else if n > 0 {
            assert(lines_view(self.lines@).last() == spans_view(self.lines@[n - 1]@));
        }
    }

    fn indent_bullet(&mut self)
        ensures
            final(self).state() == bullet_indented(old(self).state()),
    {
        match self.bullet {
            Some(i) => {
                if i < self.prefixes.len() {
                    let w = chars_of(self.prefixes[i].text.as_str()).len();
                    let mut v: Vec<char> = Vec::new();
                    let mut k: usize = 0;
                    while k < w
                        invariant
                            k <= w,
                            v@ == spaces(k as nat),
                        decreases w - k,
                    {
                        v.push(' ');
                        assert(v@ =~= spaces((k + 1) as nat));
                        k = k + 1;
                    }
                    let ghost before = self.prefixes@;
                    let span = MdSpan { text: string_of(&v), style: SpanStyle::Plain };
                    let mut p: Vec<MdSpan> = Vec::new();
                    std::mem::swap(&mut p, &mut self.prefixes);
                    p.set(i, span);
                    self.prefixes = p;
                    assert(spans_view(self.prefixes@) =~= spans_view(before).update(
                        i as int,
                        (spaces(spans_view(before)[i as int].0.len()), SpanStyle::Plain),
                    ));
                }
            },
            None => {},
        }
    }
}

fn split_at_newlines(v: &Vec<char>) -> (r: Vec<Vec<char>>)
    ensures
        r@.map_values(|g: Vec<char>| g@) == split_newlines(v@),
{
    let mut out: Vec<Vec<char>> = Vec::new();
    let mut cur: Vec<char> = Vec::new();
    let mut i: usize = 0;
    while i < v.len()
        invariant
            i <= v.len(),
            out@.map_values(|g: Vec<char>| g@).push(cur@) == split_newlines(v@.take(i as int)),
        decreases v.len() - i,
    {
        let ghost prev = split_newlines(v@.take(i as int));
        assert(v@.take(i + 1).drop_last() =~= v@.take(i as int));
        assert(v@.take(i + 1).last() == v@[i as int]);
        if v[i] == '\n' {
            let ghost before = out@;
            let mut done: Vec<char> = Vec::new();
            std::mem::swap(&mut done, &mut cur);
            out.push(done);
            assert(out@.map_values(|g: Vec<char>| g@) =~= before.map_values(|g: Vec<char>| g@).push(
                done@,
            ));
            assert(out@.map_values(|g: Vec<char>| g@).push(cur@) =~= prev.push(seq![]));
        } else {
            let ghost oc = cur@;
            cur.push(v[i]);
            assert(out@.map_values(|g: Vec<char>| g@).push(cur@) =~= prev.update(
                prev.len() - 1,
                prev.last().push(v@[i as int]),
            ));
        }
        i = i + 1;
    }
    assert(v@.take(v.len() as int) =~= v@);
    assert(v@.take(0) =~= Seq::<char>::empty());
    out.push(cur);
    out
}

fn code_lines(segs: &Vec<Vec<char>>) -> (r: Vec<Vec<MdSpan>>)
    ensures
        lines_view(r@) == segs@.map_values(|g: Vec<char>| g@).map_values(
            |g: Seq<char>| seq![(g, SpanStyle::Code)],
        ),
{
    let mut r: Vec<Vec<MdSpan>> = Vec::new();
    let mut k: usize = 0;
    while k < segs.len()
        invariant
            k <= segs.len(),
            r@.len() == k,
            forall|x: int|
                0 <= x < k ==> spans_view((#[trigger] r@[x])@) == seq![(segs@[x]@, SpanStyle::Code)],
        decreases segs.len() - k,
    {
        let line = vec![MdSpan { text: string_of(&segs[k]), style: SpanStyle::Code }];
        assert(spans_view(line@) =~= seq![(segs@[k as int]@, SpanStyle::Code)]);
        r.push(line);
        k = k + 1;
    }
    assert(lines_view(r@) =~= segs@.map_values(|g: Vec<char>| g@).map_values(
        |g: Seq<char>| seq![(g, SpanStyle::Code)],
    ));
    r
}

impl Layout {
    fn new() -> (r: Self)
        ensures
            r.state() == md_start(),
    {
        let r = Layout {
            lines: Vec::new(),
            cur: Vec::new(),
            emphasis: Vec::new(),
            link_depth: 0,
            heading: false,
            in_code: false,
            code: Vec::new(),
            prefixes: Vec::new(),
            bullet: None,
            lists: Vec::new(),
            counter: 0,
            depth: 0,
        };
        assert(lines_view(r.lines@) =~= Seq::<Seq<(Seq<char>, SpanStyle)>>::empty());
        assert(spans_view(r.cur@) =~= Seq::<(Seq<char>, SpanStyle)>::empty());
        assert(spans_view(r.prefixes@) =~= Seq::<(Seq<char>, SpanStyle)>::empty());
        r
    }

    fn push_span(&mut self, text: String, style: SpanStyle)
        ensures
            final(self).state() == (MdState {
                cur: old(self).state().cur.push((text@, style)),
                ..old(self).state()
            }),
    {
        let ghost before = self.cur@;
        let span = MdSpan { text, style };
        let mut cur: Vec<MdSpan> = Vec::new();
        std::mem::swap(&mut cur, &mut self.cur);
        cur.push(span);
        self.cur = cur;
        assert(spans_view(self.cur@) =~= spans_view(before).push((text@, style)));
    }

    fn style(&self) -> (r: SpanStyle)
        ensures
            r == inline_style(self.state()),
    {
        let mut italic = false;
        let mut bold = false;
        let mut crossed = false;
        let mut i: usize = 0;
        while i < self.emphasis.len()
            invariant
                i <= self.emphasis.len(),
                italic == self.emphasis@.take(i as int).contains(Emphasis::Italic),
                bold == self.emphasis@.take(i as int).contains(Emphasis::Bold),
                crossed == self.emphasis@.take(i as int).contains(Emphasis::Crossed),
            decreases self.emphasis.len() - i,
        {
            let e = self.emphasis[i];
            proof {
                let t = self.emphasis@.take(i + 1);
                assert(t =~= self.emphasis@.take(i as int).push(e));
                assert(t[i as int] == e);
                assert forall|m: Emphasis| t.contains(m) <==> (self.emphasis@.take(i as int).contains(
                    m,
                ) || m == e) by {
                    if t.contains(m) {
                        let k = choose|k: int| 0 <= k < t.len() && t[k] == m;
                        if k < i {
                            assert(self.emphasis@.take(i as int)[k] == m);
                        }
                    }
                    if self.emphasis@.take(i as int).contains(m) {
                        let k = choose|k: int|
                            0 <= k < self.emphasis@.take(i as int).len() && self.emphasis@.take(
                                i as int,
                            )[k] == m;
                        assert(t[k] == m);
                    }
                }
            }
            if e == Emphasis::Italic {
                italic = true;
            } else if e == Emphasis::Bold {
                bold = true;
            } else {
                crossed = true;
            }
            i = i + 1;
        }
        assert(self.emphasis@.take(self.emphasis.len() as int) =~= self.emphasis@);
        SpanStyle::Inline {
            heading: self.heading,
            italic,
            bold,
            crossed,
            link: self.link_depth > 0,
        }
    }

    fn bullet_text(&self, c: usize) -> (r: String)
        ensures
            r@ == item_bullet(self.state().lists, c as nat),
    {
        let n = self.lists.len();
        if n > 0 {
            match self.lists[n - 1] {
                Some(start) => {
                    let num = start as i128 + c as i128 - 1;
                    let mut t = int_to_text(num);
                    push_str(&mut t, ORDERED_TAIL);
                    return t;
                },
                None => {},
            }
        }
        owned(BULLET)
    }

    fn step(&mut self, e: &MdEvent)
        requires
            old(self).counter < usize::MAX,
            old(self).depth < usize::MAX,
            old(self).link_depth < usize::MAX,
        ensures
            final(self).state() == md_step(old(self).state(), e@),
            final(self).counter <= old(self).counter + 1,
            final(self).depth <= old(self).depth + 1,
            final(self).link_depth <= old(self).link_depth + 1,
    {
        match e {
            MdEvent::Start(tag) => match tag {
                MdTag::Paragraph => {
                    self.separate();
                },
                MdTag::Heading => {
                    self.separate();
                    self.heading = true;
                },
                MdTag::CodeBlock => {
                    self.separate();
                    self.in_code = true;
                    self.code = Vec::new();
                },
                MdTag::BlockQuote => {
                    self.flush();
                    self.separate();
                    self.depth = self.depth + 1;
                    let ghost before = self.prefixes@;
                    let mut p: Vec<MdSpan> = Vec::new();
                    std::mem::swap(&mut p, &mut self.prefixes);
                    p.push(MdSpan { text: owned(QUOTE_MARKER), style: SpanStyle::Quote });
                    self.prefixes = p;
                    assert(spans_view(self.prefixes@) =~= spans_view(before).push(
                        (QUOTE_MARKER@, SpanStyle::Quote),
                    ));
                },
                MdTag::List(number) => {
                    if self.lists.len() > 0 {
                        self.flush();
                        self.indent_bullet();
                        self.bullet = None;
                    }
                    self.separate();
                    self.lists.push(*number);
                    self.counter = 0;
                    self.depth = self.depth + 1;
                },
                MdTag::Item => {
                    let c = self.counter + 1;
                    let bullet = self.bullet_text(c);
                    self.counter = c;
                    let ghost before = self.prefixes@;
                    let at = self.prefixes.len();
                    let mut p: Vec<MdSpan> = Vec::new();
                    std::mem::swap(&mut p, &mut self.prefixes);
                    p.push(MdSpan { text: bullet, style: SpanStyle::Plain });
                    self.prefixes = p;
                    self.bullet = Some(at);
                    assert(spans_view(self.prefixes@) =~= spans_view(before).push(
                        (bullet@, SpanStyle::Plain),
                    ));
                },
                MdTag::Emphasis(m) => {
                    self.emphasis.push(*m);
                },
                MdTag::Link => {
                    self.link_depth = self.link_depth + 1;
                },
                MdTag::Other => {},
            },
            MdEvent::End(tag) => match tag {
                MdTag::Paragraph | MdTag::Heading => {
                    self.flush();
                    self.heading = false;
                },
                MdTag::CodeBlock => {
                    let mut body: Vec<char> = Vec::new();
                    std::mem::swap(&mut body, &mut self.code);
                    let n = body.len();
                    if n > 0 && body[n - 1] == '\n' {
                        body.pop();
                    }
                    let ghost b = body@;
                    let segs = split_at_newlines(&body);
                    let mut more = code_lines(&segs);
                    let ghost before = self.lines@;
                    let ghost added = more@;
                    self.lines.append(&mut more);
                    assert(lines_view(self.lines@) =~= lines_view(before) + lines_view(added));
                    self.in_code = false;
                    self.heading = false;
                },
                MdTag::BlockQuote => {
                    let mut p: Vec<MdSpan> = Vec::new();
                    std::mem::swap(&mut p, &mut self.prefixes);
                    let ghost before = p@;
                    if p.len() > 0 {
                        p.pop();
                        assert(spans_view(p@) =~= spans_view(before).drop_last());
                    }
                    self.prefixes = p;
                    self.depth = if self.depth > 0 {
                        self.depth - 1
                    } else {
                        0
                    };
                    self.flush();
                    self.heading = false;
                },
                MdTag::List(_) => {
                    if self.lists.len() > 0 {
                        self.lists.pop();
                    }
                    self.depth = if self.depth > 0 {
                        self.depth - 1
                    } else {
                        0
                    };
                    self.flush();
                },
                MdTag::Item => {
                    self.flush();
                    let mut p: Vec<MdSpan> = Vec::new();
                    std::mem::swap(&mut p, &mut self.prefixes);
                    let ghost before = p@;
                    if p.len() > 0 {
                        p.pop();
                        assert(spans_view(p@) =~= spans_view(before).drop_last());
                    }
                    self.prefixes = p;
                    self.bullet = None;
                },
                MdTag::Emphasis(_) => {
                    if self.emphasis.len() > 0 {
                        self.emphasis.pop();
                    }
                },
                MdTag::Link => {
                    self.link_depth = if self.link_depth > 0 {
                        self.link_depth - 1
                    } else {
                        0
                    };
                },
                MdTag::Other => {},
            },
            MdEvent::Text(t) => {
                if self.in_code {
                    let ghost before = self.code@;
                    let v = chars_of(t.as_str());
                    crate::text::extend_chars(&mut self.code, &v);
                } else {
                    let style = self.style();
                    self.push_span(t.clone(), style);
                }
            },
            MdEvent::Code(t) => {
                self.push_span(t.clone(), SpanStyle::Code);
            },
            MdEvent::Break => {
                self.flush();
                self.indent_bullet();
            },
            MdEvent::Rule => {
                self.flush();
                let mut v: Vec<char> = Vec::new();
                let mut k: usize = 0;
                while k < RULE_WIDTH
                    invariant
                        k <= RULE_WIDTH,
                        v@ == Seq::new(k as nat, |i: int| '─'),
                    decreases RULE_WIDTH - k,
                {
                    v.push('─');
                    assert(v@ =~= Seq::new((k + 1) as nat, |i: int| '─'));
                    k = k + 1;
                }
                let line = vec![MdSpan { text: string_of(&v), style: SpanStyle::Quote }];
                assert(spans_view(line@) =~= seq![(rule_text(), SpanStyle::Quote)]);
                self.push_line(line);
            },
            MdEvent::TaskListMarker(checked) => {
                let t = if *checked {
                    owned(CHECKED)
                } else {
                    owned(UNCHECKED)
                };
                self.push_span(t, SpanStyle::Plain);
            },
            MdEvent::Html(t) => {
                self.push_span(t.clone(), SpanStyle::Plain);
            },
            MdEvent::Other => {},
        }
    }
}

/// The text of a rendered line (its spans' texts in order).
pub open spec fn line_text(l: Seq<(Seq<char>, SpanStyle)>) -> Seq<char>
    decreases l.len(),
{
    if l.len() == 0 {
        seq![]
    } else {
        line_text(l.drop_last()) + l.last().0
    }
}

/// Lay out the events of a markdown parse as lines of styled spans.
pub fn render_markdown_events(events: &[MdEvent]) -> (r: Vec<Vec<MdSpan>>)
    ensures
        lines_view(r@) == md_render(events@.map_values(|e: MdEvent| e@)),
{
    let ghost ev = events@.map_values(|e: MdEvent| e@);
    let mut layout = Layout::new();
    let mut i: usize = 0;
    while i < events.len()
        invariant
            i <= events.len(),
            ev == events@.map_values(|e: MdEvent| e@),
            layout.state() == md_run(ev, i as int),
            layout.counter <= i,
            layout.depth <= i,
            layout.link_depth <= i,
        decreases events.len() - i,
    {
        assert(ev[i as int] == events@[i as int]@);
        layout.step(&events[i]);
        i = i + 1;
    }
    layout.flush();
    if layout.lines.len() == 0 {
        layout.push_line(Vec::new());
        assert(spans_view(Seq::<MdSpan>::empty()) =~= Seq::<(Seq<char>, SpanStyle)>::empty());
        assert(lines_view(layout.lines@) =~= seq![Seq::<(Seq<char>, SpanStyle)>::empty()]);
    }
    layout.lines
}


/// Rendering always yields at least one line (a single empty line for empty
/// input).
pub proof fn law_render_not_empty(events: Seq<MdEventView>)
    ensures
        md_render(events).len() >= 1,
        events.len() == 0 ==> md_render(events) == seq![Seq::<(Seq<char>, SpanStyle)>::empty()],
{
}

/// Running text carries every emphasis open around it, not only the
/// innermost: a text span outside code is bold (italic, crossed out) exactly
/// when some open emphasis tag is bold (italic, a strikethrough), in a
/// heading exactly when a heading is open, and a link exactly when a link is.
pub proof fn law_text_carries_every_open_emphasis(s: MdState, t: Seq<char>)
    requires
        !s.in_code,
    ensures
        md_step(s, MdEventView::Text(t)).cur == s.cur.push((t, md_step(s, MdEventView::Text(t)).cur.last().1)),
        ({
            let st = md_step(s, MdEventView::Text(t)).cur.last().1;
            &&& st matches SpanStyle::Inline { heading, italic, bold, crossed, link }
            &&& (bold <==> exists|k: int| 0 <= k < s.emphasis.len() && s.emphasis[k] == Emphasis::Bold)
            &&& (italic <==> exists|k: int| 0 <= k < s.emphasis.len() && s.emphasis[k] == Emphasis::Italic)
            &&& (crossed <==> exists|k: int| 0 <= k < s.emphasis.len() && s.emphasis[k] == Emphasis::Crossed)
            &&& heading == s.heading
            &&& link == (s.link_depth > 0)
        }),
{
}

// ---------------------------------------------------------------------------
// Parsing, with pulldown-cmark
// ---------------------------------------------------------------------------

#[verifier::external_type_specification]
#[verifier::external_body]
pub struct ExParserEvent<'a>(Event<'a>);

#[verifier::external_type_specification]
#[verifier::external_body]
pub struct ExParserTag<'a>(Tag<'a>);

#[verifier::external_type_specification]
#[verifier::external_body]
pub struct ExParserTagEnd(TagEnd);

/// The events that `pulldown_cmark::Parser::new_ext` yields for `markdown`
/// (strikethrough and task lists enabled), each as an [`MdEvent`]. The parse
/// is a function of the text alone.
pub uninterp spec fn markdown_events(markdown: Seq<char>) -> Seq<MdEventView>;

/// The element a `pulldown_cmark::Tag` opens, one arm per kind of tag.
/// Nothing is stated of it: it serves [`parse_markdown`], whose contract
/// names the whole result.
#[verifier::external_body]
fn parser_tag(t: &Tag) -> (r: MdTag) {
    match t {
        Tag::Paragraph => MdTag::Paragraph,
        Tag::Heading { .. } => MdTag::Heading,
        Tag::CodeBlock(_) => MdTag::CodeBlock,
        Tag::BlockQuote(_) => MdTag::BlockQuote,
        Tag::List(n) => MdTag::List(*n),
        Tag::Item => MdTag::Item,
        Tag::Emphasis => MdTag::Emphasis(Emphasis::Italic),
        Tag::Strong => MdTag::Emphasis(Emphasis::Bold),
        Tag::Strikethrough => MdTag::Emphasis(Emphasis::Crossed),
        Tag::Link { .. } => MdTag::Link,
        _ => MdTag::Other,
    }
}

/// The element a `pulldown_cmark::TagEnd` closes, one arm per kind of tag
/// (a list's end carries no number). Serves [`parse_markdown`].
#[verifier::external_body]
fn parser_tag_end(t: &TagEnd) -> (r: MdTag) {
    match t {
        TagEnd::Paragraph => MdTag::Paragraph,
        TagEnd::Heading(_) => MdTag::Heading,
        TagEnd::CodeBlock => MdTag::CodeBlock,
        TagEnd::BlockQuote(_) => MdTag::BlockQuote,
        TagEnd::List(_) => MdTag::List(None),
        TagEnd::Item => MdTag::Item,
        TagEnd::Emphasis => MdTag::Emphasis(Emphasis::Italic),
        TagEnd::Strong => MdTag::Emphasis(Emphasis::Bold),
        TagEnd::Strikethrough => MdTag::Emphasis(Emphasis::Crossed),
        TagEnd::Link => MdTag::Link,
        _ => MdTag::Other,
    }
}

/// A `pulldown_cmark::Event` as an [`MdEvent`], one arm per kind of event.
/// Serves [`parse_markdown`].
#[verifier::external_body]
fn parser_event(e: Event) -> (r: MdEvent) {
    match e {
        Event::Start(t) => MdEvent::Start(parser_tag(&t)),
        Event::End(t) => MdEvent::End(parser_tag_end(&t)),
        Event::Text(t) => MdEvent::Text(t.to_string()),
        Event::Code(t) | Event::InlineMath(t) | Event::DisplayMath(t) => MdEvent::Code(t.to_string()),
        Event::SoftBreak | Event::HardBreak => MdEvent::Break,
        Event::Rule => MdEvent::Rule,
        Event::TaskListMarker(b) => MdEvent::TaskListMarker(b),
        Event::Html(t) | Event::InlineHtml(t) => MdEvent::Html(t.to_string()),
        _ => MdEvent::Other,
    }
}

/// `pulldown_cmark::Parser::new_ext` on `markdown`, with strikethrough and
/// task lists enabled, its events collected as [`MdEvent`]s. The contract
/// names the result: the same text always parses to the same events.
#[verifier::external_body]
pub fn parse_markdown(markdown: &str) -> (r: Vec<MdEvent>)
    ensures
        r@.map_values(|e: MdEvent| e@) == markdown_events(markdown@),
{
    let mut options = Options::empty();
    options.insert(Options::ENABLE_STRIKETHROUGH);
    options.insert(Options::ENABLE_TASKLISTS);
    Parser::new_ext(markdown, options).map(parser_event).collect()
}

/// Parse `markdown` and lay it out as lines of styled spans.
pub fn render_markdown_lines(markdown: &str) -> (r: Vec<Vec<MdSpan>>)
    ensures
        lines_view(r@) == md_render(markdown_events(markdown@)),
{
    let events = parse_markdown(markdown);
    render_markdown_events(&events)
}

} // verus!
