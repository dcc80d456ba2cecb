//! Markdown as a list of blocks, built from the events of a Markdown parser.

use pulldown_cmark::{Event, Options, Parser, Tag};
use vstd::prelude::*;
use vstd::utf8::*;
use crate::text;

verus! {

/// Inline styling of a run of text; `link` is the destination of a link.
#[derive(Clone, Debug, PartialEq, Eq)]
pub struct SpanStyle {
    pub bold: bool,
    pub italic: bool,
    pub strikethrough: bool,
    pub code: bool,
    pub link: Option<String>,
}

/// A run of text with one style.
#[derive(Clone, Debug, PartialEq, Eq)]
pub struct MdSpan {
    pub text: String,
    pub style: SpanStyle,
}

/// A block of a document.
#[derive(Debug, PartialEq, Eq)]
pub enum MdBlock {
    Heading { level: u8, spans: Vec<MdSpan> },
    Paragraph(Vec<MdSpan>),
    CodeBlock { text: String },
    List { ordered: bool, items: Vec<Vec<MdBlock>> },
    Quote(Vec<MdBlock>),
    Rule,
}

/// An event of the parser. `Start` and `End` carry the name of the element; the start of a link
/// carries its destination. `Other` carries an event of another kind, in words.
#[derive(Clone, Debug, PartialEq, Eq)]
pub enum MdEvent {
    Link(String),
    Start(String),
    End(String),
    Text(String),
    Code(String),
    SoftBreak,
    HardBreak,
    Rule,
    Other(String),
}

/// A style as a mathematical value.
pub struct Style {
    pub bold: bool,
    pub italic: bool,
    pub strikethrough: bool,
    pub code: bool,
    pub link: Option<Seq<char>>,
}

/// A run of text as a mathematical value.
pub struct Span {
    pub text: Seq<char>,
    pub style: Style,
}

/// A block as a mathematical value.
pub enum Block {
    Heading { level: u8, spans: Seq<Span> },
    Paragraph(Seq<Span>),
    CodeBlock(Seq<char>),
    List { ordered: bool, items: Seq<Seq<Block>> },
    Quote(Seq<Block>),
    Rule,
}

/// An event as a mathematical value.
pub enum Step {
    Link(Seq<char>),
    Start(Seq<char>),
    End(Seq<char>),
    Text(Seq<char>),
    Code(Seq<char>),
    SoftBreak,
    HardBreak,
    Rule,
    Other(Seq<char>),
}

/// An element that is still open, with what has been collected for it. A document's own blocks
/// are in the root.
pub enum Frame {
    Root(Seq<Block>),
    Paragraph(Seq<Span>),
    Heading(u8, Seq<Span>),
    CodeBlock(Seq<char>),
    Quote(Seq<Block>),
    List { ordered: bool, items: Seq<Seq<Block>> },
    Item(Seq<Block>),
}

/// Where the reading of events has got to: the open elements, the style in force, and the
/// destinations of the open links.
pub struct Reading {
    pub stack: Seq<Frame>,
    pub style: Style,
    pub links: Seq<Seq<char>>,
}

pub open spec fn style_view(s: SpanStyle) -> Style {
    Style {
        bold: s.bold,
        italic: s.italic,
        strikethrough: s.strikethrough,
        code: s.code,
        link: match s.link {
            Some(url) => Some(url@),
            None => None,
        },
    }
}

pub open spec fn span_view(s: MdSpan) -> Span {
    Span { text: s.text@, style: style_view(s.style) }
}

pub open spec fn spans_view(s: Seq<MdSpan>) -> Seq<Span> {
    s.map_values(|x: MdSpan| span_view(x))
}

pub open spec fn block_view(b: MdBlock) -> Block
    decreases b,
{
    match b {
        MdBlock::Heading { level, spans } => Block::Heading { level, spans: spans_view(spans@) },
        MdBlock::Paragraph(spans) => Block::Paragraph(spans_view(spans@)),
        MdBlock::CodeBlock { text } => Block::CodeBlock(text@),
        MdBlock::List { ordered, items } => Block::List { ordered, items: items_view(items@) },
        MdBlock::Quote(blocks) => Block::Quote(blocks_view(blocks@)),
        MdBlock::Rule => Block::Rule,
    }
}

pub open spec fn blocks_view(s: Seq<MdBlock>) -> Seq<Block>
    decreases s,
{
    if s.len() == 0 {
        seq![]
    } else {
        blocks_view(s.drop_last()).push(block_view(s.last()))
    }
}

pub open spec fn items_view(s: Seq<Vec<MdBlock>>) -> Seq<Seq<Block>>
    decreases s,
{
    if s.len() == 0 {
        seq![]
    } else {
        items_view(s.drop_last()).push(blocks_view(s.last()@))
    }
}

pub open spec fn step_view(e: MdEvent) -> Step {
    match e {
        MdEvent::Link(s) => Step::Link(s@),
        MdEvent::Start(s) => Step::Start(s@),
        MdEvent::End(s) => Step::End(s@),
        MdEvent::Text(s) => Step::Text(s@),
        MdEvent::Code(s) => Step::Code(s@),
        MdEvent::SoftBreak => Step::SoftBreak,
        MdEvent::HardBreak => Step::HardBreak,
        MdEvent::Rule => Step::Rule,
        MdEvent::Other(t) => Step::Other(t@),
    }
}

pub open spec fn steps(s: Seq<MdEvent>) -> Seq<Step> {
    s.map_values(|e: MdEvent| step_view(e))
}

pub open spec fn no_style() -> Style {
    Style { bold: false, italic: false, strikethrough: false, code: false, link: None }
}

/// Whether blocks go into this frame.
pub open spec fn holds_blocks(f: Frame) -> bool {
    f is Root || f is Quote || f is Item
}

pub open spec fn with_block(f: Frame, b: Block) -> Frame {
    match f {
        Frame::Root(blocks) => Frame::Root(blocks.push(b)),
        Frame::Quote(blocks) => Frame::Quote(blocks.push(b)),
        Frame::Item(blocks) => Frame::Item(blocks.push(b)),
        _ => f,
    }
}

/// The finished block goes into the innermost open element that holds blocks.
pub open spec fn add_block(stack: Seq<Frame>, b: Block) -> Seq<Frame>
    decreases stack.len(),
{
    if stack.len() == 0 {
        stack
    } else if holds_blocks(stack.last()) {
        stack.drop_last().push(with_block(stack.last(), b))
    } else {
        add_block(stack.drop_last(), b).push(stack.last())
    }
}

/// Text goes to the end of the spans: into the last span where the style is the same, else into
/// one of its own.
pub open spec fn add_text(spans: Seq<Span>, text: Seq<char>, style: Style) -> Seq<Span> {
    if spans.len() > 0 && spans.last().style == style {
        spans.drop_last().push(Span { text: spans.last().text + text, style })
    } else {
        spans.push(Span { text, style })
    }
}

/// Text that stands directly in a list item goes into a paragraph at the end of the item.
pub open spec fn add_text_to_item(blocks: Seq<Block>, text: Seq<char>, style: Style) -> Seq<Block> {
    if blocks.len() > 0 && blocks.last() is Paragraph {
        blocks.drop_last().push(Block::Paragraph(add_text(blocks.last()->Paragraph_0, text, style)))
    } else {
        blocks.push(Block::Paragraph(add_text(seq![], text, style)))
    }
}

/// Text goes into the innermost open element that holds text. It is dropped where there is none
/// inside the innermost quote or in the document itself.
pub open spec fn place_text(stack: Seq<Frame>, text: Seq<char>, style: Style) -> Seq<Frame>
    decreases stack.len(),
{
    if stack.len() == 0 {
        stack
    } else {
        match stack.last() {
            Frame::Paragraph(spans) => stack.drop_last().push(
                Frame::Paragraph(add_text(spans, text, style)),
            ),
            Frame::Heading(level, spans) => stack.drop_last().push(
                Frame::Heading(level, add_text(spans, text, style)),
            ),
            Frame::Item(blocks) => stack.drop_last().push(
                Frame::Item(add_text_to_item(blocks, text, style)),
            ),
            Frame::Root(_) => stack,
            Frame::Quote(_) => stack,
            _ => place_text(stack.drop_last(), text, style).push(stack.last()),
        }
    }
}

pub open spec fn say(r: Reading, text: Seq<char>, style: Style) -> Reading {
    if text.len() == 0 {
        r
    } else {
        Reading { stack: place_text(r.stack, text, style), ..r }
    }
}

/// The level of a heading, from the name of the element.
pub open spec fn heading_level(name: Seq<char>) -> Option<u8> {
    if name == "Heading(H1)"@ {
        Some(1)
    } else if name == "Heading(H2)"@ {
        Some(2)
    } else if name == "Heading(H3)"@ {
        Some(3)
    } else if name == "Heading(H4)"@ {
        Some(4)
    } else if name == "Heading(H5)"@ {
        Some(5)
    } else if name == "Heading(H6)"@ {
        Some(6)
    } else {
        None
    }
}

/// The frame that an element opens, if it opens one.
pub open spec fn opened(name: Seq<char>) -> Option<Frame> {
    if name == "Paragraph"@ {
        Some(Frame::Paragraph(seq![]))
    } else if heading_level(name) is Some {
        Some(Frame::Heading(heading_level(name)->0, seq![]))
    } else if name == "CodeBlock"@ {
        Some(Frame::CodeBlock(seq![]))
    } else if text::has_prefix(name, "BlockQuote("@) {
        Some(Frame::Quote(seq![]))
    } else if name == "List(true)"@ {
        Some(Frame::List { ordered: true, items: seq![] })
    } else if name == "List(false)"@ {
        Some(Frame::List { ordered: false, items: seq![] })
    } else if name == "Item"@ {
        Some(Frame::Item(seq![]))
    } else {
        None
    }
}

/// The style once an inline element starts (`on`) or ends.
pub open spec fn switched(style: Style, name: Seq<char>, on: bool) -> Style {
    if name == "Emphasis"@ {
        Style { italic: on, ..style }
    } else if name == "Strong"@ {
        Style { bold: on, ..style }
    } else if name == "Strikethrough"@ {
        Style { strikethrough: on, ..style }
    } else {
        style
    }
}

/// A code block's text without the newline at its end.
pub open spec fn code_text(text: Seq<char>) -> Seq<char> {
    if text.len() > 0 && text.last() == '\n' {
        text.drop_last()
    } else {
        text
    }
}

/// The open elements once the innermost one, `top`, has ended. An element that ends with a name
/// that does not fit is dropped with what it holds.
pub open spec fn closed(rest: Seq<Frame>, top: Frame, name: Seq<char>) -> Seq<Frame> {
    match top {
        Frame::Paragraph(spans) => if name == "Paragraph"@ {
            add_block(rest, Block::Paragraph(spans))
        } else {
            rest
        },
        Frame::Heading(level, spans) => if heading_level(name) is Some {
            add_block(rest, Block::Heading { level, spans })
        } else {
            rest
        },
        Frame::CodeBlock(text) => if name == "CodeBlock"@ {
            add_block(rest, Block::CodeBlock(code_text(text)))
        } else {
            rest
        },
        Frame::Quote(blocks) => if text::has_prefix(name, "BlockQuote("@) {
            add_block(rest, Block::Quote(blocks))
        } else {
            rest
        },
        Frame::List { ordered, items } => if name == "List(true)"@ || name == "List(false)"@ {
            add_block(rest, Block::List { ordered, items })
        } else {
            rest
        },
        Frame::Item(blocks) => if name == "Item"@ && rest.len() > 0 && rest.last() is List {
            rest.drop_last().push(
                Frame::List {
                    ordered: rest.last()->ordered,
                    items: rest.last()->items.push(blocks),
                },
            )
        } else {
            rest
        },
        Frame::Root(_) => rest,
    }
}

/// The reading after one more event.
pub open spec fn advance(r: Reading, e: Step) -> Reading {
    match e {
        Step::Link(url) => Reading {
            links: r.links.push(url),
            style: Style { link: Some(url), ..r.style },
            ..r
        },
        Step::Start(name) => match opened(name) {
            Some(frame) => Reading { stack: r.stack.push(frame), ..r },
            None => Reading { style: switched(r.style, name, true), ..r },
        },
        Step::End(name) => if opened(name) is Some {
            if r.stack.len() > 0 {
                Reading { stack: closed(r.stack.drop_last(), r.stack.last(), name), ..r }
            } else {
                r
            }
        } else if name == "Link"@ {
            let links = if r.links.len() > 0 {
                r.links.drop_last()
            } else {
                r.links
            };
            Reading {
                links,
                style: Style {
                    link: if links.len() > 0 {
                        Some(links.last())
                    } else {
                        None
                    },
                    ..r.style
                },
                ..r
            }
        } else {
            Reading { style: switched(r.style, name, false), ..r }
        },
        Step::Text(text) => if r.stack.len() > 0 && r.stack.last() is CodeBlock {
            Reading {
                stack: r.stack.drop_last().push(
                    Frame::CodeBlock(r.stack.last()->CodeBlock_0 + text),
                ),
                ..r
            }
        } else {
            say(r, text, r.style)
        },
        Step::Code(text) => say(r, text, Style { code: true, ..r.style }),
        Step::SoftBreak | Step::HardBreak => say(r, " "@, r.style),
        Step::Rule => Reading { stack: add_block(r.stack, Block::Rule), ..r },
        Step::Other(_) => r,
    }
}

/// The reading after all of the events.
pub open spec fn read(events: Seq<Step>) -> Reading
    decreases events.len(),
{
    if events.len() == 0 {
        Reading { stack: seq![Frame::Root(seq![])], style: no_style(), links: seq![] }
    } else {
        advance(read(events.drop_last()), events.last())
    }
}

/// The blocks of the document whose events these are.
pub open spec fn document(events: Seq<Step>) -> Seq<Block> {
    let stack = read(events).stack;
    if stack.len() > 0 && stack[0] is Root {
        stack[0]->Root_0
    } else {
        seq![]
    }
}

/// The events that the Markdown parser gives for a source text.
pub uninterp spec fn parsed_markdown(source: Seq<char>) -> Seq<Step>;

/// The events of `pulldown_cmark::Parser::new_ext` with strikethrough enabled, one for one. The
/// name of an element is what `Debug` prints for its `TagEnd`, and an event of another kind is what
/// `Debug` prints for it. The parser gives the same events for the same source; which ones is not
/// stated.
#[verifier::external_body]
fn markdown_events(source: &str) -> (r: Vec<MdEvent>)
    ensures
        steps(r@) == parsed_markdown(source@),
{
    Parser::new_ext(source, Options::ENABLE_STRIKETHROUGH)
        .map(|event| match event {
            Event::Start(Tag::Link { dest_url, .. }) => MdEvent::Link(dest_url.to_string()),
            Event::Start(tag) => MdEvent::Start(format!("{:?}", tag.to_end())),
            Event::End(tag) => MdEvent::End(format!("{tag:?}")),
            Event::Text(text) => MdEvent::Text(text.to_string()),
            Event::Code(text) => MdEvent::Code(text.to_string()),
            Event::SoftBreak => MdEvent::SoftBreak,
            Event::HardBreak => MdEvent::HardBreak,
            Event::Rule => MdEvent::Rule,
            other => MdEvent::Other(format!("{other:?}")),
        })
        .collect()
}

/// An open element, with what has been collected for it.
enum OpenElement {
    Root(Vec<MdBlock>),
    Paragraph(Vec<MdSpan>),
    Heading(u8, Vec<MdSpan>),
    CodeBlock(String),
    Quote(Vec<MdBlock>),
    List { ordered: bool, items: Vec<Vec<MdBlock>> },
    Item(Vec<MdBlock>),
}

spec fn frame_view(f: OpenElement) -> Frame {
    match f {
        OpenElement::Root(b) => Frame::Root(blocks_view(b@)),
        OpenElement::Paragraph(s) => Frame::Paragraph(spans_view(s@)),
        OpenElement::Heading(l, s) => Frame::Heading(l, spans_view(s@)),
        OpenElement::CodeBlock(t) => Frame::CodeBlock(t@),
        OpenElement::Quote(b) => Frame::Quote(blocks_view(b@)),
        OpenElement::List { ordered, items } => Frame::List { ordered, items: items_view(items@) },
        OpenElement::Item(b) => Frame::Item(blocks_view(b@)),
    }
}

spec fn frames_view(s: Seq<OpenElement>) -> Seq<Frame> {
    s.map_values(|f: OpenElement| frame_view(f))
}

fn same_style(a: &SpanStyle, b: &SpanStyle) -> (r: bool)
    ensures
        r == (style_view(*a) == style_view(*b)),
{
    let same_link: bool = match (&a.link, &b.link) {
        (Some(x), Some(y)) => text::text_eq(x.as_str(), y.as_str()),
        (None, None) => true,
        _ => false,
    };
    a.bold == b.bold && a.italic == b.italic && a.strikethrough == b.strikethrough && a.code
        == b.code && same_link
}

fn copy_style(s: &SpanStyle) -> (r: SpanStyle)
    ensures
        style_view(r) == style_view(*s),
{
    SpanStyle {
        bold: s.bold,
        italic: s.italic,
        strikethrough: s.strikethrough,
        code: s.code,
        link: match &s.link {
            Some(url) => Some(url.clone()),
            None => None,
        },
    }
}

fn push_text(spans: &mut Vec<MdSpan>, text: &str, style: &SpanStyle)
    ensures
        spans_view(final(spans)@) == add_text(spans_view(old(spans)@), text@, style_view(*style)),
{
    let ghost before = spans@;
    if spans.len() > 0 && same_style(&spans[spans.len() - 1].style, style) {
        match spans.pop() {
            Some(mut last) => {
                let ghost head = spans@;
                last.text.append(text);
                spans.push(last);
                assert(spans_view(spans@) =~= add_text(
                    spans_view(before),
                    text@,
                    style_view(*style),
                ));
            },
            None => {},
        }
    } else {
        spans.push(MdSpan { text: text.to_owned(), style: copy_style(style) });
        assert(spans_view(spans@) =~= add_text(spans_view(before), text@, style_view(*style)));
    }
}

proof fn blocks_view_push(s: Seq<MdBlock>, b: MdBlock)
    ensures
        blocks_view(s.push(b)) == blocks_view(s).push(block_view(b)),
{
    assert(s.push(b).drop_last() =~= s);
}

proof fn blocks_view_len(s: Seq<MdBlock>)
    ensures
        blocks_view(s).len() == s.len(),
    decreases s.len(),
{
    if s.len() > 0 {
        blocks_view_len(s.drop_last());
    }
}

proof fn items_view_push(s: Seq<Vec<MdBlock>>, b: Vec<MdBlock>)
    ensures
        items_view(s.push(b)) == items_view(s).push(blocks_view(b@)),
{
    assert(s.push(b).drop_last() =~= s);
}

fn push_item_text(blocks: &mut Vec<MdBlock>, text: &str, style: &SpanStyle)
    ensures
        blocks_view(final(blocks)@) == add_text_to_item(
            blocks_view(old(blocks)@),
            text@,
            style_view(*style),
        ),
{
    let ghost before = blocks@;
    proof {
        blocks_view_len(before);
    }
    match blocks.pop() {
        Some(last) => {
            let ghost head = blocks@;
            assert(before =~= head.push(last));
            proof {
                blocks_view_push(head, last);
            }
            assert(blocks_view(before).drop_last() =~= blocks_view(head));
            match last {
                MdBlock::Paragraph(mut spans) => {
                    push_text(&mut spans, text, style);
                    let ghost p = MdBlock::Paragraph(spans);
                    blocks.push(MdBlock::Paragraph(spans));
                    proof {
                        blocks_view_push(head, p);
                    }
                },
                other => {
                    blocks.push(other);
                    assert(blocks@ =~= before);
                    let mut spans: Vec<MdSpan> = Vec::new();
                    assert(spans_view(spans@) =~= seq![]);
                    push_text(&mut spans, text, style);
                    let ghost p = MdBlock::Paragraph(spans);
                    blocks.push(MdBlock::Paragraph(spans));
                    proof {
                        blocks_view_push(before, p);
                    }
                },
            }
        },
        None => {
            let mut spans: Vec<MdSpan> = Vec::new();
            assert(spans_view(spans@) =~= seq![]);
            push_text(&mut spans, text, style);
            let ghost p = MdBlock::Paragraph(spans);
            blocks.push(MdBlock::Paragraph(spans));
            proof {
                blocks_view_push(before, p);
            }
        },
    }
}

proof fn add_block_at(stack: Seq<Frame>, at: int, b: Block)
    requires
        0 <= at < stack.len(),
        holds_blocks(stack[at]),
        forall|k: int| at < k < stack.len() ==> !holds_blocks(#[trigger] stack[k]),
    ensures
        add_block(stack, b) == stack.update(at, with_block(stack[at], b)),
    decreases stack.len(),
{
    if at == stack.len() - 1 {
        assert(add_block(stack, b) =~= stack.update(at, with_block(stack[at], b)));
    } else {
        assert(!holds_blocks(stack[stack.len() - 1]));
        assert forall|k: int| at < k < stack.drop_last().len() implies !holds_blocks(
            #[trigger] stack.drop_last()[k],
        ) by {
            assert(!holds_blocks(stack[k]));
        }
        add_block_at(stack.drop_last(), at, b);
        assert(add_block(stack, b) =~= stack.update(at, with_block(stack[at], b)));
    }
}

proof fn add_block_nowhere(stack: Seq<Frame>, b: Block)
    requires
        forall|k: int| 0 <= k < stack.len() ==> !holds_blocks(#[trigger] stack[k]),
    ensures
        add_block(stack, b) == stack,
    decreases stack.len(),
{
    if stack.len() > 0 {
        assert(!holds_blocks(stack[stack.len() - 1]));
        assert forall|k: int| 0 <= k < stack.drop_last().len() implies !holds_blocks(
            #[trigger] stack.drop_last()[k],
        ) by {
            assert(!holds_blocks(stack[k]));
        }
        add_block_nowhere(stack.drop_last(), b);
        assert(add_block(stack, b) =~= stack);
    }
}

fn push_block(stack: &mut Vec<OpenElement>, block: MdBlock)
    ensures
        frames_view(final(stack)@) == add_block(frames_view(old(stack)@), block_view(block)),
{
    let ghost before = stack@;
    let ghost frames = frames_view(before);
    let mut at: usize = stack.len();
    while at > 0
        invariant
            at <= stack@.len(),
            stack@ == before,
            frames == frames_view(before),
            forall|k: int| at <= k < frames.len() ==> !holds_blocks(#[trigger] frames[k]),
        ensures
            at <= stack@.len(),
            stack@ == before,
            forall|k: int| at <= k < frames.len() ==> !holds_blocks(#[trigger] frames[k]),
            at > 0 ==> holds_blocks(frames[at - 1]),
        decreases at,
    {
        let holds: bool = match &stack[at - 1] {
            OpenElement::Root(_) => true,
            OpenElement::Quote(_) => true,
            OpenElement::Item(_) => true,
            _ => false,
        };
        assert(holds == holds_blocks(frames[at - 1]));
        if holds {
            break;
        }
        at = at - 1;
    }
    if at == 0 {
        proof {
            add_block_nowhere(frames, block_view(block));
        }
        return ;
    }
    proof {
        add_block_at(frames, at - 1, block_view(block));
    }
    let frame: OpenElement = stack.remove(at - 1);
    let next: OpenElement = match frame {
        OpenElement::Root(mut blocks) => {
            proof {
                blocks_view_push(blocks@, block);
            }
            blocks.push(block);
            OpenElement::Root(blocks)
        },
        OpenElement::Quote(mut blocks) => {
            proof {
                blocks_view_push(blocks@, block);
            }
            blocks.push(block);
            OpenElement::Quote(blocks)
        },
        OpenElement::Item(mut blocks) => {
            proof {
                blocks_view_push(blocks@, block);
            }
            blocks.push(block);
            OpenElement::Item(blocks)
        },
        other => other,
    };
    stack.insert(at - 1, next);
    assert(frames_view(stack@) =~= frames.update(
        at - 1,
        with_block(frames[at - 1], block_view(block)),
    ));
}

/// Whether text may pass this frame on its way to one that holds it.
spec fn passes_text(f: Frame) -> bool {
    f is CodeBlock || f is List
}

spec fn with_text(f: Frame, text: Seq<char>, style: Style) -> Frame {
    match f {
        Frame::Paragraph(spans) => Frame::Paragraph(add_text(spans, text, style)),
        Frame::Heading(level, spans) => Frame::Heading(level, add_text(spans, text, style)),
        Frame::Item(blocks) => Frame::Item(add_text_to_item(blocks, text, style)),
        _ => f,
    }
}

proof fn place_text_at(stack: Seq<Frame>, at: int, text: Seq<char>, style: Style)
    requires
        0 <= at < stack.len(),
        !passes_text(stack[at]),
        forall|k: int| at < k < stack.len() ==> passes_text(#[trigger] stack[k]),
    ensures
        place_text(stack, text, style) == stack.update(at, with_text(stack[at], text, style)),
    decreases stack.len(),
{
    if at == stack.len() - 1 {
        assert(place_text(stack, text, style) =~= stack.update(
            at,
            with_text(stack[at], text, style),
        ));
    } else {
        assert(passes_text(stack[stack.len() - 1]));
        assert forall|k: int| at < k < stack.drop_last().len() implies passes_text(
            #[trigger] stack.drop_last()[k],
        ) by {
            assert(passes_text(stack[k]));
        }
        place_text_at(stack.drop_last(), at, text, style);
        assert(place_text(stack, text, style) =~= stack.update(
            at,
            with_text(stack[at], text, style),
        ));
    }
}

proof fn place_text_nowhere(stack: Seq<Frame>, text: Seq<char>, style: Style)
    requires
        forall|k: int| 0 <= k < stack.len() ==> passes_text(#[trigger] stack[k]),
    ensures
        place_text(stack, text, style) == stack,
    decreases stack.len(),
{
    if stack.len() > 0 {
        assert(passes_text(stack[stack.len() - 1]));
        assert forall|k: int| 0 <= k < stack.drop_last().len() implies passes_text(
            #[trigger] stack.drop_last()[k],
        ) by {
            assert(passes_text(stack[k]));
        }
        place_text_nowhere(stack.drop_last(), text, style);
        assert(place_text(stack, text, style) =~= stack);
    }
}

fn push_span(stack: &mut Vec<OpenElement>, text: &str, style: &SpanStyle)
    requires
        text@.len() > 0,
    ensures
        frames_view(final(stack)@) == place_text(
            frames_view(old(stack)@),
            text@,
            style_view(*style),
        ),
{
    let ghost before = stack@;
    let ghost frames = frames_view(before);
    let mut at: usize = stack.len();
    while at > 0
        invariant
            at <= stack@.len(),
            stack@ == before,
            frames == frames_view(before),
            forall|k: int| at <= k < frames.len() ==> passes_text(#[trigger] frames[k]),
        ensures
            at <= stack@.len(),
            stack@ == before,
            forall|k: int| at <= k < frames.len() ==> passes_text(#[trigger] frames[k]),
            at > 0 ==> !passes_text(frames[at - 1]),
        decreases at,
    {
        let passes: bool = match &stack[at - 1] {
            OpenElement::CodeBlock(_) => true,
            OpenElement::List { .. } => true,
            _ => false,
        };
        assert(passes == passes_text(frames[at - 1]));
        if !passes {
            break;
        }
        at = at - 1;
    }
    if at == 0 {
        proof {
            place_text_nowhere(frames, text@, style_view(*style));
        }
        return ;
    }
    proof {
        place_text_at(frames, at - 1, text@, style_view(*style));
    }
    let frame: OpenElement = stack.remove(at - 1);
    let next: OpenElement = match frame {
        OpenElement::Paragraph(mut spans) => {
            push_text(&mut spans, text, style);
            OpenElement::Paragraph(spans)
        },
        OpenElement::Heading(level, mut spans) => {
            push_text(&mut spans, text, style);
            OpenElement::Heading(level, spans)
        },
        OpenElement::Item(mut blocks) => {
            push_item_text(&mut blocks, text, style);
            OpenElement::Item(blocks)
        },
        other => other,
    };
    stack.insert(at - 1, next);
    assert(frames_view(stack@) =~= frames.update(
        at - 1,
        with_text(frames[at - 1], text@, style_view(*style)),
    ));
}

fn level_of(name: &str) -> (r: Option<u8>)
    ensures
        r == heading_level(name@),
{
    if text::text_eq(name, "Heading(H1)") {
        Some(1)
    } else if text::text_eq(name, "Heading(H2)") {
        Some(2)
    } else if text::text_eq(name, "Heading(H3)") {
        Some(3)
    } else if text::text_eq(name, "Heading(H4)") {
        Some(4)
    } else if text::text_eq(name, "Heading(H5)") {
        Some(5)
    } else if text::text_eq(name, "Heading(H6)") {
        Some(6)
    } else {
        None
    }
}

fn open_element(name: &str) -> (r: Option<OpenElement>)
    ensures
        opened(name@) == (match r {
            Some(f) => Some(frame_view(f)),
            None => None,
        }),
{
    let blocks: Vec<MdBlock> = Vec::new();
    let spans: Vec<MdSpan> = Vec::new();
    assert(spans_view(spans@) =~= seq![]);
    if text::text_eq(name, "Paragraph") {
        return Some(OpenElement::Paragraph(spans));
    }
    match level_of(name) {
        Some(level) => return Some(OpenElement::Heading(level, spans)),
        None => {},
    }
    if text::text_eq(name, "CodeBlock") {
        Some(OpenElement::CodeBlock(String::new()))
    } else if text::starts_with(name, "BlockQuote(") {
        Some(OpenElement::Quote(blocks))
    } else if text::text_eq(name, "List(true)") {
        Some(OpenElement::List { ordered: true, items: Vec::new() })
    } else if text::text_eq(name, "List(false)") {
        Some(OpenElement::List { ordered: false, items: Vec::new() })
    } else if text::text_eq(name, "Item") {
        Some(OpenElement::Item(blocks))
    } else {
        None
    }
}

fn switch_style(style: &mut SpanStyle, name: &str, on: bool)
    ensures
        style_view(*final(style)) == switched(style_view(*old(style)), name@, on),
{
    if text::text_eq(name, "Emphasis") {
        style.italic = on;
    } else if text::text_eq(name, "Strong") {
        style.bold = on;
    } else if text::text_eq(name, "Strikethrough") {
        style.strikethrough = on;
    }
}

fn trimmed_code(code: String) -> (r: String)
    ensures
        r@ == code_text(code@),
{
    let n: usize = code.as_str().unicode_len();
    if n > 0 && code.as_str().get_char(n - 1) == '\n' {
        let r: String = code.as_str().substring_char(0, n - 1).to_owned();
        assert(r@ =~= code@.drop_last());
        r
    } else {
        code
    }
}

fn close_element(stack: &mut Vec<OpenElement>, top: OpenElement, name: &str)
    ensures
        frames_view(final(stack)@) == closed(frames_view(old(stack)@), frame_view(top), name@),
{
    let ghost rest = frames_view(stack@);
    match top {
        OpenElement::Paragraph(spans) => {
            if text::text_eq(name, "Paragraph") {
                push_block(stack, MdBlock::Paragraph(spans));
            }
        },
        OpenElement::Heading(level, spans) => {
            if level_of(name).is_some() {
                push_block(stack, MdBlock::Heading { level, spans });
            }
        },
        OpenElement::CodeBlock(code) => {
            if text::text_eq(name, "CodeBlock") {
                push_block(stack, MdBlock::CodeBlock { text: trimmed_code(code) });
            }
        },
        OpenElement::Quote(blocks) => {
            if text::starts_with(name, "BlockQuote(") {
                push_block(stack, MdBlock::Quote(blocks));
            }
        },
        OpenElement::List { ordered, items } => {
            if text::text_eq(name, "List(true)") || text::text_eq(name, "List(false)") {
                push_block(stack, MdBlock::List { ordered, items });
            }
        },
        OpenElement::Item(blocks) => {
            if text::text_eq(name, "Item") {
                match stack.pop() {
                    Some(OpenElement::List { ordered, mut items }) => {
                        proof {
                            items_view_push(items@, blocks);
                        }
                        items.push(blocks);
                        stack.push(OpenElement::List { ordered, items });
                        assert(frames_view(stack@) =~= closed(rest, frame_view(top), name@));
                    },
                    Some(other) => {
                        stack.push(other);
                        assert(frames_view(stack@) =~= rest);
                    },
                    None => {},
                }
            }
        },
        OpenElement::Root(_) => {},
    }
}

/// The blocks of the document whose events these are.
pub fn document_blocks(events: &Vec<MdEvent>) -> (r: Vec<MdBlock>)
    ensures
        blocks_view(r@) == document(steps(events@)),
{
    let mut stack: Vec<OpenElement> = vec![OpenElement::Root(Vec::new())];
    let mut style: SpanStyle = SpanStyle {
        bold: false,
        italic: false,
        strikethrough: false,
        code: false,
        link: None,
    };
    let mut links: Vec<String> = Vec::new();
    let mut i: usize = 0;
    let ghost es = steps(events@);
    assert(frames_view(stack@) =~= read(es.take(0)).stack);
    assert(texts(links@) =~= read(es.take(0)).links);
    while i < events.len()
        invariant
            i <= events@.len(),
            es == steps(events@),
            frames_view(stack@) == read(es.take(i as int)).stack,
            style_view(style) == read(es.take(i as int)).style,
            texts(links@) == read(es.take(i as int)).links,
        decreases events@.len() - i,
    {
        let ghost r = read(es.take(i as int));
        assert(es.take(i + 1).drop_last() =~= es.take(i as int));
        let ghost e = es[i as int];
        assert(es.take(i + 1).last() == e);
        assert(read(es.take(i + 1)) == advance(r, e));
        match &events[i] {
            MdEvent::Link(url) => {
                links.push(url.clone());
                style.link = Some(url.clone());
                assert(texts(links@) =~= r.links.push(url@));
            },
            MdEvent::Start(name) => {
                match open_element(name.as_str()) {
                    Some(frame) => {
                        stack.push(frame);
                        assert(frames_view(stack@) =~= r.stack.push(frame_view(frame)));
                    },
                    None => {
                        switch_style(&mut style, name.as_str(), true);
                    },
                }
            },
            MdEvent::End(name) => {
                if open_element(name.as_str()).is_some() {
                    match stack.pop() {
                        Some(top) => {
                            assert(frames_view(stack@) =~= r.stack.drop_last());
                            close_element(&mut stack, top, name.as_str());
                        },
                        None => {},
                    }
                } else if text::text_eq(name.as_str(), "Link") {
                    let gone: Option<String> = links.pop();
                    assert(texts(links@) =~= advance(r, e).links);
                    style.link = if links.len() > 0 {
                        Some(links[links.len() - 1].clone())
                    } else {
                        None
                    };
                    proof {
                        reveal_strlit("Link");
                        reveal_strlit("Emphasis");
                        reveal_strlit("Strong");
                        reveal_strlit("Strikethrough");
                    }
                } else {
                    switch_style(&mut style, name.as_str(), false);
                }
            },
            MdEvent::Text(t) => {
                match stack.pop() {
                    Some(OpenElement::CodeBlock(mut code)) => {
                        code.append(t.as_str());
                        stack.push(OpenElement::CodeBlock(code));
                        assert(frames_view(stack@) =~= advance(r, e).stack);
                    },
                    Some(other) => {
                        stack.push(other);
                        assert(frames_view(stack@) =~= r.stack);
                        if !t.as_str().is_empty() {
                            push_span(&mut stack, t.as_str(), &style);
                        }
                    },
                    None => {
                        if !t.as_str().is_empty() {
                            push_span(&mut stack, t.as_str(), &style);
                        }
                    },
                }
            },
            MdEvent::Code(t) => {
                let mut code_style: SpanStyle = copy_style(&style);
                code_style.code = true;
                if !t.as_str().is_empty() {
                    push_span(&mut stack, t.as_str(), &code_style);
                }
            },
            MdEvent::SoftBreak | MdEvent::HardBreak => {
                proof {
                    reveal_strlit(" ");
                }
                push_span(&mut stack, " ", &style);
            },
            MdEvent::Rule => {
                push_block(&mut stack, MdBlock::Rule);
            },
            MdEvent::Other(_) => {},
        }
        i = i + 1;
    }
    assert(es.take(i as int) =~= es);
    if stack.len() > 0 {
        let first: OpenElement = stack.remove(0);
        match first {
            OpenElement::Root(blocks) => return blocks,
            _ => {},
        }
    }
    Vec::new()
}

/// The characters of each of the texts.
pub open spec fn texts(s: Seq<String>) -> Seq<Seq<char>> {
    s.map_values(|t: String| t@)
}

/// The blocks of a Markdown document.
pub fn parse_markdown(source: &str) -> (r: Vec<MdBlock>)
    ensures
        blocks_view(r@) == document(parsed_markdown(source@)),
{
    document_blocks(&markdown_events(source))
}

impl Default for SpanStyle {
    fn default() -> (r: SpanStyle)
        ensures
            style_view(r) == no_style(),
    {
        SpanStyle { bold: false, italic: false, strikethrough: false, code: false, link: None }
    }
}

/// How many elements are open after the events, besides the document itself. It is negative
/// where more elements have ended than started.
pub open spec fn depth(events: Seq<Step>) -> int
    decreases events.len(),
{
    if events.len() == 0 {
        0
    } else {
        depth(events.drop_last()) + match events.last() {
            Step::Start(name) => if opened(name) is Some {
                1
            } else {
                0int
            },
            Step::End(name) => if opened(name) is Some {
                -1
            } else {
                0int
            },
            _ => 0,
        }
    }
}

/// No element ends that has not started.
pub open spec fn balanced(events: Seq<Step>) -> bool {
    forall|n: int| 0 <= n <= events.len() ==> depth(#[trigger] events.take(n)) >= 0
}

proof fn add_block_keeps_shape(stack: Seq<Frame>, b: Block)
    ensures
        add_block(stack, b).len() == stack.len(),
        stack.len() > 0 && stack[0] is Root ==> add_block(stack, b)[0] is Root && add_block(
            stack,
            b,
        )[0]->Root_0.len() >= stack[0]->Root_0.len() && add_block(stack, b)[0]->Root_0.take(
            stack[0]->Root_0.len() as int,
        ) == stack[0]->Root_0,
    decreases stack.len(),
{
    if stack.len() > 0 {
        if stack[0] is Root {
            let blocks = stack[0]->Root_0;
            assert(blocks.push(b).take(blocks.len() as int) =~= blocks);
            assert(blocks.take(blocks.len() as int) =~= blocks);
        }
        add_block_keeps_shape(stack.drop_last(), b);
    }
}

proof fn place_text_keeps_shape(stack: Seq<Frame>, text: Seq<char>, style: Style)
    ensures
        place_text(stack, text, style).len() == stack.len(),
        stack.len() > 0 && stack[0] is Root ==> place_text(stack, text, style)[0] == stack[0],
    decreases stack.len(),
{
    if stack.len() > 0 {
        place_text_keeps_shape(stack.drop_last(), text, style);
    }
}

proof fn advance_keeps_root(r: Reading, e: Step)
    requires
        r.stack.len() > 0,
        r.stack[0] is Root,
        e matches Step::End(name) ==> opened(name) is Some ==> r.stack.len() > 1,
    ensures
        advance(r, e).stack.len() == r.stack.len() + depth(seq![e]),
        advance(r, e).stack.len() > 0,
        advance(r, e).stack[0] is Root,
        advance(r, e).stack[0]->Root_0.len() >= r.stack[0]->Root_0.len(),
        advance(r, e).stack[0]->Root_0.take(r.stack[0]->Root_0.len() as int)
            == r.stack[0]->Root_0,
{
    assert(seq![e].drop_last() =~= seq![]);
    assert(depth(seq![e].drop_last()) == 0);
    assert(seq![e].last() == e);
    let blocks = r.stack[0]->Root_0;
    assert(blocks.take(blocks.len() as int) =~= blocks);
    match e {
        Step::End(name) => {
            if opened(name) is Some {
                let rest = r.stack.drop_last();
                let top = r.stack.last();
                assert(rest[0] == r.stack[0]);
                match top {
                    Frame::Paragraph(spans) => {
                        add_block_keeps_shape(rest, Block::Paragraph(spans));
                    },
                    Frame::Heading(level, spans) => {
                        add_block_keeps_shape(rest, Block::Heading { level, spans });
                    },
                    Frame::CodeBlock(text) => {
                        add_block_keeps_shape(rest, Block::CodeBlock(code_text(text)));
                    },
                    Frame::Quote(bs) => {
                        add_block_keeps_shape(rest, Block::Quote(bs));
                    },
                    Frame::List { ordered, items } => {
                        add_block_keeps_shape(rest, Block::List { ordered, items });
                    },
                    _ => {},
                }
            }
        },
        Step::Text(text) => {
            place_text_keeps_shape(r.stack, text, r.style);
        },
        Step::Code(text) => {
            place_text_keeps_shape(r.stack, text, Style { code: true, ..r.style });
        },
        Step::SoftBreak | Step::HardBreak => {
            place_text_keeps_shape(r.stack, " "@, r.style);
        },
        Step::Rule => {
            add_block_keeps_shape(r.stack, Block::Rule);
        },
        _ => {},
    }
}

/// While no element ends that has not started, the document itself stays open, and the open
/// elements above it are as many as have started and not ended.
pub proof fn balanced_events_keep_the_document_open(events: Seq<Step>)
    requires
        balanced(events),
    ensures
        read(events).stack.len() == depth(events) + 1,
        read(events).stack[0] is Root,
    decreases events.len(),
{
    if events.len() > 0 {
        let head = events.drop_last();
        assert(balanced(head)) by {
            assert forall|n: int| 0 <= n <= head.len() implies depth(#[trigger] head.take(n))
                >= 0 by {
                assert(head.take(n) =~= events.take(n));
            }
        }
        balanced_events_keep_the_document_open(head);
        assert(events.take(events.len() as int) =~= events);
        assert(depth(events) >= 0);
        let e = events.last();
        assert(seq![e].drop_last() =~= seq![]);
        assert(depth(seq![e].drop_last()) == 0);
        advance_keeps_root(read(head), e);
    }
}

/// Blocks keep their order: what further balanced events add comes behind the blocks that are
/// already there, which stay as they are.
pub proof fn later_events_only_append_blocks(events: Seq<Step>, n: int)
    requires
        balanced(events),
        0 <= n <= events.len(),
    ensures
        document(events.take(n)).len() <= document(events).len(),
        document(events).take(document(events.take(n)).len() as int) == document(events.take(n)),
    decreases events.len() - n,
{
    let shorter = events.take(n);
    assert(balanced(shorter)) by {
        assert forall|k: int| 0 <= k <= shorter.len() implies depth(#[trigger] shorter.take(k))
            >= 0 by {
            assert(shorter.take(k) =~= events.take(k));
        }
    }
    balanced_events_keep_the_document_open(shorter);
    if n == events.len() {
        assert(shorter =~= events);
        assert(document(events).take(document(events).len() as int) =~= document(events));
    } else {
        let e = events[n];
        let next = events.take(n + 1);
        assert(next.drop_last() =~= shorter);
        assert(next.last() == e);
        assert(depth(next) >= 0);
        assert(seq![e].drop_last() =~= seq![]);
        assert(depth(seq![e].drop_last()) == 0);
        advance_keeps_root(read(shorter), e);
        later_events_only_append_blocks(events, n + 1);
        let a = document(shorter);
        let b = document(next);
        let c = document(events);
        assert(b.take(a.len() as int) == a);
        assert(c.take(b.len() as int) == b);
        assert forall|k: int| 0 <= k < a.len() implies c[k] == a[k] by {
            assert(b.take(a.len() as int)[k] == a[k]);
            assert(c.take(b.len() as int)[k] == b[k]);
        }
        assert(c.take(a.len() as int) =~= a);
    }
}

/// A paragraph with one text becomes a block with one span of that text in the style in force.
pub proof fn a_paragraph_holds_its_text(r: Reading, words: Seq<char>)
    requires
        words.len() > 0,
        r.stack.len() > 0,
        holds_blocks(r.stack.last()),
    ensures
        advance(
            advance(advance(r, Step::Start("Paragraph"@)), Step::Text(words)),
            Step::End("Paragraph"@),
        ) == (Reading {
            stack: r.stack.drop_last().push(
                with_block(
                    r.stack.last(),
                    Block::Paragraph(seq![Span { text: words, style: r.style }]),
                ),
            ),
            ..r
        }),
{
    let a = advance(r, Step::Start("Paragraph"@));
    let b = advance(a, Step::Text(words));
    assert(a.stack.drop_last() =~= r.stack);
    assert(b.stack.drop_last() =~= r.stack);
    assert(add_text(seq![], words, r.style) =~= seq![Span { text: words, style: r.style }]);
    assert(b.stack.last() == Frame::Paragraph(seq![Span { text: words, style: r.style }]));
}

/// A code block keeps its text but for the newline that ends it.
pub proof fn a_code_block_holds_its_text(r: Reading, code: Seq<char>)
    requires
        r.stack.len() > 0,
        holds_blocks(r.stack.last()),
    ensures
        advance(
            advance(advance(r, Step::Start("CodeBlock"@)), Step::Text(code.push('\n'))),
            Step::End("CodeBlock"@),
        ) == (Reading {
            stack: r.stack.drop_last().push(with_block(r.stack.last(), Block::CodeBlock(code))),
            ..r
        }),
{
    reveal_strlit("CodeBlock");
    reveal_strlit("Paragraph");
    reveal_strlit("Heading(H1)");
    reveal_strlit("Heading(H2)");
    reveal_strlit("Heading(H3)");
    reveal_strlit("Heading(H4)");
    reveal_strlit("Heading(H5)");
    reveal_strlit("Heading(H6)");
    let a = advance(r, Step::Start("CodeBlock"@));
    let b = advance(a, Step::Text(code.push('\n')));
    assert("CodeBlock"@.len() != "Heading(H1)"@.len());
    assert("CodeBlock"@[0] != "Paragraph"@[0]);
    assert(opened("CodeBlock"@) == Some(Frame::CodeBlock(seq![])));
    assert(a.stack.drop_last() =~= r.stack);
    assert(b.stack.drop_last() =~= r.stack);
    assert(Seq::<char>::empty() + code.push('\n') =~= code.push('\n'));
    assert(code.push('\n').drop_last() =~= code);
}

// ---------------------------------------------------------------------------
// What a reader sees
// ---------------------------------------------------------------------------

/// An event inside a line of text: text, code, a break, or the start or end of emphasis, strong
/// text, strikethrough or a link.
pub open spec fn is_inline(e: Step) -> bool {
    match e {
        Step::Text(_) | Step::Code(_) | Step::SoftBreak | Step::HardBreak | Step::Link(_) => true,
        Step::Start(name) | Step::End(name) => name == "Emphasis"@ || name == "Strong"@ || name
            == "Strikethrough"@ || name == "Link"@,
        _ => false,
    }
}

/// The words that an inline event shows; a break shows a space.
pub open spec fn wording(e: Step) -> Seq<char> {
    match e {
        Step::Text(t) => t,
        Step::Code(t) => t,
        Step::SoftBreak | Step::HardBreak => seq![' '],
        _ => seq![],
    }
}

/// The style in which an inline event shows its words: the one in force, as code where it is code.
pub open spec fn wording_style(e: Step, style: Style) -> Style {
    Style { code: style.code || e is Code, ..style }
}

/// The words that the inline events show, one behind the other.
pub open spec fn all_words(inner: Seq<Step>) -> Seq<char>
    decreases inner.len(),
{
    if inner.len() == 0 {
        seq![]
    } else {
        all_words(inner.drop_last()) + wording(inner.last())
    }
}

/// The characters of the spans, each with its style.
pub open spec fn styled(spans: Seq<Span>) -> Seq<(char, Style)>
    decreases spans.len(),
{
    if spans.len() == 0 {
        seq![]
    } else {
        styled(spans.drop_last()) + spans.last().text.map_values(
            |c: char| (c, spans.last().style),
        )
    }
}

/// The characters that the inline events show behind `head`, each with the style in force.
pub open spec fn styled_words(head: Seq<Step>, inner: Seq<Step>) -> Seq<(char, Style)>
    decreases inner.len(),
{
    if inner.len() == 0 {
        seq![]
    } else {
        let before = inner.drop_last();
        let style = wording_style(inner.last(), read(head + before).style);
        styled_words(head, before) + wording(inner.last()).map_values(|c: char| (c, style))
    }
}

/// No span is empty, and no two neighbours have the same style.
pub open spec fn tidy(spans: Seq<Span>) -> bool {
    &&& forall|i: int| 0 <= i < spans.len() ==> (#[trigger] spans[i]).text.len() > 0
    &&& forall|i: int|
        0 < i < spans.len() ==> (#[trigger] spans[i]).style != spans[i - 1].style
}

/// All of the events are inline.
pub open spec fn all_inline(inner: Seq<Step>) -> bool {
    forall|i: int| 0 <= i < inner.len() ==> is_inline(#[trigger] inner[i])
}

proof fn names_differ()
    ensures
        opened("Emphasis"@) is None,
        opened("Strong"@) is None,
        opened("Strikethrough"@) is None,
        opened("Link"@) is None,
        opened("Paragraph"@) == Some(Frame::Paragraph(seq![])),
        opened("CodeBlock"@) == Some(Frame::CodeBlock(seq![])),
        opened("List(true)"@) == Some(Frame::List { ordered: true, items: seq![] }),
        opened("List(false)"@) == Some(Frame::List { ordered: false, items: seq![] }),
        opened("Item"@) == Some(Frame::Item(seq![])),
        "Link"@ != "Emphasis"@,
        "Link"@ != "Strong"@,
        "Link"@ != "Strikethrough"@,
        "Emphasis"@ != "Strong"@,
        "Emphasis"@ != "Strikethrough"@,
        "Strong"@ != "Strikethrough"@,
        heading_level("Heading(H1)"@) == Some(1u8),
        heading_level("Heading(H2)"@) == Some(2u8),
        heading_level("Heading(H3)"@) == Some(3u8),
        heading_level("Heading(H4)"@) == Some(4u8),
        heading_level("Heading(H5)"@) == Some(5u8),
        heading_level("Heading(H6)"@) == Some(6u8),
        "Heading(H1)"@ != "Paragraph"@,
        "Heading(H2)"@ != "Paragraph"@,
        "Heading(H3)"@ != "Paragraph"@,
        "Heading(H4)"@ != "Paragraph"@,
        "Heading(H5)"@ != "Paragraph"@,
        "Heading(H6)"@ != "Paragraph"@,
{
    reveal_strlit("Emphasis");
    reveal_strlit("Strong");
    reveal_strlit("Strikethrough");
    reveal_strlit("Link");
    reveal_strlit("Paragraph");
    reveal_strlit("CodeBlock");
    reveal_strlit("List(true)");
    reveal_strlit("List(false)");
    reveal_strlit("Item");
    reveal_strlit("BlockQuote(");
    reveal_strlit("Heading(H1)");
    reveal_strlit("Heading(H2)");
    reveal_strlit("Heading(H3)");
    reveal_strlit("Heading(H4)");
    reveal_strlit("Heading(H5)");
    reveal_strlit("Heading(H6)");
    assert("Heading(H1)"@[9] == '1');
    assert("Heading(H2)"@[9] == '2');
    assert("Heading(H3)"@[9] == '3');
    assert("Heading(H4)"@[9] == '4');
    assert("Heading(H5)"@[9] == '5');
    assert("Heading(H6)"@[9] == '6');
    assert("Emphasis"@.len() == 8);
    assert("Strong"@.len() == 6);
    assert("Strikethrough"@.len() == 13);
    assert("Strikethrough"@[0] == 'S');
    assert("BlockQuote("@[0] == 'B');
    assert("Strikethrough"@.take(11)[0] == 'S');
    assert("List(false)"@.take(11)[0] == 'L');
    assert("Link"@[0] == 'L');
    assert("Item"@[0] == 'I');
    assert("List(true)"@.len() == 10);
    assert("List(false)"@.len() == 11);
    assert("List(false)"@[0] == 'L');
    assert("Heading(H1)"@[0] == 'H');
    assert("Heading(H2)"@[0] == 'H');
    assert("Heading(H3)"@[0] == 'H');
    assert("Heading(H4)"@[0] == 'H');
    assert("Heading(H5)"@[0] == 'H');
    assert("Heading(H6)"@[0] == 'H');
    assert("Paragraph"@[0] == 'P');
    assert("CodeBlock"@[0] == 'C');
}

/// Text that is added at the end of tidy spans stands behind what they show, in its style, and they
/// stay tidy.
proof fn added_text_is_shown(spans: Seq<Span>, words: Seq<char>, style: Style)
    requires
        words.len() > 0,
        tidy(spans),
    ensures
        tidy(add_text(spans, words, style)),
        styled(add_text(spans, words, style)) == styled(spans) + words.map_values(
            |c: char| (c, style),
        ),
        joined(add_text(spans, words, style)) == joined(spans) + words,
{
    let after = add_text(spans, words, style);
    let shown = words.map_values(|c: char| (c, style));
    if spans.len() > 0 && spans.last().style == style {
        let last = spans.last();
        assert(after.drop_last() =~= spans.drop_last());
        assert(after.last().text == last.text + words);
        assert(after.last().text.map_values(|c: char| (c, after.last().style))
            =~= last.text.map_values(|c: char| (c, last.style)) + shown);
        assert(styled(after) =~= styled(spans) + shown);
        assert(joined(after) =~= joined(spans) + words);
        assert forall|i: int| 0 <= i < after.len() implies (#[trigger] after[i]).text.len() > 0 by {
            if i < spans.len() - 1 {
                assert(after[i] == spans[i]);
            }
        }
        assert forall|i: int| 0 < i < after.len() implies (#[trigger] after[i]).style
            != after[i - 1].style by {
            assert(after[i].style == spans[i].style);
            assert(after[i - 1].style == spans[i - 1].style);
        }
    } else {
        assert(after.drop_last() =~= spans);
        assert(after.last().text.map_values(|c: char| (c, after.last().style)) =~= shown);
        assert(styled(after) =~= styled(spans) + shown);
        assert(joined(after) =~= joined(spans) + words);
        assert forall|i: int| 0 <= i < after.len() implies (#[trigger] after[i]).text.len() > 0 by {
            if i < spans.len() {
                assert(after[i] == spans[i]);
            }
        }
        assert forall|i: int| 0 < i < after.len() implies (#[trigger] after[i]).style
            != after[i - 1].style by {
            assert(after[i - 1] == spans[i - 1]);
            if i < spans.len() {
                assert(after[i] == spans[i]);
            }
        }
    }
}

/// Whether a frame holds a line of text: a paragraph or a heading.
pub open spec fn holds_line(f: Frame) -> bool {
    f is Paragraph || f is Heading
}

/// The spans of a line of text.
pub open spec fn line_of(f: Frame) -> Seq<Span> {
    match f {
        Frame::Paragraph(spans) => spans,
        Frame::Heading(_, spans) => spans,
        _ => seq![],
    }
}

proof fn an_inline_event_adds_its_words(r: Reading, e: Step)
    requires
        is_inline(e),
        r.stack.len() > 0,
        holds_line(r.stack.last()),
        tidy(line_of(r.stack.last())),
    ensures
        ({
            let after = advance(r, e);
            let style = wording_style(e, r.style);
            let line = line_of(r.stack.last());
            let next = line_of(after.stack.last());
            &&& after.stack.len() == r.stack.len()
            &&& after.stack.drop_last() == r.stack.drop_last()
            &&& holds_line(after.stack.last())
            &&& after.stack.last() is Paragraph <==> r.stack.last() is Paragraph
            &&& r.stack.last() is Heading ==> after.stack.last()->Heading_0
                == r.stack.last()->Heading_0
            &&& tidy(next)
            &&& styled(next) == styled(line) + wording(e).map_values(|c: char| (c, style))
            &&& joined(next) == joined(line) + wording(e)
        }),
{
    names_differ();
    reveal_strlit(" ");
    let after = advance(r, e);
    let style = wording_style(e, r.style);
    let line = line_of(r.stack.last());
    let words = wording(e);
    assert(" "@ =~= seq![' ']);
    if words.len() > 0 {
        added_text_is_shown(line, words, style);
        assert(r.style.code || !(e is Code) ==> style == wording_style(e, r.style));
        assert(e !is Code ==> style == r.style);
        assert(e is Code ==> style == Style { code: true, ..r.style });
        assert(after.stack.drop_last() =~= r.stack.drop_last());
        assert(line_of(after.stack.last()) == add_text(line, words, style));
    } else {
        assert(after.stack == r.stack);
        assert(styled(line) + words.map_values(|c: char| (c, style)) =~= styled(line));
        assert(joined(line) + words =~= joined(line));
    }
}

proof fn inline_events_add_their_words(head: Seq<Step>, inner: Seq<Step>)
    requires
        all_inline(inner),
        read(head).stack.len() > 0,
        holds_line(read(head).stack.last()),
        line_of(read(head).stack.last()).len() == 0,
    ensures
        ({
            let r = read(head);
            let after = read(head + inner);
            let line = line_of(after.stack.last());
            &&& after.stack.len() == r.stack.len()
            &&& after.stack.drop_last() == r.stack.drop_last()
            &&& holds_line(after.stack.last())
            &&& after.stack.last() is Paragraph <==> r.stack.last() is Paragraph
            &&& r.stack.last() is Heading ==> after.stack.last()->Heading_0
                == r.stack.last()->Heading_0
            &&& tidy(line)
            &&& styled(line) == styled_words(head, inner)
            &&& joined(line) == all_words(inner)
        }),
    decreases inner.len(),
{
    if inner.len() == 0 {
        assert(head + inner =~= head);
        assert(styled(line_of(read(head).stack.last())) =~= seq![]);
    } else {
        let before = inner.drop_last();
        assert forall|i: int| 0 <= i < before.len() implies is_inline(#[trigger] before[i]) by {
            assert(before[i] == inner[i]);
        }
        inline_events_add_their_words(head, before);
        assert((head + inner).drop_last() =~= head + before);
        assert((head + inner).last() == inner.last());
        assert(is_inline(inner[inner.len() - 1]));
        an_inline_event_adds_its_words(read(head + before), inner.last());
    }
}

/// The document is between two blocks: nothing is open in it.
pub open spec fn between_blocks(head: Seq<Step>) -> bool {
    read(head).stack.len() == 1 && read(head).stack[0] is Root
}

/// A paragraph shows the words of its inline events, one behind the other, a break of a line as one
/// space: no word is lost and none runs into the next. Each character has the style in force where it
/// stands, and neighbouring spans differ in style.
pub proof fn a_paragraph_shows_its_words(head: Seq<Step>, inner: Seq<Step>)
    requires
        between_blocks(head),
        all_inline(inner),
    ensures
        ({
            let start = head.push(Step::Start("Paragraph"@));
            let blocks = document((start + inner).push(Step::End("Paragraph"@)));
            &&& blocks.len() == document(head).len() + 1
            &&& blocks.drop_last() == document(head)
            &&& blocks.last() matches Block::Paragraph(spans) && joined(spans) == all_words(inner)
                && styled(spans) == styled_words(start, inner) && tidy(spans)
        }),
{
    names_differ();
    let start = head.push(Step::Start("Paragraph"@));
    assert(start.drop_last() =~= head);
    let full = (start + inner).push(Step::End("Paragraph"@));
    assert(full.drop_last() =~= start + inner);
    inline_events_add_their_words(start, inner);
    let after = read(start + inner);
    assert(read(start).stack.drop_last() =~= read(head).stack);
    assert(after.stack.drop_last() == read(head).stack);
    let blocks = document(full);
    let spans = line_of(after.stack.last());
    assert(blocks =~= document(head).push(Block::Paragraph(spans)));
    assert(blocks.drop_last() =~= document(head));
}

/// The name of the element of a heading.
pub open spec fn heading_name(level: u8) -> Seq<char> {
    if level == 1 {
        "Heading(H1)"@
    } else if level == 2 {
        "Heading(H2)"@
    } else if level == 3 {
        "Heading(H3)"@
    } else if level == 4 {
        "Heading(H4)"@
    } else if level == 5 {
        "Heading(H5)"@
    } else {
        "Heading(H6)"@
    }
}

/// A heading keeps its level and shows its words as a paragraph does.
pub proof fn a_heading_shows_its_words(head: Seq<Step>, inner: Seq<Step>, level: u8)
    requires
        between_blocks(head),
        all_inline(inner),
        1 <= level <= 6,
    ensures
        ({
            let start = head.push(Step::Start(heading_name(level)));
            let blocks = document((start + inner).push(Step::End(heading_name(level))));
            &&& blocks.len() == document(head).len() + 1
            &&& blocks.drop_last() == document(head)
            &&& blocks.last() matches Block::Heading { level: shown, spans } && shown == level
                && joined(spans) == all_words(inner) && styled(spans) == styled_words(start, inner)
                && tidy(spans)
        }),
{
    names_differ();
    let name = heading_name(level);
    assert(heading_level(name) == Some(level));
    let start = head.push(Step::Start(name));
    assert(start.drop_last() =~= head);
    let full = (start + inner).push(Step::End(name));
    assert(full.drop_last() =~= start + inner);
    inline_events_add_their_words(start, inner);
    let after = read(start + inner);
    assert(read(start).stack.drop_last() =~= read(head).stack);
    assert(after.stack.drop_last() == read(head).stack);
    let blocks = document(full);
    let spans = line_of(after.stack.last());
    assert(blocks =~= document(head).push(Block::Heading { level, spans }));
    assert(blocks.drop_last() =~= document(head));
}

/// The last start or end of an element with this name, if there is any, is a start.
pub open spec fn is_on(events: Seq<Step>, name: Seq<char>) -> bool {
    exists|i: int|
        0 <= i < events.len() && #[trigger] events[i] == Step::Start(name) && forall|j: int|
            i < j < events.len() ==> #[trigger] events[j] != Step::End(name)
}

proof fn is_on_step(events: Seq<Step>, name: Seq<char>)
    requires
        events.len() > 0,
    ensures
        is_on(events, name) == (events.last() == Step::Start(name) || (events.last() != Step::End(
            name,
        ) && is_on(events.drop_last(), name))),
{
    let head = events.drop_last();
    let n = events.len() - 1;
    if is_on(events, name) {
        let i = choose|i: int|
            0 <= i < events.len() && #[trigger] events[i] == Step::Start(name) && forall|j: int|
                i < j < events.len() ==> #[trigger] events[j] != Step::End(name);
        if i < n {
            assert(head[i] == Step::Start(name));
            assert(events[n] != Step::End(name));
            assert forall|j: int| i < j < head.len() implies #[trigger] head[j] != Step::End(
                name,
            ) by {
                assert(head[j] == events[j]);
            }
            assert(is_on(head, name));
        }
    }
    if events.last() == Step::Start(name) {
        assert(events[n] == Step::Start(name));
        assert(is_on(events, name));
    }
    if events.last() != Step::End(name) && is_on(head, name) {
        let i = choose|i: int|
            0 <= i < head.len() && #[trigger] head[i] == Step::Start(name) && forall|j: int|
                i < j < head.len() ==> #[trigger] head[j] != Step::End(name);
        assert(events[i] == Step::Start(name));
        assert forall|j: int| i < j < events.len() implies #[trigger] events[j] != Step::End(
            name,
        ) by {
            if j < n {
                assert(head[j] == events[j]);
            }
        }
        assert(is_on(events, name));
    }
}

/// Text is bold from the start of a strong element to its end, slanted from the start of emphasis to
/// its end, and struck out likewise. Only a run of code is shown as code.
pub proof fn a_style_lasts_from_start_to_end(events: Seq<Step>)
    ensures
        read(events).style.bold == is_on(events, "Strong"@),
        read(events).style.italic == is_on(events, "Emphasis"@),
        read(events).style.strikethrough == is_on(events, "Strikethrough"@),
        !read(events).style.code,
    decreases events.len(),
{
    names_differ();
    if events.len() > 0 {
        a_style_lasts_from_start_to_end(events.drop_last());
        is_on_step(events, "Strong"@);
        is_on_step(events, "Emphasis"@);
        is_on_step(events, "Strikethrough"@);
    }
}

/// The event neither starts nor ends a link.
pub open spec fn keeps_link(e: Step) -> bool {
    !(e is Link) && e != Step::End("Link"@)
}

proof fn the_link_is_the_innermost(events: Seq<Step>)
    ensures
        read(events).style.link == (if read(events).links.len() > 0 {
            Some(read(events).links.last())
        } else {
            None
        }),
    decreases events.len(),
{
    names_differ();
    if events.len() > 0 {
        the_link_is_the_innermost(events.drop_last());
    }
}

proof fn a_link_is_kept(head: Seq<Step>, inner: Seq<Step>)
    requires
        forall|i: int| 0 <= i < inner.len() ==> keeps_link(#[trigger] inner[i]),
    ensures
        read(head + inner).links == read(head).links,
        read(head + inner).style.link == read(head).style.link,
    decreases inner.len(),
{
    names_differ();
    if inner.len() == 0 {
        assert(head + inner =~= head);
    } else {
        let before = inner.drop_last();
        assert forall|i: int| 0 <= i < before.len() implies keeps_link(#[trigger] before[i]) by {
            assert(before[i] == inner[i]);
        }
        a_link_is_kept(head, before);
        assert((head + inner).drop_last() =~= head + before);
        assert(keeps_link(inner[inner.len() - 1]));
    }
}

/// Text between the start and the end of a link leads to its destination; behind it the text leads
/// again where it led before, or nowhere.
pub proof fn a_link_leads_to_its_destination(head: Seq<Step>, url: Seq<char>, inner: Seq<Step>)
    requires
        forall|i: int| 0 <= i < inner.len() ==> keeps_link(#[trigger] inner[i]),
    ensures
        read(head.push(Step::Link(url)) + inner).style.link == Some(url),
        read((head.push(Step::Link(url)) + inner).push(Step::End("Link"@))).style.link == read(
            head,
        ).style.link,
        read(seq![]).style.link is None,
{
    names_differ();
    let start = head.push(Step::Link(url));
    assert(start.drop_last() =~= head);
    a_link_is_kept(start, inner);
    let full = (start + inner).push(Step::End("Link"@));
    assert(full.drop_last() =~= start + inner);
    the_link_is_the_innermost(head);
    assert(read(head).links.push(url).drop_last() =~= read(head).links);
}

/// The text of the text events, one behind the other.
pub open spec fn all_code(inner: Seq<Step>) -> Seq<char>
    decreases inner.len(),
{
    if inner.len() == 0 {
        seq![]
    } else {
        all_code(inner.drop_last()) + (if inner.last() is Text {
            inner.last()->Text_0
        } else {
            seq![]
        })
    }
}

proof fn code_is_collected(head: Seq<Step>, inner: Seq<Step>)
    requires
        read(head).stack.len() > 0,
        read(head).stack.last() == Frame::CodeBlock(seq![]),
        forall|i: int| 0 <= i < inner.len() ==> (#[trigger] inner[i]) is Text,
    ensures
        read(head + inner).stack == read(head).stack.drop_last().push(
            Frame::CodeBlock(all_code(inner)),
        ),
    decreases inner.len(),
{
    if inner.len() == 0 {
        assert(head + inner =~= head);
        assert(read(head).stack =~= read(head).stack.drop_last().push(Frame::CodeBlock(seq![])));
    } else {
        let before = inner.drop_last();
        assert forall|i: int| 0 <= i < before.len() implies (#[trigger] before[i]) is Text by {
            assert(before[i] == inner[i]);
        }
        code_is_collected(head, before);
        assert((head + inner).drop_last() =~= head + before);
        assert(inner[inner.len() - 1] is Text);
        assert(read(head + before).stack.drop_last() =~= read(head).stack.drop_last());
    }
}

/// A code block shows all of its text, however it is cut into pieces, but for one newline at its end.
pub proof fn a_code_block_shows_all_of_its_text(head: Seq<Step>, inner: Seq<Step>)
    requires
        between_blocks(head),
        forall|i: int| 0 <= i < inner.len() ==> (#[trigger] inner[i]) is Text,
    ensures
        ({
            let start = head.push(Step::Start("CodeBlock"@));
            let blocks = document((start + inner).push(Step::End("CodeBlock"@)));
            let code = all_code(inner);
            &&& blocks.len() == document(head).len() + 1
            &&& blocks.drop_last() == document(head)
            &&& blocks.last() matches Block::CodeBlock(shown) && (if code.len() > 0 && code.last()
                == '\n' {
                shown.push('\n') == code
            } else {
                shown == code
            })
        }),
{
    names_differ();
    let start = head.push(Step::Start("CodeBlock"@));
    assert(start.drop_last() =~= head);
    assert(read(start).stack.drop_last() =~= read(head).stack);
    code_is_collected(start, inner);
    let full = (start + inner).push(Step::End("CodeBlock"@));
    assert(full.drop_last() =~= start + inner);
    assert(read(start + inner).stack.drop_last() =~= read(head).stack);
    let code = all_code(inner);
    let blocks = document(full);
    assert(blocks =~= document(head).push(Block::CodeBlock(code_text(code))));
    assert(blocks.drop_last() =~= document(head));
    if code.len() > 0 && code.last() == '\n' {
        assert(code_text(code).push('\n') =~= code);
    }
}

/// A rule between two blocks is a block of its own.
pub proof fn a_rule_is_a_block(head: Seq<Step>)
    requires
        between_blocks(head),
    ensures
        document(head.push(Step::Rule)) == document(head).push(Block::Rule),
        between_blocks(head.push(Step::Rule)),
{
    assert(head.push(Step::Rule).drop_last() =~= head);
    assert(document(head.push(Step::Rule)) =~= document(head).push(Block::Rule));
}

// --- elements that hold blocks ---

/// Two readings go the same way: the first is inside an element that lies over `base` and holds the
/// blocks which are the document of the second.
spec fn in_step(base: Seq<Frame>, item: bool, inside: Reading, alone: Reading) -> bool {
    &&& alone.stack.len() > 0
    &&& alone.stack[0] is Root
    &&& inside.stack.len() == base.len() + alone.stack.len()
    &&& inside.stack.take(base.len() as int) == base
    &&& inside.stack[base.len() as int] == (if item {
        Frame::Item(alone.stack[0]->Root_0)
    } else {
        Frame::Quote(alone.stack[0]->Root_0)
    })
    &&& forall|k: int|
        1 <= k < alone.stack.len() ==> inside.stack[base.len() + k] == #[trigger] alone.stack[k]
    &&& inside.style == alone.style
    &&& inside.links == alone.links
}

spec fn stacks_in_step(base: Seq<Frame>, item: bool, inside: Seq<Frame>, alone: Seq<Frame>) -> bool {
    &&& alone.len() > 0
    &&& alone[0] is Root
    &&& inside.len() == base.len() + alone.len()
    &&& inside.take(base.len() as int) == base
    &&& inside[base.len() as int] == (if item {
        Frame::Item(alone[0]->Root_0)
    } else {
        Frame::Quote(alone[0]->Root_0)
    })
    &&& forall|k: int| 1 <= k < alone.len() ==> inside[base.len() + k] == #[trigger] alone[k]
}

proof fn dropping_in_step(base: Seq<Frame>, item: bool, inside: Seq<Frame>, alone: Seq<Frame>)
    requires
        stacks_in_step(base, item, inside, alone),
        alone.len() > 1,
    ensures
        stacks_in_step(base, item, inside.drop_last(), alone.drop_last()),
        inside.last() == alone.last(),
{
    assert(inside.drop_last().take(base.len() as int) =~= base) by {
        assert(inside.take(base.len() as int) =~= base);
        assert forall|k: int| 0 <= k < base.len() implies inside[k] == base[k] by {
            assert(inside.take(base.len() as int)[k] == base[k]);
        }
    }
    assert(alone[alone.len() - 1] == alone.last());
    assert forall|k: int| 1 <= k < alone.drop_last().len() implies inside.drop_last()[base.len() + k]
        == #[trigger] alone.drop_last()[k] by {
        assert(alone.drop_last()[k] == alone[k]);
    }
}

proof fn pushing_in_step(
    base: Seq<Frame>,
    item: bool,
    inside: Seq<Frame>,
    alone: Seq<Frame>,
    f: Frame,
)
    requires
        stacks_in_step(base, item, inside, alone),
    ensures
        stacks_in_step(base, item, inside.push(f), alone.push(f)),
{
    assert(inside.push(f).take(base.len() as int) =~= base) by {
        assert forall|k: int| 0 <= k < base.len() implies inside[k] == base[k] by {
            assert(inside.take(base.len() as int)[k] == base[k]);
        }
    }
    assert forall|k: int| 1 <= k < alone.push(f).len() implies inside.push(f)[base.len() + k]
        == #[trigger] alone.push(f)[k] by {
        if k < alone.len() {
            assert(alone.push(f)[k] == alone[k]);
        }
    }
}

proof fn blocks_in_step(
    base: Seq<Frame>,
    item: bool,
    inside: Seq<Frame>,
    alone: Seq<Frame>,
    b: Block,
)
    requires
        stacks_in_step(base, item, inside, alone),
    ensures
        stacks_in_step(base, item, add_block(inside, b), add_block(alone, b)),
    decreases alone.len(),
{
    if alone.len() == 1 {
        let i = add_block(inside, b);
        assert(i.take(base.len() as int) =~= base) by {
            assert forall|k: int| 0 <= k < base.len() implies inside[k] == base[k] by {
                assert(inside.take(base.len() as int)[k] == base[k]);
            }
        }
    } else {
        dropping_in_step(base, item, inside, alone);
        if holds_blocks(alone.last()) {
            pushing_in_step(
                base,
                item,
                inside.drop_last(),
                alone.drop_last(),
                with_block(alone.last(), b),
            );
        } else {
            blocks_in_step(base, item, inside.drop_last(), alone.drop_last(), b);
            pushing_in_step(
                base,
                item,
                add_block(inside.drop_last(), b),
                add_block(alone.drop_last(), b),
                alone.last(),
            );
        }
    }
}

/// Text has a place to go to above the document itself.
pub open spec fn has_home(alone: Seq<Frame>) -> bool
    decreases alone.len(),
{
    if alone.len() <= 1 {
        false
    } else {
        match alone.last() {
            Frame::Paragraph(_) | Frame::Heading(_, _) | Frame::Item(_) | Frame::Quote(_) => true,
            Frame::Root(_) => true,
            _ => has_home(alone.drop_last()),
        }
    }
}

proof fn texts_in_step(
    base: Seq<Frame>,
    item: bool,
    inside: Seq<Frame>,
    alone: Seq<Frame>,
    words: Seq<char>,
    style: Style,
)
    requires
        stacks_in_step(base, item, inside, alone),
        item ==> has_home(alone),
    ensures
        stacks_in_step(
            base,
            item,
            place_text(inside, words, style),
            place_text(alone, words, style),
        ),
    decreases alone.len(),
{
    if alone.len() > 1 {
        dropping_in_step(base, item, inside, alone);
        match alone.last() {
            Frame::Paragraph(spans) => {
                pushing_in_step(
                    base,
                    item,
                    inside.drop_last(),
                    alone.drop_last(),
                    Frame::Paragraph(add_text(spans, words, style)),
                );
            },
            Frame::Heading(level, spans) => {
                pushing_in_step(
                    base,
                    item,
                    inside.drop_last(),
                    alone.drop_last(),
                    Frame::Heading(level, add_text(spans, words, style)),
                );
            },
            Frame::Item(blocks) => {
                pushing_in_step(
                    base,
                    item,
                    inside.drop_last(),
                    alone.drop_last(),
                    Frame::Item(add_text_to_item(blocks, words, style)),
                );
            },
            Frame::Root(_) | Frame::Quote(_) => {},
            _ => {
                texts_in_step(
                    base,
                    item,
                    inside.drop_last(),
                    alone.drop_last(),
                    words,
                    style,
                );
                pushing_in_step(
                    base,
                    item,
                    place_text(inside.drop_last(), words, style),
                    place_text(alone.drop_last(), words, style),
                    alone.last(),
                );
            },
        }
    }
}

proof fn events_in_step(base: Seq<Frame>, item: bool, inside: Reading, alone: Reading, e: Step)
    requires
        in_step(base, item, inside, alone),
        e matches Step::End(name) ==> opened(name) is Some ==> alone.stack.len() > 1,
        item && shows_words(e) ==> has_home(alone.stack) || (e is Text
            && alone.stack.last() is CodeBlock),
    ensures
        in_step(base, item, advance(inside, e), advance(alone, e)),
{
    names_differ();
    assert(stacks_in_step(base, item, inside.stack, alone.stack));
    match e {
        Step::Start(name) => match opened(name) {
            Some(frame) => {
                pushing_in_step(base, item, inside.stack, alone.stack, frame);
            },
            None => {},
        },
        Step::End(name) => {
            if opened(name) is Some {
                dropping_in_step(base, item, inside.stack, alone.stack);
                let ir = inside.stack.drop_last();
                let ar = alone.stack.drop_last();
                let top = alone.stack.last();
                match top {
                    Frame::Paragraph(spans) => {
                        blocks_in_step(base, item, ir, ar, Block::Paragraph(spans));
                    },
                    Frame::Heading(level, spans) => {
                        blocks_in_step(base, item, ir, ar, Block::Heading { level, spans });
                    },
                    Frame::CodeBlock(text) => {
                        blocks_in_step(base, item, ir, ar, Block::CodeBlock(code_text(text)));
                    },
                    Frame::Quote(bs) => {
                        blocks_in_step(base, item, ir, ar, Block::Quote(bs));
                    },
                    Frame::List { ordered, items } => {
                        blocks_in_step(base, item, ir, ar, Block::List { ordered, items });
                    },
                    Frame::Item(bs) => {
                        if ar.len() > 1 {
                            dropping_in_step(base, item, ir, ar);
                            if ar.last() is List {
                                pushing_in_step(
                                    base,
                                    item,
                                    ir.drop_last(),
                                    ar.drop_last(),
                                    Frame::List {
                                        ordered: ar.last()->ordered,
                                        items: ar.last()->items.push(bs),
                                    },
                                );
                            }
                        }
                    },
                    _ => {},
                }
            }
        },
        Step::Text(words) => {
            if alone.stack.len() > 1 {
                dropping_in_step(base, item, inside.stack, alone.stack);
                if alone.stack.last() is CodeBlock {
                    pushing_in_step(
                        base,
                        item,
                        inside.stack.drop_last(),
                        alone.stack.drop_last(),
                        Frame::CodeBlock(alone.stack.last()->CodeBlock_0 + words),
                    );
                } else {
                    texts_in_step(base, item, inside.stack, alone.stack, words, alone.style);
                }
            } else {
                texts_in_step(base, item, inside.stack, alone.stack, words, alone.style);
            }
        },
        Step::Code(words) => {
            texts_in_step(
                base,
                item,
                inside.stack,
                alone.stack,
                words,
                Style { code: true, ..alone.style },
            );
        },
        Step::SoftBreak | Step::HardBreak => {
            texts_in_step(base, item, inside.stack, alone.stack, " "@, alone.style);
        },
        Step::Rule => {
            blocks_in_step(base, item, inside.stack, alone.stack, Block::Rule);
        },
        _ => {},
    }
}

/// The event shows text.
pub open spec fn shows_words(e: Step) -> bool {
    e is Text || e is Code || e is SoftBreak || e is HardBreak
}

/// The events make up whole blocks: every element that starts ends, styles and links are closed, and
/// text stands inside an element.
pub open spec fn whole(inner: Seq<Step>) -> bool {
    &&& balanced(inner)
    &&& depth(inner) == 0
    &&& read(inner).style == no_style()
    &&& read(inner).links.len() == 0
    &&& forall|k: int|
        0 <= k < inner.len() && shows_words(#[trigger] inner[k]) ==> has_home(
            read(inner.take(k)).stack,
        ) || (inner[k] is Text && read(inner.take(k)).stack.last() is CodeBlock)
}

proof fn reading_in_step(head: Seq<Step>, item: bool, inner: Seq<Step>, n: int)
    requires
        whole(inner),
        0 <= n <= inner.len(),
        read(head).stack.len() > 0,
        read(head).stack.last() == (if item {
            Frame::Item(seq![])
        } else {
            Frame::Quote(seq![])
        }),
        read(head).style == no_style(),
        read(head).links.len() == 0,
    ensures
        in_step(
            read(head).stack.drop_last(),
            item,
            read(head + inner.take(n)),
            read(inner.take(n)),
        ),
    decreases n,
{
    let base = read(head).stack.drop_last();
    if n == 0 {
        assert(head + inner.take(0) =~= head);
        assert(inner.take(0) =~= seq![]);
        assert(read(head).stack.take(base.len() as int) =~= base);
        assert(read(head).links =~= seq![]);
    } else {
        reading_in_step(head, item, inner, n - 1);
        let e = inner[n - 1];
        assert((head + inner.take(n)).drop_last() =~= head + inner.take(n - 1));
        assert(inner.take(n).drop_last() =~= inner.take(n - 1));
        assert(depth(inner.take(n)) >= 0);
        let shorter = inner.take(n - 1);
        assert(balanced(shorter)) by {
            assert forall|k: int| 0 <= k <= shorter.len() implies depth(#[trigger] shorter.take(k))
                >= 0 by {
                assert(shorter.take(k) =~= inner.take(k));
            }
        }
        balanced_events_keep_the_document_open(shorter);
        events_in_step(base, item, read(head + shorter), read(shorter), e);
    }
}

/// A quote holds the document that its events make up.
pub proof fn a_quote_holds_a_document(head: Seq<Step>, name: Seq<char>, inner: Seq<Step>)
    requires
        between_blocks(head),
        read(head).style == no_style(),
        read(head).links.len() == 0,
        name.len() >= 11,
        name.take(11) == "BlockQuote("@,
        whole(inner),
    ensures
        document((head.push(Step::Start(name)) + inner).push(Step::End(name))) == document(
            head,
        ).push(Block::Quote(document(inner))),
{
    names_differ();
    reveal_strlit("BlockQuote(");
    reveal_strlit("Paragraph");
    reveal_strlit("CodeBlock");
    reveal_strlit("Heading(H1)");
    reveal_strlit("Heading(H2)");
    reveal_strlit("Heading(H3)");
    reveal_strlit("Heading(H4)");
    reveal_strlit("Heading(H5)");
    reveal_strlit("Heading(H6)");
    assert(name[0] == 'B') by {
        assert(name.take(11)[0] == 'B');
    }
    assert(opened(name) == Some(Frame::Quote(seq![])));
    let start = head.push(Step::Start(name));
    assert(start.drop_last() =~= head);
    reading_in_step(start, false, inner, inner.len() as int);
    assert(inner.take(inner.len() as int) =~= inner);
    balanced_events_keep_the_document_open(inner);
    let r = read(start + inner);
    assert(read(start).stack.drop_last() =~= read(head).stack);
    assert(r.stack.drop_last() =~= read(head).stack) by {
        assert(r.stack.take(1) =~= read(head).stack);
        assert(r.stack.drop_last() =~= r.stack.take(1));
    }
    assert(r.stack.last() == Frame::Quote(document(inner)));
    let full = (start + inner).push(Step::End(name));
    assert(full.drop_last() =~= start + inner);
    assert(document(full) =~= document(head).push(Block::Quote(document(inner))));
}

/// The events of the items of a list.
pub open spec fn item_events(items: Seq<Seq<Step>>) -> Seq<Step>
    decreases items.len(),
{
    if items.len() == 0 {
        seq![]
    } else {
        (item_events(items.drop_last()).push(Step::Start("Item"@)) + items.last()).push(
            Step::End("Item"@),
        )
    }
}

#[verifier::rlimit(40)]
proof fn one_item_is_collected(so_far: Seq<Step>, inner: Seq<Step>)
    requires
        read(so_far).stack.len() > 0,
        read(so_far).stack.last() is List,
        read(so_far).style == no_style(),
        read(so_far).links.len() == 0,
        whole(inner),
    ensures
        ({
            let r = read(
                (so_far.push(Step::Start("Item"@)) + inner).push(Step::End("Item"@)),
            );
            let list = read(so_far).stack;
            &&& r.stack == list.drop_last().push(
                Frame::List {
                    ordered: list.last()->ordered,
                    items: list.last()->items.push(document(inner)),
                },
            )
            &&& r.style == no_style()
            &&& r.links.len() == 0
        }),
{
    names_differ();
    let start = so_far.push(Step::Start("Item"@));
    assert(start.drop_last() =~= so_far);
    reading_in_step(start, true, inner, inner.len() as int);
    assert(inner.take(inner.len() as int) =~= inner);
    balanced_events_keep_the_document_open(inner);
    let r = read(start + inner);
    let list = read(so_far).stack;
    assert(read(start).stack.drop_last() =~= list);
    assert(r.stack.len() == list.len() + 1);
    assert(r.stack.drop_last() =~= list) by {
        assert(r.stack.drop_last() =~= r.stack.take(list.len() as int));
    }
    assert(r.stack.last() == Frame::Item(document(inner)));
    let full = (start + inner).push(Step::End("Item"@));
    assert(full.drop_last() =~= start + inner);
    assert(full.last() == Step::End("Item"@));
}

#[verifier::rlimit(40)]
proof fn items_are_collected(head: Seq<Step>, items: Seq<Seq<Step>>)
    requires
        read(head).stack.len() > 0,
        read(head).stack.last() is List,
        read(head).stack.last()->items.len() == 0,
        read(head).style == no_style(),
        read(head).links.len() == 0,
        forall|i: int| 0 <= i < items.len() ==> whole(#[trigger] items[i]),
    ensures
        ({
            let r = read(head + item_events(items));
            &&& r.stack == read(head).stack.drop_last().push(
                Frame::List {
                    ordered: read(head).stack.last()->ordered,
                    items: items.map_values(|e: Seq<Step>| document(e)),
                },
            )
            &&& r.style == no_style()
            &&& r.links.len() == 0
        }),
    decreases items.len(),
{
    names_differ();
    let f = |e: Seq<Step>| document(e);
    if items.len() == 0 {
        assert(head + item_events(items) =~= head);
        assert(items.map_values(f) =~= seq![]);
        assert(read(head).stack.last()->items =~= seq![]);
        assert(read(head).stack =~= read(head).stack.drop_last().push(read(head).stack.last()));
    } else {
        let before = items.drop_last();
        let inner = items.last();
        assert forall|i: int| 0 <= i < before.len() implies whole(#[trigger] before[i]) by {
            assert(before[i] == items[i]);
        }
        items_are_collected(head, before);
        assert(whole(items[items.len() - 1]));
        let so_far = head + item_events(before);
        one_item_is_collected(so_far, inner);
        let list = read(so_far).stack;
        let full = (so_far.push(Step::Start("Item"@)) + inner).push(Step::End("Item"@));
        assert(head + item_events(items) =~= full);
        assert(items.map_values(f) =~= before.map_values(f).push(document(inner)));
        assert(list.drop_last() =~= read(head).stack.drop_last());
    }
}

/// A list is numbered or not as it says, and holds its items in order, each of them the document that
/// its events make up.
pub proof fn a_list_holds_its_items(head: Seq<Step>, ordered: bool, items: Seq<Seq<Step>>)
    requires
        between_blocks(head),
        read(head).style == no_style(),
        read(head).links.len() == 0,
        forall|i: int| 0 <= i < items.len() ==> whole(#[trigger] items[i]),
    ensures
        ({
            let name = if ordered {
                "List(true)"@
            } else {
                "List(false)"@
            };
            document((head.push(Step::Start(name)) + item_events(items)).push(Step::End(name)))
                == document(head).push(
                Block::List { ordered, items: items.map_values(|e: Seq<Step>| document(e)) },
            )
        }),
{
    names_differ();
    let name = if ordered {
        "List(true)"@
    } else {
        "List(false)"@
    };
    let start = head.push(Step::Start(name));
    assert(start.drop_last() =~= head);
    assert(read(start).stack.drop_last() =~= read(head).stack);
    items_are_collected(start, items);
    let inside = start + item_events(items);
    let full = inside.push(Step::End(name));
    assert(full.drop_last() =~= inside);
    assert(read(inside).stack.drop_last() =~= read(head).stack);
    assert(document(full) =~= document(head).push(
        Block::List { ordered, items: items.map_values(|e: Seq<Step>| document(e)) },
    ));
}

/// The blocks of an item whose text stands directly in it.
spec fn only_line(blocks: Seq<Block>) -> bool {
    blocks.len() == 0 || (blocks.len() == 1 && blocks[0] is Paragraph)
}

spec fn line_in(blocks: Seq<Block>) -> Seq<Span> {
    if blocks.len() == 1 && blocks[0] is Paragraph {
        blocks[0]->Paragraph_0
    } else {
        seq![]
    }
}

proof fn item_words_are_added(head: Seq<Step>, inner: Seq<Step>)
    requires
        all_inline(inner),
        read(head).stack.len() > 0,
        read(head).stack.last() == Frame::Item(seq![]),
    ensures
        ({
            let r = read(head + inner);
            let blocks = r.stack.last()->Item_0;
            &&& r.stack.len() == read(head).stack.len()
            &&& r.stack.drop_last() == read(head).stack.drop_last()
            &&& r.stack.last() is Item
            &&& only_line(blocks)
            &&& blocks.len() == 0 <==> all_words(inner).len() == 0
            &&& tidy(line_in(blocks))
            &&& joined(line_in(blocks)) == all_words(inner)
            &&& styled(line_in(blocks)) == styled_words(head, inner)
        }),
    decreases inner.len(),
{
    names_differ();
    reveal_strlit(" ");
    if inner.len() == 0 {
        assert(head + inner =~= head);
        assert(styled(seq![]) =~= seq![]);
    } else {
        let before = inner.drop_last();
        assert forall|i: int| 0 <= i < before.len() implies is_inline(#[trigger] before[i]) by {
            assert(before[i] == inner[i]);
        }
        item_words_are_added(head, before);
        let e = inner.last();
        assert(is_inline(inner[inner.len() - 1]));
        let r = read(head + before);
        assert((head + inner).drop_last() =~= head + before);
        let after = advance(r, e);
        let blocks = r.stack.last()->Item_0;
        let line = line_in(blocks);
        let words = wording(e);
        let style = wording_style(e, r.style);
        assert(" "@ =~= seq![' ']);
        if words.len() > 0 {
            added_text_is_shown(line, words, style);
            assert(e !is Code ==> style == r.style);
            assert(e is Code ==> style == Style { code: true, ..r.style });
            assert(after.stack.drop_last() =~= r.stack.drop_last());
            let now = after.stack.last()->Item_0;
            assert(now =~= seq![Block::Paragraph(add_text(line, words, style))]);
        } else {
            assert(after.stack == r.stack);
            assert(styled(line) + words.map_values(|c: char| (c, style)) =~= styled(line));
            assert(joined(line) + words =~= joined(line));
        }
    }
}

/// Text that stands directly in an item of a list makes up one paragraph of it, which shows the words
/// as any other paragraph does.
pub proof fn an_item_shows_its_words(head: Seq<Step>, ordered: bool, inner: Seq<Step>)
    requires
        between_blocks(head),
        all_inline(inner),
        all_words(inner).len() > 0,
    ensures
        ({
            let name = if ordered {
                "List(true)"@
            } else {
                "List(false)"@
            };
            let start = head.push(Step::Start(name)).push(Step::Start("Item"@));
            let blocks = document(
                (start + inner).push(Step::End("Item"@)).push(Step::End(name)),
            );
            &&& blocks.len() == document(head).len() + 1
            &&& blocks.drop_last() == document(head)
            &&& blocks.last() matches Block::List { ordered: o, items } && o == ordered
                && items.len() == 1 && items[0].len() == 1 && (items[0][0] matches Block::Paragraph(
                spans,
            ) && joined(spans) == all_words(inner) && styled(spans) == styled_words(start, inner)
                && tidy(spans))
        }),
{
    names_differ();
    let name = if ordered {
        "List(true)"@
    } else {
        "List(false)"@
    };
    let list = head.push(Step::Start(name));
    let start = list.push(Step::Start("Item"@));
    assert(list.drop_last() =~= head);
    assert(start.drop_last() =~= list);
    item_words_are_added(start, inner);
    let r = read(start + inner);
    let blocks = r.stack.last()->Item_0;
    assert(read(start).stack.drop_last() =~= read(list).stack);
    let closed_item = (start + inner).push(Step::End("Item"@));
    assert(closed_item.drop_last() =~= start + inner);
    assert(read(list).stack.drop_last() =~= read(head).stack);
    assert(read(closed_item).stack =~= read(head).stack.push(
        Frame::List { ordered, items: seq![blocks] },
    ));
    let full = closed_item.push(Step::End(name));
    assert(full.drop_last() =~= closed_item);
    assert(read(closed_item).stack.drop_last() =~= read(head).stack);
    assert(document(full) =~= document(head).push(Block::List { ordered, items: seq![blocks] }));
    assert(document(full).drop_last() =~= document(head));
}

/// The marker of a list item: its number, or a bullet.
pub open spec fn marker_text(ordered: bool, index: nat) -> Seq<char> {
    if ordered {
        text::decimal(index + 1) + "."@
    } else {
        "•"@
    }
}

/// The marker of the list item at `index`.
pub fn list_marker(ordered: bool, index: usize) -> (r: String)
    requires
        index < usize::MAX,
    ensures
        r@ == marker_text(ordered, index as nat),
{
    if ordered {
        let mut r: String = text::decimal_text((index + 1) as u64);
        r.append(".");
        r
    } else {
        "•".to_owned()
    }
}

/// How many points larger than the base a heading is set.
pub fn heading_size_step(level: u8) -> (r: u8)
    ensures
        r == (if level == 1 {
            7u8
        } else if level == 2 {
            4u8
        } else if level == 3 {
            2u8
        } else {
            1u8
        }),
{
    if level == 1 {
        7
    } else if level == 2 {
        4
    } else if level == 3 {
        2
    } else {
        1
    }
}

/// What a span changes about the text it covers; colours are packed as 0xRRGGBB.
#[derive(Clone, Copy, Debug, PartialEq, Eq, Structural)]
pub struct Highlight {
    pub bold: bool,
    pub italic: bool,
    pub strikethrough: Option<u32>,
    pub background: Option<u32>,
    pub color: Option<u32>,
    pub underline: Option<u32>,
}

/// The colours that inline text uses.
#[derive(Clone, Copy, Debug, PartialEq, Eq, Structural)]
pub struct InlineColors {
    pub text: u32,
    pub muted: u32,
    pub accent: u32,
    pub panel_alt: u32,
}

/// A highlight over a byte range of the text.
#[derive(Clone, Copy, Debug, PartialEq, Eq, Structural)]
pub struct HighlightRange {
    pub start: usize,
    pub end: usize,
    pub highlight: Highlight,
}

/// A link over a byte range of the text.
#[derive(Clone, Debug, PartialEq, Eq)]
pub struct LinkRange {
    pub start: usize,
    pub end: usize,
    pub url: String,
}

/// Inline spans as one text with ranges.
#[derive(Clone, Debug, PartialEq, Eq)]
pub struct InlineText {
    pub text: String,
    pub highlights: Vec<HighlightRange>,
    pub links: Vec<LinkRange>,
}

/// A range of bytes and a link destination.
pub struct LinkSpot {
    pub start: int,
    pub end: int,
    pub url: Seq<char>,
}

pub open spec fn link_spots(v: Seq<LinkRange>) -> Seq<LinkSpot> {
    v.map_values(
        |l: LinkRange| LinkSpot { start: l.start as int, end: l.end as int, url: l.url@ },
    )
}

/// What a style changes. A link's colour wins over that of code.
pub open spec fn highlight_of(s: Style, c: InlineColors) -> Highlight {
    Highlight {
        bold: s.bold,
        italic: s.italic,
        strikethrough: if s.strikethrough {
            Some(c.muted)
        } else {
            None
        },
        background: if s.code {
            Some(c.panel_alt)
        } else {
            None
        },
        color: if s.link is Some {
            Some(c.accent)
        } else if s.code {
            Some(c.text)
        } else {
            None
        },
        underline: if s.link is Some {
            Some(c.accent)
        } else {
            None
        },
    }
}

/// The text of the spans, one behind the other.
pub open spec fn joined(spans: Seq<Span>) -> Seq<char>
    decreases spans.len(),
{
    if spans.len() == 0 {
        seq![]
    } else {
        joined(spans.drop_last()) + spans.last().text
    }
}

/// How many bytes the text of the spans takes.
pub open spec fn byte_length(spans: Seq<Span>) -> int {
    encode_utf8(joined(spans)).len() as int
}

/// The highlighted ranges: one for each span whose style changes anything.
pub open spec fn highlight_ranges(spans: Seq<Span>, c: InlineColors) -> Seq<(int, int, Highlight)>
    decreases spans.len(),
{
    if spans.len() == 0 {
        seq![]
    } else {
        let head = highlight_ranges(spans.drop_last(), c);
        let h = highlight_of(spans.last().style, c);
        if spans.last().style == no_style() {
            head
        } else {
            head.push((byte_length(spans.drop_last()), byte_length(spans), h))
        }
    }
}

/// The link ranges: one for each span that is a link.
pub open spec fn link_ranges(spans: Seq<Span>) -> Seq<LinkSpot>
    decreases spans.len(),
{
    if spans.len() == 0 {
        seq![]
    } else {
        let head = link_ranges(spans.drop_last());
        match spans.last().style.link {
            Some(url) => head.push(
                LinkSpot {
                    start: byte_length(spans.drop_last()),
                    end: byte_length(spans),
                    url,
                },
            ),
            None => head,
        }
    }
}

pub open spec fn highlight_spots(v: Seq<HighlightRange>) -> Seq<(int, int, Highlight)> {
    v.map_values(|h: HighlightRange| (h.start as int, h.end as int, h.highlight))
}

/// The spans as one text, with what is highlighted and what is linked where.
pub fn inline_text(spans: &[MdSpan], colors: InlineColors) -> (r: InlineText)
    ensures
        r.text@ == joined(spans_view(spans@)),
        highlight_spots(r.highlights@) == highlight_ranges(spans_view(spans@), colors),
        link_spots(r.links@) == link_ranges(spans_view(spans@)),
{
    let mut out: String = String::new();
    let mut highlights: Vec<HighlightRange> = Vec::new();
    let mut links: Vec<LinkRange> = Vec::new();
    let mut i: usize = 0;
    let ghost ss = spans_view(spans@);
    assert(ss.take(0) =~= seq![]);
    assert(highlight_spots(highlights@) =~= seq![]);
    assert(link_spots(links@) =~= seq![]);
    while i < spans.len()
        invariant
            i <= spans@.len(),
            ss == spans_view(spans@),
            out@ == joined(ss.take(i as int)),
            highlight_spots(highlights@) == highlight_ranges(ss.take(i as int), colors),
            link_spots(links@) == link_ranges(ss.take(i as int)),
        decreases spans@.len() - i,
    {
        let ghost now = ss.take(i + 1);
        assert(now.drop_last() =~= ss.take(i as int));
        assert(now.last() == ss[i as int]);
        let start: usize = out.as_str().as_bytes().len();
        out.append(spans[i].text.as_str());
        let end: usize = out.as_str().as_bytes().len();
        let s: &SpanStyle = &spans[i].style;
        let ghost before_links = links@;
        let ghost before_highlights = highlights@;
        match &s.link {
            Some(url) => {
                links.push(LinkRange { start, end, url: url.clone() });
                assert(link_spots(links@) =~= link_spots(before_links).push(
                    LinkSpot { start: start as int, end: end as int, url: url@ },
                ));
            },
            None => {},
        }
        let linked: bool = s.link.is_some();
        let highlight: Highlight = Highlight {
            bold: s.bold,
            italic: s.italic,
            strikethrough: if s.strikethrough {
                Some(colors.muted)
            } else {
                None
            },
            background: if s.code {
                Some(colors.panel_alt)
            } else {
                None
            },
            color: if linked {
                Some(colors.accent)
            } else if s.code {
                Some(colors.text)
            } else {
                None
            },
            underline: if linked {
                Some(colors.accent)
            } else {
                None
            },
        };
        if s.bold || s.italic || s.strikethrough || s.code || linked {
            highlights.push(HighlightRange { start, end, highlight });
            assert(highlight_spots(highlights@) =~= highlight_spots(before_highlights).push(
                (start as int, end as int, highlight),
            ));
        }
        i = i + 1;
    }
    assert(ss.take(i as int) =~= ss);
    InlineText { text: out, highlights, links }
}

/// Spans are told by their text and all of their style, and events by their kind and what they carry.
pub proof fn spans_are_told_by_their_parts(s: MdSpan, e: MdEvent)
    ensures
        span_view(s).text == s.text@,
        span_view(s).style.bold == s.style.bold,
        span_view(s).style.italic == s.style.italic,
        span_view(s).style.strikethrough == s.style.strikethrough,
        span_view(s).style.code == s.style.code,
        s.style.link is None <==> span_view(s).style.link is None,
        s.style.link matches Some(url) ==> span_view(s).style.link == Some(url@),
        e matches MdEvent::Link(t) ==> step_view(e) == Step::Link(t@),
        e matches MdEvent::Start(t) ==> step_view(e) == Step::Start(t@),
        e matches MdEvent::End(t) ==> step_view(e) == Step::End(t@),
        e matches MdEvent::Text(t) ==> step_view(e) == Step::Text(t@),
        e matches MdEvent::Code(t) ==> step_view(e) == Step::Code(t@),
        e is SoftBreak ==> step_view(e) == Step::SoftBreak,
        e is HardBreak ==> step_view(e) == Step::HardBreak,
        e is Rule ==> step_view(e) == Step::Rule,
        e matches MdEvent::Other(t) ==> step_view(e) == Step::Other(t@),
{
}

/// Blocks are told by their kind and all that they hold.
pub proof fn blocks_are_told_by_their_parts(b: MdBlock)
    ensures
        b matches MdBlock::Heading { level, spans } ==> block_view(b) == (Block::Heading {
            level,
            spans: spans_view(spans@),
        }),
        b matches MdBlock::Paragraph(spans) ==> block_view(b) == Block::Paragraph(
            spans_view(spans@),
        ),
        b matches MdBlock::CodeBlock { text } ==> block_view(b) == Block::CodeBlock(text@),
        b matches MdBlock::List { ordered, items } ==> block_view(b) == (Block::List {
            ordered,
            items: items_view(items@),
        }),
        b matches MdBlock::Quote(blocks) ==> block_view(b) == Block::Quote(blocks_view(blocks@)),
        b is Rule <==> block_view(b) is Rule,
{
}

/// Blocks and items are told in order.
pub proof fn blocks_are_told_in_order(s: Seq<MdBlock>, t: Seq<Vec<MdBlock>>, k: int)
    ensures
        blocks_view(s).len() == s.len(),
        0 <= k < s.len() ==> blocks_view(s)[k] == block_view(s[k]),
        items_view(t).len() == t.len(),
        0 <= k < t.len() ==> items_view(t)[k] == blocks_view(t[k]@),
{
    blocks_keep_their_order(s, k);
    items_keep_their_order(t, k);
}

proof fn blocks_keep_their_order(s: Seq<MdBlock>, k: int)
    ensures
        blocks_view(s).len() == s.len(),
        0 <= k < s.len() ==> blocks_view(s)[k] == block_view(s[k]),
    decreases s.len(),
{
    if s.len() > 0 {
        blocks_keep_their_order(s.drop_last(), k);
    }
}

proof fn items_keep_their_order(t: Seq<Vec<MdBlock>>, k: int)
    ensures
        items_view(t).len() == t.len(),
        0 <= k < t.len() ==> items_view(t)[k] == blocks_view(t[k]@),
    decreases t.len(),
{
    if t.len() > 0 {
        items_keep_their_order(t.drop_last(), k);
    }
}

/// Words that stand in no block are not shown, and what is of no known kind changes nothing.
pub proof fn words_outside_of_blocks_are_not_shown(head: Seq<Step>, e: Step, other: Seq<char>)
    requires
        between_blocks(head),
        shows_words(e),
    ensures
        document(head.push(e)) == document(head),
        between_blocks(head.push(e)),
        read(head.push(Step::Other(other))) == read(head),
{
    assert(head.push(e).drop_last() =~= head);
    assert(head.push(e).last() == e);
    assert(head.push(Step::Other(other)).drop_last() =~= head);
    assert(head.push(Step::Other(other)).last() == Step::Other(other));
}

/// The items of a numbered list have their numbers, from one on; the others a bullet.
pub proof fn items_have_their_markers(index: nat)
    ensures
        text::number_of(marker_text(true, index).drop_last()) == index + 1,
        marker_text(true, index).last() == '.',
        marker_text(false, index) == seq!['•'],
{
    reveal_strlit(".");
    reveal_strlit("•");
    text::a_decimal_form_reads_as_its_number(index + 1);
    assert(marker_text(true, index).drop_last() =~= text::decimal(index + 1));
    assert("•"@ =~= seq!['•']);
}

/// A link is drawn in the accent and underlined; code on the other background; what is struck through with
/// a muted line; and what is none of these in the color of the text around it.
pub proof fn styles_are_drawn_in_their_colors(s: Style, c: InlineColors)
    ensures
        highlight_of(s, c).bold == s.bold,
        highlight_of(s, c).italic == s.italic,
        s.strikethrough ==> highlight_of(s, c).strikethrough == Some(c.muted),
        !s.strikethrough ==> highlight_of(s, c).strikethrough is None,
        s.code ==> highlight_of(s, c).background == Some(c.panel_alt),
        !s.code ==> highlight_of(s, c).background is None,
        s.link is Some ==> highlight_of(s, c).color == Some(c.accent) && highlight_of(
            s,
            c,
        ).underline == Some(c.accent),
        s.link is None && s.code ==> highlight_of(s, c).color == Some(c.text),
        s.link is None && !s.code ==> highlight_of(s, c).color is None,
        s.link is None ==> highlight_of(s, c).underline is None,
{
}

/// The text of a line is that of its spans, one behind the other; where a span stands is counted in bytes.
pub proof fn spans_stand_one_behind_the_other(spans: Seq<Span>, s: Span)
    ensures
        joined(seq![]).len() == 0,
        joined(spans.push(s)) == joined(spans) + s.text,
        byte_length(spans) == encode_utf8(joined(spans)).len(),
{
    assert(spans.push(s).drop_last() =~= spans);
    assert(spans.push(s).last() == s);
}

/// A span with a style is highlighted from its first byte to its last, and one without is not; a span that
/// is part of a link leads there.
pub proof fn styled_spans_are_highlighted(spans: Seq<Span>, s: Span, c: InlineColors)
    ensures
        highlight_ranges(seq![], c).len() == 0,
        link_ranges(seq![]).len() == 0,
        !s.style.bold && !s.style.italic && !s.style.strikethrough && !s.style.code && s.style.link
            is None ==> highlight_ranges(spans.push(s), c) == highlight_ranges(spans, c),
        s.style.bold || s.style.italic || s.style.strikethrough || s.style.code || s.style.link
            is Some ==> highlight_ranges(spans.push(s), c) == highlight_ranges(spans, c).push(
            (
                encode_utf8(joined(spans)).len() as int,
                encode_utf8(joined(spans) + s.text).len() as int,
                highlight_of(s.style, c),
            ),
        ),
        s.style.link is None ==> link_ranges(spans.push(s)) == link_ranges(spans),
        s.style.link matches Some(url) ==> link_ranges(spans.push(s)) == link_ranges(spans).push(
            LinkSpot {
                start: encode_utf8(joined(spans)).len() as int,
                end: encode_utf8(joined(spans) + s.text).len() as int,
                url,
            },
        ),
{
    assert(spans.push(s).drop_last() =~= spans);
    assert(spans.push(s).last() == s);
}

/// Highlights and links are told by where they stand and what they are.
pub proof fn ranges_are_told_by_their_parts(v: Seq<LinkRange>, w: Seq<HighlightRange>, k: int)
    ensures
        link_spots(v).len() == v.len(),
        0 <= k < v.len() ==> link_spots(v)[k].start == v[k].start && link_spots(v)[k].end == v[k].end
            && link_spots(v)[k].url == v[k].url@,
        highlight_spots(w).len() == w.len(),
        0 <= k < w.len() ==> highlight_spots(w)[k] == (
            w[k].start as int,
            w[k].end as int,
            w[k].highlight,
        ),
{
}

/// Texts are told in order.
pub proof fn texts_are_told_in_order(s: Seq<String>, k: int)
    requires
        0 <= k < s.len(),
    ensures
        texts(s).len() == s.len(),
        texts(s)[k] == s[k]@,
{
}

} // verus!
