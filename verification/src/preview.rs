//! The sample of a theme that the browser shows: its name, its palette, a piece of code, a prompt
//! and a text, all in the colors of the theme.

use vstd::prelude::*;

use crate::colors;
use crate::colors::find_word;
use crate::text;
use crate::text::{chars_of, text_eq, text_of};
use crate::themes::TerminalTheme;
use crate::tui;
use crate::tui::{palette_color, palette_label, Area};

verus! {

/// A piece of text in one style, on the background of the theme.
#[derive(Clone, Debug, PartialEq, Eq)]
pub struct Span {
    /// The text.
    pub text: String,
    /// The color of the text.
    pub fg: u32,
    /// Bold.
    pub bold: bool,
    /// Italic.
    pub italic: bool,
    /// Underlined.
    pub underlined: bool,
}

/// A piece of text, as a sequence of characters.
#[verifier::ext_equal]
pub struct SpanView {
    /// The text.
    pub text: Seq<char>,
    /// The color of the text.
    pub fg: u32,
    /// Bold.
    pub bold: bool,
    /// Italic.
    pub italic: bool,
    /// Underlined.
    pub underlined: bool,
}

impl Span {
    /// The text as a sequence of characters.
    pub open spec fn model(&self) -> SpanView {
        SpanView {
            text: self.text@,
            fg: self.fg,
            bold: self.bold,
            italic: self.italic,
            underlined: self.underlined,
        }
    }
}

/// The pieces of a line.
pub open spec fn span_views(spans: Seq<Span>) -> Seq<SpanView> {
    spans.map_values(|s: Span| s.model())
}

/// Plain text.
pub open spec fn plain(text: Seq<char>, fg: u32) -> SpanView {
    SpanView { text, fg, bold: false, italic: false, underlined: false }
}

/// Something to draw. Each is cut off at the right edge of the sample.
#[derive(Clone, Debug, PartialEq, Eq)]
pub enum Item {
    /// Pieces of text, one behind the other.
    Line {
        /// The column of the first.
        x: u32,
        /// The row.
        y: u32,
        /// The pieces.
        spans: Vec<Span>,
    },
    /// A rule: seven dashes, a joint, and dashes up to the right edge.
    Rule {
        /// The first column.
        x: u32,
        /// The row.
        y: u32,
        /// The joint.
        joint: char,
        /// The color.
        fg: u32,
    },
}

/// Something to draw, its texts as sequences of characters.
#[verifier::ext_equal]
pub enum ItemView {
    /// Pieces of text.
    Line {
        /// The column of the first.
        x: int,
        /// The row.
        y: int,
        /// The pieces.
        spans: Seq<SpanView>,
    },
    /// A rule.
    Rule {
        /// The first column.
        x: int,
        /// The row.
        y: int,
        /// The joint.
        joint: char,
        /// The color.
        fg: u32,
    },
}

impl Item {
    /// The texts as sequences of characters.
    pub open spec fn model(&self) -> ItemView {
        match *self {
            Item::Line { x, y, spans } => ItemView::Line {
                x: x as int,
                y: y as int,
                spans: span_views(spans@),
            },
            Item::Rule { x, y, joint, fg } => ItemView::Rule {
                x: x as int,
                y: y as int,
                joint,
                fg,
            },
        }
    }
}

/// What is drawn.
pub open spec fn item_views(items: Seq<Item>) -> Seq<ItemView> {
    items.map_values(|i: Item| i.model())
}

/// One piece of plain text.
pub open spec fn word(x: int, y: int, text: Seq<char>, fg: u32) -> ItemView {
    ItemView::Line { x, y, spans: seq![plain(text, fg)] }
}

fn push_span(spans: &mut Vec<Span>, text: &str, fg: u32)
    ensures
        span_views(final(spans)@) == span_views(old(spans)@).push(plain(text@, fg)),
{
    spans.push(Span { text: text.to_owned(), fg, bold: false, italic: false, underlined: false });
    assert(span_views(spans@) =~= span_views(old(spans)@).push(plain(text@, fg)));
}

fn push_marked(spans: &mut Vec<Span>, text: &str, fg: u32, bold: bool, underlined: bool)
    ensures
        span_views(final(spans)@) == span_views(old(spans)@).push(
            (SpanView { text: text@, fg, bold, italic: false, underlined }),
        ),
{
    let ghost k = SpanView { text: text@, fg, bold, italic: false, underlined };
    spans.push(Span { text: text.to_owned(), fg, bold, italic: false, underlined });
    assert(span_views(spans@) =~= span_views(old(spans)@).push(k));
}

fn push_item(items: &mut Vec<Item>, item: Item)
    ensures
        item_views(final(items)@) == item_views(old(items)@).push(item.model()),
{
    let ghost k = item.model();
    items.push(item);
    assert(item_views(items@) =~= item_views(old(items)@).push(k));
}

fn push_line(items: &mut Vec<Item>, x: u32, y: u32, spans: Vec<Span>)
    ensures
        item_views(final(items)@) == item_views(old(items)@).push(
            (ItemView::Line { x: x as int, y: y as int, spans: span_views(spans@) }),
        ),
{
    push_item(items, Item::Line { x, y, spans });
}

fn push_word(items: &mut Vec<Item>, x: u32, y: u32, text: &str, fg: u32)
    ensures
        item_views(final(items)@) == item_views(old(items)@).push(
            word(x as int, y as int, text@, fg),
        ),
{
    let mut spans: Vec<Span> = Vec::new();
    push_span(&mut spans, text, fg);
    assert(span_views(spans@) =~= seq![plain(text@, fg)]);
    push_line(items, x, y, spans);
}

/// The name of the theme, in the middle of the second row.
pub open spec fn title(theme: TerminalTheme, area: Area) -> ItemView {
    let name_width = theme.name@.len() as int % 65536;
    let free = if area.width >= name_width {
        area.width - name_width
    } else {
        0
    };
    ItemView::Line {
        x: area.x + free / 2,
        y: area.y + 1,
        spans: seq![
            SpanView {
                text: theme.name@,
                fg: theme.foreground,
                bold: true,
                italic: true,
                underlined: false,
            },
        ],
    }
}

fn push_title(items: &mut Vec<Item>, theme: &TerminalTheme, area: Area)
    ensures
        item_views(final(items)@) == item_views(old(items)@).push(title(*theme, area)),
{
    let name_width: u32 = (chars_of(theme.name.as_str()).len() % 65536) as u32;
    let width: u32 = area.width as u32;
    let free: u32 = if width >= name_width {
        width - name_width
    } else {
        0
    };
    let span: Span = Span {
        text: theme.name.clone(),
        fg: theme.foreground,
        bold: true,
        italic: true,
        underlined: false,
    };
    let spans: Vec<Span> = vec![span];
    assert(span_views(spans@) =~= title(*theme, area)->Line_spans);
    push_line(items, area.x as u32 + free / 2, area.y as u32 + 1, spans);
}

/// A color of the palette: its number, and a swatch two rows high.
pub open spec fn swatch(theme: TerminalTheme, area: Area, hex: bool, i: int) -> Seq<ItemView> {
    let x = area.x + i % 8 * 8;
    let y = area.y + 4 + i / 8 * 3;
    let fg = tui::indexed_color(theme, i);
    seq![
        word(x, y, tui::label(i as nat, hex), theme.foreground),
        word(x + 4, y, "████"@, fg),
        word(x + 4, y + 1, "████"@, fg),
    ]
}

/// The first `n` colors of the palette, eight to a row.
pub open spec fn swatches(theme: TerminalTheme, area: Area, hex: bool, n: int) -> Seq<ItemView>
    decreases n,
{
    if n <= 0 {
        seq![]
    } else {
        swatches(theme, area, hex, n - 1) + swatch(theme, area, hex, n - 1)
    }
}

fn push_swatches(items: &mut Vec<Item>, theme: &TerminalTheme, area: Area, hex: bool)
    ensures
        item_views(final(items)@) == item_views(old(items)@) + swatches(*theme, area, hex, 16),
{
    let mut i: u32 = 0;
    assert(item_views(items@) =~= item_views(old(items)@) + swatches(*theme, area, hex, 0));
    while i < 16
        invariant
            i <= 16,
            item_views(items@) == item_views(old(items)@) + swatches(*theme, area, hex, i as int),
        decreases 16 - i,
    {
        let ghost had = item_views(items@);
        let x: u32 = area.x as u32 + i % 8 * 8;
        let y: u32 = area.y as u32 + 4 + i / 8 * 3;
        let number: String = palette_label(i as usize, hex);
        let fg: u32 = palette_color(theme, i as usize);
        push_word(items, x, y, number.as_str(), theme.foreground);
        push_word(items, x + 4, y, "████", fg);
        push_word(items, x + 4, y + 1, "████", fg);
        assert(item_views(items@) =~= had + swatch(*theme, area, hex, i as int));
        assert(item_views(items@) =~= item_views(old(items)@) + swatches(
            *theme,
            area,
            hex,
            i + 1,
        ));
        i = i + 1;
    }
}

/// A kind of token in the sample, which decides its color.
#[derive(Clone, Copy, Debug, PartialEq, Eq, Structural)]
pub enum Tok {
    /// Plain text and punctuation.
    Std,
    /// A keyword.
    Kw,
    /// The name of a type.
    Type,
    /// An operator.
    Op,
    /// A number.
    Num,
    /// A string.
    Str,
    /// A comment.
    Comment,
    /// Line numbers and rules.
    Grid,
}

/// The color of a kind of token.
pub open spec fn token_color(theme: TerminalTheme, tok: Tok) -> u32 {
    match tok {
        Tok::Std => theme.foreground,
        Tok::Kw => tui::indexed_color(theme, 6),
        Tok::Type => tui::indexed_color(theme, 2),
        Tok::Op => tui::indexed_color(theme, 5),
        Tok::Num => tui::indexed_color(theme, 4),
        Tok::Str => tui::indexed_color(theme, 3),
        Tok::Comment | Tok::Grid => tui::indexed_color(theme, 238),
    }
}

impl Tok {
    /// The color of a kind of token.
    pub fn color(self, theme: &TerminalTheme) -> (r: u32)
        ensures
            r == token_color(*theme, self),
    {
        match self {
            Tok::Std => theme.foreground,
            Tok::Kw => palette_color(theme, 6),
            Tok::Type => palette_color(theme, 2),
            Tok::Op => palette_color(theme, 5),
            Tok::Num => palette_color(theme, 4),
            Tok::Str => palette_color(theme, 3),
            Tok::Comment | Tok::Grid => palette_color(theme, 238),
        }
    }
}

/// How many lines the sample has.
pub const CODE_LINE_COUNT: usize = 12;

/// The tokens of line `i` of the sample, counted from zero.
pub open spec fn code_tokens(i: int) -> Seq<(Seq<char>, Tok)> {
    if i == 0 {
        seq![
            ("type"@, Tok::Kw), (" "@, Tok::Std), ("Fibonacci"@, Tok::Type), ("<"@, Tok::Std),
        ]
    } else if i == 1 {
        seq![
            ("  "@, Tok::Std), ("T"@, Tok::Type), (" "@, Tok::Std), ("extends"@, Tok::Op),
            (" "@, Tok::Std), ("number"@, Tok::Type), (","@, Tok::Std),
        ]
    } else if i == 2 {
        seq![
            ("  "@, Tok::Std), ("No"@, Tok::Type), (" "@, Tok::Std), ("extends"@, Tok::Op),
            (" "@, Tok::Std), ("1"@, Tok::Num), ("[] = ["@, Tok::Std), ("1"@, Tok::Num),
            (", "@, Tok::Std), ("1"@, Tok::Num), (", "@, Tok::Std), ("1"@, Tok::Num),
            ("],"@, Tok::Std),
        ]
    } else if i == 3 {
        seq![
            ("  "@, Tok::Std), ("N_2"@, Tok::Type), (" "@, Tok::Std), ("extends"@, Tok::Op),
            (" "@, Tok::Std), ("1"@, Tok::Num), ("[] = ["@, Tok::Std), ("1"@, Tok::Num),
            ("],"@, Tok::Std),
        ]
    } else if i == 4 {
        seq![
            ("  "@, Tok::Std), ("N_1"@, Tok::Type), (" "@, Tok::Std), ("extends"@, Tok::Op),
            (" "@, Tok::Std), ("1"@, Tok::Num), ("[] = ["@, Tok::Std), ("1"@, Tok::Num),
            ("]"@, Tok::Std),
        ]
    } else if i == 5 {
        seq![
            ("> "@, Tok::Std), ("="@, Tok::Op), (" "@, Tok::Std), ("T"@, Tok::Type),
            (" "@, Tok::Std), ("extends"@, Tok::Op), (" "@, Tok::Std), ("1"@, Tok::Num),
            (" "@, Tok::Std), ("|"@, Tok::Op), (" "@, Tok::Std), ("2"@, Tok::Num),
        ]
    } else if i == 6 {
        seq![
            ("  "@, Tok::Std), ("?"@, Tok::Op), (" "@, Tok::Std), ("1"@, Tok::Num),
        ]
    } else if i == 7 {
        seq![
            ("  "@, Tok::Std), (":"@, Tok::Op), (" "@, Tok::Std), ("T"@, Tok::Type),
            (" "@, Tok::Std), ("extends"@, Tok::Op), (" "@, Tok::Std), ("No"@, Tok::Type),
            ("["@, Tok::Std), ("'length'"@, Tok::Str), ("]"@, Tok::Std),
        ]
    } else if i == 8 {
        seq![
            ("  "@, Tok::Std), ("?"@, Tok::Op), (" ["@, Tok::Std), ("..."@, Tok::Op),
            ("N_2"@, Tok::Type), (", "@, Tok::Std), ("..."@, Tok::Op), ("N_1"@, Tok::Type),
            ("]["@, Tok::Std), ("'length'"@, Tok::Str), ("]"@, Tok::Std),
        ]
    } else if i == 9 {
        seq![
            ("  "@, Tok::Std), (":"@, Tok::Op), (" "@, Tok::Std), ("Fibonacci"@, Tok::Type),
            ("<"@, Tok::Std), ("T"@, Tok::Type), (", ["@, Tok::Std), ("..."@, Tok::Op),
            ("No"@, Tok::Type), (", "@, Tok::Std), ("1"@, Tok::Num), ("], "@, Tok::Std),
            ("N_1"@, Tok::Type), (", ["@, Tok::Std), ("..."@, Tok::Op), ("N_2"@, Tok::Type),
            (", "@, Tok::Std), ("..."@, Tok::Op), ("N_1"@, Tok::Type), ("]>;"@, Tok::Std),
        ]
    } else if i == 10 {
        seq![]
    } else {
        seq![
            ("type"@, Tok::Kw), (" "@, Tok::Std), ("FibonacciResult2"@, Tok::Type),
            (" "@, Tok::Std), ("="@, Tok::Op), (" "@, Tok::Std), ("Fibonacci"@, Tok::Type),
            ("<"@, Tok::Std), ("8"@, Tok::Num), (">; "@, Tok::Std), ("// 21"@, Tok::Comment),
        ]
    }
}

/// Line `i` of the sample in the colors of the theme.
pub open spec fn code_spans(theme: TerminalTheme, i: int) -> Seq<SpanView> {
    code_tokens(i).map_values(|t: (Seq<char>, Tok)| plain(t.0, token_color(theme, t.1)))
}

fn push_token(spans: &mut Vec<Span>, text: &str, tok: Tok, theme: &TerminalTheme)
    ensures
        span_views(final(spans)@) == span_views(old(spans)@).push(
            plain(text@, token_color(*theme, tok)),
        ),
{
    push_span(spans, text, tok.color(theme));
}

fn code_line_1(theme: &TerminalTheme) -> (r: Vec<Span>)
    ensures
        span_views(r@) == code_spans(*theme, 0),
{
    let mut r: Vec<Span> = Vec::new();
    push_token(&mut r, "type", Tok::Kw, theme);
    push_token(&mut r, " ", Tok::Std, theme);
    push_token(&mut r, "Fibonacci", Tok::Type, theme);
    push_token(&mut r, "<", Tok::Std, theme);
    assert(span_views(r@) =~= code_spans(*theme, 0));
    r
}

fn code_line_2(theme: &TerminalTheme) -> (r: Vec<Span>)
    ensures
        span_views(r@) == code_spans(*theme, 1),
{
    let mut r: Vec<Span> = Vec::new();
    push_token(&mut r, "  ", Tok::Std, theme);
    push_token(&mut r, "T", Tok::Type, theme);
    push_token(&mut r, " ", Tok::Std, theme);
    push_token(&mut r, "extends", Tok::Op, theme);
    push_token(&mut r, " ", Tok::Std, theme);
    push_token(&mut r, "number", Tok::Type, theme);
    push_token(&mut r, ",", Tok::Std, theme);
    assert(span_views(r@) =~= code_spans(*theme, 1));
    r
}

fn code_line_3(theme: &TerminalTheme) -> (r: Vec<Span>)
    ensures
        span_views(r@) == code_spans(*theme, 2),
{
    let mut r: Vec<Span> = Vec::new();
    push_token(&mut r, "  ", Tok::Std, theme);
    push_token(&mut r, "No", Tok::Type, theme);
    push_token(&mut r, " ", Tok::Std, theme);
    push_token(&mut r, "extends", Tok::Op, theme);
    push_token(&mut r, " ", Tok::Std, theme);
    push_token(&mut r, "1", Tok::Num, theme);
    push_token(&mut r, "[] = [", Tok::Std, theme);
    push_token(&mut r, "1", Tok::Num, theme);
    push_token(&mut r, ", ", Tok::Std, theme);
    push_token(&mut r, "1", Tok::Num, theme);
    push_token(&mut r, ", ", Tok::Std, theme);
    push_token(&mut r, "1", Tok::Num, theme);
    push_token(&mut r, "],", Tok::Std, theme);
    assert(span_views(r@) =~= code_spans(*theme, 2));
    r
}

fn code_line_4(theme: &TerminalTheme) -> (r: Vec<Span>)
    ensures
        span_views(r@) == code_spans(*theme, 3),
{
    let mut r: Vec<Span> = Vec::new();
    push_token(&mut r, "  ", Tok::Std, theme);
    push_token(&mut r, "N_2", Tok::Type, theme);
    push_token(&mut r, " ", Tok::Std, theme);
    push_token(&mut r, "extends", Tok::Op, theme);
    push_token(&mut r, " ", Tok::Std, theme);
    push_token(&mut r, "1", Tok::Num, theme);
    push_token(&mut r, "[] = [", Tok::Std, theme);
    push_token(&mut r, "1", Tok::Num, theme);
    push_token(&mut r, "],", Tok::Std, theme);
    assert(span_views(r@) =~= code_spans(*theme, 3));
    r
}

fn code_line_5(theme: &TerminalTheme) -> (r: Vec<Span>)
    ensures
        span_views(r@) == code_spans(*theme, 4),
{
    let mut r: Vec<Span> = Vec::new();
    push_token(&mut r, "  ", Tok::Std, theme);
    push_token(&mut r, "N_1", Tok::Type, theme);
    push_token(&mut r, " ", Tok::Std, theme);
    push_token(&mut r, "extends", Tok::Op, theme);
    push_token(&mut r, " ", Tok::Std, theme);
    push_token(&mut r, "1", Tok::Num, theme);
    push_token(&mut r, "[] = [", Tok::Std, theme);
    push_token(&mut r, "1", Tok::Num, theme);
    push_token(&mut r, "]", Tok::Std, theme);
    assert(span_views(r@) =~= code_spans(*theme, 4));
    r
}

fn code_line_6(theme: &TerminalTheme) -> (r: Vec<Span>)
    ensures
        span_views(r@) == code_spans(*theme, 5),
{
    let mut r: Vec<Span> = Vec::new();
    push_token(&mut r, "> ", Tok::Std, theme);
    push_token(&mut r, "=", Tok::Op, theme);
    push_token(&mut r, " ", Tok::Std, theme);
    push_token(&mut r, "T", Tok::Type, theme);
    push_token(&mut r, " ", Tok::Std, theme);
    push_token(&mut r, "extends", Tok::Op, theme);
    push_token(&mut r, " ", Tok::Std, theme);
    push_token(&mut r, "1", Tok::Num, theme);
    push_token(&mut r, " ", Tok::Std, theme);
    push_token(&mut r, "|", Tok::Op, theme);
    push_token(&mut r, " ", Tok::Std, theme);
    push_token(&mut r, "2", Tok::Num, theme);
    assert(span_views(r@) =~= code_spans(*theme, 5));
    r
}

fn code_line_7(theme: &TerminalTheme) -> (r: Vec<Span>)
    ensures
        span_views(r@) == code_spans(*theme, 6),
{
    let mut r: Vec<Span> = Vec::new();
    push_token(&mut r, "  ", Tok::Std, theme);
    push_token(&mut r, "?", Tok::Op, theme);
    push_token(&mut r, " ", Tok::Std, theme);
    push_token(&mut r, "1", Tok::Num, theme);
    assert(span_views(r@) =~= code_spans(*theme, 6));
    r
}

fn code_line_8(theme: &TerminalTheme) -> (r: Vec<Span>)
    ensures
        span_views(r@) == code_spans(*theme, 7),
{
    let mut r: Vec<Span> = Vec::new();
    push_token(&mut r, "  ", Tok::Std, theme);
    push_token(&mut r, ":", Tok::Op, theme);
    push_token(&mut r, " ", Tok::Std, theme);
    push_token(&mut r, "T", Tok::Type, theme);
    push_token(&mut r, " ", Tok::Std, theme);
    push_token(&mut r, "extends", Tok::Op, theme);
    push_token(&mut r, " ", Tok::Std, theme);
    push_token(&mut r, "No", Tok::Type, theme);
    push_token(&mut r, "[", Tok::Std, theme);
    push_token(&mut r, "'length'", Tok::Str, theme);
    push_token(&mut r, "]", Tok::Std, theme);
    assert(span_views(r@) =~= code_spans(*theme, 7));
    r
}

fn code_line_9(theme: &TerminalTheme) -> (r: Vec<Span>)
    ensures
        span_views(r@) == code_spans(*theme, 8),
{
    let mut r: Vec<Span> = Vec::new();
    push_token(&mut r, "  ", Tok::Std, theme);
    push_token(&mut r, "?", Tok::Op, theme);
    push_token(&mut r, " [", Tok::Std, theme);
    push_token(&mut r, "...", Tok::Op, theme);
    push_token(&mut r, "N_2", Tok::Type, theme);
    push_token(&mut r, ", ", Tok::Std, theme);
    push_token(&mut r, "...", Tok::Op, theme);
    push_token(&mut r, "N_1", Tok::Type, theme);
    push_token(&mut r, "][", Tok::Std, theme);
    push_token(&mut r, "'length'", Tok::Str, theme);
    push_token(&mut r, "]", Tok::Std, theme);
    assert(span_views(r@) =~= code_spans(*theme, 8));
    r
}

fn code_line_10(theme: &TerminalTheme) -> (r: Vec<Span>)
    ensures
        span_views(r@) == code_spans(*theme, 9),
{
    let mut r: Vec<Span> = Vec::new();
    push_token(&mut r, "  ", Tok::Std, theme);
    push_token(&mut r, ":", Tok::Op, theme);
    push_token(&mut r, " ", Tok::Std, theme);
    push_token(&mut r, "Fibonacci", Tok::Type, theme);
    push_token(&mut r, "<", Tok::Std, theme);
    push_token(&mut r, "T", Tok::Type, theme);
    push_token(&mut r, ", [", Tok::Std, theme);
    push_token(&mut r, "...", Tok::Op, theme);
    push_token(&mut r, "No", Tok::Type, theme);
    push_token(&mut r, ", ", Tok::Std, theme);
    push_token(&mut r, "1", Tok::Num, theme);
    push_token(&mut r, "], ", Tok::Std, theme);
    push_token(&mut r, "N_1", Tok::Type, theme);
    push_token(&mut r, ", [", Tok::Std, theme);
    push_token(&mut r, "...", Tok::Op, theme);
    push_token(&mut r, "N_2", Tok::Type, theme);
    push_token(&mut r, ", ", Tok::Std, theme);
    push_token(&mut r, "...", Tok::Op, theme);
    push_token(&mut r, "N_1", Tok::Type, theme);
    push_token(&mut r, "]>;", Tok::Std, theme);
    assert(span_views(r@) =~= code_spans(*theme, 9));
    r
}

fn code_line_12(theme: &TerminalTheme) -> (r: Vec<Span>)
    ensures
        span_views(r@) == code_spans(*theme, 11),
{
    let mut r: Vec<Span> = Vec::new();
    push_token(&mut r, "type", Tok::Kw, theme);
    push_token(&mut r, " ", Tok::Std, theme);
    push_token(&mut r, "FibonacciResult2", Tok::Type, theme);
    push_token(&mut r, " ", Tok::Std, theme);
    push_token(&mut r, "=", Tok::Op, theme);
    push_token(&mut r, " ", Tok::Std, theme);
    push_token(&mut r, "Fibonacci", Tok::Type, theme);
    push_token(&mut r, "<", Tok::Std, theme);
    push_token(&mut r, "8", Tok::Num, theme);
    push_token(&mut r, ">; ", Tok::Std, theme);
    push_token(&mut r, "// 21", Tok::Comment, theme);
    assert(span_views(r@) =~= code_spans(*theme, 11));
    r
}

fn code_line(theme: &TerminalTheme, i: usize) -> (r: Vec<Span>)
    requires
        i < CODE_LINE_COUNT,
    ensures
        span_views(r@) == code_spans(*theme, i as int),
{
    if i == 0 {
        code_line_1(theme)
    } else if i == 1 {
        code_line_2(theme)
    } else if i == 2 {
        code_line_3(theme)
    } else if i == 3 {
        code_line_4(theme)
    } else if i == 4 {
        code_line_5(theme)
    } else if i == 5 {
        code_line_6(theme)
    } else if i == 6 {
        code_line_7(theme)
    } else if i == 7 {
        code_line_8(theme)
    } else if i == 8 {
        code_line_9(theme)
    } else if i == 9 {
        code_line_10(theme)
    } else if i == 10 {
        let r: Vec<Span> = Vec::new();
        assert(span_views(r@) =~= code_spans(*theme, 10));
        r
    } else {
        code_line_12(theme)
    }
}

/// The number of a line, two wide, and the rule beside it.
pub open spec fn gutter(i: int) -> Seq<char> {
    "  "@ + (if i + 1 < 10 {
        " "@
    } else {
        ""@
    }) + text::decimal((i + 1) as nat) + "   │ "@
}

/// How many lines of the sample there is room for.
pub open spec fn code_lines_shown(area: Area) -> int {
    let room = area.height - 14;
    if room <= 0 {
        0
    } else if room < CODE_LINE_COUNT {
        room
    } else {
        CODE_LINE_COUNT as int
    }
}

/// A line of the sample, its number in front.
pub open spec fn code_item(theme: TerminalTheme, area: Area, i: int) -> ItemView {
    ItemView::Line {
        x: area.x + 2,
        y: area.y + 14 + i,
        spans: seq![plain(gutter(i), token_color(theme, Tok::Grid))] + code_spans(theme, i),
    }
}

/// The first `n` lines of the sample.
pub open spec fn code_items(theme: TerminalTheme, area: Area, n: int) -> Seq<ItemView>
    decreases n,
{
    if n <= 0 {
        seq![]
    } else {
        code_items(theme, area, n - 1).push(code_item(theme, area, n - 1))
    }
}

fn push_code(items: &mut Vec<Item>, theme: &TerminalTheme, area: Area) -> (shown: u32)
    ensures
        shown == code_lines_shown(area),
        shown <= 12,
        item_views(final(items)@) == item_views(old(items)@) + code_items(
            *theme,
            area,
            shown as int,
        ),
{
    let mut i: u32 = 0;
    assert(item_views(items@) =~= item_views(old(items)@) + code_items(*theme, area, 0));
    while i < 12 && 14 + i < area.height as u32
        invariant
            i <= 12,
            i == 0 || 14 + i <= area.height,
            item_views(items@) == item_views(old(items)@) + code_items(*theme, area, i as int),
        decreases 12 - i,
    {
        let mut number: String = String::new();
        number.append("  ");
        if i + 1 < 10 {
            number.append(" ");
        } else {
            number.append("");
        }
        text::push_decimal(&mut number, i as u64 + 1);
        number.append("   │ ");
        assert(number@ =~= gutter(i as int));
        let mut spans: Vec<Span> = Vec::new();
        push_span(&mut spans, number.as_str(), Tok::Grid.color(theme));
        let mut tokens: Vec<Span> = code_line(theme, i as usize);
        let ghost front = span_views(spans@);
        let ghost back = span_views(tokens@);
        spans.append(&mut tokens);
        assert(span_views(spans@) =~= front + back);
        assert(front =~= seq![plain(gutter(i as int), token_color(*theme, Tok::Grid))]);
        push_line(items, area.x as u32 + 2, area.y as u32 + 14 + i, spans);
        assert(item_views(items@) =~= item_views(old(items)@) + code_items(*theme, area, i + 1));
        i = i + 1;
    }
    i
}

/// The command and the head of the file, above the sample.
pub open spec fn code_head(theme: TerminalTheme, area: Area) -> Seq<ItemView> {
    let x = area.x + 2;
    let y = area.y + 10;
    let grid = token_color(theme, Tok::Grid);
    let file = "fibonacci.ts"@;
    seq![
        ItemView::Line {
            x,
            y,
            spans: seq![
                plain("→"@, token_color(theme, Tok::Type)),
                plain(" bat "@, theme.foreground),
                SpanView { underlined: true, ..plain(file, token_color(theme, Tok::Kw)) },
            ],
        },
        ItemView::Rule { x, y: y + 1, joint: '┬', fg: grid },
        ItemView::Line {
            x,
            y: y + 2,
            spans: seq![
                plain("       │ File: "@, grid),
                SpanView { bold: true, ..plain(file, theme.foreground) },
            ],
        },
        ItemView::Rule { x, y: y + 3, joint: '┼', fg: grid },
    ]
}

fn push_code_head(items: &mut Vec<Item>, theme: &TerminalTheme, area: Area)
    ensures
        item_views(final(items)@) == item_views(old(items)@) + code_head(*theme, area),
{
    let x: u32 = area.x as u32 + 2;
    let y: u32 = area.y as u32 + 10;
    let grid: u32 = Tok::Grid.color(theme);
    let ghost want = code_head(*theme, area);
    let mut command: Vec<Span> = Vec::new();
    push_span(&mut command, "→", Tok::Type.color(theme));
    push_span(&mut command, " bat ", theme.foreground);
    push_marked(&mut command, "fibonacci.ts", Tok::Kw.color(theme), false, true);
    assert(span_views(command@) =~= want[0]->Line_spans);
    push_line(items, x, y, command);
    push_item(items, Item::Rule { x, y: y + 1, joint: '┬', fg: grid });
    let mut head: Vec<Span> = Vec::new();
    push_span(&mut head, "       │ File: ", grid);
    push_marked(&mut head, "fibonacci.ts", theme.foreground, true, false);
    assert(span_views(head@) =~= want[2]->Line_spans);
    push_line(items, x, y + 2, head);
    push_item(items, Item::Rule { x, y: y + 3, joint: '┼', fg: grid });
    assert(item_views(items@) =~= item_views(old(items)@) + want);
}

/// The rule below the sample, and a prompt of two lines.
pub open spec fn prompt(theme: TerminalTheme, x: int, y: int) -> Seq<ItemView> {
    let text = theme.foreground;
    let kw = token_color(theme, Tok::Kw);
    let num = token_color(theme, Tok::Num);
    let op = token_color(theme, Tok::Op);
    let string = token_color(theme, Tok::Str);
    let name = token_color(theme, Tok::Type);
    seq![
        ItemView::Rule { x, y, joint: '┴', fg: token_color(theme, Tok::Grid) },
        ItemView::Line {
            x,
            y: y + 1,
            spans: seq![
                plain("Eggie "@, kw),
                plain("on "@, text),
                plain(" main "@, num),
                plain("[+] "@, op),
                plain("via "@, text),
                plain(" v0.13.0"@, string),
            ],
        },
        ItemView::Line {
            x,
            y: y + 2,
            spans: seq![
                plain("✦ "@, num),
                plain("at "@, text),
                plain("10:36:15 "@, string),
                plain("→"@, name),
            ],
        },
    ]
}

fn push_prompt(items: &mut Vec<Item>, theme: &TerminalTheme, x: u32, y: u32)
    requires
        y <= 100000,
    ensures
        item_views(final(items)@) == item_views(old(items)@) + prompt(*theme, x as int, y as int),
{
    let ghost want = prompt(*theme, x as int, y as int);
    let text: u32 = theme.foreground;
    push_item(items, Item::Rule { x, y, joint: '┴', fg: Tok::Grid.color(theme) });
    let mut first: Vec<Span> = Vec::new();
    push_span(&mut first, "Eggie ", Tok::Kw.color(theme));
    push_span(&mut first, "on ", text);
    push_span(&mut first, " main ", Tok::Num.color(theme));
    push_span(&mut first, "[+] ", Tok::Op.color(theme));
    push_span(&mut first, "via ", text);
    push_span(&mut first, " v0.13.0", Tok::Str.color(theme));
    assert(span_views(first@) =~= want[1]->Line_spans);
    push_line(items, x, y + 1, first);
    let mut second: Vec<Span> = Vec::new();
    push_span(&mut second, "✦ ", Tok::Num.color(theme));
    push_span(&mut second, "at ", text);
    push_span(&mut second, "10:36:15 ", Tok::Str.color(theme));
    push_span(&mut second, "→", Tok::Type.color(theme));
    assert(span_views(second@) =~= want[2]->Line_spans);
    push_line(items, x, y + 2, second);
    assert(item_views(items@) =~= item_views(old(items)@) + want);
}

/// The text that fills the rest of the sample. It is ASCII, so that a word takes as many columns
/// as it has characters.
pub const LOREM: &'static str = "Lorem ipsum dolor sit amet, consectetur adipiscing elit. Cras hendrerit aliquet turpis non dictum. Mauris pulvinar nisl sit amet dui cursus tempus. Pellentesque ut dui justo. Etiam quis magna sagittis nisi pretium consequat vitae ut nisl. Sed at metus id odio pulvinar sodales. Vestibulum sollicitudin auctor enim, non fermentum erat. Praesent reprehenderit, dui quis convallis tempus, nunc.";

/// Whether `c` is an ASCII letter or digit.
pub open spec fn is_alnum(c: char) -> bool {
    ('a' <= c <= 'z') || ('A' <= c <= 'Z') || ('0' <= c <= '9')
}

/// A word without the punctuation behind it.
pub open spec fn bare(word: Seq<char>) -> Seq<char>
    decreases word.len(),
{
    if word.len() > 0 && !is_alnum(word.last()) {
        bare(word.drop_last())
    } else {
        word
    }
}

fn bare_word(word: &Vec<char>) -> (r: String)
    ensures
        r@ == bare(word@),
{
    let mut to: usize = word.len();
    assert(word@.take(to as int) =~= word@);
    while to > 0 && !is_alnum_char(word[to - 1])
        invariant
            to <= word@.len(),
            bare(word@.take(to as int)) == bare(word@),
        ensures
            to <= word@.len(),
            bare(word@) == word@.take(to as int),
        decreases to,
    {
        assert(word@.take(to as int).drop_last() =~= word@.take(to - 1));
        assert(word@.take(to as int).last() == word@[to - 1]);
        to = to - 1;
    }
    assert(word@.subrange(0, to as int) =~= word@.take(to as int));
    text_of(word, 0, to)
}

fn is_alnum_char(c: char) -> (r: bool)
    ensures
        r == is_alnum(c),
{
    ('a' <= c && c <= 'z') || ('A' <= c && c <= 'Z') || ('0' <= c && c <= '9')
}

/// How a word of the sample is set.
pub open spec fn word_span(theme: TerminalTheme, w: Seq<char>) -> SpanView {
    let b = bare(w);
    let text = theme.foreground;
    if b == "ipsum"@ {
        plain(w, tui::indexed_color(theme, 2))
    } else if b == "consectetur"@ {
        SpanView { bold: true, ..plain(w, text) }
    } else if b == "reprehenderit"@ {
        SpanView { italic: true, ..plain(w, text) }
    } else if b == "Praesent"@ {
        SpanView { bold: true, italic: true, ..plain(w, text) }
    } else if b == "auctor"@ || b == "dui"@ || b == "erat"@ || b == "enim"@ || b == "odio"@ {
        SpanView { underlined: true, ..plain(w, text) }
    } else {
        plain(w, text)
    }
}

fn styled_word(theme: &TerminalTheme, w: &Vec<char>) -> (r: Span)
    ensures
        r.model() == word_span(*theme, w@),
{
    let b: String = bare_word(w);
    let key: &str = b.as_str();
    let mut fg: u32 = theme.foreground;
    let mut bold: bool = false;
    let mut italic: bool = false;
    let mut underlined: bool = false;
    if text_eq(key, "ipsum") {
        fg = palette_color(theme, 2);
    } else if text_eq(key, "consectetur") {
        bold = true;
    } else if text_eq(key, "reprehenderit") {
        italic = true;
    } else if text_eq(key, "Praesent") {
        bold = true;
        italic = true;
    } else if text_eq(key, "auctor") || text_eq(key, "dui") || text_eq(key, "erat") || text_eq(
        key,
        "enim",
    ) || text_eq(key, "odio") {
        underlined = true;
    }
    let text: String = text_of(w, 0, w.len());
    assert(text@ =~= w@);
    Span { text, fg, bold, italic, underlined }
}

/// The words of a text.
pub open spec fn words(s: Seq<char>) -> Seq<Seq<char>>
    decreases s.len(),
    via words_decreases
{
    match colors::next_word(s) {
        None => seq![],
        Some((w, rest)) => seq![w] + words(rest),
    }
}

#[via_fn]
proof fn words_decreases(s: Seq<char>) {
    colors::next_word_shrinks(s);
}

/// Sets the words from `(x, y)` on, a space between them; a word that does not fit goes to the next
/// row, and what lies below the last row is left out.
pub open spec fn set_words(
    theme: TerminalTheme,
    left: int,
    right: int,
    bottom: int,
    ws: Seq<Seq<char>>,
    x: int,
    y: int,
) -> Seq<ItemView>
    decreases ws.len(),
{
    if ws.len() == 0 {
        seq![]
    } else {
        let w = ws[0];
        let fits = x + w.len() <= right;
        let wx = if fits {
            x
        } else {
            left
        };
        let wy = if fits {
            y
        } else {
            y + 1
        };
        let end = if wx >= right {
            wx
        } else if wx + w.len() > right {
            right
        } else {
            wx + w.len()
        };
        if wy >= bottom {
            seq![]
        } else {
            seq![ItemView::Line { x: wx, y: wy, spans: seq![word_span(theme, w)] }] + set_words(
                theme,
                left,
                right,
                bottom,
                ws.skip(1),
                end + 1,
                wy,
            )
        }
    }
}

/// The text below row `y`, with a margin of one row and two columns.
pub open spec fn lorem(theme: TerminalTheme, area: Area, y: int) -> Seq<ItemView> {
    if y >= area.bottom() {
        seq![]
    } else {
        set_words(
            theme,
            area.x + 2,
            area.right(),
            area.bottom(),
            words(LOREM@),
            area.x + 2,
            y + 1,
        )
    }
}

fn push_lorem(items: &mut Vec<Item>, theme: &TerminalTheme, area: Area, from: u32)
    requires
        from <= 100000,
    ensures
        item_views(final(items)@) == item_views(old(items)@) + lorem(*theme, area, from as int),
{
    let right: u32 = area.x as u32 + area.width as u32;
    let bottom: u32 = area.y as u32 + area.height as u32;
    if from >= bottom {
        assert(item_views(items@) =~= item_views(old(items)@) + lorem(*theme, area, from as int));
        return ;
    }
    let left: u32 = area.x as u32 + 2;
    let s: Vec<char> = chars_of(LOREM);
    let len: usize = s.len();
    let mut at: usize = 0;
    let mut x: u32 = left;
    let mut y: u32 = from + 1;
    let ghost before = item_views(items@);
    let ghost whole = lorem(*theme, area, from as int);
    assert(s@.subrange(0, len as int) =~= LOREM@);
    assert(before + whole =~= before + set_words(
        *theme,
        left as int,
        right as int,
        bottom as int,
        words(s@.subrange(0, len as int)),
        x as int,
        y as int,
    ));
    let mut more: bool = true;
    while more
        invariant
            at <= len == s@.len(),
            left == area.x + 2,
            right == area.right(),
            bottom == area.bottom(),
            x <= right + 3,
            y <= bottom + 1,
            more ==> y <= bottom,
            more ==> before + whole == item_views(items@) + set_words(
                *theme,
                left as int,
                right as int,
                bottom as int,
                words(s@.subrange(at as int, len as int)),
                x as int,
                y as int,
            ),
            !more ==> before + whole == item_views(items@),
        decreases (if more { 1int } else { 0 }) + len - at,
    {
        let ghost rest = s@.subrange(at as int, len as int);
        let ghost had = item_views(items@);
        let ghost x0 = x as int;
        let ghost y0 = y as int;
        proof {
            colors::next_word_shrinks(rest);
        }
        match find_word(&s, at, len) {
            None => {
                more = false;
                assert(had + Seq::<ItemView>::empty() =~= had);
            },
            Some((a, b)) => {
                let w: Vec<char> = copy_chars(&s, a, b);
                let ghost ws = words(rest);
                let ghost tail = words(s@.subrange(b as int, len as int));
                assert(ws =~= seq![w@] + tail);
                assert(ws.skip(1) =~= tail);
                let n: usize = b - a;
                if x > right || n > (right - x) as usize {
                    y = y + 1;
                    x = left;
                }
                if y >= bottom {
                    more = false;
                    assert(had + Seq::<ItemView>::empty() =~= had);
                } else {
                    let spans: Vec<Span> = vec![styled_word(theme, &w)];
                    assert(span_views(spans@) =~= seq![word_span(*theme, w@)]);
                    push_line(items, x, y, spans);
                    let ghost item = ItemView::Line {
                        x: x as int,
                        y: y as int,
                        spans: seq![word_span(*theme, w@)],
                    };
                    let end: u32 = if x >= right {
                        x
                    } else if n > (right - x) as usize {
                        right
                    } else {
                        x + n as u32
                    };
                    x = end + 1;
                    at = b;
                    let ghost later = set_words(
                        *theme,
                        left as int,
                        right as int,
                        bottom as int,
                        tail,
                        x as int,
                        y as int,
                    );
                    assert(set_words(
                        *theme,
                        left as int,
                        right as int,
                        bottom as int,
                        ws,
                        x0,
                        y0,
                    ) == seq![item] + later);
                    assert(had + (seq![item] + later) =~= had.push(item) + later);
                }
            },
        }
    }
}

fn copy_chars(s: &Vec<char>, from: usize, to: usize) -> (r: Vec<char>)
    requires
        from <= to <= s@.len(),
    ensures
        r@ == s@.subrange(from as int, to as int),
{
    let mut r: Vec<char> = Vec::new();
    let mut i: usize = from;
    while i < to
        invariant
            from <= i <= to <= s@.len(),
            r@ == s@.subrange(from as int, i as int),
        decreases to - i,
    {
        r.push(s[i]);
        assert(r@ =~= s@.subrange(from as int, i + 1));
        i = i + 1;
    }
    r
}

/// What the sample shows of a theme: its name, its palette, a piece of code, a prompt and a text;
/// nothing where there is too little room.
pub open spec fn sample(theme: TerminalTheme, area: Area, hex: bool) -> Seq<ItemView> {
    if area.width < 8 || area.height < 6 {
        seq![]
    } else {
        let n = code_lines_shown(area);
        seq![title(theme, area)] + swatches(theme, area, hex, 16) + code_head(theme, area)
            + code_items(theme, area, n) + prompt(theme, area.x + 2, area.y + 14 + n) + lorem(
            theme,
            area,
            area.y + 18 + n,
        )
    }
}

/// What the sample shows of a theme.
pub fn preview(theme: &TerminalTheme, area: Area, hex: bool) -> (r: Vec<Item>)
    ensures
        item_views(r@) == sample(*theme, area, hex),
{
    let mut items: Vec<Item> = Vec::new();
    if area.width < 8 || area.height < 6 {
        assert(item_views(items@) =~= sample(*theme, area, hex));
        return items;
    }
    push_title(&mut items, theme, area);
    push_swatches(&mut items, theme, area, hex);
    push_code_head(&mut items, theme, area);
    let n: u32 = push_code(&mut items, theme, area);
    push_prompt(&mut items, theme, area.x as u32 + 2, area.y as u32 + 14 + n);
    push_lorem(&mut items, theme, area, area.y as u32 + 18 + n);
    assert(item_views(items@) =~= sample(*theme, area, hex));
    items
}

/// The sample code, line by line, each word in the color of its kind.
pub proof fn sample_code_opens(theme: TerminalTheme)
    ensures
        code_spans(theme, 0) == seq![
            plain("type"@, tui::indexed_color(theme, 6)),
            plain(" "@, theme.foreground),
            plain("Fibonacci"@, tui::indexed_color(theme, 2)),
            plain("<"@, theme.foreground),
        ],
        code_spans(theme, 1) == seq![
            plain("  "@, theme.foreground),
            plain("T"@, tui::indexed_color(theme, 2)),
            plain(" "@, theme.foreground),
            plain("extends"@, tui::indexed_color(theme, 5)),
            plain(" "@, theme.foreground),
            plain("number"@, tui::indexed_color(theme, 2)),
            plain(","@, theme.foreground),
        ],
        code_spans(theme, 2) == seq![
            plain("  "@, theme.foreground),
            plain("No"@, tui::indexed_color(theme, 2)),
            plain(" "@, theme.foreground),
            plain("extends"@, tui::indexed_color(theme, 5)),
            plain(" "@, theme.foreground),
            plain("1"@, tui::indexed_color(theme, 4)),
            plain("[] = ["@, theme.foreground),
            plain("1"@, tui::indexed_color(theme, 4)),
            plain(", "@, theme.foreground),
            plain("1"@, tui::indexed_color(theme, 4)),
            plain(", "@, theme.foreground),
            plain("1"@, tui::indexed_color(theme, 4)),
            plain("],"@, theme.foreground),
        ],
        code_spans(theme, 3) == seq![
            plain("  "@, theme.foreground),
            plain("N_2"@, tui::indexed_color(theme, 2)),
            plain(" "@, theme.foreground),
            plain("extends"@, tui::indexed_color(theme, 5)),
            plain(" "@, theme.foreground),
            plain("1"@, tui::indexed_color(theme, 4)),
            plain("[] = ["@, theme.foreground),
            plain("1"@, tui::indexed_color(theme, 4)),
            plain("],"@, theme.foreground),
        ],
{
    assert(code_tokens(0).len() == 4);
    assert(code_tokens(1).len() == 7);
    assert(code_tokens(2).len() == 13);
    assert(code_tokens(3).len() == 9);
}

/// The sample code, line by line, each word in the color of its kind.
pub proof fn sample_code_goes_on(theme: TerminalTheme)
    ensures
        code_spans(theme, 4) == seq![
            plain("  "@, theme.foreground),
            plain("N_1"@, tui::indexed_color(theme, 2)),
            plain(" "@, theme.foreground),
            plain("extends"@, tui::indexed_color(theme, 5)),
            plain(" "@, theme.foreground),
            plain("1"@, tui::indexed_color(theme, 4)),
            plain("[] = ["@, theme.foreground),
            plain("1"@, tui::indexed_color(theme, 4)),
            plain("]"@, theme.foreground),
        ],
        code_spans(theme, 5) == seq![
            plain("> "@, theme.foreground),
            plain("="@, tui::indexed_color(theme, 5)),
            plain(" "@, theme.foreground),
            plain("T"@, tui::indexed_color(theme, 2)),
            plain(" "@, theme.foreground),
            plain("extends"@, tui::indexed_color(theme, 5)),
            plain(" "@, theme.foreground),
            plain("1"@, tui::indexed_color(theme, 4)),
            plain(" "@, theme.foreground),
            plain("|"@, tui::indexed_color(theme, 5)),
            plain(" "@, theme.foreground),
            plain("2"@, tui::indexed_color(theme, 4)),
        ],
        code_spans(theme, 6) == seq![
            plain("  "@, theme.foreground),
            plain("?"@, tui::indexed_color(theme, 5)),
            plain(" "@, theme.foreground),
            plain("1"@, tui::indexed_color(theme, 4)),
        ],
        code_spans(theme, 7) == seq![
            plain("  "@, theme.foreground),
            plain(":"@, tui::indexed_color(theme, 5)),
            plain(" "@, theme.foreground),
            plain("T"@, tui::indexed_color(theme, 2)),
            plain(" "@, theme.foreground),
            plain("extends"@, tui::indexed_color(theme, 5)),
            plain(" "@, theme.foreground),
            plain("No"@, tui::indexed_color(theme, 2)),
            plain("["@, theme.foreground),
            plain("'length'"@, tui::indexed_color(theme, 3)),
            plain("]"@, theme.foreground),
        ],
{
    assert(code_tokens(4).len() == 9);
    assert(code_tokens(5).len() == 12);
    assert(code_tokens(6).len() == 4);
    assert(code_tokens(7).len() == 11);
}

/// The sample code, line by line, each word in the color of its kind.
pub proof fn sample_code_ends(theme: TerminalTheme)
    ensures
        code_spans(theme, 8) == seq![
            plain("  "@, theme.foreground),
            plain("?"@, tui::indexed_color(theme, 5)),
            plain(" ["@, theme.foreground),
            plain("..."@, tui::indexed_color(theme, 5)),
            plain("N_2"@, tui::indexed_color(theme, 2)),
            plain(", "@, theme.foreground),
            plain("..."@, tui::indexed_color(theme, 5)),
            plain("N_1"@, tui::indexed_color(theme, 2)),
            plain("]["@, theme.foreground),
            plain("'length'"@, tui::indexed_color(theme, 3)),
            plain("]"@, theme.foreground),
        ],
        code_spans(theme, 9) == seq![
            plain("  "@, theme.foreground),
            plain(":"@, tui::indexed_color(theme, 5)),
            plain(" "@, theme.foreground),
            plain("Fibonacci"@, tui::indexed_color(theme, 2)),
            plain("<"@, theme.foreground),
            plain("T"@, tui::indexed_color(theme, 2)),
            plain(", ["@, theme.foreground),
            plain("..."@, tui::indexed_color(theme, 5)),
            plain("No"@, tui::indexed_color(theme, 2)),
            plain(", "@, theme.foreground),
            plain("1"@, tui::indexed_color(theme, 4)),
            plain("], "@, theme.foreground),
            plain("N_1"@, tui::indexed_color(theme, 2)),
            plain(", ["@, theme.foreground),
            plain("..."@, tui::indexed_color(theme, 5)),
            plain("N_2"@, tui::indexed_color(theme, 2)),
            plain(", "@, theme.foreground),
            plain("..."@, tui::indexed_color(theme, 5)),
            plain("N_1"@, tui::indexed_color(theme, 2)),
            plain("]>;"@, theme.foreground),
        ],
        code_spans(theme, 10).len() == 0,
        code_spans(theme, 11) == seq![
            plain("type"@, tui::indexed_color(theme, 6)),
            plain(" "@, theme.foreground),
            plain("FibonacciResult2"@, tui::indexed_color(theme, 2)),
            plain(" "@, theme.foreground),
            plain("="@, tui::indexed_color(theme, 5)),
            plain(" "@, theme.foreground),
            plain("Fibonacci"@, tui::indexed_color(theme, 2)),
            plain("<"@, theme.foreground),
            plain("8"@, tui::indexed_color(theme, 4)),
            plain(">; "@, theme.foreground),
            plain("// 21"@, tui::indexed_color(theme, 238)),
        ],
{
    assert(code_tokens(8).len() == 11);
    assert(code_tokens(9).len() == 20);
    assert(code_tokens(11).len() == 11);
}

/// Each kind of word has its color.
pub proof fn kinds_of_words_have_their_colors(theme: TerminalTheme)
    ensures
        token_color(theme, Tok::Std) == theme.foreground,
        token_color(theme, Tok::Kw) == tui::indexed_color(theme, 6),
        token_color(theme, Tok::Type) == tui::indexed_color(theme, 2),
        token_color(theme, Tok::Op) == tui::indexed_color(theme, 5),
        token_color(theme, Tok::Num) == tui::indexed_color(theme, 4),
        token_color(theme, Tok::Str) == tui::indexed_color(theme, 3),
        token_color(theme, Tok::Comment) == tui::indexed_color(theme, 238),
        token_color(theme, Tok::Grid) == tui::indexed_color(theme, 238),
{
}

/// Spans and items are told by all of their parts.
pub proof fn items_are_told_by_their_parts(s: Span, i: Item, k: int)
    ensures
        s.model().text == s.text@,
        s.model().fg == s.fg,
        s.model().bold == s.bold,
        s.model().italic == s.italic,
        s.model().underlined == s.underlined,
        i matches Item::Line { x, y, spans } ==> (i.model() matches ItemView::Line {
            x: a,
            y: b,
            spans: v,
        } && a == x && b == y && v.len() == spans@.len() && (0 <= k < spans@.len() ==> v[k]
            == spans@[k].model())),
        i matches Item::Rule { x, y, joint, fg } ==> i.model() == (ItemView::Rule {
            x: x as int,
            y: y as int,
            joint,
            fg,
        }),
{
}

/// The name of the theme stands in the middle of the second row, in bold and slanted letters: what is free
/// on its left differs from what is free on its right by at most one.
pub proof fn the_name_stands_in_the_middle(theme: TerminalTheme, area: Area)
    requires
        theme.name@.len() <= area.width,
    ensures
        title(theme, area) matches ItemView::Line { x, y, spans } && y == area.y + 1 && {
            let left = x - area.x;
            let right = area.width - left - theme.name@.len();
            &&& 0 <= left <= right <= left + 1
            &&& spans.len() == 1
            &&& spans[0].text == theme.name@
            &&& spans[0].fg == theme.foreground
            &&& spans[0].bold
            &&& spans[0].italic
            &&& !spans[0].underlined
        },
{
}

/// The sixteen colors stand in two rows of eight, each with its number, two rows high.
pub proof fn the_sixteen_colors_stand_in_two_rows(
    theme: TerminalTheme,
    area: Area,
    hex: bool,
    n: int,
    i: int,
)
    requires
        0 <= i < n <= 16,
    ensures
        swatches(theme, area, hex, n).len() == 3 * n,
        ({
            let x = area.x + 8 * (if i < 8 {
                i
            } else {
                i - 8
            });
            let y = area.y + (if i < 8 {
                4int
            } else {
                7
            });
            let all = swatches(theme, area, hex, n);
            &&& all[3 * i] == word(x, y, tui::label(i as nat, hex), theme.foreground)
            &&& all[3 * i + 1] == word(x + 4, y, "████"@, tui::indexed_color(theme, i))
            &&& all[3 * i + 2] == word(x + 4, y + 1, "████"@, tui::indexed_color(theme, i))
        }),
    decreases n,
{
    if n > 1 {
        if i < n - 1 {
            the_sixteen_colors_stand_in_two_rows(theme, area, hex, n - 1, i);
        } else {
            the_sixteen_colors_stand_in_two_rows(theme, area, hex, n - 1, 0);
        }
    } else {
        assert(swatches(theme, area, hex, 0).len() == 0);
    }
}

/// A word is drawn in one color where it stands.
pub proof fn a_word_is_drawn_where_it_stands(x: int, y: int, shown: Seq<char>, fg: u32)
    ensures
        word(x, y, shown, fg) == (ItemView::Line {
            x,
            y,
            spans: seq![
                SpanView { text: shown, fg, bold: false, italic: false, underlined: false },
            ],
        }),
{
}

/// The lines of the code are numbered from one, to the right, with a line behind the number.
pub proof fn code_lines_are_numbered_from_one(i: int)
    requires
        0 <= i < 99,
    ensures
        gutter(i).len() == 9,
        gutter(i).take(2) == seq![' ', ' '],
        i < 9 ==> gutter(i)[2] == ' ' && text::number_of(gutter(i).subrange(3, 4)) == i + 1,
        i >= 9 ==> text::number_of(gutter(i).subrange(2, 4)) == i + 1,
        gutter(i)[7] == '│',
{
    reveal_strlit("  ");
    reveal_strlit(" ");
    reveal_strlit("");
    reveal_strlit("   │ ");
    let d = text::decimal((i + 1) as nat);
    text::a_decimal_form_reads_as_its_number((i + 1) as nat);
    reveal_with_fuel(text::decimal, 3);
    assert(gutter(i).take(2) =~= seq![' ', ' ']);
    if i < 9 {
        assert(d.len() == 1);
        assert(gutter(i).subrange(3, 4) =~= d);
    } else {
        assert(d.len() == 2);
        assert(gutter(i).subrange(2, 4) =~= d);
    }
}

/// As many of the twelve lines of code are shown as have room below the first fourteen rows, one to a row,
/// each behind its number.
pub proof fn code_is_shown_as_far_as_it_fits(theme: TerminalTheme, area: Area, n: int, k: int)
    ensures
        area.height <= 14 ==> code_lines_shown(area) == 0,
        14 < area.height <= 26 ==> code_lines_shown(area) == area.height - 14,
        area.height > 26 ==> code_lines_shown(area) == 12,
        0 <= n ==> code_items(theme, area, n).len() == n,
        0 <= k < n ==> (code_items(theme, area, n)[k] matches ItemView::Line { x, y, spans } && x
            == area.x + 2 && y == area.y + 14 + k && spans.len() == 1 + code_spans(theme, k).len()
            && spans[0] == plain(gutter(k), tui::indexed_color(theme, 238)) && spans.skip(1)
            == code_spans(theme, k)),
    decreases n,
{
    if 0 < n {
        code_is_shown_as_far_as_it_fits(theme, area, n - 1, k);
        if k == n - 1 {
            let first = seq![plain(gutter(k), token_color(theme, Tok::Grid))];
            assert((first + code_spans(theme, k)).skip(1) =~= code_spans(theme, k));
        }
    }
}

/// Above the code stands the command that shows it, and the name of the file between two rules.
pub proof fn the_file_is_named_above_the_code(theme: TerminalTheme, area: Area)
    ensures
        code_head(theme, area).len() == 4,
        code_head(theme, area)[0] == (ItemView::Line {
            x: area.x + 2,
            y: area.y + 10,
            spans: seq![
                plain("→"@, tui::indexed_color(theme, 2)),
                plain(" bat "@, theme.foreground),
                SpanView {
                    text: "fibonacci.ts"@,
                    fg: tui::indexed_color(theme, 6),
                    bold: false,
                    italic: false,
                    underlined: true,
                },
            ],
        }),
        code_head(theme, area)[1] == (ItemView::Rule {
            x: area.x + 2,
            y: area.y + 11,
            joint: '┬',
            fg: tui::indexed_color(theme, 238),
        }),
        code_head(theme, area)[2] == (ItemView::Line {
            x: area.x + 2,
            y: area.y + 12,
            spans: seq![
                plain("       │ File: "@, tui::indexed_color(theme, 238)),
                SpanView {
                    text: "fibonacci.ts"@,
                    fg: theme.foreground,
                    bold: true,
                    italic: false,
                    underlined: false,
                },
            ],
        }),
        code_head(theme, area)[3] == (ItemView::Rule {
            x: area.x + 2,
            y: area.y + 13,
            joint: '┼',
            fg: tui::indexed_color(theme, 238),
        }),
{
}

/// Below the code a rule closes it, and a prompt follows in two rows.
pub proof fn a_prompt_follows_the_code(theme: TerminalTheme, x: int, y: int)
    ensures
        prompt(theme, x, y).len() == 3,
        prompt(theme, x, y)[0] == (ItemView::Rule {
            x,
            y,
            joint: '┴',
            fg: tui::indexed_color(theme, 238),
        }),
        prompt(theme, x, y)[1] == (ItemView::Line {
            x,
            y: y + 1,
            spans: seq![
                plain("Eggie "@, tui::indexed_color(theme, 6)),
                plain("on "@, theme.foreground),
                plain(" main "@, tui::indexed_color(theme, 4)),
                plain("[+] "@, tui::indexed_color(theme, 5)),
                plain("via "@, theme.foreground),
                plain(" v0.13.0"@, tui::indexed_color(theme, 3)),
            ],
        }),
        prompt(theme, x, y)[2] == (ItemView::Line {
            x,
            y: y + 2,
            spans: seq![
                plain("✦ "@, tui::indexed_color(theme, 4)),
                plain("at "@, theme.foreground),
                plain("10:36:15 "@, tui::indexed_color(theme, 3)),
                plain("→"@, tui::indexed_color(theme, 2)),
            ],
        }),
{
}

/// A word without what follows its last letter or digit.
pub proof fn marks_behind_a_word_are_left_off(w: Seq<char>, c: char, mark: char)
    ensures
        ('a' <= c <= 'z') || ('A' <= c <= 'Z') || ('0' <= c <= '9') ==> bare(w.push(c)) == w.push(
            c,
        ),
        mark == '.' || mark == ',' || mark == ';' ==> bare(w.push(mark)) == bare(w),
        bare(seq![]).len() == 0,
{
    assert(w.push(mark).drop_last() =~= w);
    assert(w.push(mark).last() == mark);
    assert(w.push(c).last() == c);
}

/// Some words show how a style looks; the others are plain.
pub proof fn some_words_show_a_style(theme: TerminalTheme, w: Seq<char>)
    ensures
        word_span(theme, w).text == w,
        bare(w) == "ipsum"@ ==> word_span(theme, w).fg == tui::indexed_color(theme, 2),
        bare(w) != "ipsum"@ ==> word_span(theme, w).fg == theme.foreground,
        word_span(theme, w).bold <==> bare(w) == "consectetur"@ || bare(w) == "Praesent"@,
        word_span(theme, w).italic <==> bare(w) == "reprehenderit"@ || bare(w) == "Praesent"@,
        word_span(theme, w).underlined <==> bare(w) == "auctor"@ || bare(w) == "dui"@ || bare(w)
            == "erat"@ || bare(w) == "enim"@ || bare(w) == "odio"@,
{
    reveal_strlit("ipsum");
    reveal_strlit("consectetur");
    reveal_strlit("reprehenderit");
    reveal_strlit("Praesent");
    reveal_strlit("auctor");
    reveal_strlit("dui");
    reveal_strlit("erat");
    reveal_strlit("enim");
    reveal_strlit("odio");
    assert("ipsum"@.len() == 5 && "consectetur"@.len() == 11 && "reprehenderit"@.len() == 13);
    assert("Praesent"@.len() == 8 && "auctor"@.len() == 6 && "dui"@.len() == 3);
    assert("erat"@.len() == 4 && "enim"@.len() == 4 && "odio"@.len() == 4);
}

/// The words of a text are what stands between white space, in order.
pub proof fn words_stand_between_white_space(white: Seq<char>, w: Seq<char>, rest: Seq<char>)
    requires
        text::all_white(white),
        w.len() > 0,
        colors::no_white(w),
        rest.len() > 0 ==> text::is_white(rest[0]),
    ensures
        words(white + w + rest) == seq![w] + words(rest),
        words(white).len() == 0,
{
    colors::the_next_word_stands_between_white_space(white, w, rest);
}

/// Words are set one behind the other, with a space between them; one that does not fit starts the next
/// row; and where the rows end, so does the text.
pub proof fn words_are_set_in_rows(
    theme: TerminalTheme,
    left: int,
    right: int,
    bottom: int,
    w: Seq<char>,
    rest: Seq<Seq<char>>,
    x: int,
    y: int,
)
    requires
        x <= right,
        y < bottom,
        left + w.len() <= right,
        w.len() > 0,
    ensures
        set_words(theme, left, right, bottom, seq![], x, y).len() == 0,
        x + w.len() <= right ==> set_words(theme, left, right, bottom, seq![w] + rest, x, y)
            == seq![ItemView::Line { x, y, spans: seq![word_span(theme, w)] }] + set_words(
            theme,
            left,
            right,
            bottom,
            rest,
            x + w.len() + 1,
            y,
        ),
        x + w.len() > right && y + 1 < bottom ==> set_words(
            theme,
            left,
            right,
            bottom,
            seq![w] + rest,
            x,
            y,
        ) == seq![ItemView::Line { x: left, y: y + 1, spans: seq![word_span(theme, w)] }]
            + set_words(theme, left, right, bottom, rest, left + w.len() + 1, y + 1),
        x + w.len() > right && y + 1 >= bottom ==> set_words(
            theme,
            left,
            right,
            bottom,
            seq![w] + rest,
            x,
            y,
        ).len() == 0,
{
    let all = seq![w] + rest;
    assert(all[0] == w);
    assert(all.skip(1) =~= rest);
}

/// The text starts one row below, two columns from the left, and runs to the right end; it is left out
/// where no row is left.
pub proof fn the_text_runs_to_the_end(theme: TerminalTheme, area: Area, y: int)
    ensures
        y >= area.y + area.height ==> lorem(theme, area, y).len() == 0,
        y < area.y + area.height ==> lorem(theme, area, y) == set_words(
            theme,
            area.x + 2,
            area.x + area.width,
            area.y + area.height,
            words(LOREM@),
            area.x + 2,
            y + 1,
        ),
{
}

/// A sample has a title, the sixteen colors, the code with its head, the prompt and the text, from the top
/// to the bottom; where there is too little room it is empty.
pub proof fn a_sample_is_drawn_from_the_top(theme: TerminalTheme, area: Area, hex: bool)
    ensures
        area.width < 8 || area.height < 6 ==> sample(theme, area, hex).len() == 0,
        area.width >= 8 && area.height >= 6 ==> ({
            let n = code_lines_shown(area);
            sample(theme, area, hex) == seq![title(theme, area)] + swatches(theme, area, hex, 16)
                + code_head(theme, area) + code_items(theme, area, n) + prompt(
                theme,
                area.x + 2,
                area.y + 14 + n,
            ) + lorem(theme, area, area.y + 18 + n)
        }),
{
}

} // verus!
