//! The command that lists the named colors, sorted by name without regard to case: as plain lines,
//! or, on a terminal, in columns with a swatch of each color.

use vstd::prelude::*;
use vstd::utf8::*;

use crate::cli;
use crate::cli::{CliEnvironment, CliOutcome};
use crate::colors;
use crate::colors::{x11_colors, NamedColor};
use crate::order;
use crate::order::stable_text_order;
use crate::text;
use crate::text::{push_decimal, push_hex, text_eq, to_lower_ascii};
use crate::themes;

verus! {

/// The width to lay out for where the terminal's is not known.
pub const FALLBACK_WIDTH: usize = 80;

/// The colors that references to named colors stand for.
pub open spec fn views(cs: Seq<&NamedColor>) -> Seq<colors::Color> {
    cs.map_values(|c: &NamedColor| colors::color(*c))
}

/// `#rrggbb`.
pub open spec fn hex_color(c: (u8, u8, u8)) -> Seq<char> {
    "#"@ + text::hex(c.0 as nat, 2) + text::hex(c.1 as nat, 2) + text::hex(c.2 as nat, 2)
}

fn push_hex_color(out: &mut String, c: (u8, u8, u8))
    ensures
        final(out)@ == old(out)@ + hex_color(c),
{
    out.append("#");
    push_hex(out, c.0 as u128, 2);
    push_hex(out, c.1 as u128, 2);
    push_hex(out, c.2 as u128, 2);
    assert(out@ =~= old(out)@ + hex_color(c));
}

/// `name = #rrggbb`, and a line feed.
pub open spec fn plain_line(c: colors::Color) -> Seq<char> {
    c.0 + " = "@ + hex_color(c.1) + "\n"@
}

/// One line for each color.
pub open spec fn plain_text(cs: Seq<colors::Color>) -> Seq<char>
    decreases cs.len(),
{
    if cs.len() == 0 {
        seq![]
    } else {
        plain_text(cs.drop_last()) + plain_line(cs.last())
    }
}

/// The colors as plain lines, without escape sequences.
pub fn render_plain(cs: &[&NamedColor]) -> (r: String)
    ensures
        r@ == plain_text(views(cs@)),
{
    let mut out: String = String::new();
    let mut i: usize = 0;
    assert(views(cs@).take(0) =~= seq![]);
    while i < cs.len()
        invariant
            i <= cs@.len(),
            out@ == plain_text(views(cs@).take(i as int)),
        decreases cs@.len() - i,
    {
        let ghost had = out@;
        let c: &NamedColor = cs[i];
        out.append(c.0.as_str());
        out.append(" = ");
        push_hex_color(&mut out, c.1);
        out.append("\n");
        proof {
            let all = views(cs@);
            assert(all[i as int] == colors::color(*c));
            assert(all.take(i + 1).drop_last() =~= all.take(i as int));
            assert(out@ =~= had + plain_line(all[i as int]));
        }
        i = i + 1;
    }
    assert(views(cs@).take(i as int) =~= views(cs@));
    out
}

/// The length of the longest name, in bytes.
pub open spec fn longest_name(cs: Seq<colors::Color>) -> nat
    decreases cs.len(),
{
    if cs.len() == 0 {
        0
    } else {
        let rest = longest_name(cs.drop_last());
        let last = encode_utf8(cs.last().0).len();
        if last > rest {
            last
        } else {
            rest
        }
    }
}

/// How many columns fit in `width`, one at least. A cell takes the longest name, ` = `, the seven
/// characters of the color, a space and a swatch of two; two spaces part it from the next.
pub open spec fn column_count(max_name: nat, width: nat) -> nat {
    let fit = (width + 2) / (max_name + 15);
    if fit < 1 {
        1
    } else {
        fit
    }
}

/// How many rows so many columns need.
pub open spec fn row_count(len: nat, columns: nat) -> nat {
    (len + columns - 1) as nat / columns
}

/// `n` spaces.
pub open spec fn spaces(n: nat) -> Seq<char> {
    Seq::new(n, |i: int| ' ')
}

/// `s` with spaces behind it up to `width` characters.
pub open spec fn pad_right(s: Seq<char>, width: nat) -> Seq<char> {
    if s.len() < width {
        s + spaces((width - s.len()) as nat)
    } else {
        s
    }
}

/// `r;g;b`.
pub open spec fn parts(c: (u8, u8, u8)) -> Seq<char> {
    text::decimal(c.0 as nat) + ";"@ + text::decimal(c.1 as nat) + ";"@ + text::decimal(c.2 as nat)
}

/// A cell: the name, the color as a number in its own color, and a swatch of it.
pub open spec fn cell(c: colors::Color, max_name: nat) -> Seq<char> {
    pad_right(c.0, max_name) + " = "@ + "\x1b[38;2;"@ + parts(c.1) + "m"@ + hex_color(c.1)
        + "\x1b[0m "@ + "\x1b[48;2;"@ + parts(c.1) + "m  \x1b[0m"@
}

/// What stands in row `row` and column `col`. The columns are filled one after the other, so that
/// each holds consecutive colors.
pub open spec fn entry(
    cs: Seq<colors::Color>,
    max_name: nat,
    columns: nat,
    rows: nat,
    row: nat,
    col: nat,
) -> Seq<char> {
    let index = row + rows * col;
    if index < cs.len() {
        let last = col + 1 == columns || index + rows >= cs.len();
        cell(cs[index as int], max_name) + (if last {
            seq![]
        } else {
            "  "@
        })
    } else {
        seq![]
    }
}

/// The first `n` entries of a row.
pub open spec fn row_text(
    cs: Seq<colors::Color>,
    max_name: nat,
    columns: nat,
    rows: nat,
    row: nat,
    n: nat,
) -> Seq<char>
    decreases n,
{
    if n == 0 {
        seq![]
    } else {
        row_text(cs, max_name, columns, rows, row, (n - 1) as nat) + entry(
            cs,
            max_name,
            columns,
            rows,
            row,
            (n - 1) as nat,
        )
    }
}

/// The first `n` rows.
pub open spec fn rows_text(
    cs: Seq<colors::Color>,
    max_name: nat,
    columns: nat,
    rows: nat,
    n: nat,
) -> Seq<char>
    decreases n,
{
    if n == 0 {
        seq![]
    } else {
        rows_text(cs, max_name, columns, rows, (n - 1) as nat) + row_text(
            cs,
            max_name,
            columns,
            rows,
            (n - 1) as nat,
            columns,
        ) + "\n"@
    }
}

/// The colors in as many columns as `width` has room for.
pub open spec fn pretty_text(cs: Seq<colors::Color>, width: nat) -> Seq<char> {
    let max_name = longest_name(cs);
    let columns = column_count(max_name, width);
    let rows = row_count(cs.len(), columns);
    if cs.len() == 0 {
        seq![]
    } else {
        rows_text(cs, max_name, columns, rows, rows)
    }
}

/// Every color has a cell: color `i` stands in column `i / rows` and row `i % rows`, and there is
/// such a column.
pub proof fn every_color_has_a_cell(len: nat, columns: nat, i: nat)
    requires
        columns >= 1,
        i < len,
    ensures
        ({
            let rows = row_count(len, columns);
            &&& rows >= 1
            &&& i / rows < columns
            &&& i % rows < rows
            &&& i % rows + rows * (i / rows) == i
        }),
{
    let rows = row_count(len, columns);
    let top: int = len + columns - 1;
    assert(rows == top / (columns as int));
    assert(rows >= 1) by (nonlinear_arith)
        requires
            rows == top / (columns as int),
            top >= columns,
            columns >= 1,
    ;
    assert(rows * columns > top - columns) by (nonlinear_arith)
        requires
            rows == top / (columns as int),
            columns >= 1,
    ;
    assert(i % rows + rows * (i / rows) == i && i % rows < rows) by (nonlinear_arith)
        requires
            rows >= 1,
    ;
    assert(i / rows < columns) by (nonlinear_arith)
        requires
            rows >= 1,
            rows * columns >= len,
            i < len,
    ;
}

fn max_name_len(cs: &[&NamedColor]) -> (r: usize)
    ensures
        r == longest_name(views(cs@)),
{
    let mut r: usize = 0;
    let mut i: usize = 0;
    assert(views(cs@).take(0) =~= seq![]);
    while i < cs.len()
        invariant
            i <= cs@.len(),
            r == longest_name(views(cs@).take(i as int)),
        decreases cs@.len() - i,
    {
        let n: usize = cs[i].0.as_str().as_bytes().len();
        proof {
            let all = views(cs@);
            assert(all[i as int].0 == cs@[i as int].0@);
            assert(all.take(i + 1).drop_last() =~= all.take(i as int));
        }
        if n > r {
            r = n;
        }
        i = i + 1;
    }
    assert(views(cs@).take(i as int) =~= views(cs@));
    r
}

fn push_parts(out: &mut String, c: (u8, u8, u8))
    ensures
        final(out)@ == old(out)@ + parts(c),
{
    push_decimal(out, c.0 as u64);
    out.append(";");
    push_decimal(out, c.1 as u64);
    out.append(";");
    push_decimal(out, c.2 as u64);
    assert(out@ =~= old(out)@ + parts(c));
}

/// Appends `s` and spaces up to `width` characters.
pub fn push_padded(out: &mut String, s: &str, width: usize)
    ensures
        final(out)@ == old(out)@ + pad_right(s@, width as nat),
{
    let n: usize = text::chars_of(s).len();
    out.append(s);
    let mut i: usize = n;
    assert(out@ =~= old(out)@ + s@ + spaces(0));
    while i < width
        invariant
            n == s@.len(),
            n <= i,
            i <= width || i == n,
            out@ == old(out)@ + s@ + spaces((i - n) as nat),
        decreases width - i,
    {
        let ghost had = out@;
        out.push(' ');
        assert(spaces((i - n) as nat).push(' ') =~= spaces((i + 1 - n) as nat));
        assert(out@ =~= old(out)@ + s@ + spaces((i + 1 - n) as nat));
        i = i + 1;
    }
    assert(out@ =~= old(out)@ + pad_right(s@, width as nat));
}

fn push_cell(out: &mut String, c: &NamedColor, max_name: usize)
    ensures
        final(out)@ == old(out)@ + cell(colors::color(*c), max_name as nat),
{
    push_padded(out, c.0.as_str(), max_name);
    out.append(" = ");
    out.append("\x1b[38;2;");
    push_parts(out, c.1);
    out.append("m");
    push_hex_color(out, c.1);
    out.append("\x1b[0m ");
    out.append("\x1b[48;2;");
    push_parts(out, c.1);
    out.append("m  \x1b[0m");
    assert(out@ =~= old(out)@ + cell(colors::color(*c), max_name as nat));
}

proof fn later_entries_are_empty(
    cs: Seq<colors::Color>,
    max_name: nat,
    columns: nat,
    rows: nat,
    row: nat,
    from: nat,
    n: nat,
)
    requires
        from <= n,
        row + rows * from >= cs.len(),
    ensures
        row_text(cs, max_name, columns, rows, row, n) == row_text(
            cs,
            max_name,
            columns,
            rows,
            row,
            from,
        ),
    decreases n,
{
    if n > from {
        later_entries_are_empty(cs, max_name, columns, rows, row, from, (n - 1) as nat);
        assert(rows * from <= rows * (n - 1)) by (nonlinear_arith)
            requires
                from <= n - 1,
        ;
        assert(row_text(cs, max_name, columns, rows, row, n) =~= row_text(
            cs,
            max_name,
            columns,
            rows,
            row,
            (n - 1) as nat,
        ));
    }
}

fn push_row(
    out: &mut String,
    cs: &[&NamedColor],
    max_name: usize,
    columns: u128,
    rows: usize,
    row: usize,
)
    requires
        rows >= 1,
        columns >= 1,
    ensures
        final(out)@ == old(out)@ + row_text(
            views(cs@),
            max_name as nat,
            columns as nat,
            rows as nat,
            row as nat,
            columns as nat,
        ),
{
    let ghost all = views(cs@);
    let mut col: u128 = 0;
    let mut index: usize = row;
    assert(out@ =~= old(out)@ + row_text(
        all,
        max_name as nat,
        columns as nat,
        rows as nat,
        row as nat,
        0,
    ));
    assert(rows * 0 == 0) by (nonlinear_arith);
    while col < columns && index < cs.len()
        invariant
            rows >= 1,
            col <= columns,
            all == views(cs@),
            col < columns && index < cs@.len() ==> index == row + rows * col,
            col < columns && index >= cs@.len() ==> row + rows * col >= cs@.len(),
            out@ == old(out)@ + row_text(
                all,
                max_name as nat,
                columns as nat,
                rows as nat,
                row as nat,
                col as nat,
            ),
        decreases columns - col,
    {
        let ghost had = out@;
        push_cell(out, cs[index], max_name);
        let rest: usize = cs.len() - index;
        let last: bool = col + 1 == columns || rows >= rest;
        if !last {
            out.append("  ");
        }
        proof {
            assert(all[index as int] == colors::color(*cs@[index as int]));
            assert(out@ =~= had + entry(
                all,
                max_name as nat,
                columns as nat,
                rows as nat,
                row as nat,
                col as nat,
            ));
            assert(rows * (col + 1) == rows * col + rows) by (nonlinear_arith);
            assert(out@ =~= old(out)@ + row_text(
                all,
                max_name as nat,
                columns as nat,
                rows as nat,
                row as nat,
                (col + 1) as nat,
            ));
        }
        col = col + 1;
        index = if rows >= rest {
            cs.len()
        } else {
            index + rows
        };
    }
    proof {
        if col < columns {
            later_entries_are_empty(
                all,
                max_name as nat,
                columns as nat,
                rows as nat,
                row as nat,
                col as nat,
                columns as nat,
            );
        }
    }
}

/// The colors in columns, each with a swatch, for a terminal `width` wide.
pub fn render_pretty(cs: &[&NamedColor], width: usize) -> (r: String)
    ensures
        r@ == pretty_text(views(cs@), width as nat),
{
    if cs.len() == 0 {
        return String::new();
    }
    let ghost all = views(cs@);
    let max_name: usize = max_name_len(cs);
    let fit: u128 = (width as u128 + 2) / (max_name as u128 + 15);
    let columns: u128 = if fit < 1 {
        1
    } else {
        fit
    };
    let needed: u128 = (cs.len() as u128 + columns - 1) / columns;
    assert(columns == column_count(max_name as nat, width as nat));
    proof {
        every_color_has_a_cell(cs@.len(), columns as nat, 0);
        assert(needed == row_count(cs@.len(), columns as nat));
        let top: int = cs@.len() + columns - 1;
        assert(needed <= cs@.len()) by (nonlinear_arith)
            requires
                needed == top / (columns as int),
                top == cs@.len() + columns - 1,
                columns >= 1,
                cs@.len() >= 1,
        ;
    }
    let rows: usize = needed as usize;
    let mut out: String = String::new();
    let mut row: usize = 0;
    while row < rows
        invariant
            row <= rows,
            rows >= 1,
            columns >= 1,
            all == views(cs@),
            out@ == rows_text(all, max_name as nat, columns as nat, rows as nat, row as nat),
        decreases rows - row,
    {
        push_row(&mut out, cs, max_name, columns, rows, row);
        out.append("\n");
        assert(out@ =~= rows_text(
            all,
            max_name as nat,
            columns as nat,
            rows as nat,
            (row + 1) as nat,
        ));
        row = row + 1;
    }
    out
}

/// The names of the colors in lower case, by which they are sorted.
pub open spec fn sort_keys(cs: Seq<colors::Color>) -> Seq<Seq<char>> {
    cs.map_values(|c: colors::Color| text::lower_ascii(c.0))
}

/// The colors by name, without regard to case; names that differ in case alone as they stand.
pub open spec fn sorted(cs: Seq<colors::Color>) -> Seq<colors::Color> {
    let order = order::stable_order(sort_keys(cs), order::by_text(), cs.len() as int);
    order.map_values(|i: int| cs[i])
}

/// The colors by name, without regard to case.
pub fn sorted_colors(all: &Vec<NamedColor>) -> (r: Vec<&NamedColor>)
    ensures
        views(r@) == sorted(colors::colors(all@)),
{
    let ghost cs = colors::colors(all@);
    let mut keys: Vec<String> = Vec::new();
    let mut i: usize = 0;
    while i < all.len()
        invariant
            i <= all@.len(),
            keys@.len() == i,
            cs == colors::colors(all@),
            order::texts(keys@) == sort_keys(cs).take(i as int),
        decreases all@.len() - i,
    {
        let ghost had = keys@;
        let key: String = to_lower_ascii(all[i].0.as_str());
        let ghost k = key@;
        keys.push(key);
        proof {
            assert(order::texts(keys@) =~= order::texts(had).push(k));
            assert(sort_keys(cs).take(i + 1) =~= sort_keys(cs).take(i as int).push(k));
        }
        i = i + 1;
    }
    assert(order::texts(keys@) =~= sort_keys(cs));
    let order: Vec<usize> = stable_text_order(&keys);
    let ghost places = order::positions(order@);
    let mut r: Vec<&NamedColor> = Vec::new();
    let mut p: usize = 0;
    while p < order.len()
        invariant
            p <= order@.len(),
            order@.len() == all@.len(),
            cs == colors::colors(all@),
            places == order::positions(order@),
            order::is_permutation(places, all@.len() as int),
            places == order::stable_order(sort_keys(cs), order::by_text(), cs.len() as int),
            views(r@) == sorted(cs).take(p as int),
        decreases order@.len() - p,
    {
        let ghost had = r@;
        assert(places[p as int] == order@[p as int]);
        let c: &NamedColor = &all[order[p]];
        r.push(c);
        proof {
            assert(views(r@) =~= views(had).push(colors::color(*c)));
            assert(sorted(cs).take(p + 1) =~= sorted(cs).take(p as int).push(
                cs[places[p as int]],
            ));
        }
        p = p + 1;
    }
    assert(views(r@) =~= sorted(cs));
    r
}

/// The width to lay out for: the terminal's, where it is known and not zero.
pub open spec fn width_for(detected: Option<u16>) -> usize {
    match detected {
        Some(n) => if n > 0 {
            n as usize
        } else {
            FALLBACK_WIDTH
        },
        None => FALLBACK_WIDTH,
    }
}

/// The width to lay out for: the terminal's, where it is known and not zero.
pub fn terminal_width(detected: Option<u16>) -> (r: usize)
    ensures
        r == width_for(detected),
{
    match detected {
        Some(n) => if n > 0 {
            n as usize
        } else {
            FALLBACK_WIDTH
        },
        None => FALLBACK_WIDTH,
    }
}

/// How to use the command.
pub open spec fn help() -> Seq<char> {
    "用法: eggie +list-colors [--plain]\n\n列出内置的 X11 命名颜色。在终端中运行时以彩色多列布局展示,\n管道输出时退化为纯文本 `name = #rrggbb`(按名称排序)。\n\n选项:\n  --plain  强制纯文本列表(即使在终端中)\n"@
}

/// What an option that is not known is answered.
pub open spec fn unknown_option(flag: Seq<char>) -> Seq<char> {
    "错误:未知选项 `"@ + flag + "`。运行 `eggie +list-colors --help` 查看用法。\n"@
}

/// What the options ask for, read in order up to the first that decides: help, or one that is not
/// known.
pub open spec fn stops_at(flags: Seq<Seq<char>>, n: int) -> Option<cli::Outcome>
    decreases n,
{
    if n <= 0 {
        None
    } else {
        let flag = flags[n - 1];
        match stops_at(flags, n - 1) {
            Some(o) => Some(o),
            None => if flag == "--help"@ || flag == "-h"@ {
                Some(cli::printed(help()))
            } else if flag == "--plain"@ {
                None
            } else {
                Some(cli::failed(unknown_option(flag)))
            },
        }
    }
}

/// What the command does: columns on a terminal, unless plain lines are asked for.
pub open spec fn outcome(flags: Seq<Seq<char>>, env: CliEnvironment) -> cli::Outcome {
    match stops_at(flags, flags.len() as int) {
        Some(o) => o,
        None => {
            let all = sorted(colors::table_colors(colors::rgb_table()));
            if flags.contains("--plain"@) || !env.stdout_is_terminal {
                cli::printed(plain_text(all))
            } else {
                cli::printed(pretty_text(all, width_for(env.terminal_columns) as nat))
            }
        },
    }
}

/// Lists the named colors, as the options ask.
pub fn run(flags: &Vec<String>, env: &CliEnvironment) -> (r: CliOutcome)
    ensures
        r.model() == outcome(themes::views(flags@), *env),
{
    let ghost fs = themes::views(flags@);
    let mut plain: bool = false;
    let mut i: usize = 0;
    while i < flags.len()
        invariant
            i <= flags@.len(),
            fs == themes::views(flags@),
            stops_at(fs, i as int) is None,
            plain <==> exists|j: int| 0 <= j < i && fs[j] == "--plain"@,
        decreases flags@.len() - i,
    {
        let flag: &str = flags[i].as_str();
        assert(fs[i as int] == flag@);
        if text_eq(flag, "--help") || text_eq(flag, "-h") {
            proof {
                stop_decides(fs, i + 1, fs.len() as int);
            }
            return CliOutcome::Print { out: help_text(), err: String::new(), code: 0 };
        } else if text_eq(flag, "--plain") {
            plain = true;
        } else {
            let mut err: String = "错误:未知选项 `".to_owned();
            err.append(flag);
            err.append("`。运行 `eggie +list-colors --help` 查看用法。\n");
            proof {
                assert(err@ =~= unknown_option(flag@));
                stop_decides(fs, i + 1, fs.len() as int);
            }
            return CliOutcome::Print { out: String::new(), err, code: 1 };
        }
        i = i + 1;
    }
    assert(plain <==> fs.contains("--plain"@));
    let all: Vec<NamedColor> = x11_colors();
    let listed: Vec<&NamedColor> = sorted_colors(&all);
    let out: String = if !plain && env.stdout_is_terminal {
        render_pretty(listed.as_slice(), terminal_width(env.terminal_columns))
    } else {
        render_plain(listed.as_slice())
    };
    CliOutcome::Print { out, err: String::new(), code: 0 }
}

proof fn stop_decides(flags: Seq<Seq<char>>, n: int, m: int)
    requires
        stops_at(flags, n) is Some,
        n <= m,
    ensures
        stops_at(flags, m) == stops_at(flags, n),
    decreases m - n,
{
    if n < m {
        stop_decides(flags, n, m - 1);
    }
}

fn help_text() -> (r: String)
    ensures
        r@ == help(),
{
    "用法: eggie +list-colors [--plain]\n\n列出内置的 X11 命名颜色。在终端中运行时以彩色多列布局展示,\n管道输出时退化为纯文本 `name = #rrggbb`(按名称排序)。\n\n选项:\n  --plain  强制纯文本列表(即使在终端中)\n".to_owned()
}

/// A color is written as a hash sign and two hexadecimal digits for each part.
pub proof fn a_color_is_written_in_hexadecimal(c: (u8, u8, u8))
    ensures
        hex_color(c).len() == 7,
        hex_color(c)[0] == '#',
        text::hex_number_of(hex_color(c).subrange(1, 3)) == c.0,
        text::hex_number_of(hex_color(c).subrange(3, 5)) == c.1,
        text::hex_number_of(hex_color(c).subrange(5, 7)) == c.2,
{
    reveal_strlit("#");
    reveal_with_fuel(text::fits_hex, 3);
    text::a_hexadecimal_form_reads_as_its_number(c.0 as nat, 2);
    text::a_hexadecimal_form_reads_as_its_number(c.1 as nat, 2);
    text::a_hexadecimal_form_reads_as_its_number(c.2 as nat, 2);
    assert(hex_color(c).subrange(1, 3) =~= text::hex(c.0 as nat, 2));
    assert(hex_color(c).subrange(3, 5) =~= text::hex(c.1 as nat, 2));
    assert(hex_color(c).subrange(5, 7) =~= text::hex(c.2 as nat, 2));
}

/// The plain list has a line for every color, in order: its name, and its parts in hexadecimal.
pub proof fn the_plain_list_has_a_line_for_every_color(cs: Seq<colors::Color>, c: colors::Color)
    ensures
        plain_text(seq![]).len() == 0,
        plain_text(cs.push(c)) == plain_text(cs) + plain_line(c),
        plain_line(c) == c.0 + seq![' ', '=', ' '] + hex_color(c.1) + seq!['\n'],
{
    assert(cs.push(c).drop_last() =~= cs);
    assert(cs.push(c).last() == c);
    reveal_strlit(" = ");
    reveal_strlit("\n");
    assert(" = "@ =~= seq![' ', '=', ' ']);
    assert("\n"@ =~= seq!['\n']);
}

/// The longest name is at least as long as every other, and one of them is as long, counted in bytes.
pub proof fn the_longest_name_is_one_of_them(cs: Seq<colors::Color>, i: int)
    ensures
        0 <= i < cs.len() ==> encode_utf8(cs[i].0).len() <= longest_name(cs),
        cs.len() > 0 ==> exists|k: int|
            0 <= k < cs.len() && encode_utf8((#[trigger] cs[k]).0).len() == longest_name(cs),
        cs.len() == 0 ==> longest_name(cs) == 0,
    decreases cs.len(),
{
    if cs.len() > 0 {
        let head = cs.drop_last();
        the_longest_name_is_one_of_them(head, i);
        assert(cs[cs.len() - 1] == cs.last());
        if longest_name(cs) != encode_utf8(cs.last().0).len() {
            let k = choose|k: int|
                0 <= k < head.len() && encode_utf8((#[trigger] head[k]).0).len() == longest_name(
                    head,
                );
            assert(cs[k] == head[k]);
        }
    }
}

/// There are as many columns as fit side by side with two spaces between them, and at least one. A column
/// holds the name and 13 further places.
pub proof fn as_many_columns_as_fit(max_name: nat, width: nat)
    ensures
        column_count(max_name, width) >= 1,
        column_count(max_name, width) > 1 ==> column_count(max_name, width) * (max_name + 13)
            + (column_count(max_name, width) - 1) * 2 <= width,
        (column_count(max_name, width) + 1) * (max_name + 13) + column_count(max_name, width) * 2
            > width,
{
    let cell = (max_name + 15) as int;
    let total = (width + 2) as int;
    let fit = total / cell;
    let n = column_count(max_name, width) as int;
    vstd::arithmetic::div_mod::lemma_fundamental_div_mod(total, cell);
    assert(cell * fit <= total < cell * fit + cell);
    assert(fit >= 0) by (nonlinear_arith)
        requires
            total >= 0,
            cell > 0,
            fit == total / cell,
    ;
    assert(n * (max_name + 13) + (n - 1) * 2 == cell * n - 2) by (nonlinear_arith)
        requires
            cell == max_name + 15,
    ;
    assert((n + 1) * (max_name + 13) + n * 2 == cell * n + cell - 2) by (nonlinear_arith)
        requires
            cell == max_name + 15,
    ;
    if n != fit {
        assert(fit < 1);
        assert(cell * fit == 0) by (nonlinear_arith)
            requires
                fit == 0,
        ;
        assert(cell * n == cell) by (nonlinear_arith)
            requires
                n == 1,
        ;
    }
}

/// There are as few rows as hold all entries.
pub proof fn as_few_rows_as_hold_all(len: nat, columns: nat)
    requires
        columns >= 1,
    ensures
        row_count(len, columns) * columns >= len,
        len > 0 ==> (row_count(len, columns) - 1) * columns < len,
        len == 0 ==> row_count(len, columns) == 0,
{
    let total = len + columns - 1;
    let rows = total / columns as int;
    vstd::arithmetic::div_mod::lemma_fundamental_div_mod(total, columns as int);
    assert(columns * rows == rows * columns) by (nonlinear_arith);
    assert((rows - 1) * columns == rows * columns - columns) by (nonlinear_arith);
    if len == 0 {
        vstd::arithmetic::div_mod::lemma_basic_div(total, columns as int);
    }
}

/// A text is filled up with spaces to a width; a longer one stays.
pub proof fn a_text_is_filled_up_with_spaces(s: Seq<char>, width: nat, i: int)
    ensures
        s.len() <= width ==> pad_right(s, width).len() == width,
        s.len() > width ==> pad_right(s, width) == s,
        0 <= i < s.len() ==> pad_right(s, width)[i] == s[i],
        s.len() <= i < width ==> pad_right(s, width)[i] == ' ',
{
}

/// An entry shows the name, the parts in hexadecimal in the color itself, and a patch of it.
pub proof fn an_entry_shows_its_color(c: colors::Color, max_name: nat)
    ensures
        cell(c, max_name) == pad_right(c.0, max_name) + " = "@ + "\x1b[38;2;"@ + text::decimal(
            (c.1).0 as nat,
        ) + ";"@ + text::decimal((c.1).1 as nat) + ";"@ + text::decimal((c.1).2 as nat) + "m"@
            + hex_color(c.1) + "\x1b[0m "@ + "\x1b[48;2;"@ + text::decimal((c.1).0 as nat) + ";"@
            + text::decimal((c.1).1 as nat) + ";"@ + text::decimal((c.1).2 as nat) + "m  \x1b[0m"@,
{
    let a = text::decimal((c.1).0 as nat);
    let b = text::decimal((c.1).1 as nat);
    let d = text::decimal((c.1).2 as nat);
    assert(parts(c.1) =~= a + ";"@ + b + ";"@ + d);
    assert(cell(c, max_name) =~= pad_right(c.0, max_name) + " = "@ + "\x1b[38;2;"@ + a + ";"@ + b
        + ";"@ + d + "m"@ + hex_color(c.1) + "\x1b[0m "@ + "\x1b[48;2;"@ + a + ";"@ + b + ";"@ + d
        + "m  \x1b[0m"@);
}

/// Entries run down the columns: the entry of a row and a column is as many rows on for every column
/// before it. Two spaces stand between the entries of a row, and none behind the last.
pub proof fn entries_run_down_the_columns(
    cs: Seq<colors::Color>,
    max_name: nat,
    columns: nat,
    rows: nat,
    row: nat,
    col: nat,
)
    ensures
        row + rows * col >= cs.len() ==> entry(cs, max_name, columns, rows, row, col).len() == 0,
        row + rows * col < cs.len() && (col + 1 == columns || row + rows * col + rows >= cs.len())
            ==> entry(cs, max_name, columns, rows, row, col) == cell(
            cs[(row + rows * col) as int],
            max_name,
        ),
        row + rows * col < cs.len() && col + 1 != columns && row + rows * col + rows < cs.len()
            ==> entry(cs, max_name, columns, rows, row, col) == cell(
            cs[(row + rows * col) as int],
            max_name,
        ) + seq![' ', ' '],
        row_text(cs, max_name, columns, rows, row, 0).len() == 0,
        row_text(cs, max_name, columns, rows, row, col + 1) == row_text(
            cs,
            max_name,
            columns,
            rows,
            row,
            col,
        ) + entry(cs, max_name, columns, rows, row, col),
        rows_text(cs, max_name, columns, rows, 0).len() == 0,
        rows_text(cs, max_name, columns, rows, row + 1) == rows_text(
            cs,
            max_name,
            columns,
            rows,
            row,
        ) + row_text(cs, max_name, columns, rows, row, columns) + seq!['\n'],
{
    reveal_strlit("  ");
    reveal_strlit("\n");
    assert("  "@ =~= seq![' ', ' ']);
    assert("\n"@ =~= seq!['\n']);
    let index = row + rows * col;
    if index < cs.len() {
        let shown = cell(cs[index as int], max_name);
        assert(shown + Seq::<char>::empty() =~= shown);
    }
}

/// The colored list has the columns that fit and the rows that they need; without colors it is empty.
pub proof fn the_colored_list_fills_the_width(cs: Seq<colors::Color>, width: nat)
    ensures
        cs.len() == 0 ==> pretty_text(cs, width).len() == 0,
        cs.len() > 0 ==> pretty_text(cs, width) == rows_text(
            cs,
            longest_name(cs),
            column_count(longest_name(cs), width),
            row_count(cs.len(), column_count(longest_name(cs), width)),
            row_count(cs.len(), column_count(longest_name(cs), width)),
        ),
{
}

/// The colors are put in the order of their names, in small letters; none is lost.
pub proof fn colors_are_put_by_name(cs: Seq<colors::Color>, p: int, q: int, i: int)
    requires
        0 <= p < q < cs.len(),
        0 <= i < cs.len(),
    ensures
        sorted(cs).len() == cs.len(),
        sorted(cs).contains(cs[i]),
        text::text_le(text::lower_ascii(sorted(cs)[p].0), text::lower_ascii(sorted(cs)[q].0)),
{
    let keys = sort_keys(cs);
    let n = cs.len() as int;
    order::texts_are_ordered();
    order::a_stable_order_is_a_permutation(keys, order::by_text(), n);
    order::a_stable_order_is_sorted(keys, order::by_text(), n, p, q);
    order::a_permutation_reaches(keys, order::by_text(), n, i);
    let places = order::stable_order(keys, order::by_text(), n);
    assert(0 <= places[p] < n && 0 <= places[q] < n);
    let w = choose|w: int| 0 <= w < n && places[w] == i;
    assert(sorted(cs)[w] == cs[i]);
    assert(order::by_text()(keys[places[p]], keys[places[q]]));
}

/// The list is as wide as the terminal; where that is not known, 80 columns.
pub proof fn the_list_is_as_wide_as_the_terminal(n: u16)
    ensures
        n > 0 ==> width_for(Some(n)) == n,
        width_for(Some(0u16)) == 80,
        width_for(None) == 80,
{
}

/// The option shows the help.
pub open spec fn asks_for_help(flag: Seq<char>) -> bool {
    flag == "--help"@ || flag == "-h"@
}

/// The first option that is not known, or that shows the help, decides; the rest are not looked at.
pub proof fn the_first_option_decides(flags: Seq<Seq<char>>, i: int, env: CliEnvironment)
    requires
        0 <= i <= flags.len(),
        forall|j: int| 0 <= j < i ==> #[trigger] flags[j] == "--plain"@,
        i < flags.len() ==> flags[i] != "--plain"@,
    ensures
        i < flags.len() && asks_for_help(flags[i]) ==> outcome(flags, env) == cli::printed(help()),
        i < flags.len() && !asks_for_help(flags[i]) ==> outcome(flags, env) == cli::failed(
            "错误:未知选项 `"@ + flags[i] + "`。运行 `eggie +list-colors --help` 查看用法。\n"@,
        ),
        i == flags.len() ==> stops_at(flags, flags.len() as int) is None,
{
    no_stop_in_front(flags, i);
    if i < flags.len() {
        assert(stops_at(flags, i + 1) is Some);
        stop_decides(flags, i + 1, flags.len() as int);
    }
}

proof fn no_stop_in_front(flags: Seq<Seq<char>>, n: int)
    requires
        0 <= n <= flags.len(),
        forall|j: int| 0 <= j < n ==> #[trigger] flags[j] == "--plain"@,
    ensures
        stops_at(flags, n) is None,
    decreases n,
{
    reveal_strlit("--plain");
    reveal_strlit("--help");
    reveal_strlit("-h");
    if n > 0 {
        no_stop_in_front(flags, n - 1);
        assert(flags[n - 1] == "--plain"@);
        assert("--plain"@.len() == 7 && "--help"@.len() == 6 && "-h"@.len() == 2);
    }
}

/// In a terminal the list is colored, unless the plain one is asked for; elsewhere it is plain.
pub proof fn the_list_is_plain_outside_of_a_terminal(env: CliEnvironment)
    ensures
        env.stdout_is_terminal ==> outcome(seq![], env) == cli::printed(
            pretty_text(
                sorted(colors::table_colors(colors::rgb_table())),
                width_for(env.terminal_columns) as nat,
            ),
        ),
        !env.stdout_is_terminal ==> outcome(seq![], env) == cli::printed(
            plain_text(sorted(colors::table_colors(colors::rgb_table()))),
        ),
        outcome(seq!["--plain"@], env) == cli::printed(
            plain_text(sorted(colors::table_colors(colors::rgb_table()))),
        ),
{
    let flags = seq!["--plain"@];
    no_stop_in_front(flags, 1);
    assert(flags[0] == "--plain"@);
    assert(flags.contains("--plain"@));
}

/// The help tells the options.
pub proof fn the_help_tells_the_options()
    ensures
        help() == "用法: eggie +list-colors [--plain]\n\n列出内置的 X11 命名颜色。在终端中运行时以彩色多列布局展示,\n管道输出时退化为纯文本 `name = #rrggbb`(按名称排序)。\n\n选项:\n  --plain  强制纯文本列表(即使在终端中)\n"@,
{
}

} // verus!
