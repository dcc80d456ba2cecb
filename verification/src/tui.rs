//! The browser of themes: a list on the left, and on the right a sample in the colors of the theme
//! that is selected.

use vstd::prelude::*;

use crate::text;
use crate::text::{chars_of, decimal_text, push_hex};
use crate::themes::{TerminalTheme, ThemeCatalog};

verus! {

/// The width of the list.
pub const LIST_WIDTH: u16 = 32;

/// How many rows a page key moves.
pub const PAGE: usize = 20;

/// Which themes the list shows.
#[derive(Clone, Copy, Debug, PartialEq, Eq, Structural)]
pub enum Filter {
    /// All of them.
    All,
    /// The dark ones.
    Dark,
    /// The light ones.
    Light,
}

impl Filter {
    /// The filter that follows when the user cycles through them.
    pub fn next(self) -> (r: Filter)
        ensures
            r == match self {
                Filter::All => Filter::Dark,
                Filter::Dark => Filter::Light,
                Filter::Light => Filter::All,
            },
    {
        match self {
            Filter::All => Filter::Dark,
            Filter::Dark => Filter::Light,
            Filter::Light => Filter::All,
        }
    }
}

/// What a key asks for.
#[derive(Clone, Copy, Debug, PartialEq, Eq, Structural)]
pub enum Action {
    /// Leave the browser.
    Quit,
    /// Move so many rows up.
    Up(usize),
    /// Move so many rows down.
    Down(usize),
    /// Go to the first row.
    Home,
    /// Go to the last row.
    End,
    /// Number the palette in hexadecimal, or in decimal.
    Hex(bool),
    /// Show the next selection of themes.
    CycleFilter,
    /// Nothing.
    Nothing,
}

/// A color by its parts.
#[derive(Clone, Copy, Debug, PartialEq, Eq, Structural)]
pub struct Rgb {
    /// Red.
    pub r: u8,
    /// Green.
    pub g: u8,
    /// Blue.
    pub b: u8,
}

/// The colors of the list.
#[derive(Clone, Copy, Debug, PartialEq, Eq, Structural)]
pub struct UiPalette {
    /// Text.
    pub fg: Rgb,
    /// Background.
    pub bg: Rgb,
    /// Behind the row under the pointer.
    pub hover_bg: Rgb,
    /// The text of the selected row.
    pub sel_fg: Rgb,
    /// Behind the selected row.
    pub sel_bg: Rgb,
}

/// A gray.
pub open spec fn gray(v: u8) -> Rgb {
    Rgb { r: v, g: v, b: v }
}

/// The colors for a dark or a light system.
pub open spec fn ui_palette(dark: bool) -> UiPalette {
    UiPalette {
        fg: gray(if dark { 0xff } else { 0x00 }),
        bg: gray(if dark { 0x00 } else { 0xff }),
        hover_bg: gray(if dark { 0x22 } else { 0xbb }),
        sel_fg: Rgb { r: 0x00, g: 0xaa, b: 0x00 },
        sel_bg: gray(if dark { 0x33 } else { 0xaa }),
    }
}

impl UiPalette {
    /// The colors for a dark or a light system.
    pub fn new(dark: bool) -> (p: UiPalette)
        ensures
            p == ui_palette(dark),
    {
        if dark {
            UiPalette {
                fg: Rgb { r: 0xff, g: 0xff, b: 0xff },
                bg: Rgb { r: 0x00, g: 0x00, b: 0x00 },
                hover_bg: Rgb { r: 0x22, g: 0x22, b: 0x22 },
                sel_fg: Rgb { r: 0x00, g: 0xaa, b: 0x00 },
                sel_bg: Rgb { r: 0x33, g: 0x33, b: 0x33 },
            }
        } else {
            UiPalette {
                fg: Rgb { r: 0x00, g: 0x00, b: 0x00 },
                bg: Rgb { r: 0xff, g: 0xff, b: 0xff },
                hover_bg: Rgb { r: 0xbb, g: 0xbb, b: 0xbb },
                sel_fg: Rgb { r: 0x00, g: 0xaa, b: 0x00 },
                sel_bg: Rgb { r: 0xaa, g: 0xaa, b: 0xaa },
            }
        }
    }
}

/// The parts of a color written `0xRRGGBB`; what stands above is passed over.
pub fn rgb(color: u32) -> (c: Rgb)
    ensures
        c.r == color as int / 65536 % 256,
        c.g == color as int / 256 % 256,
        c.b == color as int % 256,
{
    Rgb {
        r: (color / 65536 % 256) as u8,
        g: (color / 256 % 256) as u8,
        b: (color % 256) as u8,
    }
}

/// A rectangle of the screen.
#[derive(Clone, Copy, Debug, PartialEq, Eq, Structural)]
pub struct Area {
    /// The first column.
    pub x: u16,
    /// The first row.
    pub y: u16,
    /// How many columns.
    pub width: u16,
    /// How many rows.
    pub height: u16,
}

impl Area {
    /// Whether a cell lies in the rectangle.
    pub open spec fn holds(self, col: u16, row: u16) -> bool {
        self.x <= col < self.x + self.width && self.y <= row < self.y + self.height
    }

    /// The column behind the last one.
    pub open spec fn right(self) -> int {
        self.x + self.width
    }

    /// The row below the last one.
    pub open spec fn bottom(self) -> int {
        self.y + self.height
    }
}

/// The row of the list under a cell of the screen; none outside the list or below its last row.
pub fn hit_test(list_area: Area, window: usize, filtered_len: usize, col: u16, row: u16) -> (r:
    Option<usize>)
    ensures
        r == if list_area.holds(col, row) && window + (row - list_area.y) < filtered_len {
            Some((window + (row - list_area.y)) as usize)
        } else {
            None
        },
{
    let inside: bool = list_area.x <= col && (col - list_area.x) < list_area.width && list_area.y
        <= row && (row - list_area.y) < list_area.height;
    if !inside {
        return None;
    }
    let offset: usize = (row - list_area.y) as usize;
    if window < filtered_len && offset < filtered_len - window {
        Some(window + offset)
    } else {
        None
    }
}

/// The first row to show so that the current one is among the `height` shown, moving no further
/// than needed.
pub open spec fn scrolled(window: int, current: int, height: int, len: int) -> int {
    if len == 0 || height == 0 {
        0
    } else {
        let down = if current > window + height - 1 {
            current + 1 - height
        } else {
            window
        };
        let up = if current < down {
            current
        } else {
            down
        };
        if up >= len {
            len - 1
        } else {
            up
        }
    }
}

/// The first row to show so that the current one is among the `height` shown.
pub fn scroll_window(window: usize, current: usize, height: usize, len: usize) -> (r: usize)
    ensures
        r == scrolled(window as int, current as int, height as int, len as int),
{
    if len == 0 || height == 0 {
        return 0;
    }
    let mut w: usize = window;
    if current >= w && current - w >= height {
        w = current - (height - 1);
    }
    if current < w {
        w = current;
    }
    if w >= len {
        w = len - 1;
    }
    w
}

/// A current row that there is stays in sight.
pub proof fn the_current_row_is_in_sight(window: int, current: int, height: int, len: int)
    requires
        0 <= window,
        0 <= current < len,
        0 < height,
    ensures
        scrolled(window, current, height, len) <= current < scrolled(window, current, height, len)
            + height,
{
}

/// A list that shows the current row is not scrolled.
pub proof fn a_row_in_sight_moves_nothing(window: int, current: int, height: int, len: int)
    requires
        0 <= window <= current < window + height,
        current < len,
    ensures
        scrolled(window, current, height, len) == window,
{
}

/// The color that an index stands for: one of the palette's sixteen, the neutral gray of the line
/// numbers, or else that of text.
pub open spec fn indexed_color(theme: TerminalTheme, index: int) -> u32 {
    if 0 <= index < 16 {
        theme.palette@[index]
    } else if index == 238 {
        0x444444
    } else {
        theme.foreground
    }
}

/// The color that an index stands for.
pub fn palette_color(theme: &TerminalTheme, index: usize) -> (r: u32)
    ensures
        r == indexed_color(*theme, index as int),
{
    if index < 16 {
        theme.palette[index]
    } else if index == 238 {
        0x444444
    } else {
        theme.foreground
    }
}

/// How many hexadecimal digits a number has.
pub open spec fn hex_width(n: nat) -> nat
    decreases n,
{
    if n < 16 {
        1
    } else {
        1 + hex_width(n / 16)
    }
}

/// The number of a color: in decimal, three wide; or in hexadecimal, two digits behind a space.
pub open spec fn label(index: nat, hex_mode: bool) -> Seq<char> {
    if hex_mode {
        " "@ + text::hex(index, if hex_width(index) < 2 {
            2
        } else {
            hex_width(index)
        })
    } else {
        let digits = text::decimal(index);
        if digits.len() < 3 {
            Seq::new((3 - digits.len()) as nat, |i: int| ' ') + digits
        } else {
            digits
        }
    }
}

fn hex_digits(n: u64) -> (r: usize)
    ensures
        r == hex_width(n as nat),
        r <= 16,
{
    let mut r: usize = 1;
    let mut rest: u64 = n;
    let mut bound: u64 = u64::MAX;
    assert(rest <= bound);
    while rest >= 16
        invariant
            hex_width(n as nat) == hex_width(rest as nat) + r - 1,
            1 <= r <= 16,
            rest <= bound,
            r == 1 ==> bound == 0xffff_ffff_ffff_ffff,
            r == 2 ==> bound == 0x0fff_ffff_ffff_ffff,
            r == 3 ==> bound == 0x00ff_ffff_ffff_ffff,
            r == 4 ==> bound == 0x000f_ffff_ffff_ffff,
            r == 5 ==> bound == 0x0000_ffff_ffff_ffff,
            r == 6 ==> bound == 0x0000_0fff_ffff_ffff,
            r == 7 ==> bound == 0x0000_00ff_ffff_ffff,
            r == 8 ==> bound == 0x0000_000f_ffff_ffff,
            r == 9 ==> bound == 0x0000_0000_ffff_ffff,
            r == 10 ==> bound == 0x0000_0000_0fff_ffff,
            r == 11 ==> bound == 0x0000_0000_00ff_ffff,
            r == 12 ==> bound == 0x0000_0000_000f_ffff,
            r == 13 ==> bound == 0x0000_0000_0000_ffff,
            r == 14 ==> bound == 0x0000_0000_0000_0fff,
            r == 15 ==> bound == 0x0000_0000_0000_00ff,
            r == 16 ==> bound == 0x0000_0000_0000_000f,
        decreases rest,
    {
        rest = rest / 16;
        bound = bound / 16;
        r = r + 1;
    }
    r
}

/// The number of a color, as it stands beside its swatch.
pub fn palette_label(index: usize, hex_mode: bool) -> (r: String)
    ensures
        r@ == label(index as nat, hex_mode),
{
    let mut out: String = String::new();
    if hex_mode {
        out.append(" ");
        let width: usize = hex_digits(index as u64);
        push_hex(
            &mut out,
            index as u128,
            if width < 2 {
                2
            } else {
                width
            },
        );
        assert(out@ =~= label(index as nat, hex_mode));
    } else {
        let digits: String = decimal_text(index as u64);
        let n: usize = chars_of(digits.as_str()).len();
        if n < 1 {
            out.append("   ");
        } else if n < 2 {
            out.append("  ");
        } else if n < 3 {
            out.append(" ");
        }
        proof {
            reveal_strlit("   ");
            reveal_strlit("  ");
            reveal_strlit(" ");
        }
        out.append(digits.as_str());
        assert(out@ =~= label(index as nat, hex_mode));
    }
    out
}

/// A key of the keyboard, as far as the browser tells keys apart.
#[derive(Clone, Copy, Debug, PartialEq, Eq, Structural)]
pub enum KeyCode {
    /// Escape.
    Esc,
    /// Cursor up.
    Up,
    /// Cursor down.
    Down,
    /// Page up.
    PageUp,
    /// Page down.
    PageDown,
    /// Home.
    Home,
    /// End.
    End,
    /// A character.
    Char(char),
    /// Any other.
    Other,
}

/// A key that was pressed.
#[derive(Clone, Copy, Debug, PartialEq, Eq, Structural)]
pub struct KeyEvent {
    /// Which one.
    pub code: KeyCode,
    /// Whether the control key was held.
    pub control: bool,
}

/// What a key asks for.
pub open spec fn key_action(key: KeyEvent) -> Action {
    if key.control && key.code == KeyCode::Char('c') {
        Action::Quit
    } else {
        match key.code {
            KeyCode::Esc => Action::Quit,
            KeyCode::Up => Action::Up(1),
            KeyCode::Down => Action::Down(1),
            KeyCode::PageUp => Action::Up(PAGE),
            KeyCode::PageDown => Action::Down(PAGE),
            KeyCode::Home => Action::Home,
            KeyCode::End => Action::End,
            KeyCode::Char(c) => if c == 'q' {
                Action::Quit
            } else if c == 'k' {
                Action::Up(1)
            } else if c == 'j' {
                Action::Down(1)
            } else if c == 'g' {
                Action::Home
            } else if c == 'G' {
                Action::End
            } else if c == 'h' || c == 'x' {
                Action::Hex(true)
            } else if c == 'd' {
                Action::Hex(false)
            } else if c == 'f' {
                Action::CycleFilter
            } else {
                Action::Nothing
            },
            KeyCode::Other => Action::Nothing,
        }
    }
}

/// What a key asks for.
pub fn key_to_action(key: KeyEvent) -> (r: Action)
    ensures
        r == key_action(key),
{
    match key.code {
        KeyCode::Esc => Action::Quit,
        KeyCode::Up => Action::Up(1),
        KeyCode::Down => Action::Down(1),
        KeyCode::PageUp => Action::Up(PAGE),
        KeyCode::PageDown => Action::Down(PAGE),
        KeyCode::Home => Action::Home,
        KeyCode::End => Action::End,
        KeyCode::Char(c) => if c == 'q' || (key.control && c == 'c') {
            Action::Quit
        } else if c == 'k' {
            Action::Up(1)
        } else if c == 'j' {
            Action::Down(1)
        } else if c == 'g' {
            Action::Home
        } else if c == 'G' {
            Action::End
        } else if c == 'h' || c == 'x' {
            Action::Hex(true)
        } else if c == 'd' {
            Action::Hex(false)
        } else if c == 'f' {
            Action::CycleFilter
        } else {
            Action::Nothing
        },
        KeyCode::Other => Action::Nothing,
    }
}

/// What the mouse did, as far as the browser tells it apart.
#[derive(Clone, Copy, Debug, PartialEq, Eq, Structural)]
pub enum MouseKind {
    /// The wheel was turned up.
    ScrollUp,
    /// The wheel was turned down.
    ScrollDown,
    /// The pointer moved, a button held or not.
    Moved,
    /// The left button was let go.
    LeftUp,
    /// Anything else.
    Other,
}

/// What happened on the terminal.
#[derive(Clone, Copy, Debug, PartialEq, Eq, Structural)]
pub enum Event {
    /// A key was pressed.
    Key(KeyEvent),
    /// The mouse, and the cell under it.
    Mouse {
        /// What it did.
        kind: MouseKind,
        /// The column of the cell.
        column: u16,
        /// The row of the cell.
        row: u16,
    },
    /// The terminal has a new size.
    Resize,
    /// Anything else.
    Other,
}

/// The state of the browser.
#[derive(Clone, Debug)]
pub struct App {
    /// The names of the themes, sorted.
    pub names: Vec<String>,
    /// The positions in `names` that the filter lets through.
    pub filtered: Vec<usize>,
    /// The selected row, a position in `filtered`.
    pub current: usize,
    /// The first row in sight.
    pub window: usize,
    /// The row under the pointer.
    pub hover: Option<usize>,
    /// Whether the palette is numbered in hexadecimal.
    pub hex: bool,
    /// Which themes are shown.
    pub filter: Filter,
    /// The colors of the list.
    pub ui: UiPalette,
    /// Where the list was drawn last.
    pub list_area: Area,
    /// Whether the user asked to leave.
    pub should_quit: bool,
}

/// Whether the filter lets a theme through. A name that no theme has passes only where all do.
pub open spec fn lets_through(catalog: ThemeCatalog, filter: Filter, name: Seq<char>) -> bool {
    match filter {
        Filter::All => true,
        Filter::Dark => catalog.find(name) matches Some(t) && t.dark,
        Filter::Light => catalog.find(name) matches Some(t) && !t.dark,
    }
}

/// The positions below `n` whose names the filter lets through, in order.
pub open spec fn let_through(
    catalog: ThemeCatalog,
    filter: Filter,
    names: Seq<String>,
    n: int,
) -> Seq<usize>
    decreases n,
{
    if n <= 0 {
        seq![]
    } else if lets_through(catalog, filter, names[n - 1]@) {
        let_through(catalog, filter, names, n - 1).push((n - 1) as usize)
    } else {
        let_through(catalog, filter, names, n - 1)
    }
}

/// The nearest row that there is; the first where there is none.
pub open spec fn clamped(current: usize, len: nat) -> int {
    if len == 0 {
        0
    } else if current >= len {
        len - 1
    } else {
        current as int
    }
}

impl App {
    /// The list holds what the filter lets through, and the selected row is one of it.
    pub open spec fn wf(&self, catalog: ThemeCatalog) -> bool {
        &&& self.filtered@ == let_through(
            catalog,
            self.filter,
            self.names@,
            self.names@.len() as int,
        )
        &&& self.filtered@.len() == 0 ==> self.current == 0
        &&& self.filtered@.len() > 0 ==> self.current < self.filtered@.len()
    }

    /// The state after an action that leaves the filter alone.
    pub open spec fn after(self, action: Action) -> App {
        let len = self.filtered@.len();
        match action {
            Action::Quit => App { should_quit: true, ..self },
            Action::Up(n) => App {
                current: (if self.current >= n { self.current - n } else { 0 }) as usize,
                ..self
            },
            Action::Down(n) => if len == 0 {
                self
            } else {
                App {
                    current: (if self.current + n < len {
                        self.current + n
                    } else {
                        len - 1
                    }) as usize,
                    ..self
                }
            },
            Action::Home => App { current: 0, ..self },
            Action::End => if len == 0 {
                self
            } else {
                App { current: (len - 1) as usize, ..self }
            },
            Action::Hex(value) => App { hex: value, ..self },
            Action::CycleFilter => self,
            Action::Nothing => self,
        }
    }

    /// The filter that an action leaves behind.
    pub open spec fn filter_after(self, action: Action) -> Filter {
        if action == Action::CycleFilter {
            match self.filter {
                Filter::All => Filter::Dark,
                Filter::Dark => Filter::Light,
                Filter::Light => Filter::All,
            }
        } else {
            self.filter
        }
    }

    /// The browser on its first screen: all themes, the first selected.
    pub fn new(names: Vec<String>, dark_ui: bool, catalog: &ThemeCatalog) -> (app: App)
        ensures
            app.wf(*catalog),
            app.names == names,
            app.filter == Filter::All,
            app.current == 0,
            app.window == 0,
            app.hover is None,
            !app.hex,
            !app.should_quit,
            app.list_area == (Area { x: 0, y: 0, width: 0, height: 0 }),
            app.ui == ui_palette(dark_ui),
    {
        let mut app: App = App {
            names,
            filtered: Vec::new(),
            current: 0,
            window: 0,
            hover: None,
            hex: false,
            filter: Filter::All,
            ui: UiPalette::new(dark_ui),
            list_area: Area { x: 0, y: 0, width: 0, height: 0 },
            should_quit: false,
        };
        app.recompute_filtered(catalog);
        app
    }

    /// Fills the list anew, and moves the selection to a row that there is.
    pub fn recompute_filtered(&mut self, catalog: &ThemeCatalog)
        ensures
            final(self).wf(*catalog),
            final(self).filtered@ == let_through(
                *catalog,
                old(self).filter,
                old(self).names@,
                old(self).names@.len() as int,
            ),
            final(self).current == clamped(old(self).current, final(self).filtered@.len()),
            final(self).same_but_the_list(*old(self)),
    {
        let mut filtered: Vec<usize> = Vec::new();
        let mut i: usize = 0;
        while i < self.names.len()
            invariant
                i <= self.names@.len(),
                *self == *old(self),
                filtered@ == let_through(*catalog, self.filter, self.names@, i as int),
            decreases self.names@.len() - i,
        {
            let name: &str = self.names[i].as_str();
            let keep: bool = match self.filter {
                Filter::All => true,
                Filter::Dark => match catalog.theme_by_name(name) {
                    Some(t) => t.is_dark(),
                    None => false,
                },
                Filter::Light => match catalog.theme_by_name(name) {
                    Some(t) => !t.is_dark(),
                    None => false,
                },
            };
            if keep {
                filtered.push(i);
            }
            i = i + 1;
        }
        self.filtered = filtered;
        if self.filtered.len() == 0 {
            self.current = 0;
        } else if self.current >= self.filtered.len() {
            self.current = self.filtered.len() - 1;
        }
    }

    /// Two states that differ in the list and the selected row alone.
    pub open spec fn same_but_the_list(self, other: App) -> bool {
        &&& self.names == other.names
        &&& self.window == other.window
        &&& self.hover == other.hover
        &&& self.hex == other.hex
        &&& self.filter == other.filter
        &&& self.ui == other.ui
        &&& self.list_area == other.list_area
        &&& self.should_quit == other.should_quit
    }

    /// The theme that is selected.
    pub open spec fn selected(self, catalog: ThemeCatalog) -> Option<TerminalTheme> {
        if self.current < self.filtered@.len() && self.filtered@[self.current as int]
            < self.names@.len() {
            catalog.find(self.names@[self.filtered@[self.current as int] as int]@)
        } else {
            None
        }
    }

    /// The theme that is selected.
    pub fn selected_theme<'a>(&self, catalog: &'a ThemeCatalog) -> (r: Option<&'a TerminalTheme>)
        ensures
            match (r, self.selected(*catalog)) {
                (Some(t), Some(k)) => *t == k,
                (None, None) => true,
                _ => false,
            },
    {
        if self.current < self.filtered.len() {
            let at: usize = self.filtered[self.current];
            if at < self.names.len() {
                return catalog.theme_by_name(self.names[at].as_str());
            }
        }
        None
    }

    /// Moves the selection up, to the first row at most.
    pub fn move_up(&mut self, count: usize)
        ensures
            final(self).current == if old(self).current >= count {
                old(self).current - count
            } else {
                0
            },
            final(self).filtered == old(self).filtered,
            final(self).same_but_the_list(*old(self)),
    {
        self.current = if self.current >= count {
            self.current - count
        } else {
            0
        };
    }

    /// Moves the selection down, to the last row at most.
    pub fn move_down(&mut self, count: usize)
        ensures
            final(self).current == if old(self).filtered@.len() == 0 {
                old(self).current as int
            } else if old(self).current + count < old(self).filtered@.len() {
                old(self).current + count
            } else {
                old(self).filtered@.len() - 1
            },
            final(self).filtered == old(self).filtered,
            final(self).same_but_the_list(*old(self)),
    {
        let len: usize = self.filtered.len();
        if len > 0 {
            self.current = if self.current < len && count < len - self.current {
                self.current + count
            } else {
                len - 1
            };
        }
    }

    /// Does what a key asks for.
    pub fn apply(&mut self, action: Action, catalog: &ThemeCatalog)
        ensures
            old(self).wf(*catalog) ==> final(self).wf(*catalog),
            final(self).filter == old(self).filter_after(action),
            action != Action::CycleFilter ==> {
                let k = old(self).after(action);
                &&& final(self).current == k.current
                &&& final(self).hex == k.hex
                &&& final(self).should_quit == k.should_quit
                &&& final(self).filtered == k.filtered
            },
            action == Action::CycleFilter ==> {
                &&& final(self).filtered@ == let_through(
                    *catalog,
                    final(self).filter,
                    old(self).names@,
                    old(self).names@.len() as int,
                )
                &&& final(self).current == clamped(old(self).current, final(self).filtered@.len())
                &&& final(self).hex == old(self).hex
                &&& final(self).should_quit == old(self).should_quit
            },
            final(self).names == old(self).names,
            final(self).window == old(self).window,
            final(self).hover == old(self).hover,
            final(self).ui == old(self).ui,
            final(self).list_area == old(self).list_area,
    {
        match action {
            Action::Quit => {
                self.should_quit = true;
            },
            Action::Up(n) => {
                self.move_up(n);
            },
            Action::Down(n) => {
                self.move_down(n);
            },
            Action::Home => {
                self.current = 0;
            },
            Action::End => {
                if self.filtered.len() > 0 {
                    self.current = self.filtered.len() - 1;
                }
            },
            Action::Hex(value) => {
                self.hex = value;
            },
            Action::CycleFilter => {
                self.filter = self.filter.next();
                self.recompute_filtered(catalog);
            },
            Action::Nothing => {},
        }
    }

    /// The row under a cell, by where the list was drawn last.
    pub open spec fn row_under(self, column: u16, row: u16) -> Option<usize> {
        let at = self.window + (row - self.list_area.y);
        if self.list_area.holds(column, row) && at < self.filtered@.len() {
            Some(at as usize)
        } else {
            None
        }
    }

    /// The row under the pointer after the mouse did something.
    pub open spec fn hover_after(self, kind: MouseKind, column: u16, row: u16) -> Option<usize> {
        match kind {
            MouseKind::ScrollUp | MouseKind::ScrollDown => None,
            MouseKind::Moved => self.row_under(column, row),
            _ => self.hover,
        }
    }

    /// The selected row after the mouse did something.
    pub open spec fn current_after(self, kind: MouseKind, column: u16, row: u16) -> int {
        let len = self.filtered@.len();
        match kind {
            MouseKind::ScrollUp => if self.current >= 1 {
                self.current - 1
            } else {
                0
            },
            MouseKind::ScrollDown => if len == 0 {
                self.current as int
            } else if self.current + 1 < len {
                self.current + 1
            } else {
                len - 1
            },
            MouseKind::LeftUp => match self.row_under(column, row) {
                Some(i) => i as int,
                None => self.current as int,
            },
            _ => self.current as int,
        }
    }

    /// The wheel moves the selection; in the list the pointer marks a row, and a click selects it.
    pub fn handle_mouse(&mut self, kind: MouseKind, column: u16, row: u16)
        ensures
            final(self).hover == old(self).hover_after(kind, column, row),
            final(self).current == old(self).current_after(kind, column, row),
            final(self).names == old(self).names,
            final(self).filtered == old(self).filtered,
            final(self).window == old(self).window,
            final(self).hex == old(self).hex,
            final(self).filter == old(self).filter,
            final(self).ui == old(self).ui,
            final(self).list_area == old(self).list_area,
            final(self).should_quit == old(self).should_quit,
    {
        match kind {
            MouseKind::ScrollUp => {
                self.hover = None;
                self.move_up(1);
            },
            MouseKind::ScrollDown => {
                self.hover = None;
                self.move_down(1);
            },
            MouseKind::Moved => {
                self.hover = hit_test(
                    self.list_area,
                    self.window,
                    self.filtered.len(),
                    column,
                    row,
                );
            },
            MouseKind::LeftUp => {
                match hit_test(self.list_area, self.window, self.filtered.len(), column, row) {
                    Some(index) => {
                        self.current = index;
                    },
                    None => {},
                }
            },
            MouseKind::Other => {},
        }
    }

    /// Takes in what happened on the terminal. A key or a new size takes the mark of the pointer
    /// away.
    pub fn handle_event(&mut self, event: Event, catalog: &ThemeCatalog)
        ensures
            old(self).wf(*catalog) ==> final(self).wf(*catalog),
            final(self).names == old(self).names,
            final(self).window == old(self).window,
            final(self).list_area == old(self).list_area,
            final(self).ui == old(self).ui,
            match event {
                Event::Key(key) => {
                    let action = key_action(key);
                    &&& final(self).hover is None
                    &&& final(self).filter == old(self).filter_after(action)
                    &&& action != Action::CycleFilter ==> {
                        let k = old(self).after(action);
                        &&& final(self).current == k.current
                        &&& final(self).hex == k.hex
                        &&& final(self).should_quit == k.should_quit
                        &&& final(self).filtered == k.filtered
                    }
                    &&& action == Action::CycleFilter ==> {
                        &&& final(self).filtered@ == let_through(
                            *catalog,
                            final(self).filter,
                            old(self).names@,
                            old(self).names@.len() as int,
                        )
                        &&& final(self).current == clamped(
                            old(self).current,
                            final(self).filtered@.len(),
                        )
                        &&& final(self).hex == old(self).hex
                        &&& final(self).should_quit == old(self).should_quit
                    }
                },
                Event::Mouse { kind, column, row } => {
                    &&& final(self).hover == old(self).hover_after(kind, column, row)
                    &&& final(self).current == old(self).current_after(kind, column, row)
                    &&& final(self).filtered == old(self).filtered
                    &&& final(self).filter == old(self).filter
                    &&& final(self).hex == old(self).hex
                    &&& final(self).should_quit == old(self).should_quit
                },
                Event::Resize => {
                    &&& final(self).hover is None
                    &&& final(self).current == old(self).current
                    &&& final(self).filtered == old(self).filtered
                    &&& final(self).filter == old(self).filter
                    &&& final(self).hex == old(self).hex
                    &&& final(self).should_quit == old(self).should_quit
                },
                Event::Other => *final(self) == *old(self),
            },
    {
        match event {
            Event::Key(key) => {
                self.hover = None;
                let action: Action = key_to_action(key);
                self.apply(action, catalog);
            },
            Event::Mouse { kind, column, row } => {
                self.handle_mouse(kind, column, row);
            },
            Event::Resize => {
                self.hover = None;
            },
            Event::Other => {},
        }
    }

    /// Lays out the screen: the list on the left, at most `LIST_WIDTH` wide, and the sample beside
    /// it where there is room. The list is scrolled so that the selected row is in sight.
    pub fn lay_out(&mut self, area: Area) -> (r: Option<Area>)
        requires
            area.right() <= u16::MAX,
        ensures
            ({
                let width = if area.width < LIST_WIDTH {
                    area.width
                } else {
                    LIST_WIDTH
                };
                &&& final(self).list_area == (Area { width, ..area })
                &&& r == if area.width > width {
                    Some(
                        Area {
                            x: (area.x + width) as u16,
                            y: area.y,
                            width: (area.width - width) as u16,
                            height: area.height,
                        },
                    )
                } else {
                    None
                }
            }),
            final(self).window == scrolled(
                old(self).window as int,
                old(self).current as int,
                area.height as int,
                old(self).filtered@.len() as int,
            ),
            final(self).names == old(self).names,
            final(self).filtered == old(self).filtered,
            final(self).current == old(self).current,
            final(self).hover == old(self).hover,
            final(self).hex == old(self).hex,
            final(self).filter == old(self).filter,
            final(self).ui == old(self).ui,
            final(self).should_quit == old(self).should_quit,
    {
        let width: u16 = if area.width < LIST_WIDTH {
            area.width
        } else {
            LIST_WIDTH
        };
        self.list_area = Area { x: area.x, y: area.y, width, height: area.height };
        self.window = scroll_window(
            self.window,
            self.current,
            area.height as usize,
            self.filtered.len(),
        );
        if area.width > width {
            Some(
                Area {
                    x: area.x + width,
                    y: area.y,
                    width: area.width - width,
                    height: area.height,
                },
            )
        } else {
            None
        }
    }

    /// The row of the list to draw `row` rows below its top: the position in `names`, and how it
    /// is marked. None below the last row.
    pub fn list_row(&self, row: u16) -> (r: Option<(usize, RowMark)>)
        ensures
            r == self.row_at(row),
    {
        let offset: usize = row as usize;
        if self.window < self.filtered.len() && offset < self.filtered.len() - self.window {
            let index: usize = self.window + offset;
            let mark: RowMark = if index == self.current {
                RowMark::Selected
            } else {
                match self.hover {
                    Some(h) => if h == index {
                        RowMark::Hovered
                    } else {
                        RowMark::Plain
                    },
                    None => RowMark::Plain,
                }
            };
            Some((self.filtered[index], mark))
        } else {
            None
        }
    }

    /// What stands `row` rows below the top of the list.
    pub open spec fn row_at(self, row: u16) -> Option<(usize, RowMark)> {
        let index = self.window + row;
        if index < self.filtered@.len() {
            Some(
                (
                    self.filtered@[index],
                    if index == self.current {
                        RowMark::Selected
                    } else if self.hover == Some(index as usize) {
                        RowMark::Hovered
                    } else {
                        RowMark::Plain
                    },
                ),
            )
        } else {
            None
        }
    }
}

/// How a row of the list is marked. The selected one keeps its mark under the pointer.
#[derive(Clone, Copy, Debug, PartialEq, Eq, Structural)]
pub enum RowMark {
    /// Selected.
    Selected,
    /// Under the pointer.
    Hovered,
    /// Not at all.
    Plain,
}

/// Every shown position is one that the filter lets through, and all of those are shown.
pub proof fn the_list_is_what_passes(
    catalog: ThemeCatalog,
    filter: Filter,
    names: Seq<String>,
    n: int,
    i: usize,
)
    requires
        0 <= n <= names.len(),
        names.len() <= usize::MAX,
    ensures
        let_through(catalog, filter, names, n).contains(i) <==> i < n && lets_through(
            catalog,
            filter,
            names[i as int]@,
        ),
    decreases n,
{
    if n > 0 {
        the_list_is_what_passes(catalog, filter, names, n - 1, i);
        let rest = let_through(catalog, filter, names, n - 1);
        let all = let_through(catalog, filter, names, n);
        if lets_through(catalog, filter, names[n - 1]@) {
            assert(all[rest.len() as int] == (n - 1) as usize);
            if rest.contains(i) {
                let k = choose|k: int| 0 <= k < rest.len() && rest[k] == i;
                assert(all[k] == i);
            }
            if all.contains(i) {
                let k = choose|k: int| 0 <= k < all.len() && all[k] == i;
                if k < rest.len() {
                    assert(rest[k] == i);
                }
            }
        }
    } else {
        assert(!let_through(catalog, filter, names, n).contains(i));
    }
}

/// Cycling through the filters three times comes back to the first.
pub proof fn three_cycles_come_back(a: App, b: App, c: App)
    requires
        b.filter == a.filter_after(Action::CycleFilter),
        c.filter == b.filter_after(Action::CycleFilter),
    ensures
        c.filter_after(Action::CycleFilter) == a.filter,
{
}

/// The arrows mean what the letters mean, whether or not Control is held: Down is `j` and goes one row
/// down, Up is `k` and goes one row up, Home is `g` and End is `G`. The page keys move by twenty rows,
/// each the other way.
pub proof fn arrows_mean_what_letters_mean(key: KeyEvent, control: bool)
    ensures
        key.code == KeyCode::Down || key.code == KeyCode::Char('j') ==> key_action(key)
            == Action::Down(1),
        key.code == KeyCode::Up || key.code == KeyCode::Char('k') ==> key_action(key) == Action::Up(
            1,
        ),
        key.code == KeyCode::PageDown ==> key_action(key) == Action::Down(20),
        key.code == KeyCode::PageUp ==> key_action(key) == Action::Up(20),
        key.code == KeyCode::Home || key.code == KeyCode::Char('g') ==> key_action(key)
            == Action::Home,
        key.code == KeyCode::End || key.code == KeyCode::Char('G') ==> key_action(key)
            == Action::End,
        key.code != KeyCode::Char('c') ==> key_action(key) == key_action(
            KeyEvent { control, ..key },
        ),
{
}

/// Escape, `q` and Control with `c` leave the browser, and no other key does. `h` and `x` number in
/// hexadecimal, `d` in decimal, `f` shows the next selection of themes, and the remaining keys do
/// nothing.
pub proof fn the_other_keys_do_what_they_say(key: KeyEvent, c: char)
    ensures
        key_action(key) == Action::Quit <==> (key.code == KeyCode::Esc || key.code == KeyCode::Char(
            'q',
        ) || (key.control && key.code == KeyCode::Char('c'))),
        key_action(key) == Action::Hex(true) <==> (key.code == KeyCode::Char('h') || key.code
            == KeyCode::Char('x')),
        key_action(key) == Action::Hex(false) <==> key.code == KeyCode::Char('d'),
        key_action(key) == Action::CycleFilter <==> key.code == KeyCode::Char('f'),
        key.code == KeyCode::Other ==> key_action(key) == Action::Nothing,
        key.code == KeyCode::Char(c) && !key.control && c != 'q' && c != 'k' && c != 'j' && c != 'g'
            && c != 'G' && c != 'h' && c != 'x' && c != 'd' && c != 'f' ==> key_action(key)
            == Action::Nothing,
{
}

/// A key down selects the next row where there is one and stays on the last; a key up selects the row
/// before and stays on the first. A step down and a step up come back.
pub proof fn a_step_moves_by_one_row(app: App, down: KeyEvent, up: KeyEvent, catalog: ThemeCatalog)
    requires
        app.wf(catalog),
        app.filtered@.len() <= usize::MAX,
        down.code == KeyCode::Down,
        up.code == KeyCode::Up,
    ensures
        app.current + 1 < app.filtered@.len() ==> app.after(key_action(down)).current == app.current
            + 1,
        app.current + 1 == app.filtered@.len() ==> app.after(key_action(down)).current
            == app.current,
        app.current > 0 ==> app.after(key_action(up)).current == app.current - 1,
        app.current == 0 ==> app.after(key_action(up)).current == 0,
        app.current + 1 < app.filtered@.len() ==> app.after(key_action(down)).after(
            key_action(up),
        ).current == app.current,
{
}

/// Moving goes as many rows as asked for, and stops at the first and the last row; Home and End go
/// there at once.
pub proof fn moving_stops_at_the_ends(app: App, n: usize, catalog: ThemeCatalog)
    requires
        app.wf(catalog),
        app.filtered@.len() <= usize::MAX,
    ensures
        app.current >= n ==> app.after(Action::Up(n)).current == app.current - n,
        app.current < n ==> app.after(Action::Up(n)).current == 0,
        app.current + n < app.filtered@.len() ==> app.after(Action::Down(n)).current == app.current
            + n,
        app.filtered@.len() > 0 && app.current + n >= app.filtered@.len() ==> app.after(
            Action::Down(n),
        ).current == app.filtered@.len() - 1,
        app.after(Action::Home).current == 0,
        app.filtered@.len() > 0 ==> app.after(Action::End).current == app.filtered@.len() - 1,
        app.filtered@.len() == 0 ==> app.after(Action::Down(n)).current == 0 && app.after(
            Action::End,
        ).current == 0,
{
}

/// Each action changes only what it names: moving leaves the list, the numbering and the browser as
/// they are, and so on.
pub proof fn an_action_changes_only_what_it_names(app: App, action: Action)
    ensures
        app.after(action).filtered == app.filtered,
        app.after(action).should_quit == (app.should_quit || action == Action::Quit),
        !(action is Hex) ==> app.after(action).hex == app.hex,
        action matches Action::Hex(on) ==> app.after(action).hex == on,
        action is Quit || action is Hex || action is CycleFilter || action is Nothing ==> app.after(
            action,
        ).current == app.current,
        !(action is CycleFilter) ==> app.filter_after(action) == app.filter,
{
}

/// The filters follow one another from all themes to the dark ones to the light ones.
pub proof fn filters_follow_one_another(app: App)
    ensures
        app.filter == Filter::All ==> app.filter_after(Action::CycleFilter) == Filter::Dark,
        app.filter == Filter::Dark ==> app.filter_after(Action::CycleFilter) == Filter::Light,
        app.filter == Filter::Light ==> app.filter_after(Action::CycleFilter) == Filter::All,
{
}

/// All themes pass the first filter; the dark ones pass the second, and the light ones the third, so
/// that a theme passes exactly one of these two.
pub proof fn a_filter_passes_its_kind(catalog: ThemeCatalog, name: Seq<char>)
    ensures
        lets_through(catalog, Filter::All, name),
        catalog.find(name) matches Some(t) ==> lets_through(catalog, Filter::Dark, name) == t.dark
            && lets_through(catalog, Filter::Light, name) == !t.dark,
        catalog.find(name) is None ==> !lets_through(catalog, Filter::Dark, name) && !lets_through(
            catalog,
            Filter::Light,
            name,
        ),
{
}

/// The list keeps the order of the names and shows none of them twice.
pub proof fn the_list_keeps_the_order(
    catalog: ThemeCatalog,
    filter: Filter,
    names: Seq<String>,
    n: int,
    i: int,
    j: int,
)
    requires
        0 <= n <= names.len(),
        names.len() <= usize::MAX,
        0 <= i < j < let_through(catalog, filter, names, n).len(),
    ensures
        let_through(catalog, filter, names, n)[i] < let_through(catalog, filter, names, n)[j] < n,
    decreases n,
{
    let rest = let_through(catalog, filter, names, n - 1);
    let all = let_through(catalog, filter, names, n);
    if lets_through(catalog, filter, names[n - 1]@) {
        assert(rest[i] == all[i]);
        assert(rest.contains(rest[i]));
        the_list_is_what_passes(catalog, filter, names, n - 1, rest[i]);
        if j < rest.len() {
            the_list_keeps_the_order(catalog, filter, names, n - 1, i, j);
        }
    } else {
        the_list_keeps_the_order(catalog, filter, names, n - 1, i, j);
    }
}

/// A selection beyond the end of a new list moves to its last row, and one inside it stays.
pub proof fn a_selection_stays_in_the_list(current: usize, len: nat)
    ensures
        len == 0 ==> clamped(current, len) == 0,
        current < len ==> clamped(current, len) == current,
        0 < len <= current ==> clamped(current, len) == len - 1,
{
}

/// The theme that is selected is the one whose name stands in the selected row.
pub proof fn the_selected_theme_is_that_of_the_row(app: App, catalog: ThemeCatalog)
    requires
        app.wf(catalog),
        app.names@.len() <= usize::MAX,
        app.filtered@.len() > 0,
    ensures
        app.filtered@[app.current as int] < app.names@.len(),
        app.selected(catalog) == catalog.find(
            app.names@[app.filtered@[app.current as int] as int]@,
        ),
        app.filter == Filter::Dark ==> (app.selected(catalog) matches Some(t) && t.dark),
        app.filter == Filter::Light ==> (app.selected(catalog) matches Some(t) && !t.dark),
{
    let at = app.filtered@[app.current as int];
    assert(app.filtered@.contains(at));
    the_list_is_what_passes(
        catalog,
        app.filter,
        app.names@,
        app.names@.len() as int,
        at,
    );
}

/// The wheel moves the selection by one row, up or down, as the arrows do, and takes the mark of the
/// pointer away.
pub proof fn the_wheel_moves_as_the_arrows_do(app: App, column: u16, row: u16, catalog: ThemeCatalog)
    requires
        app.wf(catalog),
        app.filtered@.len() <= usize::MAX,
    ensures
        app.current_after(MouseKind::ScrollUp, column, row) == app.after(Action::Up(1)).current,
        app.current_after(MouseKind::ScrollDown, column, row) == app.after(Action::Down(1)).current,
        app.current > 0 ==> app.current_after(MouseKind::ScrollUp, column, row) == app.current - 1,
        app.current + 1 < app.filtered@.len() ==> app.current_after(
            MouseKind::ScrollDown,
            column,
            row,
        ) == app.current + 1,
        app.hover_after(MouseKind::ScrollUp, column, row) is None,
        app.hover_after(MouseKind::ScrollDown, column, row) is None,
{
}

/// A click selects the row that is drawn under the pointer and marks nothing; moving the pointer marks
/// that row and selects nothing. Outside the list and below its last row a click selects nothing, and
/// no row is marked.
pub proof fn a_click_selects_what_is_drawn_there(app: App, column: u16, row: u16)
    requires
        app.filtered@.len() <= usize::MAX,
    ensures
        ({
            let inside = app.list_area.x <= column && column < app.list_area.x + app.list_area.width
                && app.list_area.y <= row && row < app.list_area.y + app.list_area.height;
            let at = app.window + row - app.list_area.y;
            &&& inside && at < app.filtered@.len() ==> app.current_after(
                MouseKind::LeftUp,
                column,
                row,
            ) == at && app.hover_after(MouseKind::Moved, column, row) == Some(at as usize)
            &&& !inside || at >= app.filtered@.len() ==> app.current_after(
                MouseKind::LeftUp,
                column,
                row,
            ) == app.current && app.hover_after(MouseKind::Moved, column, row) is None
            &&& app.current_after(MouseKind::Moved, column, row) == app.current
            &&& app.current_after(MouseKind::Other, column, row) == app.current
            &&& app.hover_after(MouseKind::LeftUp, column, row) == app.hover
            &&& app.hover_after(MouseKind::Other, column, row) == app.hover
        }),
{
}

/// Each row that is drawn shows the theme that stands so far below the first row in sight; the selected
/// row is marked as such, even under the pointer, and the row under the pointer is marked too.
pub proof fn rows_are_drawn_in_order(app: App, row: u16)
    ensures
        app.window + row < app.filtered@.len() ==> (app.row_at(row) matches Some((at, mark)) && at
            == app.filtered@[app.window + row] && (mark == RowMark::Selected <==> app.window + row
            == app.current) && (mark == RowMark::Hovered <==> app.window + row != app.current
            && app.hover == Some((app.window + row) as usize))),
        app.window + row >= app.filtered@.len() ==> app.row_at(row) is None,
{
}

/// The list of a scrolled browser begins with a row that there is.
pub proof fn a_list_begins_with_a_row(window: int, current: int, height: int, len: int)
    requires
        0 <= window,
        0 <= current,
        0 <= height,
        0 <= len,
    ensures
        len > 0 ==> 0 <= scrolled(window, current, height, len) < len,
        len == 0 || height == 0 ==> scrolled(window, current, height, len) == 0,
        0 < height && current < len && current < window ==> scrolled(window, current, height, len)
            == current,
        0 < height && current < len && current >= window + height ==> scrolled(
            window,
            current,
            height,
            len,
        ) == current + 1 - height,
{
}

/// On a dark system the list is white on black, on a light one black on white; the row under the
/// pointer stands out less than the selected one, whose text is green.
pub proof fn the_list_can_be_read()
    ensures
        ui_palette(true).fg == (Rgb { r: 255, g: 255, b: 255 }),
        ui_palette(true).bg == (Rgb { r: 0, g: 0, b: 0 }),
        ui_palette(true).hover_bg == (Rgb { r: 0x22, g: 0x22, b: 0x22 }),
        ui_palette(true).sel_bg == (Rgb { r: 0x33, g: 0x33, b: 0x33 }),
        ui_palette(false).fg == (Rgb { r: 0, g: 0, b: 0 }),
        ui_palette(false).bg == (Rgb { r: 255, g: 255, b: 255 }),
        ui_palette(false).hover_bg == (Rgb { r: 0xbb, g: 0xbb, b: 0xbb }),
        ui_palette(false).sel_bg == (Rgb { r: 0xaa, g: 0xaa, b: 0xaa }),
        forall|dark: bool|
            (#[trigger] ui_palette(dark)).sel_fg == (Rgb { r: 0, g: 0xaa, b: 0 }),
        LIST_WIDTH == 32,
        PAGE == 20,
{
}

/// A cell lies in a rectangle exactly where it is neither left of it, nor right of it, nor above, nor
/// below.
pub proof fn a_rectangle_holds_its_cells(a: Area, col: u16, row: u16)
    ensures
        a.holds(col, row) <==> !(col < a.x) && !(col >= a.x + a.width) && !(row < a.y) && !(row >= a.y
            + a.height),
        a.right() == a.x + a.width,
        a.bottom() == a.y + a.height,
{
}

/// The sixteen indices of the palette stand for its colors, in order; one more stands for a gray, and
/// all others for the color of text.
pub proof fn an_index_stands_for_its_color(theme: TerminalTheme, index: int)
    ensures
        0 <= index < 16 ==> indexed_color(theme, index) == theme.palette@[index],
        index == 238 ==> indexed_color(theme, index) == 0x444444,
        index >= 16 && index != 238 ==> indexed_color(theme, index) == theme.foreground,
{
}

proof fn hex_width_fits(n: nat)
    ensures
        text::fits_hex(n, hex_width(n)),
        hex_width(n) >= 1,
    decreases n,
{
    if n >= 16 {
        hex_width_fits(n / 16);
    } else {
        assert(n / 16 == 0);
        assert(text::fits_hex(0, 0));
    }
}

/// The number beside a swatch stands for the index: in decimal behind blanks, at least three wide; or
/// in hexadecimal behind one blank, of at least two digits.
pub proof fn a_label_tells_the_index(index: nat)
    ensures
        ({
            let decimal = label(index, false);
            let blanks = decimal.len() - text::decimal(index).len();
            &&& decimal.len() >= 3
            &&& blanks == 0 || decimal.len() == 3
            &&& forall|i: int| 0 <= i < blanks ==> #[trigger] decimal[i] == ' '
            &&& text::number_of(decimal.skip(blanks)) == index
        }),
        ({
            let hex = label(index, true);
            &&& hex.len() >= 3
            &&& hex[0] == ' '
            &&& index < 256 ==> hex.len() == 3
            &&& text::hex_number_of(hex.skip(1)) == index
        }),
{
    let digits = text::decimal(index);
    let decimal = label(index, false);
    text::a_decimal_form_reads_as_its_number(index);
    let blanks = decimal.len() - digits.len();
    assert(decimal.skip(blanks) =~= digits);
    let hex = label(index, true);
    reveal_strlit(" ");
    hex_width_fits(index);
    let width = if hex_width(index) < 2 {
        2
    } else {
        hex_width(index)
    };
    if hex_width(index) < 2 {
        if index >= 16 {
            hex_width_fits(index / 16);
        }
        assert(text::fits_hex(0, 1)) by {
            assert(text::fits_hex(0, 0));
        }
        assert(index / 16 == 0);
        assert(text::fits_hex(index, 2));
    }
    text::a_hexadecimal_form_reads_as_its_number(index, width);
    assert(hex.skip(1) =~= text::hex(index, width));
    if index < 256 {
        assert(hex_width(index / 16) == 1);
        assert(hex_width(index) <= 2);
    }
}

} // verus!
