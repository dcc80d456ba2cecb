//! Terminal themes and the catalog that holds them.

use vstd::prelude::*;

use crate::text::text_eq;

verus! {

/// A color theme of the terminal.
#[derive(Clone, Debug, PartialEq, Eq)]
pub struct TerminalTheme {
    /// The name under which the theme is found.
    pub name: String,
    /// The sixteen colors of the palette, as `0xRRGGBB`.
    pub palette: [u32; 16],
    /// The color of text.
    pub foreground: u32,
    /// The color behind text.
    pub background: u32,
    /// Whether the theme counts as dark.
    pub dark: bool,
}

impl TerminalTheme {
    /// Whether the theme counts as dark.
    pub fn is_dark(&self) -> (r: bool)
        ensures
            r == self.dark,
    {
        self.dark
    }
}

/// The themes to choose from.
#[derive(Clone, Debug)]
pub struct ThemeCatalog {
    /// The themes, in the order in which they are offered.
    pub themes: Vec<TerminalTheme>,
}

/// The names of the first `n` themes that are dark, or of those that are not.
pub open spec fn names_of(themes: Seq<TerminalTheme>, dark: bool, n: int) -> Seq<Seq<char>>
    decreases n,
{
    if n <= 0 {
        seq![]
    } else {
        let rest = names_of(themes, dark, n - 1);
        if themes[n - 1].dark == dark {
            rest.push(themes[n - 1].name@)
        } else {
            rest
        }
    }
}

/// The position of the first theme of that name.
pub open spec fn theme_index(themes: Seq<TerminalTheme>, name: Seq<char>) -> Option<int>
    decreases themes.len(),
{
    if themes.len() == 0 {
        None
    } else if themes[0].name@ == name {
        Some(0)
    } else {
        match theme_index(themes.skip(1), name) {
            Some(i) => Some(i + 1),
            None => None,
        }
    }
}

/// The texts of a sequence.
pub open spec fn views(names: Seq<String>) -> Seq<Seq<char>> {
    names.map_values(|s: String| s@)
}

impl ThemeCatalog {
    /// The names of the dark themes, or of the light ones.
    pub open spec fn names(&self, dark: bool) -> Seq<Seq<char>> {
        names_of(self.themes@, dark, self.themes@.len() as int)
    }

    /// The theme of that name; the first, where several have it.
    pub open spec fn find(&self, name: Seq<char>) -> Option<TerminalTheme> {
        match theme_index(self.themes@, name) {
            Some(i) => Some(self.themes@[i]),
            None => None,
        }
    }

    fn names_by(&self, dark: bool) -> (r: Vec<String>)
        ensures
            views(r@) == self.names(dark),
    {
        let mut r: Vec<String> = Vec::new();
        let mut i: usize = 0;
        assert(views(r@) =~= names_of(self.themes@, dark, 0));
        while i < self.themes.len()
            invariant
                i <= self.themes@.len(),
                views(r@) == names_of(self.themes@, dark, i as int),
            decreases self.themes@.len() - i,
        {
            let ghost had = r@;
            if self.themes[i].dark == dark {
                r.push(self.themes[i].name.clone());
                assert(views(r@) =~= views(had).push(self.themes@[i as int].name@));
            }
            i = i + 1;
        }
        r
    }

    /// The names of the dark themes.
    pub fn dark_names(&self) -> (r: Vec<String>)
        ensures
            views(r@) == self.names(true),
    {
        self.names_by(true)
    }

    /// The names of the light themes.
    pub fn light_names(&self) -> (r: Vec<String>)
        ensures
            views(r@) == self.names(false),
    {
        self.names_by(false)
    }

    /// The theme of that name.
    pub fn theme_by_name(&self, name: &str) -> (r: Option<&TerminalTheme>)
        ensures
            match (r, self.find(name@)) {
                (Some(t), Some(k)) => *t == k && t.name@ == name@,
                (None, None) => true,
                _ => false,
            },
    {
        let mut i: usize = 0;
        assert(self.themes@.skip(0) =~= self.themes@);
        while i < self.themes.len()
            invariant
                i <= self.themes@.len(),
                theme_index(self.themes@, name@) == match theme_index(
                    self.themes@.skip(i as int),
                    name@,
                ) {
                    Some(k) => Some(k + i),
                    None => None,
                },
            decreases self.themes@.len() - i,
        {
            if text_eq(self.themes[i].name.as_str(), name) {
                return Some(&self.themes[i]);
            }
            assert(self.themes@.skip(i as int).skip(1) =~= self.themes@.skip(i + 1));
            i = i + 1;
        }
        None
    }
}

/// Every listed name is that of a theme of the wanted kind, and every such theme is listed.
pub proof fn names_are_those_of_the_kind(
    themes: Seq<TerminalTheme>,
    dark: bool,
    n: int,
    name: Seq<char>,
)
    requires
        0 <= n <= themes.len(),
    ensures
        names_of(themes, dark, n).contains(name) <==> exists|i: int|
            0 <= i < n && themes[i].dark == dark && #[trigger] themes[i].name@ == name,
    decreases n,
{
    if n > 0 {
        names_are_those_of_the_kind(themes, dark, n - 1, name);
        let rest = names_of(themes, dark, n - 1);
        let all = names_of(themes, dark, n);
        if themes[n - 1].dark == dark {
            assert(all[rest.len() as int] == themes[n - 1].name@);
            if all.contains(name) {
                let k = choose|k: int| 0 <= k < all.len() && all[k] == name;
                if k < rest.len() {
                    assert(rest[k] == name);
                } else {
                    assert(themes[n - 1].name@ == name);
                }
            }
            if rest.contains(name) {
                let k = choose|k: int| 0 <= k < rest.len() && rest[k] == name;
                assert(all[k] == name);
            }
        }
    } else {
        assert(!names_of(themes, dark, n).contains(name));
    }
}

proof fn a_named_theme_is_found(themes: Seq<TerminalTheme>, i: int)
    requires
        0 <= i < themes.len(),
    ensures
        theme_index(themes, themes[i].name@) matches Some(k) && 0 <= k <= i && themes[k].name@
            == themes[i].name@,
    decreases themes.len(),
{
    if themes[0].name@ != themes[i].name@ {
        a_named_theme_is_found(themes.skip(1), i - 1);
    }
}

/// Where no two themes have the same name, every name is that of a dark or of a light theme and
/// not of both, and the theme found by it is of that kind.
pub proof fn a_name_is_of_one_kind(c: ThemeCatalog, dark: bool, name: Seq<char>)
    requires
        forall|i: int, j: int|
            0 <= i < j < c.themes@.len() ==> (#[trigger] c.themes@[i]).name@ != (
            #[trigger] c.themes@[j]).name@,
        c.names(dark).contains(name),
    ensures
        !c.names(!dark).contains(name),
        c.find(name) matches Some(t) && t.name@ == name && t.dark == dark,
{
    let ts = c.themes@;
    let n = ts.len() as int;
    names_are_those_of_the_kind(ts, dark, n, name);
    names_are_those_of_the_kind(ts, !dark, n, name);
    let i = choose|i: int|
        0 <= i < n && ts[i].dark == dark && #[trigger] ts[i].name@ == name;
    a_named_theme_is_found(ts, i);
    let k = theme_index(ts, name)->0;
    if k < i {
        assert(ts[k].name@ != ts[i].name@);
    }
    if c.names(!dark).contains(name) {
        let j = choose|j: int|
            0 <= j < n && ts[j].dark == !dark && #[trigger] ts[j].name@ == name;
        if i < j {
            assert(ts[i].name@ != ts[j].name@);
        } else if j < i {
            assert(ts[j].name@ != ts[i].name@);
        }
    }
}

/// A theme is found by its name: the first that has it, and none where none has it.
pub proof fn a_theme_is_found_by_its_name(c: ThemeCatalog, name: Seq<char>, i: int)
    requires
        0 <= i <= c.themes@.len(),
        forall|j: int| 0 <= j < i ==> (#[trigger] c.themes@[j]).name@ != name,
        i < c.themes@.len() ==> c.themes@[i].name@ == name,
    ensures
        i < c.themes@.len() ==> c.find(name) == Some(c.themes@[i]),
        i == c.themes@.len() ==> c.find(name) is None,
{
    the_first_of_a_name(c.themes@, name, i);
}

proof fn the_first_of_a_name(themes: Seq<TerminalTheme>, name: Seq<char>, i: int)
    requires
        0 <= i <= themes.len(),
        forall|j: int| 0 <= j < i ==> (#[trigger] themes[j]).name@ != name,
        i < themes.len() ==> themes[i].name@ == name,
    ensures
        i < themes.len() ==> theme_index(themes, name) == Some(i),
        i == themes.len() ==> theme_index(themes, name) is None,
    decreases themes.len(),
{
    if themes.len() > 0 && i > 0 {
        let rest = themes.skip(1);
        assert forall|j: int| 0 <= j < i - 1 implies (#[trigger] rest[j]).name@ != name by {
            assert(rest[j] == themes[j + 1]);
        }
        the_first_of_a_name(rest, name, i - 1);
    }
}

/// Every theme is listed among the dark or among the light names, as it is dark or not.
pub proof fn every_theme_is_listed_by_its_kind(c: ThemeCatalog, i: int)
    requires
        0 <= i < c.themes@.len(),
    ensures
        c.themes@[i].dark ==> c.names(true).contains(c.themes@[i].name@),
        !c.themes@[i].dark ==> c.names(false).contains(c.themes@[i].name@),
{
    let name = c.themes@[i].name@;
    names_are_those_of_the_kind(c.themes@, true, c.themes@.len() as int, name);
    names_are_those_of_the_kind(c.themes@, false, c.themes@.len() as int, name);
}

} // verus!
