//! The command that lists the themes by name, without regard to case.

use vstd::prelude::*;

use crate::cli;
use crate::cli::{CliEnvironment, CliOutcome};
use crate::order;
use crate::order::stable_text_order;
use crate::text;
use crate::text::{text_eq, to_lower_ascii};
use crate::themes;
use crate::themes::ThemeCatalog;

verus! {

/// Which themes to list.
#[derive(Clone, Copy, Debug, PartialEq, Eq, Structural)]
pub enum Scope {
    /// All of them.
    All,
    /// The dark ones.
    Dark,
    /// The light ones.
    Light,
}

/// The names in a scope, the dark themes first.
pub open spec fn scope_names(catalog: ThemeCatalog, scope: Scope) -> Seq<Seq<char>> {
    match scope {
        Scope::Dark => catalog.names(true),
        Scope::Light => catalog.names(false),
        Scope::All => catalog.names(true) + catalog.names(false),
    }
}

/// The names in lower case, by which they are sorted.
pub open spec fn sort_keys(names: Seq<Seq<char>>) -> Seq<Seq<char>> {
    names.map_values(|n: Seq<char>| text::lower_ascii(n))
}

/// The positions of the first `n` names in sorted order.
pub open spec fn name_order(names: Seq<Seq<char>>, n: int) -> Seq<int> {
    order::stable_order(sort_keys(names), order::by_text(), n)
}

/// The names at the given positions.
pub open spec fn picked(names: Seq<Seq<char>>, order: Seq<int>) -> Seq<Seq<char>> {
    order.map_values(|i: int| names[i])
}

/// The names sorted without regard to case; names that differ in case alone as they stand.
pub open spec fn sorted(names: Seq<Seq<char>>) -> Seq<Seq<char>> {
    picked(names, name_order(names, names.len() as int))
}

/// The names, each once, where it stands first.
pub open spec fn deduped(names: Seq<Seq<char>>) -> Seq<Seq<char>>
    decreases names.len(),
{
    if names.len() == 0 {
        seq![]
    } else {
        let rest = deduped(names.drop_last());
        if rest.contains(names.last()) {
            rest
        } else {
            rest.push(names.last())
        }
    }
}

fn sorted_names(names: &Vec<String>) -> (r: Vec<String>)
    ensures
        themes::views(r@) == sorted(themes::views(names@)),
{
    let ghost ns = themes::views(names@);
    let mut keys: Vec<String> = Vec::new();
    let mut i: usize = 0;
    while i < names.len()
        invariant
            i <= names@.len(),
            keys@.len() == i,
            ns == themes::views(names@),
            order::texts(keys@) == sort_keys(ns).take(i as int),
        decreases names@.len() - i,
    {
        let ghost had = keys@;
        let key: String = to_lower_ascii(names[i].as_str());
        let ghost k = key@;
        keys.push(key);
        proof {
            assert(order::texts(keys@) =~= order::texts(had).push(k));
            assert(sort_keys(ns).take(i + 1) =~= sort_keys(ns).take(i as int).push(k));
        }
        i = i + 1;
    }
    assert(order::texts(keys@) =~= sort_keys(ns));
    let order: Vec<usize> = stable_text_order(&keys);
    let ghost places = order::positions(order@);
    let mut r: Vec<String> = Vec::new();
    let mut p: usize = 0;
    while p < order.len()
        invariant
            p <= order@.len(),
            order@.len() == names@.len(),
            ns == themes::views(names@),
            places == order::positions(order@),
            order::is_permutation(places, names@.len() as int),
            places == name_order(ns, ns.len() as int),
            themes::views(r@) == sorted(ns).take(p as int),
        decreases order@.len() - p,
    {
        let ghost had = r@;
        assert(places[p as int] == order@[p as int]);
        let name: String = names[order[p]].clone();
        let ghost n = name@;
        r.push(name);
        proof {
            assert(n == ns[places[p as int]]);
            assert(themes::views(r@) =~= themes::views(had).push(n));
            assert(sorted(ns).take(p + 1) =~= sorted(ns).take(p as int).push(n));
        }
        p = p + 1;
    }
    assert(themes::views(r@) =~= sorted(ns));
    r
}

fn lists_name(names: &Vec<String>, name: &str) -> (r: bool)
    ensures
        r == themes::views(names@).contains(name@),
{
    let ghost ns = themes::views(names@);
    let mut i: usize = 0;
    while i < names.len()
        invariant
            i <= names@.len(),
            ns == themes::views(names@),
            forall|k: int| 0 <= k < i ==> #[trigger] ns[k] != name@,
        decreases names@.len() - i,
    {
        assert(ns[i as int] == names@[i as int]@);
        if text_eq(names[i].as_str(), name) {
            return true;
        }
        i = i + 1;
    }
    false
}

fn dedup(names: Vec<String>) -> (r: Vec<String>)
    ensures
        themes::views(r@) == deduped(themes::views(names@)),
{
    let ghost ns = themes::views(names@);
    let mut r: Vec<String> = Vec::new();
    let mut i: usize = 0;
    assert(ns.take(0) =~= seq![]);
    while i < names.len()
        invariant
            i <= names@.len(),
            ns == themes::views(names@),
            themes::views(r@) == deduped(ns.take(i as int)),
        decreases names@.len() - i,
    {
        let ghost had = r@;
        proof {
            assert(ns.take(i + 1).drop_last() =~= ns.take(i as int));
            assert(ns.take(i + 1).last() == names@[i as int]@);
        }
        if !lists_name(&r, names[i].as_str()) {
            r.push(names[i].clone());
            assert(themes::views(r@) =~= themes::views(had).push(ns[i as int]));
        }
        i = i + 1;
    }
    assert(ns.take(i as int) =~= ns);
    r
}

/// The names of the themes in a scope, sorted without regard to case, each once.
pub fn theme_names(catalog: &ThemeCatalog, scope: Scope) -> (r: Vec<String>)
    ensures
        themes::views(r@) == deduped(sorted(scope_names(*catalog, scope))),
{
    let mut names: Vec<String> = match scope {
        Scope::Light => catalog.light_names(),
        _ => catalog.dark_names(),
    };
    if scope == Scope::All {
        let ghost first = names@;
        let mut light: Vec<String> = catalog.light_names();
        let ghost second = light@;
        names.append(&mut light);
        assert(themes::views(names@) =~= themes::views(first) + themes::views(second));
    }
    dedup(sorted_names(&names))
}

/// How to use the command.
pub open spec fn help() -> Seq<char> {
    "用法: eggie +list-themes [--dark | --light] [--plain]\n\n列出可用主题。在终端中运行时进入交互式预览,管道输出时退化为纯文本列表。\n\n选项:\n  --dark   只列出深色主题\n  --light  只列出浅色主题\n  --plain  强制纯文本列表(即使在终端中)\n"@
}

/// What an option that is not known is answered.
pub open spec fn unknown_option(flag: Seq<char>) -> Seq<char> {
    "错误:未知选项 `"@ + flag + "`。运行 `eggie +list-themes --help` 查看用法。\n"@
}

/// Whether an option asks for help.
pub open spec fn is_help(flag: Seq<char>) -> bool {
    flag == "--help"@ || flag == "-h"@
}

/// Whether an option is one of the command's.
pub open spec fn is_known(flag: Seq<char>) -> bool {
    flag == "--dark"@ || flag == "--light"@ || flag == "--plain"@
}

/// The first of `n` options that is not one of the command's.
pub open spec fn first_unknown(flags: Seq<Seq<char>>, n: int) -> Option<Seq<char>>
    decreases n,
{
    if n <= 0 {
        None
    } else {
        match first_unknown(flags, n - 1) {
            Some(f) => Some(f),
            None => if is_known(flags[n - 1]) {
                None
            } else {
                Some(flags[n - 1])
            },
        }
    }
}

/// The scope that the first `n` options ask for: the last one to name one decides.
pub open spec fn asked_scope(flags: Seq<Seq<char>>, n: int) -> Scope
    decreases n,
{
    if n <= 0 {
        Scope::All
    } else if flags[n - 1] == "--dark"@ {
        Scope::Dark
    } else if flags[n - 1] == "--light"@ {
        Scope::Light
    } else {
        asked_scope(flags, n - 1)
    }
}

/// The names, each on a line.
pub open spec fn name_lines(names: Seq<Seq<char>>) -> Seq<char>
    decreases names.len(),
{
    if names.len() == 0 {
        seq![]
    } else {
        name_lines(names.drop_last()) + names.last() + "\n"@
    }
}

/// What the command does: on a terminal the themes are shown for browsing, unless plain lines are
/// asked for or there is no theme.
pub open spec fn outcome(flags: Seq<Seq<char>>, env: CliEnvironment) -> cli::Outcome {
    let n = flags.len() as int;
    if exists|i: int| 0 <= i < flags.len() && is_help(#[trigger] flags[i]) {
        cli::printed(help())
    } else {
        match first_unknown(flags, n) {
            Some(f) => cli::failed(unknown_option(f)),
            None => {
                let names = deduped(sorted(scope_names(env.catalog, asked_scope(flags, n))));
                if flags.contains("--plain"@) || !env.stdout_is_terminal {
                    cli::printed(name_lines(names))
                } else if names.len() == 0 {
                    cli::printed("(没有可显示的主题)\n"@)
                } else {
                    cli::Outcome::Preview { names }
                }
            },
        }
    }
}

/// The names, each on a line.
pub fn plain_list(names: &Vec<String>) -> (r: String)
    ensures
        r@ == name_lines(themes::views(names@)),
{
    let ghost ns = themes::views(names@);
    let mut out: String = String::new();
    let mut i: usize = 0;
    assert(ns.take(0) =~= seq![]);
    while i < names.len()
        invariant
            i <= names@.len(),
            ns == themes::views(names@),
            out@ == name_lines(ns.take(i as int)),
        decreases names@.len() - i,
    {
        out.append(names[i].as_str());
        out.append("\n");
        assert(ns.take(i + 1).drop_last() =~= ns.take(i as int));
        assert(ns.take(i + 1).last() == names@[i as int]@);
        i = i + 1;
    }
    assert(ns.take(i as int) =~= ns);
    out
}

fn asks_for_help(flags: &Vec<String>) -> (r: bool)
    ensures
        r == (exists|i: int|
            0 <= i < themes::views(flags@).len() && is_help(#[trigger] themes::views(flags@)[i])),
{
    let ghost fs = themes::views(flags@);
    let mut i: usize = 0;
    while i < flags.len()
        invariant
            i <= flags@.len(),
            fs == themes::views(flags@),
            forall|j: int| 0 <= j < i ==> !is_help(#[trigger] fs[j]),
        decreases flags@.len() - i,
    {
        assert(fs[i as int] == flags@[i as int]@);
        if text_eq(flags[i].as_str(), "--help") || text_eq(flags[i].as_str(), "-h") {
            assert(is_help(fs[i as int]));
            return true;
        }
        i = i + 1;
    }
    false
}

fn help_text() -> (r: String)
    ensures
        r@ == help(),
{
    "用法: eggie +list-themes [--dark | --light] [--plain]\n\n列出可用主题。在终端中运行时进入交互式预览,管道输出时退化为纯文本列表。\n\n选项:\n  --dark   只列出深色主题\n  --light  只列出浅色主题\n  --plain  强制纯文本列表(即使在终端中)\n".to_owned()
}

proof fn first_unknown_stays(flags: Seq<Seq<char>>, n: int, m: int)
    requires
        first_unknown(flags, n) is Some,
        n <= m,
    ensures
        first_unknown(flags, m) == first_unknown(flags, n),
    decreases m - n,
{
    if n < m {
        first_unknown_stays(flags, n, m - 1);
    }
}

/// Lists the themes, as the options ask.
pub fn run(flags: &Vec<String>, env: &CliEnvironment) -> (r: CliOutcome)
    ensures
        r.model() == outcome(themes::views(flags@), *env),
{
    let ghost fs = themes::views(flags@);
    if asks_for_help(flags) {
        return CliOutcome::Print { out: help_text(), err: String::new(), code: 0 };
    }
    let mut scope: Scope = Scope::All;
    let mut plain: bool = false;
    let mut i: usize = 0;
    while i < flags.len()
        invariant
            i <= flags@.len(),
            fs == themes::views(flags@),
            !(exists|j: int| 0 <= j < fs.len() && is_help(#[trigger] fs[j])),
            first_unknown(fs, i as int) is None,
            scope == asked_scope(fs, i as int),
            plain <==> exists|j: int| 0 <= j < i && fs[j] == "--plain"@,
        decreases flags@.len() - i,
    {
        let flag: &str = flags[i].as_str();
        assert(fs[i as int] == flag@);
        proof {
            reveal_strlit("--dark");
            reveal_strlit("--light");
            reveal_strlit("--plain");
            assert("--dark"@.len() == 6 && "--light"@.len() == 7 && "--plain"@.len() == 7);
            assert("--light"@[2] == 'l' && "--plain"@[2] == 'p');
        }
        if text_eq(flag, "--dark") {
            scope = Scope::Dark;
        } else if text_eq(flag, "--light") {
            scope = Scope::Light;
        } else if text_eq(flag, "--plain") {
            plain = true;
        } else {
            let mut err: String = "错误:未知选项 `".to_owned();
            err.append(flag);
            err.append("`。运行 `eggie +list-themes --help` 查看用法。\n");
            proof {
                assert(err@ =~= unknown_option(flag@));
                first_unknown_stays(fs, i + 1, fs.len() as int);
            }
            return CliOutcome::Print { out: String::new(), err, code: 1 };
        }
        i = i + 1;
    }
    assert(plain <==> fs.contains("--plain"@));
    let names: Vec<String> = theme_names(&env.catalog, scope);
    if !plain && env.stdout_is_terminal {
        if names.len() == 0 {
            return CliOutcome::Print {
                out: "(没有可显示的主题)\n".to_owned(),
                err: String::new(),
                code: 0,
            };
        }
        return CliOutcome::Preview { names };
    }
    CliOutcome::Print { out: plain_list(&names), err: String::new(), code: 0 }
}

proof fn deduped_keeps_members(names: Seq<Seq<char>>, x: Seq<char>)
    ensures
        deduped(names).contains(x) <==> names.contains(x),
    decreases names.len(),
{
    if names.len() > 0 {
        let n = names.len() as int;
        let front = names.drop_last();
        let rest = deduped(front);
        deduped_keeps_members(front, x);
        if front.contains(x) {
            let k = choose|k: int| 0 <= k < front.len() && front[k] == x;
            assert(names[k] == x);
        }
        if names.contains(x) {
            let k = choose|k: int| 0 <= k < names.len() && names[k] == x;
            if k < n - 1 {
                assert(front[k] == x);
            }
        }
        if !rest.contains(names.last()) {
            let all = rest.push(names.last());
            if rest.contains(x) {
                let k = choose|k: int| 0 <= k < rest.len() && rest[k] == x;
                assert(all[k] == x);
            }
            assert(all[rest.len() as int] == names.last());
        }
        assert(names[n - 1] == names.last());
    }
}

proof fn deduped_has_no_repeats(names: Seq<Seq<char>>)
    ensures
        deduped(names).no_duplicates(),
    decreases names.len(),
{
    if names.len() > 0 {
        deduped_has_no_repeats(names.drop_last());
    }
}

proof fn sorted_keeps_members(names: Seq<Seq<char>>, x: Seq<char>)
    ensures
        sorted(names).contains(x) <==> names.contains(x),
{
    let n = names.len() as int;
    let order = name_order(names, n);
    order::a_stable_order_is_a_permutation(sort_keys(names), order::by_text(), n);
    let out = sorted(names);
    if out.contains(x) {
        let p = choose|p: int| 0 <= p < out.len() && out[p] == x;
        assert(names[order[p]] == x);
    }
    if names.contains(x) {
        let i = choose|i: int| 0 <= i < names.len() && names[i] == x;
        order::a_permutation_reaches(sort_keys(names), order::by_text(), n, i);
        let p = choose|p: int| 0 <= p < n && order[p] == i;
        assert(out[p] == x);
    }
}

/// The list holds the names in the scope, and no other.
pub proof fn exactly_the_names_in_scope_are_listed(
    catalog: ThemeCatalog,
    scope: Scope,
    name: Seq<char>,
)
    ensures
        deduped(sorted(scope_names(catalog, scope))).contains(name) <==> exists|i: int|
            0 <= i < catalog.themes@.len() && #[trigger] catalog.themes@[i].name@ == name && (scope
                == Scope::All || catalog.themes@[i].dark == (scope == Scope::Dark)),
{
    let names = scope_names(catalog, scope);
    let ts = catalog.themes@;
    deduped_keeps_members(sorted(names), name);
    sorted_keeps_members(names, name);
    themes::names_are_those_of_the_kind(ts, true, ts.len() as int, name);
    themes::names_are_those_of_the_kind(ts, false, ts.len() as int, name);
    if scope == Scope::All {
        let dark = catalog.names(true);
        let light = catalog.names(false);
        if dark.contains(name) {
            let k = choose|k: int| 0 <= k < dark.len() && dark[k] == name;
            assert(names[k] == name);
        }
        if light.contains(name) {
            let k = choose|k: int| 0 <= k < light.len() && light[k] == name;
            assert(names[dark.len() + k] == name);
        }
        if names.contains(name) {
            let k = choose|k: int| 0 <= k < names.len() && names[k] == name;
            if k < dark.len() {
                assert(dark[k] == name);
            } else {
                assert(light[k - dark.len()] == name);
            }
        }
    }
}

proof fn deduped_is_sorted(names: Seq<Seq<char>>)
    requires
        forall|p: int, q: int|
            0 <= p < q < names.len() ==> text::text_le(
                text::lower_ascii(#[trigger] names[p]),
                text::lower_ascii(#[trigger] names[q]),
            ),
    ensures
        forall|p: int, q: int|
            0 <= p < q < deduped(names).len() ==> text::text_le(
                text::lower_ascii(#[trigger] deduped(names)[p]),
                text::lower_ascii(#[trigger] deduped(names)[q]),
            ),
    decreases names.len(),
{
    if names.len() > 0 {
        let n = names.len() as int;
        let front = names.drop_last();
        let rest = deduped(front);
        assert forall|p: int, q: int| 0 <= p < q < front.len() implies text::text_le(
            text::lower_ascii(#[trigger] front[p]),
            text::lower_ascii(#[trigger] front[q]),
        ) by {
            assert(front[p] == names[p] && front[q] == names[q]);
        }
        deduped_is_sorted(front);
        if !rest.contains(names.last()) {
            let all = rest.push(names.last());
            assert forall|p: int, q: int| 0 <= p < q < all.len() implies text::text_le(
                text::lower_ascii(#[trigger] all[p]),
                text::lower_ascii(#[trigger] all[q]),
            ) by {
                assert(all[p] == rest[p]);
                if q == rest.len() {
                    deduped_keeps_members(front, rest[p]);
                    assert(rest.contains(rest[p]));
                    let k = choose|k: int| 0 <= k < front.len() && front[k] == rest[p];
                    assert(names[k] == rest[p]);
                    assert(names[n - 1] == all[q]);
                } else {
                    assert(all[q] == rest[q]);
                }
            }
        }
    }
}

/// The list goes by the names without regard to case, and no name stands in it twice.
pub proof fn the_list_is_sorted_without_repeats(names: Seq<Seq<char>>, p: int, q: int)
    requires
        0 <= p < q < deduped(sorted(names)).len(),
    ensures
        text::text_le(
            text::lower_ascii(deduped(sorted(names))[p]),
            text::lower_ascii(deduped(sorted(names))[q]),
        ),
        deduped(sorted(names))[p] != deduped(sorted(names))[q],
{
    let n = names.len() as int;
    let keys = sort_keys(names);
    let order = name_order(names, n);
    let out = sorted(names);
    order::texts_are_ordered();
    order::a_stable_order_is_a_permutation(keys, order::by_text(), n);
    assert forall|a: int, b: int| 0 <= a < b < out.len() implies text::text_le(
        text::lower_ascii(#[trigger] out[a]),
        text::lower_ascii(#[trigger] out[b]),
    ) by {
        order::a_stable_order_is_sorted(keys, order::by_text(), n, a, b);
        assert(keys[order[a]] == text::lower_ascii(out[a]));
        assert(keys[order[b]] == text::lower_ascii(out[b]));
    }
    deduped_is_sorted(out);
    deduped_has_no_repeats(out);
}

/// The list of all themes is no longer than those of the dark and the light ones together, and no
/// shorter than either.
pub proof fn dark_and_light_make_up_all(catalog: ThemeCatalog)
    ensures
        ({
            let all = deduped(sorted(scope_names(catalog, Scope::All))).len();
            let dark = deduped(sorted(scope_names(catalog, Scope::Dark))).len();
            let light = deduped(sorted(scope_names(catalog, Scope::Light))).len();
            &&& all <= dark + light
            &&& dark <= all
            &&& light <= all
        }),
{
    let all = deduped(sorted(scope_names(catalog, Scope::All)));
    let dark = deduped(sorted(scope_names(catalog, Scope::Dark)));
    let light = deduped(sorted(scope_names(catalog, Scope::Light)));
    deduped_has_no_repeats(sorted(scope_names(catalog, Scope::All)));
    deduped_has_no_repeats(sorted(scope_names(catalog, Scope::Dark)));
    deduped_has_no_repeats(sorted(scope_names(catalog, Scope::Light)));
    all.unique_seq_to_set();
    dark.unique_seq_to_set();
    light.unique_seq_to_set();
    assert forall|x: Seq<char>| #[trigger] all.contains(x) <==> dark.contains(x)
        || light.contains(x) by {
        exactly_the_names_in_scope_are_listed(catalog, Scope::All, x);
        exactly_the_names_in_scope_are_listed(catalog, Scope::Dark, x);
        exactly_the_names_in_scope_are_listed(catalog, Scope::Light, x);
    }
    let both = dark.to_set().union(light.to_set());
    assert(all.to_set() =~= both);
    vstd::set_lib::lemma_len_union(dark.to_set(), light.to_set());
    vstd::set_lib::lemma_len_subset(dark.to_set(), both);
    vstd::set_lib::lemma_len_subset(light.to_set(), both);
}

/// The options that are known, and those that show the help.
pub proof fn options_are_known(flag: Seq<char>)
    ensures
        is_known(flag) <==> flag == "--dark"@ || flag == "--light"@ || flag == "--plain"@,
        is_help(flag) <==> flag == "--help"@ || flag == "-h"@,
{
}

/// The first option that is not known is the one that is told.
pub proof fn the_first_unknown_option_is_told(flags: Seq<Seq<char>>, i: int)
    requires
        0 <= i <= flags.len(),
        forall|j: int| 0 <= j < i ==> is_known(#[trigger] flags[j]),
        i < flags.len() ==> !is_known(flags[i]),
    ensures
        i < flags.len() ==> first_unknown(flags, flags.len() as int) == Some(flags[i]),
        i == flags.len() ==> first_unknown(flags, flags.len() as int) is None,
{
    known_options_in_front(flags, i);
    if i < flags.len() {
        assert(first_unknown(flags, i + 1) == Some(flags[i]));
        first_unknown_stays(flags, i + 1, flags.len() as int);
    }
}

proof fn known_options_in_front(flags: Seq<Seq<char>>, n: int)
    requires
        0 <= n <= flags.len(),
        forall|j: int| 0 <= j < n ==> is_known(#[trigger] flags[j]),
    ensures
        first_unknown(flags, n) is None,
    decreases n,
{
    if n > 0 {
        known_options_in_front(flags, n - 1);
        assert(is_known(flags[n - 1]));
    }
}

/// The last of the options for dark and light themes decides; without any, all themes are listed.
pub proof fn the_last_scope_decides(flags: Seq<Seq<char>>, i: int, n: int)
    requires
        -1 <= i < n <= flags.len(),
        forall|j: int|
            i < j < n ==> #[trigger] flags[j] != "--dark"@ && flags[j] != "--light"@,
        i >= 0 ==> flags[i] == "--dark"@ || flags[i] == "--light"@,
    ensures
        i >= 0 && flags[i] == "--dark"@ ==> asked_scope(flags, n) == Scope::Dark,
        i >= 0 && flags[i] == "--light"@ ==> asked_scope(flags, n) == Scope::Light,
        i == -1 ==> asked_scope(flags, n) == Scope::All,
    decreases n,
{
    reveal_strlit("--dark");
    reveal_strlit("--light");
    assert("--dark"@.len() == 6 && "--light"@.len() == 7);
    if i < n - 1 {
        assert(flags[n - 1] != "--dark"@ && flags[n - 1] != "--light"@);
        if n - 1 > i {
            if n - 1 == 0 {
                assert(asked_scope(flags, 0) == Scope::All);
            } else {
                the_last_scope_decides(flags, i, n - 1);
            }
        }
    }
}

/// Each name has a line of its own, in order.
pub proof fn each_name_has_a_line(names: Seq<Seq<char>>, name: Seq<char>)
    ensures
        name_lines(seq![]).len() == 0,
        name_lines(names.push(name)) == name_lines(names) + name + seq!['\n'],
{
    assert(names.push(name).drop_last() =~= names);
    assert(names.push(name).last() == name);
    reveal_strlit("\n");
    assert("\n"@ =~= seq!['\n']);
}

/// The help outranks the rest; then an unknown option is told; then the themes are listed, line by line
/// where the output is no terminal or the plain list is asked for, and else for the preview.
pub proof fn what_is_answered(flags: Seq<Seq<char>>, env: CliEnvironment, i: int)
    ensures
        0 <= i < flags.len() && is_help(flags[i]) ==> outcome(flags, env) == cli::printed(help()),
        (forall|j: int| 0 <= j < flags.len() ==> !is_help(#[trigger] flags[j])) ==> ({
            let names = deduped(
                sorted(scope_names(env.catalog, asked_scope(flags, flags.len() as int))),
            );
            match first_unknown(flags, flags.len() as int) {
                Some(f) => outcome(flags, env) == cli::failed(
                    "错误:未知选项 `"@ + f + "`。运行 `eggie +list-themes --help` 查看用法。\n"@,
                ),
                None => {
                    &&& flags.contains("--plain"@) || !env.stdout_is_terminal ==> outcome(flags, env)
                        == cli::printed(name_lines(names))
                    &&& !flags.contains("--plain"@) && env.stdout_is_terminal && names.len() > 0
                        ==> outcome(flags, env) == (cli::Outcome::Preview { names })
                    &&& !flags.contains("--plain"@) && env.stdout_is_terminal && names.len() == 0
                        ==> outcome(flags, env) == cli::printed("(没有可显示的主题)\n"@)
                },
            }
        }),
{
}

/// The help tells the options.
pub proof fn the_help_tells_the_options()
    ensures
        help() == "用法: eggie +list-themes [--dark | --light] [--plain]\n\n列出可用主题。在终端中运行时进入交互式预览,管道输出时退化为纯文本列表。\n\n选项:\n  --dark   只列出深色主题\n  --light  只列出浅色主题\n  --plain  强制纯文本列表(即使在终端中)\n"@,
{
}

} // verus!
