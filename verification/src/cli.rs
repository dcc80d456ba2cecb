//! The command line: which command the arguments ask for, and what it prints.
//!
//! `eggie +name` runs the command `name`; `--version`, `--help` and `-h` are aliases. Without any
//! of them the program starts its window.

use vstd::prelude::*;

use crate::list_colors;
use crate::list_themes;
use crate::text;
use crate::text::{chars_of, text_eq, text_of};
use crate::themes;
use crate::themes::ThemeCatalog;

verus! {

/// A command.
#[derive(Clone, Copy, Debug, PartialEq, Eq, Structural)]
pub enum Action {
    /// Show the help.
    Help,
    /// Show the version.
    Version,
    /// List the named colors.
    ListColors,
    /// List the themes.
    ListThemes,
}

/// The name of a command, as it stands behind `+`.
pub open spec fn action_name(a: Action) -> Seq<char> {
    match a {
        Action::Help => "help"@,
        Action::Version => "version"@,
        Action::ListColors => "list-colors"@,
        Action::ListThemes => "list-themes"@,
    }
}

/// One sentence on a command.
pub open spec fn action_summary(a: Action) -> Seq<char> {
    match a {
        Action::Help => "显示本帮助信息"@,
        Action::Version => "显示版本与构建信息"@,
        Action::ListColors => "列出内置的 X11 命名颜色"@,
        Action::ListThemes => "列出可用主题(终端下可交互预览)"@,
    }
}

/// All commands, in the order in which the help shows them.
pub open spec fn all_actions() -> Seq<Action> {
    seq![Action::Help, Action::Version, Action::ListColors, Action::ListThemes]
}

/// The first command of `actions` with that name.
pub open spec fn find_action(actions: Seq<Action>, name: Seq<char>) -> Option<Action>
    decreases actions.len(),
{
    if actions.len() == 0 {
        None
    } else if action_name(actions[0]) == name {
        Some(actions[0])
    } else {
        find_action(actions.skip(1), name)
    }
}

/// The command with that name.
pub open spec fn action_named(name: Seq<char>) -> Option<Action> {
    find_action(all_actions(), name)
}

impl Action {
    /// All commands, in the order in which the help shows them.
    pub fn all() -> (r: Vec<Action>)
        ensures
            r@ == all_actions(),
    {
        let r: Vec<Action> = vec![
            Action::Help,
            Action::Version,
            Action::ListColors,
            Action::ListThemes,
        ];
        assert(r@ =~= all_actions());
        r
    }

    /// The command with that name.
    pub fn from_plus(name: &str) -> (r: Option<Action>)
        ensures
            r == action_named(name@),
    {
        let all: Vec<Action> = Action::all();
        let mut i: usize = 0;
        assert(all@.skip(0) =~= all@);
        while i < all.len()
            invariant
                i <= all@.len(),
                find_action(all@.skip(i as int), name@) == action_named(name@),
            decreases all@.len() - i,
        {
            if text_eq(all[i].name(), name) {
                return Some(all[i]);
            }
            assert(all@.skip(i as int).skip(1) =~= all@.skip(i + 1));
            i = i + 1;
        }
        None
    }

    /// The name of the command, as it stands behind `+`.
    pub fn name(self) -> (r: &'static str)
        ensures
            r@ == action_name(self),
    {
        match self {
            Action::Help => "help",
            Action::Version => "version",
            Action::ListColors => "list-colors",
            Action::ListThemes => "list-themes",
        }
    }

    /// One sentence on the command.
    pub fn summary(self) -> (r: &'static str)
        ensures
            r@ == action_summary(self),
    {
        match self {
            Action::Help => "显示本帮助信息",
            Action::Version => "显示版本与构建信息",
            Action::ListColors => "列出内置的 X11 命名颜色",
            Action::ListThemes => "列出可用主题(终端下可交互预览)",
        }
    }

    /// What the command does with the arguments passed on to it.
    pub fn run(self, flags: &Vec<String>, env: &CliEnvironment) -> (r: CliOutcome)
        ensures
            r.model() == ran(self, themes::views(flags@), *env),
    {
        match self {
            Action::Help => CliOutcome::Print {
                out: help_text(),
                err: String::new(),
                code: 0,
            },
            Action::Version => CliOutcome::Print {
                out: version_text(env),
                err: String::new(),
                code: 0,
            },
            Action::ListColors => list_colors::run(flags, env),
            Action::ListThemes => list_themes::run(flags, env),
        }
    }
}

/// What the commands need to know of the program and of the terminal.
#[derive(Clone, Debug)]
pub struct CliEnvironment {
    /// The version of the program.
    pub version: String,
    /// Tells this build from others.
    pub build_id: String,
    /// Whether this is a debug build.
    pub debug_build: bool,
    /// Whether the output goes to a terminal.
    pub stdout_is_terminal: bool,
    /// The width of the terminal, where it is known.
    pub terminal_columns: Option<u16>,
    /// The themes.
    pub catalog: ThemeCatalog,
}

/// What a command asks of its caller.
#[derive(Clone, Debug, PartialEq, Eq)]
pub enum CliOutcome {
    /// Print `out` to the output and `err` to the errors, and end with `code`.
    Print {
        /// For the output.
        out: String,
        /// For the errors.
        err: String,
        /// The exit code.
        code: i32,
    },
    /// Show the themes of these names for the user to browse.
    Preview {
        /// The names, sorted.
        names: Vec<String>,
    },
}

/// What a command asks of its caller, its texts as sequences of characters.
#[verifier::ext_equal]
pub enum Outcome {
    /// Print and end.
    Print {
        /// For the output.
        out: Seq<char>,
        /// For the errors.
        err: Seq<char>,
        /// The exit code.
        code: int,
    },
    /// Browse.
    Preview {
        /// The names.
        names: Seq<Seq<char>>,
    },
}

impl CliOutcome {
    /// The texts as sequences of characters.
    pub open spec fn model(&self) -> Outcome {
        match *self {
            CliOutcome::Print { out, err, code } => Outcome::Print {
                out: out@,
                err: err@,
                code: code as int,
            },
            CliOutcome::Preview { names } => Outcome::Preview { names: themes::views(names@) },
        }
    }
}

/// Output `out`, and success.
pub open spec fn printed(out: Seq<char>) -> Outcome {
    Outcome::Print { out, err: seq![], code: 0 }
}

/// Error `err`, and failure.
pub open spec fn failed(err: Seq<char>) -> Outcome {
    Outcome::Print { out: seq![], err, code: 1 }
}

/// What a command does with the arguments passed on to it.
pub open spec fn ran(a: Action, flags: Seq<Seq<char>>, env: CliEnvironment) -> Outcome {
    match a {
        Action::Help => printed(help()),
        Action::Version => printed(version(env)),
        Action::ListColors => list_colors::outcome(flags, env),
        Action::ListThemes => list_themes::outcome(flags, env),
    }
}

/// The length of the longest name of `actions`.
pub open spec fn longest_action(actions: Seq<Action>) -> nat
    decreases actions.len(),
{
    if actions.len() == 0 {
        0
    } else {
        let rest = longest_action(actions.drop_last());
        let last = action_name(actions.last()).len();
        if last > rest {
            last
        } else {
            rest
        }
    }
}

/// The line of the help for a command, its name padded to `width`.
pub open spec fn help_line(a: Action, width: nat) -> Seq<char> {
    "  +"@ + list_colors::pad_right(action_name(a), width) + "  "@ + action_summary(a) + "\n"@
}

/// The lines of the help for `actions`.
pub open spec fn help_lines(actions: Seq<Action>, width: nat) -> Seq<char>
    decreases actions.len(),
{
    if actions.len() == 0 {
        seq![]
    } else {
        help_lines(actions.drop_last(), width) + help_line(actions.last(), width)
    }
}

/// The help.
pub open spec fn help() -> Seq<char> {
    "用法: eggie [+action] [选项]\n\n不带 +action 时启动 Eggie 终端;带 +action 时执行对应的辅助命令。\n\n可用 action:\n\n"@
        + help_lines(all_actions(), longest_action(all_actions()))
        + "\n用 `eggie +<action> --help` 查看具体命令的帮助。\n"@
}

/// The help.
pub fn help_text() -> (r: String)
    ensures
        r@ == help(),
{
    let all: Vec<Action> = Action::all();
    let mut width: usize = 0;
    let mut i: usize = 0;
    assert(all@.take(0) =~= seq![]);
    while i < all.len()
        invariant
            i <= all@.len(),
            width == longest_action(all@.take(i as int)),
        decreases all@.len() - i,
    {
        let n: usize = chars_of(all[i].name()).len();
        assert(all@.take(i + 1).drop_last() =~= all@.take(i as int));
        if n > width {
            width = n;
        }
        i = i + 1;
    }
    assert(all@.take(i as int) =~= all@);
    let mut out: String = String::new();
    out.append(
        "用法: eggie [+action] [选项]\n\n不带 +action 时启动 Eggie 终端;带 +action 时执行对应的辅助命令。\n\n可用 action:\n\n",
    );
    let ghost head = out@;
    let mut k: usize = 0;
    assert(all@.take(0) =~= seq![]);
    assert(out@ =~= head + help_lines(all@.take(0), width as nat));
    while k < all.len()
        invariant
            k <= all@.len(),
            out@ == head + help_lines(all@.take(k as int), width as nat),
        decreases all@.len() - k,
    {
        out.append("  +");
        list_colors::push_padded(&mut out, all[k].name(), width);
        out.append("  ");
        out.append(all[k].summary());
        out.append("\n");
        assert(all@.take(k + 1).drop_last() =~= all@.take(k as int));
        assert(out@ =~= head + help_lines(all@.take(k + 1), width as nat));
        k = k + 1;
    }
    assert(all@.take(k as int) =~= all@);
    out.append("\n用 `eggie +<action> --help` 查看具体命令的帮助。\n");
    assert(out@ =~= help());
    out
}

/// The version and how the program was built.
pub open spec fn version(env: CliEnvironment) -> Seq<char> {
    "Eggie "@ + env.version@ + "\n\nVersion\n  - version : "@ + env.version@ + "\n  - build id: "@
        + env.build_id@ + "\n  - build   : "@ + (if env.debug_build {
        "debug"@
    } else {
        "release"@
    }) + "\n"@
}

/// The version and how the program was built.
pub fn version_text(env: &CliEnvironment) -> (r: String)
    ensures
        r@ == version(*env),
{
    let mut out: String = String::new();
    out.append("Eggie ");
    out.append(env.version.as_str());
    out.append("\n\nVersion\n  - version : ");
    out.append(env.version.as_str());
    out.append("\n  - build id: ");
    out.append(env.build_id.as_str());
    out.append("\n  - build   : ");
    if env.debug_build {
        out.append("debug");
    } else {
        out.append("release");
    }
    out.append("\n");
    assert(out@ =~= version(*env));
    out
}

/// What the arguments ask for.
#[derive(Clone, Debug, PartialEq, Eq)]
pub enum Invocation {
    /// No command: the program starts its window.
    Nothing,
    /// A command, with the arguments passed on to it.
    Run(Action, Vec<String>),
    /// The arguments make no sense.
    Error(CliError),
}

/// Why the arguments make no sense.
#[derive(Clone, Debug, PartialEq, Eq)]
pub enum CliError {
    /// More than one command.
    MultipleActions,
    /// No command has this name.
    InvalidAction(String),
}

/// Why the arguments make no sense, the name as a sequence of characters.
pub enum Fault {
    /// More than one command.
    Multiple,
    /// No command has this name.
    Invalid(Seq<char>),
}

/// What the arguments ask for, their texts as sequences of characters.
#[verifier::ext_equal]
pub enum Request {
    /// No command.
    Nothing,
    /// A command, with the arguments passed on to it.
    Run(Action, Seq<Seq<char>>),
    /// The arguments make no sense.
    Error(Fault),
}

impl CliError {
    /// The name as a sequence of characters.
    pub open spec fn model(&self) -> Fault {
        match *self {
            CliError::MultipleActions => Fault::Multiple,
            CliError::InvalidAction(name) => Fault::Invalid(name@),
        }
    }
}

impl Invocation {
    /// The texts as sequences of characters.
    pub open spec fn model(&self) -> Request {
        match *self {
            Invocation::Nothing => Request::Nothing,
            Invocation::Run(a, flags) => Request::Run(a, themes::views(flags@)),
            Invocation::Error(e) => Request::Error(e.model()),
        }
    }
}

/// Whether an argument names a command.
pub open spec fn is_plus(arg: Seq<char>) -> bool {
    arg.len() > 0 && arg[0] == '+'
}

/// Whether an argument asks for help.
pub open spec fn is_help(arg: Seq<char>) -> bool {
    arg == "--help"@ || arg == "-h"@
}

/// The arguments that are passed on to the command: all but the name of a command and `--version`.
pub open spec fn is_flag(arg: Seq<char>) -> bool {
    !is_plus(arg) && arg != "--version"@
}

/// The arguments among the first `n` that are passed on, in order.
pub open spec fn flags_of(args: Seq<Seq<char>>, n: int) -> Seq<Seq<char>>
    decreases n,
{
    if n <= 0 {
        seq![]
    } else if is_flag(args[n - 1]) {
        flags_of(args, n - 1).push(args[n - 1])
    } else {
        flags_of(args, n - 1)
    }
}

/// The one command that the first `n` arguments name, or the first thing wrong with them.
pub open spec fn named_action(args: Seq<Seq<char>>, n: int) -> Result<Option<Action>, Fault>
    decreases n,
{
    if n <= 0 {
        Ok(None)
    } else {
        let rest = named_action(args, n - 1);
        let arg = args[n - 1];
        match rest {
            Err(e) => Err(e),
            Ok(pending) => if is_plus(arg) {
                match action_named(arg.skip(1)) {
                    None => Err(Fault::Invalid(arg.skip(1))),
                    Some(a) => if pending is Some {
                        Err(Fault::Multiple)
                    } else {
                        Ok(Some(a))
                    },
                }
            } else {
                Ok(pending)
            },
        }
    }
}

/// What the arguments behind the program's name ask for: `--version` comes before all else, then
/// a command that is named, then help.
pub open spec fn request(args: Seq<Seq<char>>) -> Request {
    let n = args.len() as int;
    let flags = flags_of(args, n);
    if args.contains("--version"@) {
        Request::Run(Action::Version, flags)
    } else {
        match named_action(args, n) {
            Err(e) => Request::Error(e),
            Ok(Some(a)) => Request::Run(a, flags),
            Ok(None) => if exists|i: int| 0 <= i < args.len() && is_help(#[trigger] args[i]) {
                Request::Run(Action::Help, flags)
            } else {
                Request::Nothing
            },
        }
    }
}

/// The arguments behind the program's name.
pub open spec fn behind_name(arguments: Seq<Seq<char>>) -> Seq<Seq<char>> {
    if arguments.len() == 0 {
        seq![]
    } else {
        arguments.skip(1)
    }
}

fn strip_plus(arg: &str) -> (r: Option<String>)
    ensures
        r is Some <==> is_plus(arg@),
        r is Some ==> r->0@ == arg@.skip(1),
{
    let s: Vec<char> = chars_of(arg);
    if s.len() > 0 && s[0] == '+' {
        let name: String = text_of(&s, 1, s.len());
        assert(name@ =~= arg@.skip(1));
        Some(name)
    } else {
        None
    }
}

/// What the arguments ask for; the first is the program's name.
pub fn parse_invocation(arguments: &[String]) -> (r: Invocation)
    ensures
        r.model() == request(behind_name(themes::views(arguments@))),
{
    let ghost args = behind_name(themes::views(arguments@));
    let mut pending: Option<Action> = None;
    let mut error: Option<CliError> = None;
    let mut force_version: bool = false;
    let mut fallback_help: bool = false;
    let mut flags: Vec<String> = Vec::new();
    let mut i: usize = 1;
    assert(themes::views(flags@) =~= flags_of(args, 0));
    if arguments.len() == 0 {
        assert(args =~= seq![]);
        return Invocation::Nothing;
    }
    while i < arguments.len()
        invariant
            1 <= i <= arguments@.len(),
            args == behind_name(themes::views(arguments@)),
            themes::views(flags@) == flags_of(args, i - 1),
            match error {
                Some(e) => named_action(args, i - 1) == Err::<Option<Action>, Fault>(e.model()),
                None => named_action(args, i - 1) == Ok::<Option<Action>, Fault>(pending),
            },
            force_version <==> exists|j: int| 0 <= j < i - 1 && args[j] == "--version"@,
            fallback_help <==> exists|j: int| 0 <= j < i - 1 && is_help(#[trigger] args[j]),
        decreases arguments@.len() - i,
    {
        let arg: &str = arguments[i].as_str();
        let ghost at = i - 1;
        let ghost had = flags@;
        assert(args[at] == arg@);
        proof {
            reveal_strlit("--version");
            reveal_strlit("--help");
            reveal_strlit("-h");
            assert("--version"@[0] == '-' && "--help"@[0] == '-' && "-h"@[0] == '-');
            assert("--version"@.len() == 9 && "--help"@.len() == 6 && "-h"@.len() == 2);
        }
        match strip_plus(arg) {
            Some(name) => {
                if error.is_none() {
                    match Action::from_plus(name.as_str()) {
                        Some(a) => {
                            if pending.is_some() {
                                error = Some(CliError::MultipleActions);
                            } else {
                                pending = Some(a);
                            }
                        },
                        None => {
                            error = Some(CliError::InvalidAction(name));
                        },
                    }
                }
            },
            None => {
                if text_eq(arg, "--version") {
                    force_version = true;
                } else {
                    if text_eq(arg, "--help") || text_eq(arg, "-h") {
                        fallback_help = true;
                        assert(is_help(args[at]));
                    }
                    flags.push(arg.to_owned());
                    assert(themes::views(flags@) =~= themes::views(had).push(arg@));
                }
            },
        }
        i = i + 1;
    }
    proof {
        assert(i - 1 == args.len());
        assert(args.contains("--version"@) <==> force_version);
    }
    if force_version {
        return Invocation::Run(Action::Version, flags);
    }
    match error {
        Some(e) => {
            return Invocation::Error(e);
        },
        None => {},
    }
    match pending {
        Some(a) => Invocation::Run(a, flags),
        None => if fallback_help {
            Invocation::Run(Action::Help, flags)
        } else {
            Invocation::Nothing
        },
    }
}

/// What the user is told of arguments that make no sense.
pub open spec fn fault_text(e: Fault) -> Seq<char> {
    match e {
        Fault::Multiple => "错误:一次只能指定一个 +action。\n"@,
        Fault::Invalid(name) => "错误:未知的 action `+"@ + name
            + "`。运行 `eggie +help` 查看可用命令。\n"@,
    }
}

impl CliError {
    /// What the user is told.
    pub fn message(&self) -> (r: String)
        ensures
            r@ == fault_text(self.model()),
    {
        match self {
            CliError::MultipleActions => "错误:一次只能指定一个 +action。\n".to_owned(),
            CliError::InvalidAction(name) => {
                let mut out: String = "错误:未知的 action `+".to_owned();
                out.append(name.as_str());
                out.append("`。运行 `eggie +help` 查看可用命令。\n");
                assert(out@ =~= fault_text(self.model()));
                out
            },
        }
    }
}

/// What the program does with its arguments; nothing where it should start its window.
pub open spec fn answer(args: Seq<Seq<char>>, env: CliEnvironment) -> Option<Outcome> {
    match request(args) {
        Request::Nothing => None,
        Request::Run(a, flags) => Some(ran(a, flags, env)),
        Request::Error(e) => Some(failed(fault_text(e))),
    }
}

/// What the program does with its arguments, of which the first is its name; nothing where it
/// should start its window.
pub fn try_run_cli(arguments: &[String], env: &CliEnvironment) -> (r: Option<CliOutcome>)
    ensures
        match (r, answer(behind_name(themes::views(arguments@)), *env)) {
            (Some(o), Some(k)) => o.model() == k,
            (None, None) => true,
            _ => false,
        },
{
    match parse_invocation(arguments) {
        Invocation::Nothing => None,
        Invocation::Run(a, flags) => Some(a.run(&flags, env)),
        Invocation::Error(e) => Some(
            CliOutcome::Print { out: String::new(), err: e.message(), code: 1 },
        ),
    }
}

proof fn action_names_differ()
    ensures
        action_name(Action::Help) != action_name(Action::Version),
        action_name(Action::Help) != action_name(Action::ListColors),
        action_name(Action::Help) != action_name(Action::ListThemes),
        action_name(Action::Version) != action_name(Action::ListColors),
        action_name(Action::Version) != action_name(Action::ListThemes),
        action_name(Action::ListColors) != action_name(Action::ListThemes),
{
    reveal_strlit("help");
    reveal_strlit("version");
    reveal_strlit("list-colors");
    reveal_strlit("list-themes");
    assert("help"@.len() == 4 && "version"@.len() == 7);
    assert("list-colors"@.len() == 11 && "list-themes"@.len() == 11);
    assert("list-colors"@[5] == 'c' && "list-themes"@[5] == 't');
}

/// A command is found under its own name.
pub proof fn a_command_is_found_by_its_name(a: Action)
    ensures
        action_named(action_name(a)) == Some(a),
{
    action_names_differ();
    let all = all_actions();
    reveal_with_fuel(find_action, 5);
    assert(all.skip(1).skip(1) =~= all.skip(2));
    assert(all.skip(2).skip(1) =~= all.skip(3));
    assert(all.skip(1)[0] == Action::Version);
    assert(all.skip(2)[0] == Action::ListColors);
    assert(all.skip(3)[0] == Action::ListThemes);
}

/// A command that is found has the name it was looked up by.
pub proof fn a_found_command_has_the_name(actions: Seq<Action>, name: Seq<char>)
    ensures
        find_action(actions, name) matches Some(a) ==> action_name(a) == name,
    decreases actions.len(),
{
    if actions.len() > 0 && action_name(actions[0]) != name {
        a_found_command_has_the_name(actions.skip(1), name);
    }
}

/// With `--version` among the arguments the version is shown, whatever else stands there.
pub proof fn version_outranks_the_rest(args: Seq<Seq<char>>)
    requires
        args.contains("--version"@),
    ensures
        request(args) == Request::Run(Action::Version, flags_of(args, args.len() as int)),
{
}

/// A command that is named keeps a `--help` beside it for itself.
pub proof fn help_stays_with_the_named_command(args: Seq<Seq<char>>, a: Action)
    requires
        !args.contains("--version"@),
        named_action(args, args.len() as int) == Ok::<Option<Action>, Fault>(Some(a)),
    ensures
        request(args) == Request::Run(a, flags_of(args, args.len() as int)),
{
}

/// What is passed on to a command is what was given, less the name of a command and `--version`.
pub proof fn other_arguments_are_passed_on(args: Seq<Seq<char>>, arg: Seq<char>, n: int)
    requires
        0 <= n <= args.len(),
    ensures
        flags_of(args, n).contains(arg) <==> is_flag(arg) && args.take(n).contains(arg),
    decreases n,
{
    if n > 0 {
        other_arguments_are_passed_on(args, arg, n - 1);
        let rest = flags_of(args, n - 1);
        let all = flags_of(args, n);
        let before = args.take(n - 1);
        let now = args.take(n);
        assert(now.contains(arg) <==> before.contains(arg) || args[n - 1] == arg) by {
            if before.contains(arg) {
                let k = choose|k: int| 0 <= k < before.len() && before[k] == arg;
                assert(now[k] == arg);
            }
            assert(now[n - 1] == args[n - 1]);
            if now.contains(arg) {
                let k = choose|k: int| 0 <= k < now.len() && now[k] == arg;
                if k < n - 1 {
                    assert(before[k] == arg);
                }
            }
        }
        if is_flag(args[n - 1]) {
            assert(all.contains(arg) <==> rest.contains(arg) || args[n - 1] == arg) by {
                if rest.contains(arg) {
                    let k = choose|k: int| 0 <= k < rest.len() && rest[k] == arg;
                    assert(all[k] == arg);
                }
                assert(all[rest.len() as int] == args[n - 1]);
            }
        }
    }
}

/// Commands go by these names.
pub proof fn commands_have_their_names()
    ensures
        action_name(Action::Help) == "help"@,
        action_name(Action::Version) == "version"@,
        action_name(Action::ListColors) == "list-colors"@,
        action_name(Action::ListThemes) == "list-themes"@,
        action_summary(Action::Help) == "显示本帮助信息"@,
        action_summary(Action::Version) == "显示版本与构建信息"@,
        action_summary(Action::ListColors) == "列出内置的 X11 命名颜色"@,
        action_summary(Action::ListThemes) == "列出可用主题(终端下可交互预览)"@,
        all_actions().len() == 4,
        all_actions()[0] == Action::Help,
        all_actions()[1] == Action::Version,
        all_actions()[2] == Action::ListColors,
        all_actions()[3] == Action::ListThemes,
{
}

/// A name that no command has finds none.
pub proof fn an_unknown_name_finds_nothing(name: Seq<char>)
    requires
        name != "help"@,
        name != "version"@,
        name != "list-colors"@,
        name != "list-themes"@,
    ensures
        action_named(name) is None,
{
    a_found_command_has_the_name(all_actions(), name);
}

/// A command begins with a plus sign; the help has two aliases; what is neither a command nor the alias of
/// the version is an option.
pub proof fn arguments_are_told_apart(name: Seq<char>, arg: Seq<char>)
    ensures
        is_plus(seq!['+'] + name),
        !is_plus(seq![]),
        arg.len() > 0 && arg[0] != '+' ==> !is_plus(arg),
        is_help("--help"@),
        is_help("-h"@),
        arg != "--help"@ && arg != "-h"@ ==> !is_help(arg),
        !is_flag("--version"@),
        is_plus(arg) ==> !is_flag(arg),
        !is_plus(arg) && arg != "--version"@ ==> is_flag(arg),
{
}

proof fn plain_arguments_name_nothing(args: Seq<Seq<char>>, m: int, n: int)
    requires
        0 <= m <= n <= args.len(),
        named_action(args, m) is Ok ==> forall|j: int|
            m <= j < n ==> !is_plus(#[trigger] args[j]),
    ensures
        named_action(args, n) == named_action(args, m),
    decreases n - m,
{
    if m < n {
        plain_arguments_name_nothing(args, m, n - 1);
        assert(named_action(args, m) is Ok ==> !is_plus(args[n - 1]));
    }
}

/// The first argument with a plus sign names the command; where no command has the name that is the fault,
/// and where a second one follows, naming more than one is. Without any, nothing is named.
pub proof fn the_plus_sign_names_a_command(args: Seq<Seq<char>>, i: int, j: int)
    requires
        0 <= i < j <= args.len(),
        is_plus(args[i]),
        forall|k: int| 0 <= k < j && k != i ==> !is_plus(#[trigger] args[k]),
        j < args.len() ==> is_plus(args[j]),
    ensures
        named_action(args, i) == Ok::<Option<Action>, Fault>(None),
        action_named(args[i].skip(1)) is None ==> named_action(args, args.len() as int) == Err::<
            Option<Action>,
            Fault,
        >(Fault::Invalid(args[i].skip(1))),
        action_named(args[i].skip(1)) matches Some(a) ==> (j == args.len() ==> named_action(
            args,
            args.len() as int,
        ) == Ok::<Option<Action>, Fault>(Some(a))),
        action_named(args[i].skip(1)) is Some && j < args.len() && action_named(args[j].skip(1))
            is Some ==> named_action(args, args.len() as int) == Err::<Option<Action>, Fault>(
            Fault::Multiple,
        ),
        action_named(args[i].skip(1)) is Some && j < args.len() && action_named(args[j].skip(1))
            is None ==> named_action(args, args.len() as int) == Err::<Option<Action>, Fault>(
            Fault::Invalid(args[j].skip(1)),
        ),
{
    let n = args.len() as int;
    plain_arguments_name_nothing(args, 0, i);
    if action_named(args[i].skip(1)) is None {
        plain_arguments_name_nothing(args, i + 1, n);
    } else {
        plain_arguments_name_nothing(args, i + 1, j);
        if j < n {
            plain_arguments_name_nothing(args, j + 1, n);
        }
    }
}

/// Arguments without a command, the help or the version ask for nothing; the help alone asks for the help.
pub proof fn plain_arguments_ask_for_nothing(args: Seq<Seq<char>>, i: int)
    requires
        forall|k: int| 0 <= k < args.len() ==> !is_plus(#[trigger] args[k]),
        !args.contains("--version"@),
    ensures
        (forall|k: int| 0 <= k < args.len() ==> !is_help(#[trigger] args[k])) ==> request(args)
            is Nothing,
        0 <= i < args.len() && is_help(args[i]) ==> request(args) == Request::Run(
            Action::Help,
            flags_of(args, args.len() as int),
        ),
{
    plain_arguments_name_nothing(args, 0, args.len() as int);
    assert(named_action(args, 0) == Ok::<Option<Action>, Fault>(None));
}

/// A fault in the arguments is what is answered, unless the version is asked for.
pub proof fn a_fault_is_answered(args: Seq<Seq<char>>, e: Fault, env: CliEnvironment)
    requires
        !args.contains("--version"@),
        named_action(args, args.len() as int) == Err::<Option<Action>, Fault>(e),
    ensures
        request(args) == Request::Error(e),
        answer(args, env) == Some(Outcome::Print { out: seq![], err: fault_text(e), code: 1 }),
{
}

/// Options are passed on in order.
pub proof fn options_are_passed_on_in_order(args: Seq<Seq<char>>, arg: Seq<char>)
    ensures
        is_flag(arg) ==> flags_of(args.push(arg), args.len() as int + 1) == flags_of(
            args.push(arg),
            args.len() as int,
        ).push(arg),
        !is_flag(arg) ==> flags_of(args.push(arg), args.len() as int + 1) == flags_of(
            args.push(arg),
            args.len() as int,
        ),
        flags_of(args.push(arg), args.len() as int) == flags_of(args, args.len() as int),
{
    flags_of_the_front(args, arg, args.len() as int);
}

proof fn flags_of_the_front(args: Seq<Seq<char>>, arg: Seq<char>, n: int)
    requires
        0 <= n <= args.len(),
    ensures
        flags_of(args.push(arg), n) == flags_of(args, n),
    decreases n,
{
    if n > 0 {
        flags_of_the_front(args, arg, n - 1);
    }
}

/// The name of the program itself is no argument.
pub proof fn the_program_name_is_no_argument(name: Seq<char>, rest: Seq<Seq<char>>)
    ensures
        behind_name(seq![name] + rest) == rest,
        behind_name(seq![]).len() == 0,
{
    assert((seq![name] + rest).skip(1) =~= rest);
}

/// What is printed goes to the output with success, and what failed to the errors without.
pub proof fn success_and_failure_are_told_apart(out: Seq<char>)
    ensures
        printed(out) == (Outcome::Print { out, err: seq![], code: 0 }),
        failed(out) == (Outcome::Print { out: seq![], err: out, code: 1 }),
{
}

/// Each command does its own work.
pub proof fn each_command_does_its_work(
    flags: Seq<Seq<char>>,
    env: CliEnvironment,
    args: Seq<Seq<char>>,
)
    ensures
        ran(Action::Help, flags, env) == printed(help()),
        ran(Action::Version, flags, env) == printed(version(env)),
        ran(Action::ListColors, flags, env) == list_colors::outcome(flags, env),
        ran(Action::ListThemes, flags, env) == list_themes::outcome(flags, env),
        request(args) is Nothing <==> answer(args, env) is None,
        request(args) matches Request::Run(a, f) ==> answer(args, env) == Some(ran(a, f, env)),
{
}

/// The longest name is at least as long as every other, and one of them is as long.
pub proof fn the_longest_name_is_one_of_them(actions: Seq<Action>, i: int)
    ensures
        0 <= i < actions.len() ==> action_name(actions[i]).len() <= longest_action(actions),
        actions.len() > 0 ==> exists|k: int|
            0 <= k < actions.len() && action_name(#[trigger] actions[k]).len() == longest_action(
                actions,
            ),
        actions.len() == 0 ==> longest_action(actions) == 0,
    decreases actions.len(),
{
    if actions.len() > 0 {
        let head = actions.drop_last();
        the_longest_name_is_one_of_them(head, i);
        assert(actions[actions.len() - 1] == actions.last());
        if longest_action(actions) != action_name(actions.last()).len() {
            let k = choose|k: int|
                0 <= k < head.len() && action_name(#[trigger] head[k]).len() == longest_action(head);
            assert(actions[k] == head[k]);
        }
    }
}

/// The help has a line for every command, in order: its name behind a plus sign, filled up to one width,
/// and what it does.
pub proof fn the_help_has_a_line_for_every_command(
    actions: Seq<Action>,
    a: Action,
    width: nat,
)
    ensures
        help_lines(seq![], width).len() == 0,
        help_lines(actions.push(a), width) == help_lines(actions, width) + help_line(a, width),
        help_line(a, width) == "  +"@ + list_colors::pad_right(action_name(a), width) + "  "@
            + action_summary(a) + "\n"@,
        help() == "用法: eggie [+action] [选项]\n\n不带 +action 时启动 Eggie 终端;带 +action 时执行对应的辅助命令。\n\n可用 action:\n\n"@
            + help_lines(all_actions(), longest_action(all_actions()))
            + "\n用 `eggie +<action> --help` 查看具体命令的帮助。\n"@,
{
    assert(actions.push(a).drop_last() =~= actions);
    assert(actions.push(a).last() == a);
}

/// The version is told with the build and its kind.
pub proof fn the_version_is_told_with_the_build(env: CliEnvironment)
    ensures
        env.debug_build ==> version(env) == "Eggie "@ + env.version@ + "\n\nVersion\n  - version : "@
            + env.version@ + "\n  - build id: "@ + env.build_id@ + "\n  - build   : "@ + "debug"@
            + "\n"@,
        !env.debug_build ==> version(env) == "Eggie "@ + env.version@
            + "\n\nVersion\n  - version : "@ + env.version@ + "\n  - build id: "@ + env.build_id@
            + "\n  - build   : "@ + "release"@ + "\n"@,
{
}

/// A fault is told in words, an unknown command by its name.
pub proof fn faults_are_told_in_words(name: Seq<char>)
    ensures
        fault_text(Fault::Multiple) == "错误:一次只能指定一个 +action。\n"@,
        fault_text(Fault::Invalid(name)) == "错误:未知的 action `+"@ + name
            + "`。运行 `eggie +help` 查看可用命令。\n"@,
{
}

/// Requests, faults and outcomes are told by all of their parts.
pub proof fn requests_are_told_by_their_parts(o: CliOutcome, e: CliError, i: Invocation)
    ensures
        o matches CliOutcome::Print { out, err, code } ==> o.model() == (Outcome::Print {
            out: out@,
            err: err@,
            code: code as int,
        }),
        o matches CliOutcome::Preview { names } ==> o.model() == (Outcome::Preview {
            names: themes::views(names@),
        }),
        e is MultipleActions ==> e.model() == Fault::Multiple,
        e matches CliError::InvalidAction(name) ==> e.model() == Fault::Invalid(name@),
        i is Nothing <==> i.model() is Nothing,
        i matches Invocation::Run(a, flags) ==> i.model() == Request::Run(
            a,
            themes::views(flags@),
        ),
        i matches Invocation::Error(x) ==> i.model() == Request::Error(x.model()),
{
}

} // verus!
