//! The commands of the shell, and how a line is read as one.
use vstd::prelude::*;
use vstd::string::*;

use crate::config::HqRole;
use crate::text;

verus! {

/// A command of the shell.
#[derive(Debug, Clone, PartialEq, Eq)]
pub enum ShellCommand {
    /// Show task state and agent list.
    Status,
    /// List the rows of the tasks table.
    Tasks,
    /// Plan a batch of tasks from ready milestones.
    Run { limit: Option<usize> },
    /// List run attempts.
    Runs { limit: usize },
    /// List runtime events, or those of one run.
    Events { limit: usize, run_id: Option<String> },
    /// Run the configured checks.
    Check { force: bool },
    /// Reset all task files and set state to Idle.
    Reset,
    /// Stop all running sessions.
    Stop,
    /// Exit HQ.
    Quit,
    /// Open a planning session.
    Plan,
    /// Define a task.
    Task { manual: bool },
    /// Select the current spec.
    Milestones,
    /// Clear the selected spec.
    ResetSpec,
    /// Draft a feature specification.
    Spec,
    /// Open an interactive supervisor session.
    Supervisor,
    /// Open an interactive executor session.
    Executor,
    /// Resume the executor.
    Resume,
    /// Show the log of a running session.
    Attach { name: String },
    /// Spawn a supervisor in review mode.
    Review,
    /// Set a project up in the current directory.
    Init { agents_path: String },
    /// Register agents.
    Register {
        supervisor: Option<String>,
        supervisor_model: Option<String>,
        executor: Option<String>,
        executor_model: Option<String>,
    },
    /// Set or clear the model of a role.
    Model { target: HqRole, model: Option<String>, clear: bool },
    /// Show all commands.
    Help,
}

/// The contents of a command.
#[verifier::ext_equal]
pub enum CommandView {
    Status,
    Tasks,
    Run { limit: Option<usize> },
    Runs { limit: usize },
    Events { limit: usize, run_id: Option<Seq<char>> },
    Check { force: bool },
    Reset,
    Stop,
    Quit,
    Plan,
    Task { manual: bool },
    Milestones,
    ResetSpec,
    Spec,
    Supervisor,
    Executor,
    Resume,
    Attach { name: Seq<char> },
    Review,
    Init { agents_path: Seq<char> },
    Register {
        supervisor: Option<Seq<char>>,
        supervisor_model: Option<Seq<char>>,
        executor: Option<Seq<char>>,
        executor_model: Option<Seq<char>>,
    },
    Model { target: HqRole, model: Option<Seq<char>>, clear: bool },
    Help,
}

impl View for ShellCommand {
    type V = CommandView;

    open spec fn view(&self) -> CommandView {
        match *self {
            ShellCommand::Status => CommandView::Status,
            ShellCommand::Tasks => CommandView::Tasks,
            ShellCommand::Run { limit } => CommandView::Run { limit },
            ShellCommand::Runs { limit } => CommandView::Runs { limit },
            ShellCommand::Events { limit, run_id } => CommandView::Events {
                limit,
                run_id: text::opt_view(run_id),
            },
            ShellCommand::Check { force } => CommandView::Check { force },
            ShellCommand::Reset => CommandView::Reset,
            ShellCommand::Stop => CommandView::Stop,
            ShellCommand::Quit => CommandView::Quit,
            ShellCommand::Plan => CommandView::Plan,
            ShellCommand::Task { manual } => CommandView::Task { manual },
            ShellCommand::Milestones => CommandView::Milestones,
            ShellCommand::ResetSpec => CommandView::ResetSpec,
            ShellCommand::Spec => CommandView::Spec,
            ShellCommand::Supervisor => CommandView::Supervisor,
            ShellCommand::Executor => CommandView::Executor,
            ShellCommand::Resume => CommandView::Resume,
            ShellCommand::Attach { name } => CommandView::Attach { name: name@ },
            ShellCommand::Review => CommandView::Review,
            ShellCommand::Init { agents_path } => CommandView::Init { agents_path: agents_path@ },
            ShellCommand::Register {
                supervisor,
                supervisor_model,
                executor,
                executor_model,
            } => CommandView::Register {
                supervisor: text::opt_view(supervisor),
                supervisor_model: text::opt_view(supervisor_model),
                executor: text::opt_view(executor),
                executor_model: text::opt_view(executor_model),
            },
            ShellCommand::Model { target, model, clear } => CommandView::Model {
                target,
                model: text::opt_view(model),
                clear,
            },
            ShellCommand::Help => CommandView::Help,
        }
    }
}

/// How many rows a listing shows where no limit is given.
pub const DEFAULT_LIMIT: usize = 20;

/// Where agent guides go where no place is given.
pub const DEFAULT_AGENTS_PATH: &'static str = ".agents";

/// Why a line is not a command.
#[derive(Debug, Clone, PartialEq, Eq)]
pub enum CommandError {
    /// The line does not start with a slash.
    NoSlash,
    /// A quote is not closed.
    Unterminated,
    /// The line names no command.
    Empty,
    /// There is no such command.
    UnknownCommand(String),
    /// An argument does not belong there.
    Unexpected(String),
    /// An option is given twice.
    Repeated(String),
    /// An option has no value.
    MissingValue(String),
    /// A value is given that cannot be.
    InvalidValue(String),
    /// A required argument is missing.
    MissingArgument(String),
}

/// The contents of such an error.
#[verifier::ext_equal]
pub enum ErrorView {
    NoSlash,
    Unterminated,
    Empty,
    UnknownCommand(Seq<char>),
    Unexpected(Seq<char>),
    Repeated(Seq<char>),
    MissingValue(Seq<char>),
    InvalidValue(Seq<char>),
    MissingArgument(Seq<char>),
}

impl View for CommandError {
    type V = ErrorView;

    open spec fn view(&self) -> ErrorView {
        match *self {
            CommandError::NoSlash => ErrorView::NoSlash,
            CommandError::Unterminated => ErrorView::Unterminated,
            CommandError::Empty => ErrorView::Empty,
            CommandError::UnknownCommand(s) => ErrorView::UnknownCommand(s@),
            CommandError::Unexpected(s) => ErrorView::Unexpected(s@),
            CommandError::Repeated(s) => ErrorView::Repeated(s@),
            CommandError::MissingValue(s) => ErrorView::MissingValue(s@),
            CommandError::InvalidValue(s) => ErrorView::InvalidValue(s@),
            CommandError::MissingArgument(s) => ErrorView::MissingArgument(s@),
        }
    }
}

/// The message about a line that is not a command.
pub open spec fn command_problem(error: ErrorView) -> Seq<char> {
    match error {
        ErrorView::NoSlash => "Commands must start with '/' — try /status, /plan, /quit"@,
        ErrorView::Unterminated => "Failed to tokenize command (unterminated quote?)"@,
        ErrorView::Empty => "a command is required — try /help"@,
        ErrorView::UnknownCommand(s) => "unrecognized subcommand '"@ + s + "'"@,
        ErrorView::Unexpected(s) => "unexpected argument '"@ + s + "' found"@,
        ErrorView::Repeated(s) => "the argument '"@ + s + "' cannot be used multiple times"@,
        ErrorView::MissingValue(s) => "a value is required for '"@ + s
            + "' but none was supplied"@,
        ErrorView::InvalidValue(s) => "invalid value '"@ + s + "'"@,
        ErrorView::MissingArgument(s) => "the required argument '"@ + s + "' was not provided"@,
    }
}

/// A text between two others.
fn wrapped(before: &str, middle: &str, after: &str) -> (out: String)
    ensures
        out@ == before@ + middle@ + after@,
{
    let mut out: String = before.to_owned();
    out.append(middle);
    out.append(after);
    out
}

impl CommandError {
    /// The message for the user.
    pub fn message(&self) -> (out: String)
        ensures
            out@ == command_problem(self@),
    {
        match self {
            CommandError::NoSlash =>
                "Commands must start with '/' — try /status, /plan, /quit".to_owned(),
            CommandError::Unterminated =>
                "Failed to tokenize command (unterminated quote?)".to_owned(),
            CommandError::Empty => "a command is required — try /help".to_owned(),
            CommandError::UnknownCommand(s) => wrapped("unrecognized subcommand '", s.as_str(), "'"),
            CommandError::Unexpected(s) => wrapped("unexpected argument '", s.as_str(), "' found"),
            CommandError::Repeated(s) => wrapped(
                "the argument '",
                s.as_str(),
                "' cannot be used multiple times",
            ),
            CommandError::MissingValue(s) => wrapped(
                "a value is required for '",
                s.as_str(),
                "' but none was supplied",
            ),
            CommandError::InvalidValue(s) => wrapped("invalid value '", s.as_str(), "'"),
            CommandError::MissingArgument(s) => wrapped(
                "the required argument '",
                s.as_str(),
                "' was not provided",
            ),
        }
    }
}

// ------------------------------------------------------------------ arguments

/// Which arguments a command takes: switches, options with a value, and how
/// many positional ones.
pub struct Shape {
    pub switches: Vec<String>,
    pub options: Vec<String>,
    pub positionals: usize,
}

/// The contents of a shape.
#[verifier::ext_equal]
pub struct ShapeView {
    pub switches: Seq<Seq<char>>,
    pub options: Seq<Seq<char>>,
    pub positionals: nat,
}

impl View for Shape {
    type V = ShapeView;

    open spec fn view(&self) -> ShapeView {
        ShapeView {
            switches: text::views(self.switches@),
            options: text::views(self.options@),
            positionals: self.positionals as nat,
        }
    }
}

/// The arguments read so far.
pub struct Args {
    pub switches: Vec<String>,
    pub names: Vec<String>,
    pub values: Vec<String>,
    pub positionals: Vec<String>,
    pub only_positionals: bool,
    pub waiting: Option<String>,
}

/// The contents of the arguments read so far. The values of options stand in
/// the order of their names.
#[verifier::ext_equal]
pub struct ArgsView {
    pub switches: Seq<Seq<char>>,
    pub names: Seq<Seq<char>>,
    pub values: Seq<Seq<char>>,
    pub positionals: Seq<Seq<char>>,
    pub only_positionals: bool,
    pub waiting: Option<Seq<char>>,
}

impl View for Args {
    type V = ArgsView;

    open spec fn view(&self) -> ArgsView {
        ArgsView {
            switches: text::views(self.switches@),
            names: text::views(self.names@),
            values: text::views(self.values@),
            positionals: text::views(self.positionals@),
            only_positionals: self.only_positionals,
            waiting: text::opt_view(self.waiting),
        }
    }
}

/// No arguments.
pub open spec fn no_args() -> ArgsView {
    ArgsView {
        switches: Seq::empty(),
        names: Seq::empty(),
        values: Seq::empty(),
        positionals: Seq::empty(),
        only_positionals: false,
        waiting: None,
    }
}

/// Whether a token looks like an option: it starts with a dash and is not that
/// alone.
pub open spec fn dashed(token: Seq<char>) -> bool {
    token.len() > 1 && token[0] == '-'
}

/// The position of the first equals sign; the length where there is none.
pub open spec fn option_end(token: Seq<char>) -> int
    decreases token.len(),
{
    if token.len() == 0 || token[0] == '=' {
        0
    } else {
        1 + option_end(token.skip(1))
    }
}

/// The arguments with one more token.
pub open spec fn arg_step(args: ArgsView, token: Seq<char>, shape: ShapeView) -> Result<
    ArgsView,
    ErrorView,
> {
    let end = option_end(token);
    let name = token.take(end);
    if args.waiting is Some {
        if dashed(token) {
            Err(ErrorView::MissingValue(args.waiting->0))
        } else {
            Ok(
                ArgsView {
                    names: args.names.push(args.waiting->0),
                    values: args.values.push(token),
                    waiting: None,
                    ..args
                },
            )
        }
    } else if args.only_positionals || !dashed(token) {
        if args.positionals.len() < shape.positionals {
            Ok(ArgsView { positionals: args.positionals.push(token), ..args })
        } else {
            Err(ErrorView::Unexpected(token))
        }
    } else if token == "--"@ {
        Ok(ArgsView { only_positionals: true, ..args })
    } else if shape.options.contains(name) {
        if args.names.contains(name) {
            Err(ErrorView::Repeated(name))
        } else if end < token.len() {
            Ok(
                ArgsView {
                    names: args.names.push(name),
                    values: args.values.push(token.skip(end + 1)),
                    ..args
                },
            )
        } else {
            Ok(ArgsView { waiting: Some(name), ..args })
        }
    } else if shape.switches.contains(name) && end == token.len() {
        if args.switches.contains(name) {
            Err(ErrorView::Repeated(name))
        } else {
            Ok(ArgsView { switches: args.switches.push(name), ..args })
        }
    } else {
        Err(ErrorView::Unexpected(token))
    }
}

/// The arguments that a list of tokens adds; every option must have got its
/// value.
pub open spec fn read_args(args: ArgsView, tokens: Seq<Seq<char>>, shape: ShapeView) -> Result<
    ArgsView,
    ErrorView,
>
    decreases tokens.len(),
{
    if tokens.len() == 0 {
        match args.waiting {
            Some(name) => Err(ErrorView::MissingValue(name)),
            None => Ok(args),
        }
    } else {
        match arg_step(args, tokens[0], shape) {
            Err(error) => Err(error),
            Ok(next) => read_args(next, tokens.skip(1), shape),
        }
    }
}

/// The position of the first equals sign; the length where there is none.
fn find_option_end(chars: &Vec<char>) -> (out: usize)
    ensures
        out == option_end(chars@),
        out <= chars@.len(),
{
    let mut i: usize = 0;
    assert(chars@.skip(0) =~= chars@);
    while i < chars.len()
        invariant
            i <= chars@.len(),
            i + option_end(chars@.skip(i as int)) == option_end(chars@),
        decreases chars@.len() - i,
    {
        if chars[i] == '=' {
            return i;
        }
        assert(chars@.skip(i as int).skip(1) =~= chars@.skip(i + 1));
        i = i + 1;
    }
    i
}

impl Args {
    /// No arguments.
    fn new() -> (out: Args)
        ensures
            out@ == no_args(),
    {
        let out = Args {
            switches: Vec::new(),
            names: Vec::new(),
            values: Vec::new(),
            positionals: Vec::new(),
            only_positionals: false,
            waiting: None,
        };
        assert(out@ =~= no_args());
        out
    }

    /// Reads one token.
    fn read(&mut self, token: &str, shape: &Shape) -> (out: Result<(), CommandError>)
        ensures
            match (out, arg_step(old(self)@, token@, shape@)) {
                (Ok(_), Ok(next)) => final(self)@ == next,
                (Err(error), Err(expected)) => error@ == expected,
                _ => false,
            },
    {
        let ghost before = self@;
        let chars: Vec<char> = text::chars_of(token);
        let dashes: bool = chars.len() > 1 && chars[0] == '-';
        let end: usize = find_option_end(&chars);
        let name: String = text::string_of(&chars, 0, end);
        assert(name@ =~= token@.take(end as int));
        let waiting: Option<String> = text::opt_clone(&self.waiting);
        if let Some(option) = waiting {
            if dashes {
                return Err(CommandError::MissingValue(option));
            }
            text::add_text(&mut self.names, option.as_str());
            text::add_text(&mut self.values, token);
            self.waiting = None;
            assert(self@ =~= arg_step(before, token@, shape@)->Ok_0);
            return Ok(());
        }
        if self.only_positionals || !dashes {
            if self.positionals.len() < shape.positionals {
                text::add_text(&mut self.positionals, token);
                assert(self@ =~= arg_step(before, token@, shape@)->Ok_0);
                return Ok(());
            }
            return Err(CommandError::Unexpected(token.to_owned()));
        }
        if text::same(token, "--") {
            self.only_positionals = true;
            assert(self@ =~= arg_step(before, token@, shape@)->Ok_0);
            return Ok(());
        }
        if text::list_contains(&shape.options, name.as_str()) {
            if text::list_contains(&self.names, name.as_str()) {
                return Err(CommandError::Repeated(name));
            }
            if end < chars.len() {
                let value: String = text::string_of(&chars, end + 1, chars.len());
                assert(value@ =~= token@.skip(end + 1));
                text::add_text(&mut self.names, name.as_str());
                text::add_text(&mut self.values, value.as_str());
            } else {
                self.waiting = Some(name);
            }
            assert(self@ =~= arg_step(before, token@, shape@)->Ok_0);
            return Ok(());
        }
        if text::list_contains(&shape.switches, name.as_str()) && end == chars.len() {
            if text::list_contains(&self.switches, name.as_str()) {
                return Err(CommandError::Repeated(name));
            }
            text::add_text(&mut self.switches, name.as_str());
            assert(self@ =~= arg_step(before, token@, shape@)->Ok_0);
            return Ok(());
        }
        Err(CommandError::Unexpected(token.to_owned()))
    }

    /// The value of an option.
    fn value(&self, name: &str) -> (out: Option<String>)
        requires
            self@.names.len() == self@.values.len(),
        ensures
            text::opt_view(out) == given(self@, name@),
    {
        let at: usize = text::find_in(&self.names, name);
        proof {
            text::lemma_index_of(text::views(self.names@), name@);
        }
        if at < self.names.len() {
            assert(self@.values[at as int] == self.values@[at as int]@);
            Some(self.values[at].clone())
        } else {
            None
        }
    }

    /// Whether a switch is given.
    fn switch(&self, name: &str) -> (out: bool)
        ensures
            out == self@.switches.contains(name@),
    {
        text::list_contains(&self.switches, name)
    }

    /// A positional argument.
    fn positional(&self, at: usize) -> (out: Option<String>)
        ensures
            text::opt_view(out) == placed(self@, at as int),
    {
        if at < self.positionals.len() {
            Some(self.positionals[at].clone())
        } else {
            None
        }
    }
}

/// The value of an option, if it is given.
pub open spec fn given(args: ArgsView, name: Seq<char>) -> Option<Seq<char>> {
    let at = text::index_of(args.names, name);
    if at < args.names.len() {
        Some(args.values[at])
    } else {
        None
    }
}

/// A positional argument, if there is one.
pub open spec fn placed(args: ArgsView, at: int) -> Option<Seq<char>> {
    if 0 <= at < args.positionals.len() {
        Some(args.positionals[at])
    } else {
        None
    }
}

/// Reads the tokens behind the command's name.
fn parse_args(tokens: &Vec<String>, shape: &Shape) -> (out: Result<Args, CommandError>)
    requires
        tokens@.len() > 0,
    ensures
        match (out, read_args(no_args(), text::views(tokens@).skip(1), shape@)) {
            (Ok(args), Ok(expected)) => args@ == expected && args@.names.len()
                == args@.values.len(),
            (Err(error), Err(expected)) => error@ == expected,
            _ => false,
        },
{
    let ghost all = text::views(tokens@);
    let ghost goal = read_args(no_args(), all.skip(1), shape@);
    let mut args: Args = Args::new();
    let mut i: usize = 1;
    while i < tokens.len()
        invariant
            1 <= i <= tokens@.len(),
            all == text::views(tokens@),
            goal == read_args(no_args(), all.skip(1), shape@),
            goal == read_args(args@, all.skip(i as int), shape@),
            args@.names.len() == args@.values.len(),
        decreases tokens@.len() - i,
    {
        assert(all.skip(i as int)[0] == tokens@[i as int]@);
        assert(all.skip(i as int).skip(1) =~= all.skip(i + 1));
        match args.read(tokens[i].as_str(), shape) {
            Ok(_) => {},
            Err(error) => {
                return Err(error);
            },
        }
        i = i + 1;
    }
    assert(all.skip(i as int).len() == 0);
    match text::opt_clone(&args.waiting) {
        Some(name) => Err(CommandError::MissingValue(name)),
        None => Ok(args),
    }
}

// ------------------------------------------------------------------ commands

/// A command without arguments.
pub open spec fn plain_shape() -> ShapeView {
    ShapeView { switches: Seq::empty(), options: Seq::empty(), positionals: 0 }
}

/// The arguments that a command takes; nothing where there is no such command.
pub open spec fn shape_of(name: Seq<char>) -> Option<ShapeView> {
    if plain_commands().contains(name) {
        Some(plain_shape())
    } else if name == "run"@ || name == "runs"@ {
        Some(ShapeView { options: seq!["--limit"@], ..plain_shape() })
    } else if name == "events"@ {
        Some(ShapeView { options: seq!["--limit"@, "--run"@], ..plain_shape() })
    } else if name == "check"@ {
        Some(ShapeView { switches: seq!["--force"@], ..plain_shape() })
    } else if name == "task"@ {
        Some(ShapeView { switches: seq!["--manual"@], ..plain_shape() })
    } else if name == "attach"@ {
        Some(ShapeView { positionals: 1, ..plain_shape() })
    } else if name == "init"@ {
        Some(ShapeView { options: seq!["--agents-path"@], ..plain_shape() })
    } else if name == "register"@ {
        Some(
            ShapeView {
                options: seq![
                    "--supervisor"@,
                    "--supervisor-model"@,
                    "--executor"@,
                    "--executor-model"@,
                ],
                ..plain_shape()
            },
        )
    } else if name == "model"@ {
        Some(ShapeView { switches: seq!["--clear"@], positionals: 2, ..plain_shape() })
    } else {
        None
    }
}

/// The commands without arguments.
pub open spec fn plain_commands() -> Seq<Seq<char>> {
    seq![
        "status"@,
        "tasks"@,
        "reset"@,
        "stop"@,
        "quit"@,
        "plan"@,
        "milestones"@,
        "reset-spec"@,
        "spec"@,
        "supervisor"@,
        "executor"@,
        "resume"@,
        "review"@,
        "help"@,
    ]
}

/// The commands without arguments.
fn plain_names() -> (out: Vec<String>)
    ensures
        text::views(out@) == plain_commands(),
{
    let mut out: Vec<String> = Vec::new();
    text::add_text(&mut out, "status");
    text::add_text(&mut out, "tasks");
    text::add_text(&mut out, "reset");
    text::add_text(&mut out, "stop");
    text::add_text(&mut out, "quit");
    text::add_text(&mut out, "plan");
    text::add_text(&mut out, "milestones");
    text::add_text(&mut out, "reset-spec");
    text::add_text(&mut out, "spec");
    text::add_text(&mut out, "supervisor");
    text::add_text(&mut out, "executor");
    text::add_text(&mut out, "resume");
    text::add_text(&mut out, "review");
    text::add_text(&mut out, "help");
    assert(text::views(out@) =~= plain_commands());
    out
}

/// The arguments that a command takes.
fn find_shape(name: &str) -> (out: Option<Shape>)
    ensures
        match (out, shape_of(name@)) {
            (Some(shape), Some(expected)) => shape@ == expected,
            (None, None) => true,
            _ => false,
        },
{
    let mut switches: Vec<String> = Vec::new();
    let mut options: Vec<String> = Vec::new();
    let mut positionals: usize = 0;
    assert(text::views(switches@) =~= Seq::empty());
    assert(text::views(options@) =~= Seq::empty());
    let plain: Vec<String> = plain_names();
    if text::list_contains(&plain, name) {
    } else if text::same(name, "run") || text::same(name, "runs") {
        text::add_text(&mut options, "--limit");
    } else if text::same(name, "events") {
        text::add_text(&mut options, "--limit");
        text::add_text(&mut options, "--run");
    } else if text::same(name, "check") {
        text::add_text(&mut switches, "--force");
    } else if text::same(name, "task") {
        text::add_text(&mut switches, "--manual");
    } else if text::same(name, "attach") {
        positionals = 1;
    } else if text::same(name, "init") {
        text::add_text(&mut options, "--agents-path");
    } else if text::same(name, "register") {
        text::add_text(&mut options, "--supervisor");
        text::add_text(&mut options, "--supervisor-model");
        text::add_text(&mut options, "--executor");
        text::add_text(&mut options, "--executor-model");
    } else if text::same(name, "model") {
        text::add_text(&mut switches, "--clear");
        positionals = 2;
    } else {
        return None;
    }
    let shape = Shape { switches, options, positionals };
    assert(shape@ =~= shape_of(name@)->0);
    Some(shape)
}

/// The whole number that a text spells, with or without a plus sign.
pub open spec fn spelled_count(s: Seq<char>) -> Option<usize> {
    let digits = if s.len() > 0 && s[0] == '+' {
        s.skip(1)
    } else {
        s
    };
    if digits.len() > 0 && text::all_digits(digits) && text::digits_value(digits) <= usize::MAX {
        Some(text::digits_value(digits) as usize)
    } else {
        None
    }
}

/// The whole number that a text spells.
pub fn parse_count(s: &str) -> (out: Option<usize>)
    ensures
        out == spelled_count(s@),
{
    let chars: Vec<char> = text::chars_of(s);
    let from: usize = if chars.len() > 0 && chars[0] == '+' {
        1
    } else {
        0
    };
    let ghost digits = if s@.len() > 0 && s@[0] == '+' {
        s@.skip(1)
    } else {
        s@
    };
    assert(digits =~= chars@.skip(from as int));
    if chars.len() == from {
        return None;
    }
    let mut value: u128 = 0;
    let mut over: bool = false;
    let mut i: usize = from;
    assert(digits.take(0) =~= Seq::<char>::empty());
    while i < chars.len()
        invariant
            chars@ == s@,
            from <= i <= chars@.len(),
            digits == chars@.skip(from as int),
            spelled_count(s@) == (if digits.len() > 0 && text::all_digits(digits)
                && text::digits_value(digits) <= usize::MAX {
                Some(text::digits_value(digits) as usize)
            } else {
                None
            }),
            forall|k: int| 0 <= k < i - from ==> text::is_digit(#[trigger] digits[k]),
            over == (text::digits_value(digits.take(i - from)) > usize::MAX),
            !over ==> value == text::digits_value(digits.take(i - from)),
        decreases chars@.len() - i,
    {
        let c: char = chars[i];
        assert(digits[i - from] == c);
        if !('0' <= c && c <= '9') {
            return None;
        }
        let ghost more = digits.take(i - from + 1);
        assert(more.drop_last() =~= digits.take(i - from));
        assert(more.last() == c);
        if !over {
            value = value * 10 + (c as u32 - 48) as u128;
            if value > usize::MAX as u128 {
                over = true;
            }
        }
        i = i + 1;
    }
    assert(digits.take(i - from) =~= digits);
    if over {
        None
    } else {
        Some(value as usize)
    }
}

/// A limit that is given, or nothing.
pub open spec fn limit_of(args: ArgsView) -> Result<Option<usize>, ErrorView> {
    match given(args, "--limit"@) {
        None => Ok(None),
        Some(value) => match spelled_count(value) {
            Some(n) => Ok(Some(n)),
            None => Err(ErrorView::InvalidValue(value)),
        },
    }
}

/// A limit that is given, or nothing.
fn read_limit(args: &Args) -> (out: Result<Option<usize>, CommandError>)
    requires
        args@.names.len() == args@.values.len(),
    ensures
        match (out, limit_of(args@)) {
            (Ok(limit), Ok(expected)) => limit == expected,
            (Err(error), Err(expected)) => error@ == expected,
            _ => false,
        },
{
    match args.value("--limit") {
        None => Ok(None),
        Some(value) => match parse_count(value.as_str()) {
            Some(n) => Ok(Some(n)),
            None => Err(CommandError::InvalidValue(value)),
        },
    }
}

/// The command without arguments of a name.
pub open spec fn plain_command(name: Seq<char>) -> CommandView {
    if name == "status"@ {
        CommandView::Status
    } else if name == "tasks"@ {
        CommandView::Tasks
    } else if name == "reset"@ {
        CommandView::Reset
    } else if name == "stop"@ {
        CommandView::Stop
    } else if name == "quit"@ {
        CommandView::Quit
    } else if name == "plan"@ {
        CommandView::Plan
    } else if name == "milestones"@ {
        CommandView::Milestones
    } else if name == "reset-spec"@ {
        CommandView::ResetSpec
    } else if name == "spec"@ {
        CommandView::Spec
    } else if name == "supervisor"@ {
        CommandView::Supervisor
    } else if name == "executor"@ {
        CommandView::Executor
    } else if name == "resume"@ {
        CommandView::Resume
    } else if name == "review"@ {
        CommandView::Review
    } else {
        CommandView::Help
    }
}

/// The command without arguments of a name.
fn make_plain(name: &str) -> (out: ShellCommand)
    ensures
        out@ == plain_command(name@),
{
    if text::same(name, "status") {
        ShellCommand::Status
    } else if text::same(name, "tasks") {
        ShellCommand::Tasks
    } else if text::same(name, "reset") {
        ShellCommand::Reset
    } else if text::same(name, "stop") {
        ShellCommand::Stop
    } else if text::same(name, "quit") {
        ShellCommand::Quit
    } else if text::same(name, "plan") {
        ShellCommand::Plan
    } else if text::same(name, "milestones") {
        ShellCommand::Milestones
    } else if text::same(name, "reset-spec") {
        ShellCommand::ResetSpec
    } else if text::same(name, "spec") {
        ShellCommand::Spec
    } else if text::same(name, "supervisor") {
        ShellCommand::Supervisor
    } else if text::same(name, "executor") {
        ShellCommand::Executor
    } else if text::same(name, "resume") {
        ShellCommand::Resume
    } else if text::same(name, "review") {
        ShellCommand::Review
    } else {
        ShellCommand::Help
    }
}

/// The role that a text names.
pub open spec fn named_role(s: Seq<char>) -> Option<HqRole> {
    if s == "supervisor"@ {
        Some(HqRole::Supervisor)
    } else if s == "executor"@ {
        Some(HqRole::Executor)
    } else {
        None
    }
}

/// The command of a name with its arguments.
pub open spec fn command_of(name: Seq<char>, args: ArgsView) -> Result<CommandView, ErrorView> {
    if plain_commands().contains(name) {
        Ok(plain_command(name))
    } else if name == "run"@ {
        match limit_of(args) {
            Ok(limit) => Ok(CommandView::Run { limit }),
            Err(error) => Err(error),
        }
    } else if name == "runs"@ {
        match limit_of(args) {
            Ok(Some(limit)) => Ok(CommandView::Runs { limit }),
            Ok(None) => Ok(CommandView::Runs { limit: DEFAULT_LIMIT }),
            Err(error) => Err(error),
        }
    } else if name == "events"@ {
        match limit_of(args) {
            Ok(Some(limit)) => Ok(CommandView::Events { limit, run_id: given(args, "--run"@) }),
            Ok(None) => Ok(
                CommandView::Events { limit: DEFAULT_LIMIT, run_id: given(args, "--run"@) },
            ),
            Err(error) => Err(error),
        }
    } else if name == "check"@ {
        Ok(CommandView::Check { force: args.switches.contains("--force"@) })
    } else if name == "task"@ {
        Ok(CommandView::Task { manual: args.switches.contains("--manual"@) })
    } else if name == "attach"@ {
        match placed(args, 0) {
            Some(name) => Ok(CommandView::Attach { name }),
            None => Err(ErrorView::MissingArgument("<NAME>"@)),
        }
    } else if name == "init"@ {
        match given(args, "--agents-path"@) {
            Some(agents_path) => Ok(CommandView::Init { agents_path }),
            None => Ok(CommandView::Init { agents_path: DEFAULT_AGENTS_PATH@ }),
        }
    } else if name == "register"@ {
        Ok(
            CommandView::Register {
                supervisor: given(args, "--supervisor"@),
                supervisor_model: given(args, "--supervisor-model"@),
                executor: given(args, "--executor"@),
                executor_model: given(args, "--executor-model"@),
            },
        )
    } else {
        match placed(args, 0) {
            None => Err(ErrorView::MissingArgument("<TARGET>"@)),
            Some(role) => match named_role(role) {
                None => Err(ErrorView::InvalidValue(role)),
                Some(target) => Ok(
                    CommandView::Model {
                        target,
                        model: placed(args, 1),
                        clear: args.switches.contains("--clear"@),
                    },
                ),
            },
        }
    }
}

/// The command of a name with its arguments.
fn make_command(name: &str, args: &Args) -> (out: Result<ShellCommand, CommandError>)
    requires
        args@.names.len() == args@.values.len(),
    ensures
        match (out, command_of(name@, args@)) {
            (Ok(command), Ok(expected)) => command@ == expected,
            (Err(error), Err(expected)) => error@ == expected,
            _ => false,
        },
{
    let plain: Vec<String> = plain_names();
    if text::list_contains(&plain, name) {
        return Ok(make_plain(name));
    }
    if text::same(name, "run") || text::same(name, "runs") || text::same(name, "events") {
        let limit: Option<usize> = match read_limit(args) {
            Ok(limit) => limit,
            Err(error) => {
                return Err(error);
            },
        };
        if text::same(name, "run") {
            return Ok(ShellCommand::Run { limit });
        }
        let rows: usize = match limit {
            Some(n) => n,
            None => DEFAULT_LIMIT,
        };
        if text::same(name, "runs") {
            return Ok(ShellCommand::Runs { limit: rows });
        }
        return Ok(ShellCommand::Events { limit: rows, run_id: args.value("--run") });
    }
    if text::same(name, "check") {
        return Ok(ShellCommand::Check { force: args.switch("--force") });
    }
    if text::same(name, "task") {
        return Ok(ShellCommand::Task { manual: args.switch("--manual") });
    }
    if text::same(name, "attach") {
        return match args.positional(0) {
            Some(name) => Ok(ShellCommand::Attach { name }),
            None => Err(CommandError::MissingArgument("<NAME>".to_owned())),
        };
    }
    if text::same(name, "init") {
        return match args.value("--agents-path") {
            Some(agents_path) => Ok(ShellCommand::Init { agents_path }),
            None => Ok(ShellCommand::Init { agents_path: DEFAULT_AGENTS_PATH.to_owned() }),
        };
    }
    if text::same(name, "register") {
        return Ok(
            ShellCommand::Register {
                supervisor: args.value("--supervisor"),
                supervisor_model: args.value("--supervisor-model"),
                executor: args.value("--executor"),
                executor_model: args.value("--executor-model"),
            },
        );
    }
    let role: String = match args.positional(0) {
        Some(role) => role,
        None => {
            return Err(CommandError::MissingArgument("<TARGET>".to_owned()));
        },
    };
    let target: HqRole = if text::same(role.as_str(), "supervisor") {
        HqRole::Supervisor
    } else if text::same(role.as_str(), "executor") {
        HqRole::Executor
    } else {
        return Err(CommandError::InvalidValue(role));
    };
    Ok(ShellCommand::Model { target, model: args.positional(1), clear: args.switch("--clear") })
}

/// The command that a list of tokens spells.
pub open spec fn command_of_tokens(tokens: Seq<Seq<char>>) -> Result<CommandView, ErrorView> {
    if tokens.len() == 0 {
        Err(ErrorView::Empty)
    } else {
        match shape_of(tokens[0]) {
            None => Err(ErrorView::UnknownCommand(tokens[0])),
            Some(shape) => match read_args(no_args(), tokens.skip(1), shape) {
                Err(error) => Err(error),
                Ok(args) => command_of(tokens[0], args),
            },
        }
    }
}

/// The command that a list of tokens spells.
pub fn parse_tokens(tokens: &Vec<String>) -> (out: Result<ShellCommand, CommandError>)
    ensures
        match (out, command_of_tokens(text::views(tokens@))) {
            (Ok(command), Ok(expected)) => command@ == expected,
            (Err(error), Err(expected)) => error@ == expected,
            _ => false,
        },
{
    if tokens.len() == 0 {
        return Err(CommandError::Empty);
    }
    assert(text::views(tokens@)[0] == tokens@[0]@);
    let shape: Shape = match find_shape(tokens[0].as_str()) {
        Some(shape) => shape,
        None => {
            return Err(CommandError::UnknownCommand(tokens[0].clone()));
        },
    };
    let args: Args = match parse_args(tokens, &shape) {
        Ok(args) => args,
        Err(error) => {
            return Err(error);
        },
    };
    make_command(tokens[0].as_str(), &args)
}

/// The words of a line by the rules of a POSIX shell; nothing where a quote is
/// not closed.
pub uninterp spec fn shell_words(line: Seq<char>) -> Option<Seq<Seq<char>>>;

/// `shlex::split` splits a line into words by the rules of a POSIX shell, or
/// fails. The words are a function of the line alone.
#[verifier::external_body]
fn split_words(line: &str) -> (out: Option<Vec<String>>)
    ensures
        match out {
            Some(list) => shell_words(line@) == Some(text::views(list@)),
            None => shell_words(line@) is None,
        },
{
    shlex::split(line)
}

/// The command that a line spells: a slash, then the words of the command.
pub open spec fn command_of_line(line: Seq<char>) -> Result<CommandView, ErrorView> {
    match text::after_prefix(text::trim(line), "/"@) {
        None => Err(ErrorView::NoSlash),
        Some(rest) => match shell_words(rest) {
            None => Err(ErrorView::Unterminated),
            Some(tokens) => command_of_tokens(tokens),
        },
    }
}

/// Parses `/command [args…]` into a command.
pub fn parse_command(input: &str) -> (out: Result<ShellCommand, CommandError>)
    ensures
        match (out, command_of_line(input@)) {
            (Ok(command), Ok(expected)) => command@ == expected,
            (Err(error), Err(expected)) => error@ == expected,
            _ => false,
        },
{
    let trimmed: String = text::trim_string(input);
    match text::strip_prefix(trimmed.as_str(), "/") {
        None => Err(CommandError::NoSlash),
        Some(rest) => match split_words(rest.as_str()) {
            None => Err(CommandError::Unterminated),
            Some(tokens) => parse_tokens(&tokens),
        },
    }
}

// ------------------------------------------------------------------ laws of the commands

proof fn lemma_no_equals(s: Seq<char>)
    requires
        !s.contains('='),
    ensures
        option_end(s) == s.len(),
    decreases s.len(),
{
    if s.len() > 0 {
        assert(s.contains(s[0]));
        assert(!s.skip(1).contains('=')) by {
            if s.skip(1).contains('=') {
                let k = choose|k: int| 0 <= k < s.skip(1).len() && s.skip(1)[k] == '=';
                assert(s[k + 1] == '=');
            }
        }
        lemma_no_equals(s.skip(1));
    }
}

/// The names of the commands differ, by their lengths or by a letter.
proof fn lemma_names_differ()
    ensures
        "status"@.len() == 6 && "status"@[0] == 's',
        "tasks"@.len() == 5 && "tasks"@[0] == 't',
        "reset"@.len() == 5 && "reset"@[0] == 'r',
        "stop"@.len() == 4 && "stop"@[0] == 's' && "stop"@[1] == 't',
        "quit"@.len() == 4 && "quit"@[0] == 'q',
        "plan"@.len() == 4 && "plan"@[0] == 'p',
        "milestones"@.len() == 10 && "milestones"@[0] == 'm',
        "reset-spec"@.len() == 10 && "reset-spec"@[0] == 'r',
        "spec"@.len() == 4 && "spec"@[0] == 's' && "spec"@[1] == 'p',
        "supervisor"@.len() == 10 && "supervisor"@[0] == 's',
        "executor"@.len() == 8 && "executor"@[0] == 'e',
        "resume"@.len() == 6 && "resume"@[0] == 'r' && "resume"@[2] == 's',
        "review"@.len() == 6 && "review"@[0] == 'r' && "review"@[2] == 'v',
        "help"@.len() == 4 && "help"@[0] == 'h',
        "run"@.len() == 3 && "run"@[0] == 'r',
        "runs"@.len() == 4 && "runs"@[0] == 'r',
        "events"@.len() == 6 && "events"@[0] == 'e',
        "check"@.len() == 5 && "check"@[0] == 'c',
        "task"@.len() == 4 && "task"@[0] == 't',
        "attach"@.len() == 6 && "attach"@[0] == 'a',
        "init"@.len() == 4 && "init"@[0] == 'i',
        "register"@.len() == 8 && "register"@[0] == 'r',
        "model"@.len() == 5 && "model"@[0] == 'm',
{
    reveal_strlit("status");
    reveal_strlit("tasks");
    reveal_strlit("reset");
    reveal_strlit("stop");
    reveal_strlit("quit");
    reveal_strlit("plan");
    reveal_strlit("milestones");
    reveal_strlit("reset-spec");
    reveal_strlit("spec");
    reveal_strlit("supervisor");
    reveal_strlit("executor");
    reveal_strlit("resume");
    reveal_strlit("review");
    reveal_strlit("help");
    reveal_strlit("run");
    reveal_strlit("runs");
    reveal_strlit("events");
    reveal_strlit("check");
    reveal_strlit("task");
    reveal_strlit("attach");
    reveal_strlit("init");
    reveal_strlit("register");
    reveal_strlit("model");
}

/// The names of the options differ, and each is one whole option.
proof fn lemma_options_differ()
    ensures
        "--limit"@.len() == 7 && "--limit"@[0] == '-' && "--limit"@[2] == 'l',
        "--run"@.len() == 5 && "--run"@[0] == '-',
        "--supervisor"@.len() == 12 && "--supervisor"@[0] == '-',
        "--supervisor-model"@.len() == 18 && "--supervisor-model"@[0] == '-',
        "--executor"@.len() == 10 && "--executor"@[0] == '-',
        "--executor-model"@.len() == 16 && "--executor-model"@[0] == '-',
        "--agents-path"@.len() == 13 && "--agents-path"@[0] == '-',
        "--force"@.len() == 7 && "--force"@[0] == '-' && "--force"@[2] == 'f',
        "--manual"@.len() == 8 && "--manual"@[0] == '-',
        "--clear"@.len() == 7 && "--clear"@[0] == '-' && "--clear"@[2] == 'c',
        "--"@.len() == 2 && "--"@[0] == '-',
        dashed("--limit"@) && option_end("--limit"@) == "--limit"@.len(),
        dashed("--run"@) && option_end("--run"@) == "--run"@.len(),
        dashed("--supervisor"@) && option_end("--supervisor"@) == "--supervisor"@.len(),
        dashed("--supervisor-model"@) && option_end("--supervisor-model"@) == "--supervisor-model"@.len(),
        dashed("--executor"@) && option_end("--executor"@) == "--executor"@.len(),
        dashed("--executor-model"@) && option_end("--executor-model"@) == "--executor-model"@.len(),
        dashed("--agents-path"@) && option_end("--agents-path"@) == "--agents-path"@.len(),
        dashed("--force"@) && option_end("--force"@) == "--force"@.len(),
        dashed("--manual"@) && option_end("--manual"@) == "--manual"@.len(),
        dashed("--clear"@) && option_end("--clear"@) == "--clear"@.len(),
{
    reveal_strlit("--limit");
    reveal_strlit("--run");
    reveal_strlit("--supervisor");
    reveal_strlit("--supervisor-model");
    reveal_strlit("--executor");
    reveal_strlit("--executor-model");
    reveal_strlit("--agents-path");
    reveal_strlit("--force");
    reveal_strlit("--manual");
    reveal_strlit("--clear");
    reveal_strlit("--");
    lemma_no_equals("--limit"@);
    lemma_no_equals("--run"@);
    lemma_no_equals("--supervisor"@);
    lemma_no_equals("--supervisor-model"@);
    lemma_no_equals("--executor"@);
    lemma_no_equals("--executor-model"@);
    lemma_no_equals("--agents-path"@);
    lemma_no_equals("--force"@);
    lemma_no_equals("--manual"@);
    lemma_no_equals("--clear"@);
}

proof fn lemma_not_plain()
    ensures
        !plain_commands().contains("run"@),
        !plain_commands().contains("runs"@),
        !plain_commands().contains("events"@),
        !plain_commands().contains("check"@),
        !plain_commands().contains("task"@),
        !plain_commands().contains("attach"@),
        !plain_commands().contains("init"@),
        !plain_commands().contains("register"@),
        !plain_commands().contains("model"@),
{
    lemma_names_differ();
    if plain_commands().contains("run"@) {
        let k = choose|k: int|
            0 <= k < plain_commands().len() && plain_commands()[k] == "run"@;
    }
    if plain_commands().contains("runs"@) {
        let k = choose|k: int|
            0 <= k < plain_commands().len() && plain_commands()[k] == "runs"@;
    }
    if plain_commands().contains("events"@) {
        let k = choose|k: int|
            0 <= k < plain_commands().len() && plain_commands()[k] == "events"@;
    }
    if plain_commands().contains("check"@) {
        let k = choose|k: int|
            0 <= k < plain_commands().len() && plain_commands()[k] == "check"@;
    }
    if plain_commands().contains("task"@) {
        let k = choose|k: int|
            0 <= k < plain_commands().len() && plain_commands()[k] == "task"@;
    }
    if plain_commands().contains("attach"@) {
        let k = choose|k: int|
            0 <= k < plain_commands().len() && plain_commands()[k] == "attach"@;
    }
    if plain_commands().contains("init"@) {
        let k = choose|k: int|
            0 <= k < plain_commands().len() && plain_commands()[k] == "init"@;
    }
    if plain_commands().contains("register"@) {
        let k = choose|k: int|
            0 <= k < plain_commands().len() && plain_commands()[k] == "register"@;
    }
    if plain_commands().contains("model"@) {
        let k = choose|k: int|
            0 <= k < plain_commands().len() && plain_commands()[k] == "model"@;
    }
}

proof fn lemma_alone(name: Seq<char>)
    requires
        shape_of(name) is Some,
    ensures
        command_of_tokens(seq![name]) == command_of(name, no_args()),
{
    let tokens = seq![name];
    assert(tokens[0] == name);
    assert(tokens.skip(1) =~= Seq::empty());
}

/// A command without arguments is spelled by its own name alone.
pub proof fn law_plain_commands_have_their_names()
    ensures
        command_of_tokens(seq!["status"@]) == Ok::<CommandView, ErrorView>(CommandView::Status),
        command_of_tokens(seq!["tasks"@]) == Ok::<CommandView, ErrorView>(CommandView::Tasks),
        command_of_tokens(seq!["reset"@]) == Ok::<CommandView, ErrorView>(CommandView::Reset),
        command_of_tokens(seq!["stop"@]) == Ok::<CommandView, ErrorView>(CommandView::Stop),
        command_of_tokens(seq!["quit"@]) == Ok::<CommandView, ErrorView>(CommandView::Quit),
        command_of_tokens(seq!["plan"@]) == Ok::<CommandView, ErrorView>(CommandView::Plan),
        command_of_tokens(seq!["milestones"@]) == Ok::<CommandView, ErrorView>(CommandView::Milestones),
        command_of_tokens(seq!["reset-spec"@]) == Ok::<CommandView, ErrorView>(CommandView::ResetSpec),
        command_of_tokens(seq!["spec"@]) == Ok::<CommandView, ErrorView>(CommandView::Spec),
        command_of_tokens(seq!["supervisor"@]) == Ok::<CommandView, ErrorView>(CommandView::Supervisor),
        command_of_tokens(seq!["executor"@]) == Ok::<CommandView, ErrorView>(CommandView::Executor),
        command_of_tokens(seq!["resume"@]) == Ok::<CommandView, ErrorView>(CommandView::Resume),
        command_of_tokens(seq!["review"@]) == Ok::<CommandView, ErrorView>(CommandView::Review),
        command_of_tokens(seq!["help"@]) == Ok::<CommandView, ErrorView>(CommandView::Help),
{
    lemma_names_differ();
    assert(plain_commands()[0] == "status"@);
    lemma_alone("status"@);
    assert(plain_commands()[1] == "tasks"@);
    lemma_alone("tasks"@);
    assert(plain_commands()[2] == "reset"@);
    lemma_alone("reset"@);
    assert(plain_commands()[3] == "stop"@);
    lemma_alone("stop"@);
    assert(plain_commands()[4] == "quit"@);
    lemma_alone("quit"@);
    assert(plain_commands()[5] == "plan"@);
    lemma_alone("plan"@);
    assert(plain_commands()[6] == "milestones"@);
    lemma_alone("milestones"@);
    assert(plain_commands()[7] == "reset-spec"@);
    lemma_alone("reset-spec"@);
    assert(plain_commands()[8] == "spec"@);
    lemma_alone("spec"@);
    assert(plain_commands()[9] == "supervisor"@);
    lemma_alone("supervisor"@);
    assert(plain_commands()[10] == "executor"@);
    lemma_alone("executor"@);
    assert(plain_commands()[11] == "resume"@);
    lemma_alone("resume"@);
    assert(plain_commands()[12] == "review"@);
    lemma_alone("review"@);
    assert(plain_commands()[13] == "help"@);
    lemma_alone("help"@);
}

/// Whether a text can stand as the value of an option: it does not look like an option
/// itself.
pub open spec fn is_value(s: Seq<char>) -> bool {
    s.len() <= 1 || s[0] != '-'
}

proof fn lemma_read_one(name: Seq<char>, value: Seq<char>, shape: ShapeView)
    requires
        shape.options.contains(name),
        dashed(name),
        option_end(name) == name.len(),
        name != "--"@,
        is_value(value),
    ensures
        read_args(no_args(), seq![name, value], shape) == Ok::<ArgsView, ErrorView>(
            ArgsView { names: seq![name], values: seq![value], ..no_args() },
        ),
{
    reveal_with_fuel(read_args, 3);
    let tokens = seq![name, value];
    assert(name.take(name.len() as int) =~= name);
    assert(tokens[0] == name);
    let after = ArgsView { waiting: Some(name), ..no_args() };
    assert(!no_args().names.contains(name));
    assert(arg_step(no_args(), name, shape) == Ok::<ArgsView, ErrorView>(after));
    let rest = tokens.skip(1);
    assert(rest[0] == value);
    let last = ArgsView { names: seq![name], values: seq![value], ..no_args() };
    assert(Seq::<Seq<char>>::empty().push(name) =~= seq![name]);
    assert(Seq::<Seq<char>>::empty().push(value) =~= seq![value]);
    assert(arg_step(after, value, shape) == Ok::<ArgsView, ErrorView>(last));
    assert(rest.skip(1).len() == 0);
}

proof fn lemma_option_end_at(name: Seq<char>, value: Seq<char>)
    requires
        !name.contains('='),
    ensures
        option_end(name.push('=') + value) == name.len(),
    decreases name.len(),
{
    let all = name.push('=') + value;
    if name.len() > 0 {
        assert(all[0] == name[0]);
        assert(name.contains(name[0]));
        assert(!name.skip(1).contains('=')) by {
            if name.skip(1).contains('=') {
                let k = choose|k: int| 0 <= k < name.skip(1).len() && name.skip(1)[k] == '=';
                assert(name[k + 1] == '=');
            }
        }
        lemma_option_end_at(name.skip(1), value);
        assert(all.skip(1) =~= name.skip(1).push('=') + value);
    } else {
        assert(all[0] == '=');
    }
}

/// The value of an option may stand behind it or, with an equals sign between, in the same
/// word: both are read alike. An option that stands last without a value is refused, and so
/// is one that is given twice.
pub proof fn law_values_stand_behind_or_within(
    args: ArgsView,
    name: Seq<char>,
    value: Seq<char>,
    rest: Seq<Seq<char>>,
    shape: ShapeView,
)
    requires
        args.waiting is None,
        !args.only_positionals,
        shape.options.contains(name),
        dashed(name),
        !name.contains('='),
        name != "--"@,
        is_value(value),
    ensures
        read_args(args, seq![name, value] + rest, shape) == read_args(
            args,
            seq![name.push('=') + value] + rest,
            shape,
        ),
        !args.names.contains(name) ==> read_args(args, seq![name], shape) == Err::<
            ArgsView,
            ErrorView,
        >(ErrorView::MissingValue(name)),
        args.names.contains(name) ==> read_args(args, seq![name, value] + rest, shape) == Err::<
            ArgsView,
            ErrorView,
        >(ErrorView::Repeated(name)),
{
    reveal_with_fuel(read_args, 3);
    lemma_no_equals(name);
    lemma_option_end_at(name, value);
    let joined = name.push('=') + value;
    assert(name.take(name.len() as int) =~= name);
    assert(joined.take(name.len() as int) =~= name);
    assert(joined.skip(name.len() as int + 1) =~= value);
    assert(joined[0] == name[0]);
    let a = seq![name, value] + rest;
    let b = seq![joined] + rest;
    assert(a[0] == name && b[0] == joined);
    assert(a.skip(1)[0] == value);
    assert(a.skip(1).skip(1) =~= rest);
    assert(b.skip(1) =~= rest);
    assert(joined.contains('=')) by {
        assert(joined[name.len() as int] == '=');
    }
    assert(joined != "--"@) by {
        reveal_strlit("--");
        if joined == "--"@ {
            assert(joined[name.len() as int] == '=');
        }
    }
    let one = seq![name];
    assert(one[0] == name);
    assert(one.skip(1).len() == 0);
    if !args.names.contains(name) {
        let waiting = ArgsView { waiting: Some(name), ..args };
        assert(arg_step(args, name, shape) == Ok::<ArgsView, ErrorView>(waiting));
        let got = ArgsView {
            names: args.names.push(name),
            values: args.values.push(value),
            ..args
        };
        assert(arg_step(waiting, value, shape) == Ok::<ArgsView, ErrorView>(got));
        assert(arg_step(args, joined, shape) == Ok::<ArgsView, ErrorView>(got));
    }
}

proof fn lemma_given_one(args: ArgsView, name: Seq<char>, value: Seq<char>, other: Seq<char>)
    requires
        args.names == seq![name],
        args.values == seq![value],
    ensures
        given(args, name) == Some(value),
        other != name ==> given(args, other) is None,
{
    text::lemma_index_of_unique(args.names, name, 0);
    if other != name {
        text::lemma_index_of_unique(args.names, other, 1);
    }
}

/// How the commands with a limit read it: a batch has none of its own, the lists have twenty
/// rows without one, and one that is no number is refused. Events may be those of one run.
pub proof fn law_limits_are_read(value: Seq<char>)
    requires
        is_value(value),
    ensures
        command_of_tokens(seq!["run"@]) == Ok::<CommandView, ErrorView>(
            CommandView::Run { limit: None },
        ),
        command_of_tokens(seq!["runs"@]) == Ok::<CommandView, ErrorView>(
            CommandView::Runs { limit: 20 },
        ),
        command_of_tokens(seq!["events"@]) == Ok::<CommandView, ErrorView>(
            CommandView::Events { limit: 20, run_id: None },
        ),
        command_of_tokens(seq!["events"@, "--run"@, value]) == Ok::<CommandView, ErrorView>(
            CommandView::Events { limit: 20, run_id: Some(value) },
        ),
        match spelled_count(value) {
            Some(n) => {
                &&& command_of_tokens(seq!["run"@, "--limit"@, value]) == Ok::<
                    CommandView,
                    ErrorView,
                >(CommandView::Run { limit: Some(n) })
                &&& command_of_tokens(seq!["runs"@, "--limit"@, value]) == Ok::<
                    CommandView,
                    ErrorView,
                >(CommandView::Runs { limit: n })
                &&& command_of_tokens(seq!["events"@, "--limit"@, value]) == Ok::<
                    CommandView,
                    ErrorView,
                >(CommandView::Events { limit: n, run_id: None })
            },
            None => {
                &&& command_of_tokens(seq!["run"@, "--limit"@, value]) is Err
                &&& command_of_tokens(seq!["runs"@, "--limit"@, value]) is Err
                &&& command_of_tokens(seq!["events"@, "--limit"@, value]) is Err
            },
        },
{
    lemma_names_differ();
    lemma_not_plain();
    lemma_options_differ();
    lemma_alone("run"@);
    lemma_alone("runs"@);
    lemma_alone("events"@);
    text::lemma_index_of_unique(no_args().names, "--limit"@, 0);
    text::lemma_index_of_unique(no_args().names, "--run"@, 0);
    let limited = shape_of("run"@)->0;
    assert(limited.options[0] == "--limit"@);
    let listed = shape_of("events"@)->0;
    assert(listed.options[0] == "--limit"@ && listed.options[1] == "--run"@);
    lemma_read_one("--limit"@, value, limited);
    lemma_read_one("--limit"@, value, listed);
    lemma_read_one("--run"@, value, listed);
    let a = ArgsView { names: seq!["--limit"@], values: seq![value], ..no_args() };
    let b = ArgsView { names: seq!["--run"@], values: seq![value], ..no_args() };
    lemma_given_one(a, "--limit"@, value, "--run"@);
    lemma_given_one(b, "--run"@, value, "--limit"@);
    assert(seq!["run"@, "--limit"@, value].skip(1) =~= seq!["--limit"@, value]);
    assert(seq!["runs"@, "--limit"@, value].skip(1) =~= seq!["--limit"@, value]);
    assert(seq!["events"@, "--limit"@, value].skip(1) =~= seq!["--limit"@, value]);
    assert(seq!["events"@, "--run"@, value].skip(1) =~= seq!["--run"@, value]);
    assert(shape_of("runs"@)->0 == limited);
}

/// A count is spelled in decimal digits, and a number that is written so reads back.
pub proof fn law_counts_read_back(n: usize, s: Seq<char>)
    ensures
        spelled_count(text::decimal(n as nat)) == Some(n),
        s.len() == 0 ==> spelled_count(s) is None,
        s.len() > 0 && s[0] != '+' && !text::is_digit(s[0]) ==> spelled_count(s) is None,
{
    text::law_decimal_is_shortest(n as nat);
    let d = text::decimal(n as nat);
    assert(text::is_digit(d[0]));
}

proof fn lemma_read_switch(name: Seq<char>, shape: ShapeView)
    requires
        shape.switches.contains(name),
        !shape.options.contains(name),
        dashed(name),
        option_end(name) == name.len(),
        name != "--"@,
    ensures
        read_args(no_args(), seq![name], shape) == Ok::<ArgsView, ErrorView>(
            ArgsView { switches: seq![name], ..no_args() },
        ),
{
    reveal_with_fuel(read_args, 2);
    let tokens = seq![name];
    assert(name.take(name.len() as int) =~= name);
    assert(tokens[0] == name);
    assert(tokens.skip(1).len() == 0);
    assert(!no_args().switches.contains(name));
    assert(Seq::<Seq<char>>::empty().push(name) =~= seq![name]);
}

/// Checks are forced, and tasks defined without a milestone, only where that is asked for.
pub proof fn law_switches_are_asked_for()
    ensures
        command_of_tokens(seq!["check"@]) == Ok::<CommandView, ErrorView>(
            CommandView::Check { force: false },
        ),
        command_of_tokens(seq!["check"@, "--force"@]) == Ok::<CommandView, ErrorView>(
            CommandView::Check { force: true },
        ),
        command_of_tokens(seq!["task"@]) == Ok::<CommandView, ErrorView>(
            CommandView::Task { manual: false },
        ),
        command_of_tokens(seq!["task"@, "--manual"@]) == Ok::<CommandView, ErrorView>(
            CommandView::Task { manual: true },
        ),
{
    lemma_names_differ();
    lemma_not_plain();
    lemma_options_differ();
    lemma_alone("check"@);
    lemma_alone("task"@);
    assert(!no_args().switches.contains("--force"@));
    assert(!no_args().switches.contains("--manual"@));
    let check = shape_of("check"@)->0;
    let task = shape_of("task"@)->0;
    assert(check.switches[0] == "--force"@ && task.switches[0] == "--manual"@);
    lemma_read_switch("--force"@, check);
    lemma_read_switch("--manual"@, task);
    assert(seq!["check"@, "--force"@].skip(1) =~= seq!["--force"@]);
    assert(seq!["task"@, "--manual"@].skip(1) =~= seq!["--manual"@]);
    assert(seq!["--force"@][0] == "--force"@ && seq!["--manual"@][0] == "--manual"@);
}

/// Where a name or a path is given it is taken as it stands: the agent to attach to, which
/// is needed, and the directory of agents, which has a default.
pub proof fn law_names_are_taken(name: Seq<char>)
    requires
        is_value(name),
    ensures
        command_of_tokens(seq!["attach"@, name]) == Ok::<CommandView, ErrorView>(
            CommandView::Attach { name },
        ),
        command_of_tokens(seq!["attach"@]) is Err,
        command_of_tokens(seq!["init"@]) == Ok::<CommandView, ErrorView>(
            CommandView::Init { agents_path: ".agents"@ },
        ),
        command_of_tokens(seq!["init"@, "--agents-path"@, name]) == Ok::<CommandView, ErrorView>(
            CommandView::Init { agents_path: name },
        ),
{
    reveal_with_fuel(read_args, 2);
    lemma_names_differ();
    lemma_not_plain();
    lemma_options_differ();
    lemma_alone("attach"@);
    lemma_alone("init"@);
    text::lemma_index_of_unique(no_args().names, "--agents-path"@, 0);
    let attach = shape_of("attach"@)->0;
    let tokens = seq![name];
    assert(tokens[0] == name);
    assert(tokens.skip(1).len() == 0);
    assert(Seq::<Seq<char>>::empty().push(name) =~= seq![name]);
    assert(seq!["attach"@, name].skip(1) =~= tokens);
    let init = shape_of("init"@)->0;
    assert(init.options[0] == "--agents-path"@);
    lemma_read_one("--agents-path"@, name, init);
    let a = ArgsView { names: seq!["--agents-path"@], values: seq![name], ..no_args() };
    lemma_given_one(a, "--agents-path"@, name, "--run"@);
    assert(seq!["init"@, "--agents-path"@, name].skip(1) =~= seq!["--agents-path"@, name]);
}

/// Registering takes each agent and each model from its own option, whatever the others are.
pub proof fn law_register_takes_each_option(value: Seq<char>, other: Seq<char>)
    requires
        is_value(value),
        is_value(other),
    ensures
        command_of_tokens(seq!["register"@, "--supervisor"@, value, "--executor"@, other]) == Ok::<
            CommandView,
            ErrorView,
        >(
            CommandView::Register {
                supervisor: Some(value),
                supervisor_model: None,
                executor: Some(other),
                executor_model: None,
            },
        ),
        command_of_tokens(seq!["register"@, "--executor"@, other, "--supervisor"@, value]) == Ok::<
            CommandView,
            ErrorView,
        >(
            CommandView::Register {
                supervisor: Some(value),
                supervisor_model: None,
                executor: Some(other),
                executor_model: None,
            },
        ),
        command_of_tokens(seq!["register"@, "--supervisor"@, value, "--supervisor-model"@, other])
            == Ok::<CommandView, ErrorView>(
            CommandView::Register {
                supervisor: Some(value),
                supervisor_model: Some(other),
                executor: None,
                executor_model: None,
            },
        ),
        command_of_tokens(seq!["register"@, "--executor"@, value, "--executor-model"@, other])
            == Ok::<CommandView, ErrorView>(
            CommandView::Register {
                supervisor: None,
                supervisor_model: None,
                executor: Some(value),
                executor_model: Some(other),
            },
        ),
{
    lemma_names_differ();
    lemma_not_plain();
    lemma_options_differ();
    let shape = shape_of("register"@)->0;
    assert(shape.options[0] == "--supervisor"@ && shape.options[1] == "--supervisor-model"@
        && shape.options[2] == "--executor"@ && shape.options[3] == "--executor-model"@);
    lemma_register_two("--supervisor"@, value, "--executor"@, other);
    lemma_register_two("--executor"@, other, "--supervisor"@, value);
    lemma_register_two("--supervisor"@, value, "--supervisor-model"@, other);
    lemma_register_two("--executor"@, value, "--executor-model"@, other);
}

proof fn lemma_register_two(
    first: Seq<char>,
    value: Seq<char>,
    second: Seq<char>,
    other: Seq<char>,
)
    requires
        first != second,
        shape_of("register"@)->0.options.contains(first),
        shape_of("register"@)->0.options.contains(second),
        dashed(first) && option_end(first) == first.len() && first != "--"@,
        dashed(second) && option_end(second) == second.len() && second != "--"@,
        is_value(value),
        is_value(other),
    ensures
        ({
            let args = ArgsView {
                names: seq![first, second],
                values: seq![value, other],
                ..no_args()
            };
            &&& command_of_tokens(seq!["register"@, first, value, second, other]) == command_of(
                "register"@,
                args,
            )
            &&& given(args, first) == Some(value)
            &&& given(args, second) == Some(other)
            &&& forall|name: Seq<char>|
                name != first && name != second ==> #[trigger] given(args, name) is None
        }),
{
    reveal_with_fuel(read_args, 5);
    lemma_names_differ();
    lemma_not_plain();
    let shape = shape_of("register"@)->0;
    let all = seq!["register"@, first, value, second, other];
    let tokens = all.skip(1);
    assert(first.take(first.len() as int) =~= first);
    assert(second.take(second.len() as int) =~= second);
    assert(tokens[0] == first);
    let w1 = ArgsView { waiting: Some(first), ..no_args() };
    assert(!no_args().names.contains(first));
    assert(arg_step(no_args(), first, shape) == Ok::<ArgsView, ErrorView>(w1));
    let t1 = tokens.skip(1);
    assert(t1[0] == value);
    let a1 = ArgsView { names: seq![first], values: seq![value], ..no_args() };
    assert(Seq::<Seq<char>>::empty().push(first) =~= seq![first]);
    assert(Seq::<Seq<char>>::empty().push(value) =~= seq![value]);
    assert(arg_step(w1, value, shape) == Ok::<ArgsView, ErrorView>(a1));
    let t2 = t1.skip(1);
    assert(t2[0] == second);
    let w2 = ArgsView { waiting: Some(second), ..a1 };
    assert(!a1.names.contains(second));
    assert(arg_step(a1, second, shape) == Ok::<ArgsView, ErrorView>(w2));
    let t3 = t2.skip(1);
    assert(t3[0] == other);
    let a2 = ArgsView { names: seq![first, second], values: seq![value, other], ..no_args() };
    assert(seq![first].push(second) =~= seq![first, second]);
    assert(seq![value].push(other) =~= seq![value, other]);
    assert(arg_step(w2, other, shape) == Ok::<ArgsView, ErrorView>(a2));
    assert(t3.skip(1).len() == 0);
    text::lemma_index_of_unique(a2.names, first, 0);
    text::lemma_index_of_unique(a2.names, second, 1);
    assert forall|name: Seq<char>| name != first && name != second implies #[trigger] given(
        a2,
        name,
    ) is None by {
        text::lemma_index_of_unique(a2.names, name, 2);
    }
}

/// A model is set for the role that is named first, or cleared where that is asked for; a
/// role that is none of the two is refused.
pub proof fn law_models_are_set_by_role(role: Seq<char>, model: Seq<char>)
    requires
        is_value(role),
        is_value(model),
    ensures
        match command_of_tokens(seq!["model"@, role, model]) {
            Ok(command) => (role == "supervisor"@ || role == "executor"@) && command
                == CommandView::Model {
                target: if role == "supervisor"@ {
                    HqRole::Supervisor
                } else {
                    HqRole::Executor
                },
                model: Some(model),
                clear: false,
            },
            Err(_) => role != "supervisor"@ && role != "executor"@,
        },
        command_of_tokens(seq!["model"@, "executor"@, "--clear"@]) == Ok::<CommandView, ErrorView>(
            CommandView::Model { target: HqRole::Executor, model: None, clear: true },
        ),
        command_of_tokens(seq!["model"@, "supervisor"@, "--clear"@]) == Ok::<
            CommandView,
            ErrorView,
        >(CommandView::Model { target: HqRole::Supervisor, model: None, clear: true }),
        command_of_tokens(seq!["model"@]) is Err,
{
    reveal_with_fuel(read_args, 3);
    lemma_names_differ();
    lemma_not_plain();
    lemma_options_differ();
    lemma_alone("model"@);
    let shape = shape_of("model"@)->0;
    let tokens = seq!["model"@, role, model];
    let t = tokens.skip(1);
    assert(t[0] == role);
    assert(t.skip(1)[0] == model);
    assert(t.skip(1).skip(1).len() == 0);
    let a1 = ArgsView { positionals: seq![role], ..no_args() };
    assert(Seq::<Seq<char>>::empty().push(role) =~= seq![role]);
    assert(arg_step(no_args(), role, shape) == Ok::<ArgsView, ErrorView>(a1));
    let a2 = ArgsView { positionals: seq![role, model], ..no_args() };
    assert(seq![role].push(model) =~= seq![role, model]);
    assert(arg_step(a1, model, shape) == Ok::<ArgsView, ErrorView>(a2));
    assert(!a2.switches.contains("--clear"@));
    lemma_clear("executor"@);
    lemma_clear("supervisor"@);
}

proof fn lemma_clear(role: Seq<char>)
    requires
        is_value(role),
    ensures
        command_of_tokens(seq!["model"@, role, "--clear"@]) == command_of(
            "model"@,
            ArgsView { positionals: seq![role], switches: seq!["--clear"@], ..no_args() },
        ),
        seq!["--clear"@].contains("--clear"@),
{
    reveal_with_fuel(read_args, 3);
    lemma_names_differ();
    lemma_not_plain();
    lemma_options_differ();
    let shape = shape_of("model"@)->0;
    assert(shape.switches[0] == "--clear"@);
    let t = seq!["model"@, role, "--clear"@].skip(1);
    assert(t[0] == role);
    assert(t.skip(1)[0] == "--clear"@);
    assert(t.skip(1).skip(1).len() == 0);
    let a1 = ArgsView { positionals: seq![role], ..no_args() };
    assert(Seq::<Seq<char>>::empty().push(role) =~= seq![role]);
    assert(arg_step(no_args(), role, shape) == Ok::<ArgsView, ErrorView>(a1));
    assert("--clear"@.take("--clear"@.len() as int) =~= "--clear"@);
    assert(!a1.switches.contains("--clear"@));
    assert(!shape.options.contains("--clear"@));
    assert(Seq::<Seq<char>>::empty().push("--clear"@) =~= seq!["--clear"@]);
    assert(seq!["--clear"@][0] == "--clear"@);
}

/// What is no command is refused by its name, and so is what a command does not take.
pub proof fn law_only_commands_are_carried_out(tokens: Seq<Seq<char>>, extra: Seq<char>)
    requires
        tokens.len() > 0,
        is_value(extra),
    ensures
        shape_of(tokens[0]) is None ==> command_of_tokens(tokens) == Err::<CommandView, ErrorView>(
            ErrorView::UnknownCommand(tokens[0]),
        ),
        plain_commands().contains(tokens[0]) && tokens.len() == 1 ==> command_of_tokens(
            tokens.push(extra),
        ) == Err::<CommandView, ErrorView>(ErrorView::Unexpected(extra)),
        command_of_tokens(Seq::empty()) is Err,
{
    if plain_commands().contains(tokens[0]) && tokens.len() == 1 {
        reveal_with_fuel(read_args, 2);
        let more = tokens.push(extra);
        assert(more[0] == tokens[0]);
        assert(more.skip(1)[0] == extra);
    }
}

} // verus!
