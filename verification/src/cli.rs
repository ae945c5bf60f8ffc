//! The `promptforge` command line: `promptforge run [--store DIR] [-v|--verbose]
//! FILE [INPUT]`.
//!
//! The grammar is clap's: this module builds the clap command definition and
//! reads the values clap matched. clap's parse decides what is accepted; the
//! contracts here say what is handed to clap and how its matches become a
//! [`Cli`].

use vstd::prelude::*;

use clap::builder::ValueParser;
use clap::{Arg, ArgAction, ArgMatches, Command as ClapCommand};
use std::path::PathBuf;

verus! {

#[verifier::external_type_specification]
#[verifier::external_body]
pub struct ExClapCommand(ClapCommand);

#[verifier::external_type_specification]
#[verifier::external_body]
pub struct ExClapArg(clap::Arg);

#[verifier::external_type_specification]
#[verifier::external_body]
pub struct ExArgMatches(clap::ArgMatches);

#[verifier::external_type_specification]
#[verifier::external_body]
pub struct ExPathBuf(std::path::PathBuf);

/// The program name.
pub const PROGRAM_NAME: &'static str = "promptforge";

/// The version the command line reports.
pub const PROGRAM_VERSION: &'static str = "0.1.0";

/// The one subcommand.
pub const RUN_COMMAND: &'static str = "run";

/// Help text of the `file` argument.
pub const FILE_HELP: &'static str = "Path to the promptforge prompt file.";

/// Help text of the `input` argument.
pub const INPUT_HELP: &'static str = "Raw input string exposed to the prompt as `args` (defaults to empty).";

/// Help text of the `--store` option.
pub const STORE_HELP: &'static str = "Directory for persistent file-backed store. When absent, an ephemeral in-memory store is used.";

/// Help text of the `--verbose` flag.
pub const VERBOSE_HELP: &'static str = "Print run lifecycle observations (section boundaries, model turns, tool calls) to stderr as they happen.";

/// Description of the `run` subcommand.
pub const RUN_ABOUT: &'static str = "Parse a prompt file and execute its sections top to bottom (fall-through).";

/// Description of the program.
pub const PROGRAM_ABOUT: &'static str = "Run PromptForge prompts.";

/// Id of the prompt file argument.
pub const FILE_ID: &'static str = "file";

/// Id of the input argument.
pub const INPUT_ID: &'static str = "input";

/// Id of the store directory option.
pub const STORE_ID: &'static str = "store_dir";

/// Id of the verbose flag.
pub const VERBOSE_ID: &'static str = "verbose";

/// The settings of a clap argument definition that this crate sets: its id,
/// help text, long and short names, value names, whether it is required, and
/// whether its action is `ArgAction::SetTrue` (a boolean flag).
pub struct ArgView {
    pub id: Seq<char>,
    pub help: Option<Seq<char>>,
    pub long: Option<Seq<char>>,
    pub short: Option<char>,
    pub value_names: Seq<Seq<char>>,
    pub required: bool,
    pub set_true: bool,
    /// Its values are parsed as paths (`ValueParser::path_buf`, which refuses
    /// an empty value) rather than as strings.
    pub path_values: bool,
    /// Every setting the argument holds beyond these is as `Arg::new` left
    /// it, but for the display order and help heading that
    /// `Command::arg` assigns.
    pub only_recorded: bool,
}

/// The settings of a clap command definition that this crate sets: its name,
/// version, description, whether a subcommand is required, whether an empty
/// command line answers with help, and its arguments and subcommands in the
/// order they were added.
pub struct CommandView {
    pub name: Seq<char>,
    pub version: Option<Seq<char>>,
    pub about: Option<Seq<char>>,
    pub subcommand_required: bool,
    pub arg_required_else_help: bool,
    pub args: Seq<ArgView>,
    pub subcommands: Seq<CommandView>,
    /// Every setting the command holds beyond these is as `Command::new`
    /// left it, but for the display orders that `Command::arg` and
    /// `Command::subcommand` assign; and so it is of its arguments and
    /// subcommands.
    pub only_recorded: bool,
}

/// What a `clap::Arg` holds, as far as [`ArgView`] records it.
pub uninterp spec fn clap_arg_view(arg: Arg) -> ArgView;

/// What a `clap::Command` holds, as far as [`CommandView`] records it.
pub uninterp spec fn clap_command_view(command: ClapCommand) -> CommandView;

/// `clap::Command::new`: a command with the given name and every other
/// setting at its default (no version, no description, nothing required, no
/// arguments, no subcommands).
#[verifier::external_body]
fn command_new(name: &'static str) -> (command: ClapCommand)
    ensures
        clap_command_view(command) == (CommandView {
            name: name@,
            version: None,
            about: None,
            subcommand_required: false,
            arg_required_else_help: false,
            args: Seq::empty(),
            subcommands: Seq::empty(),
            only_recorded: true,
        }),
{
    ClapCommand::new(name)
}

/// `clap::Command::version`: sets the version, nothing else.
#[verifier::external_body]
fn command_version(command: ClapCommand, version: &'static str) -> (result: ClapCommand)
    ensures
        clap_command_view(result) == (CommandView { version: Some(version@), ..clap_command_view(command) }),
{
    command.version(version)
}

/// `clap::Command::about`: sets the description, nothing else.
#[verifier::external_body]
fn command_about(command: ClapCommand, about: &'static str) -> (result: ClapCommand)
    ensures
        clap_command_view(result) == (CommandView { about: Some(about@), ..clap_command_view(command) }),
{
    command.about(about)
}

/// `clap::Command::subcommand_required`: sets that setting, nothing else.
#[verifier::external_body]
fn command_subcommand_required(command: ClapCommand, required: bool) -> (result: ClapCommand)
    ensures
        clap_command_view(result) == (CommandView { subcommand_required: required, ..clap_command_view(command) }),
{
    command.subcommand_required(required)
}

/// `clap::Command::arg_required_else_help`: sets that setting, nothing else.
#[verifier::external_body]
fn command_arg_required_else_help(command: ClapCommand, required: bool) -> (result: ClapCommand)
    ensures
        clap_command_view(result) == (CommandView { arg_required_else_help: required, ..clap_command_view(command) }),
{
    command.arg_required_else_help(required)
}

/// `clap::Command::subcommand`: appends the subcommand (clap gives it only a
/// display order, which the view does not record).
#[verifier::external_body]
fn command_subcommand(command: ClapCommand, subcommand: ClapCommand) -> (result: ClapCommand)
    ensures
        clap_command_view(result) == (CommandView {
            subcommands: clap_command_view(command).subcommands.push(clap_command_view(subcommand)),
            only_recorded: clap_command_view(command).only_recorded && clap_command_view(subcommand).only_recorded,
            ..clap_command_view(command)
        }),
{
    command.subcommand(subcommand)
}

/// `clap::Command::arg`: appends the argument (clap gives it only a display
/// order and a help heading, which the view does not record).
#[verifier::external_body]
fn command_arg(command: ClapCommand, arg: Arg) -> (result: ClapCommand)
    ensures
        clap_command_view(result) == (CommandView {
            args: clap_command_view(command).args.push(clap_arg_view(arg)),
            only_recorded: clap_command_view(command).only_recorded && clap_arg_view(arg).only_recorded,
            ..clap_command_view(command)
        }),
{
    command.arg(arg)
}

/// `clap::Arg::new`: an argument with the given id and every other setting at
/// its default.
#[verifier::external_body]
fn arg_new(id: &'static str) -> (arg: Arg)
    ensures
        clap_arg_view(arg) == (ArgView {
            id: id@,
            help: None,
            long: None,
            short: None,
            value_names: Seq::empty(),
            required: false,
            set_true: false,
            path_values: false,
            only_recorded: true,
        }),
{
    Arg::new(id)
}

/// `clap::Arg::help`: sets the help text, nothing else.
#[verifier::external_body]
fn arg_help(arg: Arg, help: &'static str) -> (result: Arg)
    ensures
        clap_arg_view(result) == (ArgView { help: Some(help@), ..clap_arg_view(arg) }),
{
    arg.help(help)
}

/// `clap::Arg::long`: sets the long name, nothing else.
#[verifier::external_body]
fn arg_long(arg: Arg, long: &'static str) -> (result: Arg)
    ensures
        clap_arg_view(result) == (ArgView { long: Some(long@), ..clap_arg_view(arg) }),
{
    arg.long(long)
}

/// `clap::Arg::short`: sets the short name, nothing else. clap asserts in
/// debug builds that it is not `-`.
#[verifier::external_body]
fn arg_short(arg: Arg, short: char) -> (result: Arg)
    requires
        short != '-',
    ensures
        clap_arg_view(result) == (ArgView { short: Some(short), ..clap_arg_view(arg) }),
{
    arg.short(short)
}

/// `clap::Arg::value_name`: the value names become this one name.
#[verifier::external_body]
fn arg_value_name(arg: Arg, name: &'static str) -> (result: Arg)
    ensures
        clap_arg_view(result) == (ArgView { value_names: seq![name@], ..clap_arg_view(arg) }),
{
    arg.value_name(name)
}

/// `clap::Arg::required`: sets that setting, nothing else.
#[verifier::external_body]
fn arg_required(arg: Arg, required: bool) -> (result: Arg)
    ensures
        clap_arg_view(result) == (ArgView { required: required, ..clap_arg_view(arg) }),
{
    arg.required(required)
}

/// `clap::Arg::action` with `ArgAction::SetTrue`: a boolean flag.
#[verifier::external_body]
fn arg_set_true(arg: Arg) -> (result: Arg)
    ensures
        clap_arg_view(result) == (ArgView { set_true: true, ..clap_arg_view(arg) }),
{
    arg.action(ArgAction::SetTrue)
}

/// `clap::Arg::value_parser` with `ValueParser::path_buf()` (what
/// `value_parser!(PathBuf)` gives): values are parsed as paths.
#[verifier::external_body]
fn arg_path_values(arg: Arg) -> (result: Arg)
    ensures
        clap_arg_view(result) == (ArgView { path_values: true, ..clap_arg_view(arg) }),
{
    arg.value_parser(ValueParser::path_buf())
}

/// What a `clap::ArgMatches` answers: for each argument id, the `String`
/// value that `try_get_one::<String>` yields (`None` when it yields none or
/// an error), the lossy text of the `PathBuf` that `try_get_one::<PathBuf>`
/// yields (`None` likewise), the `bool` that `try_get_one::<bool>` yields
/// (`false` when it yields none or an error), and the matched subcommand's
/// name and matches.
pub struct MatchesView {
    pub strings: spec_fn(Seq<char>) -> Option<Seq<char>>,
    pub paths: spec_fn(Seq<char>) -> Option<Seq<char>>,
    pub flags: spec_fn(Seq<char>) -> bool,
    pub subcommand: Option<(Seq<char>, Box<MatchesView>)>,
}

/// What a `clap::ArgMatches` holds, as [`MatchesView`] records it.
pub uninterp spec fn arg_matches_view(matches: ArgMatches) -> MatchesView;

/// `clap::ArgMatches::subcommand`, owned: the matched subcommand's name and
/// (cloned) matches.
#[verifier::external_body]
fn matches_subcommand(matches: &ArgMatches) -> (found: Option<(String, ArgMatches)>)
    ensures
        match found {
            Some((name, sub)) => arg_matches_view(*matches).subcommand == Some(
                (name@, Box::new(arg_matches_view(sub))),
            ),
            None => arg_matches_view(*matches).subcommand is None,
        },
{
    match matches.subcommand() {
        Some((name, sub)) => Some((name.to_string(), sub.clone())),
        None => None,
    }
}

/// `clap::ArgMatches::try_get_one::<String>`: the string value matched for an
/// argument, `None` when absent or not a string argument.
#[verifier::external_body]
fn matches_string(matches: &ArgMatches, id: &'static str) -> (value: Option<String>)
    ensures
        match value {
            Some(v) => (arg_matches_view(*matches).strings)(id@) == Some(v@),
            None => (arg_matches_view(*matches).strings)(id@) is None,
        },
{
    match matches.try_get_one::<String>(id) {
        Ok(Some(value)) => Some(value.clone()),
        _ => None,
    }
}

/// `clap::ArgMatches::try_get_one::<bool>`: whether a flag was set, `false`
/// when absent or not a flag.
#[verifier::external_body]
fn matches_flag(matches: &ArgMatches, id: &'static str) -> (set: bool)
    ensures
        set == (arg_matches_view(*matches).flags)(id@),
{
    match matches.try_get_one::<bool>(id) {
        Ok(Some(value)) => *value,
        _ => false,
    }
}

/// What `Path::to_string_lossy` gives for a path.
pub uninterp spec fn path_text(path: PathBuf) -> Seq<char>;

/// `clap::ArgMatches::try_get_one::<PathBuf>`: the path matched for an
/// argument, `None` when absent or not a path argument.
#[verifier::external_body]
fn matches_path(matches: &ArgMatches, id: &'static str) -> (value: Option<PathBuf>)
    ensures
        match value {
            Some(p) => (arg_matches_view(*matches).paths)(id@) == Some(path_text(p)),
            None => (arg_matches_view(*matches).paths)(id@) is None,
        },
{
    match matches.try_get_one::<PathBuf>(id) {
        Ok(Some(value)) => Some(value.clone()),
        _ => None,
    }
}

/// Every required argument of `command` that takes a value was given one
/// (`try_get_one::<PathBuf>` yields it for a path argument,
/// `try_get_one::<String>` for any other that is not a flag); and every path
/// value matched for a path argument is non-empty.
pub open spec fn required_present(command: CommandView, matches: MatchesView) -> bool {
    &&& forall|j: int|
        0 <= j < command.args.len() && (#[trigger] command.args[j]).required && !command.args[j].set_true
            ==> if command.args[j].path_values {
            (matches.paths)(command.args[j].id) is Some
        } else {
            (matches.strings)(command.args[j].id) is Some
        }
    &&& forall|j: int|
        0 <= j < command.args.len() && (#[trigger] command.args[j]).path_values && (matches.paths)(
            command.args[j].id,
        ) is Some ==> (matches.paths)(command.args[j].id)->0.len() > 0
}

/// What clap guarantees of a command line it accepted for `command`: its
/// required arguments are present; a subcommand was matched if one is
/// required; and a matched subcommand is one of `command`'s own, with its
/// required arguments present.
pub open spec fn parsed_within(command: CommandView, matches: MatchesView) -> bool {
    &&& required_present(command, matches)
    &&& command.subcommand_required ==> matches.subcommand is Some
    &&& match matches.subcommand {
        Some((name, sub)) => exists|i: int|
            0 <= i < command.subcommands.len() && (#[trigger] command.subcommands[i]).name == name
                && required_present(command.subcommands[i], *sub),
        None => true,
    }
}

/// The command-line arguments as character sequences.
pub open spec fn argv_view(argv: Seq<&str>) -> Seq<Seq<char>> {
    argv.map_values(|arg: &str| arg@)
}

/// What clap's parse of `argv` (program name first) gives for a command that
/// holds exactly the settings `command` records: the matches of an accepted
/// command line, `None` for one clap refuses (a usage error, or the help or
/// version text). In this build clap reads neither the environment nor the
/// terminal (its `env` and `wrap_help` features are off), so the outcome
/// depends on these two alone.
pub uninterp spec fn clap_parse(command: CommandView, argv: Seq<Seq<char>>) -> Option<MatchesView>;

/// `clap::Command::try_get_matches_from`, with a refusal rendered as clap
/// renders it, for the whole command line's definition (clap's debug-build
/// checks of a definition hold of it). The outcome is clap's parse, named by
/// [`clap_parse`]; of an accepted command line this also states what clap
/// documents for the settings used here: required arguments and a required
/// subcommand are present, and a matched subcommand is a defined one. Nothing
/// is claimed of a refusal's text.
#[verifier::external_body]
fn try_get_matches_from(command: ClapCommand, argv: &[&str]) -> (result: Result<ArgMatches, ClapFailure>)
    requires
        clap_command_view(command) == cli_definition(),
    ensures
        match result {
            Ok(matches) => clap_parse(clap_command_view(command), argv_view(argv@)) == Some(
                arg_matches_view(matches),
            ) && parsed_within(clap_command_view(command), arg_matches_view(matches)),
            Err(_) => clap_parse(clap_command_view(command), argv_view(argv@)) is None,
        },
{
    match command.try_get_matches_from(argv.iter().copied()) {
        Ok(matches) => Ok(matches),
        Err(e) => Err(ClapFailure { message: e.render().to_string(), use_stderr: e.use_stderr(), exit_code: e.exit_code() }),
    }
}

/// Arguments for `promptforge run`.
#[derive(Debug)]
pub struct RunArgs {
    /// Path to the promptforge prompt file.
    pub file: PathBuf,
    /// Raw input string exposed to the prompt as `args` (defaults to empty).
    pub input: Option<String>,
    /// Directory for persistent file-backed store. When absent, an ephemeral
    /// in-memory store is used.
    pub store_dir: Option<PathBuf>,
    /// Print run lifecycle observations (section boundaries, model turns,
    /// tool calls) to stderr as they happen.
    pub verbose: bool,
}

/// The `run` arguments as values: the file's and store directory's text,
/// the input, and the verbose flag.
pub struct RunArgsView {
    pub file: Seq<char>,
    pub input: Option<Seq<char>>,
    pub store_dir: Option<Seq<char>>,
    pub verbose: bool,
}

/// An optional string as an optional character sequence.
pub open spec fn string_option_view(value: Option<String>) -> Option<Seq<char>> {
    match value {
        Some(v) => Some(v@),
        None => None,
    }
}

impl View for RunArgs {
    type V = RunArgsView;

    open spec fn view(&self) -> RunArgsView {
        RunArgsView {
            file: path_text(self.file),
            input: string_option_view(self.input),
            store_dir: match self.store_dir {
                Some(dir) => Some(path_text(dir)),
                None => None,
            },
            verbose: self.verbose,
        }
    }
}

/// The subcommands the command line accepts.
#[derive(Debug)]
pub enum Command {
    /// Parse a prompt file and execute its sections top to bottom (fall-through).
    Run(RunArgs),
}

/// The `promptforge` command-line interface.
#[derive(Debug)]
pub struct Cli {
    /// The subcommand to execute.
    pub command: Command,
}

/// clap's answer to a command line it did not parse: a usage error, or the
/// `--help`/`--version` text.
#[derive(Debug)]
pub struct ClapFailure {
    /// The rendered message.
    pub message: String,
    /// Whether the message goes to standard error (errors) rather than
    /// standard output (help and version).
    pub use_stderr: bool,
    /// The process exit code clap uses for it.
    pub exit_code: i32,
}

/// Why a command line was not parsed.
#[derive(Debug)]
pub enum CliError {
    /// clap refused the arguments (or answered `--help`/`--version`).
    Clap(ClapFailure),
    /// clap accepted a command line without the `run` subcommand or its file.
    MissingRun,
}

/// An argument with only an id set.
pub open spec fn bare_arg(id: Seq<char>) -> ArgView {
    ArgView {
        id: id,
        help: None,
        long: None,
        short: None,
        value_names: Seq::empty(),
        required: false,
        set_true: false,
        path_values: false,
        only_recorded: true,
    }
}

/// The required positional `FILE`.
pub open spec fn file_arg() -> ArgView {
    ArgView {
        help: Some(FILE_HELP@),
        value_names: seq![("FILE")@],
        required: true,
        path_values: true,
        ..bare_arg(FILE_ID@)
    }
}

/// The optional positional `INPUT`.
pub open spec fn input_arg() -> ArgView {
    ArgView { help: Some(INPUT_HELP@), value_names: seq![("INPUT")@], ..bare_arg(INPUT_ID@) }
}

/// The option `--store DIR`.
pub open spec fn store_arg() -> ArgView {
    ArgView {
        help: Some(STORE_HELP@),
        long: Some(("store")@),
        value_names: seq![("DIR")@],
        path_values: true,
        ..bare_arg(STORE_ID@)
    }
}

/// The flag `-v`/`--verbose`.
pub open spec fn verbose_arg() -> ArgView {
    ArgView { help: Some(VERBOSE_HELP@), long: Some(("verbose")@), short: Some('v'), set_true: true, ..bare_arg(VERBOSE_ID@) }
}

/// The `run` subcommand: `FILE [INPUT] [--store DIR] [-v|--verbose]`, in that
/// order, with its description.
pub open spec fn run_definition() -> CommandView {
    CommandView {
        name: RUN_COMMAND@,
        version: None,
        about: Some(RUN_ABOUT@),
        subcommand_required: false,
        arg_required_else_help: false,
        args: seq![file_arg(), input_arg(), store_arg(), verbose_arg()],
        subcommands: Seq::empty(),
        only_recorded: true,
    }
}

/// The whole command line: `promptforge` with its version and description,
/// a required subcommand, help on an empty command line, and `run` as its
/// one subcommand.
pub open spec fn cli_definition() -> CommandView {
    CommandView {
        name: PROGRAM_NAME@,
        version: Some(PROGRAM_VERSION@),
        about: Some(PROGRAM_ABOUT@),
        subcommand_required: true,
        arg_required_else_help: true,
        args: Seq::empty(),
        subcommands: seq![run_definition()],
        only_recorded: true,
    }
}

/// The `run` subcommand's definition: `FILE [INPUT] [--store DIR] [-v|--verbose]`.
pub fn run_command() -> (command: ClapCommand)
    ensures
        clap_command_view(command) == run_definition(),
{
    let file = arg_path_values(arg_required(arg_value_name(arg_help(arg_new(FILE_ID), FILE_HELP), "FILE"), true));
    let input = arg_value_name(arg_help(arg_new(INPUT_ID), INPUT_HELP), "INPUT");
    let store = arg_path_values(arg_value_name(arg_long(arg_help(arg_new(STORE_ID), STORE_HELP), "store"), "DIR"));
    let verbose = arg_set_true(arg_long(arg_short(arg_help(arg_new(VERBOSE_ID), VERBOSE_HELP), 'v'), "verbose"));
    let run = command_about(command_new(RUN_COMMAND), RUN_ABOUT);
    let command = command_arg(command_arg(command_arg(command_arg(run, file), input), store), verbose);
    assert(clap_command_view(command).args =~= run_definition().args);
    command
}

/// The whole command line's definition.
pub fn cli_command() -> (command: ClapCommand)
    ensures
        clap_command_view(command) == cli_definition(),
{
    let root = command_about(command_version(command_new(PROGRAM_NAME), PROGRAM_VERSION), PROGRAM_ABOUT);
    let root = command_arg_required_else_help(command_subcommand_required(root, true), true);
    let command = command_subcommand(root, run_command());
    assert(clap_command_view(command).subcommands =~= cli_definition().subcommands);
    command
}

/// The `run` arguments from the values clap matched.
pub fn run_args_from(file: PathBuf, input: Option<String>, store_dir: Option<PathBuf>, verbose: bool) -> (args: RunArgs)
    ensures
        args.file == file,
        args.input == input,
        args.store_dir == store_dir,
        args.verbose == verbose,
{
    RunArgs { file, input, store_dir, verbose }
}

/// The `run` arguments that matches describe: present exactly when the
/// `run` subcommand was matched with a file; then its input, store directory
/// and verbose flag as matched.
pub open spec fn run_args_of(matches: MatchesView) -> Option<RunArgsView> {
    match matches.subcommand {
        Some((name, sub)) => if name == RUN_COMMAND@ {
            match (sub.paths)(FILE_ID@) {
                Some(file) => Some(
                    RunArgsView {
                        file: file,
                        input: (sub.strings)(INPUT_ID@),
                        store_dir: (sub.paths)(STORE_ID@),
                        verbose: (sub.flags)(VERBOSE_ID@),
                    },
                ),
                None => None,
            }
        } else {
            None
        },
        None => None,
    }
}

/// The `run` arguments a parsed command line holds.
pub open spec fn cli_run_view(cli: Cli) -> RunArgsView {
    match cli.command {
        Command::Run(args) => args@,
    }
}

/// Whatever clap matched for the whole command line's definition names the
/// `run` subcommand and its file; the file and any store directory are
/// non-empty paths.
pub proof fn lemma_accepted_command_line_runs(matches: MatchesView)
    requires
        parsed_within(cli_definition(), matches),
    ensures
        run_args_of(matches) is Some,
        run_args_of(matches)->0.file.len() > 0,
        run_args_of(matches)->0.store_dir matches Some(dir) ==> dir.len() > 0,
{
    let (name, sub) = matches.subcommand.unwrap();
    let i = choose|i: int|
        0 <= i < cli_definition().subcommands.len() && (#[trigger] cli_definition().subcommands[i]).name == name
            && required_present(cli_definition().subcommands[i], *sub);
    assert(i == 0);
    assert(run_definition().args[0] == file_arg());
    assert(file_arg().required && !file_arg().set_true && file_arg().path_values);
    assert(run_definition().args[2] == store_arg());
    assert(store_arg().path_values);
}

impl Cli {
    /// The command line that clap's matches describe: the `run` arguments,
    /// or `MissingRun` when the matches hold no `run` subcommand with a file.
    pub fn from_matches(matches: &ArgMatches) -> (cli: Result<Cli, CliError>)
        ensures
            match cli {
                Ok(cli) => run_args_of(arg_matches_view(*matches)) == Some(cli_run_view(cli)),
                Err(error) => error is MissingRun && run_args_of(arg_matches_view(*matches)) is None,
            },
    {
        let (name, run) = match matches_subcommand(matches) {
            Some(found) => found,
            None => return Err(CliError::MissingRun),
        };
        let expected = RUN_COMMAND.to_owned();
        if !(name == expected) {
            return Err(CliError::MissingRun);
        }
        let file = match matches_path(&run, FILE_ID) {
            Some(file) => file,
            None => return Err(CliError::MissingRun),
        };
        let args = run_args_from(
            file,
            matches_string(&run, INPUT_ID),
            matches_path(&run, STORE_ID),
            matches_flag(&run, VERBOSE_ID),
        );
        Ok(Cli { command: Command::Run(args) })
    }

    /// Parses a command line (program name first) with the definition of
    /// [`cli_command`]: it is accepted exactly when clap's parse accepts it,
    /// and then holds the `run` arguments clap matched, whose file and store
    /// directory are non-empty paths; a refusal is clap's answer, never
    /// `MissingRun`.
    pub fn try_parse_from(argv: &[&str]) -> (cli: Result<Cli, CliError>)
        ensures
            cli is Ok <==> clap_parse(cli_definition(), argv_view(argv@)) is Some,
            match cli {
                Ok(cli) => run_args_of(clap_parse(cli_definition(), argv_view(argv@)).unwrap()) == Some(
                    cli_run_view(cli),
                ) && cli_run_view(cli).file.len() > 0 && (cli_run_view(cli).store_dir matches Some(dir)
                    ==> dir.len() > 0),
                Err(error) => error is Clap,
            },
    {
        let matches = match try_get_matches_from(cli_command(), argv) {
            Ok(matches) => matches,
            Err(error) => return Err(CliError::Clap(error)),
        };
        proof {
            lemma_accepted_command_line_runs(arg_matches_view(matches));
        }
        Self::from_matches(&matches)
    }
}

} // verus!
