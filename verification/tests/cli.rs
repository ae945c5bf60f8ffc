use std::path::{Path, PathBuf};

use promptforge::cli::{Cli, CliError, Command};

fn parse_from(argv: &[&str]) -> Cli {
    Cli::try_parse_from(argv).expect("the command line must parse")
}

#[test]
fn parser_accepts_run_with_optional_input() {
    let cli = parse_from(&["promptforge", "run", "prompt.md"]);
    let Command::Run(args) = cli.command;
    assert_eq!(args.file, Path::new("prompt.md"));
    assert_eq!(args.input, None);
    assert_eq!(args.store_dir, None);

    let cli = parse_from(&["promptforge", "run", "prompt.md", "hello world"]);
    let Command::Run(args) = cli.command;
    assert_eq!(args.input.as_deref(), Some("hello world"));
}

#[test]
fn parser_accepts_store_flag() {
    let cli = parse_from(&[
        "promptforge",
        "run",
        "--store",
        "/tmp/my-store",
        "prompt.md",
    ]);
    let Command::Run(args) = cli.command;
    assert_eq!(args.store_dir, Some(PathBuf::from("/tmp/my-store")));

    let cli = parse_from(&["promptforge", "run", "prompt.md"]);
    let Command::Run(args) = cli.command;
    assert_eq!(args.store_dir, None);
}

#[test]
fn parser_accepts_verbose_flag() {
    let cli = parse_from(&["promptforge", "run", "prompt.md"]);
    let Command::Run(args) = cli.command;
    assert!(!args.verbose, "verbose defaults to off");

    let cli = parse_from(&["promptforge", "run", "--verbose", "prompt.md"]);
    let Command::Run(args) = cli.command;
    assert!(args.verbose);

    let cli = parse_from(&["promptforge", "run", "-v", "prompt.md"]);
    let Command::Run(args) = cli.command;
    assert!(args.verbose);
}

#[test]
fn parser_rejects_missing_file_unknown_command_and_extra_arguments() {
    assert!(Cli::try_parse_from(&["promptforge", "run"]).is_err());
    assert!(Cli::try_parse_from(&["promptforge", "walk", "prompt.md"]).is_err());
    assert!(Cli::try_parse_from(&["promptforge"]).is_err());
    assert!(
        Cli::try_parse_from(&["promptforge", "run", "prompt.md", "input", "extra"]).is_err(),
        "clap must reject a trailing argument instead of silently dropping it",
    );
}

#[test]
fn parser_answers_help_and_version_on_standard_output() {
    match Cli::try_parse_from(&["promptforge", "--version"]) {
        Err(CliError::Clap(failure)) => {
            assert!(!failure.use_stderr);
            assert_eq!(failure.exit_code, 0);
            assert!(failure.message.contains("promptforge"));
        }
        other => panic!("expected the version text, got {other:?}"),
    }
    match Cli::try_parse_from(&["promptforge", "run", "--bogus", "prompt.md"]) {
        Err(CliError::Clap(failure)) => {
            assert!(failure.use_stderr);
            assert_eq!(failure.exit_code, 2);
        }
        other => panic!("expected a usage error, got {other:?}"),
    }
}

#[test]
fn command_definitions_hold_the_documented_arguments() {
    let root = promptforge::cli::cli_command();
    assert_eq!(root.get_name(), "promptforge");
    assert_eq!(root.get_version(), Some("0.1.0"));
    assert!(root.is_subcommand_required_set());
    assert!(root.is_arg_required_else_help_set());
    let names: Vec<&str> = root.get_subcommands().map(|c| c.get_name()).collect();
    assert_eq!(names, vec!["run"]);

    let run = promptforge::cli::run_command();
    let ids: Vec<&str> = run.get_arguments().map(|a| a.get_id().as_str()).collect();
    assert_eq!(ids, vec!["file", "input", "store_dir", "verbose"]);
    let file = run.get_arguments().next().unwrap();
    assert!(file.is_required_set());
    let verbose = run.get_arguments().find(|a| a.get_id() == "verbose").unwrap();
    assert_eq!(verbose.get_short(), Some('v'));
    assert_eq!(verbose.get_long(), Some("verbose"));
    let store = run.get_arguments().find(|a| a.get_id() == "store_dir").unwrap();
    assert_eq!(store.get_long(), Some("store"));
}

#[test]
fn from_matches_reads_the_run_arguments() {
    let matches = promptforge::cli::cli_command()
        .try_get_matches_from(["promptforge", "run", "--store", "dir", "-v", "prompt.md", "hello"])
        .expect("accepted");
    match Cli::from_matches(&matches) {
        Ok(cli) => {
            let Command::Run(args) = cli.command;
            assert_eq!(args.file.to_string_lossy(), "prompt.md");
            assert_eq!(args.input.as_deref(), Some("hello"));
            assert_eq!(args.store_dir, Some(PathBuf::from("dir")));
            assert!(args.verbose);
        }
        Err(other) => panic!("expected run arguments, got {other:?}"),
    }
}

#[test]
fn from_matches_without_run_is_missing_run() {
    let matches = clap::Command::new("other")
        .try_get_matches_from(["other"])
        .expect("accepted");
    assert!(matches!(Cli::from_matches(&matches), Err(CliError::MissingRun)));
}

#[test]
fn refusals_are_clap_answers_never_missing_run() {
    for argv in [
        &["promptforge"][..],
        &["promptforge", "run"][..],
        &["promptforge", "walk", "prompt.md"][..],
        &["promptforge", "help"][..],
    ] {
        assert!(matches!(Cli::try_parse_from(argv), Err(CliError::Clap(_))), "{argv:?}");
    }
}

#[test]
fn empty_paths_are_refused_like_pathbuf_arguments() {
    assert!(matches!(Cli::try_parse_from(&["promptforge", "run", ""]), Err(CliError::Clap(_))));
    assert!(matches!(
        Cli::try_parse_from(&["promptforge", "run", "--store", "", "prompt.md"]),
        Err(CliError::Clap(_))
    ));
    let cli = Cli::try_parse_from(&["promptforge", "run", "prompt.md", ""]).expect("an empty INPUT is a string");
    let Command::Run(args) = cli.command;
    assert_eq!(args.input.as_deref(), Some(""));
}
