use hammer::cli::Cli;
use hammer::cli::Command;
use hammer::cli::RunType;
use hammer::errors::CliError;

fn args(list: &[&str]) -> Vec<String> {
    list.iter().map(|s| String::from(*s)).collect()
}

#[test]
fn run_command_defaults_the_output_path() {
    let cli = Cli::new(&args(&["hammer", "run", "prog.hmr"])).unwrap();
    assert_eq!(cli.command, Command::Run(RunType::Source));
    assert_eq!(cli.in_file.as_deref(), Some("prog.hmr"));
    assert_eq!(cli.out_file.as_deref(), Some("prog"));
}

#[test]
fn compile_command_takes_an_explicit_output_path() {
    let cli = Cli::new(&args(&["hammer", "compile", "prog.hmr", "out.bin"])).unwrap();
    assert_eq!(cli.command, Command::Compile);
    assert_eq!(cli.in_file.as_deref(), Some("prog.hmr"));
    assert_eq!(cli.out_file.as_deref(), Some("out.bin"));
}

#[test]
fn run_bytecode_flag() {
    let cli = Cli::new(&args(&["hammer", "run", "-b", "prog.hmrc"])).unwrap();
    assert_eq!(cli.command, Command::Run(RunType::Bytecode));
    assert_eq!(cli.in_file.as_deref(), Some("prog.hmrc"));
    assert_eq!(cli.out_file, None);
}

#[test]
fn bytecode_flag_outside_run_is_refused() {
    let err = Cli::new(&args(&["hammer", "compile", "-b", "prog.hmrc"])).unwrap_err();
    assert_eq!(
        err,
        CliError::IncorrectParam(String::from("compile"), String::from("-b"))
    );
}

#[test]
fn missing_command_is_reported() {
    let err = Cli::new(&args(&["hammer"])).unwrap_err();
    assert_eq!(err, CliError::NoCommand);
}

#[test]
fn missing_input_file_is_reported_before_the_unknown_command() {
    let err = Cli::new(&args(&["hammer", "frobnicate"])).unwrap_err();
    assert_eq!(err, CliError::NoInputFile);
}

#[test]
fn unknown_command_is_reported() {
    let err = Cli::new(&args(&["hammer", "frobnicate", "x"])).unwrap_err();
    assert_eq!(err, CliError::UnknownCommand(String::from("frobnicate")));
}

#[test]
fn help_needs_no_input_file() {
    let cli = Cli::new(&args(&["hammer", "help"])).unwrap();
    assert_eq!(cli.command, Command::Help);
    assert_eq!(cli.in_file, None);
    assert_eq!(cli.out_file, None);
}

#[test]
fn inspect_takes_only_an_input_file() {
    let cli = Cli::new(&args(&["hammer", "inspect", "prog.hmrc"])).unwrap();
    assert_eq!(cli.command, Command::Inspect);
    assert_eq!(cli.in_file.as_deref(), Some("prog.hmrc"));
    assert_eq!(cli.out_file, None);
}

#[test]
fn default_output_cuts_at_the_first_dot() {
    let cli = Cli::new(&args(&["hammer", "run", "a.b.c"])).unwrap();
    assert_eq!(cli.out_file.as_deref(), Some("a"));
    let cli = Cli::new(&args(&["hammer", "run", "nodot"])).unwrap();
    assert_eq!(cli.out_file.as_deref(), Some("nodot"));
}
