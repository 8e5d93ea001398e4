use vstd::prelude::*;
use vstd::string::StringExecFns;

use crate::errors::CliError;
use crate::errors::CliErrorV;
use crate::lexer::chars_of;
use crate::lexer::string_from_chars;

verus! {

/// What the user asked the driver to do.
#[derive(Debug, Clone, Copy, PartialEq, Eq, Structural)]
pub enum Command {
    Compile,
    Run(RunType),
    Inspect,
    Help,
}

/// Whether `run` starts from source text or from a bytecode file.
#[derive(Debug, Clone, Copy, PartialEq, Eq, Structural)]
pub enum RunType {
    Source,
    Bytecode,
}

/// A parsed command line: the command and the input and output paths it
/// named or implied.
#[derive(Debug)]
pub struct Cli {
    pub command: Command,
    pub in_file: Option<String>,
    pub out_file: Option<String>,
}

/// Mathematical image of a parsed command line.
pub ghost struct CliV {
    pub command: Command,
    pub in_file: Option<Seq<char>>,
    pub out_file: Option<Seq<char>>,
}

impl View for Cli {
    type V = CliV;

    open spec fn view(&self) -> CliV {
        CliV {
            command: self.command,
            in_file: match &self.in_file {
                Some(f) => Some(f@),
                None => None,
            },
            out_file: match &self.out_file {
                Some(f) => Some(f@),
                None => None,
            },
        }
    }
}

/// Index of the first `.` of `s`, or `s.len()` where there is none.
pub open spec fn first_dot(s: Seq<char>) -> int
    decreases s.len(),
{
    if s.len() == 0 {
        0
    } else if s[0] == '.' {
        0
    } else {
        1 + first_dot(s.drop_first())
    }
}

pub proof fn lemma_first_dot_props(s: Seq<char>)
    ensures
        0 <= first_dot(s) <= s.len(),
        forall|j: int| 0 <= j < first_dot(s) ==> s[j] != '.',
        first_dot(s) < s.len() ==> s[first_dot(s)] == '.',
    decreases s.len(),
{
    if s.len() == 0 {
    } else if s[0] == '.' {
    } else {
        lemma_first_dot_props(s.drop_first());
        assert forall|j: int| 0 <= j < first_dot(s) implies s[j] != '.' by {
            if j > 0 {
                assert(s.drop_first()[j - 1] != '.');
            }
        }
    }
}

/// A path with everything from its first dot on removed: how the driver
/// derives a default output path from the input path.
pub open spec fn strip_ext(s: Seq<char>) -> Seq<char> {
    s.take(first_dot(s))
}

/// The view of an argument vector.
pub open spec fn args_view(args: Seq<String>) -> Seq<Seq<char>> {
    args.map_values(|s: String| s@)
}

/// How a whole command line parses. The zeroth argument is the program's
/// own name; a missing input file is reported before an unknown command
/// is.
pub open spec fn spec_cli_new(args: Seq<Seq<char>>) -> Result<CliV, CliErrorV> {
    if args.len() < 2 {
        Err(CliErrorV::NoCommand)
    } else {
        let command = args[1];
        if args.len() > 2 && args[2] == "-b"@ {
            if command != "run"@ {
                Err(CliErrorV::IncorrectParam(command, "-b"@))
            } else if args.len() <= 3 {
                Err(CliErrorV::NoInputFile)
            } else {
                Ok(
                    CliV {
                        command: Command::Run(RunType::Bytecode),
                        in_file: Some(args[3]),
                        out_file: None,
                    },
                )
            }
        } else if args.len() <= 2 && command != "help"@ {
            Err(CliErrorV::NoInputFile)
        } else if command == "run"@ {
            Ok(
                CliV {
                    command: Command::Run(RunType::Source),
                    in_file: Some(args[2]),
                    out_file: Some(
                        if args.len() > 3 {
                            args[3]
                        } else {
                            strip_ext(args[2])
                        },
                    ),
                },
            )
        } else if command == "compile"@ {
            Ok(
                CliV {
                    command: Command::Compile,
                    in_file: Some(args[2]),
                    out_file: Some(
                        if args.len() > 3 {
                            args[3]
                        } else {
                            strip_ext(args[2])
                        },
                    ),
                },
            )
        } else if command == "inspect"@ {
            Ok(CliV { command: Command::Inspect, in_file: Some(args[2]), out_file: None })
        } else if command == "help"@ {
            Ok(
                CliV {
                    command: Command::Help,
                    in_file: if args.len() > 2 {
                        Some(args[2])
                    } else {
                        None
                    },
                    out_file: None,
                },
            )
        } else {
            Err(CliErrorV::UnknownCommand(command))
        }
    }
}

/// Removes everything from the first dot on.
fn strip_extension(s: &String) -> (r: String)
    ensures
        r@ == strip_ext(s@),
{
    let cs = chars_of(s.as_str());
    let n = cs.len();
    let mut k: usize = 0;
    while k < n && cs[k] != '.'
        invariant
            k <= n,
            n == cs@.len(),
            cs@ == s@,
            forall|j: int| 0 <= j < k ==> cs@[j] != '.',
        decreases n - k,
    {
        k = k + 1;
    }
    proof {
        lemma_first_dot_props(s@);
        let f = first_dot(s@);
        assert(k as int == f) by {
            if (k as int) < f {
                assert(s@[k as int] != '.');
            }
            if f < k as int {
                assert(s@[f] != '.');
            }
        }
    }
    let mut buf: Vec<char> = Vec::new();
    let mut j: usize = 0;
    while j < k
        invariant
            j <= k,
            k <= n,
            n == cs@.len(),
            cs@ == s@,
            buf@ == s@.subrange(0, j as int),
        decreases k - j,
    {
        buf.push(cs[j]);
        proof {
            assert(buf@ =~= s@.subrange(0, j as int + 1));
        }
        j = j + 1;
    }
    proof {
        assert(buf@ =~= strip_ext(s@));
    }
    string_from_chars(&buf)
}

impl Cli {
    /// Parses the command line; `args` holds the program name first, as
    /// the host delivers it.
    pub fn new(args: &Vec<String>) -> (r: Result<Self, CliError>)
        ensures
            match spec_cli_new(args_view(args@)) {
                Ok(cv) => r matches Ok(c) && c@ == cv,
                Err(ev) => r matches Err(e) && e@ == ev,
            },
    {
        proof {
            reveal_strlit("run");
            reveal_strlit("compile");
            reveal_strlit("inspect");
            reveal_strlit("help");
            reveal_strlit("-b");
            // the command words differ in length, so the branches below
            // are mutually exclusive
            assert("run"@.len() == 3);
            assert("help"@.len() == 4);
            assert("compile"@.len() == 7);
        }
        if args.len() < 2 {
            return Err(CliError::NoCommand);
        }
        let command = &args[1];
        if args.len() > 2 && args[2] == String::from_str("-b") {
            if !(*command == String::from_str("run")) {
                return Err(CliError::IncorrectParam(command.clone(), args[2].clone()));
            }
            if args.len() <= 3 {
                return Err(CliError::NoInputFile);
            }
            return Ok(
                Cli {
                    command: Command::Run(RunType::Bytecode),
                    in_file: Some(args[3].clone()),
                    out_file: None,
                },
            );
        }
        if args.len() <= 2 && !(*command == String::from_str("help")) {
            return Err(CliError::NoInputFile);
        }
        if *command == String::from_str("run") {
            let out = if args.len() > 3 {
                args[3].clone()
            } else {
                strip_extension(&args[2])
            };
            Ok(
                Cli {
                    command: Command::Run(RunType::Source),
                    in_file: Some(args[2].clone()),
                    out_file: Some(out),
                },
            )
        } else if *command == String::from_str("compile") {
            let out = if args.len() > 3 {
                args[3].clone()
            } else {
                strip_extension(&args[2])
            };
            Ok(
                Cli {
                    command: Command::Compile,
                    in_file: Some(args[2].clone()),
                    out_file: Some(out),
                },
            )
        } else if *command == String::from_str("inspect") {
            Ok(Cli { command: Command::Inspect, in_file: Some(args[2].clone()), out_file: None })
        } else if *command == String::from_str("help") {
            let in_f = if args.len() > 2 {
                Some(args[2].clone())
            } else {
                None
            };
            Ok(Cli { command: Command::Help, in_file: in_f, out_file: None })
        } else {
            Err(CliError::UnknownCommand(command.clone()))
        }
    }
}

} // verus!
