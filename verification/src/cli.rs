//! The command-line grammar of the companion tool: a program name, a
//! subcommand, its positional path where one is due, and for `add` the
//! `-m`/`--message` and `-i`/`--interval` options, each followed by its
//! value. The parser is specified against the reference grammar
//! `sp_parse`.

use vstd::prelude::*;
use crate::protocol::{sp_number, px_number};
use crate::strutil::{str_eq, to_chars};

verus! {

/// The parsed command line.
#[derive(Debug)]
pub struct Cli {
    pub command: Commands,
}

/// What the tool was asked to do.
#[derive(Debug)]
pub enum Commands {
    /// Track a repository, with an optional commit-message template and
    /// an optional new check interval.
    Add { path: String, message: Option<String>, interval: Option<u64> },
    /// Stop tracking a repository.
    Remove { path: String },
    /// List the tracked repositories.
    List,
    /// Enable automatic commits for a repository.
    Enable { path: String },
    /// Disable automatic commits for a repository.
    Disable { path: String },
    /// Show the check interval, or set it.
    Interval { seconds: Option<u64> },
    /// Show the configuration and whether the daemon runs.
    Status,
    /// Open the configuration file in an editor.
    Edit,
    /// Run one check-and-commit cycle now.
    Now,
    /// Suspend automatic syncing.
    Suspend,
    /// Resume automatic syncing.
    Resume,
}

/// The shape of a parsed command at the view level.
pub enum CommandsV {
    Add { path: Seq<char>, message: Option<Seq<char>>, interval: Option<u64> },
    Remove { path: Seq<char> },
    List,
    Enable { path: Seq<char> },
    Disable { path: Seq<char> },
    Interval { seconds: Option<u64> },
    Status,
    Edit,
    Now,
    Suspend,
    Resume,
}

/// The view of a parsed command.
pub open spec fn commands_v(c: Commands) -> CommandsV {
    match c {
        Commands::Add { path, message, interval } => CommandsV::Add {
            path: path@,
            message: match message {
                Some(m) => Some(m@),
                None => None,
            },
            interval,
        },
        Commands::Remove { path } => CommandsV::Remove { path: path@ },
        Commands::List => CommandsV::List,
        Commands::Enable { path } => CommandsV::Enable { path: path@ },
        Commands::Disable { path } => CommandsV::Disable { path: path@ },
        Commands::Interval { seconds } => CommandsV::Interval { seconds },
        Commands::Status => CommandsV::Status,
        Commands::Edit => CommandsV::Edit,
        Commands::Now => CommandsV::Now,
        Commands::Suspend => CommandsV::Suspend,
        Commands::Resume => CommandsV::Resume,
    }
}

/// A whole argument read as a decimal `u64`.
pub open spec fn sp_u64_full(s: Seq<char>) -> Option<u64> {
    match sp_number(s, 0) {
        Some((v, j)) => if j == s.len() {
            Some(v)
        } else {
            None
        },
        None => None,
    }
}

/// The option pairs after `add`'s path: any run of `-m`/`--message` and
/// `-i`/`--interval`, each with a value; the last occurrence wins.
pub open spec fn sp_add_rest(
    args: Seq<Seq<char>>,
    i: int,
    message: Option<Seq<char>>,
    interval: Option<u64>,
) -> Option<(Option<Seq<char>>, Option<u64>)>
    decreases args.len() - i,
{
    if i == args.len() {
        Some((message, interval))
    } else if 0 <= i < args.len() && (args[i] == "-m"@ || args[i] == "--message"@) {
        if i + 1 < args.len() {
            sp_add_rest(args, i + 2, Some(args[i + 1]), interval)
        } else {
            None
        }
    } else if 0 <= i < args.len() && (args[i] == "-i"@ || args[i] == "--interval"@) {
        if i + 1 < args.len() {
            match sp_u64_full(args[i + 1]) {
                Some(v) => sp_add_rest(args, i + 2, message, Some(v)),
                None => None,
            }
        } else {
            None
        }
    } else {
        None
    }
}

/// The reference grammar: the program name, then one subcommand with its
/// arguments, and nothing else.
pub open spec fn sp_parse(args: Seq<Seq<char>>) -> Option<CommandsV> {
    if args.len() < 2 {
        None
    } else {
        let sub = args[1];
        if sub == "add"@ {
            if args.len() >= 3 {
                match sp_add_rest(args, 3, None, None) {
                    Some((message, interval)) => Some(
                        CommandsV::Add { path: args[2], message, interval },
                    ),
                    None => None,
                }
            } else {
                None
            }
        } else if sub == "remove"@ {
            if args.len() == 3 {
                Some(CommandsV::Remove { path: args[2] })
            } else {
                None
            }
        } else if sub == "list"@ {
            if args.len() == 2 {
                Some(CommandsV::List)
            } else {
                None
            }
        } else if sub == "enable"@ {
            if args.len() == 3 {
                Some(CommandsV::Enable { path: args[2] })
            } else {
                None
            }
        } else if sub == "disable"@ {
            if args.len() == 3 {
                Some(CommandsV::Disable { path: args[2] })
            } else {
                None
            }
        } else if sub == "interval"@ {
            if args.len() == 2 {
                Some(CommandsV::Interval { seconds: None })
            } else if args.len() == 3 {
                match sp_u64_full(args[2]) {
                    Some(v) => Some(CommandsV::Interval { seconds: Some(v) }),
                    None => None,
                }
            } else {
                None
            }
        } else if sub == "status"@ {
            if args.len() == 2 {
                Some(CommandsV::Status)
            } else {
                None
            }
        } else if sub == "edit"@ {
            if args.len() == 2 {
                Some(CommandsV::Edit)
            } else {
                None
            }
        } else if sub == "now"@ {
            if args.len() == 2 {
                Some(CommandsV::Now)
            } else {
                None
            }
        } else if sub == "suspend"@ {
            if args.len() == 2 {
                Some(CommandsV::Suspend)
            } else {
                None
            }
        } else if sub == "resume"@ {
            if args.len() == 2 {
                Some(CommandsV::Resume)
            } else {
                None
            }
        } else {
            None
        }
    }
}

fn parse_u64_full(s: &String) -> (r: Option<u64>)
    ensures
        match r {
            Some(v) => sp_u64_full(s@) == Some(v),
            None => sp_u64_full(s@) is None,
        },
{
    let chars = to_chars(s.as_str());
    match px_number(&chars, 0) {
        Some((v, j)) => if j == chars.len() {
            Some(v)
        } else {
            None
        },
        None => None,
    }
}

impl Cli {
    /// Parses an argument list the grammar accepts; callers that cannot
    /// vouch for their input use `try_parse_from` instead.
    pub fn parse_from(args: &Vec<String>) -> (r: Cli)
        requires
            sp_parse(args.deep_view()) is Some,
        ensures
            sp_parse(args.deep_view()) == Some(commands_v(r.command)),
    {
        match Cli::try_parse_from(args) {
            Ok(cli) => cli,
            Err(_) => unreached(),
        }
    }

    /// Parses a full argument list, program name first. An unknown
    /// subcommand, a missing or extra argument, an option without its
    /// value or an unreadable number is refused.
    pub fn try_parse_from(args: &Vec<String>) -> (r: Result<Cli, String>)
        ensures
            match r {
                Ok(cli) => sp_parse(args.deep_view()) == Some(commands_v(cli.command)),
                Err(_) => sp_parse(args.deep_view()) is None,
            },
    {
        let ghost argv = args.deep_view();
        proof {
            assert forall|k: int| 0 <= k < argv.len() implies argv[k] == args@[k]@ by {}
        }
        if args.len() < 2 {
            return Err(String::from_str("missing subcommand"));
        }
        let sub = &args[1];
        if str_eq(sub.as_str(), "add") {
            if args.len() < 3 {
                return Err(String::from_str("missing path"));
            }
            let mut message: Option<String> = None;
            let mut interval: Option<u64> = None;
            let mut i: usize = 3;
            while i < args.len()
                invariant
                    argv == args.deep_view(),
                    argv.len() == args@.len(),
                    forall|k: int| 0 <= k < argv.len() ==> argv[k] == args@[k]@,
                    3 <= i <= argv.len(),
                    sp_add_rest(argv, 3, None, None) == sp_add_rest(
                        argv,
                        i as int,
                        match message {
                            Some(m) => Some(m@),
                            None => None,
                        },
                        interval,
                    ),
                decreases argv.len() - i,
            {
                let a = &args[i];
                if str_eq(a.as_str(), "-m") || str_eq(a.as_str(), "--message") {
                    if i + 1 < args.len() {
                        message = Some(args[i + 1].clone());
                        i = i + 2;
                    } else {
                        return Err(String::from_str("missing value for message option"));
                    }
                } else if str_eq(a.as_str(), "-i") || str_eq(a.as_str(), "--interval") {
                    if i + 1 < args.len() {
                        match parse_u64_full(&args[i + 1]) {
                            Some(v) => {
                                interval = Some(v);
                                i = i + 2;
                            },
                            None => {
                                return Err(String::from_str("invalid interval value"));
                            },
                        }
                    } else {
                        return Err(String::from_str("missing value for interval option"));
                    }
                } else {
                    return Err(String::from_str("unexpected argument"));
                }
            }
            Ok(Cli { command: Commands::Add { path: args[2].clone(), message, interval } })
        } else if str_eq(sub.as_str(), "remove") {
            if args.len() == 3 {
                Ok(Cli { command: Commands::Remove { path: args[2].clone() } })
            } else {
                Err(String::from_str("remove takes exactly one path"))
            }
        } else if str_eq(sub.as_str(), "list") {
            if args.len() == 2 {
                Ok(Cli { command: Commands::List })
            } else {
                Err(String::from_str("list takes no argument"))
            }
        } else if str_eq(sub.as_str(), "enable") {
            if args.len() == 3 {
                Ok(Cli { command: Commands::Enable { path: args[2].clone() } })
            } else {
                Err(String::from_str("enable takes exactly one path"))
            }
        } else if str_eq(sub.as_str(), "disable") {
            if args.len() == 3 {
                Ok(Cli { command: Commands::Disable { path: args[2].clone() } })
            } else {
                Err(String::from_str("disable takes exactly one path"))
            }
        } else if str_eq(sub.as_str(), "interval") {
            if args.len() == 2 {
                Ok(Cli { command: Commands::Interval { seconds: None } })
            } else if args.len() == 3 {
                match parse_u64_full(&args[2]) {
                    Some(v) => Ok(Cli { command: Commands::Interval { seconds: Some(v) } }),
                    None => Err(String::from_str("invalid interval value")),
                }
            } else {
                Err(String::from_str("interval takes at most one value"))
            }
        } else if str_eq(sub.as_str(), "status") {
            if args.len() == 2 {
                Ok(Cli { command: Commands::Status })
            } else {
                Err(String::from_str("status takes no argument"))
            }
        } else if str_eq(sub.as_str(), "edit") {
            if args.len() == 2 {
                Ok(Cli { command: Commands::Edit })
            } else {
                Err(String::from_str("edit takes no argument"))
            }
        } else if str_eq(sub.as_str(), "now") {
            if args.len() == 2 {
                Ok(Cli { command: Commands::Now })
            } else {
                Err(String::from_str("now takes no argument"))
            }
        } else if str_eq(sub.as_str(), "suspend") {
            if args.len() == 2 {
                Ok(Cli { command: Commands::Suspend })
            } else {
                Err(String::from_str("suspend takes no argument"))
            }
        } else if str_eq(sub.as_str(), "resume") {
            if args.len() == 2 {
                Ok(Cli { command: Commands::Resume })
            } else {
                Err(String::from_str("resume takes no argument"))
            }
        } else {
            Err(String::from_str("unknown subcommand"))
        }
    }
}

} // verus!
