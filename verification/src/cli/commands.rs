//! The command line: `execmanager [init|status|doctor|service ..|hooks ..|
//! uninstall [--restore]|daemon run]`.

use vstd::prelude::*;
use crate::text::{concat2, str_eq};

verus! {

#[derive(Debug, Clone, Copy, PartialEq, Eq, Structural)]
pub enum ServiceCommand {
    Start,
    Stop,
    Restart,
}

#[derive(Debug, Clone, Copy, PartialEq, Eq, Structural)]
pub enum HooksCommand {
    Install,
    Repair,
}

#[derive(Debug, Clone, Copy, PartialEq, Eq, Structural)]
pub enum UninstallMode {
    Safe,
    Restore,
}

#[derive(Debug, Clone, Copy, PartialEq, Eq, Structural)]
pub enum Command {
    SmartEntry,
    Help,
    Init,
    Status,
    Doctor,
    Service(ServiceCommand),
    Hooks(HooksCommand),
    Uninstall(UninstallMode),
    DaemonRun,
}

#[derive(Debug, Clone, PartialEq, Eq)]
pub struct CommandParseError {
    pub message: String,
}

impl CommandParseError {
    fn new(message: String) -> (r: Self)
        ensures
            r.message == message,
    {
        CommandParseError { message }
    }

    /// The error's message, as it is displayed.
    pub fn message(&self) -> (r: &str)
        ensures
            r@ == self.message@,
    {
        self.message.as_str()
    }
}

pub open spec fn service_spec(action: Seq<char>) -> Result<ServiceCommand, Seq<char>> {
    if action == "start"@ {
        Ok(ServiceCommand::Start)
    } else if action == "stop"@ {
        Ok(ServiceCommand::Stop)
    } else if action == "restart"@ {
        Ok(ServiceCommand::Restart)
    } else {
        Err("unknown service command: "@ + action)
    }
}

pub open spec fn hooks_spec(action: Seq<char>) -> Result<HooksCommand, Seq<char>> {
    if action == "install"@ {
        Ok(HooksCommand::Install)
    } else if action == "repair"@ {
        Ok(HooksCommand::Repair)
    } else {
        Err("unknown hooks command: "@ + action)
    }
}

pub open spec fn uninstall_spec(flag: Seq<char>) -> Result<UninstallMode, Seq<char>> {
    if flag == "--restore"@ {
        Ok(UninstallMode::Restore)
    } else {
        Err("unknown uninstall flag: "@ + flag)
    }
}

pub open spec fn lift<T>(r: Result<T, Seq<char>>, f: spec_fn(T) -> Command) -> Result<Command, Seq<char>> {
    match r {
        Ok(x) => Ok(f(x)),
        Err(e) => Err(e),
    }
}

/// The command that the words after the program name select.
pub open spec fn command_spec(tail: Seq<Seq<char>>) -> Result<Command, Seq<char>> {
    if tail.len() == 0 {
        Ok(Command::SmartEntry)
    } else if tail.len() == 1 {
        let c = tail[0];
        if c == "-h"@ || c == "--help"@ {
            Ok(Command::Help)
        } else if c == "init"@ {
            Ok(Command::Init)
        } else if c == "status"@ {
            Ok(Command::Status)
        } else if c == "doctor"@ {
            Ok(Command::Doctor)
        } else if c == "uninstall"@ {
            Ok(Command::Uninstall(UninstallMode::Safe))
        } else {
            Err("unknown command: "@ + c)
        }
    } else if tail.len() == 2 {
        let c = tail[0];
        let a = tail[1];
        if c == "uninstall"@ {
            lift(uninstall_spec(a), |m: UninstallMode| Command::Uninstall(m))
        } else if c == "service"@ {
            lift(service_spec(a), |m: ServiceCommand| Command::Service(m))
        } else if c == "hooks"@ {
            lift(hooks_spec(a), |m: HooksCommand| Command::Hooks(m))
        } else if c == "daemon"@ && a == "run"@ {
            Ok(Command::DaemonRun)
        } else {
            Err("unknown command: "@ + c)
        }
    } else {
        Err("unknown command: "@ + tail[0])
    }
}

/// The words that spell a command after the program name, as the help
/// text lists them.
pub open spec fn command_words(c: Command) -> Seq<Seq<char>> {
    match c {
        Command::SmartEntry => seq![],
        Command::Help => seq!["--help"@],
        Command::Init => seq!["init"@],
        Command::Status => seq!["status"@],
        Command::Doctor => seq!["doctor"@],
        Command::Service(ServiceCommand::Start) => seq!["service"@, "start"@],
        Command::Service(ServiceCommand::Stop) => seq!["service"@, "stop"@],
        Command::Service(ServiceCommand::Restart) => seq!["service"@, "restart"@],
        Command::Hooks(HooksCommand::Install) => seq!["hooks"@, "install"@],
        Command::Hooks(HooksCommand::Repair) => seq!["hooks"@, "repair"@],
        Command::Uninstall(UninstallMode::Safe) => seq!["uninstall"@],
        Command::Uninstall(UninstallMode::Restore) => seq!["uninstall"@, "--restore"@],
        Command::DaemonRun => seq!["daemon"@, "run"@],
    }
}

/// Every command is reached by its own words: spelling a command out and
/// parsing it back gives that command, so no two commands share a spelling
/// and none is parsed as another.
pub proof fn lemma_commands_parse_from_their_words(c: Command)
    ensures
        command_spec(command_words(c)) == Ok::<Command, Seq<char>>(c),
{
    reveal_strlit("--help");
    reveal_strlit("-h");
    reveal_strlit("init");
    reveal_strlit("status");
    reveal_strlit("doctor");
    reveal_strlit("uninstall");
    reveal_strlit("service");
    reveal_strlit("hooks");
    reveal_strlit("daemon");
    reveal_strlit("run");
    reveal_strlit("start");
    reveal_strlit("stop");
    reveal_strlit("restart");
    reveal_strlit("install");
    reveal_strlit("repair");
    reveal_strlit("--restore");
    assert("status"@[0] != "doctor"@[0]);
    assert("--help"@[0] != "status"@[0]);
    assert("--help"@[0] != "doctor"@[0]);
    assert("service"@[0] != "uninstall"@[0]);
    assert("hooks"@[0] != "uninstall"@[0]);
    assert("hooks"@[0] != "service"@[0]);
    assert("daemon"@[0] != "uninstall"@[0]);
    assert("daemon"@[0] != "service"@[0]);
    assert("daemon"@[0] != "hooks"@[0]);
    assert("start"@[2] != "stop"@[2]);
    assert("restart"@[0] != "start"@[0]);
    assert("restart"@[0] != "stop"@[0]);
    assert("install"@[0] != "repair"@[0]);
    let t = command_words(c);
    match c {
        Command::Service(m) => {
            assert(t[0] == "service"@);
            assert(service_spec(t[1]) == Ok::<ServiceCommand, Seq<char>>(m));
            let f = |m: ServiceCommand| Command::Service(m);
            assert(command_spec(t) == lift(service_spec(t[1]), f));
            assert(f(m) == Command::Service(m));
            assert(lift(service_spec(t[1]), f) == Ok::<Command, Seq<char>>(f(m)));
            assert(command_spec(t) == Ok::<Command, Seq<char>>(Command::Service(m)));
            assert(c == Command::Service(m));
            assert(command_spec(command_words(c)) == Ok::<Command, Seq<char>>(c));
        },
        Command::Hooks(m) => {
            assert(t[0] == "hooks"@);
            assert(command_spec(t) == Ok::<Command, Seq<char>>(c));
        },
        Command::Uninstall(UninstallMode::Restore) => {
            assert(t[0] == "uninstall"@ && t[1] == "--restore"@);
            assert(command_spec(t) == Ok::<Command, Seq<char>>(c));
        },
        Command::DaemonRun => {
            assert(t[0] == "daemon"@ && t[1] == "run"@);
            assert(command_spec(t) == Ok::<Command, Seq<char>>(c));
        },
        Command::Uninstall(UninstallMode::Safe) => {
            assert(command_spec(t) == Ok::<Command, Seq<char>>(c));
        },
        Command::Help => {
            assert(command_spec(t) == Ok::<Command, Seq<char>>(c));
        },
        Command::Init => {
            assert("init"@[0] != "-h"@[0]);
            assert("init"@[0] != "--help"@[0]);
            assert(command_spec(t) == Ok::<Command, Seq<char>>(c));
        },
        Command::Status => {
            assert(command_spec(t) == Ok::<Command, Seq<char>>(c));
        },
        Command::Doctor => {
            assert(command_spec(t) == Ok::<Command, Seq<char>>(c));
        },
        Command::SmartEntry => {
            assert(command_spec(t) == Ok::<Command, Seq<char>>(c));
        },
    }
}

/// The words after the program name.
pub open spec fn args_tail(args: Seq<Seq<char>>) -> Seq<Seq<char>> {
    if args.len() == 0 {
        seq![]
    } else {
        args.drop_first()
    }
}

pub open spec fn str_views(args: Seq<&str>) -> Seq<Seq<char>> {
    args.map_values(|s: &str| s@)
}

pub open spec fn string_views(args: Seq<String>) -> Seq<Seq<char>> {
    args.map_values(|s: String| s@)
}

impl Command {
    fn parse_service(action: &str) -> (r: Result<ServiceCommand, CommandParseError>)
        ensures
            r matches Ok(c) ==> service_spec(action@) == Ok::<ServiceCommand, Seq<char>>(c),
            r matches Err(e) ==> service_spec(action@) == Err::<ServiceCommand, Seq<char>>(e.message@),
    {
        if str_eq(action, "start") {
            Ok(ServiceCommand::Start)
        } else if str_eq(action, "stop") {
            Ok(ServiceCommand::Stop)
        } else if str_eq(action, "restart") {
            Ok(ServiceCommand::Restart)
        } else {
            Err(CommandParseError::new(concat2("unknown service command: ", action)))
        }
    }

    fn parse_hooks(action: &str) -> (r: Result<HooksCommand, CommandParseError>)
        ensures
            r matches Ok(c) ==> hooks_spec(action@) == Ok::<HooksCommand, Seq<char>>(c),
            r matches Err(e) ==> hooks_spec(action@) == Err::<HooksCommand, Seq<char>>(e.message@),
    {
        if str_eq(action, "install") {
            Ok(HooksCommand::Install)
        } else if str_eq(action, "repair") {
            Ok(HooksCommand::Repair)
        } else {
            Err(CommandParseError::new(concat2("unknown hooks command: ", action)))
        }
    }

    fn parse_uninstall(flag: &str) -> (r: Result<UninstallMode, CommandParseError>)
        ensures
            r matches Ok(c) ==> uninstall_spec(flag@) == Ok::<UninstallMode, Seq<char>>(c),
            r matches Err(e) ==> uninstall_spec(flag@) == Err::<UninstallMode, Seq<char>>(e.message@),
    {
        if str_eq(flag, "--restore") {
            Ok(UninstallMode::Restore)
        } else {
            Err(CommandParseError::new(concat2("unknown uninstall flag: ", flag)))
        }
    }

    /// Parses the words after the program name.
    pub fn parse_tail(tail: &[&str]) -> (r: Result<Self, CommandParseError>)
        ensures
            r matches Ok(c) ==> command_spec(str_views(tail@)) == Ok::<Command, Seq<char>>(c),
            r matches Err(e) ==> command_spec(str_views(tail@)) == Err::<Command, Seq<char>>(
                e.message@,
            ),
    {
        let ghost t = str_views(tail@);
        if tail.len() == 0 {
            return Ok(Command::SmartEntry);
        }
        let c = tail[0];
        assert(t[0] == c@);
        if tail.len() == 1 {
            if str_eq(c, "-h") || str_eq(c, "--help") {
                Ok(Command::Help)
            } else if str_eq(c, "init") {
                Ok(Command::Init)
            } else if str_eq(c, "status") {
                Ok(Command::Status)
            } else if str_eq(c, "doctor") {
                Ok(Command::Doctor)
            } else if str_eq(c, "uninstall") {
                Ok(Command::Uninstall(UninstallMode::Safe))
            } else {
                Err(CommandParseError::new(concat2("unknown command: ", c)))
            }
        } else if tail.len() == 2 {
            let a = tail[1];
            assert(t[1] == a@);
            if str_eq(c, "uninstall") {
                match Self::parse_uninstall(a) {
                    Ok(m) => Ok(Command::Uninstall(m)),
                    Err(e) => Err(e),
                }
            } else if str_eq(c, "service") {
                match Self::parse_service(a) {
                    Ok(m) => Ok(Command::Service(m)),
                    Err(e) => Err(e),
                }
            } else if str_eq(c, "hooks") {
                match Self::parse_hooks(a) {
                    Ok(m) => Ok(Command::Hooks(m)),
                    Err(e) => Err(e),
                }
            } else if str_eq(c, "daemon") && str_eq(a, "run") {
                Ok(Command::DaemonRun)
            } else {
                Err(CommandParseError::new(concat2("unknown command: ", c)))
            }
        } else {
            Err(CommandParseError::new(concat2("unknown command: ", c)))
        }
    }

    /// Parses a full argument list, the program name first.
    pub fn parse_args(args: &[&str]) -> (r: Result<Self, CommandParseError>)
        ensures
            r matches Ok(c) ==> command_spec(args_tail(str_views(args@))) == Ok::<Command, Seq<char>>(
                c,
            ),
            r matches Err(e) ==> command_spec(args_tail(str_views(args@))) == Err::<
                Command,
                Seq<char>,
            >(e.message@),
    {
        if args.len() == 0 {
            let none: [&str; 0] = [];
            assert(str_views(none@) =~= seq![]);
            return Self::parse_tail(&none);
        }
        let tail = vstd::slice::slice_subrange(args, 1, args.len());
        assert(str_views(tail@) =~= args_tail(str_views(args@)));
        Self::parse_tail(tail)
    }

    /// Parses the process arguments.
    pub fn from_env(args: Vec<String>) -> (r: Result<Self, CommandParseError>)
        ensures
            r matches Ok(c) ==> command_spec(args_tail(string_views(args@))) == Ok::<
                Command,
                Seq<char>,
            >(c),
            r matches Err(e) ==> command_spec(args_tail(string_views(args@))) == Err::<
                Command,
                Seq<char>,
            >(e.message@),
    {
        let mut words: Vec<&str> = Vec::new();
        let mut i: usize = 0;
        while i < args.len()
            invariant
                i <= args@.len(),
                words@.len() == i,
                str_views(words@) == string_views(args@).take(i as int),
            decreases args.len() - i,
        {
            let w = args[i].as_str();
            let ghost before = words@;
            words.push(w);
            assert(w@ == args@[i as int]@);
            assert forall|j: int| 0 <= j < i + 1 implies #[trigger] str_views(words@)[j]
                == string_views(args@).take(i + 1)[j] by {
                if j < i {
                    assert(str_views(words@)[j] == words@[j]@);
                    assert(str_views(before)[j] == before[j]@);
                }
            }
            assert(str_views(words@) =~= string_views(args@).take(i + 1));
            i = i + 1;
        }
        assert(string_views(args@).take(args@.len() as int) =~= string_views(args@));
        Self::parse_args(words.as_slice())
    }

    /// Parses literal arguments that are known to form a command.
    pub fn parse_from<const N: usize>(args: [&str; N]) -> (r: Self)
        requires
            command_spec(args_tail(str_views(args@))) is Ok,
        ensures
            command_spec(args_tail(str_views(args@))) == Ok::<Command, Seq<char>>(r),
    {
        match Self::parse_args(args.as_slice()) {
            Ok(c) => c,
            Err(_) => {
                assert(false);
                Command::Help
            },
        }
    }
}

} // verus!
