//! The per-user service definition (a systemd user unit or a launchd agent)
//! and the service manager commands that start, stop and restart it.

use vstd::prelude::*;
use crate::cli::app_dirs::HostOs;
use crate::paths::{join_path, path_join};
use crate::cli::commands::{command_spec, Command, ServiceCommand};
use crate::text::{chars_of, owned, push_char, u64_to_string, decimal};

verus! {

#[derive(Debug, Clone, Copy, PartialEq, Eq, Structural)]
pub enum ServiceKind {
    SystemdUser,
    LaunchAgent,
}

#[derive(Debug, Clone, PartialEq, Eq)]
pub struct LaunchSpec {
    pub execmanager_path: String,
    pub config_dir: String,
    pub runtime_dir: String,
    pub state_dir: String,
}

#[derive(Debug, Clone, PartialEq, Eq)]
pub struct ServiceManagerCommand {
    pub program: String,
    pub args: Vec<String>,
}

pub open spec fn systemd_escaped_char(c: char) -> Seq<char> {
    if c == ' ' || c == '\t' || c == '\n' || c == '"' || c == '\'' || c == '\\' {
        seq!['\\', c]
    } else {
        seq![c]
    }
}

/// A value for a unit file line: blanks, quotes and backslashes get a backslash.
pub open spec fn escape_systemd(s: Seq<char>) -> Seq<char>
    decreases s.len(),
{
    if s.len() == 0 {
        seq![]
    } else {
        escape_systemd(s.drop_last()) + systemd_escaped_char(s.last())
    }
}

pub open spec fn xml_escaped_char(c: char) -> Seq<char> {
    if c == '&' {
        "&amp;"@
    } else if c == '<' {
        "&lt;"@
    } else if c == '>' {
        "&gt;"@
    } else if c == '"' {
        "&quot;"@
    } else if c == '\'' {
        "&apos;"@
    } else {
        seq![c]
    }
}

/// Text for an XML element: the five markup characters become entities.
pub open spec fn escape_xml(s: Seq<char>) -> Seq<char>
    decreases s.len(),
{
    if s.len() == 0 {
        seq![]
    } else {
        escape_xml(s.drop_last()) + xml_escaped_char(s.last())
    }
}

pub fn escape_systemd_value(value: &str) -> (r: String)
    ensures
        r@ == escape_systemd(value@),
{
    let chars = chars_of(value);
    let mut escaped = String::new();
    let mut i: usize = 0;
    while i < chars.len()
        invariant
            chars@ == value@,
            i <= chars@.len(),
            escaped@ == escape_systemd(value@.take(i as int)),
        decreases chars.len() - i,
    {
        let ch = chars[i];
        if ch == ' ' || ch == '\t' || ch == '\n' || ch == '"' || ch == '\'' || ch == '\\' {
            push_char(&mut escaped, '\\');
            push_char(&mut escaped, ch);
        } else {
            push_char(&mut escaped, ch);
        }
        assert(value@.take(i + 1).drop_last() =~= value@.take(i as int));
        i = i + 1;
    }
    assert(value@.take(chars@.len() as int) =~= value@);
    escaped
}

pub fn escape_xml_value(value: &str) -> (r: String)
    ensures
        r@ == escape_xml(value@),
{
    let chars = chars_of(value);
    let mut escaped = String::new();
    let mut i: usize = 0;
    while i < chars.len()
        invariant
            chars@ == value@,
            i <= chars@.len(),
            escaped@ == escape_xml(value@.take(i as int)),
        decreases chars.len() - i,
    {
        let ch = chars[i];
        if ch == '&' {
            escaped.append("&amp;");
        } else if ch == '<' {
            escaped.append("&lt;");
        } else if ch == '>' {
            escaped.append("&gt;");
        } else if ch == '"' {
            escaped.append("&quot;");
        } else if ch == '\'' {
            escaped.append("&apos;");
        } else {
            push_char(&mut escaped, ch);
        }
        assert(value@.take(i + 1).drop_last() =~= value@.take(i as int));
        i = i + 1;
    }
    assert(value@.take(chars@.len() as int) =~= value@);
    escaped
}

/// The systemd user unit that runs `execmanager daemon run` for this user.
pub open spec fn unit_text(spec: LaunchSpec) -> Seq<char> {
    "[Unit]\nDescription=ExecManager per-user daemon\n\n[Service]\nType=simple\nExecStart="@
        + escape_systemd(spec.execmanager_path@) + " daemon run\nWorkingDirectory="@
        + escape_systemd(spec.config_dir@) + "\nEnvironment=EXECMANAGER_CONFIG_DIR="@
        + escape_systemd(spec.config_dir@) + "\nEnvironment=EXECMANAGER_RUNTIME_DIR="@
        + escape_systemd(spec.runtime_dir@) + "\nEnvironment=EXECMANAGER_STATE_DIR="@
        + escape_systemd(spec.state_dir@)
        + "\nRestart=on-failure\n\n[Install]\nWantedBy=default.target\n"@
}

/// The launchd property list that runs `execmanager daemon run` for this user.
pub open spec fn launch_agent_text(spec: LaunchSpec) -> Seq<char> {
    "<?xml version=\"1.0\" encoding=\"UTF-8\"?>\n<!DOCTYPE plist PUBLIC \"-//Apple//DTD PLIST 1.0//EN\" \"http://www.apple.com/DTDs/PropertyList-1.0.dtd\">\n<plist version=\"1.0\">\n<dict>\n  <key>Label</key>\n  <string>dev.execmanager.daemon</string>\n  <key>ProgramArguments</key>\n  <array>\n    <string>"@
        + escape_xml(spec.execmanager_path@)
        + "</string>\n    <string>daemon</string>\n    <string>run</string>\n  </array>\n  <key>WorkingDirectory</key>\n  <string>"@
        + escape_xml(spec.config_dir@)
        + "</string>\n  <key>EnvironmentVariables</key>\n  <dict>\n    <key>EXECMANAGER_CONFIG_DIR</key>\n    <string>"@
        + escape_xml(spec.config_dir@)
        + "</string>\n    <key>EXECMANAGER_RUNTIME_DIR</key>\n    <string>"@
        + escape_xml(spec.runtime_dir@)
        + "</string>\n    <key>EXECMANAGER_STATE_DIR</key>\n    <string>"@
        + escape_xml(spec.state_dir@)
        + "</string>\n  </dict>\n  <key>RunAtLoad</key>\n  <true/>\n  <key>KeepAlive</key>\n  <true/>\n</dict>\n</plist>\n"@
}

pub open spec fn definition_text(kind: ServiceKind, spec: LaunchSpec) -> Seq<char> {
    match kind {
        ServiceKind::SystemdUser => unit_text(spec),
        ServiceKind::LaunchAgent => launch_agent_text(spec),
    }
}

pub fn render_unit(spec: &LaunchSpec) -> (r: String)
    ensures
        r@ == unit_text(*spec),
{
    let mut r = owned(
        "[Unit]\nDescription=ExecManager per-user daemon\n\n[Service]\nType=simple\nExecStart=",
    );
    r.append(&escape_systemd_value(&spec.execmanager_path));
    r.append(" daemon run\nWorkingDirectory=");
    r.append(&escape_systemd_value(&spec.config_dir));
    r.append("\nEnvironment=EXECMANAGER_CONFIG_DIR=");
    r.append(&escape_systemd_value(&spec.config_dir));
    r.append("\nEnvironment=EXECMANAGER_RUNTIME_DIR=");
    r.append(&escape_systemd_value(&spec.runtime_dir));
    r.append("\nEnvironment=EXECMANAGER_STATE_DIR=");
    r.append(&escape_systemd_value(&spec.state_dir));
    r.append("\nRestart=on-failure\n\n[Install]\nWantedBy=default.target\n");
    r
}

pub fn render_launch_agent(spec: &LaunchSpec) -> (r: String)
    ensures
        r@ == launch_agent_text(*spec),
{
    let mut r = owned(
        "<?xml version=\"1.0\" encoding=\"UTF-8\"?>\n<!DOCTYPE plist PUBLIC \"-//Apple//DTD PLIST 1.0//EN\" \"http://www.apple.com/DTDs/PropertyList-1.0.dtd\">\n<plist version=\"1.0\">\n<dict>\n  <key>Label</key>\n  <string>dev.execmanager.daemon</string>\n  <key>ProgramArguments</key>\n  <array>\n    <string>",
    );
    r.append(&escape_xml_value(&spec.execmanager_path));
    r.append(
        "</string>\n    <string>daemon</string>\n    <string>run</string>\n  </array>\n  <key>WorkingDirectory</key>\n  <string>",
    );
    r.append(&escape_xml_value(&spec.config_dir));
    r.append(
        "</string>\n  <key>EnvironmentVariables</key>\n  <dict>\n    <key>EXECMANAGER_CONFIG_DIR</key>\n    <string>",
    );
    r.append(&escape_xml_value(&spec.config_dir));
    r.append("</string>\n    <key>EXECMANAGER_RUNTIME_DIR</key>\n    <string>");
    r.append(&escape_xml_value(&spec.runtime_dir));
    r.append("</string>\n    <key>EXECMANAGER_STATE_DIR</key>\n    <string>");
    r.append(&escape_xml_value(&spec.state_dir));
    r.append(
        "</string>\n  </dict>\n  <key>RunAtLoad</key>\n  <true/>\n  <key>KeepAlive</key>\n  <true/>\n</dict>\n</plist>\n",
    );
    r
}

/// A service manager command by its program and arguments.
pub open spec fn command_view(c: ServiceManagerCommand) -> (Seq<char>, Seq<Seq<char>>) {
    (c.program@, c.args@.map_values(|a: String| a@))
}

pub open spec fn commands_view(v: Seq<ServiceManagerCommand>) -> Seq<(Seq<char>, Seq<Seq<char>>)> {
    v.map_values(|c: ServiceManagerCommand| command_view(c))
}

pub open spec fn action_word(command: ServiceCommand) -> Seq<char> {
    match command {
        ServiceCommand::Start => "start"@,
        ServiceCommand::Stop => "stop"@,
        ServiceCommand::Restart => "restart"@,
    }
}

/// The word typed after `execmanager service` is the verb the service
/// manager is given: parsing a word yields the command whose verb is that
/// word, and every command's verb parses back to that command.
pub proof fn lemma_service_word_is_the_manager_verb(word: Seq<char>, command: ServiceCommand)
    ensures
        command_spec(seq!["service"@, word]) matches Ok(Command::Service(parsed)) ==> action_word(
            parsed,
        ) == word,
        command_spec(seq!["service"@, action_word(command)]) == Ok::<Command, Seq<char>>(
            Command::Service(command),
        ),
{
    reveal_strlit("service");
    reveal_strlit("start");
    reveal_strlit("stop");
    reveal_strlit("restart");
    reveal_strlit("uninstall");
    reveal_strlit("hooks");
    reveal_strlit("daemon");
    let t = seq!["service"@, action_word(command)];
    assert(t.len() == 2 && t[0] == "service"@ && t[1] == action_word(command));
    assert(crate::cli::commands::service_spec(action_word(command)) == Ok::<
        ServiceCommand,
        Seq<char>,
    >(command));
    assert("service"@[0] != "uninstall"@[0]);
    assert(command_spec(t) == crate::cli::commands::lift(
        crate::cli::commands::service_spec(action_word(command)),
        |m: ServiceCommand| Command::Service(m),
    ));
}

pub open spec fn launchctl_domain_text(uid: u32) -> Seq<char> {
    "gui/"@ + decimal(uid as nat)
}

pub open spec fn launchctl_target_text(uid: u32) -> Seq<char> {
    launchctl_domain_text(uid) + "/dev.execmanager.daemon"@
}

/// The commands that carry out `command` with the given service manager.
/// A launchd agent is controlled on macOS only; `uid` is the current user's
/// id and `definition_path` the installed property list.
pub open spec fn control_spec(
    kind: ServiceKind,
    command: ServiceCommand,
    os: HostOs,
    uid: u32,
    definition_path: Seq<char>,
) -> Result<Seq<(Seq<char>, Seq<Seq<char>>)>, Seq<char>> {
    match kind {
        ServiceKind::SystemdUser => {
            let act = ("systemctl"@, seq!["--user"@, action_word(command), "dev.execmanager.daemon.service"@]);
            if command == ServiceCommand::Start {
                Ok(seq![("systemctl"@, seq!["--user"@, "daemon-reload"@]), act])
            } else {
                Ok(seq![act])
            }
        },
        ServiceKind::LaunchAgent => {
            if os != HostOs::MacOs {
                Err("LaunchAgent control is only supported on macOS"@)
            } else {
                match command {
                    ServiceCommand::Start => Ok(seq![("launchctl"@, seq!["bootstrap"@, launchctl_domain_text(uid), definition_path])]),
                    ServiceCommand::Stop => Ok(seq![("launchctl"@, seq!["bootout"@, launchctl_target_text(uid)])]),
                    ServiceCommand::Restart => Ok(seq![("launchctl"@, seq!["kickstart"@, "-k"@, launchctl_target_text(uid)])]),
                }
            }
        },
    }
}

pub fn service_action(command: ServiceCommand) -> (r: &'static str)
    ensures
        r@ == action_word(command),
{
    match command {
        ServiceCommand::Start => "start",
        ServiceCommand::Stop => "stop",
        ServiceCommand::Restart => "restart",
    }
}

fn manager_command(program: &str, args: Vec<String>) -> (r: ServiceManagerCommand)
    ensures
        command_view(r) == (program@, args@.map_values(|a: String| a@)),
{
    ServiceManagerCommand { program: owned(program), args }
}

fn words2(a: &str, b: &str) -> (r: Vec<String>)
    ensures
        r@.map_values(|s: String| s@) =~= seq![a@, b@],
{
    let mut v: Vec<String> = Vec::new();
    v.push(owned(a));
    v.push(owned(b));
    v
}

fn words3(a: &str, b: &str, c: &str) -> (r: Vec<String>)
    ensures
        r@.map_values(|s: String| s@) =~= seq![a@, b@, c@],
{
    let mut v: Vec<String> = Vec::new();
    v.push(owned(a));
    v.push(owned(b));
    v.push(owned(c));
    v
}

/// `gui/<uid>`, the launchd domain of the user's GUI session.
pub fn launchctl_domain(uid: u32) -> (r: String)
    ensures
        r@ == launchctl_domain_text(uid),
{
    let mut r = owned("gui/");
    r.append(&u64_to_string(uid as u64));
    r
}

/// `gui/<uid>/dev.execmanager.daemon`, the agent inside that domain.
pub fn launchctl_target(uid: u32) -> (r: String)
    ensures
        r@ == launchctl_target_text(uid),
{
    let mut r = launchctl_domain(uid);
    r.append("/dev.execmanager.daemon");
    r
}

impl ServiceKind {
    /// The service definition file for `spec`.
    pub fn render(&self, spec: &LaunchSpec) -> (r: String)
        ensures
            r@ == definition_text(*self, *spec),
    {
        match self {
            ServiceKind::SystemdUser => render_unit(spec),
            ServiceKind::LaunchAgent => render_launch_agent(spec),
        }
    }

    /// The service manager commands that carry out `command`.
    pub fn control_commands(
        &self,
        command: ServiceCommand,
        os: HostOs,
        uid: u32,
        definition_path: &str,
    ) -> (r: Result<Vec<ServiceManagerCommand>, String>)
        ensures
            match r {
                Ok(v) => control_spec(*self, command, os, uid, definition_path@) == Ok::<
                    Seq<(Seq<char>, Seq<Seq<char>>)>,
                    Seq<char>,
                >(commands_view(v@)),
                Err(e) => control_spec(*self, command, os, uid, definition_path@) == Err::<
                    Seq<(Seq<char>, Seq<Seq<char>>)>,
                    Seq<char>,
                >(e@),
            },
    {
        match self {
            ServiceKind::SystemdUser => {
                let mut commands: Vec<ServiceManagerCommand> = Vec::new();
                let is_start = match command {
                    ServiceCommand::Start => true,
                    _ => false,
                };
                if is_start {
                    commands.push(manager_command("systemctl", words2("--user", "daemon-reload")));
                }
                commands.push(
                    manager_command(
                        "systemctl",
                        words3("--user", service_action(command), "dev.execmanager.daemon.service"),
                    ),
                );
                assert(commands_view(commands@) =~= control_spec(*self, command, os, uid, definition_path@)->Ok_0);
                Ok(commands)
            },
            ServiceKind::LaunchAgent => {
                let on_macos = match os {
                    HostOs::MacOs => true,
                    _ => false,
                };
                if !on_macos {
                    return Err(owned("LaunchAgent control is only supported on macOS"));
                }
                let mut commands: Vec<ServiceManagerCommand> = Vec::new();
                match command {
                    ServiceCommand::Start => {
                        let mut args: Vec<String> = Vec::new();
                        args.push(owned("bootstrap"));
                        args.push(launchctl_domain(uid));
                        args.push(owned(definition_path));
                        assert(args@.map_values(|s: String| s@) =~= seq!["bootstrap"@, launchctl_domain_text(uid), definition_path@]);
                        commands.push(manager_command("launchctl", args));
                    },
                    ServiceCommand::Stop => {
                        let mut args: Vec<String> = Vec::new();
                        args.push(owned("bootout"));
                        args.push(launchctl_target(uid));
                        assert(args@.map_values(|s: String| s@) =~= seq!["bootout"@, launchctl_target_text(uid)]);
                        commands.push(manager_command("launchctl", args));
                    },
                    ServiceCommand::Restart => {
                        let mut args: Vec<String> = Vec::new();
                        args.push(owned("kickstart"));
                        args.push(owned("-k"));
                        args.push(launchctl_target(uid));
                        assert(args@.map_values(|s: String| s@) =~= seq!["kickstart"@, "-k"@, launchctl_target_text(uid)]);
                        commands.push(manager_command("launchctl", args));
                    },
                }
                assert(commands_view(commands@) =~= control_spec(*self, command, os, uid, definition_path@)->Ok_0);
                Ok(commands)
            },
        }
    }
}

pub open spec fn outcome_text(command: ServiceCommand) -> Seq<char> {
    match command {
        ServiceCommand::Start => "started execmanager service"@,
        ServiceCommand::Stop => "stopped execmanager service"@,
        ServiceCommand::Restart => "restarted execmanager service"@,
    }
}

/// What the command line prints once every service manager command succeeded.
pub fn service_outcome_message(command: ServiceCommand) -> (r: String)
    ensures
        r@ == outcome_text(command),
{
    match command {
        ServiceCommand::Start => owned("started execmanager service"),
        ServiceCommand::Stop => owned("stopped execmanager service"),
        ServiceCommand::Restart => owned("restarted execmanager service"),
    }
}

/// The service manager the current operating system uses, with its label.
pub fn current_service_kind(os: HostOs) -> (r: ServiceKind)
    ensures
        r == (if os == HostOs::MacOs { ServiceKind::LaunchAgent } else { ServiceKind::SystemdUser }),
{
    match os {
        HostOs::MacOs => ServiceKind::LaunchAgent,
        _ => ServiceKind::SystemdUser,
    }
}

pub open spec fn definition_path_text(root: Seq<char>, os: HostOs) -> Seq<char> {
    match os {
        HostOs::MacOs => path_join(path_join(path_join(root, "Library"@), "LaunchAgents"@), "dev.execmanager.daemon.plist"@),
        _ => path_join(path_join(path_join(path_join(root, ".config"@), "systemd"@), "user"@), "dev.execmanager.daemon.service"@),
    }
}

/// Where the service definition lives under `root` (the home directory, or
/// a test root).
pub fn service_definition_path_for_root(root: &str, os: HostOs) -> (r: String)
    ensures
        r@ == definition_path_text(root@, os),
{
    match os {
        HostOs::MacOs => {
            let a = join_path(root, "Library");
            let b = join_path(&a, "LaunchAgents");
            join_path(&b, "dev.execmanager.daemon.plist")
        },
        _ => {
            let a = join_path(root, ".config");
            let b = join_path(&a, "systemd");
            let c = join_path(&b, "user");
            join_path(&c, "dev.execmanager.daemon.service")
        },
    }
}

} // verus!
