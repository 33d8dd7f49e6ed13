//! Launch specifications, the errors of managed execution, and the
//! tokenization of a launch command received over RPC.

use vstd::prelude::*;
use crate::contracts::ExecutionId;
use crate::daemon::ownership::{OwnershipError, ownership_error_text};
use crate::text::{
    chars_of, contains_chars, has_char, is_ws, occurs_at, split_whitespace, trim, trim_chars, views,
    words, trim_start, trim_end,
};

use crate::text::{decimal, u64_to_string};

verus! {

#[derive(Debug, Clone, Copy, PartialEq, Eq, Structural)]
pub enum ExecutionMode {
    BatchPipes,
    InteractivePty,
}

#[derive(Debug, Clone, Copy, PartialEq, Eq, Structural)]
pub enum LifecycleStage {
    Requested,
    Admitted,
    Spawned,
    Exited,
}

#[derive(Debug, PartialEq, Eq)]
pub enum LaunchPolicyOutcome {
    AllowedAsRequested { policy: String, reason: String },
    Rewritten { policy: String, reason: String },
    Denied { policy: String, reason: String },
}

impl Clone for LaunchPolicyOutcome {
    fn clone(&self) -> (r: Self)
        ensures
            r == *self,
    {
        match self {
            LaunchPolicyOutcome::AllowedAsRequested { policy, reason } => {
                LaunchPolicyOutcome::AllowedAsRequested { policy: policy.clone(), reason: reason.clone() }
            },
            LaunchPolicyOutcome::Rewritten { policy, reason } => LaunchPolicyOutcome::Rewritten {
                policy: policy.clone(),
                reason: reason.clone(),
            },
            LaunchPolicyOutcome::Denied { policy, reason } => LaunchPolicyOutcome::Denied {
                policy: policy.clone(),
                reason: reason.clone(),
            },
        }
    }
}

#[derive(Debug, Clone, PartialEq, Eq)]
pub enum AppendError {
    Io(String),
    Serialize(String),
    PayloadTooLarge,
}

#[derive(Debug, Clone, PartialEq, Eq)]
pub enum ManagedExecError {
    UnsupportedExecutionMode { requested: ExecutionMode, reason: String },
    PolicyDenied { policy: String, reason: String },
    Io(String),
    Journal(AppendError),
}

#[derive(Debug)]
pub enum ManagedCleanupError {
    Ownership(OwnershipError),
    Io(String),
    Journal(AppendError),
    Timeout { process_group_id: u32 },
}

#[derive(Debug, PartialEq, Eq)]
pub struct ManagedLaunchSpec {
    pub exec_id: ExecutionId,
    pub program: String,
    pub args: Vec<String>,
    pub environment: Vec<(String, String)>,
    pub mode: ExecutionMode,
    pub original_command: String,
}

/// `program` followed by each argument, separated by single spaces.
pub open spec fn rendered(program: Seq<char>, args: Seq<Seq<char>>) -> Seq<char>
    decreases args.len(),
{
    if args.len() == 0 {
        program
    } else {
        rendered(program, args.drop_last()) + " "@ + args.last()
    }
}

impl ManagedLaunchSpec {
    pub fn new(exec_id: ExecutionId, program: String, args: Vec<String>, mode: ExecutionMode) -> (r:
        Self)
        ensures
            r.exec_id == exec_id,
            r.program == program,
            r.args == args,
            r.environment@.len() == 0,
            r.mode == mode,
            r.original_command@ == rendered(program@, views(args@)),
    {
        let original_command = Self::render_command(program.as_str(), &args);
        ManagedLaunchSpec {
            exec_id,
            program,
            args,
            environment: Vec::new(),
            mode,
            original_command,
        }
    }

    pub fn with_env(self, name: &str, value: &str) -> (r: Self)
        ensures
            r.environment@.len() == self.environment@.len() + 1,
            r.environment@.drop_last() == self.environment@,
            r.environment@.last().0@ == name@,
            r.environment@.last().1@ == value@,
            r.exec_id == self.exec_id,
            r.program == self.program,
            r.args == self.args,
            r.mode == self.mode,
            r.original_command == self.original_command,
    {
        let mut s = self;
        s.environment.push((name.to_owned(), value.to_owned()));
        assert(s.environment@.drop_last() =~= self.environment@);
        s
    }

    pub fn with_original_command(self, original_command: &str) -> (r: Self)
        ensures
            r.original_command@ == original_command@,
            r.exec_id == self.exec_id,
            r.program == self.program,
            r.args == self.args,
            r.environment == self.environment,
            r.mode == self.mode,
    {
        let mut s = self;
        s.original_command = original_command.to_owned();
        s
    }

    pub fn rendered_command(&self) -> (r: String)
        ensures
            r@ == rendered(self.program@, views(self.args@)),
    {
        Self::render_command(self.program.as_str(), &self.args)
    }

    pub fn render_command(program: &str, args: &Vec<String>) -> (r: String)
        ensures
            r@ == rendered(program@, views(args@)),
    {
        let mut out = program.to_owned();
        let mut i: usize = 0;
        while i < args.len()
            invariant
                i <= args@.len(),
                out@ == rendered(program@, views(args@).take(i as int)),
            decreases args.len() - i,
        {
            out.append(" ");
            out.append(args[i].as_str());
            assert(views(args@).take(i + 1).drop_last() =~= views(args@).take(i as int));
            i = i + 1;
        }
        assert(views(args@).take(args@.len() as int) =~= views(args@));
        out
    }
}

/// Daemon RPC settings: where it listens, where it journals, and how long it
/// watches a fresh launch for listening sockets.
#[derive(Debug, Clone, PartialEq, Eq)]
pub struct DaemonRpcConfig {
    pub socket_path: String,
    pub journal_path: String,
    pub runtime_observation_timeout_millis: u64,
}

pub const DEFAULT_RPC_RUNTIME_OBSERVATION_TIMEOUT_MILLIS: u64 = 3000;

impl DaemonRpcConfig {
    pub fn new(socket_path: &str, journal_path: &str) -> (r: Self)
        ensures
            r.socket_path@ == socket_path@,
            r.journal_path@ == journal_path@,
            r.runtime_observation_timeout_millis == DEFAULT_RPC_RUNTIME_OBSERVATION_TIMEOUT_MILLIS,
    {
        DaemonRpcConfig {
            socket_path: socket_path.to_owned(),
            journal_path: journal_path.to_owned(),
            runtime_observation_timeout_millis: DEFAULT_RPC_RUNTIME_OBSERVATION_TIMEOUT_MILLIS,
        }
    }

    pub fn with_runtime_observation_timeout(self, timeout_millis: u64) -> (r: Self)
        ensures
            r.runtime_observation_timeout_millis == timeout_millis,
            r.socket_path == self.socket_path,
            r.journal_path == self.journal_path,
    {
        let mut s = self;
        s.runtime_observation_timeout_millis = timeout_millis;
        s
    }
}

/// Commands the RPC front door refuses to tokenize: any quoting, command
/// substitution or backticks would need a real shell parser.
pub open spec fn needs_shell_parsing(s: Seq<char>) -> bool {
    s.contains('"') || s.contains('\'') || (exists|i: int| occurs_at(s, "$("@, i)) || s.contains(
        '`',
    )
}

/// The argv of a launch command: its whitespace-separated words, or the
/// reason it cannot be launched without a shell.
pub open spec fn split_launch_spec(s: Seq<char>) -> Result<Seq<Seq<char>>, Seq<char>> {
    if trim(s).len() == 0 {
        Err("launch command is empty"@)
    } else if needs_shell_parsing(s) {
        Err("launch command requires unsupported shell parsing"@)
    } else if words(s).len() == 0 {
        Err("launch command is empty after tokenization"@)
    } else {
        Ok(words(s))
    }
}

proof fn lemma_trim_start_keeps(s: Seq<char>, j: int)
    requires
        0 <= j < s.len(),
        !is_ws(s[j]),
    ensures
        trim_start(s).contains(s[j]),
    decreases s.len(),
{
    if is_ws(s[0]) {
        assert(j > 0);
        assert(s.drop_first()[j - 1] == s[j]);
        lemma_trim_start_keeps(s.drop_first(), j - 1);
    } else {
        assert(trim_start(s)[j] == s[j]);
    }
}

proof fn lemma_trim_end_keeps(t: Seq<char>, c: char)
    requires
        t.contains(c),
        !is_ws(c),
    ensures
        trim_end(t).len() > 0,
    decreases t.len(),
{
    if is_ws(t.last()) {
        let k = choose|k: int| 0 <= k < t.len() && t[k] == c;
        assert(k < t.len() - 1);
        assert(t.drop_last()[k] == c);
        lemma_trim_end_keeps(t.drop_last(), c);
    }
}

/// A command with any quoting, a backtick or a command substitution is
/// never split into words for launching: it is refused as needing a shell,
/// whatever else it holds.
pub proof fn lemma_quoted_commands_are_refused(s: Seq<char>)
    ensures
        (s.contains('\'') || s.contains('"') || s.contains('`') || exists|i: int|
            occurs_at(s, "$("@, i)) ==> split_launch_spec(s) == Err::<Seq<Seq<char>>, Seq<char>>(
            "launch command requires unsupported shell parsing"@,
        ),
        split_launch_spec(s) matches Ok(argv) ==> argv.len() > 0 && !s.contains('\'')
            && !s.contains('"') && !s.contains('`'),
{
    reveal_strlit("$(");
    if s.contains('\'') || s.contains('"') || s.contains('`') || exists|i: int|
        occurs_at(s, "$("@, i) {
        let j = if s.contains('\'') {
            choose|k: int| 0 <= k < s.len() && s[k] == '\''
        } else if s.contains('"') {
            choose|k: int| 0 <= k < s.len() && s[k] == '"'
        } else if s.contains('`') {
            choose|k: int| 0 <= k < s.len() && s[k] == '`'
        } else {
            let i = choose|i: int| occurs_at(s, "$("@, i);
            assert(s.subrange(i, i + 2)[0] == s[i]);
            i
        };
        assert(!is_ws(s[j]));
        lemma_trim_start_keeps(s, j);
        lemma_trim_end_keeps(trim_start(s), s[j]);
    }
}

pub fn split_launch_command(command: &str) -> (r: Result<Vec<String>, String>)
    ensures
        r matches Ok(v) ==> split_launch_spec(command@) == Ok::<Seq<Seq<char>>, Seq<char>>(
            views(v@),
        ),
        r matches Err(e) ==> split_launch_spec(command@) == Err::<Seq<Seq<char>>, Seq<char>>(e@),
{
    let v = chars_of(command);
    let (lo, hi) = trim_chars(v.as_slice());
    if lo == hi {
        return Err("launch command is empty".to_owned());
    }
    let subst = chars_of("$(");
    if has_char(command, '"') || has_char(command, '\'') || contains_chars(
        v.as_slice(),
        subst.as_slice(),
    ) || has_char(command, '`') {
        return Err("launch command requires unsupported shell parsing".to_owned());
    }
    let argv = split_whitespace(command);
    if argv.len() == 0 {
        return Err("launch command is empty after tokenization".to_owned());
    }
    Ok(argv)
}

/// The launch specification for an RPC launch command: its first word is the
/// program, the rest are arguments, run with piped output, and the command
/// text is kept as the original command.
pub fn managed_launch_spec_from_command(exec_id: ExecutionId, command: &str) -> (r: Result<
    ManagedLaunchSpec,
    String,
>)
    ensures
        r matches Ok(spec) ==> (split_launch_spec(command@) matches Ok(w) && spec.program@ == w[0]
            && views(spec.args@) == w.drop_first() && spec.exec_id == exec_id && spec.mode
            == ExecutionMode::BatchPipes && spec.environment@.len() == 0
            && spec.original_command@ == command@),
        r matches Err(e) ==> split_launch_spec(command@) == Err::<Seq<Seq<char>>, Seq<char>>(e@),
{
    let mut argv = split_launch_command(command)?;
    if argv.len() == 0 {
        return Err("launch command is empty".to_owned());
    }
    let ghost all = views(argv@);
    let program = argv.remove(0);
    assert(views(argv@) =~= all.drop_first());
    Ok(
        ManagedLaunchSpec::new(exec_id, program, argv, ExecutionMode::BatchPipes).with_original_command(
            command,
        ),
    )
}


pub open spec fn append_error_text(e: AppendError) -> Seq<char> {
    match e {
        AppendError::Io(m) => "journal IO failed: "@ + m@,
        AppendError::Serialize(m) => "journal serialization failed: "@ + m@,
        AppendError::PayloadTooLarge => "journal payload exceeded u32 framing limit"@,
    }
}

pub open spec fn mode_name(mode: ExecutionMode) -> Seq<char> {
    match mode {
        ExecutionMode::BatchPipes => "BatchPipes"@,
        ExecutionMode::InteractivePty => "InteractivePty"@,
    }
}

pub open spec fn exec_error_text(e: ManagedExecError) -> Seq<char> {
    match e {
        ManagedExecError::UnsupportedExecutionMode { requested, reason } => "unsupported execution mode "@
            + mode_name(requested) + ": "@ + reason@,
        ManagedExecError::PolicyDenied { policy, reason } => "launch denied by "@ + policy@ + ": "@
            + reason@,
        ManagedExecError::Io(m) => "managed execution IO failed: "@ + m@,
        ManagedExecError::Journal(j) => "managed execution journal failed: "@ + append_error_text(j),
    }
}

pub open spec fn cleanup_error_text(e: ManagedCleanupError) -> Seq<char> {
    match e {
        ManagedCleanupError::Ownership(o) => "cleanup rejected: "@ + ownership_error_text(o),
        ManagedCleanupError::Io(m) => "cleanup IO failed: "@ + m@,
        ManagedCleanupError::Journal(j) => "cleanup journal failed: "@ + append_error_text(j),
        ManagedCleanupError::Timeout { process_group_id } => "cleanup timed out for managed process group "@
            + decimal(process_group_id as nat),
    }
}

impl AppendError {
    /// The error as it is displayed.
    pub fn message(&self) -> (r: String)
        ensures
            r@ == append_error_text(*self),
    {
        match self {
            AppendError::Io(m) => {
                let mut r = "journal IO failed: ".to_owned();
                r.append(m.as_str());
                r
            },
            AppendError::Serialize(m) => {
                let mut r = "journal serialization failed: ".to_owned();
                r.append(m.as_str());
                r
            },
            AppendError::PayloadTooLarge => "journal payload exceeded u32 framing limit".to_owned(),
        }
    }
}

impl ManagedExecError {
    /// The error as it is displayed.
    pub fn message(&self) -> (r: String)
        ensures
            r@ == exec_error_text(*self),
    {
        match self {
            ManagedExecError::UnsupportedExecutionMode { requested, reason } => {
                let mut r = "unsupported execution mode ".to_owned();
                match requested {
                    ExecutionMode::BatchPipes => r.append("BatchPipes"),
                    ExecutionMode::InteractivePty => r.append("InteractivePty"),
                }
                r.append(": ");
                r.append(reason.as_str());
                r
            },
            ManagedExecError::PolicyDenied { policy, reason } => {
                let mut r = "launch denied by ".to_owned();
                r.append(policy.as_str());
                r.append(": ");
                r.append(reason.as_str());
                r
            },
            ManagedExecError::Io(m) => {
                let mut r = "managed execution IO failed: ".to_owned();
                r.append(m.as_str());
                r
            },
            ManagedExecError::Journal(j) => {
                let mut r = "managed execution journal failed: ".to_owned();
                r.append(j.message().as_str());
                r
            },
        }
    }
}

impl ManagedCleanupError {
    /// The error as it is displayed.
    pub fn message(&self) -> (r: String)
        ensures
            r@ == cleanup_error_text(*self),
    {
        match self {
            ManagedCleanupError::Ownership(o) => {
                let mut r = "cleanup rejected: ".to_owned();
                r.append(o.message().as_str());
                r
            },
            ManagedCleanupError::Io(m) => {
                let mut r = "cleanup IO failed: ".to_owned();
                r.append(m.as_str());
                r
            },
            ManagedCleanupError::Journal(j) => {
                let mut r = "cleanup journal failed: ".to_owned();
                r.append(j.message().as_str());
                r
            },
            ManagedCleanupError::Timeout { process_group_id } => {
                let mut r = "cleanup timed out for managed process group ".to_owned();
                r.append(u64_to_string(*process_group_id as u64).as_str());
                r
            },
        }
    }
}

} // verus!
