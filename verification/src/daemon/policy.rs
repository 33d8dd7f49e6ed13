//! The rm safety policy: a direct `rm` of one plain operand is rewritten to
//! move the operand into a trash directory beside it; any other `rm` is
//! denied; every other command runs as requested.
//!
//! Resolving the operand on disk, probing mount points and picking a free
//! trash name are the caller's; the decisions around them are here.

use vstd::prelude::*;
use crate::contracts::ExecutionId;
use crate::daemon::launch::{LaunchPolicyOutcome, ManagedExecError, ManagedLaunchSpec, rendered};
use crate::paths::{join_path, path_join, path_name, path_parent, split_path};
use crate::text::{chars_of, owned, str_eq, u64_to_string, decimal, views};

verus! {

pub open spec fn policy_name() -> Seq<char> {
    "rm_safety_adapter"@
}

fn policy() -> (r: String)
    ensures
        r@ == policy_name(),
{
    owned("rm_safety_adapter")
}

/// The outcome of the policy for one launch.
#[derive(Debug)]
pub struct PolicyEvaluation {
    pub effective_spec: ManagedLaunchSpec,
    pub rewritten_command: Option<String>,
    pub outcome: LaunchPolicyOutcome,
}

pub open spec fn is_rm_flag_char(c: char) -> bool {
    c == 'r' || c == 'R' || c == 'f'
}

/// The flags the safe delete backend accepts: `--force`, `--recursive`, and
/// clusters of `-r`, `-R` and `-f`.
pub open spec fn rm_flag_allowed(flag: Seq<char>) -> bool {
    flag == "--force"@ || flag == "--recursive"@ || (flag.len() > 0 && flag[0] == '-' && !(
    flag.len() > 1 && flag[1] == '-') && forall|i: int|
        1 <= i < flag.len() ==> #[trigger] is_rm_flag_char(flag[i]))
}

pub open spec fn looks_like_flag(a: Seq<char>) -> bool {
    a.len() > 0 && a[0] == '-' && a != "-"@
}

/// The operands of an `rm` argument list, or the first flag it does not
/// accept. Flags come before the operands; `--` ends them; so does the first
/// word that is not a flag.
pub open spec fn rm_scan(args: Seq<Seq<char>>, parsing_flags: bool) -> Result<Seq<Seq<char>>, Seq<char>>
    decreases args.len(),
{
    if args.len() == 0 {
        Ok(Seq::<Seq<char>>::empty())
    } else {
        let a = args[0];
        let rest = args.drop_first();
        if parsing_flags && a == "--"@ {
            rm_scan(rest, false)
        } else if parsing_flags && looks_like_flag(a) {
            if rm_flag_allowed(a) {
                rm_scan(rest, true)
            } else {
                Err(a)
            }
        } else {
            match rm_scan(rest, false) {
                Ok(ops) => Ok(seq![a] + ops),
                Err(f) => Err(f),
            }
        }
    }
}

/// The long flags mean what their short forms mean: an `rm` argument list
/// that starts with `--recursive` scans exactly as one that starts with
/// `-r` (or `-R`), and `--force` exactly as `-f`, whatever follows; an
/// accepted flag only lets the scan go on to the rest.
pub proof fn lemma_long_rm_flags_match_short_ones(args: Seq<Seq<char>>)
    ensures
        rm_scan(seq!["--recursive"@] + args, true) == rm_scan(seq!["-r"@] + args, true),
        rm_scan(seq!["--force"@] + args, true) == rm_scan(seq!["-f"@] + args, true),
        rm_scan(seq!["-r"@] + args, true) == rm_scan(args, true),
        rm_scan(seq!["-R"@] + args, true) == rm_scan(seq!["-r"@] + args, true),
{
    reveal_strlit("--recursive");
    reveal_strlit("--force");
    reveal_strlit("-r");
    reveal_strlit("-f");
    reveal_strlit("--");
    reveal_strlit("-");
    assert((seq!["--recursive"@] + args).drop_first() =~= args);
    assert((seq!["--force"@] + args).drop_first() =~= args);
    assert((seq!["-r"@] + args).drop_first() =~= args);
    assert((seq!["-f"@] + args).drop_first() =~= args);
    assert((seq!["--recursive"@] + args)[0] == "--recursive"@);
    assert((seq!["--force"@] + args)[0] == "--force"@);
    assert((seq!["-r"@] + args)[0] == "-r"@);
    assert((seq!["-f"@] + args)[0] == "-f"@);
    assert("--recursive"@ != "--"@);
    assert("--force"@ != "--"@);
    assert("-r"@[1] != "--"@[1]);
    assert("-f"@[1] != "--"@[1]);
    assert("-r"@ != "-"@);
    assert("-f"@ != "-"@);
    assert("--recursive"@ != "-"@);
    assert("--force"@ != "-"@);
    assert(rm_flag_allowed("-r"@));
    assert(rm_flag_allowed("-f"@));
    reveal_strlit("-R");
    assert((seq!["-R"@] + args).drop_first() =~= args);
    assert((seq!["-R"@] + args)[0] == "-R"@);
    assert("-R"@[1] != "--"@[1]);
    assert("-R"@ != "-"@);
    assert(rm_flag_allowed("-R"@));
}

pub open spec fn flag_reason(flag: Seq<char>) -> Seq<char> {
    "rm flag "@ + flag + " is not supported by the safe delete adapter"@
}

pub open spec fn denied_error(e: ManagedExecError, reason: Seq<char>) -> bool {
    e matches ManagedExecError::PolicyDenied { policy, reason: r } && policy@ == policy_name() && r@
        == reason
}

pub open spec fn rm_operands_spec(args: Seq<Seq<char>>) -> Result<Seq<Seq<char>>, Seq<char>> {
    match rm_scan(args, true) {
        Ok(ops) => if ops.len() == 0 {
            Err("rm command did not include any operands"@)
        } else {
            Ok(ops)
        },
        Err(flag) => Err(flag_reason(flag)),
    }
}

fn is_flag_char(c: char) -> (r: bool)
    ensures
        r == is_rm_flag_char(c),
{
    c == 'r' || c == 'R' || c == 'f'
}

/// Accepts the flags that the safe delete backend can honour.
pub fn validate_rm_flag(flag: &str) -> (r: Result<(), ManagedExecError>)
    ensures
        r is Ok <==> rm_flag_allowed(flag@),
        r matches Err(e) ==> denied_error(e, flag_reason(flag@)),
{
    let v = chars_of(flag);
    let mut allowed = str_eq(flag, "--force") || str_eq(flag, "--recursive");
    if !allowed && v.len() > 0 && v[0] == '-' && !(v.len() > 1 && v[1] == '-') {
        let mut i: usize = 1;
        let mut all = true;
        while i < v.len()
            invariant
                v@ == flag@,
                1 <= i <= v@.len(),
                all == forall|k: int| 1 <= k < i ==> #[trigger] is_rm_flag_char(flag@[k]),
            decreases v.len() - i,
        {
            if !is_flag_char(v[i]) {
                all = false;
            }
            i = i + 1;
        }
        allowed = all;
    }
    if allowed {
        Ok(())
    } else {
        let mut reason = owned("rm flag ");
        reason.append(flag);
        reason.append(" is not supported by the safe delete adapter");
        Err(ManagedExecError::PolicyDenied { policy: policy(), reason })
    }
}

proof fn lemma_rm_scan_after_flags(args: Seq<Seq<char>>)
    ensures
        rm_scan(args, false) == Ok::<Seq<Seq<char>>, Seq<char>>(args),
    decreases args.len(),
{
    if args.len() > 0 {
        lemma_rm_scan_after_flags(args.drop_first());
        assert(seq![args[0]] + args.drop_first() =~= args);
        assert(rm_scan(args, false) == (match rm_scan(args.drop_first(), false) {
            Ok(ops) => Ok(seq![args[0]] + ops),
            Err(f) => Err::<Seq<Seq<char>>, Seq<char>>(f),
        }));
    } else {
        assert(args =~= Seq::<Seq<char>>::empty());
    }
}

/// The operands of an `rm` argument list.
pub fn parse_rm_operands(args: &Vec<String>) -> (r: Result<Vec<String>, ManagedExecError>)
    ensures
        match rm_operands_spec(views(args@)) {
            Ok(ops) => r matches Ok(v) && views(v@) == ops,
            Err(reason) => r matches Err(e) && denied_error(e, reason),
        },
{
    let ghost all = views(args@);
    let mut operands: Vec<String> = Vec::new();
    let mut parsing_flags = true;
    let mut i: usize = 0;
    assert(all.skip(0) =~= all);
    while i < args.len()
        invariant
            all == views(args@),
            i <= args@.len(),
            !parsing_flags ==> rm_scan(all.skip(i as int), false) == Ok::<Seq<Seq<char>>, Seq<char>>(all.skip(i as int)),
            match rm_scan(all, true) {
                Ok(ops) => rm_scan(all.skip(i as int), parsing_flags) matches Ok(rest) && ops
                    == views(operands@) + rest,
                Err(f) => rm_scan(all.skip(i as int), parsing_flags) == Err::<
                    Seq<Seq<char>>,
                    Seq<char>,
                >(f),
            },
        decreases args.len() - i,
    {
        let ghost tail = all.skip(i as int);
        assert(tail[0] == args@[i as int]@);
        assert(tail.drop_first() =~= all.skip(i + 1));
        let arg = &args[i];
        if parsing_flags {
            if str_eq(arg.as_str(), "--") {
                parsing_flags = false;
                proof { lemma_rm_scan_after_flags(all.skip(i + 1)); }
                i = i + 1;
                continue;
            }
            let n = arg.unicode_len();
            let is_flag = n > 0 && arg.as_str().get_char(0) == '-' && !str_eq(arg.as_str(), "-");
            if is_flag {
                match validate_rm_flag(arg.as_str()) {
                    Ok(()) => {},
                    Err(e) => {
                        return Err(e);
                    },
                }
                i = i + 1;
                continue;
            }
            parsing_flags = false;
            proof { lemma_rm_scan_after_flags(all.skip(i as int)); }
        }
        let ghost before = operands@;
        operands.push(arg.clone());
        proof {
            lemma_rm_scan_after_flags(all.skip(i + 1));
            assert(views(operands@) =~= views(before).push(arg@));
            match rm_scan(all, true) {
                Ok(ops) => {
                    assert(ops =~= views(operands@) + all.skip(i + 1));
                },
                Err(_) => {},
            }
        }
        i = i + 1;
    }
    assert(all.skip(args@.len() as int) =~= Seq::<Seq<char>>::empty());
    proof {
        match rm_scan(all, true) {
            Ok(ops) => assert(ops =~= views(operands@)),
            Err(_) => {},
        }
    }
    if operands.len() == 0 {
        return Err(
            ManagedExecError::PolicyDenied {
                policy: policy(),
                reason: owned("rm command did not include any operands"),
            },
        );
    }
    Ok(operands)
}

pub open spec fn is_ambiguous_char(c: char) -> bool {
    c == '*' || c == '?' || c == '[' || c == ']' || c == '{' || c == '}' || c == '~' || c == '$'
        || c == '(' || c == ')' || c == '|' || c == '&' || c == ';' || c == '<' || c == '>' || c
        == '`' || c == '\n' || c == '\r'
}

/// Operands with shell metacharacters: what they name depends on a shell.
pub open spec fn has_ambiguous_syntax(s: Seq<char>) -> bool {
    exists|i: int| 0 <= i < s.len() && #[trigger] is_ambiguous_char(s[i])
}

pub fn contains_ambiguous_shell_syntax(operand: &str) -> (r: bool)
    ensures
        r == has_ambiguous_syntax(operand@),
{
    let v = chars_of(operand);
    let mut i: usize = 0;
    while i < v.len()
        invariant
            v@ == operand@,
            i <= v@.len(),
            forall|k: int| 0 <= k < i ==> !#[trigger] is_ambiguous_char(operand@[k]),
        decreases v.len() - i,
    {
        let c = v[i];
        if c == '*' || c == '?' || c == '[' || c == ']' || c == '{' || c == '}' || c == '~' || c
            == '$' || c == '(' || c == ')' || c == '|' || c == '&' || c == ';' || c == '<' || c
            == '>' || c == '`' || c == '\n' || c == '\r' {
            assert(is_ambiguous_char(operand@[i as int]));
            return true;
        }
        i = i + 1;
    }
    false
}

/// The launch denied, with the reason.
pub fn deny_rm(spec: ManagedLaunchSpec, reason: String) -> (r: PolicyEvaluation)
    ensures
        r.effective_spec == spec,
        r.rewritten_command is None,
        outcome_is(r.outcome, LaunchPolicyKind::Denied, reason@),
{
    PolicyEvaluation {
        effective_spec: spec,
        rewritten_command: None,
        outcome: LaunchPolicyOutcome::Denied { policy: policy(), reason },
    }
}

/// What the policy decides before the operand is looked up on disk.
#[derive(Debug)]
pub enum PolicyStep {
    /// The policy is done.
    Decided(PolicyEvaluation),
    /// The single operand must be resolved to its canonical path; the rest of
    /// the decision is `finish_rm_policy`'s.
    Resolve { spec: ManagedLaunchSpec, operand: String },
}

/// The error of a launch whose single operand could not be resolved to a
/// canonical path; `reason` says why.
pub fn operand_unresolved(reason: String) -> (r: ManagedExecError)
    ensures
        r matches ManagedExecError::PolicyDenied { policy: p, reason: why } && p@ == policy_name()
            && why == reason,
{
    ManagedExecError::PolicyDenied { policy: policy(), reason }
}

/// The three outcomes of the policy.
#[derive(Debug, Clone, Copy, PartialEq, Eq, Structural)]
pub enum LaunchPolicyKind {
    Allowed,
    Rewritten,
    Denied,
}

/// `o` is an outcome of this policy of the given kind, with the given reason.
pub open spec fn outcome_is(o: LaunchPolicyOutcome, kind: LaunchPolicyKind, why: Seq<char>) -> bool {
    match o {
        LaunchPolicyOutcome::AllowedAsRequested { policy, reason } => kind == LaunchPolicyKind::Allowed
            && policy@ == policy_name() && reason@ == why,
        LaunchPolicyOutcome::Rewritten { policy, reason } => kind == LaunchPolicyKind::Rewritten
            && policy@ == policy_name() && reason@ == why,
        LaunchPolicyOutcome::Denied { policy, reason } => kind == LaunchPolicyKind::Denied
            && policy@ == policy_name() && reason@ == why,
    }
}

/// The policy decided, leaving the launch as requested.
pub open spec fn decided(
    r: Result<PolicyStep, ManagedExecError>,
    spec: ManagedLaunchSpec,
    kind: LaunchPolicyKind,
    why: Seq<char>,
) -> bool {
    match r {
        Ok(PolicyStep::Decided(ev)) => ev.effective_spec == spec && ev.rewritten_command is None
            && outcome_is(ev.outcome, kind, why),
        _ => false,
    }
}

/// Whether a program path names `rm`.
pub open spec fn is_rm_program(program: Seq<char>) -> bool {
    path_name(program) == "rm"@
}

pub open spec fn ops_reason_single() -> Seq<char> {
    "rm safe delete backend only supports exactly one deterministic operand"@
}

pub open spec fn ambiguous_reason(operand: Seq<char>) -> Seq<char> {
    "operand "@ + operand + " contains ambiguous shell metacharacters"@
}

/// The policy up to the lookup of the operand: a command that is not `rm`
/// runs as requested; `rm` with a flag it does not accept or without an
/// operand fails; `rm` with more than one operand, or with shell
/// metacharacters in its operand, is denied.
pub fn evaluate_launch_policy(spec: ManagedLaunchSpec) -> (r: Result<PolicyStep, ManagedExecError>)
    ensures
        !is_rm_program(spec.program@) ==> decided(
            r,
            spec,
            LaunchPolicyKind::Allowed,
            "command is not a direct rm invocation"@,
        ),
        is_rm_program(spec.program@) ==> match rm_operands_spec(views(spec.args@)) {
            Err(reason) => r matches Err(e) && denied_error(e, reason),
            Ok(ops) => if ops.len() != 1 {
                decided(r, spec, LaunchPolicyKind::Denied, ops_reason_single())
            } else if has_ambiguous_syntax(ops[0]) {
                decided(r, spec, LaunchPolicyKind::Denied, ambiguous_reason(ops[0]))
            } else {
                r matches Ok(PolicyStep::Resolve { spec: s, operand }) && s == spec && operand@
                    == ops[0]
            },
        },
{
    let (_, name) = split_path(spec.program.as_str());
    if !str_eq(name.as_str(), "rm") {
        return Ok(
            PolicyStep::Decided(
                PolicyEvaluation {
                    effective_spec: spec,
                    rewritten_command: None,
                    outcome: LaunchPolicyOutcome::AllowedAsRequested {
                        policy: policy(),
                        reason: owned("command is not a direct rm invocation"),
                    },
                },
            ),
        );
    }
    let operands = match parse_rm_operands(&spec.args) {
        Ok(ops) => ops,
        Err(e) => return Err(e),
    };
    if operands.len() != 1 {
        return Ok(
            PolicyStep::Decided(
                deny_rm(
                    spec,
                    owned("rm safe delete backend only supports exactly one deterministic operand"),
                ),
            ),
        );
    }
    let operand = operands[0].clone();
    assert(operand@ == views(operands@)[0]);
    if contains_ambiguous_shell_syntax(operand.as_str()) {
        let mut reason = owned("operand ");
        reason.append(operand.as_str());
        reason.append(" contains ambiguous shell metacharacters");
        return Ok(PolicyStep::Decided(deny_rm(spec, reason)));
    }
    Ok(PolicyStep::Resolve { spec, operand })
}

/// Whether `ancestor` is `path` or a directory above it; paths are taken in
/// normal form, without `.` or `..` components, repeated or trailing `/`.
pub open spec fn is_ancestor_or_same(ancestor: Seq<char>, path: Seq<char>) -> bool {
    path == ancestor || (ancestor == "/"@ && path.len() > 0 && path[0] == '/') || (ancestor
        + "/"@).is_prefix_of(path)
}

/// Paths that the policy never moves: the root, mount points, and every
/// protected path and directory above one.
pub open spec fn is_protected_spec(path: Seq<char>, is_mount_point: bool, protected: Seq<Seq<char>>) -> bool {
    path == "/"@ || is_mount_point || exists|i: int|
        0 <= i < protected.len() && is_ancestor_or_same(path, #[trigger] protected[i])
}

fn ancestor_or_same(ancestor: &str, path: &str) -> (r: bool)
    ensures
        r == is_ancestor_or_same(ancestor@, path@),
{
    if str_eq(path, ancestor) {
        return true;
    }
    if str_eq(ancestor, "/") {
        let n = path.unicode_len();
        proof {
            reveal_strlit("/");
            if ("/"@ + "/"@).is_prefix_of(path@) {
                assert(path@[0] == ("/"@ + "/"@)[0]);
            }
        }
        return n > 0 && path.get_char(0) == '/';
    }
    let mut prefix = owned(ancestor);
    prefix.append("/");
    crate::text::starts_with(path, prefix.as_str())
}

/// Whether the resolved operand is protected; `protected` are the paths
/// that must survive (the root, the home directory, the repository).
pub fn is_protected_path(path: &str, is_mount_point: bool, protected: &Vec<String>) -> (r: bool)
    ensures
        r == is_protected_spec(path@, is_mount_point, views(protected@)),
{
    if str_eq(path, "/") || is_mount_point {
        return true;
    }
    let mut i: usize = 0;
    while i < protected.len()
        invariant
            i <= protected@.len(),
            forall|k: int| 0 <= k < i ==> !is_ancestor_or_same(path@, #[trigger] views(protected@)[k]),
        decreases protected.len() - i,
    {
        if ancestor_or_same(path, protected[i].as_str()) {
            assert(is_ancestor_or_same(path@, views(protected@)[i as int]));
            return true;
        }
        i = i + 1;
    }
    false
}

pub open spec fn protected_reason(resolved: Seq<char>) -> Seq<char> {
    "resolved operand "@ + resolved + " targets a protected path"@
}

/// Where a safe delete puts its operand: the trash directory beside it, and
/// the name of the operand.
pub open spec fn trash_location(resolved: Seq<char>) -> Result<(Seq<char>, Seq<char>), Seq<char>> {
    if resolved.len() == 0 || resolved == "/"@ {
        Err("resolved operand "@ + resolved + " has no parent directory"@)
    } else if path_name(resolved).len() == 0 || path_name(resolved) == ".."@ {
        Err("resolved operand "@ + resolved + " has no terminal path segment"@)
    } else {
        Ok((path_join(path_parent(resolved), ".execmanager-trash"@), path_name(resolved)))
    }
}

pub fn trash_location_for(resolved: &str) -> (r: Result<(String, String), ManagedExecError>)
    ensures
        match trash_location(resolved@) {
            Ok((dir, name)) => r matches Ok((d, n)) && d@ == dir && n@ == name,
            Err(reason) => r matches Err(e) && denied_error(e, reason),
        },
{
    if resolved.unicode_len() == 0 || str_eq(resolved, "/") {
        let mut reason = owned("resolved operand ");
        reason.append(resolved);
        reason.append(" has no parent directory");
        return Err(ManagedExecError::PolicyDenied { policy: policy(), reason });
    }
    let (parent, name) = split_path(resolved);
    if name.unicode_len() == 0 || str_eq(name.as_str(), "..") {
        let mut reason = owned("resolved operand ");
        reason.append(resolved);
        reason.append(" has no terminal path segment");
        return Err(ManagedExecError::PolicyDenied { policy: policy(), reason });
    }
    Ok((join_path(parent.as_str(), ".execmanager-trash"), name))
}

pub open spec fn trash_name_text(exec_id: Seq<char>, file_name: Seq<char>, suffix: u32) -> Seq<char> {
    if suffix == 0 {
        exec_id + "-"@ + file_name
    } else {
        exec_id + "-"@ + file_name + "-"@ + decimal(suffix as nat)
    }
}

/// The `suffix`-th candidate path in the trash directory: the first is
/// `<exec id>-<name>`, the later ones end in `-1`, `-2`, and so on.
pub fn trash_destination(trash_dir: &str, exec_id: &ExecutionId, file_name: &str, suffix: u32) -> (r:
    String)
    ensures
        r@ == path_join(trash_dir@, trash_name_text(exec_id@, file_name@, suffix)),
{
    let mut name = owned(exec_id.as_str());
    name.append("-");
    name.append(file_name);
    if suffix != 0 {
        name.append("-");
        name.append(u64_to_string(suffix as u64).as_str());
    }
    join_path(trash_dir, name.as_str())
}

pub open spec fn rewrite_reason() -> Seq<char> {
    "direct rm operand was deterministically rewritten to safe delete"@
}

/// The rest of the policy, once the operand is resolved to `resolved`:
/// protected paths are denied, anything else is moved to `destination`.
pub fn finish_rm_policy(
    spec: ManagedLaunchSpec,
    resolved: &str,
    is_protected: bool,
    destination: &str,
) -> (r: PolicyEvaluation)
    ensures
        is_protected ==> r.effective_spec == spec && r.rewritten_command is None && outcome_is(
            r.outcome,
            LaunchPolicyKind::Denied,
            protected_reason(resolved@),
        ),
        !is_protected ==> {
            &&& r.effective_spec.exec_id == spec.exec_id
            &&& r.effective_spec.program@ == "/bin/mv"@
            &&& views(r.effective_spec.args@) == seq!["--"@, resolved@, destination@]
            &&& r.effective_spec.environment@.len() == 0
            &&& r.effective_spec.mode == spec.mode
            &&& r.effective_spec.original_command == spec.original_command
            &&& r.rewritten_command matches Some(c) && c@ == rendered(
                "/bin/mv"@,
                seq!["--"@, resolved@, destination@],
            )
            &&& outcome_is(r.outcome, LaunchPolicyKind::Rewritten, rewrite_reason())
        },
{
    if is_protected {
        let mut reason = owned("resolved operand ");
        reason.append(resolved);
        reason.append(" targets a protected path");
        return deny_rm(spec, reason);
    }
    let mut args: Vec<String> = Vec::new();
    args.push(owned("--"));
    args.push(owned(resolved));
    args.push(owned(destination));
    assert(views(args@) =~= seq!["--"@, resolved@, destination@]);
    let ManagedLaunchSpec { exec_id, program: _, args: _, environment: _, mode, original_command } =
        spec;
    let mut rewritten = ManagedLaunchSpec::new(exec_id, owned("/bin/mv"), args, mode);
    rewritten.original_command = original_command;
    let command = rewritten.rendered_command();
    PolicyEvaluation {
        effective_spec: rewritten,
        rewritten_command: Some(command),
        outcome: LaunchPolicyOutcome::Rewritten {
            policy: policy(),
            reason: owned("direct rm operand was deterministically rewritten to safe delete"),
        },
    }
}

} // verus!
