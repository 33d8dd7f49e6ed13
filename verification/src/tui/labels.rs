//! The texts the dashboard shows for an execution: its command, where it
//! runs, how long it has run, how loaded it is, and its recent output.

use vstd::prelude::*;
use crate::contracts::ProjectionState;
use crate::daemon::journal::JournalEvent;
use crate::daemon::launch::{LaunchPolicyOutcome, LifecycleStage};
use crate::daemon::records::EnvironmentEntryRecord;
use crate::daemon::views::ExecutionModel;
use crate::parse::{digit_value, is_digit, parse_u64_chars, parse_u64_spec, words_of};
use crate::platform::{GovernanceCapability, GovernanceSnapshot};
use crate::text::{chars_of, decimal, owned, push_char, str_eq, string_from_chars, u64_to_string, words};
use crate::tui::model::PressureLevel;

verus! {

/// The command as a row title: at most 48 characters, cut with an ellipsis.
pub open spec fn summary_text(command: Seq<char>) -> Seq<char> {
    if command.len() <= 48 {
        command
    } else {
        command.take(47).push('…')
    }
}

pub fn summarize_command(command: &str) -> (r: String)
    ensures
        r@ == summary_text(command@),
{
    let v = chars_of(command);
    if v.len() <= 48 {
        return owned(command);
    }
    let mut s = string_from_chars(v.as_slice(), 0, 47);
    push_char(&mut s, '…');
    assert(v@.subrange(0, 47) =~= command@.take(47));
    s
}

/// A path as a label: at most 32 characters, keeping its end.
pub open spec fn abbreviated_text(path: Seq<char>) -> Seq<char> {
    if path.len() <= 32 {
        path
    } else {
        seq!['…'] + path.skip(path.len() - 31)
    }
}

pub fn abbreviate_path(path: &str) -> (r: String)
    ensures
        r@ == abbreviated_text(path@),
{
    let v = chars_of(path);
    if v.len() <= 32 {
        return owned(path);
    }
    let mut s = String::new();
    push_char(&mut s, '…');
    let tail = string_from_chars(v.as_slice(), v.len() - 31, v.len());
    s.append(tail.as_str());
    assert(v@.subrange(v@.len() - 31, v@.len() as int) =~= path@.skip(path@.len() - 31));
    s
}

/// A duration in whole seconds as `1h 2m`, `3m 4s` or `5s`.
pub open spec fn duration_text(secs: u64) -> Seq<char> {
    let hours = secs / 3600;
    let minutes = (secs % 3600) / 60;
    let seconds = secs % 60;
    if hours > 0 {
        decimal(hours as nat) + "h "@ + decimal(minutes as nat) + "m"@
    } else if minutes > 0 {
        decimal(minutes as nat) + "m "@ + decimal(seconds as nat) + "s"@
    } else {
        decimal(seconds as nat) + "s"@
    }
}

pub fn format_duration(secs: u64) -> (r: String)
    ensures
        r@ == duration_text(secs),
{
    let hours = secs / 3600;
    let minutes = (secs % 3600) / 60;
    let seconds = secs % 60;
    if hours > 0 {
        let mut r = u64_to_string(hours);
        r.append("h ");
        r.append(u64_to_string(minutes).as_str());
        r.append("m");
        r
    } else if minutes > 0 {
        let mut r = u64_to_string(minutes);
        r.append("m ");
        r.append(u64_to_string(seconds).as_str());
        r.append("s");
        r
    } else {
        let mut r = u64_to_string(seconds);
        r.append("s");
        r
    }
}

/// The system clock that a process start time is measured against: the
/// clock ticks per second and the time since boot, in hundredths of a second.
#[derive(Debug, Clone, Copy, PartialEq, Eq, Structural)]
pub struct UptimeClock {
    pub ticks_per_second: u64,
    pub uptime_centis: u64,
}

/// How long a process that started `start_ticks` clock ticks after boot has
/// run, in whole seconds (none before it started).
pub open spec fn runtime_secs(start_ticks: u64, clock: UptimeClock) -> int {
    let now = clock.uptime_centis * clock.ticks_per_second;
    let start = start_ticks * 100;
    if now >= start {
        (now - start) / (100 * clock.ticks_per_second)
    } else {
        0
    }
}

pub open spec fn runtime_text(start_ticks: u64, clock: Option<UptimeClock>) -> Option<Seq<char>> {
    match clock {
        Some(c) => if c.ticks_per_second == 0 {
            None
        } else {
            Some(duration_text(runtime_secs(start_ticks, c) as u64))
        },
        None => None,
    }
}

/// How long the process has run, where the clock is known.
pub fn runtime_from_start_ticks(start_ticks: u64, clock: Option<UptimeClock>) -> (r: Option<String>)
    ensures
        match (r, runtime_text(start_ticks, clock)) {
            (Some(s), Some(t)) => s@ == t,
            (None, None) => true,
            _ => false,
        },
{
    match clock {
        Some(c) => {
            if c.ticks_per_second == 0 {
                return None;
            }
            proof {
                let a = c.uptime_centis as u128;
                let b = c.ticks_per_second as u128;
                assert(a * b <= u128::MAX) by (nonlinear_arith)
                    requires
                        a <= u64::MAX,
                        b <= u64::MAX,
                ;
            }
            let now: u128 = (c.uptime_centis as u128) * (c.ticks_per_second as u128);
            let start: u128 = (start_ticks as u128) * 100;
            let secs: u128 = if now >= start {
                (now - start) / (100 * (c.ticks_per_second as u128))
            } else {
                0
            };
            proof {
                assert(now == c.uptime_centis * c.ticks_per_second);
                assert(secs <= now) by (nonlinear_arith)
                    requires
                        c.ticks_per_second > 0,
                        now >= start ==> secs == (now - start) / (100 * (c.ticks_per_second as u128)),
                        now < start ==> secs == 0,
                ;
                assert(secs <= c.uptime_centis) by (nonlinear_arith)
                    requires
                        c.ticks_per_second > 0,
                        now == c.uptime_centis * c.ticks_per_second,
                        now >= start ==> secs == (now - start) / (100 * (c.ticks_per_second as u128)),
                        now < start ==> secs == 0,
                ;
            }
            Some(format_duration(secs as u64))
        },
        None => None,
    }
}

/// The time since boot in `/proc/uptime`'s first field, written by the
/// kernel as `<seconds>.<hundredths>`, in hundredths of a second.
pub open spec fn uptime_centis_spec(text: Seq<char>) -> Option<u64> {
    let ws = words(text);
    if ws.len() == 0 {
        None
    } else {
        let w = ws[0];
        let dot = w.len() - 3;
        if w.len() >= 4 && w[dot] == '.' && is_digit(w[dot + 1]) && is_digit(w[dot + 2]) {
            match parse_u64_spec(w.take(dot)) {
                Some(secs) => {
                    let centis = secs * 100 + digit_value(w[dot + 1]) * 10 + digit_value(w[dot + 2]);
                    if centis <= u64::MAX {
                        Some(centis as u64)
                    } else {
                        None
                    }
                },
                None => None,
            }
        } else {
            None
        }
    }
}

pub fn parse_uptime_centis(text: &str) -> (r: Option<u64>)
    ensures
        r == uptime_centis_spec(text@),
{
    let ws = words_of(text);
    if ws.len() == 0 {
        return None;
    }
    let w = chars_of(ws[0].as_str());
    assert(w@ == words(text@)[0]);
    let n = w.len();
    if n < 4 || w[n - 3] != '.' {
        return None;
    }
    let d1 = w[n - 2];
    let d2 = w[n - 1];
    if !('0' <= d1 && d1 <= '9' && '0' <= d2 && d2 <= '9') {
        return None;
    }
    let secs = match parse_u64_chars(w.as_slice(), 0, n - 3) {
        Some(v) => v,
        None => {
            assert(w@.subrange(0, n - 3) =~= w@.take(n - 3));
            return None;
        },
    };
    assert(w@.subrange(0, n - 3) =~= w@.take(n - 3));
    let frac: u64 = ((d1 as u32 - '0' as u32) * 10 + (d2 as u32 - '0' as u32)) as u64;
    if secs > (u64::MAX - frac) / 100 {
        proof {
            assert(secs * 100 + frac > u64::MAX) by (nonlinear_arith)
                requires
                    secs > (u64::MAX - frac) / 100,
                    frac <= 99,
            ;
        }
        return None;
    }
    proof {
        assert(secs * 100 + frac <= u64::MAX) by (nonlinear_arith)
            requires
                secs <= (u64::MAX - frac) / 100,
                frac <= 99,
        ;
    }
    Some(secs * 100 + frac)
}

pub open spec fn pressure_spec(governance: Option<GovernanceSnapshot>) -> PressureLevel {
    match governance {
        None => PressureLevel::Unknown,
        Some(g) => {
            let memory: int = match g.current.memory_current_bytes {
                Some(m) => m as int,
                None => 0,
            };
            let cpu: int = match g.current.cpu_usage_micros {
                Some(c) => c as int,
                None => 0,
            };
            if g.enforcement_triggered {
                PressureLevel::Constrained
            } else if memory >= 512 * 1024 * 1024 || cpu >= 200_000 {
                PressureLevel::Constrained
            } else if memory >= 128 * 1024 * 1024 || cpu >= 50_000 {
                PressureLevel::Elevated
            } else {
                PressureLevel::Healthy
            }
        },
    }
}

/// How loaded an execution is, from its last resource observation.
pub fn pressure_level(governance: &Option<GovernanceSnapshot>) -> (r: PressureLevel)
    ensures
        r == pressure_spec(*governance),
{
    match governance {
        None => PressureLevel::Unknown,
        Some(g) => {
            if g.enforcement_triggered {
                return PressureLevel::Constrained;
            }
            let memory: u64 = match g.current.memory_current_bytes {
                Some(m) => m,
                None => 0,
            };
            let cpu: u64 = match g.current.cpu_usage_micros {
                Some(c) => c,
                None => 0,
            };
            if memory >= 512 * 1024 * 1024 || cpu >= 200_000 {
                PressureLevel::Constrained
            } else if memory >= 128 * 1024 * 1024 || cpu >= 50_000 {
                PressureLevel::Elevated
            } else {
                PressureLevel::Healthy
            }
        },
    }
}

pub open spec fn count_or_na(value: Option<u64>) -> Seq<char> {
    match value {
        Some(v) => decimal(v as nat),
        None => "n/a"@,
    }
}

pub fn count_label(value: Option<u64>) -> (r: String)
    ensures
        r@ == count_or_na(value),
{
    match value {
        Some(v) => u64_to_string(v),
        None => owned("n/a"),
    }
}

pub open spec fn memory_current_text(g: Option<GovernanceSnapshot>) -> Seq<char> {
    match g {
        Some(s) => count_or_na(s.current.memory_current_bytes),
        None => "n/a"@,
    }
}

pub open spec fn memory_peak_text(g: Option<GovernanceSnapshot>) -> Seq<char> {
    match g {
        Some(s) => count_or_na(s.recent_peak.memory_peak_bytes),
        None => "n/a"@,
    }
}

pub open spec fn cpu_usage_text(g: Option<GovernanceSnapshot>) -> Seq<char> {
    match g {
        Some(s) => match s.current.cpu_usage_micros {
            Some(c) => decimal(c as nat) + "µs"@,
            None => "n/a"@,
        },
        None => "n/a"@,
    }
}

pub fn memory_current_label(g: &Option<GovernanceSnapshot>) -> (r: String)
    ensures
        r@ == memory_current_text(*g),
{
    match g {
        Some(s) => count_label(s.current.memory_current_bytes),
        None => owned("n/a"),
    }
}

pub fn memory_peak_label(g: &Option<GovernanceSnapshot>) -> (r: String)
    ensures
        r@ == memory_peak_text(*g),
{
    match g {
        Some(s) => count_label(s.recent_peak.memory_peak_bytes),
        None => owned("n/a"),
    }
}

pub fn cpu_usage_label(g: &Option<GovernanceSnapshot>) -> (r: String)
    ensures
        r@ == cpu_usage_text(*g),
{
    match g {
        Some(s) => match s.current.cpu_usage_micros {
            Some(c) => {
                let mut r = u64_to_string(c);
                r.append("µs");
                r
            },
            None => owned("n/a"),
        },
        None => owned("n/a"),
    }
}

pub open spec fn governance_text(g: Option<GovernanceSnapshot>) -> Seq<char> {
    match g {
        None => "unknown"@,
        Some(s) => if s.enforcement_triggered {
            "constrained"@
        } else {
            match s.capability {
                GovernanceCapability::FullyEnforced => "fully_enforced"@,
                GovernanceCapability::PartiallyEnforced => "partially_enforced"@,
                GovernanceCapability::ObservableOnly => "observable_only"@,
                GovernanceCapability::Unavailable => "unavailable"@,
            }
        },
    }
}

pub fn governance_label(g: &Option<GovernanceSnapshot>) -> (r: String)
    ensures
        r@ == governance_text(*g),
{
    match g {
        None => owned("unknown"),
        Some(s) => {
            if s.enforcement_triggered {
                owned("constrained")
            } else {
                match s.capability {
                    GovernanceCapability::FullyEnforced => owned("fully_enforced"),
                    GovernanceCapability::PartiallyEnforced => owned("partially_enforced"),
                    GovernanceCapability::ObservableOnly => owned("observable_only"),
                    GovernanceCapability::Unavailable => owned("unavailable"),
                }
            }
        },
    }
}

pub open spec fn policy_text(outcome: Option<LaunchPolicyOutcome>) -> Seq<char> {
    match outcome {
        None => "none recorded"@,
        Some(LaunchPolicyOutcome::AllowedAsRequested { policy, .. }) => "allowed_as_requested by "@
            + policy@,
        Some(LaunchPolicyOutcome::Rewritten { policy, .. }) => "rewritten by "@ + policy@,
        Some(LaunchPolicyOutcome::Denied { policy, .. }) => "denied by "@ + policy@,
    }
}

pub fn policy_summary(outcome: &Option<LaunchPolicyOutcome>) -> (r: String)
    ensures
        r@ == policy_text(*outcome),
{
    match outcome {
        None => owned("none recorded"),
        Some(LaunchPolicyOutcome::AllowedAsRequested { policy, .. }) => {
            let mut r = owned("allowed_as_requested by ");
            r.append(policy.as_str());
            r
        },
        Some(LaunchPolicyOutcome::Rewritten { policy, .. }) => {
            let mut r = owned("rewritten by ");
            r.append(policy.as_str());
            r
        },
        Some(LaunchPolicyOutcome::Denied { policy, .. }) => {
            let mut r = owned("denied by ");
            r.append(policy.as_str());
            r
        },
    }
}

/// Observation is degraded where enforcement is less than full or has gaps.
pub open spec fn observability_degraded(g: GovernanceSnapshot) -> bool {
    g.capability != GovernanceCapability::FullyEnforced || g.enforcement_gaps@.len() > 0
}

pub fn is_observability_degraded(g: &GovernanceSnapshot) -> (r: bool)
    ensures
        r == observability_degraded(*g),
{
    let full = match g.capability {
        GovernanceCapability::FullyEnforced => true,
        _ => false,
    };
    !full || g.enforcement_gaps.len() > 0
}

/// An execution counts as running until its effective or observed state, or
/// its lifecycle, says it exited.
pub open spec fn running_spec(e: ExecutionModel) -> bool {
    e.state != ProjectionState::Exited && e.observed_state != ProjectionState::Exited
        && !e.lifecycle.contains(LifecycleStage::Exited)
}

pub fn is_running(
    state: ProjectionState,
    observed_state: ProjectionState,
    lifecycle: &Vec<LifecycleStage>,
) -> (r: bool)
    ensures
        r == (state != ProjectionState::Exited && observed_state != ProjectionState::Exited
            && !lifecycle@.contains(LifecycleStage::Exited)),
{
    let exited_state = match state {
        ProjectionState::Exited => true,
        _ => false,
    };
    let exited_observed = match observed_state {
        ProjectionState::Exited => true,
        _ => false,
    };
    if exited_state || exited_observed {
        return false;
    }
    let mut i: usize = 0;
    while i < lifecycle.len()
        invariant
            i <= lifecycle@.len(),
            forall|k: int| 0 <= k < i ==> lifecycle@[k] != LifecycleStage::Exited,
        decreases lifecycle.len() - i,
    {
        let exited = match lifecycle[i] {
            LifecycleStage::Exited => true,
            _ => false,
        };
        if exited {
            assert(lifecycle@[i as int] == LifecycleStage::Exited);
            return false;
        }
        i = i + 1;
    }
    true
}

pub open spec fn event_name_text(event: JournalEvent) -> Seq<char> {
    match event {
        JournalEvent::LaunchRequested { .. } => "launch_requested"@,
        JournalEvent::LaunchPolicyEvaluated { .. } => "launch_policy_evaluated"@,
        JournalEvent::LaunchAdmitted { .. } => "launch_admitted"@,
        JournalEvent::ProcessSpawned { .. } => "process_spawned"@,
        JournalEvent::ExecutionRegistered { .. } => "execution_registered"@,
        JournalEvent::ExecutionStateUpdated { .. } => "execution_state_updated"@,
        JournalEvent::ServiceObserved { .. } => "service_observed"@,
        JournalEvent::ServiceOverrideApplied { .. } => "service_override_applied"@,
        JournalEvent::PortObserved { .. } => "port_observed"@,
        JournalEvent::GhostStateRecorded { .. } => "ghost_state_recorded"@,
        JournalEvent::ResourceGovernanceRecorded { .. } => "resource_governance_recorded"@,
        JournalEvent::HistorySnapshotRecorded { .. } => "history_snapshot_recorded"@,
    }
}

pub fn event_name(event: &JournalEvent) -> (r: &'static str)
    ensures
        r@ == event_name_text(*event),
{
    match event {
        JournalEvent::LaunchRequested { .. } => "launch_requested",
        JournalEvent::LaunchPolicyEvaluated { .. } => "launch_policy_evaluated",
        JournalEvent::LaunchAdmitted { .. } => "launch_admitted",
        JournalEvent::ProcessSpawned { .. } => "process_spawned",
        JournalEvent::ExecutionRegistered { .. } => "execution_registered",
        JournalEvent::ExecutionStateUpdated { .. } => "execution_state_updated",
        JournalEvent::ServiceObserved { .. } => "service_observed",
        JournalEvent::ServiceOverrideApplied { .. } => "service_override_applied",
        JournalEvent::PortObserved { .. } => "port_observed",
        JournalEvent::GhostStateRecorded { .. } => "ghost_state_recorded",
        JournalEvent::ResourceGovernanceRecorded { .. } => "resource_governance_recorded",
        JournalEvent::HistorySnapshotRecorded { .. } => "history_snapshot_recorded",
    }
}

/// The execution an event is about.
pub open spec fn event_exec_text(event: JournalEvent) -> Seq<char> {
    match event {
        JournalEvent::LaunchRequested { exec_id, .. } => exec_id@,
        JournalEvent::LaunchPolicyEvaluated { exec_id, .. } => exec_id@,
        JournalEvent::LaunchAdmitted { exec_id, .. } => exec_id@,
        JournalEvent::ProcessSpawned { exec_id, .. } => exec_id@,
        JournalEvent::ExecutionRegistered { exec_id, .. } => exec_id@,
        JournalEvent::ExecutionStateUpdated { exec_id, .. } => exec_id@,
        JournalEvent::ServiceObserved { exec_id, .. } => exec_id@,
        JournalEvent::ServiceOverrideApplied { exec_id, .. } => exec_id@,
        JournalEvent::PortObserved { exec_id, .. } => exec_id@,
        JournalEvent::GhostStateRecorded { exec_id, .. } => exec_id@,
        JournalEvent::ResourceGovernanceRecorded { exec_id, .. } => exec_id@,
        JournalEvent::HistorySnapshotRecorded { exec_id, .. } => exec_id@,
    }
}

pub fn event_exec_id(event: &JournalEvent) -> (r: &str)
    ensures
        r@ == event_exec_text(*event),
{
    match event {
        JournalEvent::LaunchRequested { exec_id, .. } => exec_id.as_str(),
        JournalEvent::LaunchPolicyEvaluated { exec_id, .. } => exec_id.as_str(),
        JournalEvent::LaunchAdmitted { exec_id, .. } => exec_id.as_str(),
        JournalEvent::ProcessSpawned { exec_id, .. } => exec_id.as_str(),
        JournalEvent::ExecutionRegistered { exec_id, .. } => exec_id.as_str(),
        JournalEvent::ExecutionStateUpdated { exec_id, .. } => exec_id.as_str(),
        JournalEvent::ServiceObserved { exec_id, .. } => exec_id.as_str(),
        JournalEvent::ServiceOverrideApplied { exec_id, .. } => exec_id.as_str(),
        JournalEvent::PortObserved { exec_id, .. } => exec_id.as_str(),
        JournalEvent::GhostStateRecorded { exec_id, .. } => exec_id.as_str(),
        JournalEvent::ResourceGovernanceRecorded { exec_id, .. } => exec_id.as_str(),
        JournalEvent::HistorySnapshotRecorded { exec_id, .. } => exec_id.as_str(),
    }
}

/// The value recorded for `name` in an environment snapshot: that of the
/// first entry with the name, where it kept one.
pub open spec fn env_value(entries: Seq<EnvironmentEntryRecord>, name: Seq<char>) -> Option<Seq<char>>
    decreases entries.len(),
{
    if entries.len() == 0 {
        None
    } else if entries[0].name@ == name {
        match entries[0].value {
            Some(v) => Some(v@),
            None => None,
        }
    } else {
        env_value(entries.drop_first(), name)
    }
}

pub fn find_env_value(entries: &Vec<EnvironmentEntryRecord>, name: &str) -> (r: Option<String>)
    ensures
        match (r, env_value(entries@, name@)) {
            (Some(s), Some(t)) => s@ == t,
            (None, None) => true,
            _ => false,
        },
{
    let mut i: usize = 0;
    assert(entries@.skip(0) =~= entries@);
    while i < entries.len()
        invariant
            i <= entries@.len(),
            env_value(entries@, name@) == env_value(entries@.skip(i as int), name@),
        decreases entries.len() - i,
    {
        assert(entries@.skip(i as int)[0] == entries@[i as int]);
        assert(entries@.skip(i as int).drop_first() =~= entries@.skip(i + 1));
        if str_eq(entries[i].name.as_str(), name) {
            return match &entries[i].value {
                Some(v) => Some(v.clone()),
                None => None,
            };
        }
        i = i + 1;
    }
    None
}

/// The last lines of a retained output blob, as read from disk: at most
/// eight, `<empty>` for an empty blob, or why it could not be read.
pub open spec fn tail_text(read: Result<Seq<Seq<char>>, Seq<char>>) -> Seq<Seq<char>> {
    match read {
        Ok(lines) => if lines.len() == 0 {
            seq!["<empty>"@]
        } else if lines.len() <= 8 {
            lines
        } else {
            lines.skip(lines.len() - 8)
        },
        Err(e) => seq!["unable to read log tail: "@ + e],
    }
}

pub open spec fn texts(v: Seq<String>) -> Seq<Seq<char>> {
    v.map_values(|s: String| s@)
}

pub open spec fn read_view(read: Result<Vec<String>, String>) -> Result<Seq<Seq<char>>, Seq<char>> {
    match read {
        Ok(v) => Ok(texts(v@)),
        Err(e) => Err(e@),
    }
}

pub fn read_blob_tail_lines(read: Result<Vec<String>, String>) -> (r: Vec<String>)
    ensures
        texts(r@) == tail_text(read_view(read)),
{
    match read {
        Ok(lines) => {
            if lines.len() == 0 {
                let mut v: Vec<String> = Vec::new();
                v.push(owned("<empty>"));
                assert(texts(v@) =~= seq!["<empty>"@]);
                v
            } else if lines.len() <= 8 {
                lines
            } else {
                let mut v: Vec<String> = Vec::new();
                let start = lines.len() - 8;
                let mut i: usize = start;
                while i < lines.len()
                    invariant
                        start == lines@.len() - 8,
                        start <= i <= lines@.len(),
                        texts(v@) == texts(lines@).subrange(start as int, i as int),
                    decreases lines.len() - i,
                {
                    let ghost before = v@;
                    let line = lines[i].clone();
                    assert(line == lines@[i as int]);
                    v.push(line);
                    assert(v@ == before.push(lines@[i as int]));
                    assert(texts(v@) =~= texts(before).push(lines@[i as int]@));
                    assert(texts(v@) =~= texts(lines@).subrange(start as int, i + 1));
                    i = i + 1;
                }
                assert(texts(lines@).subrange(start as int, lines@.len() as int) =~= texts(
                    lines@,
                ).skip(start as int));
                v
            }
        },
        Err(e) => {
            let mut line = owned("unable to read log tail: ");
            line.append(e.as_str());
            let mut v: Vec<String> = Vec::new();
            v.push(line);
            assert(texts(v@) =~= seq!["unable to read log tail: "@ + e@]);
            v
        },
    }
}

} // verus!
