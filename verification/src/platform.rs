//! Resource governance: how much of a requested resource profile a platform
//! can enforce, observe, or neither, and the snapshot the daemon records.
//!
//! The file-system work (creating the cgroup, writing limits, reading
//! metrics) is done by the caller; this module decides from what it found.

use vstd::prelude::*;
use crate::parse::{parse_trimmed_u64, parse_u64_spec, parse_u64_str};
use crate::text::{concat2, owned, split_whitespace, str_eq, trim, u64_to_string, views, words};
use crate::paths::{join_path, path_join};

verus! {

#[derive(Debug, Clone, Copy, PartialEq, Eq, Structural)]
pub enum GovernancePlatform {
    Linux,
    MacOs,
    Unsupported,
}

#[derive(Debug, Clone, Copy, PartialEq, Eq, Structural)]
pub enum GovernanceCapability {
    FullyEnforced,
    PartiallyEnforced,
    ObservableOnly,
    Unavailable,
}

#[derive(Debug, Clone, PartialEq, Eq)]
pub enum PlacementState {
    Applied { target: String },
    Attempted { reason: String },
    NotApplicable { reason: String },
}

#[derive(Debug, Clone, Copy, PartialEq, Eq, Structural)]
pub struct ResourceProfile {
    pub memory_max_bytes: Option<u64>,
    pub cpu_max_micros: Option<u64>,
    pub cpu_period_micros: Option<u64>,
}

impl Default for ResourceProfile {
    fn default() -> (r: Self)
        ensures
            r.memory_max_bytes is None,
            r.cpu_max_micros is None,
            r.cpu_period_micros is None,
    {
        ResourceProfile { memory_max_bytes: None, cpu_max_micros: None, cpu_period_micros: None }
    }
}

#[derive(Debug, Clone, Copy, PartialEq, Eq, Structural)]
pub struct ResourceMetrics {
    pub memory_current_bytes: Option<u64>,
    pub memory_peak_bytes: Option<u64>,
    pub cpu_usage_micros: Option<u64>,
}

impl Default for ResourceMetrics {
    fn default() -> (r: Self)
        ensures
            r == empty_metrics(),
    {
        ResourceMetrics { memory_current_bytes: None, memory_peak_bytes: None, cpu_usage_micros: None }
    }
}

pub open spec fn empty_metrics() -> ResourceMetrics {
    ResourceMetrics { memory_current_bytes: None, memory_peak_bytes: None, cpu_usage_micros: None }
}

#[derive(Debug, Clone, PartialEq, Eq)]
pub struct EnforcementGap {
    pub scope: String,
    pub reason: String,
}

#[derive(Debug, Clone, PartialEq, Eq)]
pub struct GovernanceSnapshot {
    pub platform: GovernancePlatform,
    pub capability: GovernanceCapability,
    pub profile: ResourceProfile,
    pub placement: PlacementState,
    pub current: ResourceMetrics,
    pub recent_peak: ResourceMetrics,
    pub enforcement_triggered: bool,
    pub enforcement_gaps: Vec<EnforcementGap>,
}

#[derive(Debug, Clone, PartialEq, Eq)]
pub struct GovernanceRequest {
    pub exec_id: String,
    pub profile: ResourceProfile,
}

impl GovernanceRequest {
    pub fn new(exec_id: &str, profile: ResourceProfile) -> (r: Self)
        ensures
            r.exec_id@ == exec_id@,
            r.profile == profile,
    {
        GovernanceRequest { exec_id: exec_id.to_owned(), profile }
    }
}

#[derive(Debug, Clone)]
pub struct GovernanceEnvironment {
    pub platform: GovernancePlatform,
    pub linux_cgroup_root: Option<String>,
    pub macos_observation_root: Option<String>,
    pub macos_setrlimit_best_effort: bool,
}

impl GovernanceEnvironment {
    pub fn linux_for_tests(root: &str) -> (r: Self)
        ensures
            r.platform == GovernancePlatform::Linux,
            (r.linux_cgroup_root matches Some(p) && p@ == root@),
            r.macos_observation_root is None,
            !r.macos_setrlimit_best_effort,
    {
        GovernanceEnvironment {
            platform: GovernancePlatform::Linux,
            linux_cgroup_root: Some(root.to_owned()),
            macos_observation_root: None,
            macos_setrlimit_best_effort: false,
        }
    }

    pub fn macos_for_tests(observation_root: &str, setrlimit_best_effort: bool) -> (r: Self)
        ensures
            r.platform == GovernancePlatform::MacOs,
            r.linux_cgroup_root is None,
            (r.macos_observation_root matches Some(p) && p@ == observation_root@),
            r.macos_setrlimit_best_effort == setrlimit_best_effort,
    {
        GovernanceEnvironment {
            platform: GovernancePlatform::MacOs,
            linux_cgroup_root: None,
            macos_observation_root: Some(observation_root.to_owned()),
            macos_setrlimit_best_effort: setrlimit_best_effort,
        }
    }

    /// The environment of a host of the given platform, with its standard
    /// locations (the cgroup v2 mount on Linux).
    pub fn for_host(platform: GovernancePlatform) -> (r: Self)
        ensures
            r.platform == platform,
            platform == GovernancePlatform::Linux ==> (r.linux_cgroup_root matches Some(p) && p@
                == "/sys/fs/cgroup"@),
            platform != GovernancePlatform::Linux ==> r.linux_cgroup_root is None,
            r.macos_observation_root is None,
            r.macos_setrlimit_best_effort == (platform == GovernancePlatform::MacOs),
    {
        match platform {
            GovernancePlatform::Linux => Self::linux_for_tests("/sys/fs/cgroup"),
            GovernancePlatform::MacOs => GovernanceEnvironment {
                platform: GovernancePlatform::MacOs,
                linux_cgroup_root: None,
                macos_observation_root: None,
                macos_setrlimit_best_effort: true,
            },
            GovernancePlatform::Unsupported => GovernanceEnvironment {
                platform: GovernancePlatform::Unsupported,
                linux_cgroup_root: None,
                macos_observation_root: None,
                macos_setrlimit_best_effort: false,
            },
        }
    }
}

/// The capability that follows from what was requested, applied and observed.
pub open spec fn capability_spec(
    enforcement_requested: bool,
    enforcement_applied: bool,
    has_gaps: bool,
    has_observation: bool,
) -> GovernanceCapability {
    if enforcement_requested {
        if enforcement_applied && !has_gaps {
            GovernanceCapability::FullyEnforced
        } else if enforcement_applied || has_observation {
            GovernanceCapability::PartiallyEnforced
        } else {
            GovernanceCapability::Unavailable
        }
    } else if has_observation {
        GovernanceCapability::ObservableOnly
    } else {
        GovernanceCapability::Unavailable
    }
}

pub fn compute_capability(
    enforcement_requested: bool,
    enforcement_applied: bool,
    has_gaps: bool,
    has_observation: bool,
) -> (r: GovernanceCapability)
    ensures
        r == capability_spec(enforcement_requested, enforcement_applied, has_gaps, has_observation),
{
    if enforcement_requested {
        if enforcement_applied && !has_gaps {
            GovernanceCapability::FullyEnforced
        } else if enforcement_applied || has_observation {
            GovernanceCapability::PartiallyEnforced
        } else {
            GovernanceCapability::Unavailable
        }
    } else if has_observation {
        GovernanceCapability::ObservableOnly
    } else {
        GovernanceCapability::Unavailable
    }
}

/// Governance is never reported as fully enforced unless enforcement was
/// requested, applied and left no gap; and it is reported unavailable only
/// when nothing was applied and nothing can be observed.
pub proof fn lemma_capability_is_never_overstated(
    enforcement_requested: bool,
    enforcement_applied: bool,
    has_gaps: bool,
    has_observation: bool,
)
    ensures
        capability_spec(enforcement_requested, enforcement_applied, has_gaps, has_observation)
            == GovernanceCapability::FullyEnforced <==> (enforcement_requested
            && enforcement_applied && !has_gaps),
        capability_spec(enforcement_requested, enforcement_applied, has_gaps, has_observation)
            == GovernanceCapability::Unavailable <==> (!has_observation && !(
        enforcement_requested && enforcement_applied)),
{
}

/// On macOS the degradation is always recorded as a gap, so governance there
/// is never fully enforced: with observation available, it is partially
/// enforced where a limit is requested, whether or not best-effort limits
/// apply, and observable only otherwise.
pub proof fn lemma_macos_capability_is_explicit(enforcement_requested: bool, setrlimit_best_effort: bool)
    ensures
        capability_spec(enforcement_requested, setrlimit_best_effort, true, true) == (if enforcement_requested {
            GovernanceCapability::PartiallyEnforced
        } else {
            GovernanceCapability::ObservableOnly
        }),
{
}

pub fn push_gap(gaps: &mut Vec<EnforcementGap>, scope: &str, reason: String)
    ensures
        final(gaps)@.len() == old(gaps)@.len() + 1,
        final(gaps)@.take(old(gaps)@.len() as int) == old(gaps)@,
        final(gaps)@.last().scope@ == scope@,
        final(gaps)@.last().reason == reason,
{
    gaps.push(EnforcementGap { scope: scope.to_owned(), reason });
    assert(gaps@.take(gaps@.len() - 1) =~= old(gaps)@);
}

pub open spec fn requests_enforcement(profile: ResourceProfile) -> bool {
    profile.memory_max_bytes is Some || profile.cpu_max_micros is Some
}

#[derive(Debug, Clone)]
pub struct LinuxPlanState {
    pub cgroup_path: String,
    pub enforcement_requested: bool,
}

#[derive(Debug, Clone)]
pub struct MacOsPlanState {
    pub observation_root: Option<String>,
    pub setrlimit_best_effort: bool,
    pub enforcement_requested: bool,
}

#[derive(Debug, Clone)]
pub enum PlanState {
    Linux(LinuxPlanState),
    MacOs(MacOsPlanState),
    Unsupported,
}

#[derive(Debug, Clone)]
pub struct GovernancePlan {
    pub cgroup_path: Option<String>,
    pub state: PlanState,
    pub snapshot: GovernanceSnapshot,
}

/// What the caller found while preparing a Linux cgroup for an execution.
#[derive(Debug, Clone)]
pub struct LinuxPreparation {
    /// The controllers listed in `cgroup.controllers` of the root.
    pub controllers: Vec<String>,
    /// Whether the per-execution cgroup directory could be created.
    pub cgroup_created: bool,
    /// The error of writing `memory.max`, when it was written and failed.
    pub memory_write_error: Option<String>,
    /// The error of writing `cpu.max`, when it was written and failed.
    pub cpu_write_error: Option<String>,
    /// Whether the cgroup path can be observed.
    pub has_observation: bool,
}

pub open spec fn has_controller(controllers: Seq<String>, name: Seq<char>) -> bool {
    exists|i: int| 0 <= i < controllers.len() && controllers[i]@ == name
}

pub fn contains_controller(controllers: &Vec<String>, name: &str) -> (r: bool)
    ensures
        r == has_controller(controllers@, name@),
{
    let mut i: usize = 0;
    while i < controllers.len()
        invariant
            i <= controllers@.len(),
            forall|j: int| 0 <= j < i ==> controllers@[j]@ != name@,
        decreases controllers.len() - i,
    {
        if str_eq(controllers[i].as_str(), name) {
            return true;
        }
        i = i + 1;
    }
    false
}

/// `cgroup.controllers`: the whitespace-separated controller names.
pub fn parse_controllers(contents: &str) -> (r: Vec<String>)
    ensures
        views(r@) == words(contents@),
{
    split_whitespace(contents)
}

/// The per-execution cgroup directory under a cgroup v2 root: the root
/// joined with `execmanager` and then with the execution id, as path
/// components are joined (an absolute id stands for itself).
pub fn linux_cgroup_path(root: &str, exec_id: &str) -> (r: String)
    ensures
        r@ == (if exec_id@.len() > 0 && exec_id@[0] == '/' {
            exec_id@
        } else {
            path_join(path_join(root@, "execmanager"@), exec_id@)
        }),
{
    if exec_id.unicode_len() > 0 && exec_id.get_char(0) == '/' {
        return exec_id.to_owned();
    }
    let base = join_path(root, "execmanager");
    join_path(base.as_str(), exec_id)
}

/// The composed cgroup path: under a root written with or without a trailing
/// `/`, the execution's directory is `execmanager/<id>` below it, with one
/// separator between components.
pub proof fn lemma_cgroup_path_composes(root: Seq<char>, exec_id: Seq<char>)
    requires
        root.len() > 0,
        exec_id.len() > 0,
        exec_id[0] != '/',
    ensures
        root.last() != '/' ==> path_join(path_join(root, "execmanager"@), exec_id) == root
            + "/execmanager/"@ + exec_id,
        root.last() == '/' ==> path_join(path_join(root, "execmanager"@), exec_id) == root
            + "execmanager/"@ + exec_id,
{
    reveal_strlit("execmanager");
    reveal_strlit("/execmanager/");
    reveal_strlit("execmanager/");
    reveal_strlit("/");
    let base = path_join(root, "execmanager"@);
    assert(base.len() > 0);
    assert(base.last() == 'r');
    if root.last() != '/' {
        assert(base =~= root + "/"@ + "execmanager"@);
        assert(base + "/"@ + exec_id =~= root + "/execmanager/"@ + exec_id);
    } else {
        assert(base =~= root + "execmanager"@);
        assert(base + "/"@ + exec_id =~= root + "execmanager/"@ + exec_id);
    }
}

/// The limit files of a cgroup and their contents, as views: `memory.max`
/// with the byte limit where a memory limit is requested and the root offers
/// the `memory` controller, then `cpu.max` with the quota and the period
/// (100000 microseconds by default) where a cpu limit is requested and the
/// root offers the `cpu` controller.
pub open spec fn limit_writes_spec(profile: ResourceProfile, controllers: Seq<String>) -> Seq<
    (Seq<char>, Seq<char>),
> {
    (if profile.memory_max_bytes is Some && has_controller(controllers, "memory"@) {
        seq![
            (
                "memory.max"@,
                crate::text::decimal(profile.memory_max_bytes->0 as nat) + "\n"@,
            ),
        ]
    } else {
        seq![]
    }) + (if profile.cpu_max_micros is Some && has_controller(controllers, "cpu"@) {
        seq![
            (
                "cpu.max"@,
                crate::text::decimal(profile.cpu_max_micros->0 as nat) + " "@
                    + crate::text::decimal(
                    (match profile.cpu_period_micros {
                        Some(p) => p,
                        None => 100000u64,
                    }) as nat,
                ) + "\n"@,
            ),
        ]
    } else {
        seq![]
    })
}

pub open spec fn pair_views(v: Seq<(String, String)>) -> Seq<(Seq<char>, Seq<char>)> {
    v.map_values(|p: (String, String)| (p.0@, p.1@))
}

/// Which limit files to write into the cgroup, and with what contents: only
/// for requested limits whose controller the root offers. The cpu period
/// defaults to 100000 microseconds.
pub fn linux_limit_writes(profile: ResourceProfile, controllers: &Vec<String>) -> (r: Vec<
    (String, String),
>)
    ensures
        pair_views(r@) == limit_writes_spec(profile, controllers@),
{
    let mut writes: Vec<(String, String)> = Vec::new();
    if let Some(memory_max) = profile.memory_max_bytes {
        if contains_controller(controllers, "memory") {
            let mut value = u64_to_string(memory_max);
            value.append("\n");
            writes.push(("memory.max".to_owned(), value));
        }
    }
    let ghost mem_part = pair_views(writes@);
    assert(mem_part =~= (if profile.memory_max_bytes is Some && has_controller(
        controllers@,
        "memory"@,
    ) {
        seq![
            (
                "memory.max"@,
                crate::text::decimal(profile.memory_max_bytes->0 as nat) + "\n"@,
            ),
        ]
    } else {
        seq![]
    }));
    if let Some(cpu_max) = profile.cpu_max_micros {
        if contains_controller(controllers, "cpu") {
            let period = match profile.cpu_period_micros {
                Some(p) => p,
                None => 100_000,
            };
            let mut value = u64_to_string(cpu_max);
            value.append(" ");
            let p = u64_to_string(period);
            value.append(p.as_str());
            value.append("\n");
            writes.push(("cpu.max".to_owned(), value));
            assert(pair_views(writes@) =~= mem_part.push((writes@.last().0@, writes@.last().1@)));
        }
    }
    assert(pair_views(writes@) =~= limit_writes_spec(profile, controllers@));
    writes
}

pub open spec fn linux_gap_scopes(
    profile: ResourceProfile,
    controllers: Seq<String>,
    memory_write_error: Option<String>,
    cpu_write_error: Option<String>,
) -> Seq<Seq<char>> {
    let a = if profile.memory_max_bytes is Some && !has_controller(controllers, "memory"@) {
        seq!["memory_controller"@]
    } else {
        seq![]
    };
    let b = if profile.cpu_max_micros is Some && !has_controller(controllers, "cpu"@) {
        seq!["cpu_controller"@]
    } else {
        seq![]
    };
    let c = if memory_write_error is Some {
        seq!["memory_controller"@]
    } else {
        seq![]
    };
    let d = if cpu_write_error is Some {
        seq!["cpu_controller"@]
    } else {
        seq![]
    };
    a + b + c + d
}

/// The gaps that preparing a Linux cgroup records, as scope and reason: a
/// requested limit whose controller the root lacks, then a limit file that
/// could not be written, with the error.
pub open spec fn linux_gap_entries(
    profile: ResourceProfile,
    controllers: Seq<String>,
    memory_write_error: Option<String>,
    cpu_write_error: Option<String>,
) -> Seq<(Seq<char>, Seq<char>)> {
    let a = if profile.memory_max_bytes is Some && !has_controller(controllers, "memory"@) {
        seq![("memory_controller"@, "memory controller is unavailable; memory enforcement is degraded"@)]
    } else {
        seq![]
    };
    let b = if profile.cpu_max_micros is Some && !has_controller(controllers, "cpu"@) {
        seq![("cpu_controller"@, "cpu controller is unavailable; cpu enforcement is degraded"@)]
    } else {
        seq![]
    };
    let c = match memory_write_error {
        Some(e) => seq![("memory_controller"@, "failed to write memory.max: "@ + e@)],
        None => seq![],
    };
    let d = match cpu_write_error {
        Some(e) => seq![("cpu_controller"@, "failed to write cpu.max: "@ + e@)],
        None => seq![],
    };
    a + b + c + d
}

/// Why placing a pid into the cgroup failed, as recorded.
pub open spec fn placement_failure_reason(pid: u32, error: Seq<char>) -> Seq<char> {
    "failed to place pid "@ + crate::text::decimal(pid as nat) + " into cgroup.procs: "@ + error
}

pub open spec fn gap_scopes(gaps: Seq<EnforcementGap>) -> Seq<Seq<char>> {
    gaps.map_values(|g: EnforcementGap| g.scope@)
}

/// Each gap as its scope and its reason.
pub open spec fn gap_entries(gaps: Seq<EnforcementGap>) -> Seq<(Seq<char>, Seq<char>)> {
    gaps.map_values(|g: EnforcementGap| (g.scope@, g.reason@))
}

pub open spec fn linux_root_missing_reason() -> Seq<char> {
    "cgroup v2 root is unavailable on this host"@
}

pub open spec fn unsupported_platform_reason() -> Seq<char> {
    "resource governance is unavailable on this platform"@
}

pub open spec fn macos_placement_reason() -> Seq<char> {
    "macOS has no cgroup placement path; degraded governance must stay explicit"@
}

pub open spec fn macos_degraded_entry() -> (Seq<char>, Seq<char>) {
    (
        "macos_degraded"@,
        "degraded: macOS has no cgroup placement path; degraded governance must stay explicit"@,
    )
}

pub open spec fn macos_cpu_entry() -> (Seq<char>, Seq<char>) {
    ("cpu_controller"@, "degraded: macOS cannot provide Linux-style cpu quota enforcement"@)
}

pub open spec fn macos_setrlimit_entry() -> (Seq<char>, Seq<char>) {
    (
        "setrlimit"@,
        "degraded: setrlimit-style enforcement is unavailable; falling back to observation"@,
    )
}

/// The gaps that a macOS plan records: the degradation itself, the cpu quota
/// where one is requested, and the missing resource limits where enforcement
/// is requested and best-effort limits are unavailable.
pub open spec fn macos_gap_entries(profile: ResourceProfile, setrlimit_best_effort: bool) -> Seq<
    (Seq<char>, Seq<char>),
> {
    seq![macos_degraded_entry()] + (if profile.cpu_max_micros is Some {
        seq![macos_cpu_entry()]
    } else {
        seq![]
    }) + (if requests_enforcement(profile) && !setrlimit_best_effort {
        seq![macos_setrlimit_entry()]
    } else {
        seq![]
    })
}

impl GovernanceCoordinator {
    pub fn for_environment(environment: GovernanceEnvironment) -> (r: Self)
        ensures
            r.environment.platform == environment.platform,
    {
        GovernanceCoordinator { environment }
    }

    /// Prepares a plan without touching the host: macOS and unsupported
    /// platforms need nothing from it; on Linux without a cgroup root the plan
    /// is unavailable. A Linux host with a root returns `None`, and the caller
    /// prepares the cgroup and completes the plan with
    /// `GovernancePlan::from_linux_preparation`.
    pub fn prepare(&self, request: GovernanceRequest) -> (r: Option<GovernancePlan>)
        ensures
            r is None <==> (self.environment.platform == GovernancePlatform::Linux
                && self.environment.linux_cgroup_root is Some),
            r matches Some(plan) ==> plan.snapshot.platform == self.environment.platform
                && plan.snapshot.profile == request.profile,
            r is Some && self.environment.platform != GovernancePlatform::MacOs
                ==> r->0.snapshot.capability == GovernanceCapability::Unavailable,
            r matches Some(plan) ==> plan.cgroup_path is None && plan.snapshot.current
                == empty_metrics() && plan.snapshot.recent_peak == empty_metrics()
                && !plan.snapshot.enforcement_triggered,
            r is Some && self.environment.platform == GovernancePlatform::Linux ==> {
                &&& r->0.state is Unsupported
                &&& r->0.snapshot.placement matches PlacementState::NotApplicable { reason }
                    && reason@ == linux_root_missing_reason()
                &&& gap_entries(r->0.snapshot.enforcement_gaps@) == seq![
                    ("linux_cgroup"@, linux_root_missing_reason()),
                ]
            },
            self.environment.platform == GovernancePlatform::Unsupported ==> {
                &&& r->0.state is Unsupported
                &&& r->0.snapshot.placement matches PlacementState::NotApplicable { reason }
                    && reason@ == unsupported_platform_reason()
                &&& gap_entries(r->0.snapshot.enforcement_gaps@) == seq![
                    ("unsupported_platform"@, unsupported_platform_reason()),
                ]
            },
            self.environment.platform == GovernancePlatform::MacOs ==> {
                &&& r->0.state matches PlanState::MacOs(st) && st.setrlimit_best_effort
                    == self.environment.macos_setrlimit_best_effort && st.enforcement_requested
                    == requests_enforcement(request.profile) && (st.observation_root is Some
                    <==> self.environment.macos_observation_root is Some)
                &&& r->0.snapshot.placement matches PlacementState::NotApplicable { reason }
                    && reason@ == macos_placement_reason()
                &&& r->0.snapshot.capability == capability_spec(
                    requests_enforcement(request.profile),
                    self.environment.macos_setrlimit_best_effort,
                    true,
                    self.environment.macos_observation_root is Some,
                )
                &&& gap_entries(r->0.snapshot.enforcement_gaps@) == macos_gap_entries(
                    request.profile,
                    self.environment.macos_setrlimit_best_effort,
                )
            },
    {
        match self.environment.platform {
            GovernancePlatform::Linux => {
                if self.environment.linux_cgroup_root.is_none() {
                    let plan = GovernancePlan::unavailable(
                        GovernancePlatform::Linux,
                        request,
                        "linux_cgroup",
                        "cgroup v2 root is unavailable on this host".to_owned(),
                    );
                    assert(gap_entries(plan.snapshot.enforcement_gaps@) =~= seq![
                        ("linux_cgroup"@, linux_root_missing_reason()),
                    ]);
                    Some(plan)
                } else {
                    None
                }
            },
            GovernancePlatform::MacOs => Some(
                GovernancePlan::prepare_macos(&self.environment, request),
            ),
            GovernancePlatform::Unsupported => Some(GovernancePlan::unsupported(request)),
        }
    }
}

#[derive(Debug, Clone)]
pub struct GovernanceCoordinator {
    pub environment: GovernanceEnvironment,
}

impl GovernancePlan {
    pub fn snapshot(&self) -> (r: &GovernanceSnapshot)
        ensures
            *r == self.snapshot,
    {
        &self.snapshot
    }

    pub fn cgroup_path(&self) -> (r: Option<&str>)
        ensures
            r is Some <==> self.cgroup_path is Some,
            r matches Some(p) ==> p@ == self.cgroup_path->0@,
    {
        match &self.cgroup_path {
            Some(p) => Some(p.as_str()),
            None => None,
        }
    }

    pub fn unavailable(
        platform: GovernancePlatform,
        request: GovernanceRequest,
        scope: &str,
        reason: String,
    ) -> (r: Self)
        ensures
            r.cgroup_path is None,
            r.state is Unsupported,
            r.snapshot.platform == platform,
            r.snapshot.capability == GovernanceCapability::Unavailable,
            r.snapshot.profile == request.profile,
            r.snapshot.placement matches PlacementState::NotApplicable { reason: p } && p@
                == reason@,
            r.snapshot.current == empty_metrics(),
            r.snapshot.recent_peak == empty_metrics(),
            !r.snapshot.enforcement_triggered,
            r.snapshot.enforcement_gaps@.len() == 1,
            r.snapshot.enforcement_gaps@[0].scope@ == scope@,
            r.snapshot.enforcement_gaps@[0].reason@ == reason@,
    {
        let placement_reason = reason.clone();
        let mut gaps = Vec::new();
        gaps.push(EnforcementGap { scope: scope.to_owned(), reason });
        GovernancePlan {
            cgroup_path: None,
            state: PlanState::Unsupported,
            snapshot: GovernanceSnapshot {
                platform,
                capability: GovernanceCapability::Unavailable,
                profile: request.profile,
                placement: PlacementState::NotApplicable { reason: placement_reason },
                current: ResourceMetrics::default(),
                recent_peak: ResourceMetrics::default(),
                enforcement_triggered: false,
                enforcement_gaps: gaps,
            },
        }
    }

    pub fn unsupported(request: GovernanceRequest) -> (r: Self)
        ensures
            r.state is Unsupported,
            r.snapshot.platform == GovernancePlatform::Unsupported,
            r.snapshot.capability == GovernanceCapability::Unavailable,
            r.snapshot.profile == request.profile,
            r.snapshot.enforcement_gaps@.len() == 1,
            r.snapshot.enforcement_gaps@[0].scope@ == "unsupported_platform"@,
            r.cgroup_path is None,
            r.snapshot.placement matches PlacementState::NotApplicable { reason } && reason@
                == unsupported_platform_reason(),
            gap_entries(r.snapshot.enforcement_gaps@) == seq![
                ("unsupported_platform"@, unsupported_platform_reason()),
            ],
            r.snapshot.current == empty_metrics(),
            r.snapshot.recent_peak == empty_metrics(),
            !r.snapshot.enforcement_triggered,
    {
        let r = Self::unavailable(
            GovernancePlatform::Unsupported,
            request,
            "unsupported_platform",
            "resource governance is unavailable on this platform".to_owned(),
        );
        assert(gap_entries(r.snapshot.enforcement_gaps@) =~= seq![
            ("unsupported_platform"@, unsupported_platform_reason()),
        ]);
        r
    }

    /// macOS has no cgroups: the plan records the degradation explicitly and
    /// enforces only by best-effort resource limits where available.
    pub fn prepare_macos(environment: &GovernanceEnvironment, request: GovernanceRequest) -> (r:
        Self)
        ensures
            r.cgroup_path is None,
            r.state matches PlanState::MacOs(st) && st.setrlimit_best_effort
                == environment.macos_setrlimit_best_effort && st.enforcement_requested
                == requests_enforcement(request.profile) && (st.observation_root is Some
                <==> environment.macos_observation_root is Some),
            r.snapshot.platform == GovernancePlatform::MacOs,
            r.snapshot.profile == request.profile,
            r.snapshot.placement matches PlacementState::NotApplicable { reason } && reason@
                == macos_placement_reason(),
            r.snapshot.capability == capability_spec(
                requests_enforcement(request.profile),
                environment.macos_setrlimit_best_effort,
                true,
                environment.macos_observation_root is Some,
            ),
            gap_entries(r.snapshot.enforcement_gaps@) == macos_gap_entries(
                request.profile,
                environment.macos_setrlimit_best_effort,
            ),
            gap_scopes(r.snapshot.enforcement_gaps@) == seq!["macos_degraded"@] + (if request.profile.cpu_max_micros is Some {
                seq!["cpu_controller"@]
            } else {
                seq![]
            }) + (if requests_enforcement(request.profile)
                && !environment.macos_setrlimit_best_effort {
                seq!["setrlimit"@]
            } else {
                seq![]
            }),
            r.snapshot.current == empty_metrics(),
            r.snapshot.recent_peak == empty_metrics(),
            !r.snapshot.enforcement_triggered,
    {
        let enforcement_requested = request.profile.memory_max_bytes.is_some()
            || request.profile.cpu_max_micros.is_some();
        let mut gaps: Vec<EnforcementGap> = Vec::new();
        gaps.push(
            EnforcementGap {
                scope: "macos_degraded".to_owned(),
                reason: "degraded: macOS has no cgroup placement path; degraded governance must stay explicit".to_owned(),
            },
        );
        let ghost g0 = gaps@;
        assert(gap_entries(g0) =~= seq![macos_degraded_entry()]);
        if request.profile.cpu_max_micros.is_some() {
            push_gap(
                &mut gaps,
                "cpu_controller",
                "degraded: macOS cannot provide Linux-style cpu quota enforcement".to_owned(),
            );
            assert(gaps@ =~= g0.push(gaps@.last()));
        }
        let ghost g1 = gaps@;
        assert(gap_entries(g1) =~= gap_entries(g0) + (if request.profile.cpu_max_micros is Some {
            seq![macos_cpu_entry()]
        } else {
            seq![]
        }));
        if enforcement_requested && !environment.macos_setrlimit_best_effort {
            push_gap(
                &mut gaps,
                "setrlimit",
                "degraded: setrlimit-style enforcement is unavailable; falling back to observation".to_owned(),
            );
            assert(gaps@ =~= g1.push(gaps@.last()));
        }
        assert(gap_entries(gaps@) =~= gap_entries(g1) + (if enforcement_requested
            && !environment.macos_setrlimit_best_effort {
            seq![macos_setrlimit_entry()]
        } else {
            seq![]
        }));
        assert(gap_scopes(gaps@) =~= gap_entries(gaps@).map_values(|e: (Seq<char>, Seq<char>)| e.0));
        let capability = compute_capability(
            enforcement_requested,
            environment.macos_setrlimit_best_effort,
            gaps.len() > 0,
            environment.macos_observation_root.is_some(),
        );
        let observation_root = match &environment.macos_observation_root {
            Some(p) => Some(p.clone()),
            None => None,
        };
        GovernancePlan {
            cgroup_path: None,
            state: PlanState::MacOs(
                MacOsPlanState {
                    observation_root,
                    setrlimit_best_effort: environment.macos_setrlimit_best_effort,
                    enforcement_requested,
                },
            ),
            snapshot: GovernanceSnapshot {
                platform: GovernancePlatform::MacOs,
                capability,
                profile: request.profile,
                placement: PlacementState::NotApplicable {
                    reason: "macOS has no cgroup placement path; degraded governance must stay explicit".to_owned(),
                },
                current: ResourceMetrics::default(),
                recent_peak: ResourceMetrics::default(),
                enforcement_triggered: false,
                enforcement_gaps: gaps,
            },
        }
    }

    /// Completes a Linux plan from what preparing the cgroup found. A cgroup
    /// that could not be created leaves governance unavailable; otherwise the
    /// gaps record each missing controller and each failed limit write, and
    /// pid placement is still to be attempted.
    pub fn from_linux_preparation(
        request: GovernanceRequest,
        cgroup_path: String,
        found: LinuxPreparation,
    ) -> (r: Self)
        ensures
            r.snapshot.platform == GovernancePlatform::Linux,
            r.snapshot.profile == request.profile,
            !found.cgroup_created ==> r.state is Unsupported && r.snapshot.capability
                == GovernanceCapability::Unavailable && r.cgroup_path is None,
            found.cgroup_created ==> r.state is Linux && r.cgroup_path == Some(cgroup_path)
                && r.snapshot.placement is Attempted && gap_scopes(r.snapshot.enforcement_gaps@)
                == linux_gap_scopes(
                request.profile,
                found.controllers@,
                found.memory_write_error,
                found.cpu_write_error,
            ) && r.snapshot.capability == capability_spec(
                requests_enforcement(request.profile),
                false,
                r.snapshot.enforcement_gaps@.len() > 0,
                found.has_observation,
            ),
            found.cgroup_created ==> (r.snapshot.placement matches PlacementState::Attempted {
                reason,
            } && reason@ == "cgroup prepared; pid placement not attempted yet"@),
            found.cgroup_created ==> gap_entries(r.snapshot.enforcement_gaps@) == linux_gap_entries(
                request.profile,
                found.controllers@,
                found.memory_write_error,
                found.cpu_write_error,
            ),
            !found.cgroup_created ==> (r.snapshot.placement matches PlacementState::NotApplicable {
                reason,
            } && reason@ == "unable to prepare cgroup path "@ + cgroup_path@
                && gap_entries(r.snapshot.enforcement_gaps@) == seq![
                ("linux_cgroup"@, "unable to prepare cgroup path "@ + cgroup_path@),
            ]),
            r.snapshot.current == empty_metrics(),
            r.snapshot.recent_peak == empty_metrics(),
            !r.snapshot.enforcement_triggered,
    {
        if !found.cgroup_created {
            let reason = concat2("unable to prepare cgroup path ", cgroup_path.as_str());
            let plan = Self::unavailable(GovernancePlatform::Linux, request, "linux_cgroup", reason);
            assert(gap_entries(plan.snapshot.enforcement_gaps@) =~= seq![
                ("linux_cgroup"@, "unable to prepare cgroup path "@ + cgroup_path@),
            ]);
            return plan;
        }
        let mut gaps: Vec<EnforcementGap> = Vec::new();
        let has_memory = contains_controller(&found.controllers, "memory");
        let has_cpu = contains_controller(&found.controllers, "cpu");
        let ghost g0 = gaps@;
        if request.profile.memory_max_bytes.is_some() && !has_memory {
            push_gap(
                &mut gaps,
                "memory_controller",
                "memory controller is unavailable; memory enforcement is degraded".to_owned(),
            );
            assert(gaps@ =~= g0.push(gaps@.last()));
        }
        let ghost g1 = gaps@;
        if request.profile.cpu_max_micros.is_some() && !has_cpu {
            push_gap(
                &mut gaps,
                "cpu_controller",
                "cpu controller is unavailable; cpu enforcement is degraded".to_owned(),
            );
            assert(gaps@ =~= g1.push(gaps@.last()));
        }
        let ghost g2 = gaps@;
        match &found.memory_write_error {
            Some(error) => {
                let reason = concat2("failed to write memory.max: ", error.as_str());
                push_gap(&mut gaps, "memory_controller", reason);
                assert(gaps@ =~= g2.push(gaps@.last()));
            },
            None => {},
        }
        let ghost g3 = gaps@;
        match &found.cpu_write_error {
            Some(error) => {
                let reason = concat2("failed to write cpu.max: ", error.as_str());
                push_gap(&mut gaps, "cpu_controller", reason);
                assert(gaps@ =~= g3.push(gaps@.last()));
            },
            None => {},
        }
        proof {
            let entries = linux_gap_entries(
                request.profile,
                found.controllers@,
                found.memory_write_error,
                found.cpu_write_error,
            );
            assert(gap_entries(g0) =~= seq![]);
            assert(gap_entries(gaps@) =~= entries);
            assert(gap_scopes(gaps@) =~= linux_gap_scopes(
                request.profile,
                found.controllers@,
                found.memory_write_error,
                found.cpu_write_error,
            ));
        }
        let enforcement_requested = request.profile.memory_max_bytes.is_some()
            || request.profile.cpu_max_micros.is_some();
        let capability = compute_capability(
            enforcement_requested,
            false,
            gaps.len() > 0,
            found.has_observation,
        );
        let state_path = cgroup_path.clone();
        GovernancePlan {
            cgroup_path: Some(cgroup_path),
            state: PlanState::Linux(
                LinuxPlanState { cgroup_path: state_path, enforcement_requested },
            ),
            snapshot: GovernanceSnapshot {
                platform: GovernancePlatform::Linux,
                capability,
                profile: request.profile,
                placement: PlacementState::Attempted {
                    reason: "cgroup prepared; pid placement not attempted yet".to_owned(),
                },
                current: ResourceMetrics::default(),
                recent_peak: ResourceMetrics::default(),
                enforcement_triggered: false,
                enforcement_gaps: gaps,
            },
        }
    }

    /// Records the outcome of placing `pid` into the plan's cgroup (Linux:
    /// the result of writing `cgroup.procs`), and recomputes the capability.
    pub fn apply_to_pid(&mut self, pid: u32, placement_result: Result<(), String>, has_observation: bool)
        ensures
            final(self).state == old(self).state,
            final(self).snapshot.platform == old(self).snapshot.platform,
            final(self).snapshot.profile == old(self).snapshot.profile,
            old(self).state matches PlanState::Linux(st) ==> (placement_result is Ok ==> (
            final(self).snapshot.placement matches PlacementState::Applied { target } && target@
                == st.cgroup_path@) && final(self).snapshot.enforcement_gaps
                == old(self).snapshot.enforcement_gaps && final(self).snapshot.capability
                == capability_spec(
                st.enforcement_requested,
                true,
                old(self).snapshot.enforcement_gaps@.len() > 0,
                has_observation,
            )),
            old(self).state matches PlanState::Linux(st) ==> (placement_result is Err ==> (
            final(self).snapshot.placement is Attempted) && final(self).snapshot.enforcement_gaps@.len()
                == old(self).snapshot.enforcement_gaps@.len() + 1
                && final(self).snapshot.enforcement_gaps@.last().scope@ == "cgroup_placement"@
                && final(self).snapshot.capability == capability_spec(
                st.enforcement_requested,
                false,
                true,
                has_observation,
            )),
            old(self).state matches PlanState::MacOs(st) ==> final(self).snapshot.placement
                == old(self).snapshot.placement && final(self).snapshot.enforcement_gaps
                == old(self).snapshot.enforcement_gaps && (if st.setrlimit_best_effort {
                final(self).snapshot.capability == old(self).snapshot.capability
            } else {
                final(self).snapshot.capability == capability_spec(
                    st.enforcement_requested,
                    false,
                    old(self).snapshot.enforcement_gaps@.len() > 0,
                    st.observation_root is Some,
                )
            }),
            old(self).state is Unsupported ==> final(self).snapshot == old(self).snapshot,
            final(self).cgroup_path == old(self).cgroup_path,
            final(self).snapshot.current == old(self).snapshot.current,
            final(self).snapshot.recent_peak == old(self).snapshot.recent_peak,
            final(self).snapshot.enforcement_triggered == old(self).snapshot.enforcement_triggered,
            old(self).state is Linux ==> (placement_result matches Err(error) ==> {
                &&& final(self).snapshot.placement matches PlacementState::Attempted { reason }
                    && reason@ == placement_failure_reason(pid, error@)
                &&& gap_entries(final(self).snapshot.enforcement_gaps@) == gap_entries(
                    old(self).snapshot.enforcement_gaps@,
                ).push(("cgroup_placement"@, placement_failure_reason(pid, error@)))
            }),
    {
        match &self.state {
            PlanState::Linux(state) => {
                match placement_result {
                    Ok(()) => {
                        self.snapshot.placement = PlacementState::Applied {
                            target: state.cgroup_path.clone(),
                        };
                        self.snapshot.capability = compute_capability(
                            state.enforcement_requested,
                            true,
                            self.snapshot.enforcement_gaps.len() > 0,
                            has_observation,
                        );
                    },
                    Err(error) => {
                        let mut reason = "failed to place pid ".to_owned();
                        let p = u64_to_string(pid as u64);
                        reason.append(p.as_str());
                        reason.append(" into cgroup.procs: ");
                        reason.append(error.as_str());
                        let gap_reason = reason.clone();
                        let ghost before = self.snapshot.enforcement_gaps@;
                        self.snapshot.placement = PlacementState::Attempted { reason };
                        push_gap(&mut self.snapshot.enforcement_gaps, "cgroup_placement", gap_reason);
                        assert(self.snapshot.enforcement_gaps@ =~= before.push(
                            self.snapshot.enforcement_gaps@.last(),
                        ));
                        assert(gap_entries(self.snapshot.enforcement_gaps@) =~= gap_entries(
                            before,
                        ).push(("cgroup_placement"@, placement_failure_reason(pid, error@))));
                        self.snapshot.capability = compute_capability(
                            state.enforcement_requested,
                            false,
                            true,
                            has_observation,
                        );
                    },
                }
            },
            PlanState::MacOs(state) => {
                if !state.setrlimit_best_effort {
                    self.snapshot.capability = compute_capability(
                        state.enforcement_requested,
                        false,
                        self.snapshot.enforcement_gaps.len() > 0,
                        state.observation_root.is_some(),
                    );
                }
            },
            PlanState::Unsupported => {},
        }
    }

    /// Records what was read of the execution's resource use: the current
    /// metrics, the recent memory peak, and (Linux) whether a memory limit was
    /// hit; then recomputes the capability.
    pub fn capture(
        &mut self,
        current: ResourceMetrics,
        peak_memory: Option<u64>,
        enforcement_triggered: bool,
        has_observation: bool,
    )
        ensures
            final(self).state == old(self).state,
            final(self).snapshot.platform == old(self).snapshot.platform,
            final(self).snapshot.placement == old(self).snapshot.placement,
            final(self).snapshot.enforcement_gaps == old(self).snapshot.enforcement_gaps,
            old(self).state is Unsupported ==> final(self).snapshot == old(self).snapshot,
            !(old(self).state is Unsupported) ==> final(self).snapshot.current == current
                && final(self).snapshot.recent_peak == (ResourceMetrics {
                memory_current_bytes: None,
                memory_peak_bytes: peak_memory,
                cpu_usage_micros: None,
            }),
            old(self).state matches PlanState::Linux(st) ==> final(self).snapshot.enforcement_triggered
                == enforcement_triggered && final(self).snapshot.capability == capability_spec(
                st.enforcement_requested,
                old(self).snapshot.placement is Applied,
                old(self).snapshot.enforcement_gaps@.len() > 0,
                has_observation,
            ),
            old(self).state matches PlanState::MacOs(st) ==> final(self).snapshot.enforcement_triggered
                == old(self).snapshot.enforcement_triggered && final(self).snapshot.capability
                == capability_spec(
                st.enforcement_requested,
                st.setrlimit_best_effort,
                old(self).snapshot.enforcement_gaps@.len() > 0,
                st.observation_root is Some,
            ),
    {
        match &self.state {
            PlanState::Linux(state) => {
                self.snapshot.current = current;
                self.snapshot.recent_peak = ResourceMetrics {
                    memory_current_bytes: None,
                    memory_peak_bytes: peak_memory,
                    cpu_usage_micros: None,
                };
                self.snapshot.enforcement_triggered = enforcement_triggered;
                let applied = match &self.snapshot.placement {
                    PlacementState::Applied { .. } => true,
                    _ => false,
                };
                self.snapshot.capability = compute_capability(
                    state.enforcement_requested,
                    applied,
                    self.snapshot.enforcement_gaps.len() > 0,
                    has_observation,
                );
            },
            PlanState::MacOs(state) => {
                self.snapshot.current = current;
                self.snapshot.recent_peak = ResourceMetrics {
                    memory_current_bytes: None,
                    memory_peak_bytes: peak_memory,
                    cpu_usage_micros: None,
                };
                self.snapshot.capability = compute_capability(
                    state.enforcement_requested,
                    state.setrlimit_best_effort,
                    self.snapshot.enforcement_gaps.len() > 0,
                    state.observation_root.is_some(),
                );
            },
            PlanState::Unsupported => {},
        }
    }
}

/// The value of the `usage_usec` line of `cpu.stat`, as the first line whose
/// first two words are `usage_usec` and a parsable number.
pub open spec fn cpu_usage_of_lines(lines: Seq<Seq<char>>) -> Option<u64>
    decreases lines.len(),
{
    if lines.len() == 0 {
        None
    } else {
        let w = words(lines[0]);
        if w.len() >= 2 && w[0] == "usage_usec"@ && parse_u64_spec(w[1]) is Some {
            parse_u64_spec(w[1])
        } else {
            cpu_usage_of_lines(lines.drop_first())
        }
    }
}

pub fn parse_cpu_usage(lines: &Vec<String>) -> (r: Option<u64>)
    ensures
        r == cpu_usage_of_lines(views(lines@)),
{
    let mut i: usize = 0;
    assert(views(lines@).skip(0) =~= views(lines@));
    while i < lines.len()
        invariant
            i <= lines@.len(),
            cpu_usage_of_lines(views(lines@)) == cpu_usage_of_lines(views(lines@).skip(i as int)),
        decreases lines.len() - i,
    {
        let w = split_whitespace(lines[i].as_str());
        let ghost rest = views(lines@).skip(i as int);
        assert(rest[0] == lines@[i as int]@);
        assert(rest.drop_first() =~= views(lines@).skip(i + 1));
        if w.len() >= 2 && str_eq(w[0].as_str(), "usage_usec") {
            assert(views(w@)[0] == w@[0]@);
            assert(views(w@)[1] == w@[1]@);
            let v = parse_u64_str(w[1].as_str());
            if v.is_some() {
                return v;
            }
        }
        i = i + 1;
    }
    assert(views(lines@).skip(i as int).len() == 0);
    None
}

/// Whether `memory.events` reports that a memory limit was hit: some line
/// whose first two words are `high`, `max`, `oom` or `oom_kill` and a count
/// above zero.
pub open spec fn limit_event_line(line: Seq<char>) -> bool {
    let w = words(line);
    w.len() >= 2 && (w[0] == "high"@ || w[0] == "max"@ || w[0] == "oom"@ || w[0] == "oom_kill"@)
        && (match parse_u64_spec(w[1]) {
        Some(n) => n > 0,
        None => false,
    })
}

pub fn parse_enforcement_triggered(lines: &Vec<String>) -> (r: bool)
    ensures
        r == exists|i: int| 0 <= i < lines@.len() && limit_event_line(#[trigger] lines@[i]@),
{
    let mut i: usize = 0;
    while i < lines.len()
        invariant
            i <= lines@.len(),
            forall|j: int| 0 <= j < i ==> !limit_event_line(#[trigger] lines@[j]@),
        decreases lines.len() - i,
    {
        let w = split_whitespace(lines[i].as_str());
        let ghost wv = words(lines@[i as int]@);
        if w.len() >= 2 {
            assert(views(w@)[0] == w@[0]@);
            assert(views(w@)[1] == w@[1]@);
            let k = w[0].as_str();
            if str_eq(k, "high") || str_eq(k, "max") || str_eq(k, "oom") || str_eq(k, "oom_kill") {
                let n = parse_u64_str(w[1].as_str());
                match n {
                    Some(v) => {
                        if v > 0 {
                            assert(limit_event_line(lines@[i as int]@));
                            return true;
                        }
                    },
                    None => {},
                }
            }
        }
        i = i + 1;
    }
    false
}

/// `memory.current` or `memory.peak`: the trimmed file contents as a number.
pub fn parse_metric_file(contents: &str) -> (r: Option<u64>)
    ensures
        r == parse_u64_spec(trim(contents@)),
{
    parse_trimmed_u64(contents)
}

} // verus!
