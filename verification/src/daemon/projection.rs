//! The runtime projection: the daemon's view of every managed execution,
//! rebuilt by replaying the journal and reconciled against what the OS shows.

use vstd::prelude::*;
use crate::contracts::{ExecutionId, ProjectionState};
use crate::contracts::RetentionClass;
use crate::daemon::journal::{
    HEADER_LEN, JournalEvent, RecordedJournalEvent, ReplayError, lemma_record_offsets,
    lemma_scan_returns_appended_payloads, payloads_fit, records_of, scan_from,
};
use crate::daemon::launch::LifecycleStage;
use crate::daemon::ownership::{
    ManagedCleanupTarget, ObservedProcess, OwnershipError, ReconcileSummary, RuntimeOwnership,
    ownership_matches, ownership_matches_spec,
};
use crate::daemon::records::{BlobReference, EnvironmentSnapshotRecord, HistorySnapshotManifest};
use crate::daemon::views::{
    ExecutionModel, ExecutionView, GhostView, PortView, ServiceView, ViewerHandle,
    ViewerHandleError,
};
use crate::keyed::KeyedVec;
use crate::text::{concat2, owned};

verus! {

/// The model of a projection: every map keyed by the text of an execution id.
pub struct ProjectionModel {
    pub executions: Map<Seq<char>, ExecutionModel>,
    pub services: Map<Seq<char>, Map<Seq<char>, ServiceView>>,
    pub ports: Map<Seq<char>, Map<Seq<char>, PortView>>,
    pub ghosts: Map<Seq<char>, (ProjectionState, Seq<char>)>,
    pub env_snapshots: Map<Seq<char>, EnvironmentSnapshotRecord>,
    pub history_manifests: Map<Seq<char>, HistorySnapshotManifest>,
    pub degraded: Option<ReplayError>,
    pub journal_path: Option<Seq<char>>,
}

#[derive(Debug)]
pub struct RuntimeProjection {
    executions: KeyedVec<ExecutionView>,
    services: KeyedVec<KeyedVec<ServiceView>>,
    ports: KeyedVec<KeyedVec<PortView>>,
    ghosts: KeyedVec<GhostView>,
    env_snapshots: KeyedVec<EnvironmentSnapshotRecord>,
    history_manifests: KeyedVec<HistorySnapshotManifest>,
    degraded: Option<ReplayError>,
    journal_path: Option<String>,
}

pub open spec fn exec_models(m: Map<Seq<char>, ExecutionView>) -> Map<Seq<char>, ExecutionModel> {
    m.map_values(|e: ExecutionView| e@)
}

pub open spec fn inner_maps<V>(m: Map<Seq<char>, KeyedVec<V>>) -> Map<Seq<char>, Map<Seq<char>, V>> {
    m.map_values(|kv: KeyedVec<V>| kv.map())
}

pub open spec fn ghost_models(m: Map<Seq<char>, GhostView>) -> Map<
    Seq<char>,
    (ProjectionState, Seq<char>),
> {
    m.map_values(|g: GhostView| (g.state, g.detail@))
}

pub open spec fn opt_view(s: Option<String>) -> Option<Seq<char>> {
    match s {
        Some(x) => Some(x@),
        None => None,
    }
}

pub open spec fn inner_wf<V>(m: Map<Seq<char>, KeyedVec<V>>) -> bool {
    forall|k: Seq<char>| #[trigger] m.contains_key(k) ==> m[k].wf()
}

/// A fresh execution view, as the first event that mentions an execution
/// creates it.
pub open spec fn fresh_execution(exec_id: ExecutionId, command: Seq<char>) -> ExecutionModel {
    ExecutionModel {
        exec_id,
        state: ProjectionState::Unknown,
        observed_state: ProjectionState::Unknown,
        command: command,
        original_command: command,
        rewritten_command: None,
        policy_outcome: None,
        stdout: None,
        stderr: None,
        mode: None,
        lifecycle: seq![],
        ownership: None,
        resource_governance: None,
        service_override: None,
    }
}

/// The execution an event updates: the recorded one, or a fresh one.
pub open spec fn base_execution(m: ProjectionModel, exec_id: ExecutionId, command: Seq<char>) -> ExecutionModel {
    if m.executions.contains_key(exec_id@) {
        m.executions[exec_id@]
    } else {
        fresh_execution(exec_id, command)
    }
}

/// The lifecycle with `stage` added once.
pub open spec fn with_stage(s: Seq<LifecycleStage>, stage: LifecycleStage) -> Seq<LifecycleStage> {
    if s.contains(stage) {
        s
    } else {
        s.push(stage)
    }
}

pub open spec fn put_execution(m: ProjectionModel, key: Seq<char>, e: ExecutionModel) -> ProjectionModel {
    ProjectionModel { executions: m.executions.insert(key, e), ..m }
}

pub open spec fn nested_insert<V>(
    outer: Map<Seq<char>, Map<Seq<char>, V>>,
    k: Seq<char>,
    k2: Seq<char>,
    v: V,
) -> Map<Seq<char>, Map<Seq<char>, V>> {
    outer.insert(
        k,
        (if outer.contains_key(k) {
            outer[k]
        } else {
            Map::empty()
        }).insert(k2, v),
    )
}

pub open spec fn artifact_blob(a: Option<crate::daemon::records::RetainedArtifact>) -> Option<BlobReference> {
    match a {
        Some(x) => Some(x.blob),
        None => None,
    }
}

/// What replaying one journal event does to the projection.
pub open spec fn apply_event(m: ProjectionModel, event: JournalEvent) -> ProjectionModel {
    match event {
        JournalEvent::LaunchRequested { exec_id, original_command, mode } => {
            let e = base_execution(m, exec_id, original_command@);
            put_execution(
                m,
                exec_id@,
                ExecutionModel {
                    command: original_command@,
                    original_command: original_command@,
                    mode: Some(mode),
                    state: ProjectionState::Unknown,
                    observed_state: ProjectionState::Unknown,
                    lifecycle: with_stage(e.lifecycle, LifecycleStage::Requested),
                    ..e
                },
            )
        },
        JournalEvent::LaunchPolicyEvaluated { exec_id, rewritten_command, outcome } => {
            let e = base_execution(m, exec_id, seq![]);
            put_execution(
                m,
                exec_id@,
                ExecutionModel { rewritten_command, policy_outcome: Some(outcome), ..e },
            )
        },
        JournalEvent::LaunchAdmitted { exec_id, mode } => {
            let e = base_execution(m, exec_id, seq![]);
            put_execution(
                m,
                exec_id@,
                ExecutionModel {
                    mode: Some(mode),
                    lifecycle: with_stage(e.lifecycle, LifecycleStage::Admitted),
                    ..e
                },
            )
        },
        JournalEvent::ProcessSpawned { exec_id, state, mode, ownership, stdout, stderr } => {
            let e = base_execution(m, exec_id, seq![]);
            put_execution(
                m,
                exec_id@,
                ExecutionModel {
                    state,
                    observed_state: state,
                    mode: Some(mode),
                    ownership: Some(ownership),
                    stdout,
                    stderr,
                    lifecycle: with_stage(e.lifecycle, LifecycleStage::Spawned),
                    ..e
                },
            )
        },
        JournalEvent::ExecutionRegistered { exec_id, state, command, stdout, stderr } => {
            let e = base_execution(m, exec_id, command@);
            put_execution(
                m,
                exec_id@,
                ExecutionModel { state, observed_state: state, stdout, stderr, ..e },
            )
        },
        JournalEvent::ExecutionStateUpdated { exec_id, state } => {
            if m.executions.contains_key(exec_id@) {
                let e = m.executions[exec_id@];
                put_execution(
                    m,
                    exec_id@,
                    ExecutionModel {
                        state,
                        observed_state: state,
                        lifecycle: if state == ProjectionState::Exited {
                            with_stage(e.lifecycle, LifecycleStage::Exited)
                        } else {
                            e.lifecycle
                        },
                        ..e
                    },
                )
            } else {
                m
            }
        },
        JournalEvent::ServiceObserved { exec_id, service } => {
            let e = base_execution(m, exec_id, seq![]);
            let m2 = put_execution(
                m,
                exec_id@,
                ExecutionModel {
                    observed_state: ProjectionState::Service,
                    state: match e.service_override {
                        Some(s) => s,
                        None => ProjectionState::Service,
                    },
                    ..e
                },
            );
            ProjectionModel {
                services: nested_insert(m.services, exec_id@, service.name@, service),
                ..m2
            }
        },
        JournalEvent::ServiceOverrideApplied { exec_id, state } => {
            let e = base_execution(m, exec_id, seq![]);
            put_execution(
                m,
                exec_id@,
                ExecutionModel { service_override: Some(state), state, ..e },
            )
        },
        JournalEvent::PortObserved { exec_id, port } => {
            ProjectionModel { ports: nested_insert(m.ports, exec_id@, port.port_id@, port), ..m }
        },
        JournalEvent::GhostStateRecorded { exec_id, ghost_view } => {
            ProjectionModel {
                ghosts: m.ghosts.insert(exec_id@, (ghost_view.state, ghost_view.detail@)),
                ..m
            }
        },
        JournalEvent::ResourceGovernanceRecorded { exec_id, snapshot } => {
            let e = base_execution(m, exec_id, seq![]);
            put_execution(
                m,
                exec_id@,
                ExecutionModel { resource_governance: Some(snapshot), ..e },
            )
        },
        JournalEvent::HistorySnapshotRecorded { exec_id, env_snapshot, manifest } => {
            let e = base_execution(m, exec_id, seq![]);
            let m2 = put_execution(
                m,
                exec_id@,
                ExecutionModel {
                    stdout: artifact_blob(manifest.artifacts.stdout),
                    stderr: artifact_blob(manifest.artifacts.stderr),
                    ..e
                },
            );
            ProjectionModel {
                env_snapshots: m.env_snapshots.insert(exec_id@, env_snapshot),
                history_manifests: m.history_manifests.insert(exec_id@, *manifest),
                ..m2
            }
        },
    }
}

/// Replaying decoded journal events in order, stopping at the first event
/// that could not be decoded.
pub open spec fn replay_events(
    m: ProjectionModel,
    events: Seq<Result<JournalEvent, ReplayError>>,
) -> Result<ProjectionModel, ReplayError>
    decreases events.len(),
{
    if events.len() == 0 {
        Ok(m)
    } else {
        match events[0] {
            Ok(e) => replay_events(apply_event(m, e), events.drop_first()),
            Err(x) => Err(x),
        }
    }
}

pub open spec fn empty_model(journal_path: Seq<char>) -> ProjectionModel {
    ProjectionModel {
        executions: Map::empty(),
        services: Map::empty(),
        ports: Map::empty(),
        ghosts: Map::empty(),
        env_snapshots: Map::empty(),
        history_manifests: Map::empty(),
        degraded: None,
        journal_path: Some(journal_path),
    }
}

/// What replaying a journal yields: the projection of its decodable events;
/// structural corruption after them fails the replay, or, when degrading,
/// is kept as the projection's degraded reason.
pub open spec fn replay_spec(
    journal_path: Seq<char>,
    events: Seq<Result<JournalEvent, ReplayError>>,
    scan_error: Option<ReplayError>,
    degrade_on_error: bool,
) -> Result<ProjectionModel, ReplayError> {
    match replay_events(empty_model(journal_path), events) {
        Err(x) => Err(x),
        Ok(m) => match scan_error {
            None => Ok(m),
            Some(err) => if degrade_on_error {
                Ok(ProjectionModel { degraded: Some(err), ..m })
            } else {
                Err(err)
            },
        },
    }
}

/// The journal as decoded from disk: each framed record's event (or the
/// reason its payload could not be decoded), and the corruption that stopped
/// framing, if any.
pub struct DecodedJournal {
    pub events: Vec<Result<JournalEvent, ReplayError>>,
    pub scan_error: Option<ReplayError>,
}

pub open spec fn is_exited(e: ExecutionModel) -> bool {
    e.state == ProjectionState::Exited || e.observed_state == ProjectionState::Exited
        || e.lifecycle.contains(LifecycleStage::Exited)
}

pub open spec fn nonempty_at<V>(m: Map<Seq<char>, Map<Seq<char>, V>>, k: Seq<char>) -> bool {
    m.contains_key(k) && m[k].dom() != Set::<Seq<char>>::empty()
}

pub open spec fn mark_live(m: ProjectionModel, k: Seq<char>) -> ProjectionModel {
    if m.executions.contains_key(k) {
        let e = m.executions[k];
        let observed = if nonempty_at(m.services, k) {
            ProjectionState::Service
        } else {
            ProjectionState::Managed
        };
        let state = if observed == ProjectionState::Service {
            match e.service_override {
                Some(s) => s,
                None => ProjectionState::Service,
            }
        } else if e.state == ProjectionState::ShortTask {
            ProjectionState::ShortTask
        } else {
            ProjectionState::Managed
        };
        ProjectionModel {
            executions: m.executions.insert(
                k,
                ExecutionModel { observed_state: observed, state, ..e },
            ),
            ghosts: m.ghosts.remove(k),
            ..m
        }
    } else {
        m
    }
}

pub open spec fn mark_uncertain(
    m: ProjectionModel,
    k: Seq<char>,
    state: ProjectionState,
    detail: Seq<char>,
) -> ProjectionModel {
    if m.executions.contains_key(k) {
        let e = m.executions[k];
        ProjectionModel {
            executions: m.executions.insert(
                k,
                ExecutionModel { state, observed_state: state, ..e },
            ),
            ghosts: m.ghosts.insert(k, (state, detail)),
            ..m
        }
    } else {
        m
    }
}

pub open spec fn is_first_match(
    observed: Seq<ObservedProcess>,
    matched: Set<int>,
    own: RuntimeOwnership,
    i: int,
) -> bool {
    &&& 0 <= i < observed.len()
    &&& !matched.contains(i)
    &&& ownership_matches_spec(own, observed[i])
    &&& forall|j: int|
        0 <= j < i ==> matched.contains(j) || !ownership_matches_spec(own, #[trigger] observed[j])
}

pub open spec fn first_match(
    observed: Seq<ObservedProcess>,
    matched: Set<int>,
    own: RuntimeOwnership,
) -> Option<int> {
    if exists|i: int| is_first_match(observed, matched, own, i) {
        Some(choose|i: int| is_first_match(observed, matched, own, i))
    } else {
        None
    }
}

/// Reconciling one execution against the observed processes.
pub open spec fn reconcile_one(
    m: ProjectionModel,
    matched: Set<int>,
    k: Seq<char>,
    observed: Seq<ObservedProcess>,
) -> (ProjectionModel, Set<int>) {
    if !m.executions.contains_key(k) {
        (m, matched)
    } else {
        let e = m.executions[k];
        match e.ownership {
            None => (m, matched),
            Some(own) => match first_match(observed, matched, own) {
                Some(i) => (mark_live(m, k), matched.insert(i)),
                None => if is_exited(e) {
                    (ProjectionModel { ghosts: m.ghosts.remove(k), ..m }, matched)
                } else if exists|j: int|
                    0 <= j < observed.len() && (#[trigger] observed[j]).root_pid == own.root_pid {
                    (
                        mark_uncertain(
                            m,
                            k,
                            ProjectionState::Escaped,
                            "observed process did not match recorded ownership proof"@,
                        ),
                        matched,
                    )
                } else if nonempty_at(m.services, k) || nonempty_at(m.ports, k) {
                    (
                        mark_uncertain(
                            m,
                            k,
                            ProjectionState::Detached,
                            "managed root process is gone but runtime artifacts were previously observed"@,
                        ),
                        matched,
                    )
                } else {
                    (
                        mark_uncertain(
                            m,
                            k,
                            ProjectionState::Missing,
                            "managed root process is not visible in current OS observation"@,
                        ),
                        matched,
                    )
                },
            },
        }
    }
}

pub open spec fn reconcile_fold(
    m: ProjectionModel,
    matched: Set<int>,
    keys: Seq<Seq<char>>,
    observed: Seq<ObservedProcess>,
) -> (ProjectionModel, Set<int>)
    decreases keys.len(),
{
    if keys.len() == 0 {
        (m, matched)
    } else {
        let (m2, s2) = reconcile_one(m, matched, keys[0], observed);
        reconcile_fold(m2, s2, keys.drop_first(), observed)
    }
}

/// The observed processes whose index is not in `matched`, in order.
pub open spec fn unmatched(observed: Seq<ObservedProcess>, matched: Set<int>, n: int) -> Seq<
    ObservedProcess,
>
    decreases n,
{
    if n <= 0 {
        seq![]
    } else if matched.contains(n - 1) {
        unmatched(observed, matched, n - 1)
    } else {
        unmatched(observed, matched, n - 1).push(observed[n - 1])
    }
}

/// The uncertainty that keeps an execution from being cleaned up.
pub open spec fn cleanup_spec(m: ProjectionModel, exec_id: ExecutionId) -> Result<
    ManagedCleanupTarget,
    Seq<char>,
> {
    if !m.executions.contains_key(exec_id@) {
        Err("execution is not present in runtime projection"@)
    } else {
        let e = m.executions[exec_id@];
        if !(e.observed_state == ProjectionState::Managed || e.observed_state
            == ProjectionState::Service) {
            Err("execution is in uncertain reconciled state "@ + state_name(e.observed_state))
        } else {
            match e.ownership {
                None => Err("execution has no daemon-owned runtime ownership proof"@),
                Some(o) => if o.root_pid == 0 {
                    Err("managed root pid is missing"@)
                } else if o.process_group_id == 0 {
                    Err("managed process group id is missing"@)
                } else {
                    Ok(ManagedCleanupTarget { root_pid: o.root_pid, process_group_id: o.process_group_id })
                },
            }
        }
    }
}

pub open spec fn state_name(state: ProjectionState) -> Seq<char> {
    match state {
        ProjectionState::Managed => "managed"@,
        ProjectionState::Service => "service"@,
        ProjectionState::ShortTask => "short_task"@,
        ProjectionState::Missing => "missing"@,
        ProjectionState::Orphaned => "orphaned"@,
        ProjectionState::Escaped => "escaped"@,
        ProjectionState::Detached => "detached"@,
        ProjectionState::Exited => "exited"@,
        ProjectionState::Unknown => "unknown"@,
    }
}

pub fn projection_state_name(state: &ProjectionState) -> (r: &'static str)
    ensures
        r@ == state_name(*state),
{
    match state {
        ProjectionState::Managed => "managed",
        ProjectionState::Service => "service",
        ProjectionState::ShortTask => "short_task",
        ProjectionState::Missing => "missing",
        ProjectionState::Orphaned => "orphaned",
        ProjectionState::Escaped => "escaped",
        ProjectionState::Detached => "detached",
        ProjectionState::Exited => "exited",
        ProjectionState::Unknown => "unknown",
    }
}

pub fn push_lifecycle(stages: &mut Vec<LifecycleStage>, stage: LifecycleStage)
    ensures
        final(stages)@ == with_stage(old(stages)@, stage),
{
    let mut i: usize = 0;
    while i < stages.len()
        invariant
            i <= stages@.len(),
            forall|j: int| 0 <= j < i ==> stages@[j] != stage,
        decreases stages.len() - i,
    {
        if stages[i] == stage {
            assert(stages@.contains(stage));
            return;
        }
        i = i + 1;
    }
    stages.push(stage);
}

impl RuntimeProjection {
    pub closed spec fn wf(&self) -> bool {
        &&& self.executions.wf()
        &&& self.services.wf()
        &&& self.ports.wf()
        &&& self.ghosts.wf()
        &&& self.env_snapshots.wf()
        &&& self.history_manifests.wf()
        &&& inner_wf(self.services.map())
        &&& inner_wf(self.ports.map())
    }

    pub closed spec fn model(&self) -> ProjectionModel {
        ProjectionModel {
            executions: exec_models(self.executions.map()),
            services: inner_maps(self.services.map()),
            ports: inner_maps(self.ports.map()),
            ghosts: ghost_models(self.ghosts.map()),
            env_snapshots: self.env_snapshots.map(),
            history_manifests: self.history_manifests.map(),
            degraded: self.degraded,
            journal_path: opt_view(self.journal_path),
        }
    }

    /// The order in which reconciliation visits the executions: each key of
    /// the model exactly once.
    pub closed spec fn key_order(&self) -> Seq<Seq<char>> {
        self.executions.entries@.map_values(|e: (String, ExecutionView)| e.0@)
    }

    pub fn empty(journal_path: Option<String>) -> (r: Self)
        ensures
            r.wf(),
            r.model().executions == Map::<Seq<char>, ExecutionModel>::empty(),
            r.model().services == Map::<Seq<char>, Map<Seq<char>, ServiceView>>::empty(),
            r.model().ports == Map::<Seq<char>, Map<Seq<char>, PortView>>::empty(),
            r.model().ghosts == Map::<Seq<char>, (ProjectionState, Seq<char>)>::empty(),
            r.model().env_snapshots == Map::<Seq<char>, EnvironmentSnapshotRecord>::empty(),
            r.model().history_manifests == Map::<Seq<char>, HistorySnapshotManifest>::empty(),
            r.model().degraded is None,
            r.model().journal_path == opt_view(journal_path),
    {
        let r = RuntimeProjection {
            executions: KeyedVec::new(),
            services: KeyedVec::new(),
            ports: KeyedVec::new(),
            ghosts: KeyedVec::new(),
            env_snapshots: KeyedVec::new(),
            history_manifests: KeyedVec::new(),
            degraded: None,
            journal_path,
        };
        assert(r.model().executions =~= Map::<Seq<char>, ExecutionModel>::empty());
        assert(r.model().services =~= Map::<Seq<char>, Map<Seq<char>, ServiceView>>::empty());
        assert(r.model().ports =~= Map::<Seq<char>, Map<Seq<char>, PortView>>::empty());
        assert(r.model().ghosts =~= Map::<Seq<char>, (ProjectionState, Seq<char>)>::empty());
        r
    }

    pub fn execution(&self, exec_id: &str) -> (r: Option<&ExecutionView>)
        requires
            self.wf(),
        ensures
            r is Some <==> self.model().executions.contains_key(exec_id@),
            r matches Some(e) ==> e@ == self.model().executions[exec_id@],
    {
        self.executions.get(exec_id)
    }

    pub fn service(&self, exec_id: &str, name: &str) -> (r: Option<&ServiceView>)
        requires
            self.wf(),
        ensures
            r is Some <==> (self.model().services.contains_key(exec_id@)
                && self.model().services[exec_id@].contains_key(name@)),
            r matches Some(s) ==> *s == self.model().services[exec_id@][name@],
    {
        match self.services.get(exec_id) {
            Some(inner) => inner.get(name),
            None => None,
        }
    }

    pub fn port(&self, exec_id: &str, port_id: &str) -> (r: Option<&PortView>)
        requires
            self.wf(),
        ensures
            r is Some <==> (self.model().ports.contains_key(exec_id@)
                && self.model().ports[exec_id@].contains_key(port_id@)),
            r matches Some(p) ==> *p == self.model().ports[exec_id@][port_id@],
    {
        match self.ports.get(exec_id) {
            Some(inner) => inner.get(port_id),
            None => None,
        }
    }

    pub fn ghost_of(&self, exec_id: &str) -> (r: Option<&GhostView>)
        requires
            self.wf(),
        ensures
            r is Some <==> self.model().ghosts.contains_key(exec_id@),
            r matches Some(g) ==> (g.state, g.detail@) == self.model().ghosts[exec_id@],
    {
        self.ghosts.get(exec_id)
    }

    pub fn env_snapshot(&self, exec_id: &str) -> (r: Option<&EnvironmentSnapshotRecord>)
        requires
            self.wf(),
        ensures
            r is Some <==> self.model().env_snapshots.contains_key(exec_id@),
            r matches Some(s) ==> *s == self.model().env_snapshots[exec_id@],
    {
        self.env_snapshots.get(exec_id)
    }

    pub fn history_manifest(&self, exec_id: &str) -> (r: Option<&HistorySnapshotManifest>)
        requires
            self.wf(),
        ensures
            r is Some <==> self.model().history_manifests.contains_key(exec_id@),
            r matches Some(s) ==> *s == self.model().history_manifests[exec_id@],
    {
        self.history_manifests.get(exec_id)
    }

    pub fn is_degraded(&self) -> (r: bool)
        ensures
            r == self.model().degraded is Some,
    {
        self.degraded.is_some()
    }

    pub fn degraded_reason(&self) -> (r: Option<&ReplayError>)
        ensures
            r is Some <==> self.model().degraded is Some,
            r matches Some(e) ==> self.model().degraded == Some(*e),
    {
        self.degraded.as_ref()
    }

    pub fn journal_path(&self) -> (r: Option<&str>)
        ensures
            r is Some <==> self.model().journal_path is Some,
            r matches Some(p) ==> self.model().journal_path == Some(p@),
    {
        match &self.journal_path {
            Some(p) => Some(p.as_str()),
            None => None,
        }
    }

    /// The handle a viewer may attach with: only for a known execution with
    /// an ownership proof.
    pub fn viewer_handle(&self, exec_id: &ExecutionId) -> (r: Result<ViewerHandle, ViewerHandleError>)
        requires
            self.wf(),
        ensures
            !self.model().executions.contains_key(exec_id@) ==> (r matches Err(
                ViewerHandleError::UnknownExecution { exec_id: id },
            ) && id == *exec_id),
            self.model().executions.contains_key(exec_id@) ==> (r is Ok
                <==> self.model().executions[exec_id@].ownership is Some),
            r matches Ok(h) ==> h.exec_id == self.model().executions[exec_id@].exec_id && h.stdout
                == self.model().executions[exec_id@].stdout && h.stderr
                == self.model().executions[exec_id@].stderr && opt_view(h.journal_path)
                == self.model().journal_path,
            self.model().executions.contains_key(exec_id@) ==> (r matches Err(e) ==> (e matches ViewerHandleError::Unavailable { exec_id: id, reason }
                && id == self.model().executions[exec_id@].exec_id && reason@
                == "execution has no daemon-owned runtime ownership proof"@)),
    {
        let execution = match self.execution(exec_id.as_str()) {
            Some(e) => e,
            None => {
                return Err(ViewerHandleError::UnknownExecution { exec_id: exec_id.duplicate() });
            },
        };
        let path = match &self.journal_path {
            Some(p) => Some(p.clone()),
            None => None,
        };
        ViewerHandle::from_execution(execution, path)
    }

    /// The process group the daemon may signal to clean up an execution: only
    /// a known execution, live as managed or service, with a complete
    /// ownership proof.
    pub fn cleanup_target(&self, exec_id: &ExecutionId) -> (r: Result<ManagedCleanupTarget, OwnershipError>)
        requires
            self.wf(),
        ensures
            cleanup_spec(self.model(), *exec_id) matches Ok(t) ==> r == Ok::<
                ManagedCleanupTarget,
                OwnershipError,
            >(t),
            cleanup_spec(self.model(), *exec_id) matches Err(msg) ==> (r matches Err(
                OwnershipError::InsufficientProof { exec_id: id, reason },
            ) && id == Some(*exec_id) && reason@ == msg),
    {
        let execution = match self.execution(exec_id.as_str()) {
            Some(e) => e,
            None => {
                return Err(
                    OwnershipError::InsufficientProof {
                        exec_id: Some(exec_id.duplicate()),
                        reason: "execution is not present in runtime projection".to_owned(),
                    },
                );
            },
        };
        if !(execution.observed_state == ProjectionState::Managed || execution.observed_state
            == ProjectionState::Service) {
            let name = projection_state_name(&execution.observed_state);
            return Err(
                OwnershipError::InsufficientProof {
                    exec_id: Some(exec_id.duplicate()),
                    reason: concat2("execution is in uncertain reconciled state ", name),
                },
            );
        }
        match &execution.ownership {
            None => Err(
                OwnershipError::InsufficientProof {
                    exec_id: Some(exec_id.duplicate()),
                    reason: "execution has no daemon-owned runtime ownership proof".to_owned(),
                },
            ),
            Some(ownership) => match ownership.cleanup_target() {
                Ok(t) => Ok(t),
                Err(OwnershipError::InsufficientProof { reason, .. }) => Err(
                    OwnershipError::InsufficientProof { exec_id: Some(exec_id.duplicate()), reason },
                ),
            },
        }
    }
}


fn nested_put<V>(outer: &mut KeyedVec<KeyedVec<V>>, k: &str, k2: String, v: V)
    requires
        old(outer).wf(),
        inner_wf(old(outer).map()),
    ensures
        final(outer).wf(),
        inner_wf(final(outer).map()),
        inner_maps(final(outer).map()) == nested_insert(inner_maps(old(outer).map()), k@, k2@, v),
{
    let ghost om = old(outer).map();
    let mut inner = match outer.remove(k) {
        Some(inner) => inner,
        None => KeyedVec::new(),
    };
    let ghost before = inner.map();
    inner.insert(k2, v);
    outer.insert(k.to_owned(), inner);
    proof {
        let nm = outer.map();
        assert(nm =~= om.remove(k@).insert(k@, inner));
        assert forall|key: Seq<char>| #[trigger] nm.contains_key(key) implies nm[key].wf() by {
            if key != k@ {
                assert(om.contains_key(key));
            }
        }
        if om.contains_key(k@) {
            assert(before == om[k@].map());
        } else {
            assert(before == Map::<Seq<char>, V>::empty());
        }
        assert(inner_maps(nm) =~= nested_insert(inner_maps(om), k@, k2@, v));
    }
}

impl RuntimeProjection {
    /// Removes the execution recorded under `exec_id` and returns it, or a
    /// fresh one with `command` when none is recorded.
    fn take_execution(&mut self, exec_id: &ExecutionId, command: String) -> (r: ExecutionView)
        requires
            old(self).wf(),
        ensures
            final(self).wf(),
            r@ == base_execution(old(self).model(), *exec_id, command@),
            final(self).model() == (ProjectionModel {
                executions: old(self).model().executions.remove(exec_id@),
                ..old(self).model()
            }),
    {
        let ghost om = self.executions.map();
        let taken = self.executions.remove(exec_id.as_str());
        let r = match taken {
            Some(e) => e,
            None => ExecutionView {
                exec_id: exec_id.duplicate(),
                state: ProjectionState::Unknown,
                observed_state: ProjectionState::Unknown,
                command: command.clone(),
                original_command: command,
                rewritten_command: None,
                policy_outcome: None,
                stdout: None,
                stderr: None,
                mode: None,
                lifecycle: Vec::new(),
                ownership: None,
                resource_governance: None,
                service_override: None,
            },
        };
        proof {
            assert(exec_models(self.executions.map()) =~= exec_models(om).remove(exec_id@));
            if om.contains_key(exec_id@) {
                assert(exec_models(om)[exec_id@] == om[exec_id@]@);
            } else {
                assert(r@.lifecycle =~= Seq::<LifecycleStage>::empty());
            }
        }
        r
    }

    /// Records `e` under `exec_id`.
    fn put_execution(&mut self, exec_id: &ExecutionId, e: ExecutionView)
        requires
            old(self).wf(),
        ensures
            final(self).wf(),
            final(self).model() == put_execution(old(self).model(), exec_id@, e@),
    {
        let ghost om = self.executions.map();
        let ghost ev = e@;
        self.executions.insert(exec_id.0.clone(), e);
        assert(exec_models(self.executions.map()) =~= exec_models(om).insert(exec_id@, ev));
    }

    /// Records a fresh execution under `exec_id` unless one is recorded.
    pub fn ensure_execution(&mut self, exec_id: &ExecutionId, command: String)
        requires
            old(self).wf(),
        ensures
            final(self).wf(),
            final(self).model() == put_execution(
                old(self).model(),
                exec_id@,
                base_execution(old(self).model(), *exec_id, command@),
            ),
    {
        let ghost m0 = self.model();
        let ghost b = base_execution(m0, *exec_id, command@);
        let e = self.take_execution(exec_id, command);
        self.put_execution(exec_id, e);
        proof {
            assert(m0.executions.remove(exec_id@).insert(exec_id@, b) =~= m0.executions.insert(
                exec_id@,
                b,
            ));
        }
    }

    /// Applies one journal event to the projection.
    pub fn apply(&mut self, event: JournalEvent)
        requires
            old(self).wf(),
        ensures
            final(self).wf(),
            final(self).model() == apply_event(old(self).model(), event),
    {
        let ghost m0 = self.model();
        let ghost ev = event;
        match event {
            JournalEvent::LaunchRequested { exec_id, original_command, mode } => {
                let mut e = self.take_execution(&exec_id, original_command.clone());
                e.command = original_command.clone();
                e.original_command = original_command;
                e.mode = Some(mode);
                e.state = ProjectionState::Unknown;
                e.observed_state = ProjectionState::Unknown;
                push_lifecycle(&mut e.lifecycle, LifecycleStage::Requested);
                self.put_execution(&exec_id, e);
                proof { self.lemma_put_after_take(m0, exec_id@); }
            },
            JournalEvent::LaunchPolicyEvaluated { exec_id, rewritten_command, outcome } => {
                let mut e = self.take_execution(&exec_id, String::new());
                e.rewritten_command = rewritten_command;
                e.policy_outcome = Some(outcome);
                self.put_execution(&exec_id, e);
                proof { self.lemma_put_after_take(m0, exec_id@); }
            },
            JournalEvent::LaunchAdmitted { exec_id, mode } => {
                let mut e = self.take_execution(&exec_id, String::new());
                e.mode = Some(mode);
                push_lifecycle(&mut e.lifecycle, LifecycleStage::Admitted);
                self.put_execution(&exec_id, e);
                proof { self.lemma_put_after_take(m0, exec_id@); }
            },
            JournalEvent::ProcessSpawned { exec_id, state, mode, ownership, stdout, stderr } => {
                let mut e = self.take_execution(&exec_id, String::new());
                e.state = state;
                e.observed_state = state;
                e.mode = Some(mode);
                e.ownership = Some(ownership);
                e.stdout = stdout;
                e.stderr = stderr;
                push_lifecycle(&mut e.lifecycle, LifecycleStage::Spawned);
                self.put_execution(&exec_id, e);
                proof { self.lemma_put_after_take(m0, exec_id@); }
            },
            JournalEvent::ExecutionRegistered { exec_id, state, command, stdout, stderr } => {
                let mut e = self.take_execution(&exec_id, command);
                e.state = state;
                e.observed_state = state;
                e.stdout = stdout;
                e.stderr = stderr;
                self.put_execution(&exec_id, e);
                proof { self.lemma_put_after_take(m0, exec_id@); }
            },
            JournalEvent::ExecutionStateUpdated { exec_id, state } => {
                if self.executions.contains_key(exec_id.as_str()) {
                    let mut e = self.take_execution(&exec_id, String::new());
                    e.state = state;
                    e.observed_state = state;
                    if state == ProjectionState::Exited {
                        push_lifecycle(&mut e.lifecycle, LifecycleStage::Exited);
                    }
                    self.put_execution(&exec_id, e);
                    proof { self.lemma_put_after_take(m0, exec_id@); }
                } else {
                    assert(exec_models(self.executions.map()).contains_key(exec_id@)
                        == self.executions.map().contains_key(exec_id@));
                }
            },
            JournalEvent::ServiceObserved { exec_id, service } => {
                let mut e = self.take_execution(&exec_id, String::new());
                e.observed_state = ProjectionState::Service;
                e.state = match e.service_override {
                    Some(s) => s,
                    None => ProjectionState::Service,
                };
                self.put_execution(&exec_id, e);
                proof { self.lemma_put_after_take(m0, exec_id@); }
                let name = service.name.clone();
                nested_put(&mut self.services, exec_id.as_str(), name, service);
            },
            JournalEvent::ServiceOverrideApplied { exec_id, state } => {
                let mut e = self.take_execution(&exec_id, String::new());
                e.service_override = Some(state);
                e.state = state;
                self.put_execution(&exec_id, e);
                proof { self.lemma_put_after_take(m0, exec_id@); }
            },
            JournalEvent::PortObserved { exec_id, port } => {
                let id = port.port_id.clone();
                nested_put(&mut self.ports, exec_id.as_str(), id, port);
            },
            JournalEvent::GhostStateRecorded { exec_id, ghost_view } => {
                let ghost om = self.ghosts.map();
                let ghost gv = ghost_view;
                self.ghosts.insert(exec_id.0.clone(), ghost_view);
                assert(ghost_models(self.ghosts.map()) =~= ghost_models(om).insert(
                    exec_id@,
                    (gv.state, gv.detail@),
                ));
            },
            JournalEvent::ResourceGovernanceRecorded { exec_id, snapshot } => {
                let mut e = self.take_execution(&exec_id, String::new());
                e.resource_governance = Some(snapshot);
                self.put_execution(&exec_id, e);
                proof { self.lemma_put_after_take(m0, exec_id@); }
            },
            JournalEvent::HistorySnapshotRecorded { exec_id, env_snapshot, manifest } => {
                let stdout = match &manifest.artifacts.stdout {
                    Some(a) => Some(a.blob.clone()),
                    None => None,
                };
                let stderr = match &manifest.artifacts.stderr {
                    Some(a) => Some(a.blob.clone()),
                    None => None,
                };
                let mut e = self.take_execution(&exec_id, String::new());
                e.stdout = stdout;
                e.stderr = stderr;
                self.put_execution(&exec_id, e);
                proof { self.lemma_put_after_take(m0, exec_id@); }
                self.env_snapshots.insert(exec_id.0.clone(), env_snapshot);
                self.history_manifests.insert(exec_id.0.clone(), *manifest);
            },
        }
    }

    proof fn lemma_put_after_take(&self, m0: ProjectionModel, k: Seq<char>)
        ensures
            m0.executions.remove(k).insert(k, self.model().executions[k]) == m0.executions.insert(
                k,
                self.model().executions[k],
            ),
    {
        assert(m0.executions.remove(k).insert(k, self.model().executions[k]) =~= m0.executions.insert(
            k,
            self.model().executions[k],
        ));
    }
}

impl RuntimeProjection {
    /// Replays a decoded journal: every decodable event in order; an event
    /// that could not be decoded fails the replay; framing corruption after
    /// the events fails it too, unless the replay degrades, in which case the
    /// projection keeps the corruption as its degraded reason.
    pub fn replay_projection(journal_path: &str, decoded: DecodedJournal, degrade_on_error: bool) -> (r:
        Result<Self, ReplayError>)
        ensures
            r matches Ok(p) ==> p.wf() && replay_spec(
                journal_path@,
                decoded.events@,
                decoded.scan_error,
                degrade_on_error,
            ) == Ok::<ProjectionModel, ReplayError>(p.model()),
            r matches Err(e) ==> replay_spec(
                journal_path@,
                decoded.events@,
                decoded.scan_error,
                degrade_on_error,
            ) == Err::<ProjectionModel, ReplayError>(e),
    {
        let mut projection = Self::empty(Some(journal_path.to_owned()));
        assert(projection.model() == empty_model(journal_path@));
        let ghost all = decoded.events@;
        let ghost scan = decoded.scan_error;
        let DecodedJournal { mut events, scan_error } = decoded;
        assert(events@ == all && scan_error == scan);
        while events.len() > 0
            invariant
                projection.wf(),
                all == decoded.events@,
                replay_events(empty_model(journal_path@), all) == replay_events(
                    projection.model(),
                    events@,
                ),
            decreases events@.len(),
        {
            let ghost before = events@;
            let item = events.remove(0);
            assert(events@ =~= before.drop_first());
            match item {
                Ok(event) => {
                    projection.apply(event);
                },
                Err(error) => {
                    assert(before[0] == Err::<JournalEvent, ReplayError>(error));
                    assert(replay_events(projection.model(), before) == Err::<
                        ProjectionModel,
                        ReplayError,
                    >(error));
                    return Err(error);
                },
            }
        }
        match scan_error {
            None => Ok(projection),
            Some(error) => finish_replay(projection, error, degrade_on_error),
        }
    }

    pub fn replay_from_path(journal_path: &str, decoded: DecodedJournal) -> (r: Result<Self, ReplayError>)
        ensures
            r matches Ok(p) ==> p.wf() && replay_spec(
                journal_path@,
                decoded.events@,
                decoded.scan_error,
                false,
            ) == Ok::<ProjectionModel, ReplayError>(p.model()),
            r matches Err(e) ==> replay_spec(journal_path@, decoded.events@, decoded.scan_error, false)
                == Err::<ProjectionModel, ReplayError>(e),
    {
        Self::replay_projection(journal_path, decoded, false)
    }

    pub fn replay_with_degraded_state(journal_path: &str, decoded: DecodedJournal) -> (r: Result<
        Self,
        ReplayError,
    >)
        ensures
            r matches Ok(p) ==> p.wf() && replay_spec(
                journal_path@,
                decoded.events@,
                decoded.scan_error,
                true,
            ) == Ok::<ProjectionModel, ReplayError>(p.model()),
            r matches Err(e) ==> replay_spec(journal_path@, decoded.events@, decoded.scan_error, true)
                == Err::<ProjectionModel, ReplayError>(e),
    {
        Self::replay_projection(journal_path, decoded, true)
    }
}

pub fn finish_replay(projection: RuntimeProjection, error: ReplayError, degrade_on_error: bool) -> (r:
    Result<RuntimeProjection, ReplayError>)
    requires
        projection.wf(),
    ensures
        degrade_on_error ==> (r matches Ok(p) && p.wf() && p.model() == (ProjectionModel {
            degraded: Some(error),
            ..projection.model()
        })),
        !degrade_on_error ==> r == Err::<RuntimeProjection, ReplayError>(error),
{
    if degrade_on_error {
        let mut projection = projection;
        projection.degraded = Some(error);
        Ok(projection)
    } else {
        Err(error)
    }
}

/// Replay with degradation never loses a decodable event: whenever the
/// strict replay succeeds, the degraded replay gives the same projection, and
/// on framing corruption the degraded replay still yields every event before
/// it, with the corruption recorded.
/// A journal event as the history shows it: where its record starts, and
/// that it is kept as long-lived metadata.
pub open spec fn recorded(offset: u64, event: JournalEvent) -> RecordedJournalEvent {
    RecordedJournalEvent { offset, retention: RetentionClass::MetadataLongLived, event }
}

/// The journal's history from its decoded records and the offsets where
/// they start: the first record that could not be decoded fails it, then
/// the corruption that stopped framing.
pub open spec fn history_spec(
    offsets: Seq<u64>,
    events: Seq<Result<JournalEvent, ReplayError>>,
    scan_error: Option<ReplayError>,
) -> Result<Seq<RecordedJournalEvent>, ReplayError>
    decreases events.len(),
{
    if events.len() == 0 {
        match scan_error {
            None => Ok(seq![]),
            Some(e) => Err(e),
        }
    } else {
        match events[0] {
            Err(x) => Err(x),
            Ok(e) => match history_spec(offsets.drop_first(), events.drop_first(), scan_error) {
                Ok(rest) => Ok(seq![recorded(offsets[0], e)] + rest),
                Err(x) => Err(x),
            },
        }
    }
}

pub open spec fn prepend_history(
    done: Seq<RecordedJournalEvent>,
    rest: Result<Seq<RecordedJournalEvent>, ReplayError>,
) -> Result<Seq<RecordedJournalEvent>, ReplayError> {
    match rest {
        Ok(r) => Ok(done + r),
        Err(x) => Err(x),
    }
}

/// The history of a decoded journal whose records start at `offsets`.
pub fn recorded_history(offsets: &Vec<u64>, decoded: DecodedJournal) -> (r: Result<
    Vec<RecordedJournalEvent>,
    ReplayError,
>)
    requires
        offsets@.len() == decoded.events@.len(),
    ensures
        r matches Ok(h) ==> history_spec(offsets@, decoded.events@, decoded.scan_error) == Ok::<
            Seq<RecordedJournalEvent>,
            ReplayError,
        >(h@),
        r matches Err(e) ==> history_spec(offsets@, decoded.events@, decoded.scan_error) == Err::<
            Seq<RecordedJournalEvent>,
            ReplayError,
        >(e),
{
    let ghost all = decoded.events@;
    let ghost scan = decoded.scan_error;
    let DecodedJournal { mut events, scan_error } = decoded;
    assert(events@ == all && scan_error == scan);
    let mut out: Vec<RecordedJournalEvent> = Vec::new();
    let n = offsets.len();
    let mut i: usize = 0;
    assert(offsets@.skip(0) =~= offsets@);
    assert(all.skip(0) =~= all);
    assert(out@ + Seq::<RecordedJournalEvent>::empty() =~= out@);
    while events.len() > 0
        invariant
            offsets@.len() == all.len(),
            all == decoded.events@,
            scan == decoded.scan_error,
            n == all.len(),
            i <= all.len(),
            events@ == all.skip(i as int),
            events@.len() == all.len() - i,
            scan_error == scan,
            history_spec(offsets@, all, scan) == prepend_history(
                out@,
                history_spec(offsets@.skip(i as int), events@, scan),
            ),
        decreases events@.len(),
    {
        let ghost before = events@;
        let ghost os = offsets@.skip(i as int);
        let item = events.remove(0);
        assert(events@ =~= before.drop_first());
        assert(before.drop_first() =~= all.skip(i + 1));
        assert(os.drop_first() =~= offsets@.skip(i + 1));
        assert(os[0] == offsets@[i as int]);
        match item {
            Ok(event) => {
                let ghost done = out@;
                out.push(RecordedJournalEvent {
                    offset: offsets[i],
                    retention: RetentionClass::MetadataLongLived,
                    event,
                });
                assert(out@ =~= done + seq![recorded(offsets@[i as int], event)]);
                proof {
                    let rest = history_spec(offsets@.skip(i + 1), events@, scan);
                    if rest is Ok {
                        let r = rest->Ok_0;
                        assert(done + (seq![recorded(offsets@[i as int], event)] + r) =~= out@
                            + r);
                    }
                }
            },
            Err(error) => {
                assert(before[0] == Err::<JournalEvent, ReplayError>(error));
                assert(history_spec(os, before, scan) == Err::<
                    Seq<RecordedJournalEvent>,
                    ReplayError,
                >(error));
                assert(history_spec(offsets@, all, scan) == Err::<
                    Seq<RecordedJournalEvent>,
                    ReplayError,
                >(error));
                return Err(error);
            },
        }
        i = i + 1;
    }
    match scan_error {
        None => {
            assert(out@ + Seq::<RecordedJournalEvent>::empty() =~= out@);
            Ok(out)
        },
        Some(error) => Err(error),
    }
}

proof fn lemma_replay_keeps_path(m: ProjectionModel, events: Seq<JournalEvent>)
    ensures
        replay_events(m, events.map_values(|e: JournalEvent| Ok::<JournalEvent, ReplayError>(e)))
            matches Ok(r) && r.degraded == m.degraded && r.journal_path == m.journal_path,
    decreases events.len(),
{
    let ok = events.map_values(|e: JournalEvent| Ok::<JournalEvent, ReplayError>(e));
    if events.len() > 0 {
        let m2 = apply_event(m, events[0]);
        assert(m2.degraded == m.degraded && m2.journal_path == m.journal_path);
        assert(ok.drop_first() =~= events.drop_first().map_values(
            |e: JournalEvent| Ok::<JournalEvent, ReplayError>(e),
        ));
        lemma_replay_keeps_path(m2, events.drop_first());
    }
}

proof fn lemma_clean_history(offsets: Seq<u64>, events: Seq<JournalEvent>)
    requires
        offsets.len() == events.len(),
    ensures
        history_spec(
            offsets,
            events.map_values(|e: JournalEvent| Ok::<JournalEvent, ReplayError>(e)),
            None,
        ) == Ok::<Seq<RecordedJournalEvent>, ReplayError>(
            Seq::new(events.len(), |i: int| recorded(offsets[i], events[i])),
        ),
    decreases events.len(),
{
    let ok = events.map_values(|e: JournalEvent| Ok::<JournalEvent, ReplayError>(e));
    if events.len() == 0 {
        assert(Seq::new(events.len(), |i: int| recorded(offsets[i], events[i])) =~= Seq::<
            RecordedJournalEvent,
        >::empty());
    } else {
        assert(ok[0] == Ok::<JournalEvent, ReplayError>(events[0]));
        assert(ok.drop_first() =~= events.drop_first().map_values(
            |e: JournalEvent| Ok::<JournalEvent, ReplayError>(e),
        ));
        lemma_clean_history(offsets.drop_first(), events.drop_first());
        assert(seq![recorded(offsets[0], events[0])] + Seq::new(
            events.drop_first().len(),
            |i: int| recorded(offsets.drop_first()[i], events.drop_first()[i]),
        ) =~= Seq::new(events.len(), |i: int| recorded(offsets[i], events[i])));
    }
}

/// A journal written record by record holds exactly what was appended: each
/// record frames its payload whole, replaying the decoded events succeeds
/// without degradation and keeps the journal's path, and the history lists
/// the events in order, the first at offset 0 and each record right after
/// the one before, all kept as long-lived metadata.
pub proof fn lemma_appended_journal_replays(
    journal_path: Seq<char>,
    payloads: Seq<Seq<u8>>,
    events: Seq<JournalEvent>,
)
    requires
        payloads_fit(payloads),
        records_of(payloads).len() <= usize::MAX,
        events.len() == payloads.len(),
    ensures
        ({
            let b = records_of(payloads);
            let (frames, err) = scan_from(b, 0);
            let decoded = events.map_values(|e: JournalEvent| Ok::<JournalEvent, ReplayError>(e));
            let offsets = frames.map_values(|f: crate::daemon::journal::RecordFrame| f.offset);
            &&& err is None
            &&& frames.len() == payloads.len()
            &&& forall|k: int|
                0 <= k < frames.len() ==> b.subrange(
                    (#[trigger] frames[k]).payload_start as int,
                    frames[k].payload_start + frames[k].payload_len,
                ) == payloads[k]
            &&& replay_spec(journal_path, decoded, err, false) matches Ok(m) && m.degraded is None
                && m.journal_path == Some(journal_path)
            &&& history_spec(offsets, decoded, err) matches Ok(h) && h.len() == events.len()
                && (forall|k: int|
                0 <= k < h.len() ==> (#[trigger] h[k]).event == events[k] && h[k].retention
                    == RetentionClass::MetadataLongLived) && (h.len() > 0 ==> h[0].offset == 0)
                && (forall|k: int|
                0 <= k < h.len() - 1 ==> #[trigger] h[k + 1].offset == h[k].offset + HEADER_LEN
                    + payloads[k].len())
        }),
{
    let b = records_of(payloads);
    let (frames, err) = scan_from(b, 0);
    let offsets = frames.map_values(|f: crate::daemon::journal::RecordFrame| f.offset);
    lemma_scan_returns_appended_payloads(payloads);
    lemma_record_offsets(payloads);
    lemma_replay_keeps_path(empty_model(journal_path), events);
    lemma_clean_history(offsets, events);
    let h = Seq::new(events.len(), |i: int| recorded(offsets[i], events[i]));
    assert forall|k: int| 0 <= k < h.len() - 1 implies #[trigger] h[k + 1].offset == h[k].offset
        + HEADER_LEN + payloads[k].len() by {
        assert(frames[k + 1].offset == frames[k].offset + HEADER_LEN + payloads[k].len());
    }
}

/// The execution an event names, when it is one of those that update an
/// execution record.
pub open spec fn updated_execution(event: JournalEvent) -> Option<ExecutionId> {
    match event {
        JournalEvent::LaunchRequested { exec_id, .. } => Some(exec_id),
        JournalEvent::LaunchPolicyEvaluated { exec_id, .. } => Some(exec_id),
        JournalEvent::LaunchAdmitted { exec_id, .. } => Some(exec_id),
        JournalEvent::ProcessSpawned { exec_id, .. } => Some(exec_id),
        JournalEvent::ExecutionRegistered { exec_id, .. } => Some(exec_id),
        JournalEvent::ExecutionStateUpdated { exec_id, .. } => Some(exec_id),
        JournalEvent::ServiceObserved { exec_id, .. } => Some(exec_id),
        JournalEvent::ServiceOverrideApplied { exec_id, .. } => Some(exec_id),
        JournalEvent::ResourceGovernanceRecorded { exec_id, .. } => Some(exec_id),
        JournalEvent::HistorySnapshotRecorded { exec_id, .. } => Some(exec_id),
        _ => None,
    }
}

/// Each journal event records what it carries on the execution it names,
/// field for field, and leaves every other execution as it was: a spawn
/// keeps its state as both the effective and the observed state, its mode,
/// its ownership proof and its stdout and stderr blobs each in its own
/// place; a registration likewise; a request keeps the command as typed; a
/// policy decision keeps the rewritten command and the outcome; ports and
/// ghost states land under the execution's key.
pub proof fn lemma_events_record_what_they_carry(m: ProjectionModel, event: JournalEvent)
    ensures
        ({
            let r = apply_event(m, event);
            &&& forall|k: Seq<char>|
                (updated_execution(event) matches Some(id) ==> k != id@) ==> (
                #[trigger] r.executions.contains_key(k) == m.executions.contains_key(k) && (
                m.executions.contains_key(k) ==> r.executions[k] == m.executions[k]))
            &&& match event {
                JournalEvent::LaunchRequested { exec_id, original_command, mode } => {
                    let e = r.executions[exec_id@];
                    &&& e.command == original_command@
                    &&& e.original_command == original_command@
                    &&& e.mode == Some(mode)
                    &&& e.state == ProjectionState::Unknown
                    &&& e.lifecycle.contains(LifecycleStage::Requested)
                },
                JournalEvent::LaunchPolicyEvaluated { exec_id, rewritten_command, outcome } => {
                    let e = r.executions[exec_id@];
                    &&& e.rewritten_command == rewritten_command
                    &&& e.policy_outcome == Some(outcome)
                },
                JournalEvent::LaunchAdmitted { exec_id, mode } => {
                    let e = r.executions[exec_id@];
                    &&& e.mode == Some(mode)
                    &&& e.lifecycle.contains(LifecycleStage::Admitted)
                },
                JournalEvent::ProcessSpawned { exec_id, state, mode, ownership, stdout, stderr } => {
                    let e = r.executions[exec_id@];
                    &&& e.state == state
                    &&& e.observed_state == state
                    &&& e.mode == Some(mode)
                    &&& e.ownership == Some(ownership)
                    &&& e.stdout == stdout
                    &&& e.stderr == stderr
                    &&& e.lifecycle.contains(LifecycleStage::Spawned)
                },
                JournalEvent::ExecutionRegistered { exec_id, state, command, stdout, stderr } => {
                    let e = r.executions[exec_id@];
                    &&& e.state == state
                    &&& e.observed_state == state
                    &&& e.stdout == stdout
                    &&& e.stderr == stderr
                    &&& !m.executions.contains_key(exec_id@) ==> e.command == command@
                },
                JournalEvent::ExecutionStateUpdated { exec_id, state } => if m.executions.contains_key(
                    exec_id@,
                ) {
                    let e = r.executions[exec_id@];
                    &&& e.state == state
                    &&& e.observed_state == state
                    &&& (state == ProjectionState::Exited ==> e.lifecycle.contains(
                        LifecycleStage::Exited,
                    ))
                } else {
                    r == m
                },
                JournalEvent::PortObserved { exec_id, port } => r.ports[exec_id@][port.port_id@]
                    == port && r.executions == m.executions,
                JournalEvent::GhostStateRecorded { exec_id, ghost_view } => r.ghosts[exec_id@] == (
                    ghost_view.state,
                    ghost_view.detail@,
                ) && r.executions == m.executions,
                JournalEvent::ResourceGovernanceRecorded { exec_id, snapshot } => r.executions[exec_id@].resource_governance
                    == Some(snapshot),
                _ => true,
            }
        }),
{
    let r = apply_event(m, event);
    match event {
        JournalEvent::LaunchRequested { exec_id, .. } => {
            assert(r.executions[exec_id@].lifecycle.contains(LifecycleStage::Requested)) by {
                let l = base_execution(m, exec_id, seq![]).lifecycle;
                if !l.contains(LifecycleStage::Requested) {
                    assert(l.push(LifecycleStage::Requested)[l.len() as int]
                        == LifecycleStage::Requested);
                }
            }
        },
        JournalEvent::LaunchAdmitted { exec_id, .. } => {
            let l = base_execution(m, exec_id, seq![]).lifecycle;
            if !l.contains(LifecycleStage::Admitted) {
                assert(l.push(LifecycleStage::Admitted)[l.len() as int] == LifecycleStage::Admitted);
            }
        },
        JournalEvent::ProcessSpawned { exec_id, .. } => {
            let l = base_execution(m, exec_id, seq![]).lifecycle;
            if !l.contains(LifecycleStage::Spawned) {
                assert(l.push(LifecycleStage::Spawned)[l.len() as int] == LifecycleStage::Spawned);
            }
        },
        JournalEvent::ExecutionStateUpdated { exec_id, state } => {
            if m.executions.contains_key(exec_id@) && state == ProjectionState::Exited {
                let l = m.executions[exec_id@].lifecycle;
                if !l.contains(LifecycleStage::Exited) {
                    assert(l.push(LifecycleStage::Exited)[l.len() as int] == LifecycleStage::Exited);
                }
            }
        },
        JournalEvent::PortObserved { .. } => {},
        JournalEvent::GhostStateRecorded { .. } => {},
        _ => {},
    }
}

/// Recording a history snapshot points the execution's stdout at the blob of
/// the manifest's stdout artifact and its stderr at that of the stderr
/// artifact, never the other way round, and keeps the manifest, so that the
/// execution and its recorded manifest name the same output blobs.
pub proof fn lemma_history_snapshot_keeps_streams_apart(
    m: ProjectionModel,
    exec_id: ExecutionId,
    env_snapshot: EnvironmentSnapshotRecord,
    manifest: Box<HistorySnapshotManifest>,
)
    ensures
        ({
            let r = apply_event(
                m,
                JournalEvent::HistorySnapshotRecorded { exec_id, env_snapshot, manifest },
            );
            &&& r.executions.contains_key(exec_id@)
            &&& manifest.artifacts.stdout matches Some(a) ==> r.executions[exec_id@].stdout
                == Some(a.blob)
            &&& manifest.artifacts.stdout is None ==> r.executions[exec_id@].stdout is None
            &&& manifest.artifacts.stderr matches Some(a) ==> r.executions[exec_id@].stderr
                == Some(a.blob)
            &&& manifest.artifacts.stderr is None ==> r.executions[exec_id@].stderr is None
            &&& r.history_manifests[exec_id@] == *manifest
            &&& r.env_snapshots[exec_id@] == env_snapshot
        }),
{
}

/// An observed service and an operator override of the same execution give
/// the same projection in either order: the override decides the effective
/// state, and the observed state stays what the OS showed.
pub proof fn lemma_service_override_commutes(
    m: ProjectionModel,
    exec_id: ExecutionId,
    service: ServiceView,
    state: ProjectionState,
)
    ensures
        ({
            let observed = JournalEvent::ServiceObserved { exec_id, service };
            let overridden = JournalEvent::ServiceOverrideApplied { exec_id, state };
            let a = apply_event(apply_event(m, observed), overridden);
            let b = apply_event(apply_event(m, overridden), observed);
            &&& a == b
            &&& a.executions[exec_id@].observed_state == ProjectionState::Service
            &&& a.executions[exec_id@].state == state
            &&& a.executions[exec_id@].service_override == Some(state)
            &&& a.services[exec_id@][service.name@] == service
        }),
{
    let observed = JournalEvent::ServiceObserved { exec_id, service };
    let overridden = JournalEvent::ServiceOverrideApplied { exec_id, state };
    let a = apply_event(apply_event(m, observed), overridden);
    let b = apply_event(apply_event(m, overridden), observed);
    assert(a.executions =~= b.executions);
    assert(a.services =~= b.services);
}

/// Replaying in degraded mode changes nothing where strict replay succeeds;
/// where only the framing broke, it keeps every event before the damage and
/// records the damage as the degraded reason; an undecodable record still
/// fails it.
pub proof fn lemma_degraded_replay_keeps_events(
    journal_path: Seq<char>,
    events: Seq<Result<JournalEvent, ReplayError>>,
    scan_error: Option<ReplayError>,
)
    ensures
        replay_spec(journal_path, events, scan_error, false) is Ok ==> replay_spec(
            journal_path,
            events,
            scan_error,
            true,
        ) == replay_spec(journal_path, events, scan_error, false),
        (replay_events(empty_model(journal_path), events) is Ok && scan_error is Some)
            ==> replay_spec(journal_path, events, scan_error, true) == Ok::<
            ProjectionModel,
            ReplayError,
        >(
            ProjectionModel {
                degraded: scan_error,
                ..replay_events(empty_model(journal_path), events)->Ok_0
            },
        ),
        replay_events(empty_model(journal_path), events) matches Err(x) ==> replay_spec(
            journal_path,
            events,
            scan_error,
            true,
        ) == Err::<ProjectionModel, ReplayError>(x),
{
}

fn is_nonempty_at<V>(outer: &KeyedVec<KeyedVec<V>>, k: &str) -> (r: bool)
    requires
        outer.wf(),
        inner_wf(outer.map()),
    ensures
        r == nonempty_at(inner_maps(outer.map()), k@),
{
    match outer.get(k) {
        Some(inner) => !inner.is_empty(),
        None => false,
    }
}

fn lifecycle_has_exited(stages: &Vec<LifecycleStage>) -> (r: bool)
    ensures
        r == stages@.contains(LifecycleStage::Exited),
{
    let mut i: usize = 0;
    while i < stages.len()
        invariant
            i <= stages@.len(),
            forall|j: int| 0 <= j < i ==> stages@[j] != LifecycleStage::Exited,
        decreases stages.len() - i,
    {
        if stages[i] == LifecycleStage::Exited {
            return true;
        }
        i = i + 1;
    }
    false
}

/// The first observed process, not yet matched, that the ownership proof
/// matches.
fn find_first_match(observed: &[ObservedProcess], flags: &Vec<bool>, own: &RuntimeOwnership, matched: Ghost<
    Set<int>,
>) -> (r: Option<usize>)
    requires
        flags@.len() == observed@.len(),
        forall|j: int| 0 <= j < observed@.len() ==> (flags@[j] <==> matched@.contains(j)),
    ensures
        r matches Some(i) ==> first_match(observed@, matched@, *own) == Some(i as int),
        r is None ==> first_match(observed@, matched@, *own) is None,
{
    let mut j: usize = 0;
    while j < observed.len()
        invariant
            flags@.len() == observed@.len(),
            forall|a: int| 0 <= a < observed@.len() ==> (flags@[a] <==> matched@.contains(a)),
            j <= observed@.len(),
            forall|a: int|
                0 <= a < j ==> matched@.contains(a) || !ownership_matches_spec(*own, #[trigger] observed@[a]),
        decreases observed.len() - j,
    {
        if !flags[j] && ownership_matches(own, &observed[j]) {
            proof {
                assert(is_first_match(observed@, matched@, *own, j as int));
                let c = choose|i: int| is_first_match(observed@, matched@, *own, i);
                if c < j {
                    assert(!matched@.contains(j as int));
                } else if c > j {
                    assert(!matched@.contains(j as int));
                }
                assert(c == j);
            }
            return Some(j);
        }
        j = j + 1;
    }
    proof {
        if exists|i: int| is_first_match(observed@, matched@, *own, i) {
            let c = choose|i: int| is_first_match(observed@, matched@, *own, i);
            assert(false);
        }
    }
    None
}

fn root_pid_observed(observed: &[ObservedProcess], root_pid: u32) -> (r: bool)
    ensures
        r == exists|j: int| 0 <= j < observed@.len() && (#[trigger] observed@[j]).root_pid == root_pid,
{
    let mut j: usize = 0;
    while j < observed.len()
        invariant
            j <= observed@.len(),
            forall|a: int| 0 <= a < j ==> (#[trigger] observed@[a]).root_pid != root_pid,
        decreases observed.len() - j,
    {
        if observed[j].root_pid == root_pid {
            return true;
        }
        j = j + 1;
    }
    false
}

impl RuntimeProjection {
    fn mark_execution_live(&mut self, exec_id: &str)
        requires
            old(self).wf(),
        ensures
            final(self).wf(),
            final(self).model() == mark_live(old(self).model(), exec_id@),
            final(self).key_order() == old(self).key_order(),
    {
        let ghost m0 = self.model();
        let has_services = is_nonempty_at(&self.services, exec_id);
        match self.executions.index_of(exec_id) {
            None => {},
            Some(i) => {
                let ghost s = self.executions.entries@;
                let (key, mut e) = self.executions.take_at(i);
                let observed_state = if has_services {
                    ProjectionState::Service
                } else {
                    ProjectionState::Managed
                };
                e.observed_state = observed_state;
                e.state = if observed_state == ProjectionState::Service {
                    match e.service_override {
                        Some(s) => s,
                        None => ProjectionState::Service,
                    }
                } else if e.state == ProjectionState::ShortTask {
                    ProjectionState::ShortTask
                } else {
                    ProjectionState::Managed
                };
                let ghost ev = e@;
                let ghost ex = e;
                self.executions.put_at(i, (key, e));
                proof {
                    assert(self.executions.entries@ =~= s.update(i as int, (s[i as int].0, ex)));
                    crate::keyed::lemma_map_of_update(s, i as int, ex);
                }
                self.ghosts.remove(exec_id);
                proof {
                    assert(exec_models(self.executions.map()) =~= m0.executions.insert(exec_id@, ev));
                    assert(ghost_models(self.ghosts.map()) =~= m0.ghosts.remove(exec_id@));
                    assert(self.key_order() =~= s.map_values(|e: (String, ExecutionView)| e.0@));
                }
            },
        }
    }

    fn set_uncertain_state(&mut self, exec_id: &str, state: ProjectionState, detail: &str)
        requires
            old(self).wf(),
        ensures
            final(self).wf(),
            final(self).model() == mark_uncertain(old(self).model(), exec_id@, state, detail@),
            final(self).key_order() == old(self).key_order(),
    {
        let ghost m0 = self.model();
        match self.executions.index_of(exec_id) {
            None => {},
            Some(i) => {
                let ghost s = self.executions.entries@;
                let (key, mut e) = self.executions.take_at(i);
                e.state = state;
                e.observed_state = state;
                let ghost ev = e@;
                let ghost ex = e;
                self.executions.put_at(i, (key, e));
                proof {
                    assert(self.executions.entries@ =~= s.update(i as int, (s[i as int].0, ex)));
                    crate::keyed::lemma_map_of_update(s, i as int, ex);
                }
                self.ghosts.insert(exec_id.to_owned(), GhostView { state, detail: detail.to_owned() });
                proof {
                    assert(exec_models(self.executions.map()) =~= m0.executions.insert(exec_id@, ev));
                    assert(ghost_models(self.ghosts.map()) =~= m0.ghosts.insert(
                        exec_id@,
                        (state, detail@),
                    ));
                    assert(self.key_order() =~= s.map_values(|e: (String, ExecutionView)| e.0@));
                }
            },
        }
    }

    fn clear_ghost(&mut self, exec_id: &str)
        requires
            old(self).wf(),
        ensures
            final(self).wf(),
            final(self).model() == (ProjectionModel {
                ghosts: old(self).model().ghosts.remove(exec_id@),
                ..old(self).model()
            }),
            final(self).key_order() == old(self).key_order(),
    {
        let ghost og = self.ghosts.map();
        self.ghosts.remove(exec_id);
        assert(ghost_models(self.ghosts.map()) =~= ghost_models(og).remove(exec_id@));
    }

    /// Every execution key of the model appears exactly once in the order
    /// reconciliation visits them.
    pub proof fn lemma_key_order(&self)
        requires
            self.wf(),
        ensures
            forall|k: Seq<char>|
                self.model().executions.contains_key(k) <==> self.key_order().contains(k),
            forall|a: int, b: int|
                0 <= a < self.key_order().len() && 0 <= b < self.key_order().len() && a != b
                    ==> self.key_order()[a] != self.key_order()[b],
    {
        assert forall|k: Seq<char>|
            self.model().executions.contains_key(k) <==> self.key_order().contains(k) by {
            crate::keyed::lemma_map_of_contains(self.executions.entries@, k);
            if self.key_order().contains(k) {
                let j = choose|j: int| 0 <= j < self.key_order().len() && self.key_order()[j] == k;
                assert(self.executions.entries@[j].0@ == k);
            }
            if self.executions.map().contains_key(k) {
                let j = choose|j: int|
                    0 <= j < self.executions.entries@.len() && (#[trigger] self.executions.entries@[j]).0@
                        == k;
                assert(self.key_order()[j] == k);
            }
        }
        assert forall|a: int, b: int|
            0 <= a < self.key_order().len() && 0 <= b < self.key_order().len() && a != b implies self.key_order()[a]
            != self.key_order()[b] by {
            assert(self.key_order()[a] == self.executions.entries@[a].0@);
            assert(self.key_order()[b] == self.executions.entries@[b].0@);
        }
    }

    /// Reconciles every execution with the processes the OS shows: an
    /// execution whose ownership proof matches an unclaimed process is live;
    /// otherwise an exited one only loses its ghost, and the rest are marked
    /// escaped, detached or missing. Processes that no execution claimed are
    /// reported as unknown and never adopted.
    pub fn reconcile_with_observed_processes(&mut self, observed: &[ObservedProcess]) -> (r:
        ReconcileSummary)
        requires
            old(self).wf(),
        ensures
            final(self).wf(),
            final(self).model() == reconcile_fold(
                old(self).model(),
                Set::empty(),
                old(self).key_order(),
                observed@,
            ).0,
            r.unknown_processes@ == unmatched(
                observed@,
                reconcile_fold(old(self).model(), Set::empty(), old(self).key_order(), observed@).1,
                observed@.len() as int,
            ),
            final(self).key_order() == old(self).key_order(),
    {
        let ghost m0 = self.model();
        let keys = self.executions.keys();
        let ghost ks = self.key_order();
        assert(views_of_keys(keys@) =~= ks);
        let mut flags: Vec<bool> = Vec::new();
        let mut n: usize = 0;
        while n < observed.len()
            invariant
                n <= observed@.len(),
                flags@.len() == n,
                forall|j: int| 0 <= j < n ==> !flags@[j],
            decreases observed.len() - n,
        {
            flags.push(false);
            n = n + 1;
        }
        let ghost mut matched: Set<int> = Set::empty();
        let mut i: usize = 0;
        assert(ks.skip(0) =~= ks);
        while i < keys.len()
            invariant
                self.wf(),
                self.key_order() == ks,
                i <= keys@.len(),
                views_of_keys(keys@) == ks,
                flags@.len() == observed@.len(),
                forall|j: int| 0 <= j < observed@.len() ==> (flags@[j] <==> matched.contains(j)),
                forall|j: int| matched.contains(j) ==> 0 <= j < observed@.len(),
                reconcile_fold(m0, Set::empty(), ks, observed@) == reconcile_fold(
                    self.model(),
                    matched,
                    ks.skip(i as int),
                    observed@,
                ),
            decreases keys.len() - i,
        {
            let k = keys[i].as_str();
            let ghost kv = k@;
            assert(ks.skip(i as int)[0] == kv);
            assert(ks.skip(i as int).drop_first() =~= ks.skip(i + 1));
            let ghost cur = self.model();
            let ghost step = reconcile_one(cur, matched, kv, observed@);
            let found = match self.executions.get(k) {
                None => None,
                Some(e) => {
                    let exited = e.state == ProjectionState::Exited || e.observed_state
                        == ProjectionState::Exited || lifecycle_has_exited(&e.lifecycle);
                    Some((e.ownership, exited))
                },
            };
            match found {
                None => {
                    assert(step == (cur, matched));
                },
                Some((None, _)) => {
                    assert(step == (cur, matched));
                },
                Some((Some(own), exited)) => {
                    match find_first_match(observed, &flags, &own, Ghost(matched)) {
                        Some(j) => {
                            flags.set(j, true);
                            proof {
                                matched = matched.insert(j as int);
                            }
                            self.mark_execution_live(k);
                        },
                        None => {
                            if exited {
                                self.clear_ghost(k);
                            } else if root_pid_observed(observed, own.root_pid) {
                                self.set_uncertain_state(
                                    k,
                                    ProjectionState::Escaped,
                                    "observed process did not match recorded ownership proof",
                                );
                            } else if is_nonempty_at(&self.services, k) || is_nonempty_at(
                                &self.ports,
                                k,
                            ) {
                                self.set_uncertain_state(
                                    k,
                                    ProjectionState::Detached,
                                    "managed root process is gone but runtime artifacts were previously observed",
                                );
                            } else {
                                self.set_uncertain_state(
                                    k,
                                    ProjectionState::Missing,
                                    "managed root process is not visible in current OS observation",
                                );
                            }
                        },
                    }
                },
            }
            assert((self.model(), matched) == step);
            i = i + 1;
        }
        assert(ks.skip(i as int).len() == 0);
        let mut unknown: Vec<ObservedProcess> = Vec::new();
        let mut j: usize = 0;
        while j < observed.len()
            invariant
                j <= observed@.len(),
                flags@.len() == observed@.len(),
                forall|a: int| 0 <= a < observed@.len() ==> (flags@[a] <==> matched.contains(a)),
                unknown@ == unmatched(observed@, matched, j as int),
            decreases observed.len() - j,
        {
            if !flags[j] {
                unknown.push(observed[j]);
            }
            j = j + 1;
        }
        ReconcileSummary { unknown_processes: unknown }
    }
}

/// Whether two models agree on everything that reconciling the execution
/// `k` reads or writes.
pub open spec fn agree_at(a: ProjectionModel, b: ProjectionModel, k: Seq<char>) -> bool {
    &&& a.executions.contains_key(k) == b.executions.contains_key(k)
    &&& a.executions.contains_key(k) ==> a.executions[k] == b.executions[k]
    &&& a.ghosts.contains_key(k) == b.ghosts.contains_key(k)
    &&& a.ghosts.contains_key(k) ==> a.ghosts[k] == b.ghosts[k]
    &&& a.services == b.services
    &&& a.ports == b.ports
}

/// Reconciling one execution touches nothing of another.
proof fn lemma_one_frame(
    m: ProjectionModel,
    matched: Set<int>,
    other: Seq<char>,
    k: Seq<char>,
    observed: Seq<ObservedProcess>,
)
    requires
        other != k,
    ensures
        agree_at(reconcile_one(m, matched, other, observed).0, m, k),
{
}

/// Reconciling executions other than `k` leaves everything of `k` as it was.
proof fn lemma_fold_frame(
    m: ProjectionModel,
    matched: Set<int>,
    keys: Seq<Seq<char>>,
    k: Seq<char>,
    observed: Seq<ObservedProcess>,
)
    requires
        !keys.contains(k),
    ensures
        agree_at(reconcile_fold(m, matched, keys, observed).0, m, k),
    decreases keys.len(),
{
    if keys.len() > 0 {
        let (m2, s2) = reconcile_one(m, matched, keys[0], observed);
        assert(keys[0] != k);
        lemma_one_frame(m, matched, keys[0], k, observed);
        assert forall|j: int| 0 <= j < keys.drop_first().len() implies keys.drop_first()[j] != k by {
            assert(keys.drop_first()[j] == keys[j + 1]);
        }
        lemma_fold_frame(m2, s2, keys.drop_first(), k, observed);
    }
}

/// A model that agrees at `k` with the result of reconciling `k` is left
/// alone by reconciling `k` again from the same claimed processes, which
/// claims the same process again.
proof fn lemma_one_settled(
    m: ProjectionModel,
    matched: Set<int>,
    k: Seq<char>,
    observed: Seq<ObservedProcess>,
    settled: ProjectionModel,
)
    requires
        agree_at(settled, reconcile_one(m, matched, k, observed).0, k),
    ensures
        reconcile_one(settled, matched, k, observed) == (settled, reconcile_one(
            m,
            matched,
            k,
            observed,
        ).1),
{
    if m.executions.contains_key(k) {
        let e = m.executions[k];
        if let Some(own) = e.ownership {
            match first_match(observed, matched, own) {
                Some(i) => {
                    let m2 = mark_live(m, k);
                    let e2 = m2.executions[k];
                    assert(settled.executions[k] == e2);
                    assert(mark_live(settled, k).executions =~= settled.executions);
                    assert(mark_live(settled, k).ghosts =~= settled.ghosts);
                },
                None => {
                    if is_exited(e) {
                        assert(settled.ghosts.remove(k) =~= settled.ghosts);
                    } else {
                        let e2 = settled.executions[k];
                        assert(!is_exited(e2));
                        let st = if exists|j: int|
                            0 <= j < observed.len() && (#[trigger] observed[j]).root_pid
                                == own.root_pid {
                            ProjectionState::Escaped
                        } else if nonempty_at(m.services, k) || nonempty_at(m.ports, k) {
                            ProjectionState::Detached
                        } else {
                            ProjectionState::Missing
                        };
                        assert(e2.state == st);
                        assert(settled.executions.insert(
                            k,
                            ExecutionModel { state: st, observed_state: st, ..e2 },
                        ) =~= settled.executions);
                        assert(settled.ghosts.insert(k, settled.ghosts[k]) =~= settled.ghosts);
                    }
                },
            }
        }
    }
}

/// Reconciling the result of a reconciliation again, over keys that are
/// pairwise distinct, changes nothing and claims the same processes.
proof fn lemma_fold_settled(
    m: ProjectionModel,
    matched: Set<int>,
    keys: Seq<Seq<char>>,
    observed: Seq<ObservedProcess>,
)
    requires
        keys.no_duplicates(),
    ensures
        reconcile_fold(reconcile_fold(m, matched, keys, observed).0, matched, keys, observed)
            == reconcile_fold(m, matched, keys, observed),
    decreases keys.len(),
{
    if keys.len() > 0 {
        let k = keys[0];
        let rest = keys.drop_first();
        let (m2, s2) = reconcile_one(m, matched, k, observed);
        assert forall|j: int| 0 <= j < rest.len() implies rest[j] != k by {
            assert(rest[j] == keys[j + 1]);
        }
        assert(rest.no_duplicates()) by {
            assert forall|a: int, b: int| 0 <= a < rest.len() && 0 <= b < rest.len() && a != b implies rest[a]
                != rest[b] by {
                assert(rest[a] == keys[a + 1] && rest[b] == keys[b + 1]);
            }
        }
        let settled = reconcile_fold(m2, s2, rest, observed).0;
        lemma_fold_frame(m2, s2, rest, k, observed);
        lemma_one_settled(m, matched, k, observed, settled);
        lemma_fold_settled(m2, s2, rest, observed);
    }
}

/// Reconciliation is idempotent: reconciling a projection a second time
/// against the same observed processes leaves it as the first pass left it
/// and reports the same processes as unknown. (Reconciliation keeps the order
/// in which it visits the executions, so the second pass visits them in the
/// same order.)
proof fn lemma_reconcile_matched_set(
    m: ProjectionModel,
    matched: Set<int>,
    keys: Seq<Seq<char>>,
    observed: Seq<ObservedProcess>,
)
    requires
        matched.finite(),
        forall|i: int| #[trigger] matched.contains(i) ==> 0 <= i < observed.len(),
    ensures
        ({
            let s = reconcile_fold(m, matched, keys, observed).1;
            &&& s.finite()
            &&& matched.subset_of(s)
            &&& forall|i: int| #[trigger] s.contains(i) ==> 0 <= i < observed.len()
            &&& s.len() <= matched.len() + keys.len()
        }),
    decreases keys.len(),
{
    if keys.len() > 0 {
        let (m2, s2) = reconcile_one(m, matched, keys[0], observed);
        if s2 != matched {
            let own = m.executions[keys[0]].ownership->0;
            let i = first_match(observed, matched, own)->0;
            assert(is_first_match(observed, matched, own, i));
            assert(s2 == matched.insert(i));
        }
        lemma_reconcile_matched_set(m2, s2, keys.drop_first(), observed);
    }
}

proof fn lemma_unmatched_count(observed: Seq<ObservedProcess>, s: Set<int>, n: int)
    requires
        s.finite(),
        0 <= n <= observed.len(),
    ensures
        unmatched(observed, s, n).len() + s.filter(|i: int| 0 <= i < n).len() == n,
    decreases n,
{
    if n == 0 {
        assert(s.filter(|i: int| 0 <= i < n) =~= Set::<int>::empty());
    } else {
        lemma_unmatched_count(observed, s, n - 1);
        let below = s.filter(|i: int| 0 <= i < n - 1);
        let upto = s.filter(|i: int| 0 <= i < n);
        if s.contains(n - 1) {
            assert(upto =~= below.insert(n - 1));
        } else {
            assert(upto =~= below);
        }
    }
}

/// Reconciliation accounts for each observed process once: each execution
/// claims at most one process, no process is claimed twice, and every
/// observed process is either claimed or reported as unknown.
pub proof fn lemma_reconcile_claims_each_process_once(
    p: RuntimeProjection,
    observed: Seq<ObservedProcess>,
)
    ensures
        ({
            let s = reconcile_fold(p.model(), Set::empty(), p.key_order(), observed).1;
            &&& s.finite()
            &&& forall|i: int| #[trigger] s.contains(i) ==> 0 <= i < observed.len()
            &&& s.len() <= p.key_order().len()
            &&& unmatched(observed, s, observed.len() as int).len() + s.len() == observed.len()
        }),
{
    let s = reconcile_fold(p.model(), Set::empty(), p.key_order(), observed).1;
    lemma_reconcile_matched_set(p.model(), Set::empty(), p.key_order(), observed);
    lemma_unmatched_count(observed, s, observed.len() as int);
    assert(s.filter(|i: int| 0 <= i < observed.len()) =~= s);
}

proof fn lemma_fold_split(
    m: ProjectionModel,
    matched: Set<int>,
    keys: Seq<Seq<char>>,
    observed: Seq<ObservedProcess>,
    j: int,
)
    requires
        0 <= j <= keys.len(),
    ensures
        ({
            let (m1, s1) = reconcile_fold(m, matched, keys.take(j), observed);
            reconcile_fold(m, matched, keys, observed) == reconcile_fold(
                m1,
                s1,
                keys.skip(j),
                observed,
            )
        }),
    decreases j,
{
    if j == 0 {
        assert(keys.take(0) =~= Seq::<Seq<char>>::empty());
        assert(keys.skip(0) =~= keys);
    } else {
        let (m2, s2) = reconcile_one(m, matched, keys[0], observed);
        lemma_fold_split(m2, s2, keys.drop_first(), observed, j - 1);
        assert(keys.take(j).drop_first() =~= keys.drop_first().take(j - 1));
        assert(keys.take(j)[0] == keys[0]);
        assert(keys.drop_first().skip(j - 1) =~= keys.skip(j));
    }
}

proof fn lemma_one_local(
    a: ProjectionModel,
    b: ProjectionModel,
    matched: Set<int>,
    k: Seq<char>,
    observed: Seq<ObservedProcess>,
)
    requires
        agree_at(a, b, k),
    ensures
        agree_at(reconcile_one(a, matched, k, observed).0, reconcile_one(b, matched, k, observed).0, k),
        reconcile_one(a, matched, k, observed).1 == reconcile_one(b, matched, k, observed).1,
{
}

/// Reconciliation decides each execution on its own: what an execution
/// becomes is what reconciling it alone from the projection makes of it,
/// given the processes that the executions before it have claimed; the
/// executions after it leave it as it is.
pub proof fn lemma_reconcile_decides_each_execution_alone(
    p: RuntimeProjection,
    observed: Seq<ObservedProcess>,
    j: int,
)
    requires
        p.wf(),
        0 <= j < p.key_order().len(),
    ensures
        ({
            let keys = p.key_order();
            let k = keys[j];
            let claimed = reconcile_fold(p.model(), Set::empty(), keys.take(j), observed).1;
            agree_at(
                reconcile_fold(p.model(), Set::empty(), keys, observed).0,
                reconcile_one(p.model(), claimed, k, observed).0,
                k,
            )
        }),
{
    p.lemma_key_order();
    let keys = p.key_order();
    let m = p.model();
    let k = keys[j];
    let (m1, s1) = reconcile_fold(m, Set::empty(), keys.take(j), observed);
    assert(!keys.take(j).contains(k)) by {
        if keys.take(j).contains(k) {
            let i = choose|i: int| 0 <= i < keys.take(j).len() && keys.take(j)[i] == k;
            assert(keys[i] == keys[j]);
        }
    }
    lemma_fold_frame(m, Set::empty(), keys.take(j), k, observed);
    lemma_fold_split(m, Set::empty(), keys, observed, j);
    let rest = keys.skip(j);
    assert(rest[0] == k);
    let (m2, s2) = reconcile_one(m1, s1, k, observed);
    lemma_one_local(m1, m, s1, k, observed);
    assert(!rest.drop_first().contains(k)) by {
        if rest.drop_first().contains(k) {
            let i = choose|i: int| 0 <= i < rest.drop_first().len() && rest.drop_first()[i] == k;
            assert(keys[j + 1 + i] == keys[j]);
        }
    }
    lemma_fold_frame(m2, s2, rest.drop_first(), k, observed);
}

pub proof fn lemma_reconcile_is_idempotent(p: RuntimeProjection, observed: Seq<ObservedProcess>)
    requires
        p.wf(),
    ensures
        ({
            let first = reconcile_fold(p.model(), Set::empty(), p.key_order(), observed);
            reconcile_fold(first.0, Set::empty(), p.key_order(), observed) == first
        }),
{
    p.lemma_key_order();
    lemma_fold_settled(p.model(), Set::empty(), p.key_order(), observed);
}

pub open spec fn views_of_keys(v: Seq<String>) -> Seq<Seq<char>> {
    v.map_values(|s: String| s@)
}
} // verus!
