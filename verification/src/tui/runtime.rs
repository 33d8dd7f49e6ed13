//! The dashboard model: its rows built from the runtime projection and the
//! journal history.

use vstd::prelude::*;
use crate::contracts::{ExecutionId, ProjectionState};
use crate::daemon::journal::{JournalEvent, RecordedJournalEvent, ReplayError};
use crate::daemon::projection::{ProjectionModel, RuntimeProjection, projection_state_name, state_name};
use crate::daemon::views::ServiceView;
use crate::text::{decimal, joined, join_strings, owned, str_eq, u64_to_string, views};
use crate::daemon::views::{ExecutionModel, ExecutionView};
use crate::daemon::journal::replay_error_text;
use crate::platform::EnforcementGap;
use crate::tui::labels::{
    UptimeClock, abbreviate_path, abbreviated_text, cpu_usage_label, cpu_usage_text, env_value,
    event_exec_id, event_exec_text, event_name, event_name_text, find_env_value, governance_label,
    governance_text, is_observability_degraded, memory_current_label, memory_current_text,
    memory_peak_label, memory_peak_text, observability_degraded, policy_summary, policy_text,
    is_running, pressure_level, pressure_spec, read_blob_tail_lines, running_spec, read_view, runtime_from_start_ticks,
    runtime_text, summarize_command, summary_text, tail_text, texts,
};
use crate::tui::model::{DashboardModel, DashboardView, PressureLevel};

verus! {

/// A dashboard row by its texts.
pub struct RowModel {
    pub key: Seq<char>,
    pub title: Seq<char>,
    pub subtitle: Seq<char>,
    pub pressure: PressureLevel,
    pub detail: Seq<Seq<char>>,
}

pub open spec fn row_model(v: DashboardView) -> RowModel {
    RowModel {
        key: v.key@,
        title: v.title@,
        subtitle: v.subtitle@,
        pressure: v.pressure,
        detail: views(v.detail_lines@),
    }
}

pub open spec fn row_models(v: Seq<DashboardView>) -> Seq<RowModel> {
    v.map_values(|r: DashboardView| row_model(r))
}

pub open spec fn has_row_key(rows: Seq<RowModel>, key: Seq<char>) -> bool {
    exists|i: int| 0 <= i < rows.len() && #[trigger] rows[i].key == key
}

fn row_key_present(rows: &Vec<DashboardView>, key: &str) -> (r: bool)
    ensures
        r == has_row_key(row_models(rows@), key@),
{
    let mut i: usize = 0;
    while i < rows.len()
        invariant
            i <= rows@.len(),
            forall|k: int| 0 <= k < i ==> #[trigger] row_models(rows@)[k].key != key@,
        decreases rows.len() - i,
    {
        if str_eq(rows[i].key.as_str(), key) {
            assert(row_models(rows@)[i as int].key == key@);
            return true;
        }
        i = i + 1;
    }
    false
}

// ---------------------------------------------------------------- history

pub open spec fn history_row(record: RecordedJournalEvent) -> RowModel {
    RowModel {
        key: "history:"@ + decimal(record.offset as nat),
        title: event_name_text(record.event),
        subtitle: "offset "@ + decimal(record.offset as nat),
        pressure: PressureLevel::Unknown,
        detail: seq![
            "History"@,
            "offset: "@ + decimal(record.offset as nat),
            "event: "@ + event_name_text(record.event),
        ],
    }
}

/// One row per journal event, newest first.
pub open spec fn history_rows(history: Seq<RecordedJournalEvent>) -> Seq<RowModel> {
    Seq::new(history.len(), |i: int| history_row(history[history.len() - 1 - i]))
}

fn labeled_offset(label: &str, offset: u64) -> (r: String)
    ensures
        r@ == label@ + decimal(offset as nat),
{
    let mut r = owned(label);
    r.append(u64_to_string(offset).as_str());
    r
}

fn labeled(label: &str, value: &str) -> (r: String)
    ensures
        r@ == label@ + value@,
{
    let mut r = owned(label);
    r.append(value);
    r
}

fn make_row(key: String, title: String, subtitle: String, pressure: PressureLevel, detail_lines: Vec<
    String,
>) -> (r: DashboardView)
    ensures
        row_model(r) == (RowModel {
            key: key@,
            title: title@,
            subtitle: subtitle@,
            pressure,
            detail: views(detail_lines@),
        }),
{
    DashboardView { key, title, subtitle, pressure, detail_lines }
}

pub fn build_history_views(history: &Vec<RecordedJournalEvent>) -> (r: Vec<DashboardView>)
    ensures
        row_models(r@) == history_rows(history@),
{
    let mut rows: Vec<DashboardView> = Vec::new();
    let mut i: usize = history.len();
    while i > 0
        invariant
            i <= history@.len(),
            rows@.len() == history@.len() - i,
            forall|k: int| 0 <= k < rows@.len() ==> #[trigger] row_model(rows@[k]) == history_row(
                history@[history@.len() - 1 - k],
            ),
        decreases i,
    {
        i = i - 1;
        let record = &history[i];
        let mut detail: Vec<String> = Vec::new();
        detail.push(owned("History"));
        detail.push(labeled_offset("offset: ", record.offset));
        detail.push(labeled("event: ", event_name(&record.event)));
        assert(views(detail@) =~= history_row(*record).detail);
        let row = make_row(
            labeled_offset("history:", record.offset),
            owned(event_name(&record.event)),
            labeled_offset("offset ", record.offset),
            PressureLevel::Unknown,
            detail,
        );
        rows.push(row);
    }
    assert(row_models(rows@) =~= history_rows(history@));
    rows
}

// ---------------------------------------------------------------- ghosts

pub open spec fn ghost_row(exec_id: Seq<char>, ghost: (ProjectionState, Seq<char>)) -> RowModel {
    RowModel {
        key: exec_id,
        title: exec_id,
        subtitle: state_name(ghost.0) + " | "@ + ghost.1,
        pressure: PressureLevel::Unknown,
        detail: seq![
            "Ghosts / Reconcile"@,
            "exec id: "@ + exec_id,
            "state: "@ + state_name(ghost.0),
            "detail: "@ + ghost.1,
        ],
    }
}

/// One row per execution with a reconciliation ghost, in the order the
/// journal first mentions them.
pub open spec fn ghost_rows(m: ProjectionModel, history: Seq<RecordedJournalEvent>) -> Seq<RowModel>
    decreases history.len(),
{
    if history.len() == 0 {
        seq![]
    } else {
        let prev = ghost_rows(m, history.drop_last());
        let id = event_exec_text(history.last().event);
        if has_row_key(prev, id) {
            prev
        } else if m.ghosts.contains_key(id) {
            prev.push(ghost_row(id, m.ghosts[id]))
        } else {
            prev
        }
    }
}

pub fn build_ghost_views(projection: &RuntimeProjection, history: &Vec<RecordedJournalEvent>) -> (r:
    Vec<DashboardView>)
    requires
        projection.wf(),
    ensures
        row_models(r@) == ghost_rows(projection.model(), history@),
{
    let ghost m = projection.model();
    let mut rows: Vec<DashboardView> = Vec::new();
    let mut i: usize = 0;
    while i < history.len()
        invariant
            projection.wf(),
            m == projection.model(),
            i <= history@.len(),
            row_models(rows@) == ghost_rows(m, history@.take(i as int)),
        decreases history.len() - i,
    {
        assert(history@.take(i + 1).drop_last() =~= history@.take(i as int));
        let exec_id = event_exec_id(&history[i].event);
        if !row_key_present(&rows, exec_id) {
            match projection.ghost_of(exec_id) {
                Some(ghost) => {
                    let mut detail: Vec<String> = Vec::new();
                    detail.push(owned("Ghosts / Reconcile"));
                    detail.push(labeled("exec id: ", exec_id));
                    detail.push(labeled("state: ", projection_state_name(&ghost.state)));
                    detail.push(labeled("detail: ", ghost.detail.as_str()));
                    let mut subtitle = owned(projection_state_name(&ghost.state));
                    subtitle.append(" | ");
                    subtitle.append(ghost.detail.as_str());
                    let row = make_row(
                        owned(exec_id),
                        owned(exec_id),
                        subtitle,
                        PressureLevel::Unknown,
                        detail,
                    );
                    proof {
                        assert(views(detail@) =~= ghost_row(exec_id@, m.ghosts[exec_id@]).detail);
                    }
                    rows.push(row);
                    assert(row_models(rows@) =~= ghost_rows(m, history@.take(i + 1)));
                },
                None => {},
            }
        }
        i = i + 1;
    }
    assert(history@.take(history@.len() as int) =~= history@);
    rows
}

// ---------------------------------------------------------------- services

/// A service's ports, joined by commas, or `empty` where it has none.
pub open spec fn ports_text(ids: Seq<Seq<char>>, empty: Seq<char>) -> Seq<char> {
    if ids.len() == 0 {
        empty
    } else {
        joined(ids, ", "@)
    }
}

fn ports_label(ids: &Vec<String>, empty: &str) -> (r: String)
    ensures
        r@ == ports_text(views(ids@), empty@),
{
    if ids.len() == 0 {
        owned(empty)
    } else {
        join_strings(ids, ", ")
    }
}

pub open spec fn service_row(exec_id: Seq<char>, s: ServiceView) -> RowModel {
    RowModel {
        key: exec_id + ":"@ + s.name@,
        title: s.name@,
        subtitle: exec_id + " | "@ + ports_text(views(s.port_ids@), "no ports"@),
        pressure: PressureLevel::Unknown,
        detail: seq![
            "Service / Ports"@,
            "exec id: "@ + exec_id,
            "service: "@ + s.name@,
            "state: "@ + state_name(s.state),
            "ports: "@ + ports_text(views(s.port_ids@), "none"@),
        ],
    }
}

pub open spec fn current_service(m: ProjectionModel, exec_id: Seq<char>, name: Seq<char>) -> Option<
    ServiceView,
> {
    if m.services.contains_key(exec_id) && m.services[exec_id].contains_key(name) {
        Some(m.services[exec_id][name])
    } else {
        None
    }
}

/// One row per observed service that the projection still holds, in the
/// order the journal first observed them.
pub open spec fn service_rows(m: ProjectionModel, history: Seq<RecordedJournalEvent>) -> Seq<RowModel>
    decreases history.len(),
{
    if history.len() == 0 {
        seq![]
    } else {
        let prev = service_rows(m, history.drop_last());
        match history.last().event {
            JournalEvent::ServiceObserved { exec_id, service } => match current_service(
                m,
                exec_id@,
                service.name@,
            ) {
                Some(cur) => if has_row_key(prev, exec_id@ + ":"@ + cur.name@) {
                    prev
                } else {
                    prev.push(service_row(exec_id@, cur))
                },
                None => prev,
            },
            _ => prev,
        }
    }
}

pub fn build_service_views(projection: &RuntimeProjection, history: &Vec<RecordedJournalEvent>) -> (r:
    Vec<DashboardView>)
    requires
        projection.wf(),
    ensures
        row_models(r@) == service_rows(projection.model(), history@),
{
    let ghost m = projection.model();
    let mut rows: Vec<DashboardView> = Vec::new();
    let mut i: usize = 0;
    while i < history.len()
        invariant
            projection.wf(),
            m == projection.model(),
            i <= history@.len(),
            row_models(rows@) == service_rows(m, history@.take(i as int)),
        decreases history.len() - i,
    {
        assert(history@.take(i + 1).drop_last() =~= history@.take(i as int));
        match &history[i].event {
            JournalEvent::ServiceObserved { exec_id, service } => {
                match projection.service(exec_id.as_str(), service.name.as_str()) {
                    Some(current) => {
                        let mut key = owned(exec_id.as_str());
                        key.append(":");
                        key.append(current.name.as_str());
                        if !row_key_present(&rows, key.as_str()) {
                            let mut subtitle = owned(exec_id.as_str());
                            subtitle.append(" | ");
                            subtitle.append(ports_label(&current.port_ids, "no ports").as_str());
                            let mut detail: Vec<String> = Vec::new();
                            detail.push(owned("Service / Ports"));
                            detail.push(labeled("exec id: ", exec_id.as_str()));
                            detail.push(labeled("service: ", current.name.as_str()));
                            detail.push(labeled("state: ", projection_state_name(&current.state)));
                            detail.push(
                                labeled("ports: ", ports_label(&current.port_ids, "none").as_str()),
                            );
                            let row = make_row(
                                key,
                                current.name.clone(),
                                subtitle,
                                PressureLevel::Unknown,
                                detail,
                            );
                            proof {
                                assert(views(detail@) =~= service_row(exec_id@, *current).detail);
                            }
                            rows.push(row);
                            assert(row_models(rows@) =~= service_rows(m, history@.take(i + 1)));
                        }
                    },
                    None => {},
                }
            },
            _ => {},
        }
        i = i + 1;
    }
    assert(history@.take(history@.len() as int) =~= history@);
    rows
}

/// The service lines of an execution's detail: each service the journal
/// observed for it, once, as the projection now holds it.
pub open spec fn execution_service_lines(
    m: ProjectionModel,
    history: Seq<RecordedJournalEvent>,
    exec_id: Seq<char>,
) -> (Seq<Seq<char>>, Seq<Seq<char>>)
    decreases history.len(),
{
    if history.len() == 0 {
        (seq![], seq![])
    } else {
        let (seen, lines) = execution_service_lines(m, history.drop_last(), exec_id);
        match history.last().event {
            JournalEvent::ServiceObserved { exec_id: observed, service } => if observed@ != exec_id
                || seen.contains(service.name@) {
                (seen, lines)
            } else {
                (
                    seen.push(service.name@),
                    match current_service(m, exec_id, service.name@) {
                        Some(cur) => lines.push(
                            "service "@ + cur.name@ + " -> "@ + ports_text(
                                views(cur.port_ids@),
                                "no ports"@,
                            ) + " ["@ + state_name(cur.state) + "]"@,
                        ),
                        None => lines,
                    },
                )
            },
            _ => (seen, lines),
        }
    }
}

fn contains_text(v: &Vec<String>, s: &str) -> (r: bool)
    ensures
        r == views(v@).contains(s@),
{
    let mut i: usize = 0;
    while i < v.len()
        invariant
            i <= v@.len(),
            forall|k: int| 0 <= k < i ==> #[trigger] views(v@)[k] != s@,
        decreases v.len() - i,
    {
        if str_eq(v[i].as_str(), s) {
            assert(views(v@)[i as int] == s@);
            return true;
        }
        i = i + 1;
    }
    false
}

pub fn collect_services_for_execution(
    projection: &RuntimeProjection,
    history: &Vec<RecordedJournalEvent>,
    exec_id: &str,
) -> (r: Vec<String>)
    requires
        projection.wf(),
    ensures
        views(r@) == execution_service_lines(projection.model(), history@, exec_id@).1,
{
    let ghost m = projection.model();
    let mut lines: Vec<String> = Vec::new();
    let mut seen: Vec<String> = Vec::new();
    let mut i: usize = 0;
    while i < history.len()
        invariant
            projection.wf(),
            m == projection.model(),
            i <= history@.len(),
            (views(seen@), views(lines@)) == execution_service_lines(m, history@.take(i as int), exec_id@),
        decreases history.len() - i,
    {
        assert(history@.take(i + 1).drop_last() =~= history@.take(i as int));
        match &history[i].event {
            JournalEvent::ServiceObserved { exec_id: observed, service } => {
                if str_eq(observed.as_str(), exec_id) && !contains_text(&seen, service.name.as_str()) {
                    let ghost before = seen@;
                    seen.push(service.name.clone());
                    assert(views(seen@) =~= views(before).push(service.name@));
                    match projection.service(exec_id, service.name.as_str()) {
                        Some(current) => {
                            let mut line = owned("service ");
                            line.append(current.name.as_str());
                            line.append(" -> ");
                            line.append(ports_label(&current.port_ids, "no ports").as_str());
                            line.append(" [");
                            line.append(projection_state_name(&current.state));
                            line.append("]");
                            let ghost lbefore = lines@;
                            lines.push(line);
                            assert(views(lines@) =~= views(lbefore).push(line@));
                        },
                        None => {},
                    }
                }
            },
            _ => {},
        }
        i = i + 1;
    }
    assert(history@.take(history@.len() as int) =~= history@);
    lines
}

/// The names of the journal events about an execution, oldest first.
pub open spec fn recent_event_names(history: Seq<RecordedJournalEvent>, exec_id: Seq<char>) -> Seq<
    Seq<char>,
>
    decreases history.len(),
{
    if history.len() == 0 {
        seq![]
    } else {
        let prev = recent_event_names(history.drop_last(), exec_id);
        if event_exec_text(history.last().event) == exec_id {
            prev.push(event_name_text(history.last().event))
        } else {
            prev
        }
    }
}

pub fn recent_events_for(history: &Vec<RecordedJournalEvent>, exec_id: &str) -> (r: Vec<String>)
    ensures
        views(r@) == recent_event_names(history@, exec_id@),
{
    let mut names: Vec<String> = Vec::new();
    let mut i: usize = 0;
    while i < history.len()
        invariant
            i <= history@.len(),
            views(names@) == recent_event_names(history@.take(i as int), exec_id@),
        decreases history.len() - i,
    {
        assert(history@.take(i + 1).drop_last() =~= history@.take(i as int));
        if str_eq(event_exec_id(&history[i].event), exec_id) {
            let ghost before = names@;
            names.push(owned(event_name(&history[i].event)));
            assert(views(names@) =~= views(before).push(event_name_text(history@[i as int].event)));
        }
        i = i + 1;
    }
    assert(history@.take(history@.len() as int) =~= history@);
    names
}

// ---------------------------------------------------------------- instances

/// What reading a retained output blob gave: its lines, or why it could not
/// be read.
#[derive(Debug, PartialEq, Eq)]
pub struct BlobRead {
    pub storage_path: String,
    pub lines: Result<Vec<String>, String>,
}

/// The tail of the blob at `path`, from the first read of it.
pub open spec fn tail_for(reads: Seq<BlobRead>, path: Seq<char>) -> Seq<Seq<char>>
    decreases reads.len(),
{
    if reads.len() == 0 {
        seq![]
    } else if reads[0].storage_path@ == path {
        tail_text(read_view(reads[0].lines))
    } else {
        tail_for(reads.drop_first(), path)
    }
}

fn copy_read(read: &Result<Vec<String>, String>) -> (r: Result<Vec<String>, String>)
    ensures
        read_view(r) == read_view(*read),
{
    match read {
        Ok(lines) => {
            let mut v: Vec<String> = Vec::new();
            let mut i: usize = 0;
            while i < lines.len()
                invariant
                    i <= lines@.len(),
                    views(v@) == views(lines@).take(i as int),
                decreases lines.len() - i,
            {
                let ghost before = v@;
                v.push(lines[i].clone());
                assert(views(v@) =~= views(lines@).take(i + 1)) by {
                    assert(views(v@) =~= views(before).push(lines@[i as int]@));
                }
                i = i + 1;
            }
            assert(views(lines@).take(lines@.len() as int) =~= views(lines@));
            Ok(v)
        },
        Err(e) => Err(e.clone()),
    }
}

fn blob_tail(reads: &Vec<BlobRead>, path: &str) -> (r: Vec<String>)
    ensures
        views(r@) == tail_for(reads@, path@),
{
    let mut i: usize = 0;
    assert(reads@.skip(0) =~= reads@);
    while i < reads.len()
        invariant
            i <= reads@.len(),
            tail_for(reads@, path@) == tail_for(reads@.skip(i as int), path@),
        decreases reads.len() - i,
    {
        assert(reads@.skip(i as int)[0] == reads@[i as int]);
        assert(reads@.skip(i as int).drop_first() =~= reads@.skip(i + 1));
        if str_eq(reads[i].storage_path.as_str(), path) {
            return read_blob_tail_lines(copy_read(&reads[i].lines));
        }
        i = i + 1;
    }
    Vec::new()
}

/// The log section of an execution's detail.
#[verifier::opaque]
pub open spec fn log_lines(e: ExecutionModel, reads: Seq<BlobRead>) -> Seq<Seq<char>> {
    let out = match e.stdout {
        Some(b) => seq!["stdout:"@] + tail_for(reads, b.storage_path@),
        None => seq![],
    };
    let err = match e.stderr {
        Some(b) => (if out.len() > 0 {
            seq![Seq::<char>::empty()]
        } else {
            seq![]
        }) + seq!["stderr:"@] + tail_for(reads, b.storage_path@),
        None => seq![],
    };
    if out.len() == 0 && err.len() == 0 {
        seq!["no retained stdout/stderr"@]
    } else {
        out + err
    }
}

fn push_line(lines: &mut Vec<String>, line: String)
    ensures
        views(final(lines)@) == views(old(lines)@).push(line@),
{
    let ghost before = lines@;
    lines.push(line);
    assert(views(lines@) =~= views(before).push(line@));
}

fn append_lines(lines: &mut Vec<String>, more: Vec<String>)
    ensures
        views(final(lines)@) == views(old(lines)@) + views(more@),
{
    let ghost before = lines@;
    let ghost extra = more@;
    let mut more = more;
    lines.append(&mut more);
    assert(lines@ =~= before + extra);
    assert(views(lines@) =~= views(before) + views(extra));
}

pub fn log_tail_lines(execution: &ExecutionView, reads: &Vec<BlobRead>) -> (r: Vec<String>)
    ensures
        views(r@) == log_lines(execution@, reads@),
{
    reveal(log_lines);
    let mut out: Vec<String> = Vec::new();
    match &execution.stdout {
        Some(b) => {
            push_line(&mut out, owned("stdout:"));
            append_lines(&mut out, blob_tail(reads, b.storage_path.as_str()));
        },
        None => {},
    }
    let ghost out_v = views(out@);
    let mut err: Vec<String> = Vec::new();
    match &execution.stderr {
        Some(b) => {
            if out.len() > 0 {
                push_line(&mut err, String::new());
            }
            push_line(&mut err, owned("stderr:"));
            append_lines(&mut err, blob_tail(reads, b.storage_path.as_str()));
        },
        None => {},
    }
    proof {
        let e = execution@;
        assert(out_v =~= match e.stdout {
            Some(b) => seq!["stdout:"@] + tail_for(reads@, b.storage_path@),
            None => Seq::<Seq<char>>::empty(),
        });
        assert(views(err@) =~= match e.stderr {
            Some(b) => (if out_v.len() > 0 {
                seq![Seq::<char>::empty()]
            } else {
                Seq::<Seq<char>>::empty()
            }) + seq!["stderr:"@] + tail_for(reads@, b.storage_path@),
            None => Seq::<Seq<char>>::empty(),
        });
    }
    if out.len() == 0 && err.len() == 0 {
        let mut none: Vec<String> = Vec::new();
        push_line(&mut none, owned("no retained stdout/stderr"));
        assert(views(none@) =~= seq!["no retained stdout/stderr"@]);
        return none;
    }
    append_lines(&mut out, err);
    out
}

/// How long the execution has run, where its start time and the clock are
/// known.
pub open spec fn runtime_label_text(e: ExecutionModel, clock: Option<UptimeClock>) -> Seq<char> {
    match e.ownership {
        Some(o) => match o.start_time_ticks {
            Some(t) => match runtime_text(t, clock) {
                Some(s) => s,
                None => "unknown"@,
            },
            None => "unknown"@,
        },
        None => "unknown"@,
    }
}

pub fn runtime_label(execution: &ExecutionView, clock: Option<UptimeClock>) -> (r: String)
    ensures
        r@ == runtime_label_text(execution@, clock),
{
    match &execution.ownership {
        Some(o) => match o.start_time_ticks {
            Some(t) => match runtime_from_start_ticks(t, clock) {
                Some(s) => s,
                None => owned("unknown"),
            },
            None => owned("unknown"),
        },
        None => owned("unknown"),
    }
}

/// An environment value recorded at launch, where there is one.
pub open spec fn env_text(m: ProjectionModel, exec_id: Seq<char>, name: Seq<char>) -> Option<Seq<char>> {
    if m.env_snapshots.contains_key(exec_id) {
        env_value(m.env_snapshots[exec_id].entries@, name)
    } else {
        None
    }
}

/// Who launched the execution, as its environment recorded.
pub open spec fn source_text(m: ProjectionModel, exec_id: Seq<char>) -> Seq<char> {
    match env_text(m, exec_id, "EXECMANAGER_SOURCE"@) {
        Some(v) => v,
        None => "unknown"@,
    }
}

/// Where the execution runs, as its environment recorded.
pub open spec fn cwd_text(m: ProjectionModel, exec_id: Seq<char>) -> Seq<char> {
    match env_text(m, exec_id, "PWD"@) {
        Some(v) => abbreviated_text(v),
        None => "unknown"@,
    }
}

fn env_label(projection: &RuntimeProjection, exec_id: &str, name: &str) -> (r: Option<String>)
    requires
        projection.wf(),
    ensures
        match (r, env_text(projection.model(), exec_id@, name@)) {
            (Some(s), Some(t)) => s@ == t,
            (None, None) => true,
            _ => false,
        },
{
    match projection.env_snapshot(exec_id) {
        Some(snapshot) => find_env_value(&snapshot.entries, name),
        None => None,
    }
}

pub fn source_label(projection: &RuntimeProjection, exec_id: &str) -> (r: String)
    requires
        projection.wf(),
    ensures
        r@ == source_text(projection.model(), exec_id@),
{
    match env_label(projection, exec_id, "EXECMANAGER_SOURCE") {
        Some(v) => v,
        None => owned("unknown"),
    }
}

pub fn cwd_label(projection: &RuntimeProjection, exec_id: &str) -> (r: String)
    requires
        projection.wf(),
    ensures
        r@ == cwd_text(projection.model(), exec_id@),
{
    match env_label(projection, exec_id, "PWD") {
        Some(v) => abbreviate_path(v.as_str()),
        None => owned("unknown"),
    }
}

pub open spec fn rewritten_or_command(e: ExecutionModel) -> Seq<char> {
    match e.rewritten_command {
        Some(r) => r@,
        None => e.command,
    }
}

#[verifier::opaque]
pub open spec fn identity_lines(m: ProjectionModel, e: ExecutionModel) -> Seq<Seq<char>> {
    seq![
        "Identity"@,
        "exec id: "@ + e.exec_id@,
        "summary: "@ + summary_text(e.original_command),
        "original command: "@ + e.original_command,
        "rewritten launch spec: "@ + rewritten_or_command(e),
        "source: "@ + source_text(m, e.exec_id@),
        "cwd: "@ + cwd_text(m, e.exec_id@),
        Seq::<char>::empty(),
    ]
}

#[verifier::opaque]
pub open spec fn runtime_lines(e: ExecutionModel, clock: Option<UptimeClock>) -> Seq<Seq<char>> {
    seq![
        "Runtime"@,
        "effective state: "@ + state_name(e.state),
        "observed state: "@ + state_name(e.observed_state),
        "runtime state: "@ + state_name(e.state) + " (observed "@ + state_name(e.observed_state) + ")"@,
        "runtime: "@ + runtime_label_text(e, clock),
        "policy: "@ + policy_text(e.policy_outcome),
        Seq::<char>::empty(),
    ]
}

#[verifier::opaque]
pub open spec fn resource_lines(e: ExecutionModel) -> Seq<Seq<char>> {
    let g = e.resource_governance;
    seq![
        "Resources"@,
        "pressure: "@ + pressure_spec(g).label_spec(),
        "current memory: "@ + memory_current_text(g),
        "cpu usage: "@ + cpu_usage_text(g),
        "recent peak memory: "@ + memory_peak_text(g),
        "resource governance: "@ + governance_text(g),
        Seq::<char>::empty(),
        "Service / Ports"@,
    ]
}

pub open spec fn gap_reasons(gaps: Seq<EnforcementGap>) -> Seq<Seq<char>> {
    gaps.map_values(|g: EnforcementGap| g.reason@)
}

#[verifier::opaque]
pub open spec fn governance_lines(m: ProjectionModel, e: ExecutionModel) -> Seq<Seq<char>> {
    match e.resource_governance {
        Some(g) => (if observability_degraded(g) || m.degraded is Some {
            seq!["observability degraded"@]
        } else {
            seq![]
        }) + gap_reasons(g.enforcement_gaps@),
        None => seq![],
    }
}

#[verifier::opaque]
pub open spec fn service_part(m: ProjectionModel, h: Seq<RecordedJournalEvent>, id: Seq<char>) -> Seq<
    Seq<char>,
> {
    let svc = execution_service_lines(m, h, id).1;
    if svc.len() == 0 {
        seq!["no observed services"@]
    } else {
        svc
    }
}

#[verifier::opaque]
pub open spec fn ghost_line(m: ProjectionModel, id: Seq<char>) -> Seq<Seq<char>> {
    if m.ghosts.contains_key(id) {
        seq!["ghost "@ + state_name(m.ghosts[id].0) + ": "@ + m.ghosts[id].1]
    } else {
        seq![]
    }
}

#[verifier::opaque]
pub open spec fn degraded_line(m: ProjectionModel) -> Seq<Seq<char>> {
    match m.degraded {
        Some(r) => seq!["replay degraded: "@ + replay_error_text(r)],
        None => seq![],
    }
}

#[verifier::opaque]
pub open spec fn event_part(h: Seq<RecordedJournalEvent>, id: Seq<char>) -> Seq<Seq<char>> {
    let names = recent_event_names(h, id);
    if names.len() == 0 {
        seq!["no recent events"@]
    } else {
        names
    }
}

/// The detail pane of a running instance.
pub open spec fn instance_detail(
    m: ProjectionModel,
    e: ExecutionModel,
    h: Seq<RecordedJournalEvent>,
    reads: Seq<BlobRead>,
    clock: Option<UptimeClock>,
) -> Seq<Seq<char>> {
    identity_lines(m, e) + runtime_lines(e, clock) + resource_lines(e) + governance_lines(m, e)
        + service_part(m, h, e.exec_id@) + ghost_line(m, e.exec_id@) + degraded_line(m) + seq![
        Seq::<char>::empty(),
        "Logs"@,
    ] + log_lines(e, reads) + seq![Seq::<char>::empty(), "Recent events"@] + event_part(
        h,
        e.exec_id@,
    )
}

fn identity_part(projection: &RuntimeProjection, execution: &ExecutionView) -> (r: Vec<String>)
    requires
        projection.wf(),
    ensures
        views(r@) == identity_lines(projection.model(), execution@),
{
    let id = execution.exec_id.as_str();
    let mut v: Vec<String> = Vec::new();
    push_line(&mut v, owned("Identity"));
    push_line(&mut v, labeled("exec id: ", id));
    push_line(&mut v, labeled("summary: ", summarize_command(execution.original_command.as_str()).as_str()));
    push_line(&mut v, labeled("original command: ", execution.original_command.as_str()));
    let rewritten = match &execution.rewritten_command {
        Some(r) => r.as_str(),
        None => execution.command.as_str(),
    };
    push_line(&mut v, labeled("rewritten launch spec: ", rewritten));
    push_line(&mut v, labeled("source: ", source_label(projection, id).as_str()));
    push_line(&mut v, labeled("cwd: ", cwd_label(projection, id).as_str()));
    push_line(&mut v, String::new());
    reveal(identity_lines);
    assert(views(v@) =~= identity_lines(projection.model(), execution@));
    v
}

fn runtime_part(execution: &ExecutionView, clock: Option<UptimeClock>) -> (r: Vec<String>)
    ensures
        views(r@) == runtime_lines(execution@, clock),
{
    let state = projection_state_name(&execution.state);
    let observed = projection_state_name(&execution.observed_state);
    let mut v: Vec<String> = Vec::new();
    push_line(&mut v, owned("Runtime"));
    push_line(&mut v, labeled("effective state: ", state));
    push_line(&mut v, labeled("observed state: ", observed));
    let mut both = owned("runtime state: ");
    both.append(state);
    both.append(" (observed ");
    both.append(observed);
    both.append(")");
    push_line(&mut v, both);
    push_line(&mut v, labeled("runtime: ", runtime_label(execution, clock).as_str()));
    push_line(&mut v, labeled("policy: ", policy_summary(&execution.policy_outcome).as_str()));
    push_line(&mut v, String::new());
    reveal(runtime_lines);
    assert(views(v@) =~= runtime_lines(execution@, clock));
    v
}

fn resource_part(execution: &ExecutionView) -> (r: Vec<String>)
    ensures
        views(r@) == resource_lines(execution@),
{
    let g = &execution.resource_governance;
    let mut v: Vec<String> = Vec::new();
    push_line(&mut v, owned("Resources"));
    push_line(&mut v, labeled("pressure: ", pressure_level(g).label()));
    push_line(&mut v, labeled("current memory: ", memory_current_label(g).as_str()));
    push_line(&mut v, labeled("cpu usage: ", cpu_usage_label(g).as_str()));
    push_line(&mut v, labeled("recent peak memory: ", memory_peak_label(g).as_str()));
    push_line(&mut v, labeled("resource governance: ", governance_label(g).as_str()));
    push_line(&mut v, String::new());
    push_line(&mut v, owned("Service / Ports"));
    reveal(resource_lines);
    assert(views(v@) =~= resource_lines(execution@));
    v
}

fn governance_part(projection: &RuntimeProjection, execution: &ExecutionView) -> (r: Vec<String>)
    ensures
        views(r@) == governance_lines(projection.model(), execution@),
{
    let mut v: Vec<String> = Vec::new();
    match &execution.resource_governance {
        Some(g) => {
            if is_observability_degraded(g) || projection.is_degraded() {
                push_line(&mut v, owned("observability degraded"));
            }
            let ghost head = views(v@);
            let mut i: usize = 0;
            while i < g.enforcement_gaps.len()
                invariant
                    i <= g.enforcement_gaps@.len(),
                    views(v@) == head + gap_reasons(g.enforcement_gaps@).take(i as int),
                decreases g.enforcement_gaps.len() - i,
            {
                push_line(&mut v, g.enforcement_gaps[i].reason.clone());
                assert(gap_reasons(g.enforcement_gaps@).take(i + 1) =~= gap_reasons(
                    g.enforcement_gaps@,
                ).take(i as int).push(g.enforcement_gaps@[i as int].reason@));
                i = i + 1;
            }
            assert(gap_reasons(g.enforcement_gaps@).take(g.enforcement_gaps@.len() as int)
                =~= gap_reasons(g.enforcement_gaps@));
            proof {
                if !(observability_degraded(*g) || projection.model().degraded is Some) {
                    assert(head =~= Seq::<Seq<char>>::empty());
                }
            }
        },
        None => {},
    }
    reveal(governance_lines);
    assert(views(v@) =~= governance_lines(projection.model(), execution@));
    v
}

/// The detail pane of a running instance.
pub fn build_instance_detail(
    projection: &RuntimeProjection,
    execution: &ExecutionView,
    history: &Vec<RecordedJournalEvent>,
    reads: &Vec<BlobRead>,
    clock: Option<UptimeClock>,
) -> (r: Vec<String>)
    requires
        projection.wf(),
    ensures
        views(r@) == instance_detail(projection.model(), execution@, history@, reads@, clock),
{
    let ghost m = projection.model();
    let ghost e = execution@;
    let ghost h = history@;
    let id = execution.exec_id.as_str();
    let mut lines = identity_part(projection, execution);
    append_lines(&mut lines, runtime_part(execution, clock));
    append_lines(&mut lines, resource_part(execution));
    append_lines(&mut lines, governance_part(projection, execution));
    let ghost upto_governance = views(lines@);
    let services = collect_services_for_execution(projection, history, id);
    if services.len() == 0 {
        push_line(&mut lines, owned("no observed services"));
    } else {
        append_lines(&mut lines, services);
    }
    proof {
        reveal(service_part);
        assert(views(lines@) =~= upto_governance + service_part(m, h, e.exec_id@));
    }
    let ghost before_ghost = views(lines@);
    match projection.ghost_of(id) {
        Some(ghost) => {
            let mut line = owned("ghost ");
            line.append(projection_state_name(&ghost.state));
            line.append(": ");
            line.append(ghost.detail.as_str());
            push_line(&mut lines, line);
        },
        None => {},
    }
    proof {
        reveal(ghost_line);
        assert(views(lines@) =~= before_ghost + ghost_line(m, e.exec_id@));
    }
    let ghost before_degraded = views(lines@);
    match projection.degraded_reason() {
        Some(reason) => {
            push_line(&mut lines, labeled("replay degraded: ", reason.message().as_str()));
        },
        None => {},
    }
    proof {
        reveal(degraded_line);
        assert(views(lines@) =~= before_degraded + degraded_line(m));
    }
    let ghost before_logs = views(lines@);
    push_line(&mut lines, String::new());
    push_line(&mut lines, owned("Logs"));
    assert(views(lines@) =~= before_logs + seq![Seq::<char>::empty(), "Logs"@]);
    append_lines(&mut lines, log_tail_lines(execution, reads));
    let ghost before_events = views(lines@);
    push_line(&mut lines, String::new());
    push_line(&mut lines, owned("Recent events"));
    assert(views(lines@) =~= before_events + seq![Seq::<char>::empty(), "Recent events"@]);
    let ghost before_names = views(lines@);
    let events = recent_events_for(history, id);
    if events.len() == 0 {
        push_line(&mut lines, owned("no recent events"));
    } else {
        append_lines(&mut lines, events);
    }
    proof {
        reveal(event_part);
        assert(views(lines@) =~= before_names + event_part(h, e.exec_id@));
    }
    assert(views(lines@) =~= instance_detail(m, execution@, history@, reads@, clock));
    lines
}

/// The executions in the order the journal first requested them, each with
/// the offset of that request.
pub open spec fn launch_order(h: Seq<RecordedJournalEvent>) -> Seq<(Seq<char>, u64)>
    decreases h.len(),
{
    if h.len() == 0 {
        seq![]
    } else {
        let prev = launch_order(h.drop_last());
        match h.last().event {
            JournalEvent::LaunchRequested { exec_id, .. } => if exists|i: int|
                0 <= i < prev.len() && (#[trigger] prev[i]).0 == exec_id@ {
                prev
            } else {
                prev.push((exec_id@, h.last().offset))
            },
            _ => prev,
        }
    }
}

/// `x` placed after every entry of `s` from the first on that is at least as
/// late as it.
pub open spec fn insert_desc(s: Seq<(Seq<char>, u64)>, x: (Seq<char>, u64)) -> Seq<(Seq<char>, u64)>
    decreases s.len(),
{
    if s.len() == 0 {
        seq![x]
    } else if s[0].1 >= x.1 {
        seq![s[0]] + insert_desc(s.drop_first(), x)
    } else {
        seq![x] + s
    }
}

/// Entries by offset, latest first; entries with equal offsets keep their
/// order (a stable sort).
pub open spec fn sort_desc(s: Seq<(Seq<char>, u64)>) -> Seq<(Seq<char>, u64)>
    decreases s.len(),
{
    if s.len() == 0 {
        seq![]
    } else {
        insert_desc(sort_desc(s.drop_last()), s.last())
    }
}

pub open spec fn first_later(s: Seq<(Seq<char>, u64)>, x: (Seq<char>, u64), p: int) -> bool {
    0 <= p <= s.len() && (forall|k: int| 0 <= k < p ==> #[trigger] s[k].1 >= x.1) && (p < s.len()
        ==> s[p].1 < x.1)
}

proof fn lemma_insert_desc(s: Seq<(Seq<char>, u64)>, x: (Seq<char>, u64), p: int)
    requires
        first_later(s, x, p),
    ensures
        insert_desc(s, x) == s.insert(p, x),
    decreases s.len(),
{
    if s.len() == 0 {
        assert(s.insert(p, x) =~= seq![x]);
    } else if s[0].1 >= x.1 {
        assert(p >= 1);
        let t = s.drop_first();
        assert(first_later(t, x, p - 1)) by {
            assert forall|k: int| 0 <= k < p - 1 implies #[trigger] t[k].1 >= x.1 by {
                assert(t[k] == s[k + 1]);
            }
            if p - 1 < t.len() {
                assert(t[p - 1] == s[p]);
            }
        }
        lemma_insert_desc(t, x, p - 1);
        assert(seq![s[0]] + t.insert(p - 1, x) =~= s.insert(p, x));
    } else {
        assert(p == 0) by {
            if p > 0 {
                assert(s[0].1 >= x.1);
            }
        }
        assert(seq![x] + s =~= s.insert(0, x));
    }
}

pub open spec fn sorted_desc(s: Seq<(Seq<char>, u64)>) -> bool {
    forall|i: int, j: int| 0 <= i < j < s.len() ==> #[trigger] s[i].1 >= #[trigger] s[j].1
}

proof fn lemma_insert_desc_keeps_sorted(s: Seq<(Seq<char>, u64)>, x: (Seq<char>, u64))
    requires
        sorted_desc(s),
    ensures
        sorted_desc(insert_desc(s, x)),
        insert_desc(s, x).len() == s.len() + 1,
        insert_desc(s, x).to_multiset() == s.to_multiset().insert(x),
    decreases s.len(),
{
    broadcast use vstd::seq_lib::group_seq_properties;
    broadcast use vstd::multiset::group_multiset_axioms;
    if s.len() == 0 {
        assert(insert_desc(s, x) =~= seq![x]);
        assert(s.to_multiset() =~= vstd::multiset::Multiset::empty());
    } else if s[0].1 >= x.1 {
        let t = s.drop_first();
        assert(sorted_desc(t)) by {
            assert forall|i: int, j: int| 0 <= i < j < t.len() implies #[trigger] t[i].1 >= #[trigger] t[j].1 by {
                assert(t[i] == s[i + 1] && t[j] == s[j + 1]);
            }
        }
        lemma_insert_desc_keeps_sorted(t, x);
        let u = insert_desc(t, x);
        let r = seq![s[0]] + u;
        assert(r == insert_desc(s, x));
        assert forall|i: int, j: int| 0 <= i < j < r.len() implies #[trigger] r[i].1 >= #[trigger] r[j].1 by {
            if i == 0 {
                let k = j - 1;
                assert(r[j] == u[k]);
                assert(u.to_multiset().count(u[k]) > 0);
                assert(t.to_multiset().insert(x).count(u[k]) > 0);
                if u[k] != x {
                    assert(t.to_multiset().count(u[k]) > 0);
                    assert(t.contains(u[k]));
                    let m = choose|m: int| 0 <= m < t.len() && t[m] == u[k];
                    assert(t[m] == s[m + 1]);
                }
            } else {
                assert(r[i] == u[i - 1] && r[j] == u[j - 1]);
            }
        }
        assert(s =~= seq![s[0]] + t);
        vstd::seq_lib::lemma_multiset_commutative(seq![s[0]], t);
        vstd::seq_lib::lemma_multiset_commutative(seq![s[0]], u);
        assert(r.to_multiset() =~= s.to_multiset().insert(x));
    } else {
        let r = seq![x] + s;
        assert(r == insert_desc(s, x));
        assert forall|i: int, j: int| 0 <= i < j < r.len() implies #[trigger] r[i].1 >= #[trigger] r[j].1 by {
            if i == 0 {
                assert(r[j] == s[j - 1]);
                if j - 1 > 0 {
                    assert(s[0].1 >= s[j - 1].1);
                }
            } else {
                assert(r[i] == s[i - 1] && r[j] == s[j - 1]);
            }
        }
        vstd::seq_lib::lemma_multiset_commutative(seq![x], s);
        assert(r.to_multiset() =~= s.to_multiset().insert(x));
    }
}

/// The instance rows come latest launch first: the order they are built in
/// is sorted by launch offset, newest first, and holds every launch once.
pub proof fn lemma_launch_order_newest_first(s: Seq<(Seq<char>, u64)>)
    ensures
        sorted_desc(sort_desc(s)),
        sort_desc(s).to_multiset() == s.to_multiset(),
    decreases s.len(),
{
    broadcast use vstd::seq_lib::group_seq_properties;
    if s.len() == 0 {
        assert(sort_desc(s) =~= s);
    } else {
        lemma_launch_order_newest_first(s.drop_last());
        lemma_insert_desc_keeps_sorted(sort_desc(s.drop_last()), s.last());
        assert(s =~= s.drop_last().push(s.last()));
        assert(s.to_multiset() == s.drop_last().to_multiset().insert(s.last()));
    }
}

pub open spec fn pair_views(v: Seq<(String, u64)>) -> Seq<(Seq<char>, u64)> {
    v.map_values(|p: (String, u64)| (p.0@, p.1))
}

fn launch_order_of(history: &Vec<RecordedJournalEvent>) -> (r: Vec<(String, u64)>)
    ensures
        pair_views(r@) == launch_order(history@),
{
    let mut order: Vec<(String, u64)> = Vec::new();
    let mut i: usize = 0;
    while i < history.len()
        invariant
            i <= history@.len(),
            pair_views(order@) == launch_order(history@.take(i as int)),
        decreases history.len() - i,
    {
        assert(history@.take(i + 1).drop_last() =~= history@.take(i as int));
        match &history[i].event {
            JournalEvent::LaunchRequested { exec_id, .. } => {
                let ghost prev = pair_views(order@);
                let mut found = false;
                let mut k: usize = 0;
                while k < order.len()
                    invariant
                        k <= order@.len(),
                        prev == pair_views(order@),
                        found ==> exists|j: int| 0 <= j < prev.len() && (#[trigger] prev[j]).0 == exec_id@,
                        !found ==> forall|j: int| 0 <= j < k ==> (#[trigger] prev[j]).0 != exec_id@,
                    decreases order.len() - k,
                {
                    if str_eq(order[k].0.as_str(), exec_id.as_str()) {
                        assert(prev[k as int].0 == exec_id@);
                        found = true;
                    }
                    k = k + 1;
                }
                if !found {
                    order.push((owned(exec_id.as_str()), history[i].offset));
                    assert(pair_views(order@) =~= prev.push((exec_id@, history@[i as int].offset)));
                }
            },
            _ => {},
        }
        i = i + 1;
    }
    assert(history@.take(history@.len() as int) =~= history@);
    order
}

fn sort_by_offset_desc(order: Vec<(String, u64)>) -> (r: Vec<(String, u64)>)
    ensures
        pair_views(r@) == sort_desc(pair_views(order@)),
{
    let ghost all = pair_views(order@);
    let mut sorted: Vec<(String, u64)> = Vec::new();
    let mut i: usize = 0;
    while i < order.len()
        invariant
            all == pair_views(order@),
            i <= order@.len(),
            pair_views(sorted@) == sort_desc(all.take(i as int)),
        decreases order.len() - i,
    {
        assert(all.take(i + 1).drop_last() =~= all.take(i as int));
        let x = (order[i].0.clone(), order[i].1);
        let ghost xs = (x.0@, x.1);
        assert(xs == all[i as int]);
        let mut p: usize = 0;
        while p < sorted.len() && sorted[p].1 >= x.1
            invariant
                p <= sorted@.len(),
                xs.1 == x.1,
                forall|k: int| 0 <= k < p ==> #[trigger] pair_views(sorted@)[k].1 >= xs.1,
            decreases sorted.len() - p,
        {
            assert(pair_views(sorted@)[p as int].1 == sorted@[p as int].1);
            p = p + 1;
        }
        let ghost before = pair_views(sorted@);
        proof {
            lemma_insert_desc(before, xs, p as int);
        }
        sorted.insert(p, x);
        assert(pair_views(sorted@) =~= before.insert(p as int, xs));
        i = i + 1;
    }
    assert(all.take(order@.len() as int) =~= all);
    sorted
}

pub open spec fn instance_row(
    m: ProjectionModel,
    e: ExecutionModel,
    h: Seq<RecordedJournalEvent>,
    reads: Seq<BlobRead>,
    clock: Option<UptimeClock>,
) -> RowModel {
    let pressure = pressure_spec(e.resource_governance);
    RowModel {
        key: e.exec_id@,
        title: summary_text(e.original_command),
        subtitle: runtime_label_text(e, clock) + " | "@ + source_text(m, e.exec_id@) + " | "@
            + cwd_text(m, e.exec_id@) + " | "@ + pressure.label_spec(),
        pressure,
        detail: instance_detail(m, e, h, reads, clock),
    }
}

/// The running instances, latest launch first.
/// Each execution appears at most once in the launch order.
pub open spec fn distinct_ids(s: Seq<(Seq<char>, u64)>) -> bool {
    forall|i: int, j: int| 0 <= i < j < s.len() ==> #[trigger] s[i].0 != #[trigger] s[j].0
}

proof fn lemma_launch_order_distinct(h: Seq<RecordedJournalEvent>)
    ensures
        distinct_ids(launch_order(h)),
    decreases h.len(),
{
    if h.len() > 0 {
        lemma_launch_order_distinct(h.drop_last());
    }
}

/// The instances pane lists executions newest launch first: the order it
/// follows is sorted by launch offset, descending, and holds each launched
/// execution exactly once.
pub proof fn lemma_instances_newest_first(h: Seq<RecordedJournalEvent>)
    ensures
        sorted_desc(sort_desc(launch_order(h))),
        sort_desc(launch_order(h)).to_multiset() == launch_order(h).to_multiset(),
        distinct_ids(launch_order(h)),
{
    lemma_launch_order_newest_first(launch_order(h));
    lemma_launch_order_distinct(h);
}

pub open spec fn instance_rows_from(
    m: ProjectionModel,
    order: Seq<(Seq<char>, u64)>,
    h: Seq<RecordedJournalEvent>,
    reads: Seq<BlobRead>,
    clock: Option<UptimeClock>,
) -> Seq<RowModel>
    decreases order.len(),
{
    if order.len() == 0 {
        seq![]
    } else {
        let prev = instance_rows_from(m, order.drop_last(), h, reads, clock);
        let id = order.last().0;
        if m.executions.contains_key(id) && running_spec(m.executions[id]) {
            prev.push(instance_row(m, m.executions[id], h, reads, clock))
        } else {
            prev
        }
    }
}

pub open spec fn instance_rows(
    m: ProjectionModel,
    h: Seq<RecordedJournalEvent>,
    reads: Seq<BlobRead>,
    clock: Option<UptimeClock>,
) -> Seq<RowModel> {
    instance_rows_from(m, sort_desc(launch_order(h)), h, reads, clock)
}

fn build_instance_view(
    projection: &RuntimeProjection,
    execution: &ExecutionView,
    history: &Vec<RecordedJournalEvent>,
    reads: &Vec<BlobRead>,
    clock: Option<UptimeClock>,
) -> (r: DashboardView)
    requires
        projection.wf(),
    ensures
        row_model(r) == instance_row(projection.model(), execution@, history@, reads@, clock),
{
    let id = execution.exec_id.as_str();
    let pressure = pressure_level(&execution.resource_governance);
    let mut subtitle = runtime_label(execution, clock);
    subtitle.append(" | ");
    subtitle.append(source_label(projection, id).as_str());
    subtitle.append(" | ");
    subtitle.append(cwd_label(projection, id).as_str());
    subtitle.append(" | ");
    subtitle.append(pressure.label());
    make_row(
        owned(id),
        summarize_command(execution.original_command.as_str()),
        subtitle,
        pressure,
        build_instance_detail(projection, execution, history, reads, clock),
    )
}

pub fn build_instance_views(
    projection: &RuntimeProjection,
    history: &Vec<RecordedJournalEvent>,
    reads: &Vec<BlobRead>,
    clock: Option<UptimeClock>,
) -> (r: Vec<DashboardView>)
    requires
        projection.wf(),
    ensures
        row_models(r@) == instance_rows(projection.model(), history@, reads@, clock),
{
    let ghost m = projection.model();
    let order = sort_by_offset_desc(launch_order_of(history));
    let ghost ord = pair_views(order@);
    let mut rows: Vec<DashboardView> = Vec::new();
    let mut i: usize = 0;
    while i < order.len()
        invariant
            projection.wf(),
            m == projection.model(),
            ord == pair_views(order@),
            i <= order@.len(),
            row_models(rows@) == instance_rows_from(m, ord.take(i as int), history@, reads@, clock),
        decreases order.len() - i,
    {
        assert(ord.take(i + 1).drop_last() =~= ord.take(i as int));
        assert(ord.take(i + 1).last() == ord[i as int]);
        match projection.execution(order[i].0.as_str()) {
            Some(execution) => {
                if is_running(execution.state, execution.observed_state, &execution.lifecycle) {
                    let row = build_instance_view(projection, execution, history, reads, clock);
                    let ghost before = rows@;
                    rows.push(row);
                    assert(row_models(rows@) =~= row_models(before).push(row_model(row)));
                }
            },
            None => {},
        }
        i = i + 1;
    }
    assert(ord.take(order@.len() as int) =~= ord);
    rows
}

/// Why the dashboard could not be drawn.
#[derive(Debug, Clone, PartialEq, Eq)]
pub enum RenderError {
    History(ReplayError),
    Terminal(String),
}

pub open spec fn render_error_text(e: RenderError) -> Seq<char> {
    match e {
        RenderError::History(r) => "unable to render history pane: "@ + replay_error_text(r),
        RenderError::Terminal(m) => "unable to run dashboard terminal: "@ + m@,
    }
}

impl RenderError {
    /// The error as it is displayed.
    pub fn message(&self) -> (r: String)
        ensures
            r@ == render_error_text(*self),
    {
        match self {
            RenderError::History(e) => labeled("unable to render history pane: ", e.message().as_str()),
            RenderError::Terminal(m) => labeled("unable to run dashboard terminal: ", m.as_str()),
        }
    }
}

/// The history the dashboard shows: the journal's events, none where the
/// projection is degraded and the journal cannot be read, or the error.
pub open spec fn usable_history(
    m: ProjectionModel,
    history: Result<Seq<RecordedJournalEvent>, ReplayError>,
) -> Result<Seq<RecordedJournalEvent>, ReplayError> {
    match history {
        Ok(h) => Ok(h),
        Err(e) => if m.degraded is Some {
            Ok(seq![])
        } else {
            Err(e)
        },
    }
}

pub open spec fn history_view(h: Result<Vec<RecordedJournalEvent>, ReplayError>) -> Result<
    Seq<RecordedJournalEvent>,
    ReplayError,
> {
    match h {
        Ok(v) => Ok(v@),
        Err(e) => Err(e),
    }
}

/// The dashboard for a projection and the journal history read beside it;
/// `reads` are the retained output blobs as read from disk and `clock` the
/// system clock, where it is known.
pub fn build_dashboard_model(
    projection: &RuntimeProjection,
    history: Result<Vec<RecordedJournalEvent>, ReplayError>,
    reads: &Vec<BlobRead>,
    clock: Option<UptimeClock>,
) -> (r: Result<DashboardModel, RenderError>)
    requires
        projection.wf(),
    ensures
        match usable_history(projection.model(), history_view(history)) {
            Ok(h) => r matches Ok(d) && row_models(d.instances@) == instance_rows(
                projection.model(),
                h,
                reads@,
                clock,
            ) && row_models(d.services@) == service_rows(projection.model(), h) && row_models(
                d.history@,
            ) == history_rows(h) && row_models(d.ghosts@) == ghost_rows(projection.model(), h),
            Err(e) => r == Err::<DashboardModel, RenderError>(RenderError::History(e)),
        },
{
    let history = match history {
        Ok(h) => h,
        Err(e) => {
            if projection.is_degraded() {
                Vec::new()
            } else {
                return Err(RenderError::History(e));
            }
        },
    };
    Ok(
        DashboardModel {
            instances: build_instance_views(projection, &history, reads, clock),
            services: build_service_views(projection, &history),
            history: build_history_views(&history),
            ghosts: build_ghost_views(projection, &history),
        },
    )
}

/// The detail pane for one execution, where the projection knows it.
pub fn detail_for_exec(
    projection: &RuntimeProjection,
    history: Result<Vec<RecordedJournalEvent>, ReplayError>,
    exec_id: &str,
    reads: &Vec<BlobRead>,
    clock: Option<UptimeClock>,
) -> (r: Result<Option<Vec<String>>, RenderError>)
    requires
        projection.wf(),
    ensures
        match usable_history(projection.model(), history_view(history)) {
            Ok(h) => r matches Ok(d) && if projection.model().executions.contains_key(exec_id@) {
                d matches Some(lines) && views(lines@) == instance_detail(
                    projection.model(),
                    projection.model().executions[exec_id@],
                    h,
                    reads@,
                    clock,
                )
            } else {
                d is None
            },
            Err(e) => r == Err::<Option<Vec<String>>, RenderError>(RenderError::History(e)),
        },
{
    let history = match history {
        Ok(h) => h,
        Err(e) => {
            if projection.is_degraded() {
                Vec::new()
            } else {
                return Err(RenderError::History(e));
            }
        },
    };
    match projection.execution(exec_id) {
        Some(execution) => Ok(Some(build_instance_detail(projection, execution, &history, reads, clock))),
        None => Ok(None),
    }
}

} // verus!
