//! What the dashboard panes show of a row: sections of its detail lines,
//! fragments of its subtitle, and the load summary of the instances.

use vstd::prelude::*;
use crate::text::{
    chars_of, joined, owned, split_by_char, split_char, starts_with, str_eq, trim, trim_str, views,
};
use crate::tui::model::{DashboardView, PressureLevel};

verus! {

/// Scanning detail lines for a section: whether the header was seen,
/// whether a stop header ended it, and the non-empty lines taken so far.
pub open spec fn section_scan(lines: Seq<Seq<char>>, header: Seq<char>, stops: Seq<Seq<char>>) -> (
    bool,
    bool,
    Seq<Seq<char>>,
)
    decreases lines.len(),
{
    if lines.len() == 0 {
        (false, false, seq![])
    } else {
        let (inside, done, taken) = section_scan(lines.drop_last(), header, stops);
        let line = lines.last();
        if done {
            (inside, done, taken)
        } else if line == header {
            (true, false, taken)
        } else if inside && stops.contains(line) {
            (inside, true, taken)
        } else if inside && line.len() > 0 {
            (inside, false, taken.push(line))
        } else {
            (inside, false, taken)
        }
    }
}

/// The non-empty lines after `header`, up to the first stop header.
pub open spec fn section_lines(lines: Seq<Seq<char>>, header: Seq<char>, stops: Seq<Seq<char>>) -> Seq<
    Seq<char>,
> {
    section_scan(lines, header, stops).2
}

pub open spec fn str_views(v: Seq<&str>) -> Seq<Seq<char>> {
    v.map_values(|s: &str| s@)
}

fn contains_str_in(v: &[&str], s: &str) -> (r: bool)
    ensures
        r == str_views(v@).contains(s@),
{
    let mut i: usize = 0;
    while i < v.len()
        invariant
            i <= v@.len(),
            forall|k: int| 0 <= k < i ==> #[trigger] str_views(v@)[k] != s@,
        decreases v.len() - i,
    {
        if str_eq(v[i], s) {
            assert(str_views(v@)[i as int] == s@);
            return true;
        }
        i = i + 1;
    }
    false
}

pub fn extract_section(detail: &Vec<String>, header: &str, stop_headers: &[&str]) -> (r: Vec<String>)
    ensures
        views(r@) == section_lines(views(detail@), header@, str_views(stop_headers@)),
{
    let ghost d = views(detail@);
    let ghost stops = str_views(stop_headers@);
    let mut in_section = false;
    let mut lines: Vec<String> = Vec::new();
    let mut i: usize = 0;
    while i < detail.len()
        invariant
            d == views(detail@),
            stops == str_views(stop_headers@),
            i <= detail@.len(),
            section_scan(d.take(i as int), header@, stops) == (in_section, false, views(lines@)),
        decreases detail.len() - i,
    {
        let ghost pre = d.take(i as int);
        assert(d.take(i + 1).drop_last() =~= pre);
        assert(d.take(i + 1).last() == detail@[i as int]@);
        let line = &detail[i];
        if str_eq(line.as_str(), header) {
            in_section = true;
        } else if in_section && contains_str_in(stop_headers, line.as_str()) {
            proof {
                lemma_scan_stays_done(d, header@, stops, i as int + 1);
            }
            return lines;
        } else if in_section && line.unicode_len() > 0 {
            let ghost before = lines@;
            lines.push(line.clone());
            assert(views(lines@) =~= views(before).push(line@));
        }
        i = i + 1;
    }
    assert(d.take(detail@.len() as int) =~= d);
    lines
}

proof fn lemma_scan_stays_done(lines: Seq<Seq<char>>, header: Seq<char>, stops: Seq<Seq<char>>, k: int)
    requires
        0 <= k <= lines.len(),
        section_scan(lines.take(k), header, stops).1,
    ensures
        section_scan(lines, header, stops).2 == section_scan(lines.take(k), header, stops).2,
    decreases lines.len() - k,
{
    if k < lines.len() {
        assert(lines.take(k + 1).drop_last() =~= lines.take(k));
        lemma_scan_stays_done(lines, header, stops, k + 1);
    } else {
        assert(lines.take(k) =~= lines);
    }
}

/// The log lines of a detail pane: the `Logs` section, or the older
/// `Recent stdout / stderr` one.
pub open spec fn log_section(detail: Seq<Seq<char>>) -> Seq<Seq<char>> {
    let logs = section_lines(detail, "Logs"@, seq!["Recent events"@]);
    if logs.len() == 0 {
        section_lines(detail, "Recent stdout / stderr"@, seq!["Recent events"@])
    } else {
        logs
    }
}

pub fn extract_logs(detail: &Vec<String>) -> (r: Vec<String>)
    ensures
        views(r@) == log_section(views(detail@)),
{
    let stops: [&str; 1] = ["Recent events"];
    assert(str_views(stops@) =~= seq!["Recent events"@]);
    let lines = extract_section(detail, "Logs", &stops);
    if lines.len() == 0 {
        extract_section(detail, "Recent stdout / stderr", &stops)
    } else {
        lines
    }
}

/// Whether a detail line reports damage or a ghost: the notes that head the
/// selection summary.
pub open spec fn is_state_note(line: Seq<char>) -> bool {
    "replay degraded:"@.is_prefix_of(line) || "ghost "@.is_prefix_of(line)
}

/// The state notes among `lines`, in order.
pub open spec fn state_notes(lines: Seq<Seq<char>>) -> Seq<Seq<char>>
    decreases lines.len(),
{
    if lines.len() == 0 {
        seq![]
    } else {
        state_notes(lines.drop_last()) + (if is_state_note(lines.last()) {
            seq![lines.last()]
        } else {
            seq![]
        })
    }
}

pub open spec fn summary_stops() -> Seq<Seq<char>> {
    seq!["Recent stdout / stderr"@, "Logs"@, "Recent events"@]
}

pub open spec fn select_prompt() -> Seq<char> {
    "Select a running instance to inspect its runtime, resources, services, and recent output."@
}

pub open spec fn no_changes_line() -> Seq<char> {
    "No recent state changes captured yet."@
}

/// The selection summary pane: with nothing selected, a prompt to select;
/// otherwise the damage and ghost notes followed by the summary section, or
/// the recent events where both are empty, or a line saying that nothing
/// changed yet.
pub open spec fn selection_summary(detail: Seq<Seq<char>>) -> Seq<Seq<char>> {
    if detail.len() == 0 {
        seq![select_prompt()]
    } else {
        let lines = state_notes(detail) + section_lines(
            detail,
            "Selection Summary / Recent State"@,
            summary_stops(),
        );
        if lines.len() > 0 {
            lines
        } else {
            let events = section_lines(detail, "Recent events"@, seq![]);
            if events.len() > 0 {
                events
            } else {
                seq![no_changes_line()]
            }
        }
    }
}

pub fn selection_summary_lines(detail: &Vec<String>) -> (r: Vec<String>)
    ensures
        views(r@) == selection_summary(views(detail@)),
{
    let ghost d = views(detail@);
    if detail.len() == 0 {
        let mut r = Vec::new();
        r.push(owned("Select a running instance to inspect its runtime, resources, services, and recent output."));
        assert(views(r@) =~= selection_summary(d));
        return r;
    }
    let mut lines: Vec<String> = Vec::new();
    let mut i: usize = 0;
    while i < detail.len()
        invariant
            d == views(detail@),
            i <= detail@.len(),
            views(lines@) == state_notes(d.take(i as int)),
        decreases detail.len() - i,
    {
        assert(d.take(i + 1).drop_last() =~= d.take(i as int));
        assert(d.take(i + 1).last() == detail@[i as int]@);
        let line = &detail[i];
        if starts_with(line.as_str(), "replay degraded:") || starts_with(line.as_str(), "ghost ") {
            let ghost before = views(lines@);
            lines.push(owned(line.as_str()));
            assert(views(lines@) =~= before + seq![line@]);
        } else {
            let ghost before = views(lines@);
            assert(views(lines@) =~= before + Seq::<Seq<char>>::empty());
        }
        i = i + 1;
    }
    assert(d.take(detail@.len() as int) =~= d);
    let stops: [&str; 3] = ["Recent stdout / stderr", "Logs", "Recent events"];
    assert(str_views(stops@) =~= summary_stops());
    let summary = extract_section(detail, "Selection Summary / Recent State", &stops);
    let ghost notes = views(lines@);
    let mut j: usize = 0;
    while j < summary.len()
        invariant
            j <= summary@.len(),
            views(lines@) == notes + views(summary@).take(j as int),
        decreases summary.len() - j,
    {
        let ghost before = views(lines@);
        lines.push(owned(summary[j].as_str()));
        assert(views(lines@) =~= before.push(summary@[j as int]@));
        assert(views(summary@).take(j + 1) =~= views(summary@).take(j as int).push(summary@[j as int]@));
        assert(views(lines@) =~= notes + views(summary@).take(j + 1));
        j = j + 1;
    }
    assert(views(summary@).take(summary@.len() as int) =~= views(summary@));
    if lines.len() > 0 {
        return lines;
    }
    let none: [&str; 0] = [];
    assert(str_views(none@) =~= Seq::<Seq<char>>::empty());
    let events = extract_section(detail, "Recent events", &none);
    if events.len() > 0 {
        return events;
    }
    let mut r = Vec::new();
    r.push(owned("No recent state changes captured yet."));
    assert(views(r@) =~= seq![no_changes_line()]);
    r
}

/// The first of the given sections that has lines.
pub open spec fn first_section(detail: Seq<Seq<char>>, sections: Seq<(Seq<char>, Seq<Seq<char>>)>) -> Seq<
    Seq<char>,
>
    decreases sections.len(),
{
    if sections.len() == 0 {
        seq![]
    } else {
        let lines = section_lines(detail, sections[0].0, sections[0].1);
        if lines.len() > 0 {
            lines
        } else {
            first_section(detail, sections.drop_first())
        }
    }
}

pub open spec fn section_views(v: Seq<(&str, &[&str])>) -> Seq<(Seq<char>, Seq<Seq<char>>)> {
    v.map_values(|p: (&str, &[&str])| (p.0@, str_views(p.1@)))
}

pub fn first_non_empty_section(detail: &Vec<String>, sections: &[(&str, &[&str])]) -> (r: Vec<String>)
    ensures
        views(r@) == first_section(views(detail@), section_views(sections@)),
{
    let ghost all = section_views(sections@);
    let mut i: usize = 0;
    assert(all.skip(0) =~= all);
    while i < sections.len()
        invariant
            all == section_views(sections@),
            i <= sections@.len(),
            first_section(views(detail@), all) == first_section(views(detail@), all.skip(i as int)),
        decreases sections.len() - i,
    {
        assert(all.skip(i as int)[0] == all[i as int]);
        assert(all.skip(i as int).drop_first() =~= all.skip(i + 1));
        let (header, stops) = sections[i];
        let lines = extract_section(detail, header, stops);
        if lines.len() > 0 {
            return lines;
        }
        i = i + 1;
    }
    Vec::new()
}

pub open spec fn runtime_priorities() -> Seq<Seq<char>> {
    seq![
        "effective state:"@,
        "runtime state:"@,
        "runtime:"@,
        "policy:"@,
        "resource governance:"@,
        "current memory:"@,
        "recent peak memory:"@,
        "pressure:"@,
        "cpu usage:"@,
    ]
}

/// The first line that starts with `prefix`.
pub open spec fn first_with_prefix(lines: Seq<Seq<char>>, prefix: Seq<char>) -> Option<Seq<char>>
    decreases lines.len(),
{
    if lines.len() == 0 {
        None
    } else if prefix.is_prefix_of(lines[0]) {
        Some(lines[0])
    } else {
        first_with_prefix(lines.drop_first(), prefix)
    }
}

pub open spec fn picked_lines(lines: Seq<Seq<char>>, prefixes: Seq<Seq<char>>) -> Seq<Seq<char>>
    decreases prefixes.len(),
{
    if prefixes.len() == 0 {
        seq![]
    } else {
        let prev = picked_lines(lines, prefixes.drop_last());
        match first_with_prefix(lines, prefixes.last()) {
            Some(l) => prev.push(l),
            None => prev,
        }
    }
}

pub open spec fn keep_runtime_line(line: Seq<char>) -> bool {
    line != "Resources"@ && !"observed state:"@.is_prefix_of(line)
}

/// The runtime pane: one line for each of the priority fields, in their
/// order; where none is there, the lines but the `Resources` header and the
/// observed state.
pub open spec fn compact_runtime(lines: Seq<Seq<char>>) -> Seq<Seq<char>> {
    let picked = picked_lines(lines, runtime_priorities());
    if picked.len() > 0 {
        picked
    } else {
        lines.filter(|l: Seq<char>| keep_runtime_line(l))
    }
}

fn first_line_with_prefix(lines: &Vec<String>, prefix: &str) -> (r: Option<String>)
    ensures
        match (r, first_with_prefix(views(lines@), prefix@)) {
            (Some(s), Some(t)) => s@ == t,
            (None, None) => true,
            _ => false,
        },
{
    let ghost all = views(lines@);
    let mut i: usize = 0;
    assert(all.skip(0) =~= all);
    while i < lines.len()
        invariant
            all == views(lines@),
            i <= lines@.len(),
            first_with_prefix(all, prefix@) == first_with_prefix(all.skip(i as int), prefix@),
        decreases lines.len() - i,
    {
        assert(all.skip(i as int)[0] == lines@[i as int]@);
        assert(all.skip(i as int).drop_first() =~= all.skip(i + 1));
        if starts_with(lines[i].as_str(), prefix) {
            return Some(lines[i].clone());
        }
        i = i + 1;
    }
    None
}

pub fn compact_runtime_section(lines: Vec<String>) -> (r: Vec<String>)
    ensures
        views(r@) == compact_runtime(views(lines@)),
{
    let priorities: [&str; 9] = [
        "effective state:",
        "runtime state:",
        "runtime:",
        "policy:",
        "resource governance:",
        "current memory:",
        "recent peak memory:",
        "pressure:",
        "cpu usage:",
    ];
    assert(str_views(priorities@) =~= runtime_priorities());
    let ghost pr = runtime_priorities();
    let mut ordered: Vec<String> = Vec::new();
    let mut i: usize = 0;
    while i < 9
        invariant
            i <= 9,
            pr == str_views(priorities@),
            priorities@.len() == 9,
            views(ordered@) == picked_lines(views(lines@), pr.take(i as int)),
        decreases 9 - i,
    {
        assert(pr.take(i + 1).drop_last() =~= pr.take(i as int));
        assert(pr.take(i + 1).last() == priorities@[i as int]@);
        match first_line_with_prefix(&lines, priorities[i]) {
            Some(line) => {
                let ghost before = ordered@;
                ordered.push(line);
                assert(views(ordered@) =~= views(before).push(line@));
            },
            None => {},
        }
        i = i + 1;
    }
    assert(pr.take(9) =~= pr);
    if ordered.len() > 0 {
        return ordered;
    }
    let ghost all = views(lines@);
    let mut kept: Vec<String> = Vec::new();
    let mut k: usize = 0;
    while k < lines.len()
        invariant
            all == views(lines@),
            k <= lines@.len(),
            views(kept@) == all.take(k as int).filter(|l: Seq<char>| keep_runtime_line(l)),
        decreases lines.len() - k,
    {
        let ghost before = kept@;
        assert(all.take(k + 1).drop_last() =~= all.take(k as int));
        proof {
            reveal(Seq::filter);
        }
        if !str_eq(lines[k].as_str(), "Resources") && !starts_with(lines[k].as_str(), "observed state:") {
            kept.push(lines[k].clone());
            assert(views(kept@) =~= views(before).push(lines@[k as int]@));
        }
        k = k + 1;
    }
    assert(all.take(lines@.len() as int) =~= all);
    kept
}

/// The rows whose pressure is `a` or `b`.
pub open spec fn count_rows(rows: Seq<DashboardView>, a: PressureLevel, b: PressureLevel) -> nat
    decreases rows.len(),
{
    if rows.len() == 0 {
        0
    } else {
        count_rows(rows.drop_last(), a, b) + if rows.last().pressure == a || rows.last().pressure
            == b {
            1nat
        } else {
            0nat
        }
    }
}

fn count_pressure(instances: &[DashboardView], a: PressureLevel, b: PressureLevel) -> (r: usize)
    ensures
        r == count_rows(instances@, a, b),
{
    let mut n: usize = 0;
    let mut i: usize = 0;
    while i < instances.len()
        invariant
            i <= instances@.len(),
            n == count_rows(instances@.take(i as int), a, b),
            n <= i,
        decreases instances.len() - i,
    {
        assert(instances@.take(i + 1).drop_last() =~= instances@.take(i as int));
        assert(instances@.take(i + 1).last() == instances@[i as int]);
        if instances[i].pressure == a || instances[i].pressure == b {
            n = n + 1;
        }
        i = i + 1;
    }
    assert(instances@.take(instances@.len() as int) =~= instances@);
    n
}

/// The instances under elevated or constrained pressure.
pub fn count_high_pressure(instances: &[DashboardView]) -> (r: usize)
    ensures
        r == count_rows(instances@, PressureLevel::Elevated, PressureLevel::Constrained),
{
    count_pressure(instances, PressureLevel::Elevated, PressureLevel::Constrained)
}

pub open spec fn global_load_text(instances: Seq<DashboardView>) -> Seq<char> {
    "Global load: "@ + crate::text::decimal(
        count_rows(instances, PressureLevel::Constrained, PressureLevel::Constrained),
    ) + " constrained / "@ + crate::text::decimal(
        count_rows(instances, PressureLevel::Elevated, PressureLevel::Elevated),
    ) + " elevated"@
}

/// The header's load summary.
pub fn global_load_label(instances: &[DashboardView]) -> (r: String)
    ensures
        r@ == global_load_text(instances@),
{
    let constrained = count_pressure(instances, PressureLevel::Constrained, PressureLevel::Constrained);
    let elevated = count_pressure(instances, PressureLevel::Elevated, PressureLevel::Elevated);
    let mut r = owned("Global load: ");
    r.append(crate::text::u64_to_string(constrained as u64).as_str());
    r.append(" constrained / ");
    r.append(crate::text::u64_to_string(elevated as u64).as_str());
    r.append(" elevated");
    r
}

/// The first part of a subtitle, trimmed: the runtime of an instance row.
pub open spec fn runtime_fragment_text(subtitle: Seq<char>) -> Seq<char> {
    trim(split_char(subtitle, '|')[0])
}

pub fn runtime_fragment(subtitle: &str) -> (r: String)
    ensures
        r@ == runtime_fragment_text(subtitle@),
{
    let parts = split_by_char(subtitle, '|');
    trim_str(parts[0].as_str())
}

/// The other parts of a subtitle, trimmed and joined by ` • `.
pub open spec fn metadata_fragment_text(subtitle: Seq<char>) -> Seq<char> {
    joined(split_char(subtitle, '|').drop_first().map_values(|p: Seq<char>| trim(p)), " • "@)
}

pub fn metadata_fragment(subtitle: &str) -> (r: String)
    ensures
        r@ == metadata_fragment_text(subtitle@),
{
    let parts = split_by_char(subtitle, '|');
    let ghost rest = split_char(subtitle@, '|').drop_first().map_values(|p: Seq<char>| trim(p));
    let mut trimmed: Vec<String> = Vec::new();
    let mut i: usize = 1;
    while i < parts.len()
        invariant
            1 <= i <= parts@.len(),
            views(parts@) == split_char(subtitle@, '|'),
            rest == split_char(subtitle@, '|').drop_first().map_values(|p: Seq<char>| trim(p)),
            views(trimmed@) == rest.take(i - 1),
        decreases parts.len() - i,
    {
        let t = trim_str(parts[i].as_str());
        let ghost before = trimmed@;
        trimmed.push(t);
        assert(views(trimmed@) =~= rest.take(i as int)) by {
            assert(views(trimmed@) =~= views(before).push(t@));
        }
        i = i + 1;
    }
    assert(rest.take(parts@.len() - 1) =~= rest);
    crate::text::join_strings(&trimmed, " • ")
}

} // verus!
