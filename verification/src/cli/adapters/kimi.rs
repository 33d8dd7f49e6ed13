//! The Kimi Code adapter: a shell hook in which execmanager owns one marked
//! region and leaves everything else as the user wrote it.

use vstd::prelude::*;
use crate::cli::adapters::{AdapterDetection, AdapterError, HookPlan};
use crate::paths::{join_path, path_join};
use crate::cli::recovery::{HookInstallMode, HookInstallOutcome};
use crate::text::{
    chars_of, copy_string, find_first_from, first_at_or_after, matches_at, occurs_at, owned,
    string_from_chars,
};

verus! {

pub open spec fn begin_marker() -> Seq<char> {
    "# BEGIN EXECMANAGER MANAGED HOOK"@
}

pub open spec fn end_marker() -> Seq<char> {
    "# END EXECMANAGER MANAGED HOOK"@
}

/// The region that execmanager writes into the hook.
#[verifier::opaque]
pub open spec fn managed_region_text() -> Seq<char> {
    "# BEGIN EXECMANAGER MANAGED HOOK"@ + "\n"@ + "# execmanager-managed-hook-version: 1"@ + "\n"@
        + "execmanager daemon run"@ + "\n"@ + "# END EXECMANAGER MANAGED HOOK"@ + "\n"@
}

pub open spec fn conflict_text() -> Seq<char> {
    "managed Kimi hook was modified outside execmanager; manual resolution required"@
}

/// Where the marked region stands in `c`: from the first begin marker to the
/// end of the first end marker after it, with the newline that follows it.
pub open spec fn marker_bounds_spec(c: Seq<char>) -> Option<(int, int)> {
    match first_at_or_after(c, begin_marker(), 0) {
        None => None,
        Some(b) => match first_at_or_after(c, end_marker(), b) {
            None => None,
            Some(e) => {
                let after = e + end_marker().len();
                Some((b, if after < c.len() && c[after] == '\n' { after + 1 } else { after }))
            },
        },
    }
}

/// `c` followed by the managed region, on a line of its own.
pub open spec fn appended_text(c: Seq<char>) -> Seq<char> {
    if c.len() > 0 && c.last() != '\n' {
        c + "\n"@ + managed_region_text()
    } else {
        c + managed_region_text()
    }
}

/// The hook after an install or a repair, given what the file held (`None`
/// where there was no file); `None` where the marked region was changed by
/// someone else.
pub open spec fn installed_text(existing: Option<Seq<char>>) -> Option<Seq<char>> {
    match existing {
        None => Some(managed_region_text()),
        Some(c) => match marker_bounds_spec(c) {
            None => Some(appended_text(c)),
            Some((s, e)) => if c.subrange(s, e) == managed_region_text() {
                Some(c)
            } else {
                None
            },
        },
    }
}

/// How an install changes the file, given what it held.
pub open spec fn install_mode_for(existing: Option<Seq<char>>) -> HookInstallMode {
    match existing {
        None => HookInstallMode::NewFile,
        Some(_) => HookInstallMode::AppendManagedRegion,
    }
}

/// The hook after the managed region is taken out; `None` where the marked
/// region was changed by someone else.
pub open spec fn removed_text(c: Seq<char>) -> Option<Seq<char>> {
    match marker_bounds_spec(c) {
        None => Some(c),
        Some((s, e)) => if c.subrange(s, e) == managed_region_text() {
            Some(c.take(s) + c.skip(e))
        } else {
            None
        },
    }
}

pub open spec fn opt_text(value: Option<String>) -> Option<Seq<char>> {
    match value {
        Some(v) => Some(v@),
        None => None,
    }
}

/// What an install writes, and what it records for a later restore.
#[derive(Debug, Clone, PartialEq, Eq)]
pub struct HookInstall {
    pub contents: String,
    pub outcome: HookInstallOutcome,
}

#[derive(Debug, Clone, PartialEq, Eq)]
pub struct KimiAdapter {
    hook_path: String,
}

pub open spec fn kimi_hook_path(home: Seq<char>) -> Seq<char> {
    path_join(path_join(path_join(path_join(home, ".config"@), "kimi"@), "hooks"@), "execmanager-hook.sh"@)
}

fn conflict_error() -> (r: AdapterError)
    ensures
        r matches AdapterError::Conflict { message: m } && m@ == conflict_text(),
{
    AdapterError::conflict("managed Kimi hook was modified outside execmanager; manual resolution required")
}

/// Whether `s[from..to]` is exactly `target`.
fn slice_equals(s: &[char], from: usize, to: usize, target: &[char]) -> (r: bool)
    requires
        from <= to <= s@.len(),
    ensures
        r == (s@.subrange(from as int, to as int) == target@),
{
    if to - from != target.len() {
        return false;
    }
    let r = matches_at(s, target, from);
    proof {
        if s@.subrange(from as int, to as int) == target@ {
            assert(occurs_at(s@, target@, from as int));
        }
    }
    r
}

impl KimiAdapter {
    pub closed spec fn hook_path_view(&self) -> Seq<char> {
        self.hook_path@
    }

    /// The adapter for the user whose home directory is `home`; fails closed
    /// where no home directory is known.
    pub fn new(home: Option<String>) -> (r: Result<Self, AdapterError>)
        ensures
            match opt_text(home) {
                Some(h) => if h.len() > 0 {
                    r matches Ok(a) && a.hook_path_view() == kimi_hook_path(h)
                } else {
                    r matches Err(AdapterError::Io { message: m }) && m@ == "HOME is not set"@
                },
                None => r matches Err(AdapterError::Io { message: m }) && m@ == "HOME is not set"@,
            },
    {
        match home {
            Some(h) => {
                if h.unicode_len() == 0 {
                    return Err(AdapterError::Io { message: owned("HOME is not set") });
                }
                let a = join_path(&h, ".config");
                let b = join_path(&a, "kimi");
                let c = join_path(&b, "hooks");
                let hook_path = join_path(&c, "execmanager-hook.sh");
                Ok(KimiAdapter { hook_path })
            },
            None => Err(AdapterError::Io { message: owned("HOME is not set") }),
        }
    }

    pub fn for_test(hook_path: String) -> (r: Self)
        ensures
            r.hook_path_view() == hook_path@,
    {
        KimiAdapter { hook_path }
    }

    pub fn hook_path(&self) -> (r: &str)
        ensures
            r@ == self.hook_path_view(),
    {
        self.hook_path.as_str()
    }

    pub fn key(&self) -> (r: &'static str)
        ensures
            r@ == "kimi"@,
    {
        "kimi"
    }

    /// The region that execmanager owns in the hook.
    pub fn managed_region() -> (r: String)
        ensures
            r@ == managed_region_text(),
    {
        let mut r = owned("# BEGIN EXECMANAGER MANAGED HOOK");
        r.append("\n");
        r.append("# execmanager-managed-hook-version: 1");
        r.append("\n");
        r.append("execmanager daemon run");
        r.append("\n");
        r.append("# END EXECMANAGER MANAGED HOOK");
        r.append("\n");
        proof {
            reveal(managed_region_text);
        }
        r
    }

    /// Where the marked region stands in `contents`, by character position.
    pub fn marker_bounds(contents: &[char]) -> (r: Option<(usize, usize)>)
        ensures
            match r {
                Some((b, e)) => marker_bounds_spec(contents@) == Some((b as int, e as int)) && b
                    <= e <= contents@.len(),
                None => marker_bounds_spec(contents@) is None,
            },
    {
        let begin = chars_of("# BEGIN EXECMANAGER MANAGED HOOK");
        let end = chars_of("# END EXECMANAGER MANAGED HOOK");
        let b = match find_first_from(contents, begin.as_slice(), 0) {
            Some(b) => b,
            None => return None,
        };
        let e = match find_first_from(contents, end.as_slice(), b) {
            Some(e) => e,
            None => return None,
        };
        assert(end@ == end_marker());
        assert(begin@ == begin_marker());
        assert(contents@.len() == contents.len());
        let after = e + end.len();
        if after < contents.len() && contents[after] == '\n' {
            Some((b, after + 1))
        } else {
            Some((b, after))
        }
    }

    /// Whether `contents[from..to]` is exactly the managed region.
    fn region_is_managed(contents: &[char], from: usize, to: usize) -> (r: bool)
        requires
            from <= to <= contents@.len(),
        ensures
            r == (contents@.subrange(from as int, to as int) == managed_region_text()),
    {
        let managed = Self::managed_region();
        let m = chars_of(managed.as_str());
        slice_equals(contents, from, to, m.as_slice())
    }

    /// `contents` followed by the managed region.
    pub fn append_managed_region(contents: &str) -> (r: String)
        ensures
            r@ == appended_text(contents@),
    {
        let mut rendered = owned(contents);
        let n = contents.unicode_len();
        if n > 0 && contents.get_char(n - 1) != '\n' {
            rendered.append("\n");
        }
        rendered.append(Self::managed_region().as_str());
        rendered
    }

    /// The hook as a repair writes it, given what the file holds.
    pub fn render_installed_contents(existing: Option<&str>) -> (r: Result<String, AdapterError>)
        ensures
            match (r, installed_text(match existing { Some(s) => Some(s@), None => None })) {
                (Ok(s), Some(t)) => s@ == t,
                (Err(e), None) => e matches AdapterError::Conflict { message: m } && m@
                    == conflict_text(),
                _ => false,
            },
    {
        match existing {
            None => Ok(Self::managed_region()),
            Some(contents) => {
                let v = chars_of(contents);
                match Self::marker_bounds(v.as_slice()) {
                    Some((start, end)) => {
                        if Self::region_is_managed(v.as_slice(), start, end) {
                            Ok(owned(contents))
                        } else {
                            Err(conflict_error())
                        }
                    },
                    None => Ok(Self::append_managed_region(contents)),
                }
            },
        }
    }

    /// The hook with the managed region taken out.
    pub fn remove_managed_region(contents: &str) -> (r: Result<String, AdapterError>)
        ensures
            match (r, removed_text(contents@)) {
                (Ok(s), Some(t)) => s@ == t,
                (Err(e), None) => e matches AdapterError::Conflict { message: m } && m@
                    == conflict_text(),
                _ => false,
            },
    {
        let v = chars_of(contents);
        match Self::marker_bounds(v.as_slice()) {
            Some((start, end)) => {
                if !Self::region_is_managed(v.as_slice(), start, end) {
                    return Err(conflict_error());
                }
                let mut updated = string_from_chars(v.as_slice(), 0, start);
                let rest = string_from_chars(v.as_slice(), end, v.len());
                updated.append(rest.as_str());
                assert(v@.subrange(0, start as int) =~= contents@.take(start as int));
                assert(v@.subrange(end as int, v@.len() as int) =~= contents@.skip(end as int));
                Ok(updated)
            },
            None => Ok(owned(contents)),
        }
    }

    /// Installs the managed hook over what the file holds (`None` where there
    /// is no file): the contents to write, and what a restore needs to know.
    pub fn install_managed_hook_with_outcome(&self, existing: Option<String>) -> (r: Result<
        HookInstall,
        AdapterError,
    >)
        ensures
            match (r, installed_text(opt_text(existing))) {
                (Ok(i), Some(t)) => {
                    &&& i.contents@ == t
                    &&& i.outcome.hook_path@ == self.hook_path_view()
                    &&& opt_text(i.outcome.previous_contents) == opt_text(existing)
                    &&& i.outcome.install_mode == install_mode_for(opt_text(existing))
                },
                (Err(e), None) => e matches AdapterError::Conflict { message: m } && m@
                    == conflict_text(),
                _ => false,
            },
    {
        match existing {
            None => Ok(
                HookInstall {
                    contents: Self::managed_region(),
                    outcome: HookInstallOutcome {
                        hook_path: copy_string(&self.hook_path),
                        previous_contents: None,
                        install_mode: HookInstallMode::NewFile,
                    },
                },
            ),
            Some(contents) => {
                let rendered = Self::render_installed_contents(Some(contents.as_str()));
                match rendered {
                    Ok(text) => Ok(
                        HookInstall {
                            contents: text,
                            outcome: HookInstallOutcome {
                                hook_path: copy_string(&self.hook_path),
                                previous_contents: Some(contents),
                                install_mode: HookInstallMode::AppendManagedRegion,
                            },
                        },
                    ),
                    Err(e) => Err(e),
                }
            },
        }
    }

    /// The install plan for the hook, given what the file holds.
    pub fn plan_hook_install(&self, existing: Option<String>) -> (r: HookPlan)
        ensures
            r.hook_path@ == self.hook_path_view(),
            r.managed_region_present == (match opt_text(existing) {
                Some(c) => marker_bounds_spec(c) is Some,
                None => false,
            }),
    {
        let present = match existing {
            Some(contents) => {
                let v = chars_of(contents.as_str());
                match Self::marker_bounds(v.as_slice()) {
                    Some(_) => true,
                    None => false,
                }
            },
            None => false,
        };
        HookPlan { hook_path: copy_string(&self.hook_path), managed_region_present: present }
    }

    /// Whether Kimi is set up here, given the hook's directory (`None` where
    /// the hook path has none) and whether that directory exists.
    pub fn detect(&self, parent: Option<String>, parent_exists: bool) -> (r: AdapterDetection)
        ensures
            match parent {
                Some(p) => if parent_exists {
                    r matches AdapterDetection::Detected { hook_path } && hook_path@
                        == self.hook_path_view()
                } else {
                    r matches AdapterDetection::NotDetected { reason } && reason@
                        == "Kimi hooks directory is missing at "@ + p@
                },
                None => r matches AdapterDetection::NotDetected { reason } && reason@
                    == "Kimi hook path has no parent directory"@,
            },
    {
        match parent {
            Some(p) => {
                if parent_exists {
                    AdapterDetection::Detected { hook_path: copy_string(&self.hook_path) }
                } else {
                    let mut reason = owned("Kimi hooks directory is missing at ");
                    reason.append(p.as_str());
                    AdapterDetection::NotDetected { reason }
                }
            },
            None => AdapterDetection::NotDetected {
                reason: owned("Kimi hook path has no parent directory"),
            },
        }
    }
}

} // verus!

verus! {

proof fn lemma_managed_region_shape()
    ensures
        managed_region_text().len() == 125,
        managed_region_text().subrange(0, 32) == begin_marker(),
        managed_region_text().subrange(94, 124) == end_marker(),
        managed_region_text()[124] == '\n',
        begin_marker().len() == 32,
        end_marker().len() == 30,
        forall|k: int| 0 <= k < 32 ==> begin_marker()[k] != '\n',
        forall|k: int| 0 <= k < 94 ==> !occurs_at(managed_region_text(), end_marker(), k),
{
    reveal_strlit("# BEGIN EXECMANAGER MANAGED HOOK");
    reveal_strlit("\n");
    reveal_strlit("# execmanager-managed-hook-version: 1");
    reveal_strlit("execmanager daemon run");
    reveal_strlit("# END EXECMANAGER MANAGED HOOK");
    reveal(managed_region_text);
    let m = managed_region_text();
    assert(m.subrange(0, 32) =~= begin_marker());
    assert(m.subrange(94, 124) =~= end_marker());
    assert forall|k: int| 0 <= k < 94 implies !occurs_at(m, end_marker(), k) by {
        if occurs_at(m, end_marker(), k) {
            assert(m.subrange(k, k + 30)[0] == '#');
            assert(m.subrange(k, k + 30)[2] == 'E');
            assert(m[k] == '#');
            assert(m[k + 2] == 'E');
        }
    }
}

/// `c` with the newline that an install puts before the managed region.
pub open spec fn separated(c: Seq<char>) -> Seq<char> {
    if c.len() > 0 && c.last() != '\n' {
        c + "\n"@
    } else {
        c
    }
}

/// Whether `c` holds the begin marker anywhere.
pub open spec fn has_begin_marker(c: Seq<char>) -> bool {
    exists|i: int| occurs_at(c, begin_marker(), i)
}

proof fn lemma_no_begin_before(c: Seq<char>, j: int)
    requires
        !has_begin_marker(c),
        0 <= j < separated(c).len(),
        managed_region_text().len() == 125,
        begin_marker().len() == 32,
        forall|k: int| 0 <= k < 32 ==> begin_marker()[k] != '\n',
    ensures
        !occurs_at(separated(c) + managed_region_text(), begin_marker(), j),
{
    let p = separated(c);
    let t = p + managed_region_text();
    let b = begin_marker();
    if occurs_at(t, b, j) {
        if j + 32 <= c.len() {
            assert(t.subrange(j, j + 32) =~= c.subrange(j, j + 32));
            assert(occurs_at(c, b, j));
        } else {
            reveal_strlit("\n");
            let q = if p.len() > c.len() { c.len() as int } else { c.len() - 1 };
            assert(p[q] == '\n');
            assert(t[q] == '\n');
            assert(0 <= q - j < 32);
            assert(t.subrange(j, j + 32)[q - j] == t[q]);
        }
    }
}

proof fn lemma_begin_found(c: Seq<char>)
    requires
        !has_begin_marker(c),
    ensures
        first_at_or_after(separated(c) + managed_region_text(), begin_marker(), 0) == Some(
            separated(c).len() as int,
        ),
{
    lemma_managed_region_shape();
    let m = managed_region_text();
    let p = separated(c);
    let t = p + m;
    let n = p.len() as int;
    let b = begin_marker();
    assert(t.subrange(n, n + 32) =~= m.subrange(0, 32));
    assert(occurs_at(t, b, n));
    assert forall|j: int| 0 <= j < n implies !occurs_at(t, b, j) by {
        lemma_no_begin_before(c, j);
    }
    reveal(first_at_or_after);
    let i0 = choose|i: int|
        0 <= i && occurs_at(t, b, i) && forall|j: int| 0 <= j < i ==> !occurs_at(t, b, j);
    assert(i0 == n) by {
        if i0 < n {
        } else if i0 > n {
        }
    }
}

proof fn lemma_end_found(p: Seq<char>)
    ensures
        first_at_or_after(p + managed_region_text(), end_marker(), p.len() as int) == Some(
            p.len() as int + 94,
        ),
{
    lemma_managed_region_shape();
    reveal(first_at_or_after);
    let m = managed_region_text();
    let t = p + m;
    let n = p.len() as int;
    let e = end_marker();
    assert(t.subrange(n + 94, n + 124) =~= m.subrange(94, 124));
    assert(occurs_at(t, e, n + 94));
    assert forall|j: int| n <= j < n + 94 implies !occurs_at(t, e, j) by {
        if occurs_at(t, e, j) {
            assert(t.subrange(j, j + 30) =~= m.subrange(j - n, j - n + 30));
            assert(occurs_at(m, e, j - n));
        }
    }
    let i1 = choose|i: int|
        n <= i && occurs_at(t, e, i) && forall|j: int| n <= j < i ==> !occurs_at(t, e, j);
    assert(i1 == n + 94) by {
        if i1 < n + 94 {
        } else if i1 > n + 94 {
        }
    }
}

/// In a hook without a begin marker, the region that an install appends is
/// the one that the markers delimit afterwards.
proof fn lemma_bounds_of_appended(c: Seq<char>)
    requires
        !has_begin_marker(c),
    ensures
        appended_text(c) == separated(c) + managed_region_text(),
        marker_bounds_spec(appended_text(c)) == Some(
            (separated(c).len() as int, appended_text(c).len() as int),
        ),
        appended_text(c).subrange(separated(c).len() as int, appended_text(c).len() as int)
            == managed_region_text(),
{
    lemma_managed_region_shape();
    let m = managed_region_text();
    let p = separated(c);
    let t = p + m;
    let n = p.len() as int;
    assert(appended_text(c) =~= t);
    lemma_begin_found(c);
    lemma_end_found(p);
    assert(t[n + 124] == m[124]);
    assert(t.subrange(n, t.len() as int) =~= m);
}

/// Installing never loses what the hook held: the old contents stay at the
/// start of the new ones.
pub proof fn lemma_install_keeps_existing_contents(c: Seq<char>)
    requires
        installed_text(Some(c)) is Some,
    ensures
        c.is_prefix_of(installed_text(Some(c))->0),
{
    let t = installed_text(Some(c))->0;
    assert(t.subrange(0, c.len() as int) =~= c);
}

/// Installing twice writes what installing once wrote, for every hook but
/// one that holds a begin marker with no end marker after it.
pub proof fn lemma_install_is_idempotent(existing: Option<Seq<char>>)
    requires
        installed_text(existing) is Some,
        existing matches Some(c) ==> marker_bounds_spec(c) is Some || !has_begin_marker(c),
    ensures
        installed_text(installed_text(existing)) == installed_text(existing),
{
    match existing {
        None => {
            lemma_managed_region_shape();
            lemma_bounds_of_appended(seq![]);
            assert(separated(seq![]) + managed_region_text() =~= managed_region_text());
        },
        Some(c) => {
            if marker_bounds_spec(c) is None {
                lemma_bounds_of_appended(c);
            }
        },
    }
}

/// Uninstalling after an install gives back the hook as it was (with the
/// newline that the install put after its last line), and an empty hook where
/// there was none; for every hook but one that already held a begin marker.
pub proof fn lemma_uninstall_undoes_install(existing: Option<Seq<char>>)
    requires
        existing matches Some(c) ==> !has_begin_marker(c),
    ensures
        installed_text(existing) is Some,
        removed_text(installed_text(existing)->0) == Some(
            match existing {
                Some(c) => separated(c),
                None => Seq::<char>::empty(),
            },
        ),
{
    let c = match existing {
        Some(c) => c,
        None => Seq::<char>::empty(),
    };
    lemma_managed_region_shape();
    lemma_bounds_of_appended(c);
    let t = appended_text(c);
    let n = separated(c).len() as int;
    assert(t.take(n) + t.skip(t.len() as int) =~= separated(c));
    if existing is None {
        assert(separated(c) + managed_region_text() =~= managed_region_text());
        assert(separated(c) =~= Seq::<char>::empty());
    } else {
        assert(marker_bounds_spec(c) is None) by {
            reveal(first_at_or_after);
        }
    }
}

} // verus!
