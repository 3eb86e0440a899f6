//! The `bd` (beads) command line: what to run, and the shapes of its
//! `status --json` and `list --json` answers -- every field the library
//! doesn't use is dropped rather than guessed at.
use super::proc::{push_arg, views, Invocation};
use vstd::prelude::*;

verus! {

#[derive(Debug, Clone, Copy)]
pub struct StatusResult {
    pub summary: StatusSummary,
}

impl Default for StatusResult {
    fn default() -> (r: Self)
        ensures
            r.summary == StatusSummary::zero(),
    {
        StatusResult { summary: StatusSummary::default() }
    }
}

#[derive(Debug, Clone, Copy, PartialEq, Eq, Structural)]
pub struct StatusSummary {
    pub total_issues: i64,
    pub ready_issues: i64,
    pub in_progress_issues: i64,
    pub blocked_issues: i64,
    pub deferred_issues: i64,
    pub closed_issues: i64,
}

impl StatusSummary {
    pub open spec fn zero() -> StatusSummary {
        StatusSummary {
            total_issues: 0,
            ready_issues: 0,
            in_progress_issues: 0,
            blocked_issues: 0,
            deferred_issues: 0,
            closed_issues: 0,
        }
    }
}

impl Default for StatusSummary {
    fn default() -> (r: Self)
        ensures
            r == StatusSummary::zero(),
    {
        StatusSummary {
            total_issues: 0,
            ready_issues: 0,
            in_progress_issues: 0,
            blocked_issues: 0,
            deferred_issues: 0,
            closed_issues: 0,
        }
    }
}

/// One edge of a bead's dependency list.
#[derive(Debug, Clone)]
pub struct DependencyRaw {
    pub depends_on_id: String,
    /// "blocks", "parent-child", ...
    pub dep_type: String,
}

#[derive(Debug, Clone)]
pub struct BeadRaw {
    pub id: String,
    pub title: String,
    pub status: String,
    pub priority: Option<i64>,
    pub assignee: Option<String>,
    pub updated_at: Option<String>,
    pub started_at: Option<String>,
    pub parent: Option<String>,
    pub dependencies: Vec<DependencyRaw>,
    /// The string-valued entries of the bead's metadata object, in order
    /// (entries holding anything but a string are left out).
    pub metadata: Vec<(String, String)>,
}

/// The value of the first entry with key `key`.
pub open spec fn lookup(entries: Seq<(String, String)>, key: Seq<char>) -> Option<Seq<char>>
    decreases entries.len(),
{
    if entries.len() == 0 {
        None
    } else if entries[0].0@ == key {
        Some(entries[0].1@)
    } else {
        lookup(entries.drop_first(), key)
    }
}

/// The ids of the dependencies of type `blocks`, in order.
pub open spec fn blockers(deps: Seq<DependencyRaw>) -> Seq<Seq<char>>
    decreases deps.len(),
{
    if deps.len() == 0 {
        Seq::empty()
    } else {
        let rest = blockers(deps.drop_last());
        if deps.last().dep_type@ == "blocks"@ {
            rest.push(deps.last().depends_on_id@)
        } else {
            rest
        }
    }
}

/// View of an optional string.
pub open spec fn opt_str(s: Option<String>) -> Option<Seq<char>> {
    match s {
        Some(t) => Some(t@),
        None => None,
    }
}

impl BeadRaw {
    /// The metadata string stored under `key`.
    pub fn metadata_str(&self, key: &str) -> (r: Option<String>)
        ensures
            opt_str(r) == lookup(self.metadata@, key@),
    {
        let mut i: usize = 0;
        assert(self.metadata@.skip(0) =~= self.metadata@);
        while i < self.metadata.len()
            invariant
                i <= self.metadata.len(),
                lookup(self.metadata@, key@) == lookup(self.metadata@.skip(i as int), key@),
            decreases self.metadata.len() - i,
        {
            assert(self.metadata@.skip(i as int).drop_first() =~= self.metadata@.skip(i + 1));
            assert(self.metadata@.skip(i as int)[0] == self.metadata@[i as int]);
            if crate::text::str_eq(self.metadata[i].0.as_str(), key) {
                return Some(self.metadata[i].1.clone());
            }
            i += 1;
        }
        None
    }

    /// The bead's work branch (`metadata.branch`), if recorded.
    pub fn branch(&self) -> (r: Option<String>)
        ensures
            opt_str(r) == lookup(self.metadata@, "branch"@),
    {
        self.metadata_str("branch")
    }

    /// The branch the work is meant to land on (`metadata["gc.work_branch"]`),
    /// if recorded.
    pub fn work_branch(&self) -> (r: Option<String>)
        ensures
            opt_str(r) == lookup(self.metadata@, "gc.work_branch"@),
    {
        self.metadata_str("gc.work_branch")
    }

    /// Ids of the beads this one is blocked by (dependencies of type
    /// `blocks` only; `parent-child` edges are the tree, not blockers).
    pub fn blocked_by(&self) -> (r: Vec<String>)
        ensures
            views(r@) == blockers(self.dependencies@),
    {
        let mut out: Vec<String> = Vec::new();
        let mut i: usize = 0;
        while i < self.dependencies.len()
            invariant
                i <= self.dependencies.len(),
                views(out@) == blockers(self.dependencies@.take(i as int)),
            decreases self.dependencies.len() - i,
        {
            assert(self.dependencies@.take(i + 1).drop_last() =~= self.dependencies@.take(i as int));
            let d = &self.dependencies[i];
            if crate::text::str_eq(d.dep_type.as_str(), "blocks") {
                out.push(d.depends_on_id.clone());
                assert(views(out@) =~= blockers(self.dependencies@.take(i as int)).push(
                    d.depends_on_id@,
                ));
            }
            i += 1;
        }
        assert(self.dependencies@.take(self.dependencies.len() as int) =~= self.dependencies@);
        out
    }
}

/// `-C <dir>` ahead of every `bd` call: bd runs against the rig at `dir`.
fn dir_args(dir: &str, base: &mut Vec<String>)
    ensures
        views(final(base)@) == views(old(base)@) + seq!["-C"@, dir@],
{
    push_arg(base, "-C");
    push_arg(base, dir);
    assert(views(base@) =~= views(old(base)@) + seq!["-C"@, dir@]);
}

/// `bd -C <dir> status --json --no-activity`.
pub fn status(dir: &str) -> (r: Invocation)
    ensures
        r.bin@ == "bd"@,
        r.argv() == seq!["-C"@, dir@, "status"@, "--json"@, "--no-activity"@],
{
    let mut args: Vec<String> = Vec::new();
    dir_args(dir, &mut args);
    push_arg(&mut args, "status");
    push_arg(&mut args, "--json");
    push_arg(&mut args, "--no-activity");
    assert(views(args@) =~= seq!["-C"@, dir@, "status"@, "--json"@, "--no-activity"@]);
    Invocation { bin: crate::text::owned("bd"), args }
}

/// `bd -C <dir> list --json --flat --status <status_filter>`: beads in the
/// given status (a bare status or a comma-separated list of them).
pub fn list(dir: &str, status_filter: &str) -> (r: Invocation)
    ensures
        r.bin@ == "bd"@,
        r.argv() == seq![
            "-C"@,
            dir@,
            "list"@,
            "--json"@,
            "--flat"@,
            "--status"@,
            status_filter@,
        ],
{
    let mut args: Vec<String> = Vec::new();
    dir_args(dir, &mut args);
    push_arg(&mut args, "list");
    push_arg(&mut args, "--json");
    push_arg(&mut args, "--flat");
    push_arg(&mut args, "--status");
    push_arg(&mut args, status_filter);
    assert(views(args@) =~= seq![
        "-C"@,
        dir@,
        "list"@,
        "--json"@,
        "--flat"@,
        "--status"@,
        status_filter@,
    ]);
    Invocation { bin: crate::text::owned("bd"), args }
}

} // verus!
