//! Minimal local `git` introspection -- not one of the orchestrator's own
//! tools, but the actual authority on "has this bead's branch landed."
//! Ancestry is checked against `origin/*` remote-tracking refs: a rig
//! checkout's local branches can be missing or stale while the remote is
//! authoritative for "did this actually land."
use super::proc::{push_arg, views, Invocation};
use vstd::prelude::*;

verus! {

/// The remote whose refs are authoritative.
pub open spec fn remote_prefix() -> Seq<char> {
    "origin/"@
}

/// `origin/<branch>`.
pub fn remote_ref(branch: &str) -> (r: String)
    ensures
        r@ == remote_prefix() + branch@,
{
    crate::text::concat("origin/", branch)
}

fn git_call(repo_dir: &str, rest: &Vec<String>) -> (r: Invocation)
    ensures
        r.bin@ == "git"@,
        r.argv() == seq!["-C"@, repo_dir@] + views(rest@),
{
    let mut args: Vec<String> = Vec::new();
    push_arg(&mut args, "-C");
    push_arg(&mut args, repo_dir);
    let mut i: usize = 0;
    while i < rest.len()
        invariant
            i <= rest.len(),
            views(args@) == seq!["-C"@, repo_dir@] + views(rest@.take(i as int)),
        decreases rest.len() - i,
    {
        push_arg(&mut args, rest[i].as_str());
        assert(views(rest@.take(i + 1)) =~= views(rest@.take(i as int)).push(rest@[i as int]@));
        assert(seq!["-C"@, repo_dir@] + views(rest@.take(i + 1)) =~= (seq!["-C"@, repo_dir@]
            + views(rest@.take(i as int))).push(rest@[i as int]@));
        i += 1;
    }
    assert(rest@.take(rest.len() as int) =~= rest@);
    Invocation { bin: crate::text::owned("git"), args }
}

/// `git -C <repo_dir> merge-base --is-ancestor <branch> <target_branch>`:
/// succeeds exactly when `branch` is already merged into (an ancestor of)
/// `target_branch`.
pub fn is_merged_args(repo_dir: &str, branch: &str, target_branch: &str) -> (r: Invocation)
    ensures
        r.bin@ == "git"@,
        r.argv() == seq![
            "-C"@,
            repo_dir@,
            "merge-base"@,
            "--is-ancestor"@,
            branch@,
            target_branch@,
        ],
{
    let mut rest: Vec<String> = Vec::new();
    push_arg(&mut rest, "merge-base");
    push_arg(&mut rest, "--is-ancestor");
    push_arg(&mut rest, branch);
    push_arg(&mut rest, target_branch);
    let r = git_call(repo_dir, &rest);
    assert(r.argv() =~= seq![
        "-C"@,
        repo_dir@,
        "merge-base"@,
        "--is-ancestor"@,
        branch@,
        target_branch@,
    ]);
    r
}

/// Folds "not a git repo here", "branch not found" and a failure to run git
/// at all into `false`: callers only want a yes/no landed signal, and
/// "unknown" means "not landed yet".
pub fn is_merged_lenient(outcome: Result<bool, String>) -> (r: bool)
    ensures
        r == (outcome matches Ok(true)),
{
    match outcome {
        Ok(b) => b,
        Err(_) => false,
    }
}

/// `git -C <repo_dir> fetch origin --quiet`.
pub fn fetch_args(repo_dir: &str) -> (r: Invocation)
    ensures
        r.bin@ == "git"@,
        r.argv() == seq!["-C"@, repo_dir@, "fetch"@, "origin"@, "--quiet"@],
{
    let mut rest: Vec<String> = Vec::new();
    push_arg(&mut rest, "fetch");
    push_arg(&mut rest, "origin");
    push_arg(&mut rest, "--quiet");
    let r = git_call(repo_dir, &rest);
    assert(r.argv() =~= seq!["-C"@, repo_dir@, "fetch"@, "origin"@, "--quiet"@]);
    r
}

/// `git -C <repo_dir> symbolic-ref --short refs/remotes/origin/HEAD`:
/// prints origin's default branch as `origin/<name>`.
pub fn default_branch_args(repo_dir: &str) -> (r: Invocation)
    ensures
        r.bin@ == "git"@,
        r.argv() == seq![
            "-C"@,
            repo_dir@,
            "symbolic-ref"@,
            "--short"@,
            "refs/remotes/origin/HEAD"@,
        ],
{
    let mut rest: Vec<String> = Vec::new();
    push_arg(&mut rest, "symbolic-ref");
    push_arg(&mut rest, "--short");
    push_arg(&mut rest, "refs/remotes/origin/HEAD");
    let r = git_call(repo_dir, &rest);
    assert(r.argv() =~= seq![
        "-C"@,
        repo_dir@,
        "symbolic-ref"@,
        "--short"@,
        "refs/remotes/origin/HEAD"@,
    ]);
    r
}

/// The branch name in `symbolic-ref`'s answer: the trimmed output without
/// its `origin/`, when it has one and something follows it.
pub open spec fn default_branch_spec(stdout: Seq<char>) -> Option<Seq<char>> {
    let t = crate::text::trim(stdout);
    if crate::text::has_prefix(t, remote_prefix()) && t.len() > remote_prefix().len() {
        Some(t.skip(remote_prefix().len() as int))
    } else {
        None
    }
}

/// Reads origin's default branch out of `symbolic-ref`'s output.
pub fn parse_default_branch(stdout: &str) -> (r: Option<String>)
    ensures
        super::bd::opt_str(r) == default_branch_spec(stdout@),
{
    let t = crate::text::trim_str(stdout);
    match crate::text::strip_prefix(t.as_str(), "origin/") {
        Some(rest) => {
            if crate::text::to_chars(rest.as_str()).len() > 0 {
                Some(rest)
            } else {
                None
            }
        },
        None => None,
    }
}

/// `git -C <repo_dir> for-each-ref --format=%(refname:short)
/// refs/remotes/origin/<prefix>`: one `origin/<branch>` per line for every
/// remote branch under `prefix`.
pub fn remote_branches_args(repo_dir: &str, prefix: &str) -> (r: Invocation)
    ensures
        r.bin@ == "git"@,
        r.argv() == seq![
            "-C"@,
            repo_dir@,
            "for-each-ref"@,
            "--format=%(refname:short)"@,
            "refs/remotes/origin/"@ + prefix@,
        ],
{
    let pattern = crate::text::concat("refs/remotes/origin/", prefix);
    let mut rest: Vec<String> = Vec::new();
    push_arg(&mut rest, "for-each-ref");
    push_arg(&mut rest, "--format=%(refname:short)");
    push_arg(&mut rest, pattern.as_str());
    let r = git_call(repo_dir, &rest);
    assert(r.argv() =~= seq![
        "-C"@,
        repo_dir@,
        "for-each-ref"@,
        "--format=%(refname:short)"@,
        "refs/remotes/origin/"@ + prefix@,
    ]);
    r
}

/// The branch named on one output line: the trimmed line without its
/// `origin/`, when it has one and the rest starts with `prefix`.
pub open spec fn branch_on_line(line: Seq<char>, prefix: Seq<char>) -> Option<Seq<char>> {
    let t = crate::text::trim(line);
    if crate::text::has_prefix(t, remote_prefix()) && crate::text::has_prefix(
        t.skip(remote_prefix().len() as int),
        prefix,
    ) {
        Some(t.skip(remote_prefix().len() as int))
    } else {
        None
    }
}

/// The branches named in `for-each-ref`'s output, in order.
pub open spec fn remote_branches_spec(lines: Seq<Seq<char>>, prefix: Seq<char>) -> Seq<Seq<char>>
    decreases lines.len(),
{
    if lines.len() == 0 {
        Seq::empty()
    } else {
        let rest = remote_branches_spec(lines.drop_last(), prefix);
        match branch_on_line(lines.last(), prefix) {
            Some(b) => rest.push(b),
            None => rest,
        }
    }
}

/// Reads the `prefix` branches out of `for-each-ref`'s output.
pub fn parse_remote_branches(stdout: &str, prefix: &str) -> (r: Vec<String>)
    ensures
        views(r@) == remote_branches_spec(crate::text::split_lines(stdout@), prefix@),
{
    let lines = crate::text::split_lines_str(stdout);
    let ghost lv = lines@.map_values(|l: String| l@);
    let mut out: Vec<String> = Vec::new();
    let mut i: usize = 0;
    while i < lines.len()
        invariant
            i <= lines.len(),
            lv == lines@.map_values(|l: String| l@),
            views(out@) == remote_branches_spec(lv.take(i as int), prefix@),
        decreases lines.len() - i,
    {
        assert(lv.take(i + 1).drop_last() =~= lv.take(i as int));
        assert(lv.take(i + 1).last() == lines@[i as int]@);
        let t = crate::text::trim_str(lines[i].as_str());
        match crate::text::strip_prefix(t.as_str(), "origin/") {
            Some(b) => {
                if crate::text::strip_prefix(b.as_str(), prefix).is_some() {
                    let ghost before = views(out@);
                    out.push(b);
                    assert(views(out@) =~= before.push(b@));
                }
            },
            None => {},
        }
        i += 1;
    }
    assert(lv.take(lines.len() as int) =~= lv);
    out
}

/// How many seconds a fetch from origin counts as fresh for a rig path.
pub const FETCH_EVERY_SECS: i64 = 30;

/// When each rig path was last fetched from origin (Unix seconds), so a
/// fetch happens at most once per path per `FETCH_EVERY_SECS`.
pub struct FetchLog {
    entries: Vec<(String, i64)>,
}

/// The time recorded for `path`: that of its last entry.
pub open spec fn last_fetch(entries: Seq<(String, i64)>, path: Seq<char>) -> Option<i64>
    decreases entries.len(),
{
    if entries.len() == 0 {
        None
    } else if entries.last().0@ == path {
        Some(entries.last().1)
    } else {
        last_fetch(entries.drop_last(), path)
    }
}

/// A fetch is due for a path never fetched, or fetched at least
/// `FETCH_EVERY_SECS` ago.
pub open spec fn fetch_due(last: Option<i64>, now: i64) -> bool {
    match last {
        None => true,
        Some(t) => now - t >= FETCH_EVERY_SECS,
    }
}

proof fn lemma_last_fetch_set(e: Seq<(String, i64)>, i: int, entry: (String, i64), p: Seq<char>)
    requires
        0 <= i < e.len(),
        e[i].0@ == entry.0@,
        forall|j: int| i < j < e.len() ==> (#[trigger] e[j]).0@ != entry.0@,
    ensures
        last_fetch(e.update(i, entry), p) == (if p == entry.0@ {
            Some(entry.1)
        } else {
            last_fetch(e, p)
        }),
    decreases e.len(),
{
    let u = e.update(i, entry);
    if i == e.len() - 1 {
        assert(u.drop_last() =~= e.drop_last());
    } else {
        assert(u.drop_last() =~= e.drop_last().update(i, entry));
        lemma_last_fetch_set(e.drop_last(), i, entry, p);
    }
}

impl FetchLog {
    /// The recorded fetch time of each path.
    pub closed spec fn times(&self, path: Seq<char>) -> Option<i64> {
        last_fetch(self.entries@, path)
    }

    /// Nothing fetched yet.
    pub fn new() -> (r: FetchLog)
        ensures
            forall|p: Seq<char>| r.times(p) is None,
    {
        FetchLog { entries: Vec::new() }
    }

    /// Is a fetch of `path` due at `now`?
    pub fn due(&self, path: &str, now: i64) -> (r: bool)
        ensures
            r == fetch_due(self.times(path@), now),
    {
        let mut i: usize = self.entries.len();
        assert(self.entries@.take(i as int) =~= self.entries@);
        while i > 0
            invariant
                i <= self.entries@.len(),
                last_fetch(self.entries@, path@) == last_fetch(self.entries@.take(i as int), path@),
            decreases i,
        {
            let ghost pre = self.entries@.take(i as int);
            assert(pre.last() == self.entries@[i - 1]);
            assert(pre.drop_last() =~= self.entries@.take(i - 1));
            if crate::text::str_eq(self.entries[i - 1].0.as_str(), path) {
                let t = self.entries[i - 1].1;
                return (now as i128) - (t as i128) >= FETCH_EVERY_SECS as i128;
            }
            i -= 1;
        }
        true
    }

    /// Records a fetch of `path` at `now`.
    pub fn record(&mut self, path: &str, now: i64)
        ensures
            forall|p: Seq<char>|
                #[trigger] final(self).times(p) == (if p == path@ {
                    Some(now)
                } else {
                    old(self).times(p)
                }),
    {
        let ghost e = self.entries@;
        let mut i: usize = self.entries.len();
        while i > 0
            invariant
                i <= self.entries@.len(),
                self.entries@ == e,
                e == old(self).entries@,
                forall|j: int| i <= j < e.len() ==> (#[trigger] e[j]).0@ != path@,
            decreases i,
        {
            if crate::text::str_eq(self.entries[i - 1].0.as_str(), path) {
                let entry = (crate::text::owned(path), now);
                self.entries.set(i - 1, entry);
                proof {
                    assert forall|p: Seq<char>|
                        #[trigger] last_fetch(self.entries@, p) == (if p == path@ {
                            Some(now)
                        } else {
                            last_fetch(e, p)
                        }) by {
                        lemma_last_fetch_set(e, i - 1, entry, p);
                    }
                }
                return;
            }
            i -= 1;
        }
        self.entries.push((crate::text::owned(path), now));
        assert forall|p: Seq<char>|
            #[trigger] last_fetch(self.entries@, p) == (if p == path@ {
                Some(now)
            } else {
                last_fetch(e, p)
            }) by {
            assert(self.entries@.drop_last() =~= e);
        }
    }
}

} // verus!
