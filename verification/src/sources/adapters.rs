//! Adapter traits: one per underlying tool (gc, bd, git), so a different
//! backend -- a pack-specific data source, an in-memory one for tests,
//! whatever -- can be swapped in without touching the join logic or the
//! renderers. What an adapter answers comes from outside the library: each
//! request carries a relation naming the answers an implementation may
//! give, and the functions that call through an adapter state what they
//! hand to each request and what they make of whichever answer came.
use super::{bd, gc};
use vstd::prelude::*;

verus! {

/// The view of an optional text argument.
pub open spec fn arg_view(a: Option<&str>) -> Option<Seq<char>> {
    match a {
        Some(s) => Some(s@),
        None => None,
    }
}

/// `gc`'s JSON answers. Each request has a relation saying which answers an
/// adapter may give to it; an adapter that states none admits every
/// answer, and the functions that call through an adapter say what they do
/// with whichever answer came.
pub trait GcAdapter {
    /// May `r` answer `gc status` for `city`?
    open spec fn status_answer(&self, city: Option<Seq<char>>, r: Result<gc::StatusResult, String>) -> bool {
        true
    }

    /// May `r` answer `gc rig list` for `city`?
    open spec fn rig_list_answer(&self, city: Option<Seq<char>>, r: Result<gc::RigListResult, String>) -> bool {
        true
    }

    /// May `r` answer `gc rig status` for rig `rig` of `city`?
    open spec fn rig_status_answer(
        &self,
        city: Option<Seq<char>>,
        rig: Seq<char>,
        r: Result<gc::RigStatusResult, String>,
    ) -> bool {
        true
    }

    /// May `r` answer `gc session list` for `city`?
    open spec fn session_list_answer(
        &self,
        city: Option<Seq<char>>,
        r: Result<gc::SessionListResult, String>,
    ) -> bool {
        true
    }

    /// May `r` answer a peek at the last `lines` lines of session
    /// `session_id` in `city`?
    open spec fn session_peek_answer(
        &self,
        city: Option<Seq<char>>,
        session_id: Seq<char>,
        lines: usize,
        r: Result<gc::PeekResult, String>,
    ) -> bool {
        true
    }

    fn status(&self, city: Option<&str>) -> (r: Result<gc::StatusResult, String>)
        ensures
            self.status_answer(arg_view(city), r),
    ;

    fn rig_list(&self, city: Option<&str>) -> (r: Result<gc::RigListResult, String>)
        ensures
            self.rig_list_answer(arg_view(city), r),
    ;

    fn rig_status(&self, city: Option<&str>, rig: &str) -> (r: Result<gc::RigStatusResult, String>)
        ensures
            self.rig_status_answer(arg_view(city), rig@, r),
    ;

    fn session_list(&self, city: Option<&str>) -> (r: Result<gc::SessionListResult, String>)
        ensures
            self.session_list_answer(arg_view(city), r),
    ;

    fn session_peek(&self, city: Option<&str>, session_id: &str, lines: usize) -> (r: Result<
        gc::PeekResult,
        String,
    >)
        ensures
            self.session_peek_answer(arg_view(city), session_id@, lines, r),
    ;
}

/// `bd`'s JSON answers, with a relation per request as for `GcAdapter`.
pub trait BdAdapter {
    /// May `r` answer `bd status` in `dir`?
    open spec fn status_answer(&self, dir: Seq<char>, r: Result<bd::StatusResult, String>) -> bool {
        true
    }

    /// May `r` answer `bd list` in `dir` for the statuses `status_filter`?
    open spec fn list_answer(
        &self,
        dir: Seq<char>,
        status_filter: Seq<char>,
        r: Result<Vec<bd::BeadRaw>, String>,
    ) -> bool {
        true
    }

    fn status(&self, dir: &str) -> (r: Result<bd::StatusResult, String>)
        ensures
            self.status_answer(dir@, r),
    ;

    fn list(&self, dir: &str, status_filter: &str) -> (r: Result<Vec<bd::BeadRaw>, String>)
        ensures
            self.list_answer(dir@, status_filter@, r),
    ;
}

/// What git knows of a rig's origin, with a relation per question as for
/// `GcAdapter`.
pub trait GitAdapter {
    /// May `r` answer whether `branch` has landed on `target_branch` in
    /// the repository at `repo_dir`?
    open spec fn is_merged_answer(
        &self,
        repo_dir: Seq<char>,
        branch: Seq<char>,
        target_branch: Seq<char>,
        r: bool,
    ) -> bool {
        true
    }

    /// May `r` answer which branch is origin's default at `repo_dir`?
    open spec fn default_branch_answer(&self, repo_dir: Seq<char>, r: Option<String>) -> bool {
        true
    }

    /// May `r` answer which origin branches at `repo_dir` start with
    /// `prefix`?
    open spec fn remote_branches_answer(&self, repo_dir: Seq<char>, prefix: Seq<char>, r: Seq<String>) -> bool {
        true
    }

    /// Has `branch` already landed (merged into) `target_branch`, in the
    /// repository at `repo_dir`?
    fn is_merged(&self, repo_dir: &str, branch: &str, target_branch: &str) -> (r: bool)
        ensures
            self.is_merged_answer(repo_dir@, branch@, target_branch@, r),
    ;

    /// Origin's default branch for the repository at `repo_dir`, if it can
    /// be determined.
    fn default_branch(&self, repo_dir: &str) -> (r: Option<String>)
        ensures
            self.default_branch_answer(repo_dir@, r),
    ;

    /// Every branch on origin whose name starts with `prefix`.
    fn remote_branches(&self, repo_dir: &str, prefix: &str) -> (r: Vec<String>)
        ensures
            self.remote_branches_answer(repo_dir@, prefix@, r@),
    ;
}

/// The set of adapters the commands depend on. Construct once per run and
/// pass it down -- nothing downstream runs `gc`/`bd`/`git` directly.
pub struct Adapters<G: GcAdapter, B: BdAdapter, T: GitAdapter> {
    pub gc: G,
    pub bd: B,
    pub git: T,
}

/// `Path::is_dir`: whether `path` names an existing directory right now.
/// Nothing is stated of the answer: it depends on the file system.
#[verifier::external_body]
pub(crate) fn path_is_dir(path: &str) -> bool {
    std::path::Path::new(path).is_dir()
}

/// The error for a rig that is neither a directory nor registered.
pub open spec fn no_such_rig_message(rig: Seq<char>) -> Seq<char> {
    "no rig named '"@ + rig + "' registered with this city, and it isn't a directory either"@
}

/// Index of the first rig named `name`.
pub open spec fn first_named(rigs: Seq<gc::RigRaw>, name: Seq<char>) -> Option<int>
    decreases rigs.len(),
{
    if rigs.len() == 0 {
        None
    } else if rigs[0].name@ == name {
        Some(0)
    } else {
        match first_named(rigs.drop_first(), name) {
            Some(i) => Some(i + 1),
            None => None,
        }
    }
}

/// How a `--rig` argument resolves, given whether it names a directory and
/// what the rig list call answered (ignored for a directory).
pub open spec fn resolve_spec(
    rig: Seq<char>,
    is_dir: bool,
    listed: Result<gc::RigListResult, String>,
    r: Result<gc::RigRaw, String>,
) -> bool {
    if is_dir {
        r matches Ok(x) && x.name@ == rig && x.path@ == rig && x.prefix is None && !x.suspended
            && x.running is None
    } else {
        match listed {
            Err(e) => r == Err::<gc::RigRaw, String>(e),
            Ok(l) => match first_named(l.rigs@, rig) {
                Some(i) => r == Ok::<gc::RigRaw, String>(l.rigs@[i]),
                None => r matches Err(m) && m@ == no_such_rig_message(rig),
            },
        }
    }
}

/// Resolves `rig` from whether it is a directory and the rig list answer:
/// a directory stands for itself; otherwise the first registered rig of
/// that name, or an error naming it.
pub fn resolve_from(rig: &str, is_dir: bool, listed: Result<gc::RigListResult, String>) -> (r:
    Result<gc::RigRaw, String>)
    ensures
        resolve_spec(rig@, is_dir, listed, r),
        r matches Ok(x) ==> x.name@ == rig@,
{
    if is_dir {
        return Ok(
            gc::RigRaw {
                name: crate::text::owned(rig),
                path: crate::text::owned(rig),
                prefix: None,
                suspended: false,
                running: None,
            },
        );
    }
    let list = match listed {
        Ok(l) => l,
        Err(e) => return Err(e),
    };
    let mut rigs = list.rigs;
    let ghost all = rigs@;
    let mut i: usize = 0;
    assert(all.skip(0) =~= all);
    while i < rigs.len()
        invariant
            rigs@ == all,
            !is_dir,
            listed matches Ok(l) && l.rigs@ == all,
            i <= all.len(),
            first_named(all, rig@) == (match first_named(all.skip(i as int), rig@) {
                Some(j) => Some(j + i),
                None => None::<int>,
            }),
        decreases all.len() - i,
    {
        assert(all.skip(i as int).drop_first() =~= all.skip(i + 1));
        assert(all.skip(i as int)[0] == all[i as int]);
        if crate::text::str_eq(rigs[i].name.as_str(), rig) {
            assert(all.skip(i as int)[0].name@ == rig@);
            assert(first_named(all.skip(i as int), rig@) == Some(0int));
            assert(first_named(all, rig@) == Some(i as int));
            let found = rigs.remove(i);
            assert(found == all[i as int]);
            assert(listed matches Ok(l) && l.rigs@ == all);
            return Ok(found);
        }
        i += 1;
    }
    assert(all.skip(all.len() as int) =~= Seq::<gc::RigRaw>::empty());
    let mut msg = crate::text::to_chars("no rig named '");
    crate::text::extend_chars(&mut msg, &crate::text::to_chars(rig));
    crate::text::extend_chars(
        &mut msg,
        &crate::text::to_chars("' registered with this city, and it isn't a directory either"),
    );
    Err(crate::text::from_chars(&msg))
}

impl<G: GcAdapter, B: BdAdapter, T: GitAdapter> Adapters<G, B, T> {
    /// Resolve a `--rig` argument the same way `gc` itself does: a
    /// filesystem path if one exists, otherwise a registered rig name
    /// looked up through the rig list.
    pub fn resolve_rig(&self, city: Option<&str>, rig: &str) -> (r: Result<gc::RigRaw, String>)
        ensures
            super::resolve_outcome(self.gc, arg_view(city), rig@, r),
            r matches Ok(x) ==> x.name@ == rig@,
    {
        super::resolve_rig(&self.gc, city, rig)
    }
}

} // verus!
