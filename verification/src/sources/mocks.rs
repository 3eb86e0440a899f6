//! In-memory implementations of the adapter traits, answering from fixed
//! tables -- the test-support backend that exercises the join logic without
//! running `gc`/`bd`/`git`. Every table is looked up by exact key (the
//! first matching entry answers); an absent key is an error, or "not
//! merged"/nothing for git.
use super::adapters::{BdAdapter, GcAdapter, GitAdapter};
use super::{bd, gc};
use crate::assemble::{clone_opt, clone_strings};
use vstd::prelude::*;

verus! {

pub struct MockGc {
    pub status: Option<gc::StatusResult>,
    pub rig_list: Option<gc::RigListResult>,
    /// Keyed by rig name.
    pub rig_status: Vec<(String, gc::RigStatusResult)>,
    pub session_list: Option<gc::SessionListResult>,
    /// Keyed by session id.
    pub session_peek: Vec<(String, gc::PeekResult)>,
}

impl Default for MockGc {
    fn default() -> (r: Self)
        ensures
            r.status is None,
            r.rig_list is None,
            r.rig_status@.len() == 0,
            r.session_list is None,
            r.session_peek@.len() == 0,
    {
        MockGc {
            status: None,
            rig_list: None,
            rig_status: Vec::new(),
            session_list: None,
            session_peek: Vec::new(),
        }
    }
}

/// A copy of each item of `v`, by `copy`.
fn copy_each<T, F: Fn(&T) -> T>(v: &Vec<T>, copy: F) -> (r: Vec<T>)
    requires
        forall|x: &T| #[trigger] copy.requires((x,)),
        forall|x: &T, y: T| copy.ensures((x,), y) ==> y == *x,
    ensures
        r@ == v@,
{
    let mut out: Vec<T> = Vec::new();
    let mut i: usize = 0;
    while i < v.len()
        invariant
            i <= v.len(),
            out@ == v@.take(i as int),
            forall|x: &T| #[trigger] copy.requires((x,)),
            forall|x: &T, y: T| copy.ensures((x,), y) ==> y == *x,
        decreases v.len() - i,
    {
        let c = copy(&v[i]);
        out.push(c);
        assert(v@.take(i + 1) =~= v@.take(i as int).push(v@[i as int]));
        i += 1;
    }
    assert(v@.take(v.len() as int) =~= v@);
    out
}

fn copy_dep(d: &bd::DependencyRaw) -> (c: bd::DependencyRaw)
    ensures
        c == *d,
{
    bd::DependencyRaw { depends_on_id: d.depends_on_id.clone(), dep_type: d.dep_type.clone() }
}

fn copy_pair(p: &(String, String)) -> (c: (String, String))
    ensures
        c == *p,
{
    (p.0.clone(), p.1.clone())
}

/// `a` holds what `b` holds (its lists by their contents).
pub open spec fn bead_same(a: bd::BeadRaw, b: bd::BeadRaw) -> bool {
    &&& a.id == b.id
    &&& a.title == b.title
    &&& a.status == b.status
    &&& a.priority == b.priority
    &&& a.assignee == b.assignee
    &&& a.updated_at == b.updated_at
    &&& a.started_at == b.started_at
    &&& a.parent == b.parent
    &&& a.dependencies@ == b.dependencies@
    &&& a.metadata@ == b.metadata@
}

/// The beads of `a` hold, one by one, what those of `b` hold.
pub open spec fn beads_same(a: Seq<bd::BeadRaw>, b: Seq<bd::BeadRaw>) -> bool {
    &&& a.len() == b.len()
    &&& forall|i: int| 0 <= i < a.len() ==> bead_same(#[trigger] a[i], b[i])
}

/// `a` holds what `b` holds (its lists by their contents).
pub open spec fn status_same(a: gc::StatusResult, b: gc::StatusResult) -> bool {
    &&& a.city_name == b.city_name
    &&& a.city_path == b.city_path
    &&& a.controller == b.controller
    &&& a.running == b.running
    &&& a.suspended == b.suspended
    &&& a.health.usable == b.health.usable
    &&& a.health.degraded == b.health.degraded
    &&& a.health.signals@ == b.health.signals@
    &&& a.agents@ == b.agents@
    &&& a.rigs@ == b.rigs@
    &&& a.summary == b.summary
    &&& a.partial == b.partial
    &&& a.partial_errors@ == b.partial_errors@
}

fn copy_bead(b: &bd::BeadRaw) -> (c: bd::BeadRaw)
    ensures
        bead_same(c, *b),
{
    bd::BeadRaw {
        id: b.id.clone(),
        title: b.title.clone(),
        status: b.status.clone(),
        priority: b.priority,
        assignee: clone_opt(&b.assignee),
        updated_at: clone_opt(&b.updated_at),
        started_at: clone_opt(&b.started_at),
        parent: clone_opt(&b.parent),
        dependencies: copy_each(&b.dependencies, copy_dep),
        metadata: copy_each(&b.metadata, copy_pair),
    }
}

fn copy_rig(r: &gc::RigRaw) -> (c: gc::RigRaw)
    ensures
        c == *r,
{
    gc::RigRaw {
        name: r.name.clone(),
        path: r.path.clone(),
        prefix: clone_opt(&r.prefix),
        suspended: r.suspended,
        running: r.running,
    }
}

fn copy_agent(a: &gc::AgentRaw) -> (c: gc::AgentRaw)
    ensures
        c == *a,
{
    gc::AgentRaw {
        qualified_name: a.qualified_name.clone(),
        scope: a.scope.clone(),
        running: a.running,
        suspended: a.suspended,
    }
}

fn copy_rig_agent(a: &gc::RigAgentRaw) -> (c: gc::RigAgentRaw)
    ensures
        c == *a,
{
    gc::RigAgentRaw {
        name: a.name.clone(),
        qualified_name: a.qualified_name.clone(),
        runtime_session_name: clone_opt(&a.runtime_session_name),
        session_id: clone_opt(&a.session_id),
        running: a.running,
        suspended: a.suspended,
        draining: a.draining,
        status: clone_opt(&a.status),
    }
}

fn copy_beads(v: &Vec<bd::BeadRaw>) -> (r: Vec<bd::BeadRaw>)
    ensures
        beads_same(r@, v@),
{
    let mut out: Vec<bd::BeadRaw> = Vec::new();
    let mut i: usize = 0;
    while i < v.len()
        invariant
            i <= v.len(),
            out@.len() == i,
            forall|k: int| 0 <= k < i ==> bead_same(#[trigger] out@[k], v@[k]),
        decreases v.len() - i,
    {
        out.push(copy_bead(&v[i]));
        i += 1;
    }
    out
}

fn copy_session(s: &gc::SessionRaw) -> (c: gc::SessionRaw)
    ensures
        c == *s,
{
    gc::SessionRaw {
        id: s.id.clone(),
        name: s.name.clone(),
        rig: clone_opt(&s.rig),
        state: s.state.clone(),
        last_active: clone_opt(&s.last_active),
        attached: s.attached,
        closed: s.closed,
    }
}

fn copy_status(s: &gc::StatusResult) -> (c: gc::StatusResult)
    ensures
        status_same(c, *s),
{
    gc::StatusResult {
        city_name: s.city_name.clone(),
        city_path: s.city_path.clone(),
        controller: gc::Controller {
            running: s.controller.running,
            pid: s.controller.pid,
            mode: clone_opt(&s.controller.mode),
            status: clone_opt(&s.controller.status),
        },
        running: s.running,
        suspended: s.suspended,
        health: gc::HealthBlock {
            usable: s.health.usable,
            degraded: s.health.degraded,
            signals: clone_strings(&s.health.signals),
        },
        agents: copy_each(&s.agents, copy_agent),
        rigs: copy_each(&s.rigs, copy_rig),
        summary: s.summary,
        partial: s.partial,
        partial_errors: clone_strings(&s.partial_errors),
    }
}

/// Index of the first entry keyed `key`.
fn find_key<V>(entries: &Vec<(String, V)>, key: &str) -> (r: Option<usize>)
    ensures
        r matches Some(i) ==> i < entries@.len() && entries@[i as int].0@ == key@ && forall|j: int|
            0 <= j < i ==> entries@[j].0@ != key@,
        r is None ==> forall|j: int| 0 <= j < entries@.len() ==> entries@[j].0@ != key@,
{
    let mut i: usize = 0;
    while i < entries.len()
        invariant
            i <= entries.len(),
            forall|j: int| 0 <= j < i ==> entries@[j].0@ != key@,
        decreases entries.len() - i,
    {
        if crate::text::str_eq(entries[i].0.as_str(), key) {
            return Some(i);
        }
        i += 1;
    }
    None
}

/// Entry `i` is the first keyed `key`.
pub open spec fn first_key<V>(entries: Seq<(String, V)>, key: Seq<char>, i: int) -> bool {
    &&& 0 <= i < entries.len()
    &&& entries[i].0@ == key
    &&& forall|j: int| 0 <= j < i ==> (#[trigger] entries[j]).0@ != key
}

/// The error for a key no table entry has.
pub open spec fn not_configured_message(what: Seq<char>, key: Seq<char>) -> Seq<char> {
    "mock: no "@ + what + " configured for '"@ + key + "'"@
}

/// Is some entry keyed `key`?
pub open spec fn has_key<V>(entries: Seq<(String, V)>, key: Seq<char>) -> bool {
    exists|i: int| 0 <= i < entries.len() && (#[trigger] entries[i]).0@ == key
}

fn not_configured(what: &str, key: &str) -> (r: String)
    ensures
        r@ == not_configured_message(what@, key@),
{
    let mut v = crate::text::to_chars("mock: no ");
    crate::text::extend_chars(&mut v, &crate::text::to_chars(what));
    crate::text::extend_chars(&mut v, &crate::text::to_chars(" configured for '"));
    crate::text::extend_chars(&mut v, &crate::text::to_chars(key));
    crate::text::extend_chars(&mut v, &crate::text::to_chars("'"));
    crate::text::from_chars(&v)
}

impl GcAdapter for MockGc {
    open spec fn status_answer(&self, city: Option<Seq<char>>, r: Result<gc::StatusResult, String>) -> bool {
        &&& r is Ok <==> self.status is Some
        &&& r matches Ok(st) ==> self.status matches Some(s) && status_same(st, s)
        &&& r matches Err(e) ==> e@ == "mock: no status configured"@
    }

    open spec fn rig_list_answer(&self, city: Option<Seq<char>>, r: Result<gc::RigListResult, String>) -> bool {
        &&& r is Ok <==> self.rig_list is Some
        &&& r matches Ok(l) ==> self.rig_list matches Some(x) && l.rigs@ == x.rigs@
        &&& r matches Err(e) ==> e@ == "mock: no rig_list configured"@
    }

    open spec fn rig_status_answer(
        &self,
        city: Option<Seq<char>>,
        rig: Seq<char>,
        r: Result<gc::RigStatusResult, String>,
    ) -> bool {
        &&& r is Ok <==> has_key(self.rig_status@, rig)
        &&& r matches Ok(st) ==> exists|i: int|
            #[trigger] first_key(self.rig_status@, rig, i) && st.rig == self.rig_status@[i].1.rig
                && st.agents@ == self.rig_status@[i].1.agents@
        &&& r matches Err(e) ==> e@ == not_configured_message("rig_status"@, rig)
    }

    open spec fn session_list_answer(
        &self,
        city: Option<Seq<char>>,
        r: Result<gc::SessionListResult, String>,
    ) -> bool {
        &&& r is Ok <==> self.session_list is Some
        &&& r matches Ok(l) ==> self.session_list matches Some(x) && l.sessions@ == x.sessions@
        &&& r matches Err(e) ==> e@ == "mock: no session_list configured"@
    }

    open spec fn session_peek_answer(
        &self,
        city: Option<Seq<char>>,
        session_id: Seq<char>,
        lines: usize,
        r: Result<gc::PeekResult, String>,
    ) -> bool {
        &&& r is Ok <==> has_key(self.session_peek@, session_id)
        &&& r matches Ok(p) ==> exists|i: int|
            #[trigger] first_key(self.session_peek@, session_id, i) && p == self.session_peek@[i].1
        &&& r matches Err(e) ==> e@ == not_configured_message("session_peek"@, session_id)
    }

    fn status(&self, _city: Option<&str>) -> (r: Result<gc::StatusResult, String>)
    {
        match &self.status {
            Some(s) => Ok(copy_status(s)),
            None => Err(crate::text::owned("mock: no status configured")),
        }
    }

    fn rig_list(&self, _city: Option<&str>) -> (r: Result<gc::RigListResult, String>)
    {
        match &self.rig_list {
            Some(s) => Ok(gc::RigListResult { rigs: copy_each(&s.rigs, copy_rig) }),
            None => Err(crate::text::owned("mock: no rig_list configured")),
        }
    }

    fn rig_status(&self, _city: Option<&str>, rig: &str) -> (r: Result<gc::RigStatusResult, String>)
    {
        match find_key(&self.rig_status, rig) {
            Some(i) => {
                let e = &self.rig_status[i].1;
                let st = gc::RigStatusResult { rig: copy_rig(&e.rig), agents: copy_each(&e.agents, copy_rig_agent) };
                assert(first_key(self.rig_status@, rig@, i as int));
                Ok(st)
            },
            None => Err(not_configured("rig_status", rig)),
        }
    }

    fn session_list(&self, _city: Option<&str>) -> (r: Result<gc::SessionListResult, String>)
    {
        match &self.session_list {
            Some(s) => Ok(gc::SessionListResult { sessions: copy_each(&s.sessions, copy_session) }),
            None => Err(crate::text::owned("mock: no session_list configured")),
        }
    }

    fn session_peek(&self, _city: Option<&str>, session_id: &str, _lines: usize) -> (r: Result<
        gc::PeekResult,
        String,
    >)
    {
        match find_key(&self.session_peek, session_id) {
            Some(i) => {
                let p = gc::PeekResult { output: self.session_peek[i].1.output.clone() };
                assert(first_key(self.session_peek@, session_id@, i as int));
                Ok(p)
            },
            None => Err(not_configured("session_peek", session_id)),
        }
    }
}

/// Entry `i` is the first keyed `(dir, filter)`.
pub open spec fn first_list_key(
    entries: Seq<((String, String), Vec<bd::BeadRaw>)>,
    dir: Seq<char>,
    filter: Seq<char>,
    i: int,
) -> bool {
    &&& 0 <= i < entries.len()
    &&& entries[i].0.0@ == dir && entries[i].0.1@ == filter
    &&& forall|j: int| 0 <= j < i ==> !((#[trigger] entries[j]).0.0@ == dir && entries[j].0.1@ == filter)
}

pub struct MockBd {
    /// Keyed by rig dir.
    pub status: Vec<(String, bd::StatusResult)>,
    /// Keyed by (rig dir, status filter) exactly as requested.
    pub list: Vec<((String, String), Vec<bd::BeadRaw>)>,
}

impl Default for MockBd {
    fn default() -> (r: Self)
        ensures
            r.status@.len() == 0,
            r.list@.len() == 0,
    {
        MockBd { status: Vec::new(), list: Vec::new() }
    }
}

impl BdAdapter for MockBd {
    open spec fn status_answer(&self, dir: Seq<char>, r: Result<bd::StatusResult, String>) -> bool {
        &&& r is Ok <==> has_key(self.status@, dir)
        &&& r matches Ok(st) ==> exists|i: int|
            0 <= i < self.status@.len() && (#[trigger] self.status@[i]).0@ == dir && self.status@[i].1 == st
        &&& r matches Err(e) ==> e@ == not_configured_message("bd status"@, dir)
    }

    open spec fn list_answer(
        &self,
        dir: Seq<char>,
        status_filter: Seq<char>,
        r: Result<Vec<bd::BeadRaw>, String>,
    ) -> bool {
        &&& r is Ok <==> exists|i: int|
            0 <= i < self.list@.len() && (#[trigger] self.list@[i]).0.0@ == dir && self.list@[i].0.1@
                == status_filter
        &&& r matches Ok(beads) ==> exists|i: int|
            #[trigger] first_list_key(self.list@, dir, status_filter, i) && beads_same(
                beads@,
                self.list@[i].1@,
            )
        &&& r matches Err(e) ==> e@ == "mock: no bd list configured for '"@ + dir + "' status '"@
            + status_filter + "'"@
    }

    fn status(&self, dir: &str) -> (r: Result<bd::StatusResult, String>)
    {
        match find_key(&self.status, dir) {
            Some(i) => Ok(self.status[i].1),
            None => Err(not_configured("bd status", dir)),
        }
    }

    fn list(&self, dir: &str, status_filter: &str) -> (r: Result<Vec<bd::BeadRaw>, String>)
    {
        let mut i: usize = 0;
        while i < self.list.len()
            invariant
                i <= self.list.len(),
                forall|j: int|
                    0 <= j < i ==> !((#[trigger] self.list@[j]).0.0@ == dir@ && self.list@[j].0.1@
                        == status_filter@),
            decreases self.list.len() - i,
        {
            let key = &self.list[i].0;
            if crate::text::str_eq(key.0.as_str(), dir) && crate::text::str_eq(
                key.1.as_str(),
                status_filter,
            ) {
                assert(first_list_key(self.list@, dir@, status_filter@, i as int));
                return Ok(copy_beads(&self.list[i].1));
            }
            i += 1;
        }
        let mut v = crate::text::to_chars("mock: no bd list configured for '");
        crate::text::extend_chars(&mut v, &crate::text::to_chars(dir));
        crate::text::extend_chars(&mut v, &crate::text::to_chars("' status '"));
        crate::text::extend_chars(&mut v, &crate::text::to_chars(status_filter));
        crate::text::extend_chars(&mut v, &crate::text::to_chars("'"));
        Err(crate::text::from_chars(&v))
    }
}

pub struct MockGit {
    /// Keyed by (repo dir, branch, target branch) -- any combination not
    /// listed is "not merged", same as the real lenient check.
    pub merged: Vec<((String, String, String), bool)>,
    /// Keyed by repo dir; an unlisted dir has no determinable default.
    pub default_branch: Vec<(String, String)>,
    /// Keyed by (repo dir, prefix); an unlisted pair has no branches.
    pub remote_branches: Vec<((String, String), Vec<String>)>,
}

impl Default for MockGit {
    fn default() -> (r: Self)
        ensures
            r.merged@.len() == 0,
            r.default_branch@.len() == 0,
            r.remote_branches@.len() == 0,
    {
        MockGit { merged: Vec::new(), default_branch: Vec::new(), remote_branches: Vec::new() }
    }
}

/// Does the key name `repo`, `branch` and `target`?
pub open spec fn merge_key_is(k: (String, String, String), repo: Seq<char>, branch: Seq<char>, target: Seq<char>) -> bool {
    k.0@ == repo && k.1@ == branch && k.2@ == target
}

/// The answer of the first entry keyed `(repo, branch, target)`, or "not
/// merged" when none is.
pub open spec fn merged_answer(
    entries: Seq<((String, String, String), bool)>,
    repo: Seq<char>,
    branch: Seq<char>,
    target: Seq<char>,
) -> bool
    decreases entries.len(),
{
    if entries.len() == 0 {
        false
    } else if merge_key_is(entries[0].0, repo, branch, target) {
        entries[0].1
    } else {
        merged_answer(entries.drop_first(), repo, branch, target)
    }
}

/// The branches of the first entry keyed `(repo, prefix)`, or none when no
/// entry is.
pub open spec fn branches_answer(
    entries: Seq<((String, String), Vec<String>)>,
    repo: Seq<char>,
    prefix: Seq<char>,
) -> Seq<String>
    decreases entries.len(),
{
    if entries.len() == 0 {
        Seq::empty()
    } else if entries[0].0.0@ == repo && entries[0].0.1@ == prefix {
        entries[0].1@
    } else {
        branches_answer(entries.drop_first(), repo, prefix)
    }
}

impl GitAdapter for MockGit {
    open spec fn is_merged_answer(
        &self,
        repo_dir: Seq<char>,
        branch: Seq<char>,
        target_branch: Seq<char>,
        r: bool,
    ) -> bool {
        r == merged_answer(self.merged@, repo_dir, branch, target_branch)
    }

    open spec fn default_branch_answer(&self, repo_dir: Seq<char>, r: Option<String>) -> bool {
        &&& r is Some <==> has_key(self.default_branch@, repo_dir)
        &&& r matches Some(b) ==> exists|i: int|
            #[trigger] first_key(self.default_branch@, repo_dir, i) && self.default_branch@[i].1@ == b@
    }

    open spec fn remote_branches_answer(&self, repo_dir: Seq<char>, prefix: Seq<char>, r: Seq<String>) -> bool {
        r == branches_answer(self.remote_branches@, repo_dir, prefix)
    }

    fn is_merged(&self, repo_dir: &str, branch: &str, target_branch: &str) -> (r: bool)
    {
        let ghost all = self.merged@;
        assert(all.skip(0) =~= all);
        let mut i: usize = 0;
        while i < self.merged.len()
            invariant
                i <= self.merged.len(),
                all == self.merged@,
                merged_answer(all, repo_dir@, branch@, target_branch@) == merged_answer(
                    all.skip(i as int),
                    repo_dir@,
                    branch@,
                    target_branch@,
                ),
            decreases self.merged.len() - i,
        {
            assert(all.skip(i as int).drop_first() =~= all.skip(i + 1));
            assert(all.skip(i as int)[0] == all[i as int]);
            let key = &self.merged[i].0;
            if crate::text::str_eq(key.0.as_str(), repo_dir) && crate::text::str_eq(
                key.1.as_str(),
                branch,
            ) && crate::text::str_eq(key.2.as_str(), target_branch) {
                return self.merged[i].1;
            }
            i += 1;
        }
        assert(all.skip(i as int) =~= Seq::<((String, String, String), bool)>::empty());
        false
    }

    fn default_branch(&self, repo_dir: &str) -> (r: Option<String>)
    {
        match find_key(&self.default_branch, repo_dir) {
            Some(i) => {
                assert(first_key(self.default_branch@, repo_dir@, i as int));
                Some(self.default_branch[i].1.clone())
            },
            None => None,
        }
    }

    fn remote_branches(&self, repo_dir: &str, prefix: &str) -> (r: Vec<String>)
    {
        let ghost all = self.remote_branches@;
        assert(all.skip(0) =~= all);
        let mut i: usize = 0;
        while i < self.remote_branches.len()
            invariant
                i <= self.remote_branches.len(),
                all == self.remote_branches@,
                branches_answer(all, repo_dir@, prefix@) == branches_answer(all.skip(i as int), repo_dir@, prefix@),
            decreases self.remote_branches.len() - i,
        {
            assert(all.skip(i as int).drop_first() =~= all.skip(i + 1));
            assert(all.skip(i as int)[0] == all[i as int]);
            let key = &self.remote_branches[i].0;
            if crate::text::str_eq(key.0.as_str(), repo_dir) && crate::text::str_eq(
                key.1.as_str(),
                prefix,
            ) {
                return crate::assemble::clone_strings(&self.remote_branches[i].1);
            }
            i += 1;
        }
        assert(all.skip(i as int) =~= Seq::<((String, String), Vec<String>)>::empty());
        Vec::new()
    }
}

} // verus!
