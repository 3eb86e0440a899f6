//! The data sources: the `gc`, `bd` and `git` command lines (what to run,
//! and the shapes of what they answer), the adapter traits the rest of the
//! library reads them through, and in-memory adapters for tests.
pub mod adapters;
pub mod bd;
pub mod gc;
pub mod git;
pub mod mocks;
pub mod proc;

use vstd::prelude::*;

verus! {

/// `r` is how `rig` resolves for some answer `is_dir` to whether it names
/// a directory and, when it does not, some answer `listed` that `gc` may
/// give to the rig list request for `city`.
pub open spec fn resolve_outcome<G: adapters::GcAdapter>(
    gc: G,
    city: Option<Seq<char>>,
    rig: Seq<char>,
    r: Result<gc::RigRaw, String>,
) -> bool {
    exists|is_dir: bool, listed: Result<gc::RigListResult, String>|
        (is_dir || gc.rig_list_answer(city, listed)) && #[trigger] adapters::resolve_spec(
            rig,
            is_dir,
            listed,
            r,
        )
}

/// Resolve a `--rig` argument the same way `gc` itself does: a filesystem
/// path if one exists, otherwise a registered rig name looked up through
/// `gc`'s rig list (asked only when the argument is no directory).
pub fn resolve_rig<G: adapters::GcAdapter>(gc: &G, city: Option<&str>, rig: &str) -> (r: Result<
    gc::RigRaw,
    String,
>)
    ensures
        resolve_outcome(*gc, adapters::arg_view(city), rig@, r),
        r matches Ok(x) ==> x.name@ == rig@,
{
    let is_dir = adapters::path_is_dir(rig);
    if is_dir {
        return adapters::resolve_from(rig, true, Err(crate::text::owned("")));
    }
    let listed = gc.rig_list(city);
    let ghost answer = listed;
    let r = adapters::resolve_from(rig, false, listed);
    assert(adapters::resolve_spec(rig@, false, answer, r));
    r
}

} // verus!
