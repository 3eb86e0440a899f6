//! What the `gc`/`bd`/`git` wrappers run, and how a failed run is reported.
//!
//! Both CLIs print their JSON cleanly to stdout and route warnings to
//! stderr. On failure, both also emit a structured JSON error envelope on
//! stderr (`{"level":"error","code":"...","message":"..."}`); the message
//! (plus a hint for known codes) is surfaced instead of the raw blob.
use crate::text::{join, trim};
use vstd::string::StringSliceAdditionalSpecFns;
use vstd::prelude::*;

verus! {

/// A command line: the program and its arguments.
#[derive(Debug, Clone)]
pub struct Invocation {
    pub bin: String,
    pub args: Vec<String>,
}

/// The views of a list of strings.
pub open spec fn views(v: Seq<String>) -> Seq<Seq<char>> {
    v.map_values(|s: String| s@)
}

impl Invocation {
    /// The program and arguments as character sequences.
    pub open spec fn argv(self) -> Seq<Seq<char>> {
        views(self.args@)
    }
}

/// What a finished run printed.
#[derive(Debug, Clone)]
pub struct Output {
    pub stdout: String,
    pub stderr: String,
}

/// The fields of the JSON error envelope a failed `gc`/`bd` prints on
/// stderr, when stderr held one.
#[derive(Debug, Clone)]
pub struct ToolErrorEnvelope {
    pub code: Option<String>,
    pub message: Option<String>,
}

/// Pushes `s` onto an argument list.
pub fn push_arg(args: &mut Vec<String>, s: &str)
    ensures
        views(final(args)@) == views(old(args)@).push(s@),
{
    args.push(crate::text::owned(s));
    assert(views(args@) =~= views(old(args)@).push(s@));
}

/// The hint added for a city-resolution failure.
pub open spec fn city_resolve_hint() -> Seq<char> {
    "\nhint: pass --city <path>, or set `city` in .oilcop.toml (project-local) / ~/.config/oil-cop/config.toml (global)"@
}

/// "`bin arg1 arg2 ...`".
pub open spec fn invocation_text(bin: Seq<char>, args: Seq<Seq<char>>) -> Seq<char> {
    "`"@ + bin + " "@ + join(args, " "@) + "`"@
}

/// The readable error for a failed run: the envelope's message (plus a hint
/// for a city-resolution failure) when stderr held an envelope with a
/// message, else the exit status and the trimmed stderr.
pub open spec fn friendly_error_spec(
    bin: Seq<char>,
    args: Seq<Seq<char>>,
    status: Seq<char>,
    stderr: Seq<char>,
    envelope: Option<ToolErrorEnvelope>,
) -> Seq<char> {
    let inv = invocation_text(bin, args);
    let fallback = inv + " exited with "@ + status + ": "@ + trim(stderr);
    match envelope {
        Some(e) => match e.message {
            Some(m) => {
                let hint = match e.code {
                    Some(c) => if crate::text::contains_seq(c@, "city_resolve"@) {
                        city_resolve_hint()
                    } else {
                        Seq::empty()
                    },
                    None => Seq::empty(),
                };
                inv + ": "@ + m@ + hint
            },
            None => fallback,
        },
        None => fallback,
    }
}

/// Turn a failed invocation into a readable error. `envelope` is stderr
/// (trimmed) read as the JSON error envelope, when it is one; `status` is
/// the exit status as text.
pub fn friendly_error(
    bin: &str,
    args: &Vec<String>,
    status: &str,
    stderr: &str,
    envelope: Option<ToolErrorEnvelope>,
) -> (r: String)
    ensures
        r@ == friendly_error_spec(bin@, views(args@), status@, stderr@, envelope),
{
    let joined = crate::text::join_strings(args, " ");
    let inv = crate::text::concat(
        crate::text::concat(crate::text::concat(crate::text::concat("`", bin).as_str(), " ").as_str(), joined.as_str()).as_str(),
        "`",
    );
    assert(views(args@) == args@.map_values(|p: String| p@));
    match envelope {
        Some(e) => {
            match e.message {
                Some(m) => {
                    let hint = match e.code {
                        Some(c) => if crate::text::contains_str(c.as_str(), "city_resolve") {
                            crate::text::owned(
                                "\nhint: pass --city <path>, or set `city` in .oilcop.toml (project-local) / ~/.config/oil-cop/config.toml (global)",
                            )
                        } else {
                            String::new()
                        },
                        None => String::new(),
                    };
                    let head = crate::text::concat(inv.as_str(), ": ");
                    let body = crate::text::concat(head.as_str(), m.as_str());
                    return crate::text::concat(body.as_str(), hint.as_str());
                },
                None => {},
            }
        },
        None => {},
    }
    let trimmed = crate::text::trim_str(stderr);
    let a = crate::text::concat(inv.as_str(), " exited with ");
    let b = crate::text::concat(a.as_str(), status);
    let c = crate::text::concat(b.as_str(), ": ");
    crate::text::concat(c.as_str(), trimmed.as_str())
}

/// The first `max` bytes of `s` (all of it when it is no longer).
pub fn truncate(s: &str, max: usize) -> (r: &str)
    requires
        s.spec_bytes().len() <= usize::MAX,
        s.spec_bytes().len() > max ==> vstd::utf8::is_char_boundary(s.spec_bytes(), max as int),
    ensures
        s.spec_bytes().len() <= max ==> r@ == s@,
        s.spec_bytes().len() > max ==> r.spec_bytes() == s.spec_bytes().subrange(0, max as int),
{
    if s.len() <= max {
        s
    } else {
        let (head, _) = s.split_at(max);
        head
    }
}

} // verus!
