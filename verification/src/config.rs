//! Optional file-based defaults, so `--city <long-path>` doesn't need
//! retyping on every invocation. Precedence: CLI flag > project-local
//! `.oilcop.toml` > global `~/.config/oil-cop/config.toml` > built-in
//! default. A missing file at either location is not an error -- config is
//! purely additive. Finding and reading the files is the caller's part; this
//! module decides how what was read combines.
use vstd::prelude::*;

verus! {

#[derive(Debug, Clone)]
pub struct FileConfig {
    pub city: Option<String>,
    pub stale_after: Option<String>,
    pub default_rig: Option<String>,
}

impl Default for FileConfig {
    fn default() -> (r: Self)
        ensures
            r.city is None,
            r.stale_after is None,
            r.default_rig is None,
    {
        FileConfig { city: None, stale_after: None, default_rig: None }
    }
}

/// The more specific value wins whenever it is set.
pub open spec fn prefer<T>(base: Option<T>, more_specific: Option<T>) -> Option<T> {
    if more_specific is Some {
        more_specific
    } else {
        base
    }
}

/// `base` overlaid with every field `more_specific` sets.
pub open spec fn merge_spec(base: FileConfig, more_specific: FileConfig) -> FileConfig {
    FileConfig {
        city: prefer(base.city, more_specific.city),
        stale_after: prefer(base.stale_after, more_specific.stale_after),
        default_rig: prefer(base.default_rig, more_specific.default_rig),
    }
}

/// The configuration with no file at all.
pub open spec fn empty_config() -> FileConfig {
    FileConfig { city: None, stale_after: None, default_rig: None }
}

impl FileConfig {
    /// Overlay `more_specific` on `self`: each field it sets replaces ours.
    pub fn merge_over(self, more_specific: FileConfig) -> (r: FileConfig)
        ensures
            r == merge_spec(self, more_specific),
    {
        let mut base = self;
        if more_specific.city.is_some() {
            base.city = more_specific.city;
        }
        if more_specific.stale_after.is_some() {
            base.stale_after = more_specific.stale_after;
        }
        if more_specific.default_rig.is_some() {
            base.default_rig = more_specific.default_rig;
        }
        base
    }
}

/// The effective file configuration from what was read at the global and
/// the project-local location (`None` where there was no readable file):
/// project-local settings override global ones field by field.
pub fn load(global: Option<FileConfig>, local: Option<FileConfig>) -> (r: FileConfig)
    ensures
        r == merge_spec(
            match global {
                Some(g) => g,
                None => empty_config(),
            },
            match local {
                Some(l) => l,
                None => empty_config(),
            },
        ),
{
    let g = match global {
        Some(g) => g,
        None => FileConfig::default(),
    };
    let l = match local {
        Some(l) => l,
        None => FileConfig::default(),
    };
    g.merge_over(l)
}

/// The default staleness threshold when neither a flag nor a file sets one.
pub open spec fn default_stale_after() -> Seq<char> {
    "30m"@
}

/// What a setting resolves to: the command-line flag when given, else the
/// configuration files' value.
pub open spec fn flag_or_file(flag: Option<String>, file: Option<String>) -> Option<Seq<char>> {
    match flag {
        Some(f) => Some(f@),
        None => match file {
            Some(v) => Some(v@),
            None => None,
        },
    }
}

/// The city to use: `--city`, else the files' `city` (else none, and `gc`
/// discovers the city itself).
pub fn city_setting(flag: Option<String>, file: &FileConfig) -> (r: Option<String>)
    ensures
        crate::sources::bd::opt_str(r) == flag_or_file(flag, file.city),
{
    match flag {
        Some(f) => Some(f),
        None => crate::assemble::clone_opt(&file.city),
    }
}

/// The staleness threshold's text: `--stale-after`, else the files'
/// `stale_after`, else "30m".
pub fn stale_after_setting(flag: Option<String>, file: &FileConfig) -> (r: String)
    ensures
        r@ == (match flag_or_file(flag, file.stale_after) {
            Some(v) => v,
            None => default_stale_after(),
        }),
{
    match flag {
        Some(f) => f,
        None => match &file.stale_after {
            Some(v) => v.clone(),
            None => crate::text::owned("30m"),
        },
    }
}

/// The error for a command that needs a rig and got none from anywhere.
pub open spec fn no_rig_message() -> Seq<char> {
    "no rig given, and no default_rig set in .oilcop.toml / ~/.config/oil-cop/config.toml"@
}

/// The rig a command runs on: the one given, else the files'
/// `default_rig`, else an error saying neither was set.
pub fn rig_or_default(rig: Option<String>, file: &FileConfig) -> (r: Result<String, String>)
    ensures
        match flag_or_file(rig, file.default_rig) {
            Some(v) => r matches Ok(x) && x@ == v,
            None => r matches Err(e) && e@ == no_rig_message(),
        },
{
    match rig {
        Some(r) => Ok(r),
        None => match &file.default_rig {
            Some(d) => Ok(d.clone()),
            None => Err(
                crate::text::owned(
                    "no rig given, and no default_rig set in .oilcop.toml / ~/.config/oil-cop/config.toml",
                ),
            ),
        },
    }
}

/// The thresholds for a run: the staleness setting, parsed.
pub fn thresholds_setting(flag: Option<String>, file: &FileConfig) -> (r: Result<
    crate::health::Thresholds,
    crate::health::DurationError,
>)
    ensures
        ({
            let text = match flag_or_file(flag, file.stale_after) {
                Some(v) => v,
                None => default_stale_after(),
            };
            match crate::health::duration_spec(text) {
                Ok(secs) => r matches Ok(t) && t.stale_after_secs == secs as i64,
                Err(f) => r matches Err(e) && e@ == f,
            }
        }),
{
    let text = stale_after_setting(flag, file);
    match crate::health::parse_duration_secs(text.as_str()) {
        Ok(secs) => Ok(crate::health::Thresholds { stale_after_secs: secs }),
        Err(e) => Err(e),
    }
}

/// A command-line flag always wins over the configuration files, which win
/// over the built-in default.
pub proof fn law_flags_win(flag: String, file: FileConfig)
    ensures
        flag_or_file(Some(flag), file.city) == Some(flag@),
        flag_or_file(Some(flag), file.stale_after) == Some(flag@),
        flag_or_file(Some(flag), file.default_rig) == Some(flag@),
        file.stale_after is Some ==> flag_or_file(None, file.stale_after) == Some(
            file.stale_after.unwrap()@,
        ),
{
}

/// A missing file changes nothing: merging over, or merging in, the empty
/// configuration leaves a configuration as it was.
pub proof fn law_empty_config_is_neutral(c: FileConfig)
    ensures
        merge_spec(c, empty_config()) == c,
        merge_spec(empty_config(), c) == c,
{
}

/// Layering is associative: overlaying `b` then `c` on `a` is the same as
/// overlaying on `a` the combination of `b` and `c`.
pub proof fn law_merge_associative(a: FileConfig, b: FileConfig, c: FileConfig)
    ensures
        merge_spec(merge_spec(a, b), c) == merge_spec(a, merge_spec(b, c)),
{
}

} // verus!
