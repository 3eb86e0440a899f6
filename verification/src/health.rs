//! Health heuristics: turning raw timestamps/booleans into the `Health`
//! signal that gets color-coded. This is the "is this actually healthy"
//! logic the whole tool exists to surface.
use crate::model::Health;
use crate::text::{is_ws, to_chars, trim, trim_str};
use vstd::prelude::*;

verus! {

#[derive(Debug, Clone, Copy)]
pub struct Thresholds {
    /// A bead in `in_progress` with no update in this many seconds is stale:
    /// claimed but not actually moving.
    pub stale_after_secs: i64,
}

impl Default for Thresholds {
    fn default() -> (r: Self)
        ensures
            r.stale_after_secs == 30 * 60,
    {
        Thresholds { stale_after_secs: 30 * 60 }
    }
}

// ---------------------------------------------------------------------------
// Durations
// ---------------------------------------------------------------------------

/// Why a duration string was refused.
#[derive(Debug, Clone, PartialEq, Eq)]
pub enum DurationError {
    /// Nothing but whitespace.
    Empty,
    /// A character that is neither a digit nor one of `s`, `m`, `h`, `d`.
    UnknownUnit(char),
    /// A unit with no digits before it.
    MissingNumber(char),
    /// Digits at the end with no unit after them.
    TrailingNumber(String),
    /// The total does not fit in an `i64` number of seconds.
    Overflow,
}

/// `DurationError` with the trailing digits as a character sequence.
pub enum DurationFault {
    Empty,
    UnknownUnit(char),
    MissingNumber(char),
    TrailingNumber(Seq<char>),
    Overflow,
}

impl View for DurationError {
    type V = DurationFault;

    open spec fn view(&self) -> DurationFault {
        match self {
            DurationError::Empty => DurationFault::Empty,
            DurationError::UnknownUnit(c) => DurationFault::UnknownUnit(*c),
            DurationError::MissingNumber(c) => DurationFault::MissingNumber(*c),
            DurationError::TrailingNumber(s) => DurationFault::TrailingNumber(s@),
            DurationError::Overflow => DurationFault::Overflow,
        }
    }
}

pub open spec fn is_digit(c: char) -> bool {
    48 <= c as u32 <= 57
}

fn is_ascii_digit(c: char) -> (r: bool)
    ensures
        r == is_digit(c),
{
    let n = c as u32;
    48 <= n && n <= 57
}

pub open spec fn all_digits(s: Seq<char>) -> bool {
    forall|i: int| 0 <= i < s.len() ==> is_digit(#[trigger] s[i])
}

/// The value of a run of decimal digits.
pub open spec fn digits_value(s: Seq<char>) -> int
    decreases s.len(),
{
    if s.len() == 0 {
        0
    } else {
        digits_value(s.drop_last()) * 10 + ((s.last() as u32) - 48)
    }
}

/// Seconds per unit: `s`, `m`, `h`, `d`.
pub open spec fn unit_secs(c: char) -> Option<int> {
    if c == 's' {
        Some(1)
    } else if c == 'm' {
        Some(60)
    } else if c == 'h' {
        Some(3600)
    } else if c == 'd' {
        Some(86400)
    } else {
        None
    }
}

/// What `i64::from_str` accepts: an optional `+`/`-` sign, then one or more
/// ASCII digits, with the value in range.
pub open spec fn parse_i64(s: Seq<char>) -> Option<i64> {
    let signed = s.len() > 0 && (s[0] == '+' || s[0] == '-');
    let digits = if signed {
        s.drop_first()
    } else {
        s
    };
    let v = digits_value(digits);
    let value = if signed && s[0] == '-' {
        -v
    } else {
        v
    };
    if digits.len() > 0 && all_digits(digits) && i64::MIN <= value <= i64::MAX {
        Some(value as i64)
    } else {
        None
    }
}

/// Left-to-right scan of `<digits><unit>` groups: the running total and the
/// digits not yet followed by a unit, or the first error met.
pub open spec fn scan_units(s: Seq<char>) -> Result<(int, Seq<char>), DurationFault>
    decreases s.len(),
{
    if s.len() == 0 {
        Ok((0, Seq::empty()))
    } else {
        match scan_units(s.drop_last()) {
            Err(e) => Err(e),
            Ok((total, num)) => {
                let c = s.last();
                if is_digit(c) {
                    Ok((total, num.push(c)))
                } else {
                    match unit_secs(c) {
                        None => Err(DurationFault::UnknownUnit(c)),
                        Some(u) => if num.len() == 0 {
                            Err(DurationFault::MissingNumber(c))
                        } else if total + digits_value(num) * u > i64::MAX {
                            Err(DurationFault::Overflow)
                        } else {
                            Ok((total + digits_value(num) * u, Seq::empty()))
                        },
                    }
                }
            },
        }
    }
}

/// The meaning of a duration string like "30m", "1h", "45s", "2h30m", or a
/// bare number of seconds ("90"), after trimming surrounding whitespace.
pub open spec fn duration_spec(input: Seq<char>) -> Result<int, DurationFault> {
    let s = trim(input);
    if s.len() == 0 {
        Err(DurationFault::Empty)
    } else if parse_i64(s) is Some {
        Ok(parse_i64(s).unwrap() as int)
    } else {
        match scan_units(s) {
            Err(e) => Err(e),
            Ok((total, num)) => if num.len() > 0 {
                Err(DurationFault::TrailingNumber(num))
            } else {
                Ok(total)
            },
        }
    }
}

/// Once the scan has failed on a prefix, the rest of the input can't
/// change the verdict.
pub proof fn lemma_scan_err_sticky(s: Seq<char>, i: int)
    requires
        0 <= i <= s.len(),
        scan_units(s.take(i)) is Err,
    ensures
        scan_units(s) == scan_units(s.take(i)),
    decreases s.len() - i,
{
    if i == s.len() {
        assert(s.take(i) =~= s);
    } else {
        assert(s.drop_last().take(i) =~= s.take(i));
        lemma_scan_err_sticky(s.drop_last(), i);
    }
}

/// A run of digits has a non-negative value.
pub proof fn lemma_digits_value_nonneg(s: Seq<char>)
    requires
        all_digits(s),
    ensures
        digits_value(s) >= 0,
    decreases s.len(),
{
    if s.len() > 0 {
        assert(all_digits(s.drop_last())) by {
            assert forall|k: int| 0 <= k < s.len() - 1 implies is_digit(#[trigger] s.drop_last()[k]) by {
                assert(s.drop_last()[k] == s[k]);
            }
        }
        lemma_digits_value_nonneg(s.drop_last());
        assert(is_digit(s[s.len() - 1]));
    }
}

/// Leading digits never count for more than the whole run.
pub proof fn lemma_digits_value_mono(s: Seq<char>, i: int)
    requires
        all_digits(s),
        0 <= i <= s.len(),
    ensures
        0 <= digits_value(s.take(i)) <= digits_value(s),
    decreases s.len(),
{
    lemma_digits_value_nonneg(s);
    if i == s.len() {
        assert(s.take(i) =~= s);
    } else {
        assert(all_digits(s.drop_last())) by {
            assert forall|k: int| 0 <= k < s.len() - 1 implies is_digit(#[trigger] s.drop_last()[k]) by {
                assert(s.drop_last()[k] == s[k]);
            }
        }
        lemma_digits_value_mono(s.drop_last(), i);
        assert(s.drop_last().take(i) =~= s.take(i));
        lemma_digits_value_nonneg(s.drop_last());
        assert(is_digit(s[s.len() - 1]));
    }
}

/// Accumulates the value of a run of digits, or `None` once it passes
/// `bound`.
fn digits_value_upto(v: &Vec<char>, from: usize, bound: u64) -> (r: Option<u64>)
    requires
        from <= v.len(),
        all_digits(v@.skip(from as int)),
    ensures
        r matches Some(x) ==> x == digits_value(v@.skip(from as int)) && x <= bound,
        r is None ==> digits_value(v@.skip(from as int)) > bound,
{
    let ghost d = v@.skip(from as int);
    let mut acc: u64 = 0;
    let mut i: usize = from;
    while i < v.len()
        invariant
            from <= i <= v.len(),
            d == v@.skip(from as int),
            all_digits(d),
            acc == digits_value(d.take(i - from)),
            acc <= bound,
        decreases v.len() - i,
    {
        assert(d[i - from] == v@[i as int]);
        assert(is_digit(d[i - from]));
        let k: u64 = (v[i] as u32 - 48) as u64;
        let ghost t = d.take(i + 1 - from);
        assert(t.drop_last() =~= d.take(i - from));
        assert(t.last() == v@[i as int]);
        assert(digits_value(t) == digits_value(t.drop_last()) * 10 + ((t.last() as u32) - 48));
        assert(digits_value(t) == acc * 10 + k);
        if acc > bound / 10 || k > bound - acc * 10 {
            proof {
                lemma_digits_value_mono(d, i + 1 - from);
            }
            return None;
        }
        acc = acc * 10 + k;
        i += 1;
    }
    assert(d.take(v.len() - from) =~= d);
    Some(acc)
}

/// `s.parse::<i64>()` for a character vector.
pub fn parse_i64_chars(s: &Vec<char>) -> (r: Option<i64>)
    ensures
        r == parse_i64(s@),
{
    let n = s.len();
    if n == 0 {
        return None;
    }
    let signed = s[0] == '+' || s[0] == '-';
    let from: usize = if signed {
        1
    } else {
        0
    };
    let ghost digits = if signed {
        s@.drop_first()
    } else {
        s@
    };
    assert(s@.skip(from as int) =~= digits);
    if from >= n {
        return None;
    }
    let mut i: usize = from;
    while i < n
        invariant
            from <= i <= n,
            from <= 1,
            n == s.len(),
            digits == s@.skip(from as int),
            digits == (if s@.len() > 0 && (s@[0] == '+' || s@[0] == '-') {
                s@.drop_first()
            } else {
                s@
            }),
            forall|k: int| from <= k < i ==> is_digit(#[trigger] s@[k]),
        decreases n - i,
    {
        if !is_ascii_digit(s[i]) {
            assert(digits[i - from] == s@[i as int]);
            assert(!is_digit(digits[i - from]));
            return None;
        }
        i += 1;
    }
    assert(all_digits(digits)) by {
        assert forall|k: int| 0 <= k < digits.len() implies is_digit(#[trigger] digits[k]) by {
            assert(digits[k] == s@[k + from]);
        }
    }
    let negative = s[0] == '-';
    let bound: u64 = if negative {
        0x8000_0000_0000_0000u64
    } else {
        0x7fff_ffff_ffff_ffffu64
    };
    match digits_value_upto(s, from, bound) {
        None => {
            assert(digits_value(digits) > bound);
            assert(digits.len() > 0);
            if negative {
                assert(-digits_value(digits) < i64::MIN);
            }
            None
        },
        Some(v) => {
            if negative {
                if v == 0x8000_0000_0000_0000u64 {
                    Some(i64::MIN)
                } else {
                    Some(-(v as i64))
                }
            } else {
                Some(v as i64)
            }
        },
    }
}

/// Parse a duration like "30m", "1h", "45s", "2h30m", "90" (bare seconds)
/// into seconds.
pub fn parse_duration_secs(input: &str) -> (r: Result<i64, DurationError>)
    ensures
        match duration_spec(input@) {
            Ok(v) => r == Ok::<i64, DurationError>(v as i64),
            Err(e) => r matches Err(x) && x@ == e,
        },
{
    let t = trim_str(input);
    let s = to_chars(t.as_str());
    if s.len() == 0 {
        return Err(DurationError::Empty);
    }
    if let Some(bare) = parse_i64_chars(&s) {
        return Ok(bare);
    }
    let mut total: i64 = 0;
    let mut num: Vec<char> = Vec::new();
    let mut i: usize = 0;
    while i < s.len()
        invariant
            i <= s.len(),
            s@ == trim(input@),
            s.len() > 0,
            parse_i64(s@) is None,
            scan_units(s@.take(i as int)) == Ok::<(int, Seq<char>), DurationFault>(
                (total as int, num@),
            ),
            total >= 0,
            all_digits(num@),
        decreases s.len() - i,
    {
        let c = s[i];
        assert(s@.take(i + 1).drop_last() =~= s@.take(i as int));
        assert(s@.take(i + 1).last() == c);
        if is_ascii_digit(c) {
            num.push(c);
            i += 1;
            continue;
        }
        let unit: i64 = if c == 's' {
            1
        } else if c == 'm' {
            60
        } else if c == 'h' {
            3600
        } else if c == 'd' {
            86400
        } else {
            proof {
                lemma_scan_err_sticky(s@, i + 1);
            }
            return Err(DurationError::UnknownUnit(c));
        };
        if num.len() == 0 {
            proof {
                lemma_scan_err_sticky(s@, i + 1);
            }
            return Err(DurationError::MissingNumber(c));
        }
        assert(num@.skip(0) =~= num@);
        let room: u64 = (i64::MAX - total) as u64;
        match digits_value_upto(&num, 0, room / (unit as u64)) {
            None => {
                proof {
                    assert(digits_value(num@) * unit > room) by (nonlinear_arith)
                        requires
                            digits_value(num@) > room / (unit as u64),
                            unit >= 1,
                    ;
                    lemma_scan_err_sticky(s@, i + 1);
                }
                return Err(DurationError::Overflow);
            },
            Some(v) => {
                proof {
                    assert(v * unit <= room) by (nonlinear_arith)
                        requires
                            v <= room / (unit as u64),
                            unit >= 1,
                    ;
                }
                total = total + (v as i64) * unit;
                num = Vec::new();
            },
        }
        i += 1;
    }
    assert(s@.take(s.len() as int) =~= s@);
    if num.len() > 0 {
        return Err(DurationError::TrailingNumber(crate::text::from_chars(&num)));
    }
    Ok(total)
}

/// The message shown to a person for a refused duration `input`.
pub open spec fn duration_message(e: DurationFault, input: Seq<char>) -> Seq<char> {
    match e {
        DurationFault::Empty => "empty duration"@,
        DurationFault::UnknownUnit(c) => "unrecognized duration unit '"@ + seq![c] + "' in '"@ + input
            + "'"@,
        DurationFault::MissingNumber(c) => "unit '"@ + seq![c] + "' with no preceding number in '"@
            + input + "'"@,
        DurationFault::TrailingNumber(n) => "trailing number '"@ + n + "' with no unit in '"@ + input
            + "'"@,
        DurationFault::Overflow => "number too large to fit in target type"@,
    }
}

impl DurationError {
    /// The message shown to a person for this error; `input` is the
    /// duration string as given.
    pub fn message(&self, input: &str) -> (r: String)
        ensures
            r@ == duration_message(self@, input@),
    {
        match self {
            DurationError::Empty => crate::text::owned("empty duration"),
            DurationError::UnknownUnit(c) => {
                let mut v = to_chars("unrecognized duration unit '");
                v.push(*c);
                crate::text::extend_chars(&mut v, &to_chars("' in '"));
                crate::text::extend_chars(&mut v, &to_chars(input));
                crate::text::extend_chars(&mut v, &to_chars("'"));
                crate::text::from_chars(&v)
            },
            DurationError::MissingNumber(c) => {
                let mut v = to_chars("unit '");
                v.push(*c);
                crate::text::extend_chars(&mut v, &to_chars("' with no preceding number in '"));
                crate::text::extend_chars(&mut v, &to_chars(input));
                crate::text::extend_chars(&mut v, &to_chars("'"));
                crate::text::from_chars(&v)
            },
            DurationError::TrailingNumber(num) => {
                let mut v = to_chars("trailing number '");
                crate::text::extend_chars(&mut v, &to_chars(num.as_str()));
                crate::text::extend_chars(&mut v, &to_chars("' with no unit in '"));
                crate::text::extend_chars(&mut v, &to_chars(input));
                crate::text::extend_chars(&mut v, &to_chars("'"));
                crate::text::from_chars(&v)
            },
            DurationError::Overflow => crate::text::owned("number too large to fit in target type"),
        }
    }
}

// ---------------------------------------------------------------------------
// Timestamps
// ---------------------------------------------------------------------------

/// An instant as Unix time: whole seconds since the epoch (negative
/// before it) and the nanoseconds past them.
#[derive(Debug, Clone, Copy, PartialEq, Eq, Structural)]
pub struct UnixTime {
    pub secs: i64,
    pub nanos: u32,
}

impl UnixTime {
    /// The instant at the start of Unix second `secs`.
    pub fn at(secs: i64) -> (r: UnixTime)
        ensures
            r.secs == secs,
            r.nanos == 0,
    {
        UnixTime { secs, nanos: 0 }
    }
}

/// The whole seconds from the RFC 3339 timestamp `s` to the instant `secs`
/// seconds and `nanos` nanoseconds into Unix time, as chrono counts them
/// (the exact difference, cut toward zero), or `None` when `s` is not one.
pub uninterp spec fn rfc3339_age_secs(s: Seq<char>, secs: i64, nanos: u32) -> Option<i64>;

/// `chrono`: `DateTime::parse_from_rfc3339(s)` in UTC, then `(at -
/// parsed).num_seconds()`, where `at` is `DateTime::from_timestamp(secs,
/// nanos)`; `None` when `s` does not parse (or `at` is no instant chrono
/// can hold). The result is taken to depend on `s`, `secs` and `nanos`
/// alone.
#[verifier::external_body]
fn chrono_age_secs(s: &str, secs: i64, nanos: u32) -> (r: Option<i64>)
    ensures
        r == rfc3339_age_secs(s@, secs, nanos),
{
    let parsed = match chrono::DateTime::parse_from_rfc3339(s) {
        Ok(t) => t.with_timezone(&chrono::Utc),
        Err(_) => return None,
    };
    match chrono::DateTime::from_timestamp(secs, nanos) {
        Some(at) => Some((at - parsed).num_seconds()),
        None => None,
    }
}

/// Whole seconds from `timestamp` to `now`, when the timestamp parses.
pub open spec fn age_spec(timestamp: Option<Seq<char>>, now: UnixTime) -> Option<i64> {
    match timestamp {
        None => None,
        Some(t) => rfc3339_age_secs(t, now.secs, now.nanos),
    }
}

/// View of an optional string as an optional character sequence.
pub open spec fn opt_view(s: Option<&str>) -> Option<Seq<char>> {
    match s {
        Some(t) => Some(t@),
        None => None,
    }
}

/// Whole seconds elapsed between an RFC 3339 timestamp and `now`, if it
/// parses.
pub fn age_secs(timestamp: Option<&str>, now: UnixTime) -> (r: Option<i64>)
    ensures
        r == age_spec(opt_view(timestamp), now),
{
    match timestamp {
        Some(ts) => chrono_age_secs(ts, now.secs, now.nanos),
        None => None,
    }
}

// ---------------------------------------------------------------------------
// Health signals
// ---------------------------------------------------------------------------

/// Health of a single bead given its status and how long ago it last
/// updated.
pub open spec fn bead_health_spec(status: Seq<char>, age: Option<i64>, stale_after: i64) -> Health {
    if status == "in_progress"@ {
        match age {
            Some(s) => if s > stale_after {
                Health::Stale
            } else {
                Health::Healthy
            },
            None => Health::Unknown,
        }
    } else if status == "blocked"@ || status == "deferred"@ || status == "open"@ {
        Health::Idle
    } else if status == "closed"@ {
        Health::Done
    } else {
        Health::Unknown
    }
}

/// Health of a single bead given its status and how long ago it last updated.
pub fn bead_health(status: &str, age_secs: Option<i64>, thresholds: &Thresholds) -> (r: Health)
    ensures
        r == bead_health_spec(status@, age_secs, thresholds.stale_after_secs),
{
    if crate::text::str_eq(status, "in_progress") {
        match age_secs {
            Some(s) => if s > thresholds.stale_after_secs {
                Health::Stale
            } else {
                Health::Healthy
            },
            None => Health::Unknown,
        }
    } else if crate::text::str_eq(status, "blocked") || crate::text::str_eq(status, "deferred")
        || crate::text::str_eq(status, "open") {
        Health::Idle
    } else if crate::text::str_eq(status, "closed") {
        Health::Done
    } else {
        Health::Unknown
    }
}

/// Health of an agent: suspended, then not-running, then draining take
/// priority over how long ago it last showed activity.
pub open spec fn agent_health_spec(
    running: bool,
    suspended: bool,
    draining: bool,
    last_active_secs: Option<i64>,
    stale_after: i64,
) -> Health {
    if suspended {
        Health::Suspended
    } else if !running {
        Health::Dead
    } else if draining {
        Health::Idle
    } else {
        match last_active_secs {
            Some(s) => if s > stale_after {
                Health::Stale
            } else {
                Health::Healthy
            },
            None => Health::Idle,
        }
    }
}

/// Health of an agent: suspended/dead takes priority over activity-based
/// signals. `last_active_secs` is how long ago the agent last actually did
/// something; `None` means no heartbeat is available at all (idle, waiting
/// -- not necessarily a problem). A draining agent is mid-shutdown by
/// design, so it reads as idle even if it was recently active.
pub fn agent_health(
    running: bool,
    suspended: bool,
    draining: bool,
    last_active_secs: Option<i64>,
    thresholds: &Thresholds,
) -> (r: Health)
    ensures
        r == agent_health_spec(
            running,
            suspended,
            draining,
            last_active_secs,
            thresholds.stale_after_secs,
        ),
{
    if suspended {
        return Health::Suspended;
    }
    if !running {
        return Health::Dead;
    }
    if draining {
        return Health::Idle;
    }
    match last_active_secs {
        Some(s) => if s > thresholds.stale_after_secs {
            Health::Stale
        } else {
            Health::Healthy
        },
        None => Health::Idle,
    }
}

/// Severity order used to roll signals up: dead is worst, done is least.
pub open spec fn rank(h: Health) -> int {
    match h {
        Health::Dead => 6,
        Health::Stale => 5,
        Health::Unknown => 4,
        Health::Idle => 3,
        Health::Healthy => 2,
        Health::Suspended => 1,
        Health::Done => 0,
    }
}

fn rank_of(h: Health) -> (r: u8)
    ensures
        r == rank(h),
{
    match h {
        Health::Dead => 6,
        Health::Stale => 5,
        Health::Unknown => 4,
        Health::Idle => 3,
        Health::Healthy => 2,
        Health::Suspended => 1,
        Health::Done => 0,
    }
}

/// Worst of a sequence of signals, starting from `Done`.
pub open spec fn worst_spec(s: Seq<Health>) -> Health
    decreases s.len(),
{
    if s.len() == 0 {
        Health::Done
    } else {
        let w = worst_spec(s.drop_last());
        if rank(s.last()) > rank(w) {
            s.last()
        } else {
            w
        }
    }
}

/// Roll up a set of child health signals into one overall signal, worst wins.
pub fn worst_of(signals: &[Health]) -> (r: Health)
    ensures
        r == worst_spec(signals@),
{
    let mut worst = Health::Done;
    let mut i: usize = 0;
    while i < signals.len()
        invariant
            i <= signals.len(),
            worst == worst_spec(signals@.take(i as int)),
        decreases signals.len() - i,
    {
        assert(signals@.take(i + 1).drop_last() =~= signals@.take(i as int));
        if rank_of(signals[i]) > rank_of(worst) {
            worst = signals[i];
        }
        i += 1;
    }
    assert(signals@.take(signals.len() as int) =~= signals@);
    worst
}

/// Is this health signal a concrete problem a health check should fail on?
pub open spec fn is_problem_spec(h: Health) -> bool {
    h == Health::Dead || h == Health::Stale
}

/// Is this health signal a concrete problem a health check should fail
/// on? `Unknown` (e.g. a partial status probe) is uncertainty, not a proven
/// failure, so it doesn't fail a check on its own.
pub fn is_problem(h: Health) -> (r: bool)
    ensures
        r == is_problem_spec(h),
{
    match h {
        Health::Dead | Health::Stale => true,
        _ => false,
    }
}

// ---------------------------------------------------------------------------
// Laws
// ---------------------------------------------------------------------------

/// The rolled-up signal is at least as severe as every input, and is one of
/// the inputs -- or `Done` when there are none.
pub proof fn lemma_worst_is_max(s: Seq<Health>)
    ensures
        forall|i: int| 0 <= i < s.len() ==> rank(#[trigger] s[i]) <= rank(worst_spec(s)),
        s.len() == 0 ==> worst_spec(s) == Health::Done,
        s.len() > 0 ==> s.contains(worst_spec(s)) || (worst_spec(s) == Health::Done
            && forall|i: int| 0 <= i < s.len() ==> #[trigger] s[i] == Health::Done),
    decreases s.len(),
{
    if s.len() > 0 {
        let p = s.drop_last();
        lemma_worst_is_max(p);
        assert forall|i: int| 0 <= i < s.len() implies rank(#[trigger] s[i]) <= rank(
            worst_spec(s),
        ) by {
            if i < s.len() - 1 {
                assert(s[i] == p[i]);
            }
        }
        if rank(s.last()) > rank(worst_spec(p)) {
            assert(s[s.len() - 1] == s.last());
        } else if p.len() > 0 && p.contains(worst_spec(p)) {
            let j = choose|j: int| 0 <= j < p.len() && p[j] == worst_spec(p);
            assert(s[j] == p[j]);
        } else {
            assert(worst_spec(p) == Health::Done);
            assert forall|i: int| 0 <= i < s.len() implies #[trigger] s[i] == Health::Done by {
                if i < s.len() - 1 {
                    assert(s[i] == p[i]);
                }
            }
        }
    }
}

/// Two signals of equal severity are the same signal.
pub proof fn lemma_rank_injective(a: Health, b: Health)
    ensures
        rank(a) == rank(b) ==> a == b,
{
}

/// `worst_of` returns one of its inputs, or `Done` for none, and the order
/// of the inputs never changes the answer: any two sequences holding the
/// same signals roll up to the same signal.
pub proof fn law_worst_of_order_independent(s1: Seq<Health>, s2: Seq<Health>)
    requires
        forall|h: Health| s1.contains(h) <==> s2.contains(h),
    ensures
        worst_spec(s1) == worst_spec(s2),
        s1.len() == 0 ==> worst_spec(s1) == Health::Done,
        s1.len() > 0 ==> s1.contains(worst_spec(s1)),
{
    lemma_worst_is_max(s1);
    lemma_worst_is_max(s2);
    let w1 = worst_spec(s1);
    let w2 = worst_spec(s2);
    if s1.len() > 0 && !s1.contains(w1) {
        assert(s1.contains(s1[0]));
    }
    if s2.len() > 0 && !s2.contains(w2) {
        assert(s2.contains(s2[0]));
    }
    if s1.len() > 0 {
        let j = choose|j: int| 0 <= j < s1.len() && s1[j] == w1;
        assert(s1.contains(w1));
        assert(s2.contains(w1));
        let k = choose|k: int| 0 <= k < s2.len() && s2[k] == w1;
        assert(rank(s2[k]) <= rank(w2));
    }
    if s2.len() > 0 {
        assert(s2.contains(w2));
        assert(s1.contains(w2));
        let k = choose|k: int| 0 <= k < s1.len() && s1[k] == w2;
        assert(rank(s1[k]) <= rank(w1));
    }
    if s1.len() == 0 && s2.len() > 0 {
        assert(s1.contains(s2[0]));
    }
    if s2.len() == 0 && s1.len() > 0 {
        assert(s2.contains(s1[0]));
    }
    lemma_rank_injective(w1, w2);
}

/// A suspended agent is always `Suspended`, whatever else is true of it;
/// otherwise an agent that isn't running is always `Dead`, whatever its
/// draining flag or activity.
pub proof fn law_agent_health_priority(
    running: bool,
    suspended: bool,
    draining: bool,
    last_active_secs: Option<i64>,
    stale_after: i64,
)
    ensures
        suspended ==> agent_health_spec(running, suspended, draining, last_active_secs, stale_after)
            == Health::Suspended,
        !suspended && !running ==> agent_health_spec(
            running,
            suspended,
            draining,
            last_active_secs,
            stale_after,
        ) == Health::Dead,
{
}

/// Healthy only when both running and recently updated: an agent reads
/// `Healthy` exactly when it runs, isn't suspended or draining, and last
/// showed activity no longer ago than the threshold; a bead exactly when
/// it is in progress and was updated within the threshold.
pub proof fn law_healthy_means_running_and_recent(
    running: bool,
    suspended: bool,
    draining: bool,
    last_active_secs: Option<i64>,
    status: Seq<char>,
    age: Option<i64>,
    stale_after: i64,
)
    ensures
        (agent_health_spec(running, suspended, draining, last_active_secs, stale_after)
            == Health::Healthy) <==> (running && !suspended && !draining && last_active_secs is Some
            && last_active_secs.unwrap() <= stale_after),
        (bead_health_spec(status, age, stale_after) == Health::Healthy) <==> (status == "in_progress"@
            && age is Some && age.unwrap() <= stale_after),
{
}

/// The text of a sequence of `(number, unit)` groups, e.g. `[(2, 'h'), (30,
/// 'm')]` is "2h30m".
pub open spec fn render_parts(parts: Seq<(nat, char)>) -> Seq<char>
    decreases parts.len(),
{
    if parts.len() == 0 {
        Seq::empty()
    } else {
        render_parts(parts.drop_last()) + crate::text::nat_decimal(parts.last().0) + seq![
            parts.last().1,
        ]
    }
}

/// Total seconds of a sequence of `(number, unit)` groups.
pub open spec fn sum_parts(parts: Seq<(nat, char)>) -> int
    decreases parts.len(),
{
    if parts.len() == 0 {
        0
    } else {
        sum_parts(parts.drop_last()) + parts.last().0 * unit_secs(parts.last().1).unwrap()
    }
}

proof fn lemma_decimal_digits(n: nat)
    ensures
        all_digits(crate::text::nat_decimal(n)),
        digits_value(crate::text::nat_decimal(n)) == n,
        crate::text::nat_decimal(n).len() > 0,
    decreases n,
{
    let d = crate::text::nat_decimal(n);
    if n < 10 {
        assert(d.drop_last() =~= Seq::<char>::empty());
        assert((d.last() as u32) == n + 48);
        assert(digits_value(d.drop_last()) == 0);
    } else {
        lemma_decimal_digits(n / 10);
        let p = crate::text::nat_decimal(n / 10);
        assert(d.drop_last() =~= p);
        assert(n == (n / 10) * 10 + n % 10);
        assert((d.last() as u32) == n % 10 + 48);
        assert(digits_value(d) == digits_value(p) * 10 + ((d.last() as u32) - 48));
        assert forall|i: int| 0 <= i < d.len() implies is_digit(#[trigger] d[i]) by {
            if i < d.len() - 1 {
                assert(d[i] == p[i]);
            }
        }
    }
}

proof fn lemma_scan_digits(p: Seq<char>, d: Seq<char>, t: int, num: Seq<char>)
    requires
        all_digits(d),
        scan_units(p) == Ok::<(int, Seq<char>), DurationFault>((t, num)),
    ensures
        scan_units(p + d) == Ok::<(int, Seq<char>), DurationFault>((t, num + d)),
    decreases d.len(),
{
    if d.len() == 0 {
        assert(p + d =~= p);
        assert(num + d =~= num);
    } else {
        assert(all_digits(d.drop_last())) by {
            assert forall|k: int| 0 <= k < d.len() - 1 implies is_digit(#[trigger] d.drop_last()[k]) by {
                assert(d.drop_last()[k] == d[k]);
            }
        }
        lemma_scan_digits(p, d.drop_last(), t, num);
        assert((p + d).drop_last() =~= p + d.drop_last());
        assert((p + d).last() == d.last());
        assert(is_digit(d[d.len() - 1]));
        assert((num + d.drop_last()).push(d.last()) =~= num + d);
    }
}

proof fn lemma_sum_parts_mono(parts: Seq<(nat, char)>)
    requires
        forall|i: int| 0 <= i < parts.len() ==> (#[trigger] unit_secs(parts[i].1)) is Some,
    ensures
        sum_parts(parts) >= 0,
        parts.len() > 0 ==> sum_parts(parts.drop_last()) <= sum_parts(parts),
    decreases parts.len(),
{
    if parts.len() > 0 {
        let q = parts.drop_last();
        assert forall|i: int| 0 <= i < q.len() implies (#[trigger] unit_secs(q[i].1)) is Some by {
            assert(q[i] == parts[i]);
        }
        lemma_sum_parts_mono(q);
        assert(unit_secs(parts[parts.len() - 1].1) is Some);
        let n = parts.last().0;
        let u = unit_secs(parts.last().1).unwrap();
        assert(n * u >= 0) by (nonlinear_arith)
            requires
                u >= 1,
        ;
    }
}

proof fn lemma_scan_parts(parts: Seq<(nat, char)>)
    requires
        forall|i: int| 0 <= i < parts.len() ==> (#[trigger] unit_secs(parts[i].1)) is Some,
        sum_parts(parts) <= i64::MAX,
    ensures
        scan_units(render_parts(parts)) == Ok::<(int, Seq<char>), DurationFault>(
            (sum_parts(parts), Seq::empty()),
        ),
    decreases parts.len(),
{
    if parts.len() == 0 {
    } else {
        let q = parts.drop_last();
        assert forall|i: int| 0 <= i < q.len() implies (#[trigger] unit_secs(q[i].1)) is Some by {
            assert(q[i] == parts[i]);
        }
        lemma_sum_parts_mono(parts);
        lemma_scan_parts(q);
        let n = parts.last().0;
        let c = parts.last().1;
        let d = crate::text::nat_decimal(n);
        lemma_decimal_digits(n);
        lemma_scan_digits(render_parts(q), d, sum_parts(q), Seq::empty());
        assert(Seq::<char>::empty() + d =~= d);
        let r = render_parts(parts);
        assert(r.drop_last() =~= render_parts(q) + d);
        assert(r.last() == c);
        assert(unit_secs(parts[parts.len() - 1].1) is Some);
        assert(!is_digit(c));
    }
}

proof fn lemma_render_parts_ends(parts: Seq<(nat, char)>)
    requires
        parts.len() > 0,
    ensures
        render_parts(parts).len() > 0,
        is_digit(render_parts(parts)[0]),
        render_parts(parts).last() == parts.last().1,
    decreases parts.len(),
{
    let q = parts.drop_last();
    lemma_decimal_digits(parts.last().0);
    let d = crate::text::nat_decimal(parts.last().0);
    if q.len() == 0 {
        assert(render_parts(parts) =~= d + seq![parts.last().1]);
        assert(is_digit(d[0]));
    } else {
        lemma_render_parts_ends(q);
        assert(render_parts(parts)[0] == render_parts(q)[0]);
    }
}

/// Any string built from a non-empty sequence of `<digits><unit>` groups
/// parses to the exact sum of its groups in seconds, as long as that sum
/// fits in an `i64`.
pub proof fn law_duration_sums_groups(parts: Seq<(nat, char)>)
    requires
        parts.len() > 0,
        forall|i: int| 0 <= i < parts.len() ==> (#[trigger] unit_secs(parts[i].1)) is Some,
        sum_parts(parts) <= i64::MAX,
    ensures
        duration_spec(render_parts(parts)) == Ok::<int, DurationFault>(sum_parts(parts)),
{
    let r = render_parts(parts);
    lemma_render_parts_ends(parts);
    lemma_scan_parts(parts);
    let c = parts.last().1;
    assert(unit_secs(parts[parts.len() - 1].1) is Some);
    assert(!is_ws(r[0]));
    assert(!is_ws(r.last()));
    assert(crate::text::trim_start(r) == r);
    assert(crate::text::trim_end(r) == r);
    assert(!is_digit(r.last()));
    if r[0] == '+' || r[0] == '-' {
        assert(is_digit(r[0]));
    } else {
        assert(!all_digits(r)) by {
            assert(!is_digit(r[r.len() - 1]));
        }
    }
}

} // verus!
