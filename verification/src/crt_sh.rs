use vstd::prelude::*;
use crate::text::{split_char, split_on, strip_wildcard, strip_wildcard_prefix, views};

verus! {

/// A point in time in UTC: whole seconds since the Unix epoch and the nanoseconds past them.
/// The nanoseconds reach past one second only within a leap second.
#[derive(Debug, Clone, Copy, PartialEq, Eq, Structural)]
pub struct Timestamp {
    pub secs: i64,
    pub nanos: u32,
}

/// One certificate as crt.sh lists it: its names (one per line) and its validity period.
pub struct CrtShItem {
    pub name_value: String,
    pub not_before: Timestamp,
    pub not_after: Timestamp,
}

/// Whether the moment (s1, n1) comes strictly before (s2, n2).
pub open spec fn moment_lt(s1: int, n1: int, s2: int, n2: int) -> bool {
    s1 < s2 || (s1 == s2 && n1 < n2)
}

/// Whether `a` comes strictly before `b`.
pub open spec fn ts_lt(a: Timestamp, b: Timestamp) -> bool {
    moment_lt(a.secs as int, a.nanos as int, b.secs as int, b.nanos as int)
}

/// A moment that chrono can hold: the nanoseconds stay below two seconds (past one second
/// only within a leap second).
pub open spec fn is_valid_timestamp(t: Timestamp) -> bool {
    t.nanos < 2_000_000_000
}

/// The seconds of the moment 24 hours before `t`; a leap second is first left for the
/// second that follows it.
pub open spec fn day_before_secs(t: Timestamp) -> int {
    if t.nanos >= 1_000_000_000 {
        t.secs + 1 - 86_400
    } else {
        t.secs - 86_400
    }
}

/// The nanoseconds of the moment 24 hours before `t`.
pub open spec fn day_before_nanos(t: Timestamp) -> int {
    if t.nanos >= 1_000_000_000 {
        t.nanos - 1_000_000_000
    } else {
        t.nanos as int
    }
}

/// A certificate has expired at `now` when its end lies strictly before `now`.
pub open spec fn is_expired(not_after: Timestamp, now: Timestamp) -> bool {
    ts_lt(not_after, now)
}

/// A certificate is recent at `now` when it started no later than `now` and
/// no earlier than 24 hours before `now`.
pub open spec fn is_recent(not_before: Timestamp, now: Timestamp) -> bool {
    &&& !ts_lt(now, not_before)
    &&& !moment_lt(
        not_before.secs as int,
        not_before.nanos as int,
        day_before_secs(now),
        day_before_nanos(now),
    )
}

/// Whether a certificate is kept under the two filters: not when it has expired and
/// expired ones are ignored, not when it is not recent and only recent ones are wanted.
pub open spec fn is_kept(
    not_before: Timestamp,
    not_after: Timestamp,
    now: Timestamp,
    ignore_expired: bool,
    recent_only: bool,
) -> bool {
    &&& !(ignore_expired && is_expired(not_after, now))
    &&& !(recent_only && !is_recent(not_before, now))
}

/// How a kept certificate stood at the moment it was looked at.
#[derive(Debug, Clone, Copy, PartialEq, Eq, Structural)]
pub struct CertificateStatus {
    pub expired: bool,
    pub recent: bool,
}

/// The current time, read from the system clock through `chrono::Utc::now` and taken
/// apart by `DateTime::timestamp` and `DateTime::timestamp_subsec_nanos`. Of the reading,
/// which depends on the clock, only what chrono documents of every moment is stated: its
/// nanoseconds stay below two seconds.
#[verifier::external_body]
pub(crate) fn current_time() -> (t: Timestamp)
    ensures
        is_valid_timestamp(t),
{
    let now = chrono::Utc::now();
    Timestamp { secs: now.timestamp(), nanos: now.timestamp_subsec_nanos() }
}

fn before(s1: i128, n1: i128, s2: i128, n2: i128) -> (b: bool)
    ensures
        b == moment_lt(s1 as int, n1 as int, s2 as int, n2 as int),
{
    s1 < s2 || (s1 == s2 && n1 < n2)
}

/// Decides, at the moment `now`, whether a certificate valid from `not_before` to
/// `not_after` is kept under the filters, and if so whether it has expired and whether it is
/// recent.
pub fn certificate_status(
    not_before: Timestamp,
    not_after: Timestamp,
    now: Timestamp,
    ignore_expired: bool,
    recent_only: bool,
) -> (r: Option<CertificateStatus>)
    ensures
        r is Some <==> is_kept(not_before, not_after, now, ignore_expired, recent_only),
        r matches Some(st) ==> st.expired == is_expired(not_after, now) && st.recent == is_recent(
            not_before,
            now,
        ),
{
    let has_expired = before(
        not_after.secs as i128,
        not_after.nanos as i128,
        now.secs as i128,
        now.nanos as i128,
    );
    if ignore_expired && has_expired {
        return None;
    }
    let (since_secs, since_nanos): (i128, i128) = if now.nanos >= 1_000_000_000 {
        (now.secs as i128 + 1 - 86_400, now.nanos as i128 - 1_000_000_000)
    } else {
        (now.secs as i128 - 86_400, now.nanos as i128)
    };
    let recent = !before(now.secs as i128, now.nanos as i128, not_before.secs as i128, not_before.nanos as i128)
        && !before(not_before.secs as i128, not_before.nanos as i128, since_secs, since_nanos);
    if !recent && recent_only {
        return None;
    }
    Some(CertificateStatus { expired: has_expired, recent })
}

/// The names a certificate lists: one per line, each without a leading "*.".
pub open spec fn item_names(name_value: Seq<char>) -> Seq<Seq<char>> {
    split_on(name_value, '\n').map_values(|n: Seq<char>| strip_wildcard(n))
}

/// The names of `name_value`, each without a leading "*.", as the lines of the crt.sh answer
/// give them.
pub fn names_of(name_value: &String) -> (names: Vec<String>)
    ensures
        views(names@) == item_names(name_value@),
{
    let parts = split_char(name_value.as_str(), '\n');
    let mut names: Vec<String> = Vec::new();
    let n = parts.len();
    let mut i: usize = 0;
    while i < n
        invariant
            n == parts@.len(),
            i <= n,
            views(parts@) == split_on(name_value@, '\n'),
            names@.len() == i,
            forall|j: int| 0 <= j < i ==> #[trigger] names@[j]@ == strip_wildcard(parts@[j]@),
        decreases n - i,
    {
        names.push(strip_wildcard_prefix(parts[i].as_str()));
        i = i + 1;
    }
    assert(views(names@) =~= item_names(name_value@));
    names
}

/// The first name a certificate lists, without a leading "*.".
pub open spec fn first_name(name_value: Seq<char>) -> Seq<char> {
    strip_wildcard(split_on(name_value, '\n')[0])
}

/// The first name of `name_value`, without a leading "*.".
pub fn first_name_of(name_value: &String) -> (name: String)
    ensures
        name@ == first_name(name_value@),
{
    let parts = split_char(name_value.as_str(), '\n');
    proof {
        crate::text::lemma_split_nonempty(name_value@, '\n');
    }
    strip_wildcard_prefix(parts[0].as_str())
}

} // verus!
