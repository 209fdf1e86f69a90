//! Fresh identifiers and timestamps.

use vstd::prelude::*;
use vstd::string::*;
use crate::text::{ends_with, opt_view};

verus! {

#[verifier::external_type_specification]
#[verifier::external_body]
pub struct ExSystemTime(std::time::SystemTime);

/// A lower-case hexadecimal digit.
pub open spec fn is_lower_hex(c: char) -> bool {
    ('0' <= c && c <= '9') || ('a' <= c && c <= 'f')
}

/// The hyphenated text of an RFC 9562 UUID of this version: 32 lower-case hexadecimal
/// digits in groups of 8, 4, 4, 4 and 12 separated by `-`, the version digit first in the
/// third group and the variant digit (`8` to `b`) first in the fourth.
pub open spec fn is_hyphenated_uuid(s: Seq<char>, version: char) -> bool {
    &&& s.len() == 36
    &&& forall|i: int|
        0 <= i < 36 ==> if i == 8 || i == 13 || i == 18 || i == 23 {
            #[trigger] s[i] == '-'
        } else {
            is_lower_hex(s[i])
        }
    &&& s[14] == version
    &&& (s[19] == '8' || s[19] == '9' || s[19] == 'a' || s[19] == 'b')
}

/// `uuid::Uuid::new_v4().to_string()`: a random version 4 UUID, hyphenated in lower case as
/// `uuid`'s `Display` writes it. Its value is random; only its form is stated. `uuid`'s source
/// panics when the operating system's random source fails, which no argument can rule out.
#[verifier::external_body]
fn uuid_v4_string() -> (res: String)
    ensures
        is_hyphenated_uuid(res@, '4'),
{
    uuid::Uuid::new_v4().to_string()
}

/// `uuid::Uuid::new_v7` on the Unix time `secs` and `nanos` (with no counter), hyphenated
/// in lower case. Its random bits make the value unpredictable; only its form is stated.
/// `uuid`'s source panics when the operating system's random source fails, which no
/// argument can rule out.
#[verifier::external_body]
fn uuid_v7_string_at(secs: u64, nanos: u32) -> (res: String)
    ensures
        is_hyphenated_uuid(res@, '7'),
{
    uuid::Uuid::new_v7(uuid::Timestamp::from_unix(uuid::NoContext, secs, nanos)).to_string()
}

/// `SystemTime::now()`: the system clock's current reading. Nothing is stated of it.
#[verifier::external_body]
fn system_time_now() -> std::time::SystemTime {
    std::time::SystemTime::now()
}

/// `SystemTime::duration_since(UNIX_EPOCH)`: the whole seconds and the nanoseconds since the
/// Unix epoch, or `None` when the time lies before it. The nanoseconds are below a billion.
#[verifier::external_body]
fn since_unix_epoch(t: std::time::SystemTime) -> (res: Option<(u64, u32)>)
    ensures
        res matches Some(d) ==> d.1 < 1_000_000_000,
{
    t.duration_since(std::time::UNIX_EPOCH).ok().map(|d| (d.as_secs(), d.subsec_nanos()))
}

/// What `chrono::DateTime::from_timestamp(secs, nanos)` followed by
/// `to_rfc3339_opts(SecondsFormat::AutoSi, true)` gives: the RFC 3339 text of that UTC time
/// as `chrono`'s serde writes it, or `None` when the time is out of `chrono`'s range.
pub uninterp spec fn spec_rfc3339(secs: i64, nanos: u32) -> Option<Seq<char>>;

/// `chrono::DateTime::from_timestamp(secs, nanos)` then
/// `to_rfc3339_opts(SecondsFormat::AutoSi, true)`: the RFC 3339 text of that UTC time (the
/// form `chrono`'s serde writes), or `None` when `chrono` cannot represent it. With `use_z`
/// set, the UTC offset is written `Z`. The two calls stand behind one name because the first
/// one's result, a `chrono` date, has no plain form a name could take.
#[verifier::external_body]
fn rfc3339_at(secs: i64, nanos: u32) -> (res: Option<String>)
    ensures
        opt_view(res) == spec_rfc3339(secs, nanos),
        res matches Some(t) ==> ends_with(t@, "Z"@),
{
    match chrono::DateTime::from_timestamp(secs, nanos) {
        Some(t) => Some(t.to_rfc3339_opts(chrono::SecondsFormat::AutoSi, true)),
        None => None,
    }
}

/// The text of the time `secs` seconds and `nanos` nanoseconds after the Unix epoch, when
/// the seconds fit in an `i64`.
pub open spec fn spec_timestamp_at(secs: u64, nanos: u32) -> Option<Seq<char>> {
    if secs <= i64::MAX as u64 {
        spec_rfc3339(secs as i64, nanos)
    } else {
        None
    }
}

/// The RFC 3339 text in UTC (ending in `Z`) of a clock reading: `secs` seconds and `nanos`
/// nanoseconds after the Unix epoch; `None` when `chrono` cannot represent that time.
pub fn timestamp_at(secs: u64, nanos: u32) -> (res: Option<String>)
    ensures
        opt_view(res) == spec_timestamp_at(secs, nanos),
        res matches Some(t) ==> ends_with(t@, "Z"@),
{
    if secs <= i64::MAX as u64 {
        rfc3339_at(secs as i64, nanos)
    } else {
        None
    }
}

/// A fresh identifier: a random version 4 UUID, hyphenated.
pub fn new_id() -> (res: String)
    ensures
        is_hyphenated_uuid(res@, '4'),
{
    uuid_v4_string()
}

/// The current time as RFC 3339 text in UTC (ending in `Z`): [`timestamp_at`] of the system
/// clock's reading; `None` when the clock reads before 1970 or beyond what `chrono` can
/// represent.
pub fn now_timestamp() -> (res: Option<String>)
    ensures
        res is None || exists|secs: u64, nanos: u32|
            nanos < 1_000_000_000 && opt_view(res) == #[trigger] spec_timestamp_at(secs, nanos),
        res matches Some(t) ==> ends_with(t@, "Z"@),
{
    match since_unix_epoch(system_time_now()) {
        Some((secs, nanos)) => {
            let r = timestamp_at(secs, nanos);
            assert(opt_view(r) == spec_timestamp_at(secs, nanos));
            r
        },
        None => None,
    }
}

/// The session id a STDIO server announces: the one given through the environment, or a
/// fresh version 7 UUID of the current time; `None` when a fresh one is needed and the system
/// clock reads before 1970.
pub fn session_id(from_env: Option<String>) -> (res: Option<String>)
    ensures
        from_env matches Some(s) ==> res == Some(s),
        from_env is None ==> (res matches Some(s) ==> is_hyphenated_uuid(s@, '7')),
{
    match from_env {
        Some(s) => Some(s),
        None => match since_unix_epoch(system_time_now()) {
            Some((secs, nanos)) => Some(uuid_v7_string_at(secs, nanos)),
            None => None,
        },
    }
}

} // verus!
