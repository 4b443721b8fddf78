//! The clock and random identifiers: values that depend on time or chance.
use vstd::prelude::*;

verus! {

/// chrono `Utc::now().to_rfc3339()`: the current time; nothing is promised
/// of its value.
#[verifier::external_body]
pub(crate) fn now_rfc3339() -> (s: String)
{
    chrono::Utc::now().to_rfc3339()
}

/// The instant an RFC 3339 timestamp denotes, in nanoseconds since the Unix
/// epoch, as chrono's `DateTime::parse_from_rfc3339` reads it; `None` when
/// the text does not parse. A function of the text alone.
pub uninterp spec fn rfc3339_epoch_nanos(s: Seq<char>) -> Option<int>;

/// chrono `DateTime::parse_from_rfc3339` and `Utc::now()`: the whole seconds
/// elapsed since the timestamp (`num_seconds` of the difference), `None`
/// exactly when the timestamp does not parse. The number depends on the
/// clock; nothing more is promised of it.
#[verifier::external_body]
pub(crate) fn age_secs(timestamp: &str) -> (r: Option<i64>)
    ensures
        r is None <==> rfc3339_epoch_nanos(timestamp@) is None,
{
    match chrono::DateTime::parse_from_rfc3339(timestamp) {
        Ok(t) => Some((chrono::Utc::now() - t.with_timezone(&chrono::Utc)).num_seconds()),
        Err(_) => None,
    }
}

/// The current time in milliseconds since the Unix epoch (0 if the clock is
/// before it); nothing is promised of its value.
#[verifier::external_body]
pub(crate) fn clock_ms() -> (r: u64)
{
    match std::time::SystemTime::now().duration_since(std::time::UNIX_EPOCH) {
        Ok(d) => d.as_millis() as u64,
        Err(_) => 0,
    }
}

/// Lower-case hexadecimal digit.
pub open spec fn is_lower_hex(c: char) -> bool {
    ('0' <= c && c <= '9') || ('a' <= c && c <= 'f')
}

/// uuid `Uuid::new_v4()` in its simple form (`to_string` without hyphens):
/// 32 lower-case hex digits, random.
#[verifier::external_body]
pub(crate) fn uuid_v4_simple() -> (s: String)
    ensures
        s@.len() == 32,
        forall|i: int| 0 <= i < 32 ==> is_lower_hex(#[trigger] s@[i]),
{
    uuid::Uuid::new_v4().simple().to_string()
}

/// A new random identifier: `prefix` followed by 12 lower-case hex digits
/// (the start of a random UUID).
pub fn random_id(prefix: &str) -> (id: String)
    ensures
        id@.len() == prefix@.len() + 12,
        id@.take(prefix@.len() as int) == prefix@,
        forall|i: int| prefix@.len() <= i < id@.len() ==> is_lower_hex(#[trigger] id@[i]),
{
    let u = uuid_v4_simple();
    let cs = crate::text::chars_of(u.as_str());
    let mut id = String::from_str(prefix);
    let mut i: usize = 0;
    while i < 12
        invariant
            i <= 12,
            cs@ == u@,
            u@.len() == 32,
            forall|k: int| 0 <= k < 32 ==> is_lower_hex(#[trigger] u@[k]),
            id@ == prefix@ + u@.take(i as int),
        decreases 12 - i,
    {
        crate::text::push_char(&mut id, cs[i]);
        assert(u@.take(i + 1) =~= u@.take(i as int).push(u@[i as int]));
        i += 1;
    }
    assert(id@.take(prefix@.len() as int) =~= prefix@);
    assert forall|k: int| prefix@.len() <= k < id@.len() implies is_lower_hex(#[trigger] id@[k]) by {
        assert(id@[k] == u@[k - prefix@.len()]);
    }
    id
}

} // verus!
