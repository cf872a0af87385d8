use vstd::prelude::*;

verus! {

/// Whether a cache record written at `written_at_ms` is still valid at
/// `now_ms` under the given lifetime. The record's age is measured from its
/// last successful write; it expires strictly after the lifetime has elapsed.
pub open spec fn record_valid_at(written_at_ms: int, now_ms: int, lifetime_ms: int) -> bool {
    now_ms - written_at_ms <= lifetime_ms
}

/// One on-disk cache entry for a satellite group: the element sets from the
/// last successful fetch, and the time they were written.
pub struct CacheRecord {
    /// When the record was last written, in milliseconds since the Unix epoch.
    pub written_at_ms: i64,
    /// The element sets fetched at that time.
    pub elements: Vec<sgp4::Elements>,
}

impl CacheRecord {
    /// Whether this record is still valid at `now_ms` for the given lifetime.
    pub fn is_valid(&self, now_ms: i64, lifetime_ms: i64) -> (r: bool)
        ensures
            r == record_valid_at(self.written_at_ms as int, now_ms as int, lifetime_ms as int),
    {
        let age: i128 = now_ms as i128 - self.written_at_ms as i128;
        age <= lifetime_ms as i128
    }
}

/// Whether the group's elements must be fetched from the network: there is
/// no cache record, or the record has expired. A record that cannot be read
/// or parsed is handed in as `None`, so cache I/O failure behaves as a miss.
pub fn cache_needs_refresh(record: Option<&CacheRecord>, now_ms: i64, lifetime_ms: i64) -> (r:
    bool)
    ensures
        r == match record {
            Option::None => true,
            Option::Some(rec) => !record_valid_at(
                rec.written_at_ms as int,
                now_ms as int,
                lifetime_ms as int,
            ),
        },
{
    match record {
        None => true,
        Some(rec) => !rec.is_valid(now_ms, lifetime_ms),
    }
}

/// A record written at time `written_ms` with lifetime `lifetime_ms` is
/// still valid one second before the lifetime has elapsed, and already
/// expired one second after.
pub proof fn lemma_staleness_boundary(written_ms: int, lifetime_ms: int)
    ensures
        record_valid_at(written_ms, written_ms + lifetime_ms - 1000, lifetime_ms),
        !record_valid_at(written_ms, written_ms + lifetime_ms + 1000, lifetime_ms),
{
}

#[verifier::external_type_specification]
#[verifier::external_body]
pub struct ExSerdeJsonError(serde_json::Error);

/// What serde_json's parser makes of a text as a JSON array of element
/// sets: the parsed list, or nothing when the text is malformed. A pure
/// function of the text.
pub uninterp spec fn parse_of(json: Seq<char>) -> Option<Seq<sgp4::Elements>>;

/// What serde_json's serializer writes for an element list, or nothing when
/// serialization fails. A pure function of the list.
pub uninterp spec fn json_of(elements: Seq<sgp4::Elements>) -> Option<Seq<char>>;

/// Relies on serde_json::to_string to serialize an element list as JSON;
/// the output is a function of the list alone.
#[verifier::external_body]
fn elements_to_json(elements: &Vec<sgp4::Elements>) -> (r: Result<String, serde_json::Error>)
    ensures
        r matches Ok(json) ==> json_of(elements@) == Some(json@),
        r is Err ==> json_of(elements@) is None,
{
    serde_json::to_string(elements)
}

/// Relies on serde_json::from_str to parse a JSON array of element sets;
/// the outcome is a function of the text alone.
#[verifier::external_body]
fn elements_from_json(json: &str) -> (r: Result<Vec<sgp4::Elements>, serde_json::Error>)
    ensures
        r matches Ok(elements) ==> parse_of(json@) == Some(elements@),
        r is Err ==> parse_of(json@) is None,
{
    serde_json::from_str(json)
}

/// Serializes an element list for a cache file: the serializer's text for
/// the list, or `None` when encoding fails; the caller then skips the cache
/// write and carries on.
pub fn encode_elements(elements: &Vec<sgp4::Elements>) -> (r: Option<String>)
    ensures
        r matches Some(json) ==> json_of(elements@) == Some(json@),
        r is None <==> json_of(elements@) is None,
{
    match elements_to_json(elements) {
        Ok(json) => Some(json),
        Err(_) => None,
    }
}

/// Parses a cache file or catalog response body: the parser's element list
/// for the text, or `None` when the text is malformed. A malformed cache
/// file behaves as a miss, a malformed response as a fetch failure.
pub fn decode_elements(json: &str) -> (r: Option<Vec<sgp4::Elements>>)
    ensures
        r matches Some(elements) ==> parse_of(json@) == Some(elements@),
        r is None <==> parse_of(json@) is None,
{
    match elements_from_json(json) {
        Ok(elements) => Some(elements),
        Err(_) => None,
    }
}

} // verus!
