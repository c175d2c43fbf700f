//! Where pipeline checkpoints are kept.
use vstd::prelude::*;
use crate::config::{get_property, lookup};
use crate::dlq::{entry_views, json_string, json_string_literal, lemma_normalized_value, normalized,
    entry_value, last_value};
use crate::error::PipelineError;
use crate::text::{all_digits, chars_of, decimal, decimal_chars, digit_char, digit_value, digits_value,
    is_digit, join, join_chars, parse_u64, parse_unsigned, pieces_view, push_chars, push_str,
    string_from_chars};
use crate::timestamp::{chrono_accepts, four_digit_year, instant_read_back, serde_timestamp_of,
    rfc3339_parse_of, UtcTimestamp};
use crate::types::Checkpoint;

verus! {

/// Keeps checkpoints under a prefix of object storage.
pub struct CheckpointManager {
    prefix: String,
}

/// The object path of the checkpoint of `pipeline_id` under `prefix`.
pub open spec fn checkpoint_path(prefix: Seq<char>, pipeline_id: Seq<char>) -> Seq<char> {
    prefix + "/"@ + pipeline_id + "/cursor.json"@
}

impl CheckpointManager {
    /// A manager for checkpoints under `prefix`.
    pub fn new(prefix: String) -> (r: CheckpointManager)
        ensures
            r.prefix() == prefix@,
    {
        CheckpointManager { prefix }
    }

    pub closed spec fn prefix(&self) -> Seq<char> {
        self.prefix@
    }

    /// The object path of the checkpoint of `pipeline_id`.
    pub fn path_for(&self, pipeline_id: &str) -> (r: String)
        ensures
            r@ == checkpoint_path(self.prefix(), pipeline_id@),
    {
        let mut v = chars_of(self.prefix.as_str());
        push_str(&mut v, "/");
        push_str(&mut v, pipeline_id);
        push_str(&mut v, "/cursor.json");
        string_from_chars(&v)
    }

    /// What persisting `checkpoint` writes: its object path and its JSON
    /// (see `checkpoint_json`). Rendering a checkpoint does not fail.
    pub fn save(&self, checkpoint: &Checkpoint) -> (r: Result<CheckpointWrite, PipelineError>)
        ensures
            r matches Ok(w) && w.path@ == checkpoint_path(self.prefix(), checkpoint.pipeline_id@)
                && w.content@ == checkpoint_json(*checkpoint),
    {
        let path = self.path_for(checkpoint.pipeline_id.as_str());
        let ts = checkpoint.timestamp.to_serde_text();
        let p0 = member_piece("pipeline_id", &chars_of(json_string(checkpoint.pipeline_id.as_str()).as_str()));
        let p1 = member_piece("offset", &chars_of(json_string(checkpoint.offset.as_str()).as_str()));
        let p2 = member_piece("timestamp", &chars_of(json_string(ts.as_str()).as_str()));
        let p3 = member_piece("records_since_last", &decimal_chars(checkpoint.records_since_last));
        let ghost pieces = seq![p0@, p1@, p2@, p3@];
        let mut parts: Vec<Vec<char>> = Vec::new();
        parts.push(p0);
        parts.push(p1);
        parts.push(p2);
        parts.push(p3);
        assert(pieces_view(parts@) =~= pieces);
        assert(checkpoint_members(*checkpoint).map_values(|e: (Seq<char>, Seq<char>)| pretty_member(e))
            =~= pieces);
        let mut v = chars_of("{\n");
        push_chars(&mut v, &join_chars(&parts, ",\n"));
        push_str(&mut v, "\n}");
        Ok(CheckpointWrite { path, content: string_from_chars(&v) })
    }

    /// The checkpoint of `pipeline_id` for resumption, given what its object
    /// holds (`None` where there is none): no checkpoint for a fresh start;
    /// the checkpoint the text describes (see `checkpoint_fields`); a
    /// deserialization error naming the object's path where the text
    /// describes none.
    pub fn load(&self, pipeline_id: &str, stored: Option<String>) -> (r: Result<
        Option<Checkpoint>,
        PipelineError,
    >)
        ensures
            match stored {
                None => r matches Ok(None),
                Some(t) => match checkpoint_fields(t@) {
                    Some((id, offset, secs, nanos, records)) => r matches Ok(Some(c)) && c.pipeline_id@
                        == id && c.offset@ == offset && c.timestamp.seconds() == secs
                        && c.timestamp.subsec_nanos() == nanos && c.records_since_last == records,
                    None => r matches Err(PipelineError::Deserialization { message }) && message@
                        == "Invalid checkpoint at '"@ + checkpoint_path(self.prefix(), pipeline_id@)
                        + "'"@,
                },
            },
            stored matches Some(t) ==> forall|c0: Checkpoint|
                #[trigger] written_as(c0, t@) ==> (r matches Ok(Some(c)) && checkpoint_view(c)
                    == checkpoint_view(c0)),
    {
        let text = match stored {
            None => {
                return Ok(None);
            },
            Some(t) => t,
        };
        let parsed = read_checkpoint(text.as_str());
        match parsed {
            Some(c) => Ok(Some(c)),
            None => {
                let mut m = chars_of("Invalid checkpoint at '");
                push_str(&mut m, self.path_for(pipeline_id).as_str());
                push_str(&mut m, "'");
                Err(PipelineError::Deserialization { message: string_from_chars(&m) })
            },
        }
    }
}

/// The error where the object of a checkpoint at `path` cannot be written
/// or read; `detail` is the store's complaint.
pub fn checkpoint_failure(path: &str, detail: &str) -> (e: PipelineError)
    ensures
        e matches PipelineError::CheckpointFailed { message } && message@ == "Checkpoint object '"@
            + path@ + "': "@ + detail@,
{
    let mut m = chars_of("Checkpoint object '");
    push_str(&mut m, path);
    push_str(&mut m, "': ");
    push_str(&mut m, detail);
    PipelineError::CheckpointFailed { message: string_from_chars(&m) }
}

/// What persisting a checkpoint writes.
pub struct CheckpointWrite {
    pub path: String,
    pub content: String,
}

/// How serde writes a member of an object pretty-printed: indented, the
/// key's string literal, `": "`, and the value's JSON text.
pub open spec fn pretty_member(e: (Seq<char>, Seq<char>)) -> Seq<char> {
    "  "@ + json_string_literal(e.0) + ": "@ + e.1
}

/// How serde writes an object with the members `p` (at least one)
/// pretty-printed: one member per line between braces.
pub open spec fn pretty_object(p: Seq<(Seq<char>, Seq<char>)>) -> Seq<char> {
    "{\n"@ + join(p.map_values(|e: (Seq<char>, Seq<char>)| pretty_member(e)), ",\n"@) + "\n}"@
}

/// The members of a checkpoint's JSON: its fields in declaration order, each
/// value as its JSON text, the timestamp in RFC 3339.
pub open spec fn checkpoint_members(c: Checkpoint) -> Seq<(Seq<char>, Seq<char>)> {
    seq![
        ("pipeline_id"@, json_string_literal(c.pipeline_id@)),
        ("offset"@, json_string_literal(c.offset@)),
        ("timestamp"@, json_string_literal(serde_timestamp_of(c.timestamp.seconds(), c.timestamp.subsec_nanos()))),
        ("records_since_last"@, decimal(c.records_since_last as nat)),
    ]
}

/// The JSON of a checkpoint as serde writes it pretty-printed.
pub open spec fn checkpoint_json(c: Checkpoint) -> Seq<char> {
    pretty_object(checkpoint_members(c))
}

/// The fields of a checkpoint: pipeline id, offset, seconds, nanoseconds and
/// records since the last checkpoint.
pub open spec fn checkpoint_view(c: Checkpoint) -> (Seq<char>, Seq<char>, i64, u32, u64) {
    (c.pipeline_id@, c.offset@, c.timestamp.seconds(), c.timestamp.subsec_nanos(), c.records_since_last)
}

/// Whether the JSON of `c` reads back as `c`: its timestamp is an instant
/// chrono represents, of a four-digit year, and not a leap second.
pub open spec fn round_trips(c: Checkpoint) -> bool {
    &&& chrono_accepts(c.timestamp.seconds(), c.timestamp.subsec_nanos())
    &&& four_digit_year(c.timestamp.seconds())
    &&& c.timestamp.subsec_nanos() < 1_000_000_000
}

/// A piece of an object as `pretty_member` writes it.
fn member_piece(key: &str, value: &Vec<char>) -> (r: Vec<char>)
    ensures
        r@ == pretty_member((key@, value@)),
{
    let mut v = chars_of("  ");
    push_str(&mut v, json_string(key).as_str());
    push_str(&mut v, ": ");
    push_chars(&mut v, value);
    v
}

/// Whether `v` is JSON text that serde writes back unchanged once read: a
/// string literal, or an unsigned 64-bit integer in decimal.
pub open spec fn canonical_json_value(v: Seq<char>) -> bool {
    ||| exists|x: Seq<char>| v == #[trigger] json_string_literal(x)
    ||| exists|n: nat| n <= u64::MAX && v == #[trigger] decimal(n)
}

/// Whether `r` is what reading `text` as an object gives, where `text` is the
/// pretty-printed object of members whose values are canonical: those members
/// as a map holds them (see `normalized`).
pub open spec fn object_read_back(text: Seq<char>, r: Option<Vec<(String, String)>>) -> bool {
    forall|p: Seq<(Seq<char>, Seq<char>)>|
        #[trigger] pretty_object(p) == text && p.len() > 0 && (forall|i: int|
            0 <= i < p.len() ==> canonical_json_value(#[trigger] p[i].1)) ==> (r matches Some(v)
            && entry_views(v@) == normalized(p))
}

/// The members of the JSON object that `text` is, each value as its compact
/// JSON text, keys in ascending order (a `serde_json::Map`); `None` where
/// `text` is not a JSON object.
pub uninterp spec fn json_object_of(text: Seq<char>) -> Option<Seq<(Seq<char>, Seq<char>)>>;

/// The string that the JSON text `text` is; `None` where it is not one.
pub uninterp spec fn json_string_of(text: Seq<char>) -> Option<Seq<char>>;

/// `serde_json::from_str::<Map<String, Value>>(text)`, each value rendered
/// compactly with `to_string`. The map is a `BTreeMap`: its members come in
/// ascending key order, and a later member of a key replaces an earlier one.
/// It reads back what serde writes pretty-printed (see `object_read_back`).
#[verifier::external_body]
fn parse_json_object(text: &str) -> (r: Option<Vec<(String, String)>>)
    ensures
        match json_object_of(text@) {
            Some(f) => r matches Some(v) && v@.map_values(|e: (String, String)| (e.0@, e.1@)) == f,
            None => r is None,
        },
        object_read_back(text@, r),
{
    serde_json::from_str::<serde_json::Map<String, serde_json::Value>>(text).ok().map(
        |m| m.into_iter().map(|(k, v)| (k, v.to_string())).collect(),
    )
}

/// Whether `r` is what reading `text` as a string gives, where `text` is the
/// literal that serde writes for a string: that string.
pub open spec fn string_read_back(text: Seq<char>, r: Option<String>) -> bool {
    forall|x: Seq<char>| #[trigger] json_string_literal(x) == text ==> (r matches Some(v) && v@ == x)
}

/// `serde_json::from_str::<String>(text)`, which reads back the string of
/// a literal that serde writes.
#[verifier::external_body]
fn parse_json_string(text: &str) -> (r: Option<String>)
    ensures
        match json_string_of(text@) {
            Some(s) => r matches Some(v) && v@ == s,
            None => r is None,
        },
        string_read_back(text@, r),
{
    serde_json::from_str::<String>(text).ok()
}

/// The value under `key` among the members `f` (the first so named).
pub open spec fn member(f: Seq<(Seq<char>, Seq<char>)>, key: Seq<char>) -> Option<Seq<char>>
    decreases f.len(),
{
    if f.len() == 0 {
        None
    } else if f[0].0 == key {
        Some(f[0].1)
    } else {
        member(f.drop_first(), key)
    }
}

proof fn lemma_lookup_member(v: Seq<(String, String)>, key: Seq<char>)
    ensures
        lookup(v, key) == member(v.map_values(|e: (String, String)| (e.0@, e.1@)), key),
    decreases v.len(),
{
    let m = v.map_values(|e: (String, String)| (e.0@, e.1@));
    if v.len() > 0 {
        assert(m.drop_first() =~= v.drop_first().map_values(|e: (String, String)| (e.0@, e.1@)));
        lemma_lookup_member(v.drop_first(), key);
    }
}

/// The fields (pipeline id, offset, seconds, nanoseconds, records since the
/// last checkpoint) that the checkpoint JSON `text` describes: a JSON object
/// whose `pipeline_id`, `offset` and `timestamp` are strings, the timestamp
/// in RFC 3339, and whose `records_since_last` is an unsigned 64-bit integer.
pub open spec fn checkpoint_fields(text: Seq<char>) -> Option<(Seq<char>, Seq<char>, i64, u32, u64)> {
    match json_object_of(text) {
        None => None,
        Some(f) => match (member(f, "pipeline_id"@), member(f, "offset"@), member(f, "timestamp"@), member(f, "records_since_last"@)) {
            (Some(a), Some(b), Some(c), Some(d)) => match (
                json_string_of(a),
                json_string_of(b),
                json_string_of(c),
                parse_unsigned(d, u64::MAX as nat),
            ) {
                (Some(id), Some(offset), Some(ts), Some(records)) => match rfc3339_parse_of(ts) {
                    Some((secs, nanos)) => Some((id, offset, secs, nanos, records as u64)),
                    None => None,
                },
                _ => None,
            },
            _ => None,
        },
    }
}

proof fn lemma_member_is_entry_value(f: Seq<(Seq<char>, Seq<char>)>, key: Seq<char>)
    ensures
        member(f, key) == entry_value(f, key),
    decreases f.len(),
{
    if f.len() > 0 {
        lemma_member_is_entry_value(f.drop_first(), key);
    }
}

/// The decimal text of an integer of `u64` parses back as it.
pub proof fn lemma_decimal_parses(n: nat)
    requires
        n <= u64::MAX,
    ensures
        parse_unsigned(decimal(n), u64::MAX as nat) == Some(n),
{
    lemma_decimal_digits(n);
}

proof fn lemma_decimal_digits(n: nat)
    ensures
        decimal(n).len() > 0,
        all_digits(decimal(n)),
        digits_value(decimal(n)) == n,
    decreases n,
{
    let d = n % 10;
    assert(is_digit(digit_char(d)) && digit_value(digit_char(d)) == d) by {
        assert(0 <= d < 10);
    }
    if n >= 10 {
        lemma_decimal_digits(n / 10);
        let s = decimal(n);
        assert(s.drop_last() =~= decimal(n / 10));
        assert(s.last() == digit_char(d));
        assert(digits_value(s) == digits_value(s.drop_last()) * 10 + digit_value(s.last()));
        assert(digits_value(s.drop_last()) == n / 10);
        assert((n / 10) * 10 + d == n);
        assert forall|i: int| 0 <= i < s.len() implies is_digit(#[trigger] s[i]) by {
            if i < s.len() - 1 {
                assert(s[i] == decimal(n / 10)[i]);
            }
        }
    } else {
        let s = decimal(n);
        assert(d == n);
        assert(s.drop_last() =~= Seq::<char>::empty());
        assert(digits_value(s) == digits_value(s.drop_last()) * 10 + digit_value(s.last()));
    }
}

/// The members of a checkpoint's JSON have canonical values, and as a map
/// holds them each key has its value.
proof fn lemma_checkpoint_members(c: Checkpoint)
    ensures
        checkpoint_members(c).len() == 4,
        forall|i: int|
            0 <= i < checkpoint_members(c).len() ==> canonical_json_value(
                #[trigger] checkpoint_members(c)[i].1,
            ),
        member(normalized(checkpoint_members(c)), "pipeline_id"@) == Some(
            json_string_literal(c.pipeline_id@),
        ),
        member(normalized(checkpoint_members(c)), "offset"@) == Some(json_string_literal(c.offset@)),
        member(normalized(checkpoint_members(c)), "timestamp"@) == Some(
            json_string_literal(serde_timestamp_of(c.timestamp.seconds(), c.timestamp.subsec_nanos())),
        ),
        member(normalized(checkpoint_members(c)), "records_since_last"@) == Some(
            decimal(c.records_since_last as nat),
        ),
{
    let m = checkpoint_members(c);
    assert(m[0].1 == json_string_literal(c.pipeline_id@));
    assert(m[1].1 == json_string_literal(c.offset@));
    assert(m[2].1 == json_string_literal(
        serde_timestamp_of(c.timestamp.seconds(), c.timestamp.subsec_nanos()),
    ));
    assert(m[3].1 == decimal(c.records_since_last as nat));
    reveal_strlit("pipeline_id");
    reveal_strlit("offset");
    reveal_strlit("timestamp");
    reveal_strlit("records_since_last");
    let m3 = m.drop_last();
    let m2 = m3.drop_last();
    let m1 = m2.drop_last();
    assert(m3.last() == m[2] && m2.last() == m[1] && m1.last() == m[0] && m1.len() == 1);
    assert(m1.drop_last().len() == 0);
    let keys = seq!["pipeline_id"@, "offset"@, "timestamp"@, "records_since_last"@];
    assert forall|k: Seq<char>| #[trigger] keys.contains(k) implies last_value(m, k) == (if k
        == "records_since_last"@ {
        Some(m[3].1)
    } else {
        last_value(m3, k)
    }) && last_value(m3, k) == (if k == "timestamp"@ {
        Some(m[2].1)
    } else {
        last_value(m2, k)
    }) && last_value(m2, k) == (if k == "offset"@ {
        Some(m[1].1)
    } else {
        last_value(m1, k)
    }) && last_value(m1, k) == (if k == "pipeline_id"@ {
        Some(m[0].1)
    } else {
        last_value(m1.drop_last(), k)
    }) by {}
    assert(keys.contains("pipeline_id"@) && keys[0] == "pipeline_id"@);
    assert(keys.contains("offset"@) && keys[1] == "offset"@);
    assert(keys.contains("timestamp"@) && keys[2] == "timestamp"@);
    assert(keys.contains("records_since_last"@) && keys[3] == "records_since_last"@);
    assert("offset"@.len() == 6 && "timestamp"@.len() == 9 && "pipeline_id"@.len() == 11
        && "records_since_last"@.len() == 18);
    assert("offset"@ != "timestamp"@ && "offset"@ != "records_since_last"@);
    assert("pipeline_id"@ != "offset"@ && "pipeline_id"@ != "timestamp"@ && "pipeline_id"@
        != "records_since_last"@);
    assert(last_value(m, "offset"@) == Some(m[1].1));
    assert(last_value(m, "pipeline_id"@) == Some(m[0].1));
    let n = normalized(m);
    lemma_member_is_entry_value(n, "pipeline_id"@);
    lemma_member_is_entry_value(n, "offset"@);
    lemma_member_is_entry_value(n, "timestamp"@);
    lemma_member_is_entry_value(n, "records_since_last"@);
    lemma_normalized_value(m, "pipeline_id"@);
    lemma_normalized_value(m, "offset"@);
    lemma_normalized_value(m, "timestamp"@);
    lemma_normalized_value(m, "records_since_last"@);
}

/// Whether `c` is a checkpoint whose JSON is `text` and reads back as `c`.
pub open spec fn written_as(c: Checkpoint, text: Seq<char>) -> bool {
    checkpoint_json(c) == text && round_trips(c)
}

/// The checkpoint that the JSON `text` describes (see `checkpoint_fields`):
/// the JSON that `save` writes for a checkpoint reads back as it.
fn read_checkpoint(text: &str) -> (r: Option<Checkpoint>)
    ensures
        match checkpoint_fields(text@) {
            Some(f) => r matches Some(c) && checkpoint_view(c) == f,
            None => r is None,
        },
        forall|c0: Checkpoint|
            #[trigger] written_as(c0, text@) ==> (r matches Some(c) && checkpoint_view(c)
                == checkpoint_view(c0)),
{
    let fields = match parse_json_object(text) {
        Some(f) => f,
        None => {
            proof {
                assert forall|c0: Checkpoint| #[trigger] written_as(c0, text@) implies false by {
                    lemma_checkpoint_members(c0);
                    assert(pretty_object(checkpoint_members(c0)) == text@);
                }
            }
            return None;
        },
    };
    let ghost fv = fields@.map_values(|e: (String, String)| (e.0@, e.1@));
    proof {
        assert(entry_views(fields@) =~= fv);
        lemma_lookup_member(fields@, "pipeline_id"@);
        lemma_lookup_member(fields@, "offset"@);
        lemma_lookup_member(fields@, "timestamp"@);
        lemma_lookup_member(fields@, "records_since_last"@);
        assert forall|c0: Checkpoint| #[trigger] written_as(c0, text@) implies fv == normalized(
            checkpoint_members(c0),
        ) by {
            lemma_checkpoint_members(c0);
            assert(pretty_object(checkpoint_members(c0)) == text@);
        }
    }
    let (a, b, c, d) = match (
        get_property(&fields, "pipeline_id"),
        get_property(&fields, "offset"),
        get_property(&fields, "timestamp"),
        get_property(&fields, "records_since_last"),
    ) {
        (Some(a), Some(b), Some(c), Some(d)) => (a, b, c, d),
        _ => {
            proof {
                assert forall|c0: Checkpoint| #[trigger] written_as(c0, text@) implies false by {
                    lemma_checkpoint_members(c0);
                }
            }
            return None;
        },
    };
    proof {
        assert forall|c0: Checkpoint| #[trigger] written_as(c0, text@) implies {
            &&& a@ == json_string_literal(c0.pipeline_id@)
            &&& b@ == json_string_literal(c0.offset@)
            &&& c@ == json_string_literal(
                serde_timestamp_of(c0.timestamp.seconds(), c0.timestamp.subsec_nanos()),
            )
            &&& d@ == decimal(c0.records_since_last as nat)
        } by {
            lemma_checkpoint_members(c0);
        }
    }
    let (id, offset, ts, records) = match (
        parse_json_string(a.as_str()),
        parse_json_string(b.as_str()),
        parse_json_string(c.as_str()),
        parse_u64(d.as_str()),
    ) {
        (Some(id), Some(offset), Some(ts), Some(records)) => (id, offset, ts, records),
        _ => {
            proof {
                assert forall|c0: Checkpoint| #[trigger] written_as(c0, text@) implies false by {
                    lemma_decimal_parses(c0.records_since_last as nat);
                }
            }
            return None;
        },
    };
    proof {
        assert forall|c0: Checkpoint| #[trigger] written_as(c0, text@) implies {
            &&& id@ == c0.pipeline_id@
            &&& offset@ == c0.offset@
            &&& ts@ == serde_timestamp_of(c0.timestamp.seconds(), c0.timestamp.subsec_nanos())
            &&& records == c0.records_since_last
        } by {
            lemma_decimal_parses(c0.records_since_last as nat);
        }
    }
    match UtcTimestamp::parse_rfc3339(ts.as_str()) {
        Some(t) => Some(Checkpoint { pipeline_id: id, offset, timestamp: t, records_since_last: records }),
        None => {
            proof {
                assert forall|c0: Checkpoint| #[trigger] written_as(c0, text@) implies false by {
                    assert(serde_timestamp_of(c0.timestamp.seconds(), c0.timestamp.subsec_nanos()) == ts@);
                }
            }
            None
        },
    }
}

} // verus!
