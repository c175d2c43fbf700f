//! The dead letter queue: failed records gathered into batches that are
//! written as NDJSON files under date- and pipeline-partitioned paths.
use vstd::prelude::*;
use crate::error::{is_config_error, is_connection_failure, is_sink_failure, PipelineError};
use crate::text::{
    chars_of, concat2, copy_string, has_prefix, join, join_chars, pieces_view, push_chars, push_str,
    starts_with, string_from_chars, suffix_from,
};
use crate::timestamp::{date_path_of, rfc3339_of, UtcTimestamp};

verus! {

// ───────────────────────────── configuration ─────────────────────────────

/// Compression options for DLQ files.
#[derive(Debug, Clone, Copy, PartialEq, Eq, Structural)]
pub enum DlqCompression {
    NoCompression,
    Gzip,
    Snappy,
}

/// Configuration for dead letter queue storage.
pub struct DlqConfig {
    /// Object storage URI (e.g. "s3://bucket-name/dlq/").
    pub storage_uri: String,
    /// Optional prefix for DLQ objects.
    pub prefix: Option<String>,
    /// Size in bytes at which a batch is written.
    pub max_file_size_bytes: usize,
    /// Number of records at which a batch is written.
    pub max_records_per_file: usize,
    /// Compression format for DLQ files.
    pub compression: DlqCompression,
}

impl Default for DlqConfig {
    fn default() -> (r: Self)
        ensures
            r.storage_uri@ == "s3://default-dlq-bucket/"@,
            r.prefix matches Some(p) && p@ == "dlq"@,
            r.max_file_size_bytes == 100 * 1024 * 1024,
            r.max_records_per_file == 10000,
            r.compression == DlqCompression::NoCompression,
    {
        DlqConfig {
            storage_uri: string_from_chars(&chars_of("s3://default-dlq-bucket/")),
            prefix: Some(string_from_chars(&chars_of("dlq"))),
            max_file_size_bytes: 100 * 1024 * 1024,
            max_records_per_file: 10000,
            compression: DlqCompression::NoCompression,
        }
    }
}

/// Categories of errors that send records to the DLQ.
#[derive(Debug, Clone, Copy, PartialEq, Eq, Structural)]
pub enum DlqErrorCategory {
    SchemaValidation,
    TransformationError,
    SinkError,
    SourceParsingError,
    NetworkError,
    AuthError,
    RateLimitError,
    Other,
}

/// The name of a category, as it appears in paths and records.
pub open spec fn category_name(c: DlqErrorCategory) -> Seq<char> {
    match c {
        DlqErrorCategory::SchemaValidation => "schema_validation"@,
        DlqErrorCategory::TransformationError => "transformation_error"@,
        DlqErrorCategory::SinkError => "sink_error"@,
        DlqErrorCategory::SourceParsingError => "source_parsing_error"@,
        DlqErrorCategory::NetworkError => "network_error"@,
        DlqErrorCategory::AuthError => "auth_error"@,
        DlqErrorCategory::RateLimitError => "rate_limit_error"@,
        DlqErrorCategory::Other => "other"@,
    }
}

impl DlqErrorCategory {
    /// The category's name.
    pub fn as_str(&self) -> (r: &'static str)
        ensures
            r@ == category_name(*self),
    {
        match self {
            DlqErrorCategory::SchemaValidation => "schema_validation",
            DlqErrorCategory::TransformationError => "transformation_error",
            DlqErrorCategory::SinkError => "sink_error",
            DlqErrorCategory::SourceParsingError => "source_parsing_error",
            DlqErrorCategory::NetworkError => "network_error",
            DlqErrorCategory::AuthError => "auth_error",
            DlqErrorCategory::RateLimitError => "rate_limit_error",
            DlqErrorCategory::Other => "other",
        }
    }
}

/// A failed record with its error context. `original_data` is the compact
/// JSON text of the source data; `metadata` is written as a map holds it
/// (one entry per key, the last value given, keys in ascending order).
pub struct DlqRecord {
    pub id: String,
    pub pipeline_id: String,
    pub timestamp: UtcTimestamp,
    pub error_category: DlqErrorCategory,
    pub error_message: String,
    pub original_data: String,
    pub metadata: Vec<(String, String)>,
}

// ───────────────────────────── NDJSON ─────────────────────────────

/// The lower-case hexadecimal digit of `d` (below 16).
pub open spec fn hex_digit(d: u32) -> char {
    if d < 10 {
        (('0' as u32) + d) as char
    } else {
        (('a' as u32) + d - 10) as char
    }
}

/// How a character stands inside a JSON string: `"` and `\` behind a
/// backslash, the five control characters with a short escape by it, the
/// other control characters below U+0020 as `\u00XX`, anything else as it is.
pub open spec fn json_escaped_char(c: char) -> Seq<char> {
    if c == '"' {
        seq!['\\', '"']
    } else if c == '\\' {
        seq!['\\', '\\']
    } else if c == '\u{8}' {
        seq!['\\', 'b']
    } else if c == '\t' {
        seq!['\\', 't']
    } else if c == '\n' {
        seq!['\\', 'n']
    } else if c == '\u{c}' {
        seq!['\\', 'f']
    } else if c == '\r' {
        seq!['\\', 'r']
    } else if (c as u32) < 0x20 {
        seq!['\\', 'u', '0', '0', hex_digit((c as u32) / 16), hex_digit((c as u32) % 16)]
    } else {
        seq![c]
    }
}

/// The JSON string literal of `s`: the text in quotes, each character as
/// `json_escaped_char` gives it.
pub open spec fn json_string_literal(s: Seq<char>) -> Seq<char> {
    seq!['"'] + s.map_values(|c: char| json_escaped_char(c)).flatten() + seq!['"']
}

/// `serde_json::to_string(s)`, which does not fail for a string: the string
/// literal that its escape table gives.
#[verifier::external_body]
pub(crate) fn json_string(s: &str) -> (r: String)
    ensures
        r@ == json_string_literal(s@),
{
    serde_json::to_string(s).unwrap()
}

/// The (key, value) views of metadata entries.
pub open spec fn entry_views(m: Seq<(String, String)>) -> Seq<(Seq<char>, Seq<char>)> {
    m.map_values(|e: (String, String)| (e.0@, e.1@))
}

/// Whether `a` comes before `b` in `String`'s order: the first differing
/// character decides by its code point, and a proper prefix comes first.
pub open spec fn key_lt(a: Seq<char>, b: Seq<char>) -> bool
    decreases a.len(),
{
    if a.len() == 0 {
        b.len() > 0
    } else if b.len() == 0 {
        false
    } else if a[0] != b[0] {
        (a[0] as int) < (b[0] as int)
    } else {
        key_lt(a.drop_first(), b.drop_first())
    }
}

/// The entries `m` (in ascending key order) with `e` put in its place: it
/// replaces an entry with its key, or goes before the first greater key.
pub open spec fn insert_entry(m: Seq<(Seq<char>, Seq<char>)>, e: (Seq<char>, Seq<char>)) -> Seq<
    (Seq<char>, Seq<char>),
>
    decreases m.len(),
{
    if m.len() == 0 {
        seq![e]
    } else if m[0].0 == e.0 {
        seq![e] + m.drop_first()
    } else if key_lt(e.0, m[0].0) {
        seq![e] + m
    } else {
        seq![m[0]] + insert_entry(m.drop_first(), e)
    }
}

/// The map that the entries `m` make, as a map built by inserting them in
/// order would hold it: one entry per key, the last value given for it, in
/// ascending key order.
pub open spec fn normalized(m: Seq<(Seq<char>, Seq<char>)>) -> Seq<(Seq<char>, Seq<char>)>
    decreases m.len(),
{
    if m.len() == 0 {
        Seq::empty()
    } else {
        insert_entry(normalized(m.drop_last()), m.last())
    }
}

/// Whether the keys of the entries `m` strictly ascend (so none occurs twice).
pub open spec fn keys_ascending(m: Seq<(Seq<char>, Seq<char>)>) -> bool {
    forall|i: int, j: int| 0 <= i < j < m.len() ==> key_lt(#[trigger] m[i].0, #[trigger] m[j].0)
}

pub proof fn lemma_key_lt_irreflexive(a: Seq<char>)
    ensures
        !key_lt(a, a),
    decreases a.len(),
{
    if a.len() > 0 {
        lemma_key_lt_irreflexive(a.drop_first());
    }
}

pub proof fn lemma_key_lt_transitive(a: Seq<char>, b: Seq<char>, c: Seq<char>)
    requires
        key_lt(a, b),
        key_lt(b, c),
    ensures
        key_lt(a, c),
    decreases a.len(),
{
    if a.len() > 0 && b.len() > 0 && c.len() > 0 && a[0] == b[0] && b[0] == c[0] {
        lemma_key_lt_transitive(a.drop_first(), b.drop_first(), c.drop_first());
    }
}

pub proof fn lemma_key_lt_total(a: Seq<char>, b: Seq<char>)
    requires
        a != b,
    ensures
        key_lt(a, b) || key_lt(b, a),
    decreases a.len(),
{
    if a.len() > 0 && b.len() > 0 && a[0] == b[0] {
        if a.drop_first() == b.drop_first() {
            assert(a =~= seq![a[0]] + a.drop_first());
            assert(b =~= seq![b[0]] + b.drop_first());
        }
        lemma_key_lt_total(a.drop_first(), b.drop_first());
    } else if a.len() == 0 && b.len() == 0 {
        assert(a =~= b);
    } else if a.len() > 0 && b.len() > 0 {
        assert((a[0] as int) != (b[0] as int));
    }
}

/// A key below every key of `m` and below `e`'s stays below every key once
/// `e` is put in its place.
proof fn lemma_insert_entry_above(m: Seq<(Seq<char>, Seq<char>)>, e: (Seq<char>, Seq<char>), b: Seq<char>)
    requires
        forall|j: int| 0 <= j < m.len() ==> key_lt(b, #[trigger] m[j].0),
        key_lt(b, e.0),
    ensures
        forall|j: int|
            0 <= j < insert_entry(m, e).len() ==> key_lt(b, #[trigger] insert_entry(m, e)[j].0),
    decreases m.len(),
{
    if m.len() > 0 && m[0].0 != e.0 && !key_lt(e.0, m[0].0) {
        let t = m.drop_first();
        assert forall|j: int| 0 <= j < t.len() implies key_lt(b, #[trigger] t[j].0) by {
            assert(t[j] == m[j + 1]);
        }
        lemma_insert_entry_above(t, e, b);
        let r = insert_entry(m, e);
        assert forall|j: int| 0 <= j < r.len() implies key_lt(b, #[trigger] r[j].0) by {
            if j > 0 {
                assert(r[j] == insert_entry(t, e)[j - 1]);
            }
        }
    } else if m.len() > 0 {
        let r = insert_entry(m, e);
        assert forall|j: int| 0 <= j < r.len() implies key_lt(b, #[trigger] r[j].0) by {
            if m[0].0 == e.0 {
                if j > 0 {
                    assert(r[j] == m[j]);
                }
            } else if j > 0 {
                assert(r[j] == m[j - 1]);
            }
        }
    }
}

/// Putting an entry in its place keeps the keys ascending.
pub proof fn lemma_insert_entry_ascending(m: Seq<(Seq<char>, Seq<char>)>, e: (Seq<char>, Seq<char>))
    requires
        keys_ascending(m),
    ensures
        keys_ascending(insert_entry(m, e)),
    decreases m.len(),
{
    let r = insert_entry(m, e);
    if m.len() == 0 {
    } else if m[0].0 == e.0 {
        assert forall|i: int, j: int| 0 <= i < j < r.len() implies key_lt(#[trigger] r[i].0, #[trigger] r[j].0) by {
            assert(r[j] == m[j]);
            if i > 0 {
                assert(r[i] == m[i]);
            }
        }
    } else if key_lt(e.0, m[0].0) {
        assert forall|i: int, j: int| 0 <= i < j < r.len() implies key_lt(#[trigger] r[i].0, #[trigger] r[j].0) by {
            assert(r[j] == m[j - 1]);
            if i > 0 {
                assert(r[i] == m[i - 1]);
            } else if j > 1 {
                lemma_key_lt_transitive(e.0, m[0].0, m[j - 1].0);
            }
        }
    } else {
        let t = m.drop_first();
        assert forall|i: int, j: int| 0 <= i < j < t.len() implies key_lt(#[trigger] t[i].0, #[trigger] t[j].0) by {
            assert(t[i] == m[i + 1] && t[j] == m[j + 1]);
        }
        lemma_insert_entry_ascending(t, e);
        lemma_key_lt_total(m[0].0, e.0);
        assert forall|j: int| 0 <= j < t.len() implies key_lt(m[0].0, #[trigger] t[j].0) by {
            assert(t[j] == m[j + 1]);
        }
        lemma_insert_entry_above(t, e, m[0].0);
        let it = insert_entry(t, e);
        assert forall|i: int, j: int| 0 <= i < j < r.len() implies key_lt(#[trigger] r[i].0, #[trigger] r[j].0) by {
            assert(r[j] == it[j - 1]);
            if i > 0 {
                assert(r[i] == it[i - 1]);
            }
        }
    }
}

/// The entries of a map built from `m` have ascending keys.
pub proof fn lemma_normalized_ascending(m: Seq<(Seq<char>, Seq<char>)>)
    ensures
        keys_ascending(normalized(m)),
    decreases m.len(),
{
    if m.len() > 0 {
        lemma_normalized_ascending(m.drop_last());
        lemma_insert_entry_ascending(normalized(m.drop_last()), m.last());
    }
}

/// The value of the first entry of `m` with key `k`.
pub open spec fn entry_value(m: Seq<(Seq<char>, Seq<char>)>, k: Seq<char>) -> Option<Seq<char>>
    decreases m.len(),
{
    if m.len() == 0 {
        None
    } else if m[0].0 == k {
        Some(m[0].1)
    } else {
        entry_value(m.drop_first(), k)
    }
}

/// The value of the last entry of `m` with key `k`.
pub open spec fn last_value(m: Seq<(Seq<char>, Seq<char>)>, k: Seq<char>) -> Option<Seq<char>>
    decreases m.len(),
{
    if m.len() == 0 {
        None
    } else if m.last().0 == k {
        Some(m.last().1)
    } else {
        last_value(m.drop_last(), k)
    }
}

/// Putting `e` in its place gives its key its value and leaves the others.
pub proof fn lemma_insert_entry_value(m: Seq<(Seq<char>, Seq<char>)>, e: (Seq<char>, Seq<char>), k: Seq<char>)
    ensures
        entry_value(insert_entry(m, e), k) == if k == e.0 {
            Some(e.1)
        } else {
            entry_value(m, k)
        },
    decreases m.len(),
{
    let r = insert_entry(m, e);
    if m.len() == 0 {
        assert(r[0] == e);
        assert(r.drop_first() =~= Seq::<(Seq<char>, Seq<char>)>::empty());
    } else if m[0].0 == e.0 {
        assert(r[0] == e);
        assert(r.drop_first() =~= m.drop_first());
    } else if key_lt(e.0, m[0].0) {
        assert(r[0] == e);
        assert(r.drop_first() =~= m);
    } else {
        assert(r[0] == m[0]);
        assert(r.drop_first() =~= insert_entry(m.drop_first(), e));
        lemma_insert_entry_value(m.drop_first(), e, k);
    }
}

/// In the entries of a map built from `m`, each key has the last value that
/// `m` gives it.
pub proof fn lemma_normalized_value(m: Seq<(Seq<char>, Seq<char>)>, k: Seq<char>)
    ensures
        entry_value(normalized(m), k) == last_value(m, k),
    decreases m.len(),
{
    if m.len() > 0 {
        lemma_normalized_value(m.drop_last(), k);
        lemma_insert_entry_value(normalized(m.drop_last()), m.last(), k);
    }
}

/// The JSON object of the metadata `m`: its entries as a map holds them (see
/// `normalized`).
pub open spec fn metadata_json(m: Seq<(String, String)>) -> Seq<char> {
    "{"@ + join(
        normalized(entry_views(m)).map_values(
            |e: (Seq<char>, Seq<char>)| json_string_literal(e.0) + ":"@ + json_string_literal(e.1),
        ),
        ","@,
    ) + "}"@
}

proof fn lemma_key_lt_skip(a: Seq<char>, b: Seq<char>, i: int)
    requires
        0 <= i <= a.len(),
        i <= b.len(),
        forall|j: int| 0 <= j < i ==> a[j] == b[j],
    ensures
        key_lt(a, b) == key_lt(a.subrange(i, a.len() as int), b.subrange(i, b.len() as int)),
    decreases i,
{
    if i > 0 {
        assert(a[0] == b[0]);
        lemma_key_lt_skip(a.drop_first(), b.drop_first(), i - 1);
        assert(a.drop_first().subrange(i - 1, a.len() - 1) =~= a.subrange(i, a.len() as int));
        assert(b.drop_first().subrange(i - 1, b.len() - 1) =~= b.subrange(i, b.len() as int));
    } else {
        assert(a.subrange(0, a.len() as int) =~= a);
        assert(b.subrange(0, b.len() as int) =~= b);
    }
}

/// See `key_lt`.
fn key_less(a: &Vec<char>, b: &Vec<char>) -> (r: bool)
    ensures
        r == key_lt(a@, b@),
{
    let mut i: usize = 0;
    while i < a.len() && i < b.len() && a[i] == b[i]
        invariant
            i <= a@.len(),
            i <= b@.len(),
            forall|j: int| 0 <= j < i ==> a@[j] == b@[j],
        decreases a.len() - i,
    {
        i = i + 1;
    }
    proof {
        lemma_key_lt_skip(a@, b@, i as int);
    }
    let ghost ra = a@.subrange(i as int, a@.len() as int);
    let ghost rb = b@.subrange(i as int, b@.len() as int);
    if i == a.len() {
        assert(ra.len() == 0);
        i < b.len()
    } else if i == b.len() {
        assert(rb.len() == 0);
        false
    } else {
        assert(ra[0] == a@[i as int] && rb[0] == b@[i as int]);
        a[i] < b[i]
    }
}

proof fn lemma_insert_at(m: Seq<(Seq<char>, Seq<char>)>, e: (Seq<char>, Seq<char>), i: int)
    requires
        0 <= i <= m.len(),
        forall|j: int| 0 <= j < i ==> (#[trigger] m[j]).0 != e.0 && !key_lt(e.0, m[j].0),
        i < m.len() ==> (m[i].0 == e.0 || key_lt(e.0, m[i].0)),
    ensures
        insert_entry(m, e) == if i < m.len() && m[i].0 == e.0 {
            m.update(i, e)
        } else {
            m.insert(i, e)
        },
    decreases i,
{
    if i == 0 {
        if m.len() == 0 {
            assert(m.insert(0, e) =~= seq![e]);
        } else if m[0].0 == e.0 {
            assert(m.update(0, e) =~= seq![e] + m.drop_first());
        } else {
            assert(m.insert(0, e) =~= seq![e] + m);
        }
    } else {
        let t = m.drop_first();
        assert forall|j: int| 0 <= j < i - 1 implies (#[trigger] t[j]).0 != e.0 && !key_lt(e.0, t[j].0) by {
            assert(t[j] == m[j + 1]);
        }
        lemma_insert_at(t, e, i - 1);
        assert(m[0].0 != e.0 && !key_lt(e.0, m[0].0)) by {
            assert(m[0] == m[0]);
        }
        if i < m.len() && m[i].0 == e.0 {
            assert(m.update(i, e) =~= seq![m[0]] + t.update(i - 1, e));
        } else {
            assert(m.insert(i, e) =~= seq![m[0]] + t.insert(i - 1, e));
        }
    }
}

/// Puts the entry `(k, v)` in its place among the entries `m` (see
/// `insert_entry`).
fn insert_sorted(m: &mut Vec<(String, String)>, k: String, v: String)
    ensures
        entry_views(final(m)@) == insert_entry(entry_views(old(m)@), (k@, v@)),
{
    let ghost ev = entry_views(m@);
    let kc = chars_of(k.as_str());
    let mut i: usize = 0;
    let mut found = false;
    while !found && i < m.len()
        invariant
            i <= m@.len(),
            ev == entry_views(m@),
            m@ == old(m)@,
            kc@ == k@,
            forall|j: int| 0 <= j < i ==> (#[trigger] ev[j]).0 != k@ && !key_lt(k@, ev[j].0),
            found ==> i < m@.len() && (ev[i as int].0 == k@ || key_lt(k@, ev[i as int].0)),
        decreases m.len() - i + (if found { 0int } else { 1int }),
    {
        let mc = chars_of(m[i].0.as_str());
        if crate::text::seq_eq(&mc, &kc) || key_less(&kc, &mc) {
            found = true;
        } else {
            i = i + 1;
        }
    }
    proof {
        lemma_insert_at(ev, (k@, v@), i as int);
    }
    if i < m.len() && crate::text::str_eq(m[i].0.as_str(), k.as_str()) {
        m.set(i, (k, v));
        assert(entry_views(m@) =~= ev.update(i as int, (k@, v@)));
    } else {
        m.insert(i, (k, v));
        assert(entry_views(m@) =~= ev.insert(i as int, (k@, v@)));
    }
}

/// The entries of `m` as a map holds them (see `normalized`).
pub fn normalize_metadata(m: &Vec<(String, String)>) -> (r: Vec<(String, String)>)
    ensures
        entry_views(r@) == normalized(entry_views(m@)),
{
    let mut r: Vec<(String, String)> = Vec::new();
    let mut i: usize = 0;
    while i < m.len()
        invariant
            i <= m@.len(),
            entry_views(r@) == normalized(entry_views(m@.subrange(0, i as int))),
        decreases m.len() - i,
    {
        let ghost cur = m@.subrange(0, i + 1);
        assert(entry_views(cur).drop_last() =~= entry_views(m@.subrange(0, i as int)));
        assert(entry_views(cur).last() == (m@[i as int].0@, m@[i as int].1@));
        insert_sorted(&mut r, copy_string(&m[i].0), copy_string(&m[i].1));
        i = i + 1;
    }
    assert(m@.subrange(0, m@.len() as int) =~= m@);
    r
}

/// The JSON line of a record: its fields in key order, the timestamp in
/// RFC 3339, the original data as given.
pub open spec fn record_line(r: DlqRecord) -> Seq<char> {
    "{\"error_category\":"@ + json_string_literal(category_name(r.error_category))
        + ",\"error_message\":"@ + json_string_literal(r.error_message@) + ",\"id\":"@
        + json_string_literal(r.id@) + ",\"metadata\":"@ + metadata_json(r.metadata@)
        + ",\"original_data\":"@ + r.original_data@ + ",\"pipeline_id\":"@ + json_string_literal(
        r.pipeline_id@,
    ) + ",\"timestamp\":"@ + json_string_literal(
        rfc3339_of(r.timestamp.seconds(), r.timestamp.subsec_nanos()),
    ) + "}"@
}

fn metadata_json_exec(m: &Vec<(String, String)>) -> (r: Vec<char>)
    ensures
        r@ == metadata_json(m@),
{
    let n = normalize_metadata(m);
    let ghost entries = normalized(entry_views(m@)).map_values(
        |e: (Seq<char>, Seq<char>)| json_string_literal(e.0) + ":"@ + json_string_literal(e.1),
    );
    let mut parts: Vec<Vec<char>> = Vec::new();
    let mut i: usize = 0;
    while i < n.len()
        invariant
            i <= n@.len(),
            entry_views(n@) == normalized(entry_views(m@)),
            entries == normalized(entry_views(m@)).map_values(
                |e: (Seq<char>, Seq<char>)| json_string_literal(e.0) + ":"@ + json_string_literal(e.1),
            ),
            pieces_view(parts@) == entries.subrange(0, i as int),
        decreases n.len() - i,
    {
        assert(entry_views(n@)[i as int] == (n@[i as int].0@, n@[i as int].1@));
        let mut p = chars_of(json_string(n[i].0.as_str()).as_str());
        push_str(&mut p, ":");
        push_chars(&mut p, &chars_of(json_string(n[i].1.as_str()).as_str()));
        let ghost before = pieces_view(parts@);
        parts.push(p);
        assert(pieces_view(parts@) =~= before.push(p@));
        assert(entries.subrange(0, i + 1) =~= entries.subrange(0, i as int).push(entries[i as int]));
        i = i + 1;
    }
    assert(entries.subrange(0, n@.len() as int) =~= entries);
    let mut r = chars_of("{");
    push_chars(&mut r, &join_chars(&parts, ","));
    push_str(&mut r, "}");
    r
}

/// The JSON line of a record (see `record_line`).
pub fn record_line_exec(r: &DlqRecord) -> (s: Vec<char>)
    ensures
        s@ == record_line(*r),
{
    let mut v = chars_of("{\"error_category\":");
    push_chars(&mut v, &chars_of(json_string(r.error_category.as_str()).as_str()));
    push_str(&mut v, ",\"error_message\":");
    push_chars(&mut v, &chars_of(json_string(r.error_message.as_str()).as_str()));
    push_str(&mut v, ",\"id\":");
    push_chars(&mut v, &chars_of(json_string(r.id.as_str()).as_str()));
    push_str(&mut v, ",\"metadata\":");
    push_chars(&mut v, &metadata_json_exec(&r.metadata));
    push_str(&mut v, ",\"original_data\":");
    push_str(&mut v, r.original_data.as_str());
    push_str(&mut v, ",\"pipeline_id\":");
    push_chars(&mut v, &chars_of(json_string(r.pipeline_id.as_str()).as_str()));
    push_str(&mut v, ",\"timestamp\":");
    let ts = r.timestamp.to_rfc3339();
    push_chars(&mut v, &chars_of(json_string(ts.as_str()).as_str()));
    push_str(&mut v, "}");
    v
}

/// The number of bytes that `c` takes in UTF-8 (`char::len_utf8`).
pub open spec fn char_utf8_len(c: char) -> nat {
    if (c as u32) < 0x80 {
        1
    } else if (c as u32) < 0x800 {
        2
    } else if (c as u32) < 0x10000 {
        3
    } else {
        4
    }
}

/// The number of bytes that `s` takes in UTF-8.
pub open spec fn utf8_len(s: Seq<char>) -> nat
    decreases s.len(),
{
    if s.len() == 0 {
        0
    } else {
        utf8_len(s.drop_last()) + char_utf8_len(s.last())
    }
}

pub proof fn lemma_utf8_len_bounds(s: Seq<char>)
    ensures
        s.len() <= utf8_len(s) <= 4 * s.len(),
    decreases s.len(),
{
    if s.len() > 0 {
        lemma_utf8_len_bounds(s.drop_last());
    }
}

/// The number of bytes that `s` takes in UTF-8.
pub fn utf8_len_exec(s: &Vec<char>) -> (r: usize)
    requires
        4 * s@.len() <= usize::MAX,
    ensures
        r == utf8_len(s@),
{
    let mut n: usize = 0;
    let mut i: usize = 0;
    while i < s.len()
        invariant
            i <= s@.len(),
            4 * s@.len() <= usize::MAX,
            n == utf8_len(s@.subrange(0, i as int)),
        decreases s.len() - i,
    {
        let ghost cur = s@.subrange(0, i + 1);
        assert(cur.drop_last() =~= s@.subrange(0, i as int));
        proof {
            lemma_utf8_len_bounds(s@.subrange(0, i as int));
        }
        let c = s[i] as u32;
        let w: usize = if c < 0x80 {
            1
        } else if c < 0x800 {
            2
        } else if c < 0x10000 {
            3
        } else {
            4
        };
        n = n + w;
        i = i + 1;
    }
    assert(s@.subrange(0, s@.len() as int) =~= s@);
    n
}

/// The estimated size of a record: the UTF-8 length of its JSON line.
pub open spec fn record_size(r: DlqRecord) -> nat {
    utf8_len(record_line(r))
}

/// The estimated size of a record in bytes.
pub fn estimate_record_size(record: &DlqRecord) -> (r: usize)
    requires
        4 * record_line(*record).len() <= usize::MAX,
    ensures
        r == record_size(*record),
        r > 0,
{
    let line = record_line_exec(record);
    proof {
        lemma_utf8_len_bounds(line@);
        reveal_strlit("{\"error_category\":");
    }
    utf8_len_exec(&line)
}

/// The JSON lines of `records`, in order.
pub open spec fn record_lines(records: Seq<DlqRecord>) -> Seq<Seq<char>> {
    records.map_values(|r: DlqRecord| record_line(r))
}

/// The NDJSON content of a batch: one line per record, each followed by a
/// newline.
pub open spec fn ndjson(records: Seq<DlqRecord>) -> Seq<char> {
    join(record_lines(records), "\n"@) + "\n"@
}

/// The NDJSON content of a batch (see `ndjson`).
pub fn ndjson_exec(records: &Vec<DlqRecord>) -> (r: String)
    ensures
        r@ == ndjson(records@),
{
    let ghost lines = record_lines(records@);
    let mut parts: Vec<Vec<char>> = Vec::new();
    let mut i: usize = 0;
    while i < records.len()
        invariant
            i <= records@.len(),
            lines == record_lines(records@),
            pieces_view(parts@) == lines.subrange(0, i as int),
        decreases records.len() - i,
    {
        let p = record_line_exec(&records[i]);
        let ghost before = pieces_view(parts@);
        parts.push(p);
        assert(pieces_view(parts@) =~= before.push(p@));
        assert(lines.subrange(0, i + 1) =~= lines.subrange(0, i as int).push(lines[i as int]));
        i = i + 1;
    }
    assert(lines.subrange(0, records@.len() as int) =~= lines);
    let mut v = join_chars(&parts, "\n");
    push_str(&mut v, "\n");
    string_from_chars(&v)
}

// ───────────────────────────── object paths ─────────────────────────────

/// Whether `id` has the shape of a hyphenated version 4 UUID: 36
/// characters, hyphens at 8, 13, 18 and 23, and the version digit 4.
pub open spec fn is_file_id(id: Seq<char>) -> bool {
    &&& id.len() == 36
    &&& id[8] == '-' && id[13] == '-' && id[18] == '-' && id[23] == '-'
    &&& id[14] == '4'
}

/// `Uuid::new_v4().to_string()`: a random version 4 UUID in hyphenated form.
#[verifier::external_body]
fn new_file_id() -> (r: String)
    ensures
        is_file_id(r@),
{
    uuid::Uuid::new_v4().to_string()
}

/// The object path of a batch whose first record is `first`, in file
/// `file_id`: `[prefix/]date/pipeline/category/file_id.ndjson`.
pub open spec fn batch_path(prefix: Option<String>, first: DlqRecord, file_id: Seq<char>) -> Seq<
    char,
> {
    let rest = date_path_of(first.timestamp.seconds(), first.timestamp.subsec_nanos()) + "/"@
        + first.pipeline_id@ + "/"@ + category_name(first.error_category) + "/"@ + file_id
        + ".ndjson"@;
    match prefix {
        Some(p) => p@ + "/"@ + rest,
        None => rest,
    }
}

/// The object path of a batch (see `batch_path`).
pub fn batch_path_exec(prefix: &Option<String>, first: &DlqRecord, file_id: &str) -> (r: String)
    ensures
        r@ == batch_path(*prefix, *first, file_id@),
{
    let mut v: Vec<char> = Vec::new();
    if let Some(p) = prefix {
        push_str(&mut v, p.as_str());
        push_str(&mut v, "/");
    }
    let date = first.timestamp.date_path();
    push_str(&mut v, date.as_str());
    push_str(&mut v, "/");
    push_str(&mut v, first.pipeline_id.as_str());
    push_str(&mut v, "/");
    push_str(&mut v, first.error_category.as_str());
    push_str(&mut v, "/");
    push_str(&mut v, file_id);
    push_str(&mut v, ".ndjson");
    string_from_chars(&v)
}

/// What to write for a batch of records: the object path and the NDJSON
/// content.
pub struct StorageWrite {
    pub path: String,
    pub content: String,
}

// ───────────────────────────── storage URIs ─────────────────────────────

/// The object store that a DLQ URI names.
#[derive(Debug, Clone, Copy, PartialEq, Eq, Structural)]
pub enum StorageScheme {
    S3,
    Gcs,
}

/// The store and bucket that a DLQ URI names.
pub struct StorageTarget {
    pub scheme: StorageScheme,
    pub bucket: String,
}

/// The first segment of the object path of `s` (`Path::from(s).parts()`'s
/// first part, encoded as `object_store` encodes path parts).
pub uninterp spec fn first_path_segment(s: Seq<char>) -> Option<Seq<char>>;

/// The first part of `object_store::path::Path::from(s)`. A path keeps its
/// non-empty `/`-separated segments only, so there is none exactly where `s`
/// holds nothing but slashes.
#[verifier::external_body]
fn first_path_part(s: &str) -> (r: Option<String>)
    ensures
        match first_path_segment(s@) {
            Some(p) => r matches Some(x) && x@ == p,
            None => r is None,
        },
        r is None <==> forall|i: int| 0 <= i < s@.len() ==> s@[i] == '/',
{
    object_store::path::Path::from(s).parts().next().map(|p| p.as_ref().to_string())
}

/// Whether `r` is the outcome of reading the storage URI `uri`: `s3://` and
/// `gs://` name a bucket by their first path segment; a missing bucket and
/// any other scheme are configuration errors.
pub open spec fn storage_target_matches(r: Result<StorageTarget, PipelineError>, uri: Seq<char>) -> bool {
    if has_prefix(uri, "s3://"@) {
        match first_path_segment(uri.subrange(5, uri.len() as int)) {
            Some(b) => r matches Ok(t) && t.scheme == StorageScheme::S3 && t.bucket@ == b,
            None => r matches Err(e) && is_config_error(e, "Invalid S3 URI: missing bucket name"@),
        }
    } else if has_prefix(uri, "gs://"@) {
        match first_path_segment(uri.subrange(5, uri.len() as int)) {
            Some(b) => r matches Ok(t) && t.scheme == StorageScheme::Gcs && t.bucket@ == b,
            None => r matches Err(e) && is_config_error(e, "Invalid GCS URI: missing bucket name"@),
        }
    } else {
        r matches Err(e) && is_config_error(e, "Unsupported storage URI scheme: "@ + uri)
    }
}

/// The store and bucket that `uri` names (see `storage_target_matches`).
pub fn parse_storage_uri(uri: &str) -> (r: Result<StorageTarget, PipelineError>)
    ensures
        storage_target_matches(r, uri@),
{
    if starts_with(uri, "s3://") {
        proof {
            reveal_strlit("s3://");
        }
        let rest = suffix_from(uri, 5);
        match first_path_part(rest.as_str()) {
            Some(b) => Ok(StorageTarget { scheme: StorageScheme::S3, bucket: b }),
            None => Err(
                PipelineError::ConfigError {
                    message: string_from_chars(&chars_of("Invalid S3 URI: missing bucket name")),
                },
            ),
        }
    } else if starts_with(uri, "gs://") {
        proof {
            reveal_strlit("gs://");
        }
        let rest = suffix_from(uri, 5);
        match first_path_part(rest.as_str()) {
            Some(b) => Ok(StorageTarget { scheme: StorageScheme::Gcs, bucket: b }),
            None => Err(
                PipelineError::ConfigError {
                    message: string_from_chars(&chars_of("Invalid GCS URI: missing bucket name")),
                },
            ),
        }
    } else {
        let mut m = chars_of("Unsupported storage URI scheme: ");
        push_str(&mut m, uri);
        Err(PipelineError::ConfigError { message: string_from_chars(&m) })
    }
}

// ───────────────────────────── the writer ─────────────────────────────

/// Statistics about the pending batch.
pub struct DlqStats {
    pub pending_records: usize,
    pub pending_size_bytes: usize,
    pub last_write_time: UtcTimestamp,
}

/// The sum of the estimated sizes of `records`.
pub open spec fn total_size(records: Seq<DlqRecord>) -> nat
    decreases records.len(),
{
    if records.len() == 0 {
        0
    } else {
        total_size(records.drop_last()) + record_size(records.last())
    }
}

/// What adding `record` to the pending records `pending` does under `c`: the
/// records handed back to be written (all of them, once the record limit or
/// the size limit is reached; none otherwise) and the records left pending.
pub open spec fn write_outcome(pending: Seq<DlqRecord>, record: DlqRecord, c: DlqConfig) -> (
    Seq<DlqRecord>,
    Seq<DlqRecord>,
) {
    let all = pending.push(record);
    if all.len() >= c.max_records_per_file || total_size(all) >= c.max_file_size_bytes {
        (all, Seq::empty())
    } else {
        (Seq::empty(), all)
    }
}

/// What adding `records` one by one to `pending` does: all records handed
/// back, in order, and the records left pending.
pub open spec fn write_all(pending: Seq<DlqRecord>, records: Seq<DlqRecord>, c: DlqConfig) -> (
    Seq<DlqRecord>,
    Seq<DlqRecord>,
)
    decreases records.len(),
{
    if records.len() == 0 {
        (Seq::empty(), pending)
    } else {
        let before = write_all(pending, records.drop_last(), c);
        let step = write_outcome(before.1, records.last(), c);
        (before.0 + step.0, step.1)
    }
}

/// Gathers failed records and decides when a batch is to be written.
pub struct DlqWriter {
    config: DlqConfig,
    target: StorageTarget,
    records: Vec<DlqRecord>,
    current_size_bytes: usize,
    last_write_time: UtcTimestamp,
}

impl DlqWriter {
    /// The size kept equals the estimated size of the pending records.
    pub closed spec fn wf(&self) -> bool {
        self.current_size_bytes == total_size(self.records@)
    }

    /// The records waiting to be written, in arrival order.
    pub closed spec fn pending(&self) -> Seq<DlqRecord> {
        self.records@
    }

    /// The writer's settings.
    pub closed spec fn settings(&self) -> DlqConfig {
        self.config
    }

    /// The store and bucket that the writer's URI names.
    pub closed spec fn storage(&self) -> StorageTarget {
        self.target
    }

    /// The store and bucket that the writer's URI names.
    pub fn target(&self) -> (r: &StorageTarget)
        ensures
            *r == self.storage(),
    {
        &self.target
    }

    /// A writer for `config`, on the store and bucket its URI names; the
    /// errors of `parse_storage_uri` where the URI names none.
    pub fn new(config: DlqConfig) -> (r: Result<DlqWriter, PipelineError>)
        ensures
            storage_target_matches(
                match r {
                    Ok(w) => Ok(w.storage()),
                    Err(e) => Err(e),
                },
                config.storage_uri@,
            ),
            r matches Ok(w) ==> w.pending().len() == 0 && w.settings() == config && w.wf(),
    {
        match parse_storage_uri(config.storage_uri.as_str()) {
            Ok(t) => {
                let w = DlqWriter {
                    config,
                    target: t,
                    records: Vec::new(),
                    current_size_bytes: 0,
                    last_write_time: UtcTimestamp::now(),
                };
                Ok(w)
            },
            Err(e) => Err(e),
        }
    }

    /// Adds `record` where its size can be counted: `None`, and nothing
    /// changed, where its JSON line or the pending size would not fit in a
    /// `usize`; otherwise `Some` of what `write_record` gives.
    pub fn write_record_checked(&mut self, record: DlqRecord) -> (r: Option<Option<Vec<DlqRecord>>>)
        requires
            old(self).wf(),
        ensures
            final(self).wf(),
            final(self).settings() == old(self).settings(),
            final(self).storage() == old(self).storage(),
            r is None <==> !(4 * record_line(record).len() <= usize::MAX && total_size(
                old(self).pending(),
            ) + record_size(record) <= usize::MAX),
            r is None ==> final(self).pending() == old(self).pending(),
            r matches Some(out) ==> write_outcome(old(self).pending(), record, old(self).settings())
                == (
                match out {
                    Some(b) => b@,
                    None => Seq::<DlqRecord>::empty(),
                },
                final(self).pending(),
            ),
    {
        let line = record_line_exec(&record);
        if line.len() > usize::MAX / 4 {
            return None;
        }
        let size = estimate_record_size(&record);
        if size > usize::MAX - self.current_size_bytes {
            return None;
        }
        Some(self.write_record(record))
    }

    /// Adds `record` to the pending batch. Where the batch then reaches the
    /// record limit or the size limit, all its records are handed back to be
    /// written, in order, and the batch starts empty; otherwise nothing is.
    pub fn write_record(&mut self, record: DlqRecord) -> (r: Option<Vec<DlqRecord>>)
        requires
            old(self).wf(),
            4 * record_line(record).len() <= usize::MAX,
            total_size(old(self).pending()) + record_size(record) <= usize::MAX,
        ensures
            ({
                let all = old(self).pending().push(record);
                let full = all.len() >= old(self).settings().max_records_per_file
                    || total_size(all) >= old(self).settings().max_file_size_bytes;
                &&& full ==> (r matches Some(b) && b@ == all && final(self).pending().len() == 0)
                &&& !full ==> (r is None && final(self).pending() == all)
            }),
            write_outcome(old(self).pending(), record, old(self).settings()) == (
                match r {
                    Some(b) => b@,
                    None => Seq::<DlqRecord>::empty(),
                },
                final(self).pending(),
            ),
            final(self).settings() == old(self).settings(),
            final(self).storage() == old(self).storage(),
            final(self).wf(),
    {
        let size = estimate_record_size(&record);
        let ghost all = self.records@.push(record);
        self.records.push(record);
        self.current_size_bytes = self.current_size_bytes + size;
        assert(all.drop_last() =~= old(self).records@);
        if self.records.len() >= self.config.max_records_per_file || self.current_size_bytes
            >= self.config.max_file_size_bytes {
            Some(self.take_pending())
        } else {
            None
        }
    }

    fn take_pending(&mut self) -> (r: Vec<DlqRecord>)
        ensures
            r@ == old(self).records@,
            final(self).records@.len() == 0,
            final(self).config == old(self).config,
            final(self).target == old(self).target,
            final(self).wf(),
    {
        let mut taken: Vec<DlqRecord> = Vec::new();
        std::mem::swap(&mut taken, &mut self.records);
        self.current_size_bytes = 0;
        self.last_write_time = UtcTimestamp::now();
        taken
    }

    /// Hands back all pending records to be written, in order, where there
    /// are any; the batch then starts empty.
    pub fn flush(&mut self) -> (r: Option<Vec<DlqRecord>>)
        requires
            old(self).wf(),
        ensures
            old(self).pending().len() > 0 ==> (r matches Some(b) && b@ == old(self).pending()),
            old(self).pending().len() == 0 ==> r is None,
            final(self).pending().len() == 0,
            final(self).settings() == old(self).settings(),
            final(self).storage() == old(self).storage(),
            final(self).wf(),
    {
        if self.records.len() > 0 {
            Some(self.take_pending())
        } else {
            None
        }
    }

    /// What to write for `records`, where there are any: the object path of
    /// a new file named by a random UUID, and the NDJSON content.
    pub fn storage_write(&self, records: &Vec<DlqRecord>) -> (r: Option<StorageWrite>)
        ensures
            records@.len() == 0 ==> r is None,
            records@.len() > 0 ==> (r matches Some(w) && w.content@ == ndjson(records@)
                && exists|id: Seq<char>|
                is_file_id(id) && #[trigger] batch_path(self.settings().prefix, records@[0], id)
                    == w.path@),
    {
        if records.len() == 0 {
            return None;
        }
        let file_id = new_file_id();
        let path = batch_path_exec(&self.config.prefix, &records[0], file_id.as_str());
        let content = ndjson_exec(records);
        Some(StorageWrite { path, content })
    }

    /// The number and estimated size of the pending records, and when a batch
    /// was last taken.
    pub fn stats(&self) -> (r: DlqStats)
        requires
            self.wf(),
        ensures
            r.pending_records == self.pending().len(),
            r.pending_size_bytes == total_size(self.pending()),
    {
        DlqStats {
            pending_records: self.records.len(),
            pending_size_bytes: self.current_size_bytes,
            last_write_time: self.last_write_time,
        }
    }
}

/// The error where a batch cannot be put at `path`; `detail` is the store's
/// complaint.
pub fn put_error(path: &str, detail: &str) -> (e: PipelineError)
    ensures
        is_sink_failure(e, "dlq"@, 0, "Failed to write DLQ batch to "@ + path@ + ": "@ + detail@),
{
    let mut v = chars_of("Failed to write DLQ batch to ");
    push_str(&mut v, path);
    push_str(&mut v, ": ");
    push_str(&mut v, detail);
    PipelineError::SinkWriteFailed {
        connector: string_from_chars(&chars_of("dlq")),
        retries: 0,
        message: string_from_chars(&v),
    }
}

/// The error where the client of a store cannot be built.
pub fn client_error(scheme: StorageScheme, detail: &str) -> (e: PipelineError)
    ensures
        scheme == StorageScheme::S3 ==> is_connection_failure(e, "s3"@, "Failed to create S3 client: "@ + detail@),
        scheme == StorageScheme::Gcs ==> is_connection_failure(e, "gcs"@, "Failed to create GCS client: "@ + detail@),
{
    match scheme {
        StorageScheme::S3 => PipelineError::ConnectionFailed {
            connector: string_from_chars(&chars_of("s3")),
            message: concat2("Failed to create S3 client: ", detail),
        },
        StorageScheme::Gcs => PipelineError::ConnectionFailed {
            connector: string_from_chars(&chars_of("gcs")),
            message: concat2("Failed to create GCS client: ", detail),
        },
    }
}

/// A writer with the default configuration (see `DlqConfig::default`), on
/// the store its URI names; the errors of `DlqWriter::new` otherwise.
pub fn init() -> (r: Result<DlqWriter, PipelineError>)
    ensures
        storage_target_matches(
            match r {
                Ok(w) => Ok(w.storage()),
                Err(e) => Err(e),
            },
            "s3://default-dlq-bucket/"@,
        ),
        r matches Ok(w) ==> {
            &&& w.pending().len() == 0
            &&& w.wf()
            &&& w.settings().storage_uri@ == "s3://default-dlq-bucket/"@
            &&& w.settings().prefix matches Some(p) && p@ == "dlq"@
            &&& w.settings().max_file_size_bytes == 100 * 1024 * 1024
            &&& w.settings().max_records_per_file == 10000
            &&& w.settings().compression == DlqCompression::NoCompression
        },
{
    DlqWriter::new(DlqConfig::default())
}

} // verus!
