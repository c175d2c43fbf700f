//! The Kafka source: its settings, the consumer options derived from them,
//! the batch built from polled messages, the partition offsets it tracks and
//! the offsets it commits on acknowledgement.
use std::collections::HashMap;
use vstd::prelude::*;
use crate::batch::{batch_wf, column_view, columns_view, fields_view, Batch, BatchView, Cell,
    CellView, DataKind, Field, FieldView};
use crate::config::{lookup, ConnectorConfig};
use crate::connectors::settings::{
    bool_or, bool_or_default, comma_list, comma_list_matches, missing_message, number_or,
    optional_matches, required, text_or, text_or_default, u64_or_default, usize_or_default,
};
use crate::config::get_property;
use crate::error::{is_config_error, is_connection_failure, is_internal, PipelineError};
use crate::text::{
    chars_of, concat2, copy_string, decimal, decimal_string, join, parse_i32, parse_i64, parse_signed,
    split, split_chars, string_from_chars,
};
use crate::dlq::{
    entry_views, json_string_literal, keys_ascending, lemma_normalized_ascending, normalize_metadata,
    normalized,
};

verus! {

broadcast use vstd::std_specs::hash::group_hash_axioms;

/// Settings of the Kafka source.
pub struct KafkaSourceConfig {
    pub bootstrap_servers: String,
    pub topics: Vec<String>,
    pub group_id: String,
    pub client_id: String,
    /// "earliest" or "latest".
    pub auto_offset_reset: String,
    pub enable_auto_commit: bool,
    pub batch_size: usize,
    pub poll_timeout_ms: u64,
    pub security_protocol: Option<String>,
    pub sasl_mechanism: Option<String>,
    pub sasl_username: Option<String>,
    pub sasl_password: Option<String>,
}

/// Whether `k` holds the settings that `c` describes: the required
/// `bootstrap_servers` and `topics` (split at commas, trimmed), the optional
/// entries with their defaults, and the SASL credentials from the secrets.
pub open spec fn kafka_config_matches(k: KafkaSourceConfig, c: ConnectorConfig) -> bool {
    let p = c.properties@;
    &&& lookup(p, "bootstrap_servers"@) == Some(k.bootstrap_servers@)
    &&& lookup(p, "topics"@) is Some
    &&& comma_list_matches(k.topics@, lookup(p, "topics"@)->0)
    &&& k.group_id@ == text_or(p, "group_id"@, "rust-data-pipeline"@)
    &&& k.client_id@ == text_or(p, "client_id"@, "rust-data-pipeline-source"@)
    &&& k.auto_offset_reset@ == text_or(p, "auto_offset_reset"@, "latest"@)
    &&& k.enable_auto_commit == bool_or(p, "enable_auto_commit"@, false)
    &&& k.batch_size == number_or(p, "batch_size"@, usize::MAX as nat, 100)
    &&& k.poll_timeout_ms == number_or(p, "poll_timeout_ms"@, u64::MAX as nat, 1000)
    &&& optional_matches(k.security_protocol, p, "security_protocol"@)
    &&& optional_matches(k.sasl_mechanism, p, "sasl_mechanism"@)
    &&& optional_matches(k.sasl_username, c.secrets@, "sasl_username"@)
    &&& optional_matches(k.sasl_password, c.secrets@, "sasl_password"@)
}

impl KafkaSourceConfig {
    /// Reads the Kafka settings from a connector configuration. Fails with a
    /// configuration error when `bootstrap_servers` (checked first) or
    /// `topics` is missing.
    pub fn try_from(config: &ConnectorConfig) -> (r: Result<KafkaSourceConfig, PipelineError>)
        ensures
            lookup(config.properties@, "bootstrap_servers"@) is None ==> (r matches Err(e)
                && is_config_error(e, missing_message("bootstrap_servers"@))),
            lookup(config.properties@, "bootstrap_servers"@) is Some && lookup(
                config.properties@,
                "topics"@,
            ) is None ==> (r matches Err(e) && is_config_error(e, missing_message("topics"@))),
            lookup(config.properties@, "bootstrap_servers"@) is Some && lookup(
                config.properties@,
                "topics"@,
            ) is Some ==> (r matches Ok(k) && kafka_config_matches(k, *config)),
    {
        let properties = &config.properties;
        let bootstrap_servers = match required(properties, "bootstrap_servers") {
            Ok(v) => v,
            Err(e) => return Err(e),
        };
        let topics_text = match required(properties, "topics") {
            Ok(v) => v,
            Err(e) => return Err(e),
        };
        let topics = comma_list(topics_text.as_str());
        Ok(
            KafkaSourceConfig {
                bootstrap_servers,
                topics,
                group_id: text_or_default(properties, "group_id", "rust-data-pipeline"),
                client_id: text_or_default(properties, "client_id", "rust-data-pipeline-source"),
                auto_offset_reset: text_or_default(properties, "auto_offset_reset", "latest"),
                enable_auto_commit: bool_or_default(properties, "enable_auto_commit", false),
                batch_size: usize_or_default(properties, "batch_size", 100),
                poll_timeout_ms: u64_or_default(properties, "poll_timeout_ms", 1000),
                security_protocol: get_property(properties, "security_protocol"),
                sasl_mechanism: get_property(properties, "sasl_mechanism"),
                sasl_username: get_property(&config.secrets, "sasl_username"),
                sasl_password: get_property(&config.secrets, "sasl_password"),
            },
        )
    }

    /// The consumer options, in the order in which they are set: connection,
    /// security where configured (user and password only together), then the
    /// fetch tuning and the batch size.
    pub fn client_settings(&self) -> (r: Vec<(String, String)>)
        ensures
            settings_view(r@) == kafka_settings(*self),
    {
        let mut r: Vec<(String, String)> = Vec::new();
        push_setting(&mut r, "bootstrap.servers", copy_string(&self.bootstrap_servers));
        push_setting(&mut r, "group.id", copy_string(&self.group_id));
        push_setting(&mut r, "client.id", copy_string(&self.client_id));
        push_setting(&mut r, "auto.offset.reset", copy_string(&self.auto_offset_reset));
        let commit = if self.enable_auto_commit {
            string_from_chars(&chars_of("true"))
        } else {
            string_from_chars(&chars_of("false"))
        };
        push_setting(&mut r, "enable.auto.commit", commit);
        let ghost base = settings_view(r@);
        if let Some(p) = &self.security_protocol {
            push_setting(&mut r, "security.protocol", copy_string(p));
        }
        let ghost s1 = settings_view(r@);
        if let Some(m) = &self.sasl_mechanism {
            push_setting(&mut r, "sasl.mechanism", copy_string(m));
        }
        let ghost s2 = settings_view(r@);
        match (&self.sasl_username, &self.sasl_password) {
            (Some(u), Some(p)) => {
                push_setting(&mut r, "sasl.username", copy_string(u));
                push_setting(&mut r, "sasl.password", copy_string(p));
            },
            _ => {},
        }
        push_setting(&mut r, "fetch.min.bytes", string_from_chars(&chars_of("1")));
        push_setting(&mut r, "fetch.max.wait.ms", string_from_chars(&chars_of("500")));
        push_setting(&mut r, "max.poll.records", decimal_string(self.batch_size as u64));
        r
    }
}

/// The view of a list of options.
pub open spec fn settings_view(s: Seq<(String, String)>) -> Seq<(Seq<char>, Seq<char>)> {
    s.map_values(|p: (String, String)| (p.0@, p.1@))
}

/// The consumer options for `k`.
pub open spec fn kafka_settings(k: KafkaSourceConfig) -> Seq<(Seq<char>, Seq<char>)> {
    let base = seq![
        ("bootstrap.servers"@, k.bootstrap_servers@),
        ("group.id"@, k.group_id@),
        ("client.id"@, k.client_id@),
        ("auto.offset.reset"@, k.auto_offset_reset@),
        ("enable.auto.commit"@, if k.enable_auto_commit {
            "true"@
        } else {
            "false"@
        }),
    ];
    let security = match k.security_protocol {
        Some(p) => seq![("security.protocol"@, p@)],
        None => Seq::empty(),
    };
    let mechanism = match k.sasl_mechanism {
        Some(m) => seq![("sasl.mechanism"@, m@)],
        None => Seq::empty(),
    };
    let credentials = match (k.sasl_username, k.sasl_password) {
        (Some(u), Some(p)) => seq![("sasl.username"@, u@), ("sasl.password"@, p@)],
        _ => Seq::empty(),
    };
    let tuning = seq![
        ("fetch.min.bytes"@, "1"@),
        ("fetch.max.wait.ms"@, "500"@),
        ("max.poll.records"@, decimal(k.batch_size as nat)),
    ];
    base + security + mechanism + credentials + tuning
}

fn push_setting(r: &mut Vec<(String, String)>, key: &str, value: String)
    ensures
        settings_view(final(r)@) == settings_view(old(r)@).push((key@, value@)),
{
    let k = string_from_chars(&chars_of(key));
    r.push((k, value));
    assert(settings_view(r@) =~= settings_view(old(r)@).push((key@, value@)));
}

// ───────────────────────────── polled messages ─────────────────────────────

/// A message as polled from Kafka. `headers_json` is the JSON object of the
/// message's headers (`"{}"` where it has none).
pub struct KafkaMessage {
    pub topic: String,
    pub partition: i32,
    pub offset: i64,
    /// Milliseconds since the epoch, where the broker gave a timestamp.
    pub timestamp_ms: Option<i64>,
    pub key: Option<Vec<u8>>,
    pub payload: Option<Vec<u8>>,
    pub headers_json: String,
}

/// The text that `String::from_utf8_lossy` makes of `bytes`.
pub uninterp spec fn utf8_lossy(bytes: Seq<u8>) -> Seq<char>;

/// `String::from_utf8_lossy`, owned.
#[verifier::external_body]
fn lossy_text(bytes: &Vec<u8>) -> (r: String)
    ensures
        r@ == utf8_lossy(bytes@),
{
    String::from_utf8_lossy(bytes).to_string()
}

/// The JSON text of an object without members.
pub open spec fn empty_object() -> Seq<char> {
    "{}"@
}

/// The JSON object whose members are the entries `p`, in that order: each
/// key's string literal, `:`, and its value's string literal.
pub open spec fn json_object(p: Seq<(Seq<char>, Seq<char>)>) -> Seq<char> {
    "{"@ + join(
        p.map_values(|e: (Seq<char>, Seq<char>)| json_string_literal(e.0) + ":"@ + json_string_literal(e.1)),
        ","@,
    ) + "}"@
}

/// Whether `text` is the JSON object of the entries `entries` in some order.
pub open spec fn object_text_of(entries: Seq<(Seq<char>, Seq<char>)>, text: Seq<char>) -> bool {
    exists|p: Seq<(Seq<char>, Seq<char>)>| #[trigger] p.to_multiset() == entries.to_multiset() && text == json_object(p)
}

/// `serde_json::to_string` of the `HashMap` that holds the entries
/// `entries`, whose keys are distinct. Writing a map of strings cannot fail:
/// the text is the object of the entries in the order in which the map is
/// walked, which its hasher decides anew in each process, so only that some
/// order is taken is stated.
#[verifier::external_body]
fn map_object_json(entries: &Vec<(String, String)>) -> (r: String)
    requires
        keys_ascending(entry_views(entries@)),
    ensures
        object_text_of(entry_views(entries@), r@),
{
    let m: HashMap<&String, &String> = entries.iter().map(|e| (&e.0, &e.1)).collect();
    serde_json::to_string(&m).unwrap()
}

/// The header names of `h` with their values read as lossy UTF-8.
pub open spec fn header_entries(h: Seq<(String, Vec<u8>)>) -> Seq<(Seq<char>, Seq<char>)> {
    h.map_values(|e: (String, Vec<u8>)| (e.0@, utf8_lossy(e.1@)))
}

/// The headers of a message as a JSON object: `{}` where it has none;
/// otherwise the object of the map from each header name to its value read
/// as lossy UTF-8 (a later header of a name replacing an earlier one), its
/// members in the order in which that map is walked.
pub fn headers_json(headers: &Option<Vec<(String, Vec<u8>)>>) -> (r: String)
    ensures
        headers is None ==> r@ == empty_object(),
        headers matches Some(h) ==> object_text_of(normalized(header_entries(h@)), r@),
{
    match headers {
        None => string_from_chars(&chars_of("{}")),
        Some(h) => {
            let mut pairs: Vec<(String, String)> = Vec::new();
            let mut i: usize = 0;
            while i < h.len()
                invariant
                    i <= h@.len(),
                    entry_views(pairs@) == header_entries(h@.subrange(0, i as int)),
                decreases h.len() - i,
            {
                let ghost before = pairs@;
                pairs.push((copy_string(&h[i].0), lossy_text(&h[i].1)));
                assert(entry_views(pairs@) =~= entry_views(before).push((h@[i as int].0@, utf8_lossy(h@[i as int].1@))));
                assert(header_entries(h@.subrange(0, i + 1)) =~= header_entries(h@.subrange(0, i as int)).push(
                    (h@[i as int].0@, utf8_lossy(h@[i as int].1@)),
                ));
                i = i + 1;
            }
            assert(h@.subrange(0, h@.len() as int) =~= h@);
            let n = normalize_metadata(&pairs);
            proof {
                lemma_normalized_ascending(entry_views(pairs@));
            }
            map_object_json(&n)
        },
    }
}

impl KafkaMessage {
    /// The message polled with these parts, its headers (name and raw value
    /// of each, where it has any) written as their JSON object (see
    /// `headers_json`).
    pub fn from_polled(
        topic: String,
        partition: i32,
        offset: i64,
        timestamp_ms: Option<i64>,
        key: Option<Vec<u8>>,
        payload: Option<Vec<u8>>,
        headers: Option<Vec<(String, Vec<u8>)>>,
    ) -> (r: KafkaMessage)
        ensures
            r.topic == topic && r.partition == partition && r.offset == offset && r.timestamp_ms
                == timestamp_ms && r.key == key && r.payload == payload,
            headers is None ==> r.headers_json@ == empty_object(),
            headers matches Some(h) ==> object_text_of(normalized(header_entries(h@)), r.headers_json@),
    {
        let headers_json = headers_json(&headers);
        KafkaMessage { topic, partition, offset, timestamp_ms, key, payload, headers_json }
    }
}

/// The schema of a batch of Kafka messages.
pub open spec fn kafka_schema() -> Seq<FieldView> {
    seq![
        FieldView { name: "topic"@, data_type: DataKind::Utf8, nullable: false },
        FieldView { name: "partition"@, data_type: DataKind::Int64, nullable: false },
        FieldView { name: "offset"@, data_type: DataKind::Int64, nullable: false },
        FieldView { name: "timestamp"@, data_type: DataKind::Int64, nullable: false },
        FieldView { name: "key"@, data_type: DataKind::Utf8, nullable: true },
        FieldView { name: "value"@, data_type: DataKind::Utf8, nullable: false },
        FieldView { name: "headers"@, data_type: DataKind::Utf8, nullable: true },
    ]
}

/// The fields of a batch of Kafka messages.
pub fn kafka_fields() -> (r: Vec<Field>)
    ensures
        fields_view(r@) == kafka_schema(),
{
    let mut r: Vec<Field> = Vec::new();
    r.push(Field::new("topic", DataKind::Utf8, false));
    r.push(Field::new("partition", DataKind::Int64, false));
    r.push(Field::new("offset", DataKind::Int64, false));
    r.push(Field::new("timestamp", DataKind::Int64, false));
    r.push(Field::new("key", DataKind::Utf8, true));
    r.push(Field::new("value", DataKind::Utf8, false));
    r.push(Field::new("headers", DataKind::Utf8, true));
    assert(fields_view(r@) =~= kafka_schema());
    r
}

/// The messages of one poll that make the batch: the first `n` of `ms`.
pub open spec fn first_polled(ms: Seq<KafkaMessage>, n: nat) -> Seq<KafkaMessage> {
    if ms.len() <= n {
        ms
    } else {
        ms.subrange(0, n as int)
    }
}

/// The text of optional bytes: their lossy decoding, or empty.
pub open spec fn text_of_bytes(b: Option<Vec<u8>>) -> Seq<char> {
    match b {
        Some(v) => utf8_lossy(v@),
        None => Seq::empty(),
    }
}

/// The cell of message `m` in column `c` of a Kafka batch; a message without
/// a timestamp takes `now_ms`.
pub open spec fn kafka_cell(m: KafkaMessage, now_ms: i64, c: int) -> CellView {
    if c == 0 {
        CellView::Text(m.topic@)
    } else if c == 1 {
        CellView::Int(m.partition as i64)
    } else if c == 2 {
        CellView::Int(m.offset)
    } else if c == 3 {
        CellView::Int(
            match m.timestamp_ms {
                Some(t) => t,
                None => now_ms,
            },
        )
    } else if c == 4 {
        CellView::Text(text_of_bytes(m.key))
    } else if c == 5 {
        CellView::Text(text_of_bytes(m.payload))
    } else {
        CellView::Text(m.headers_json@)
    }
}

/// The batch made of messages `ms`: one row per message, in order.
pub open spec fn kafka_batch(ms: Seq<KafkaMessage>, now_ms: i64) -> BatchView {
    BatchView {
        fields: kafka_schema(),
        columns: Seq::new(7, |c: int| Seq::new(ms.len(), |r: int| kafka_cell(ms[r], now_ms, c))),
        num_rows: ms.len(),
    }
}

fn optional_text(b: &Option<Vec<u8>>) -> (r: String)
    ensures
        r@ == text_of_bytes(*b),
{
    match b {
        Some(v) => lossy_text(v),
        None => string_from_chars(&Vec::new()),
    }
}

/// The cells of all messages in column `c`.
fn kafka_column(ms: &Vec<KafkaMessage>, now_ms: i64, c: usize) -> (r: Vec<Cell>)
    requires
        c < 7,
    ensures
        column_view(r@) == Seq::new(ms@.len(), |i: int| kafka_cell(ms@[i], now_ms, c as int)),
{
    let mut r: Vec<Cell> = Vec::new();
    let mut i: usize = 0;
    while i < ms.len()
        invariant
            c < 7,
            i <= ms@.len(),
            r@.len() == i,
            forall|j: int| 0 <= j < i ==> (#[trigger] r@[j])@ == kafka_cell(ms@[j], now_ms, c as int),
        decreases ms.len() - i,
    {
        let m = &ms[i];
        let cell = if c == 0 {
            Cell::Text(copy_string(&m.topic))
        } else if c == 1 {
            Cell::Int(m.partition as i64)
        } else if c == 2 {
            Cell::Int(m.offset)
        } else if c == 3 {
            Cell::Int(
                match m.timestamp_ms {
                    Some(t) => t,
                    None => now_ms,
                },
            )
        } else if c == 4 {
            Cell::Text(optional_text(&m.key))
        } else if c == 5 {
            Cell::Text(optional_text(&m.payload))
        } else {
            Cell::Text(copy_string(&m.headers_json))
        };
        r.push(cell);
        i = i + 1;
    }
    assert(column_view(r@) =~= Seq::new(ms@.len(), |i: int| kafka_cell(ms@[i], now_ms, c as int)));
    r
}

/// The batch of messages `ms` (see `kafka_batch`).
pub fn kafka_batch_exec(ms: &Vec<KafkaMessage>, now_ms: i64) -> (r: Batch)
    ensures
        r@ == kafka_batch(ms@, now_ms),
{
    let fields = kafka_fields();
    assert(fields_view(fields@).len() == fields@.len());
    assert(fields@.len() == 7);
    if ms.len() == 0 {
        let b = Batch::new_empty(fields);
        assert forall|c: int| 0 <= c < 7 implies b@.columns[c] =~= kafka_batch(
            ms@,
            now_ms,
        ).columns[c] by {}
        assert(b@.columns =~= kafka_batch(ms@, now_ms).columns);
        return b;
    }
    let mut columns: Vec<Vec<Cell>> = Vec::new();
    let mut c: usize = 0;
    while c < 7
        invariant
            c <= 7,
            columns@.len() == c,
            forall|j: int|
                0 <= j < c ==> column_view((#[trigger] columns@[j])@) == Seq::new(
                    ms@.len(),
                    |i: int| kafka_cell(ms@[i], now_ms, j),
                ),
        decreases 7 - c,
    {
        columns.push(kafka_column(ms, now_ms, c));
        c = c + 1;
    }
    let ghost v = kafka_batch(ms@, now_ms);
    assert(columns_view(columns@) =~= v.columns);
    assert(batch_wf(v));
    Batch::from_parts(fields, columns, ms.len())
}

// ───────────────────────────── offsets ─────────────────────────────

/// The offsets after recording the messages `ms` in order: each partition
/// holds the offset of its last message.
pub open spec fn offsets_after(m: Map<i32, i64>, ms: Seq<KafkaMessage>) -> Map<i32, i64>
    decreases ms.len(),
{
    if ms.len() == 0 {
        m
    } else {
        offsets_after(m, ms.drop_last()).insert(ms.last().partition, ms.last().offset)
    }
}

// ───────────────────────────── acknowledgement ─────────────────────────────

/// The (partition, offset) pair that a piece `"p:o"` of an acknowledgement
/// names, where it has exactly two parts that parse.
pub open spec fn offset_pair(piece: Seq<char>) -> Option<(i32, i64)> {
    let parts = split(piece, ':');
    if parts.len() == 2 {
        match (
            parse_signed(parts[0], i32::MIN as int, i32::MAX as int),
            parse_signed(parts[1], i64::MIN as int, i64::MAX as int),
        ) {
            (Some(p), Some(o)) => Some((p as i32, o as i64)),
            _ => None,
        }
    } else {
        None
    }
}

/// The commits for the pieces `pieces`: for each piece that names a pair, in
/// order, one entry per topic with the offset after the acknowledged one.
pub open spec fn commits_of(pieces: Seq<Seq<char>>, topics: Seq<Seq<char>>) -> Seq<(Seq<char>, i32, i64)>
    decreases pieces.len(),
{
    if pieces.len() == 0 {
        Seq::empty()
    } else {
        let prev = commits_of(pieces.drop_last(), topics);
        match offset_pair(pieces.last()) {
            Some((p, o)) => prev + topics.map_values(|t: Seq<char>| (t, p, (o + 1) as i64)),
            None => prev,
        }
    }
}

/// Whether no pair named in `s` has the largest offset (whose successor
/// overflows).
pub open spec fn offsets_have_successor(s: Seq<char>) -> bool {
    forall|i: int|
        0 <= i < split(s, ',').len() ==> ((#[trigger] offset_pair(split(s, ',')[i])) matches Some(
            (p, o),
        ) ==> o < i64::MAX)
}

/// The view of a list of commits.
pub open spec fn commits_view(c: Seq<(String, i32, i64)>) -> Seq<(Seq<char>, i32, i64)> {
    c.map_values(|e: (String, i32, i64)| (e.0@, e.1, e.2))
}

/// The topic views of `topics`.
pub open spec fn strings_view(topics: Seq<String>) -> Seq<Seq<char>> {
    topics.map_values(|t: String| t@)
}

fn offset_pair_exec(piece: &Vec<char>) -> (r: Option<(i32, i64)>)
    ensures
        r == offset_pair(piece@),
{
    let parts = split_chars(piece, ':');
    if parts.len() == 2 {
        let a = string_from_chars(&parts[0]);
        let b = string_from_chars(&parts[1]);
        match (parse_i32(a.as_str()), parse_i64(b.as_str())) {
            (Some(p), Some(o)) => Some((p, o)),
            _ => None,
        }
    } else {
        None
    }
}

/// Whether every pair named in `offsets` has an offset with a successor (see
/// `offsets_have_successor`): what acknowledging `offsets` needs.
pub fn offsets_can_advance(offsets: &str) -> (r: bool)
    ensures
        r == offsets_have_successor(offsets@),
{
    let x = chars_of(offsets);
    let pieces = split_chars(&x, ',');
    let ghost ps = split(offsets@, ',');
    let mut i: usize = 0;
    while i < pieces.len()
        invariant
            i <= pieces@.len(),
            pieces@.len() == ps.len(),
            forall|k: int| 0 <= k < pieces@.len() ==> (#[trigger] pieces@[k])@ == ps[k],
            ps == split(offsets@, ','),
            forall|k: int|
                0 <= k < i ==> ((#[trigger] offset_pair(ps[k])) matches Some((p, o)) ==> o < i64::MAX),
        decreases pieces.len() - i,
    {
        match offset_pair_exec(&pieces[i]) {
            Some((p, o)) => {
                if o == i64::MAX {
                    assert(offset_pair(split(offsets@, ',')[i as int]) == Some((p, o)));
                    return false;
                }
            },
            None => {},
        }
        i = i + 1;
    }
    true
}

/// The commits that acknowledging `offsets` ("p:o,p:o,...") asks for, one
/// per subscribed topic and named pair (see `commits_of`).
pub fn commits_for(offsets: &str, topics: &Vec<String>) -> (r: Vec<(String, i32, i64)>)
    requires
        offsets_have_successor(offsets@),
    ensures
        commits_view(r@) == commits_of(split(offsets@, ','), strings_view(topics@)),
{
    let x = chars_of(offsets);
    let pieces = split_chars(&x, ',');
    let ghost ps = split(offsets@, ',');
    let ghost tv = strings_view(topics@);
    let mut r: Vec<(String, i32, i64)> = Vec::new();
    let mut i: usize = 0;
    while i < pieces.len()
        invariant
            i <= pieces@.len(),
            pieces@.len() == ps.len(),
            forall|k: int| 0 <= k < pieces@.len() ==> (#[trigger] pieces@[k])@ == ps[k],
            ps == split(offsets@, ','),
            tv == strings_view(topics@),
            offsets_have_successor(offsets@),
            commits_view(r@) == commits_of(ps.subrange(0, i as int), tv),
        decreases pieces.len() - i,
    {
        let ghost cur = ps.subrange(0, i + 1);
        assert(cur.drop_last() =~= ps.subrange(0, i as int));
        assert(cur.last() == ps[i as int]);
        match offset_pair_exec(&pieces[i]) {
            Some((p, o)) => {
                assert(offset_pair(ps[i as int]) matches Some((p2, o2)) ==> (o2 < i64::MAX));
                let next = o + 1;
                let ghost before = commits_view(r@);
                let mut t: usize = 0;
                while t < topics.len()
                    invariant
                        t <= topics@.len(),
                        tv == strings_view(topics@),
                        commits_view(r@) == before + tv.subrange(0, t as int).map_values(
                            |s: Seq<char>| (s, p, next),
                        ),
                    decreases topics.len() - t,
                {
                    let ghost old_r = r@;
                    assert(tv[t as int] == topics@[t as int]@);
                    r.push((copy_string(&topics[t]), p, next));
                    assert(commits_view(r@) =~= commits_view(old_r).push((tv[t as int], p, next)));
                    assert(tv.subrange(0, t + 1).map_values(|s: Seq<char>| (s, p, next)) =~= tv.subrange(
                        0,
                        t as int,
                    ).map_values(|s: Seq<char>| (s, p, next)).push((tv[t as int], p, next)));
                    t = t + 1;
                    assert(commits_view(r@) =~= before + tv.subrange(0, t as int).map_values(
                        |s: Seq<char>| (s, p, next),
                    ));
                }
                assert(tv.subrange(0, topics@.len() as int) =~= tv);
            },
            None => {},
        }
        i = i + 1;
    }
    assert(ps.subrange(0, pieces@.len() as int) =~= ps);
    r
}

// ───────────────────────────── the source ─────────────────────────────

/// The Kafka source's state: its settings, whether its consumer is
/// connected, and the offset last seen per partition.
pub struct KafkaSource {
    config: KafkaSourceConfig,
    connected: bool,
    current_partition_offsets: HashMap<i32, i64>,
}

/// The error for an operation on a source or sink that is not connected.
pub open spec fn is_not_connected(e: PipelineError, connector: Seq<char>) -> bool {
    e matches PipelineError::ConnectionFailed { connector: c, message } && c@ == connector
        && message@ == "Not connected"@
}

pub fn not_connected(connector: &str) -> (e: PipelineError)
    ensures
        is_not_connected(e, connector@),
{
    PipelineError::ConnectionFailed {
        connector: string_from_chars(&chars_of(connector)),
        message: string_from_chars(&chars_of("Not connected")),
    }
}

impl KafkaSource {
    /// Whether `from_config` succeeds on `config`: both required properties
    /// are present.
    pub open spec fn from_config_outcome(config: &ConnectorConfig) -> bool {
        lookup(config.properties@, "bootstrap_servers"@) is Some && lookup(
            config.properties@,
            "topics"@,
        ) is Some
    }

    /// A disconnected source with the settings that `config` describes.
    pub fn from_config(config: &ConnectorConfig) -> (r: Result<KafkaSource, PipelineError>)
        ensures
            lookup(config.properties@, "bootstrap_servers"@) is None ==> (r matches Err(e)
                && is_config_error(e, missing_message("bootstrap_servers"@))),
            lookup(config.properties@, "bootstrap_servers"@) is Some && lookup(
                config.properties@,
                "topics"@,
            ) is None ==> (r matches Err(e) && is_config_error(e, missing_message("topics"@))),
            lookup(config.properties@, "bootstrap_servers"@) is Some && lookup(
                config.properties@,
                "topics"@,
            ) is Some ==> (r matches Ok(s) && kafka_config_matches(s.settings(), *config)
                && !s.is_connected() && s.offsets() == Map::<i32, i64>::empty()),
    {
        match KafkaSourceConfig::try_from(config) {
            Ok(c) => Ok(KafkaSource { config: c, connected: false, current_partition_offsets: HashMap::new() }),
            Err(e) => Err(e),
        }
    }

    /// The connector's name.
    pub fn name(&self) -> (r: &'static str)
        ensures
            r@ == "kafka"@,
    {
        "kafka"
    }

    /// The source's settings.
    pub closed spec fn settings(&self) -> KafkaSourceConfig {
        self.config
    }

    /// The source's settings.
    pub fn config(&self) -> (r: &KafkaSourceConfig)
        ensures
            *r == self.settings(),
    {
        &self.config
    }

    /// Whether the consumer is connected.
    pub closed spec fn is_connected(&self) -> bool {
        self.connected
    }

    /// The offset last seen per partition.
    pub closed spec fn offsets(&self) -> Map<i32, i64> {
        self.current_partition_offsets@
    }

    /// Records that the consumer was created and subscribed.
    pub fn mark_connected(&mut self)
        ensures
            final(self).is_connected(),
            final(self).offsets() == old(self).offsets(),
            final(self).settings() == old(self).settings(),
    {
        self.connected = true;
    }

    /// Whether the consumer is connected.
    pub fn connected(&self) -> (r: bool)
        ensures
            r == self.is_connected(),
    {
        self.connected
    }

    /// The batch of the polled messages `ms`: an error where not connected;
    /// otherwise one row per message of the first `batch_size` of them (an
    /// empty batch with the Kafka schema where there is none), the offset of
    /// each of them recorded for its partition.
    pub fn poll_batch(&mut self, ms: Vec<KafkaMessage>, now_ms: i64) -> (r: Result<
        Batch,
        PipelineError,
    >)
        ensures
            !old(self).is_connected() ==> (r matches Err(e) && is_not_connected(e, "kafka"@)
                && final(self).offsets() == old(self).offsets()),
            old(self).is_connected() ==> (r matches Ok(b) && b@ == kafka_batch(
                first_polled(ms@, old(self).settings().batch_size as nat),
                now_ms,
            ) && b@.num_rows <= old(self).settings().batch_size),
            old(self).is_connected() ==> final(self).offsets() == offsets_after(
                old(self).offsets(),
                first_polled(ms@, old(self).settings().batch_size as nat),
            ),
            final(self).is_connected() == old(self).is_connected(),
            final(self).settings() == old(self).settings(),
    {
        if !self.connected {
            return Err(not_connected("kafka"));
        }
        let ghost orig = ms@;
        let mut ms = ms;
        ms.truncate(self.config.batch_size);
        assert(ms@ =~= first_polled(orig, self.config.batch_size as nat));
        let b = kafka_batch_exec(&ms, now_ms);
        let mut i: usize = 0;
        while i < ms.len()
            invariant
                i <= ms@.len(),
                self.connected == old(self).connected,
                self.config == old(self).config,
                self.current_partition_offsets@ == offsets_after(
                    old(self).current_partition_offsets@,
                    ms@.subrange(0, i as int),
                ),
            decreases ms.len() - i,
        {
            let ghost cur = ms@.subrange(0, i + 1);
            assert(cur.drop_last() =~= ms@.subrange(0, i as int));
            assert(cur.last() == ms@[i as int]);
            self.current_partition_offsets.insert(ms[i].partition, ms[i].offset);
            i = i + 1;
        }
        assert(ms@.subrange(0, ms@.len() as int) =~= ms@);
        Ok(b)
    }

    /// The commits that acknowledging `offsets` asks for: an error where not
    /// connected; otherwise those of `commits_for`.
    pub fn acknowledge(&self, offsets: &str) -> (r: Result<Vec<(String, i32, i64)>, PipelineError>)
        requires
            offsets_have_successor(offsets@),
        ensures
            !self.is_connected() ==> (r matches Err(e) && is_not_connected(e, "kafka"@)),
            self.is_connected() ==> (r matches Ok(c) && commits_view(c@) == commits_of(
                split(offsets@, ','),
                strings_view(self.settings().topics@),
            )),
    {
        if !self.connected {
            return Err(not_connected("kafka"));
        }
        Ok(commits_for(offsets, &self.config.topics))
    }

    /// Drops the consumer and forgets the offsets.
    pub fn disconnect(&mut self)
        ensures
            !final(self).is_connected(),
            final(self).offsets() == Map::<i32, i64>::empty(),
            final(self).settings() == old(self).settings(),
    {
        self.connected = false;
        self.current_partition_offsets.clear();
    }
}

// ───────────────────────────── failures ─────────────────────────────

/// The error where the consumer cannot be created; `detail` is the client's
/// complaint.
pub fn consumer_error(detail: &str) -> (e: PipelineError)
    ensures
        is_connection_failure(e, "kafka"@, "Failed to create Kafka consumer: "@ + detail@),
{
    PipelineError::ConnectionFailed {
        connector: string_from_chars(&chars_of("kafka")),
        message: concat2("Failed to create Kafka consumer: ", detail),
    }
}

/// The error where the consumer cannot subscribe to the topics.
pub fn subscribe_error(detail: &str) -> (e: PipelineError)
    ensures
        is_connection_failure(e, "kafka"@, "Failed to subscribe to topics: "@ + detail@),
{
    PipelineError::ConnectionFailed {
        connector: string_from_chars(&chars_of("kafka")),
        message: concat2("Failed to subscribe to topics: ", detail),
    }
}

/// The error where the commit of acknowledged offsets fails.
pub fn commit_error(detail: &str) -> (e: PipelineError)
    ensures
        is_internal(e, "Failed to commit Kafka offsets: "@ + detail@),
{
    PipelineError::Internal(concat2("Failed to commit Kafka offsets: ", detail))
}

} // verus!
