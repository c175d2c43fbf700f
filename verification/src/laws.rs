//! Properties that hold across calls and for all inputs.
use vstd::prelude::*;
use crate::batch::{batch_wf, first_field_named, lemma_first_field_from, BatchView, CellView, DataKind};
use crate::config::ConnectorConfig;
use crate::connectors::kafka::{
    kafka_batch, kafka_config_matches, kafka_settings, utf8_lossy, KafkaMessage, KafkaSourceConfig,
};
use crate::connectors::postgres::{param_matches, SqlParam};
use crate::connectors::settings::text_or;
use crate::dlq::{char_utf8_len, record_line, record_size};
use vstd::utf8::{char_is_scalar, encode_scalar, encode_utf8};
use crate::config::FieldMapping;
use crate::connectors::postgres::chunk_ranges;
use crate::control_plane::{
    all_labels, count_label, counts_of, filtered, label_counts, label_of, listed, passes,
    ListPipelinesQuery,
};
use crate::dlq::{
    entry_value, entry_views, keys_ascending, last_value, lemma_normalized_ascending,
    lemma_normalized_value, ndjson, normalized, record_lines, total_size, utf8_len, write_all,
    DlqConfig, DlqRecord,
};
use crate::text::join;
use crate::worker::{after_done, loop_top_phase, WorkerPhase};
use crate::engine::{lemma_status_of_push, status_of, status_step, unique_ids, StatusView};
use crate::transform::{
    chain_spec, count_kept, field_mapper_spec, filter_by, filtered_view, keeps,
    row_filter_spec, Transform,
};

verus! {

// ───────────────────────────── transforms ─────────────────────────────

/// A field mapper without mappings hands every batch back unchanged.
pub proof fn law_field_mapper_without_mappings_is_identity(b: BatchView)
    ensures
        field_mapper_spec(Seq::<FieldMapping>::empty(), b) == Ok::<BatchView, (Seq<char>, Seq<char>)>(b),
{
}

/// An empty transform chain hands every batch back unchanged.
pub proof fn law_empty_chain_is_identity(b: BatchView)
    ensures
        chain_spec(Seq::<Transform>::empty(), b) == Ok::<BatchView, (Seq<char>, Seq<char>)>(b),
{
}

/// Applying the steps `a` and then `c` is applying `a + c`: a chain is the
/// composition of its steps, and a failure stops it.
pub proof fn law_chain_composes(a: Seq<Transform>, c: Seq<Transform>, b: BatchView)
    ensures
        chain_spec(a + c, b) == match chain_spec(a, b) {
            Ok(v) => chain_spec(c, v),
            Err(e) => Err(e),
        },
    decreases c.len(),
{
    if c.len() == 0 {
        assert(a + c =~= a);
    } else {
        assert((a + c).drop_last() =~= a + c.drop_last());
        assert((a + c).last() == c.last());
        law_chain_composes(a, c.drop_last(), b);
    }
}

proof fn lemma_mask_all_kept(m: Seq<CellView>)
    ensures
        forall|r: int| 0 <= r < filter_by(m, m).len() ==> keeps(#[trigger] filter_by(m, m)[r]),
    decreases m.len(),
{
    if m.len() > 0 {
        lemma_mask_all_kept(m.drop_last());
        let prev = filter_by(m.drop_last(), m.drop_last());
        assert forall|r: int| 0 <= r < filter_by(m, m).len() implies keeps(
            #[trigger] filter_by(m, m)[r],
        ) by {
            if r < prev.len() {
                assert(filter_by(m, m)[r] == prev[r]);
            }
        }
    }
}

proof fn lemma_filter_all_kept(c: Seq<CellView>, m: Seq<CellView>)
    requires
        c.len() == m.len(),
        forall|r: int| 0 <= r < m.len() ==> keeps(#[trigger] m[r]),
    ensures
        filter_by(c, m) == c,
        count_kept(m) == m.len(),
    decreases c.len(),
{
    if c.len() > 0 {
        lemma_filter_all_kept(c.drop_last(), m.drop_last());
        assert(keeps(m[m.len() - 1]));
        assert(c.drop_last().push(c.last()) =~= c);
    } else {
        assert(c =~= Seq::<CellView>::empty());
    }
}

/// Every row that the row filter keeps has `true` in the mask column, and
/// the batch keeps its schema and has as many rows as the mask has `true`
/// cells.
pub proof fn law_row_filter_keeps_true_rows(name: Seq<char>, b: BatchView)
    requires
        batch_wf(b),
        row_filter_spec(name, b) is Ok,
    ensures
        ({
            let i = first_field_named(b.fields, name)->0;
            let v = row_filter_spec(name, b)->Ok_0;
            &&& v.fields == b.fields
            &&& v.num_rows == count_kept(b.columns[i])
            &&& forall|r: int| 0 <= r < v.columns[i].len() ==> keeps(#[trigger] v.columns[i][r])
        }),
{
    lemma_first_field_from(b.fields, name, 0);
    let i = first_field_named(b.fields, name)->0;
    lemma_mask_all_kept(b.columns[i]);
}

/// Filtering a second time by the same column changes nothing: the row
/// filter is idempotent.
pub proof fn law_row_filter_idempotent(name: Seq<char>, b: BatchView)
    requires
        batch_wf(b),
        row_filter_spec(name, b) is Ok,
    ensures
        row_filter_spec(name, row_filter_spec(name, b)->Ok_0) == row_filter_spec(name, b),
{
    lemma_first_field_from(b.fields, name, 0);
    let i = first_field_named(b.fields, name)->0;
    let v = filtered_view(b, i);
    assert(row_filter_spec(name, b) == Ok::<BatchView, (Seq<char>, Seq<char>)>(v));
    let mask = b.columns[i];
    assert(mask.len() == b.num_rows);
    lemma_mask_all_kept(mask);
    crate::transform::lemma_filter_len(mask, mask);
    let m2 = v.columns[i];
    assert(m2 == filter_by(mask, mask));
    let w = filtered_view(v, i);
    assert forall|c: int| 0 <= c < v.columns.len() implies #[trigger] w.columns[c] == v.columns[c] by {
        crate::transform::lemma_filter_len(b.columns[c], mask);
        assert(b.columns[c].len() == b.num_rows);
        lemma_filter_all_kept(v.columns[c], m2);
    }
    lemma_filter_all_kept(m2, m2);
    assert(w.columns =~= v.columns);
    assert(w == v);
}

// ───────────────────────────── PostgreSQL chunks ─────────────────────────────

/// The transaction chunks of `n` rows cover them exactly: they start at
/// `start`, each begins where the previous ended, none is empty or longer
/// than `size`, and the last ends at `n`.
pub proof fn law_chunks_cover_rows(start: nat, n: nat, size: nat)
    requires
        size > 0,
        start <= n,
    ensures
        ({
            let r = chunk_ranges(start, n, size);
            &&& (start < n <==> r.len() > 0)
            &&& r.len() > 0 ==> r[0].0 == start && r.last().1 == n
            &&& forall|k: int| 0 <= k < r.len() ==> (#[trigger] r[k]).0 < r[k].1 && r[k].1 - r[k].0 <= size
            &&& forall|k: int| 0 <= k < r.len() - 1 ==> (#[trigger] r[k]).1 == r[k + 1].0
        }),
    decreases n - start,
{
    if start < n && start + size < n {
        law_chunks_cover_rows(start + size, n, size);
        let r = chunk_ranges(start, n, size);
        let rest = chunk_ranges(start + size, n, size);
        assert(r == seq![(start, start + size)] + rest);
        assert forall|k: int| 0 <= k < r.len() - 1 implies (#[trigger] r[k]).1 == r[k + 1].0 by {
            if k > 0 {
                assert(r[k] == rest[k - 1]);
                assert(r[k + 1] == rest[k]);
            }
        }
        assert forall|k: int| 0 <= k < r.len() implies (#[trigger] r[k]).0 < r[k].1 && r[k].1
            - r[k].0 <= size by {
            if k > 0 {
                assert(r[k] == rest[k - 1]);
            }
        }
    }
}

// ───────────────────────────── listing pipelines ─────────────────────────────

proof fn lemma_filtered_pass(e: Seq<(Seq<char>, StatusView)>, f: Option<String>)
    ensures
        forall|k: int| 0 <= k < filtered(e, f).len() ==> passes(#[trigger] filtered(e, f)[k].1, f),
        filtered(e, f).len() <= e.len(),
    decreases e.len(),
{
    if e.len() > 0 {
        lemma_filtered_pass(e.drop_last(), f);
    }
}

/// A list query shows at most `limit` pipelines (100 without one), and only
/// pipelines that pass its status filter.
pub proof fn law_listing_respects_query(e: Seq<(Seq<char>, StatusView)>, q: ListPipelinesQuery)
    ensures
        listed(e, q).len() <= match q.limit {
            Some(l) => l as nat,
            None => 100,
        },
        forall|k: int| 0 <= k < listed(e, q).len() ==> passes(#[trigger] listed(e, q)[k].1, q.status),
{
    lemma_filtered_pass(e, q.status);
    let f = filtered(e, q.status);
    let l = listed(e, q);
    assert forall|k: int| 0 <= k < l.len() implies passes(#[trigger] l[k].1, q.status) by {
        let offset: nat = match q.offset {
            Some(o) => o as nat,
            None => 0,
        };
        let start = if offset < f.len() {
            offset
        } else {
            f.len()
        };
        assert(l[k] == f[start + k]);
    }
}

// ───────────────────────────── the registry ─────────────────────────────

/// Once created, a pipeline is found under its id with status starting, and
/// every other id keeps the status it had.
pub proof fn law_created_pipeline_is_found(e: Seq<(Seq<char>, StatusView)>, id: Seq<char>)
    requires
        unique_ids(e),
        status_of(e, id) is None,
    ensures
        status_of(e.push((id, StatusView::Starting)), id) == Some(StatusView::Starting),
        forall|other: Seq<char>|
            other != id ==> #[trigger] status_of(e.push((id, StatusView::Starting)), other)
                == status_of(e, other),
        unique_ids(e.push((id, StatusView::Starting))),
{
    assert forall|k: int| 0 <= k < e.len() implies (#[trigger] e[k]).0 != id by {
        if e[k].0 == id {
            assert(exists|i: int| 0 <= i < e.len() && (#[trigger] e[i]).0 == id);
        }
    }
    lemma_status_of_push(e, id, StatusView::Starting);
}

// ───────────────────────────── metrics ─────────────────────────────

/// The sum of the counts of `c`.
pub open spec fn sum_counts(c: Seq<(Seq<char>, nat)>) -> nat
    decreases c.len(),
{
    if c.len() == 0 {
        0
    } else {
        sum_counts(c.drop_last()) + c.last().1
    }
}

/// The sum over the labels `ls` of the number of pipelines with that label.
pub open spec fn sum_labels(ls: Seq<Seq<char>>, e: Seq<(Seq<char>, StatusView)>) -> nat
    decreases ls.len(),
{
    if ls.len() == 0 {
        0
    } else {
        sum_labels(ls.drop_last(), e) + count_label(e, ls.last())
    }
}

proof fn lemma_counts_of_sum(ls: Seq<Seq<char>>, e: Seq<(Seq<char>, StatusView)>)
    ensures
        sum_counts(counts_of(ls, e)) == sum_labels(ls, e),
    decreases ls.len(),
{
    if ls.len() > 0 {
        lemma_counts_of_sum(ls.drop_last(), e);
        let prev = counts_of(ls.drop_last(), e);
        if count_label(e, ls.last()) > 0 {
            let c = prev.push((ls.last(), count_label(e, ls.last())));
            assert(c.drop_last() =~= prev);
        }
    }
}

/// How many of the labels `ls` equal `t`.
spec fn matching(ls: Seq<Seq<char>>, t: Seq<char>) -> nat
    decreases ls.len(),
{
    if ls.len() == 0 {
        0
    } else {
        matching(ls.drop_last(), t) + if ls.last() == t {
            1nat
        } else {
            0nat
        }
    }
}

/// Each status has exactly one of the labels.
proof fn lemma_one_label(s: StatusView)
    ensures
        matching(all_labels(), label_of(s)) == 1,
{
    reveal_strlit("failed");
    reveal_strlit("paused");
    reveal_strlit("running");
    reveal_strlit("starting");
    reveal_strlit("stopped");
    let l = all_labels();
    let t = label_of(s);
    assert(l[0][0] == 'f' && l[1][0] == 'p' && l[2][0] == 'r' && l[3][0] == 's' && l[4][0] == 's');
    assert(l[3][2] == 'a' && l[4][2] == 'o');
    let l4 = l.drop_last();
    let l3 = l4.drop_last();
    let l2 = l3.drop_last();
    let l1 = l2.drop_last();
    let l0 = l1.drop_last();
    assert(l0.len() == 0);
    assert(l1.last() == l[0] && l2.last() == l[1] && l3.last() == l[2] && l4.last() == l[3]
        && l.last() == l[4]);
    assert(matching(l0, t) == 0);
    assert(matching(l1, t) == (if l[0] == t { 1nat } else { 0nat }));
    assert(matching(l2, t) == matching(l1, t) + (if l[1] == t { 1nat } else { 0nat }));
    assert(matching(l3, t) == matching(l2, t) + (if l[2] == t { 1nat } else { 0nat }));
    assert(matching(l4, t) == matching(l3, t) + (if l[3] == t { 1nat } else { 0nat }));
    assert(matching(l, t) == (if l[0] == t { 1nat } else { 0nat }) + (if l[1] == t { 1nat } else { 0nat })
        + (if l[2] == t { 1nat } else { 0nat }) + (if l[3] == t { 1nat } else { 0nat }) + (if l[4] == t { 1nat } else { 0nat }));
    match s {
        StatusView::Failed(_) => {
            assert(t[0] == 'f');
        },
        StatusView::Paused => {
            assert(t[0] == 'p');
        },
        StatusView::Running => {
            assert(t[0] == 'r');
        },
        StatusView::Starting => {
            assert(t[2] == 'a');
        },
        StatusView::Stopped => {
            assert(t[2] == 'o');
        },
    }
}

/// One more pipeline raises `sum_labels` by the number of the labels that
/// are its own.
proof fn lemma_sum_labels_push(
    ls: Seq<Seq<char>>,
    e: Seq<(Seq<char>, StatusView)>,
    x: (Seq<char>, StatusView),
)
    ensures
        sum_labels(ls, e.push(x)) == sum_labels(ls, e) + matching(ls, label_of(x.1)),
    decreases ls.len(),
{
    if ls.len() > 0 {
        lemma_sum_labels_push(ls.drop_last(), e, x);
        let u = e.push(x);
        assert(u.drop_last() =~= e);
    }
}

proof fn lemma_sum_labels_total(e: Seq<(Seq<char>, StatusView)>)
    ensures
        sum_labels(all_labels(), e) == e.len(),
    decreases e.len(),
{
    if e.len() == 0 {
        reveal_with_fuel(sum_labels, 6);
    } else {
        lemma_sum_labels_total(e.drop_last());
        assert(e.drop_last().push(e.last()) =~= e);
        lemma_sum_labels_push(all_labels(), e.drop_last(), e.last());
        lemma_one_label(e.last().1);
    }
}

/// The status counts of the metrics add up to the number of pipelines: every
/// pipeline is counted once, under its status.
pub proof fn law_status_counts_add_up(e: Seq<(Seq<char>, StatusView)>)
    ensures
        sum_counts(label_counts(e)) == e.len(),
{
    lemma_counts_of_sum(all_labels(), e);
    lemma_sum_labels_total(e);
}

// ───────────────────────────── the dead letter queue ─────────────────────────────

/// The statuses that the moves of a run give a pipeline from its start go
/// from starting to running and end stopped or failed: no other status is
/// reached, none is reached twice, and a stopped or failed pipeline stays so.
pub proof fn law_status_path(p: Seq<StatusView>)
    requires
        p.len() > 0,
        p[0] is Starting,
        forall|i: int, j: int| 0 <= i && j == i + 1 && j < p.len() ==> #[trigger] status_step(p[i], p[j]),
    ensures
        p.len() <= 3,
        p.len() >= 2 ==> p[1] is Running,
        p.len() == 3 ==> (p[2] is Stopped || p[2] is Failed),
{
    if p.len() >= 2 {
        assert(status_step(p[0], p[1]));
    }
    if p.len() >= 3 {
        assert(status_step(p[1], p[2]));
    }
    if p.len() >= 4 {
        assert(status_step(p[2], p[3]));
    }
}

/// The DLQ writer loses no record and reorders none: after any records are
/// added one by one, the records handed back to be written, followed by those
/// still pending, are the records pending at first followed by the added ones.
pub proof fn law_dlq_keeps_every_record(pending: Seq<DlqRecord>, records: Seq<DlqRecord>, c: DlqConfig)
    ensures
        write_all(pending, records, c).0 + write_all(pending, records, c).1 == pending + records,
    decreases records.len(),
{
    if records.len() > 0 {
        law_dlq_keeps_every_record(pending, records.drop_last(), c);
        let before = write_all(pending, records.drop_last(), c);
        assert(records.drop_last().push(records.last()) =~= records);
        assert(pending + records =~= (pending + records.drop_last()).push(records.last()));
        let all = before.1.push(records.last());
        assert(all + Seq::<DlqRecord>::empty() =~= all);
        assert(Seq::<DlqRecord>::empty() + all =~= all);
        assert((before.0 + all) =~= (before.0 + before.1).push(records.last()));
    } else {
        assert(Seq::<DlqRecord>::empty() + pending =~= pending);
        assert(pending + records =~= pending);
    }
}

// ───────────────────────────── stopping a worker ─────────────────────────────

/// A worker whose stop signal is raised flushes at the top of its loop
/// (reached after connecting, after acknowledging a batch and after backing
/// off), then disconnects the sink, then the source, and then its run ends:
/// once these steps succeed, three steps after flushing it is finished.
pub proof fn law_stopped_worker_shuts_down(s1: bool, s2: bool, s3: bool)
    ensures
        loop_top_phase(true) == WorkerPhase::Flushing,
        after_done(WorkerPhase::ConnectingSink, true) == WorkerPhase::Flushing,
        after_done(WorkerPhase::Acknowledging, true) == WorkerPhase::Flushing,
        after_done(WorkerPhase::Flushing, s1) == WorkerPhase::DisconnectingSink,
        after_done(after_done(WorkerPhase::Flushing, s1), s2) == WorkerPhase::DisconnectingSource,
        after_done(after_done(after_done(WorkerPhase::Flushing, s1), s2), s3)
            == WorkerPhase::Finished,
{
}

proof fn lemma_utf8_concat(a: Seq<char>, b: Seq<char>)
    ensures
        utf8_len(a + b) == utf8_len(a) + utf8_len(b),
    decreases b.len(),
{
    if b.len() > 0 {
        lemma_utf8_concat(a, b.drop_last());
        assert((a + b).drop_last() =~= a + b.drop_last());
        assert((a + b).last() == b.last());
    } else {
        assert(a + b =~= a);
    }
}

proof fn lemma_newline_len()
    ensures
        utf8_len("\n"@) == 1,
{
    reveal_strlit("\n");
    let n = "\n"@;
    assert(n.len() == 1 && n[0] == '\n');
    assert(n.drop_last() =~= Seq::<char>::empty());
    assert(utf8_len(n.drop_last()) == 0);
    assert(crate::dlq::char_utf8_len('\n') == 1);
}

proof fn lemma_join_lines_len(records: Seq<DlqRecord>)
    requires
        records.len() > 0,
    ensures
        utf8_len(join(record_lines(records), "\n"@)) == total_size(records)
            + records.len() - 1,
    decreases records.len(),
{
    reveal_strlit("\n");
    let lines = record_lines(records);
    if records.len() == 1 {
        assert(total_size(records.drop_last()) == 0);
    } else {
        let prev = records.drop_last();
        lemma_join_lines_len(prev);
        assert(lines.drop_last() =~= record_lines(prev));
        let j = join(lines.drop_last(), "\n"@);
        lemma_utf8_concat(j + "\n"@, lines.last());
        lemma_utf8_concat(j, "\n"@);
        lemma_newline_len();
    }
}

/// The metadata of a DLQ record is written as a map holds it: its keys
/// strictly ascend, so none occurs twice, and each key has the last value
/// that the record gives it.
pub proof fn law_metadata_is_a_map(m: Seq<(String, String)>)
    ensures
        keys_ascending(normalized(entry_views(m))),
        forall|k: Seq<char>|
            #[trigger] entry_value(normalized(entry_views(m)), k) == last_value(entry_views(m), k),
{
    lemma_normalized_ascending(entry_views(m));
    assert forall|k: Seq<char>|
        #[trigger] entry_value(normalized(entry_views(m)), k) == last_value(entry_views(m), k) by {
        lemma_normalized_value(entry_views(m), k);
    }
}

/// The NDJSON of a DLQ batch (which is never empty) takes as many bytes as
/// the estimated sizes of its records add up to, plus one newline per record:
/// the size limit of a batch bounds the object written for it.
pub proof fn law_dlq_object_size(records: Seq<DlqRecord>)
    requires
        records.len() > 0,
    ensures
        utf8_len(ndjson(records)) == total_size(records) + records.len(),
{
    lemma_newline_len();
    let lines = record_lines(records);
    lemma_utf8_concat(join(lines, "\n"@), "\n"@);
    lemma_join_lines_len(records);
}

// ───────────────────────────── connectors ─────────────────────────────

/// Each row of a polled Kafka batch holds its message: the topic, partition
/// and offset, the broker's timestamp where the message has one (the poll
/// time only where it has none), and the headers' JSON.
pub proof fn law_kafka_rows_hold_their_messages(ms: Seq<KafkaMessage>, now_ms: i64, i: int)
    requires
        0 <= i < ms.len(),
    ensures
        kafka_batch(ms, now_ms).num_rows == ms.len(),
        kafka_batch(ms, now_ms).columns[0][i] == CellView::Text(ms[i].topic@),
        kafka_batch(ms, now_ms).columns[1][i] == CellView::Int(ms[i].partition as i64),
        kafka_batch(ms, now_ms).columns[2][i] == CellView::Int(ms[i].offset),
        ms[i].timestamp_ms matches Some(t) ==> kafka_batch(ms, now_ms).columns[3][i] == CellView::Int(t),
        ms[i].timestamp_ms is None ==> kafka_batch(ms, now_ms).columns[3][i] == CellView::Int(now_ms),
        ms[i].key matches Some(b) ==> kafka_batch(ms, now_ms).columns[4][i] == CellView::Text(utf8_lossy(b@)),
        ms[i].key is None ==> kafka_batch(ms, now_ms).columns[4][i] == CellView::Text(Seq::empty()),
        ms[i].payload matches Some(b) ==> kafka_batch(ms, now_ms).columns[5][i] == CellView::Text(utf8_lossy(b@)),
        ms[i].payload is None ==> kafka_batch(ms, now_ms).columns[5][i] == CellView::Text(Seq::empty()),
        kafka_batch(ms, now_ms).columns[6][i] == CellView::Text(ms[i].headers_json@),
{
}

/// The consumer joins the configured consumer group: the consumer options
/// of settings read from a configuration set `group.id`, and only to the
/// configuration's `group_id` (`rust-data-pipeline` where it names none).
pub proof fn law_kafka_consumer_group(k: KafkaSourceConfig, c: ConnectorConfig)
    requires
        kafka_config_matches(k, c),
    ensures
        exists|i: int|
            0 <= i < kafka_settings(k).len() && #[trigger] kafka_settings(k)[i] == (
                "group.id"@,
                text_or(c.properties@, "group_id"@, "rust-data-pipeline"@),
            ),
        forall|i: int|
            0 <= i < kafka_settings(k).len() && (#[trigger] kafka_settings(k)[i]).0 == "group.id"@
                ==> kafka_settings(k)[i].1 == text_or(c.properties@, "group_id"@, "rust-data-pipeline"@),
{
    let s = kafka_settings(k);
    reveal_strlit("group.id");
    reveal_strlit("bootstrap.servers");
    reveal_strlit("client.id");
    reveal_strlit("auto.offset.reset");
    reveal_strlit("enable.auto.commit");
    reveal_strlit("security.protocol");
    reveal_strlit("sasl.mechanism");
    reveal_strlit("sasl.username");
    reveal_strlit("sasl.password");
    reveal_strlit("fetch.min.bytes");
    reveal_strlit("fetch.max.wait.ms");
    reveal_strlit("max.poll.records");
    assert(s[1] == ("group.id"@, k.group_id@));
    assert forall|i: int| 0 <= i < s.len() && i != 1 implies (#[trigger] s[i]).0.len() != 8 by {}
}

/// A value bound for the insert statement is the cell's own value: a
/// boolean, integer, timestamp, float or text cell of a column of its type is
/// bound as that very value.
pub proof fn law_bound_values_are_cell_values(k: DataKind, c: CellView, p: SqlParam)
    requires
        param_matches(p, k, c),
    ensures
        k == DataKind::Boolean ==> (c matches CellView::Bool(b) ==> p == SqlParam::Bool(b)),
        k == DataKind::Int64 ==> (c matches CellView::Int(i) ==> p == SqlParam::BigInt(i)),
        k == DataKind::Timestamp ==> (c matches CellView::Int(i) ==> p == SqlParam::TimestampMillis(i)),
        k == DataKind::Float64 ==> (c matches CellView::Float(f) ==> p == SqlParam::Double(f)),
        k == DataKind::Utf8 ==> (c matches CellView::Text(t) ==> (p matches SqlParam::Text(s) && s@ == t)),
{
}

// ───────────────────────────── engine ─────────────────────────────

/// A run moves its pipeline from starting to running, and a run that ends,
/// well or not, moves it from running to stopped or failed; nothing moves a
/// stopped or failed pipeline.
pub proof fn law_run_status_moves(to: StatusView)
    ensures
        to is Running ==> status_step(StatusView::Starting, to),
        to is Stopped ==> status_step(StatusView::Running, to),
        to is Failed ==> status_step(StatusView::Running, to),
        !status_step(StatusView::Stopped, to),
        forall|m: Seq<char>| !#[trigger] status_step(StatusView::Failed(m), to),
{
}

// ───────────────────────────── dead letter queue ─────────────────────────────

/// The size counted for a character is the length of its UTF-8 encoding.
pub proof fn law_char_size_is_utf8_length(c: char)
    ensures
        char_utf8_len(c) == encode_utf8(seq![c]).len(),
{
    char_is_scalar(c);
    assert(seq![c].drop_first() =~= Seq::<char>::empty());
    assert(seq![c][0] == c);
    assert(encode_utf8(Seq::<char>::empty()) =~= Seq::<u8>::empty());
    assert(encode_utf8(seq![c]) =~= encode_scalar(c as u32));
}

proof fn lemma_encode_utf8_push(s: Seq<char>, c: char)
    ensures
        encode_utf8(s.push(c)) == encode_utf8(s) + encode_scalar(c as u32),
    decreases s.len(),
{
    if s.len() == 0 {
        assert(s.push(c).drop_first() =~= Seq::<char>::empty());
        assert(s.push(c)[0] == c);
        assert(encode_utf8(Seq::<char>::empty()) =~= Seq::<u8>::empty());
        assert(s =~= Seq::<char>::empty());
        assert(encode_utf8(s.push(c)) =~= encode_scalar(c as u32));
    } else {
        assert(s.push(c).drop_first() =~= s.drop_first().push(c));
        lemma_encode_utf8_push(s.drop_first(), c);
        assert(encode_utf8(s.push(c)) =~= encode_utf8(s) + encode_scalar(c as u32));
    }
}

/// The size counted for a DLQ record is the byte length of its JSON line.
pub proof fn law_record_size_is_line_bytes(r: DlqRecord)
    ensures
        record_size(r) == encode_utf8(record_line(r)).len(),
{
    law_text_size_is_utf8_length(record_line(r));
}

/// The size counted for a text is the length of its UTF-8 encoding.
pub proof fn law_text_size_is_utf8_length(s: Seq<char>)
    ensures
        utf8_len(s) == encode_utf8(s).len(),
    decreases s.len(),
{
    if s.len() > 0 {
        law_text_size_is_utf8_length(s.drop_last());
        law_char_size_is_utf8_length(s.last());
        lemma_encode_utf8_push(s.drop_last(), s.last());
        assert(s.drop_last().push(s.last()) =~= s);
        assert(seq![s.last()].drop_first() =~= Seq::<char>::empty());
        assert(encode_utf8(seq![s.last()]) =~= encode_scalar(s.last() as u32));
    }
}

} // verus!
