//! The stdin source and the stdout sink, and the receipt a sink gives for a
//! written batch.
use vstd::prelude::*;
use crate::batch::{batch_wf, column_view, columns_view, fields_view, Batch, BatchView, Cell,
    CellView, DataKind, Field, FieldView};
use crate::connectors::kafka::{is_not_connected, not_connected};
use crate::error::{is_internal, is_sink_failure, PipelineError};
use crate::text::{chars_of, concat2, string_from_chars, trim, trim_chars};
use crate::types::WriteReceipt;

verus! {

// ───────────────────────────── stdin ─────────────────────────────

/// The lines that make rows: each line trimmed, the empty ones left out.
pub open spec fn kept_lines(lines: Seq<Seq<char>>) -> Seq<Seq<char>>
    decreases lines.len(),
{
    if lines.len() == 0 {
        Seq::empty()
    } else {
        let prev = kept_lines(lines.drop_last());
        if trim(lines.last()).len() == 0 {
            prev
        } else {
            prev.push(trim(lines.last()))
        }
    }
}

/// The schema of a stdin batch.
pub open spec fn stdin_schema() -> Seq<FieldView> {
    seq![FieldView { name: "raw_json"@, data_type: DataKind::Utf8, nullable: false }]
}

/// The batch made of the read `lines`: one `raw_json` row per kept line.
pub open spec fn stdin_batch(lines: Seq<Seq<char>>) -> BatchView {
    BatchView {
        fields: stdin_schema(),
        columns: seq![kept_lines(lines).map_values(|l: Seq<char>| CellView::Text(l))],
        num_rows: kept_lines(lines).len(),
    }
}

/// Reads JSON lines from standard input.
pub struct StdinSource {
    connected: bool,
    batch_size: usize,
}

impl StdinSource {
    /// A disconnected source that reads up to 100 lines per batch.
    pub fn new() -> (r: StdinSource)
        ensures
            !r.is_connected(),
            r.lines_per_batch() == 100,
    {
        StdinSource { connected: false, batch_size: 100 }
    }

    pub closed spec fn is_connected(&self) -> bool {
        self.connected
    }

    pub closed spec fn lines_per_batch(&self) -> nat {
        self.batch_size as nat
    }

    /// The connector's name.
    pub fn name(&self) -> (r: &'static str)
        ensures
            r@ == "stdin"@,
    {
        "stdin"
    }

    /// The most lines read for one batch.
    pub fn batch_size(&self) -> (r: usize)
        ensures
            r == self.lines_per_batch(),
    {
        self.batch_size
    }

    /// Whether the reader is open.
    pub fn connected(&self) -> (r: bool)
        ensures
            r == self.is_connected(),
    {
        self.connected
    }

    /// Records that the reader was opened.
    pub fn connect(&mut self)
        ensures
            final(self).is_connected(),
            final(self).lines_per_batch() == old(self).lines_per_batch(),
    {
        self.connected = true;
    }

    /// Records that the reader was closed.
    pub fn disconnect(&mut self)
        ensures
            !final(self).is_connected(),
            final(self).lines_per_batch() == old(self).lines_per_batch(),
    {
        self.connected = false;
    }

    /// The batch of the lines read: an error where not connected; otherwise
    /// `stdin_batch` of them.
    pub fn poll_batch(&self, lines: &Vec<String>) -> (r: Result<Batch, PipelineError>)
        ensures
            !self.is_connected() ==> (r matches Err(e) && is_not_connected(e, "stdin"@)),
            self.is_connected() ==> (r matches Ok(b) && b@ == stdin_batch(
                lines@.map_values(|l: String| l@),
            )),
    {
        if !self.connected {
            return Err(not_connected("stdin"));
        }
        Ok(stdin_batch_exec(lines))
    }
}

/// The error where standard input cannot be read; `detail` is the reader's
/// complaint.
pub fn stdin_read_error(detail: &str) -> (e: PipelineError)
    ensures
        is_internal(e, "Stdin read error: "@ + detail@),
{
    PipelineError::Internal(concat2("Stdin read error: ", detail))
}

/// The batch of the lines read (see `stdin_batch`).
pub fn stdin_batch_exec(lines: &Vec<String>) -> (r: Batch)
    ensures
        r@ == stdin_batch(lines@.map_values(|l: String| l@)),
{
    let ghost lv = lines@.map_values(|l: String| l@);
    let mut cells: Vec<Cell> = Vec::new();
    let mut i: usize = 0;
    while i < lines.len()
        invariant
            i <= lines@.len(),
            lv == lines@.map_values(|l: String| l@),
            column_view(cells@) == kept_lines(lv.subrange(0, i as int)).map_values(
                |l: Seq<char>| CellView::Text(l),
            ),
        decreases lines.len() - i,
    {
        let ghost cur = lv.subrange(0, i + 1);
        assert(cur.drop_last() =~= lv.subrange(0, i as int));
        assert(cur.last() == lines@[i as int]@);
        let t = trim_chars(&chars_of(lines[i].as_str()));
        if t.len() > 0 {
            let ghost before = column_view(cells@);
            cells.push(Cell::Text(string_from_chars(&t)));
            assert(column_view(cells@) =~= before.push(CellView::Text(t@)));
            assert(kept_lines(cur).map_values(|l: Seq<char>| CellView::Text(l)) =~= kept_lines(
                lv.subrange(0, i as int),
            ).map_values(|l: Seq<char>| CellView::Text(l)).push(CellView::Text(t@)));
        }
        i = i + 1;
    }
    assert(lv.subrange(0, lines@.len() as int) =~= lv);
    let mut fields: Vec<Field> = Vec::new();
    fields.push(Field::new("raw_json", DataKind::Utf8, false));
    assert(fields_view(fields@) =~= stdin_schema());
    let n = cells.len();
    let mut columns: Vec<Vec<Cell>> = Vec::new();
    columns.push(cells);
    let ghost v = stdin_batch(lv);
    assert(columns_view(columns@) =~= v.columns);
    if n == 0 {
        let b = Batch::new_empty(fields);
        assert(b@.columns[0] =~= v.columns[0]);
        assert(b@.columns =~= v.columns);
        return b;
    }
    assert(batch_wf(v)) by {
        assert forall|r: int| 0 <= r < v.columns[0].len() implies crate::batch::cell_fits(
            DataKind::Utf8,
            #[trigger] v.columns[0][r],
        ) by {}
    }
    Batch::from_parts(fields, columns, n)
}

// ───────────────────────────── stdout ─────────────────────────────

/// Writes batches as JSON lines to standard output.
pub struct StdoutSink {
    total_rows: u64,
}

impl StdoutSink {
    /// A sink that has written nothing yet.
    pub fn new() -> (r: StdoutSink)
        ensures
            r.rows() == 0,
    {
        StdoutSink { total_rows: 0 }
    }

    pub closed spec fn rows(&self) -> nat {
        self.total_rows as nat
    }

    /// The connector's name.
    pub fn name(&self) -> (r: &'static str)
        ensures
            r@ == "stdout"@,
    {
        "stdout"
    }

    /// The rows written so far.
    pub fn total_rows(&self) -> (r: u64)
        ensures
            r == self.rows(),
    {
        self.total_rows
    }

    /// Records a batch of `num_rows` rows printed as `bytes` bytes in
    /// `duration`, and gives its receipt.
    pub fn record_write(&mut self, num_rows: u64, bytes: u64, duration: std::time::Duration) -> (r:
        WriteReceipt)
        requires
            old(self).rows() + num_rows <= u64::MAX,
        ensures
            final(self).rows() == old(self).rows() + num_rows,
            r.rows_written == num_rows,
            r.bytes_written == bytes,
            r.duration == duration,
    {
        self.total_rows = self.total_rows + num_rows;
        WriteReceipt::new(num_rows, bytes, duration)
    }

    /// The outcome of printing a batch of `num_rows` rows, given what the JSON
    /// writer gave: the number of bytes printed, or its complaint. Printed rows
    /// are counted and receipted; a complaint is a sink write failure (no
    /// retries) and counts nothing.
    pub fn finish_write(&mut self, num_rows: u64, printed: Result<u64, String>, duration: std::time::Duration) -> (r:
        Result<WriteReceipt, PipelineError>)
        requires
            old(self).rows() + num_rows <= u64::MAX,
        ensures
            match printed {
                Ok(bytes) => final(self).rows() == old(self).rows() + num_rows && (r matches Ok(w)
                    && w.rows_written == num_rows && w.bytes_written == bytes && w.duration
                    == duration),
                Err(m) => final(self).rows() == old(self).rows() && (r matches Err(e)
                    && is_sink_failure(e, "stdout"@, 0, m@)),
            },
    {
        match printed {
            Ok(bytes) => Ok(self.record_write(num_rows, bytes, duration)),
            Err(m) => Err(
                PipelineError::SinkWriteFailed {
                    connector: string_from_chars(&chars_of("stdout")),
                    retries: 0,
                    message: m,
                },
            ),
        }
    }
}

} // verus!
