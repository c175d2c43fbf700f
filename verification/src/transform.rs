//! Transformations applied to each batch: renaming fields, filtering rows by a
//! boolean column, and ordered chains of such steps.
use vstd::prelude::*;
use crate::batch::{
    batch_wf, column_view, columns_view, fields_view, first_field_named, Batch, BatchView, Cell,
    CellView, DataKind, Field, FieldView,
};
use crate::config::FieldMapping;
use crate::error::PipelineError;
use crate::text::{
    chars_of, copy_string, decimal, decimal_chars, decimal_string, parse_i64, parse_signed, push_chars,
    push_str, str_eq, string_from_chars,
};

verus! {

/// What a failed transformation reports: the transform's name and a message.
pub type TransformFailure = (Seq<char>, Seq<char>);

/// Whether `r` is the executable counterpart of the specified outcome `s`.
pub open spec fn outcome_matches(
    r: Result<Batch, PipelineError>,
    s: Result<BatchView, TransformFailure>,
) -> bool {
    match s {
        Ok(v) => r matches Ok(b) && b@ == v,
        Err(f) => r matches Err(PipelineError::TransformFailed { transform, message })
            && transform@ == f.0 && message@ == f.1,
    }
}

/// The message arrow gives for a batch without columns.
pub open spec fn no_column_message() -> Seq<char> {
    "Invalid argument error: must either specify a row count or at least one column"@
}

// ───────────────────────────── field mapper ─────────────────────────────

/// The column type that a cast names: "string", "integer", "float" or
/// "timestamp" (milliseconds since the epoch).
pub open spec fn cast_kind(name: Seq<char>) -> Option<DataKind> {
    if name == "string"@ {
        Some(DataKind::Utf8)
    } else if name == "integer"@ {
        Some(DataKind::Int64)
    } else if name == "float"@ {
        Some(DataKind::Float64)
    } else if name == "timestamp"@ {
        Some(DataKind::Timestamp)
    } else {
        None
    }
}

/// The decimal text of an integer, with a minus sign where it is negative.
pub open spec fn int_text(i: int) -> Seq<char> {
    if i < 0 {
        "-"@ + decimal((-i) as nat)
    } else {
        decimal(i as nat)
    }
}

/// The text of a boolean.
pub open spec fn bool_text(b: bool) -> Seq<char> {
    if b {
        "true"@
    } else {
        "false"@
    }
}

/// A cell of a column of type `from` cast to type `to`, where it can be: a
/// null stays null; to text, integers and timestamps give their decimal
/// text, booleans `true` or `false`, text itself; to integer, integers and
/// timestamps keep their value, booleans give 1 or 0, text its decimal value
/// where it holds one that fits; to timestamp, integers and timestamps keep
/// their value; to float, floats keep theirs. Dates cast to nothing.
pub open spec fn cast_cell(from: DataKind, to: DataKind, c: CellView) -> Option<CellView> {
    match c {
        CellView::Null => Some(CellView::Null),
        CellView::Int(i) => if from != DataKind::Date32 && to == DataKind::Utf8 {
            Some(CellView::Text(int_text(i as int)))
        } else if from != DataKind::Date32 && (to == DataKind::Int64 || to == DataKind::Timestamp) {
            Some(CellView::Int(i))
        } else {
            None
        },
        CellView::Bool(v) => if to == DataKind::Utf8 {
            Some(CellView::Text(bool_text(v)))
        } else if to == DataKind::Int64 {
            Some(CellView::Int(if v { 1 } else { 0 }))
        } else {
            None
        },
        CellView::Text(t) => if to == DataKind::Utf8 {
            Some(CellView::Text(t))
        } else if to == DataKind::Int64 {
            match parse_signed(t, i64::MIN as int, i64::MAX as int) {
                Some(v) => Some(CellView::Int(v as i64)),
                None => None,
            }
        } else {
            None
        },
        CellView::Float(x) => if to == DataKind::Float64 {
            Some(CellView::Float(x))
        } else {
            None
        },
        CellView::Wide(_) => None,
    }
}

/// Whether every cell of `col` can be cast.
pub open spec fn column_casts(from: DataKind, to: DataKind, col: Seq<CellView>) -> bool {
    forall|r: int| 0 <= r < col.len() ==> (#[trigger] cast_cell(from, to, col[r])) is Some
}

/// The cells of `col` cast (see `cast_cell`).
pub open spec fn cast_column(from: DataKind, to: DataKind, col: Seq<CellView>) -> Seq<CellView> {
    col.map_values(|c: CellView| cast_cell(from, to, c).unwrap())
}

/// What one mapping makes of `b`: nothing where `b` has no field of its
/// source name; otherwise the first such column under the sink name, cast
/// where the mapping names a cast, or the failure to cast it.
pub open spec fn mapping_step(b: BatchView, mp: FieldMapping) -> Option<
    Result<(FieldView, Seq<CellView>), Seq<char>>,
> {
    match first_field_named(b.fields, mp.source_field@) {
        None => None,
        Some(i) => {
            let f = b.fields[i];
            let col = b.columns[i];
            match mp.cast {
                None => Some(
                    Ok((FieldView { name: mp.sink_field@, data_type: f.data_type, nullable: f.nullable }, col)),
                ),
                Some(c) => match cast_kind(c@) {
                    None => Some(Err(unknown_cast_message(c@, mp.source_field@))),
                    Some(k) => if column_casts(f.data_type, k, col) {
                        Some(
                            Ok(
                                (
                                    FieldView { name: mp.sink_field@, data_type: k, nullable: f.nullable },
                                    cast_column(f.data_type, k, col),
                                ),
                            ),
                        )
                    } else {
                        Some(Err(failed_cast_message(c@, mp.source_field@)))
                    },
                },
            }
        },
    }
}

/// The message for a cast that names no column type.
pub open spec fn unknown_cast_message(cast: Seq<char>, field: Seq<char>) -> Seq<char> {
    "Unknown cast '"@ + cast + "' for field '"@ + field + "'"@
}

/// The message for a column with a cell that cannot be cast.
pub open spec fn failed_cast_message(cast: Seq<char>, field: Seq<char>) -> Seq<char> {
    "Cannot cast field '"@ + field + "' to "@ + cast
}

/// The fields and columns that the mappings `m` make of `b`, in mapping
/// order, or the message of the first mapping that fails.
pub open spec fn mapped(b: BatchView, m: Seq<FieldMapping>) -> Result<
    (Seq<FieldView>, Seq<Seq<CellView>>),
    Seq<char>,
>
    decreases m.len(),
{
    if m.len() == 0 {
        Ok((Seq::empty(), Seq::empty()))
    } else {
        match mapped(b, m.drop_last()) {
            Err(e) => Err(e),
            Ok((fs, cs)) => match mapping_step(b, m.last()) {
                None => Ok((fs, cs)),
                Some(Ok((f, c))) => Ok((fs.push(f), cs.push(c))),
                Some(Err(e)) => Err(e),
            },
        }
    }
}

/// What the field mapper with mappings `m` makes of `b`: `b` itself where
/// there are no mappings; otherwise, for each mapping whose source field `b`
/// has (the first field of that name), that column under the sink name,
/// cast where the mapping says so; a failure where a cast fails, or where no
/// mapping matches.
pub open spec fn field_mapper_spec(m: Seq<FieldMapping>, b: BatchView) -> Result<
    BatchView,
    TransformFailure,
> {
    if m.len() == 0 {
        Ok(b)
    } else {
        match mapped(b, m) {
            Err(e) => Err(("field_mapper"@, e)),
            Ok((fs, cs)) => if fs.len() == 0 {
                Err(("field_mapper"@, no_column_message()))
            } else {
                Ok(BatchView { fields: fs, columns: cs, num_rows: b.num_rows })
            },
        }
    }
}

/// A column that can be cast keeps its length, its nulls and only its nulls,
/// and fits the type cast to.
pub proof fn lemma_cast_column(from: DataKind, to: DataKind, col: Seq<CellView>)
    requires
        column_casts(from, to, col),
        to == DataKind::Utf8 || to == DataKind::Int64 || to == DataKind::Float64 || to
            == DataKind::Timestamp,
    ensures
        cast_column(from, to, col).len() == col.len(),
        crate::batch::column_fits(to, cast_column(from, to, col)),
        crate::batch::has_no_null(col) ==> crate::batch::has_no_null(cast_column(from, to, col)),
{
    let r = cast_column(from, to, col);
    assert forall|j: int| 0 <= j < r.len() implies crate::batch::cell_fits(to, #[trigger] r[j]) by {
        assert(cast_cell(from, to, col[j]) is Some);
    }
    if crate::batch::has_no_null(col) {
        assert forall|j: int| 0 <= j < r.len() implies !(#[trigger] r[j] is Null) by {
            assert(cast_cell(from, to, col[j]) is Some);
            assert(!(col[j] is Null));
        }
    }
}

pub proof fn lemma_mapped_shape(b: BatchView, m: Seq<FieldMapping>)
    requires
        batch_wf(b),
    ensures
        mapped(b, m) matches Ok((fs, cs)) ==> {
            &&& fs.len() == cs.len()
            &&& forall|c: int|
                0 <= c < cs.len() ==> {
                    &&& (#[trigger] cs[c]).len() == b.num_rows
                    &&& crate::batch::column_fits(fs[c].data_type, cs[c])
                    &&& !fs[c].nullable ==> crate::batch::has_no_null(cs[c])
                }
        },
    decreases m.len(),
{
    if m.len() > 0 {
        lemma_mapped_shape(b, m.drop_last());
        crate::batch::lemma_first_field_from(b.fields, m.last().source_field@, 0);
        match first_field_named(b.fields, m.last().source_field@) {
            Some(i) => {
                assert(b.columns[i].len() == b.num_rows);
                assert(crate::batch::column_fits(b.fields[i].data_type, b.columns[i]));
                assert(!b.fields[i].nullable ==> crate::batch::has_no_null(b.columns[i]));
                match m.last().cast {
                    Some(c) => match cast_kind(c@) {
                        Some(k) => if column_casts(b.fields[i].data_type, k, b.columns[i]) {
                            lemma_cast_column(b.fields[i].data_type, k, b.columns[i]);
                        },
                        None => {},
                    },
                    None => {},
                }
            },
            None => {},
        }
    }
}

proof fn lemma_mapped_step(b: BatchView, m: Seq<FieldMapping>, k: int)
    requires
        0 <= k < m.len(),
    ensures
        mapped(b, m.subrange(0, k + 1)) == match mapped(b, m.subrange(0, k)) {
            Err(e) => Err(e),
            Ok((fs, cs)) => match mapping_step(b, m[k]) {
                None => Ok((fs, cs)),
                Some(Ok((f, c))) => Ok((fs.push(f), cs.push(c))),
                Some(Err(e)) => Err(e),
            },
        },
{
    let cur = m.subrange(0, k + 1);
    assert(cur.drop_last() =~= m.subrange(0, k));
    assert(cur.last() == m[k]);
}

proof fn lemma_mapped_err_stays(b: BatchView, m: Seq<FieldMapping>, k: int, j: int, e: Seq<char>)
    requires
        0 <= k <= j <= m.len(),
        mapped(b, m.subrange(0, k)) == Err::<(Seq<FieldView>, Seq<Seq<CellView>>), Seq<char>>(e),
    ensures
        mapped(b, m.subrange(0, j)) == Err::<(Seq<FieldView>, Seq<Seq<CellView>>), Seq<char>>(e),
    decreases j - k,
{
    if j > k {
        lemma_mapped_err_stays(b, m, k, j - 1, e);
        lemma_mapped_step(b, m, j - 1);
    }
}

fn int_text_exec(i: i64) -> (r: String)
    ensures
        r@ == int_text(i as int),
{
    if i < 0 {
        let m: u64 = (-(i as i128)) as u64;
        let mut v = chars_of("-");
        push_chars(&mut v, &decimal_chars(m));
        string_from_chars(&v)
    } else {
        decimal_string(i as u64)
    }
}

fn bool_text_exec(b: bool) -> (r: String)
    ensures
        r@ == bool_text(b),
{
    if b {
        string_from_chars(&chars_of("true"))
    } else {
        string_from_chars(&chars_of("false"))
    }
}

/// See `cast_kind`.
pub fn cast_kind_exec(name: &str) -> (r: Option<DataKind>)
    ensures
        r == cast_kind(name@),
{
    if str_eq(name, "string") {
        Some(DataKind::Utf8)
    } else if str_eq(name, "integer") {
        Some(DataKind::Int64)
    } else if str_eq(name, "float") {
        Some(DataKind::Float64)
    } else if str_eq(name, "timestamp") {
        Some(DataKind::Timestamp)
    } else {
        None
    }
}

/// See `cast_cell`.
pub fn cast_cell_exec(from: DataKind, to: DataKind, c: &Cell) -> (r: Option<Cell>)
    ensures
        match cast_cell(from, to, c@) {
            Some(v) => r matches Some(x) && x@ == v,
            None => r is None,
        },
{
    match c {
        Cell::Null => Some(Cell::Null),
        Cell::Int(i) => if from != DataKind::Date32 && to == DataKind::Utf8 {
            Some(Cell::Text(int_text_exec(*i)))
        } else if from != DataKind::Date32 && (to == DataKind::Int64 || to == DataKind::Timestamp) {
            Some(Cell::Int(*i))
        } else {
            None
        },
        Cell::Bool(v) => if to == DataKind::Utf8 {
            Some(Cell::Text(bool_text_exec(*v)))
        } else if to == DataKind::Int64 {
            Some(Cell::Int(if *v { 1 } else { 0 }))
        } else {
            None
        },
        Cell::Text(t) => if to == DataKind::Utf8 {
            Some(Cell::Text(copy_string(t)))
        } else if to == DataKind::Int64 {
            match parse_i64(t.as_str()) {
                Some(v) => Some(Cell::Int(v)),
                None => None,
            }
        } else {
            None
        },
        Cell::Float(x) => if to == DataKind::Float64 {
            Some(Cell::Float(*x))
        } else {
            None
        },
        Cell::Wide(_) => None,
    }
}

/// The cells of `col` cast, or `None` where one of them cannot be.
pub fn cast_column_exec(from: DataKind, to: DataKind, col: &Vec<Cell>) -> (r: Option<Vec<Cell>>)
    ensures
        column_casts(from, to, column_view(col@)) ==> (r matches Some(v) && column_view(v@)
            == cast_column(from, to, column_view(col@))),
        !column_casts(from, to, column_view(col@)) ==> r is None,
{
    let ghost cv = column_view(col@);
    let mut out: Vec<Cell> = Vec::new();
    let mut i: usize = 0;
    while i < col.len()
        invariant
            i <= col@.len(),
            cv == column_view(col@),
            cv.len() == col@.len(),
            column_view(out@) == cast_column(from, to, cv.subrange(0, i as int)),
            forall|r: int| 0 <= r < i ==> (#[trigger] cast_cell(from, to, cv[r])) is Some,
        decreases col.len() - i,
    {
        assert(cv[i as int] == col@[i as int]@);
        match cast_cell_exec(from, to, &col[i]) {
            Some(x) => {
                let ghost before = out@;
                out.push(x);
                assert(column_view(out@) =~= column_view(before).push(x@));
                assert(cv.subrange(0, i + 1) =~= cv.subrange(0, i as int).push(cv[i as int]));
                assert(cast_column(from, to, cv.subrange(0, i + 1)) =~= cast_column(
                    from,
                    to,
                    cv.subrange(0, i as int),
                ).push(cast_cell(from, to, cv[i as int]).unwrap()));
            },
            None => {
                assert(!column_casts(from, to, cv));
                return None;
            },
        }
        i = i + 1;
    }
    assert(cv.subrange(0, col@.len() as int) =~= cv);
    Some(out)
}

fn transform_failure(message: Vec<char>) -> (e: PipelineError)
    ensures
        e matches PipelineError::TransformFailed { transform, message: m } && transform@
            == "field_mapper"@ && m@ == message@,
{
    PipelineError::TransformFailed {
        transform: string_from_chars(&chars_of("field_mapper")),
        message: string_from_chars(&message),
    }
}

/// Renames columns according to the configured field mappings.
pub struct FieldMapper {
    mappings: Vec<FieldMapping>,
}

impl FieldMapper {
    /// A mapper with these mappings.
    pub fn new(mappings: Vec<FieldMapping>) -> (r: FieldMapper)
        ensures
            r.mappings() == mappings@,
    {
        FieldMapper { mappings }
    }

    /// The mappings, in order.
    pub closed spec fn mappings(&self) -> Seq<FieldMapping> {
        self.mappings@
    }

    /// The transform's name.
    pub fn name(&self) -> (r: &'static str)
        ensures
            r@ == "field_mapper"@,
    {
        "field_mapper"
    }

    /// Applies the mappings to `batch` (see `field_mapper_spec`).
    pub fn transform(&self, batch: Batch) -> (r: Result<Batch, PipelineError>)
        ensures
            outcome_matches(r, field_mapper_spec(self.mappings(), batch@)),
    {
        if self.mappings.len() == 0 {
            return Ok(batch);
        }
        let n = batch.num_rows();
        let ghost b = batch@;
        let mut new_fields: Vec<Field> = Vec::new();
        let mut new_columns: Vec<Vec<Cell>> = Vec::new();
        let mut k: usize = 0;
        assert(self.mappings@.subrange(0, 0) =~= Seq::<FieldMapping>::empty());
        assert(fields_view(new_fields@) =~= Seq::<FieldView>::empty());
        assert(columns_view(new_columns@) =~= Seq::<Seq<CellView>>::empty());
        while k < self.mappings.len()
            invariant
                k <= self.mappings@.len(),
                b == batch@,
                batch_wf(b),
                n == b.num_rows,
                mapped(b, self.mappings@.subrange(0, k as int)) == Ok::<
                    (Seq<FieldView>, Seq<Seq<CellView>>),
                    Seq<char>,
                >((fields_view(new_fields@), columns_view(new_columns@))),
            decreases self.mappings.len() - k,
        {
            proof {
                lemma_mapped_step(b, self.mappings@, k as int);
            }
            let mapping = &self.mappings[k];
            proof {
                crate::batch::lemma_first_field_from(b.fields, self.mappings@[k as int].source_field@, 0);
            }
            match batch.index_of(mapping.source_field.as_str()) {
                Some(idx) => {
                    let orig = batch.field(idx);
                    let (f, col) = match &mapping.cast {
                        None => (
                            Field {
                                name: copy_string(&mapping.sink_field),
                                data_type: orig.data_type,
                                nullable: orig.nullable,
                            },
                            copy_column(batch.column(idx)),
                        ),
                        Some(c) => match cast_kind_exec(c.as_str()) {
                            None => {
                                let mut m = chars_of("Unknown cast '");
                                push_str(&mut m, c.as_str());
                                push_str(&mut m, "' for field '");
                                push_str(&mut m, mapping.source_field.as_str());
                                push_str(&mut m, "'");
                                proof {
                                    lemma_mapped_err_stays(
                                        b,
                                        self.mappings@,
                                        k + 1,
                                        self.mappings@.len() as int,
                                        m@,
                                    );
                                    assert(self.mappings@.subrange(0, self.mappings@.len() as int)
                                        =~= self.mappings@);
                                }
                                return Err(transform_failure(m));
                            },
                            Some(kind) => match cast_column_exec(orig.data_type, kind, batch.column(idx)) {
                                Some(cc) => (
                                    Field {
                                        name: copy_string(&mapping.sink_field),
                                        data_type: kind,
                                        nullable: orig.nullable,
                                    },
                                    cc,
                                ),
                                None => {
                                    let mut m = chars_of("Cannot cast field '");
                                    push_str(&mut m, mapping.source_field.as_str());
                                    push_str(&mut m, "' to ");
                                    push_str(&mut m, c.as_str());
                                    proof {
                                        lemma_mapped_err_stays(
                                            b,
                                            self.mappings@,
                                            k + 1,
                                            self.mappings@.len() as int,
                                            m@,
                                        );
                                        assert(self.mappings@.subrange(0, self.mappings@.len() as int)
                                            =~= self.mappings@);
                                    }
                                    return Err(transform_failure(m));
                                },
                            },
                        },
                    };
                    let ghost fv = f@;
                    let ghost cv = column_view(col@);
                    let ghost old_f = new_fields@;
                    let ghost old_c = new_columns@;
                    new_fields.push(f);
                    new_columns.push(col);
                    assert(fields_view(new_fields@) =~= fields_view(old_f).push(fv));
                    assert(columns_view(new_columns@) =~= columns_view(old_c).push(cv));
                },
                None => {},
            }
            k = k + 1;
        }
        assert(self.mappings@.subrange(0, self.mappings@.len() as int) =~= self.mappings@);
        proof {
            lemma_mapped_shape(b, self.mappings@);
        }
        if new_columns.len() == 0 {
            return Err(
                PipelineError::TransformFailed {
                    transform: string_from_chars(&chars_of("field_mapper")),
                    message: string_from_chars(
                        &chars_of(
                            "Invalid argument error: must either specify a row count or at least one column",
                        ),
                    ),
                },
            );
        }
        let ghost out = BatchView {
            fields: fields_view(new_fields@),
            columns: columns_view(new_columns@),
            num_rows: n as nat,
        };
        assert(batch_wf(out));
        Ok(Batch::from_parts(new_fields, new_columns, n))
    }
}

/// A copy of a column.
pub fn copy_column(c: &Vec<Cell>) -> (r: Vec<Cell>)
    ensures
        column_view(r@) == column_view(c@),
{
    let mut r: Vec<Cell> = Vec::new();
    let mut i: usize = 0;
    while i < c.len()
        invariant
            i <= c@.len(),
            r@.len() == i,
            forall|j: int| 0 <= j < i ==> (#[trigger] r@[j])@ == c@[j]@,
        decreases c.len() - i,
    {
        r.push(c[i].copy());
        i = i + 1;
    }
    assert(column_view(r@) =~= column_view(c@));
    r
}

// ───────────────────────────── row filter ─────────────────────────────

/// Whether a mask cell keeps its row: only `true` does (a null drops it).
pub open spec fn keeps(c: CellView) -> bool {
    c == CellView::Bool(true)
}

/// The cells of `col` whose rows `mask` keeps, in order.
pub open spec fn filter_by(col: Seq<CellView>, mask: Seq<CellView>) -> Seq<CellView>
    decreases col.len(),
{
    if col.len() == 0 || mask.len() == 0 {
        Seq::empty()
    } else {
        let prev = filter_by(col.drop_last(), mask.drop_last());
        if keeps(mask.last()) {
            prev.push(col.last())
        } else {
            prev
        }
    }
}

/// The number of rows that `mask` keeps.
pub open spec fn count_kept(mask: Seq<CellView>) -> nat
    decreases mask.len(),
{
    if mask.len() == 0 {
        0
    } else {
        count_kept(mask.drop_last()) + if keeps(mask.last()) {
            1nat
        } else {
            0nat
        }
    }
}

pub proof fn lemma_filter_len(col: Seq<CellView>, mask: Seq<CellView>)
    requires
        col.len() == mask.len(),
    ensures
        filter_by(col, mask).len() == count_kept(mask),
        count_kept(mask) <= mask.len(),
    decreases col.len(),
{
    if col.len() > 0 {
        lemma_filter_len(col.drop_last(), mask.drop_last());
    }
}

pub proof fn lemma_filter_fits(k: DataKind, col: Seq<CellView>, mask: Seq<CellView>)
    requires
        col.len() == mask.len(),
        crate::batch::column_fits(k, col),
    ensures
        crate::batch::column_fits(k, filter_by(col, mask)),
    decreases col.len(),
{
    if col.len() > 0 {
        lemma_filter_fits(k, col.drop_last(), mask.drop_last());
        let prev = filter_by(col.drop_last(), mask.drop_last());
        assert(crate::batch::cell_fits(k, col[col.len() - 1]));
    }
}

pub proof fn lemma_filter_no_null(col: Seq<CellView>, mask: Seq<CellView>)
    requires
        col.len() == mask.len(),
        crate::batch::has_no_null(col),
    ensures
        crate::batch::has_no_null(filter_by(col, mask)),
    decreases col.len(),
{
    if col.len() > 0 {
        lemma_filter_no_null(col.drop_last(), mask.drop_last());
        assert(!(col[col.len() - 1] is Null));
    }
}

/// The filter's message where the column is missing.
pub open spec fn missing_column_message(col: Seq<char>) -> Seq<char> {
    "Filter column '"@ + col + "' not found in schema"@
}

/// The filter's message where the column is not boolean.
pub open spec fn not_boolean_message(col: Seq<char>) -> Seq<char> {
    "Column '"@ + col + "' is not a boolean type"@
}

/// What the row filter on column `name` makes of `b`: the rows where that
/// column (the first field so named) holds `true`, every column filtered
/// alike; a failure where the column is missing or not boolean.
pub open spec fn row_filter_spec(name: Seq<char>, b: BatchView) -> Result<
    BatchView,
    TransformFailure,
> {
    match first_field_named(b.fields, name) {
        None => Err(("row_filter"@, missing_column_message(name))),
        Some(i) => if b.fields[i].data_type != DataKind::Boolean {
            Err(("row_filter"@, not_boolean_message(name)))
        } else {
            Ok(filtered_view(b, i))
        },
    }
}

fn missing_column_error(col: &String) -> (e: PipelineError)
    ensures
        e matches PipelineError::TransformFailed { transform, message } && transform@
            == "row_filter"@ && message@ == missing_column_message(col@),
{
    let mut v = chars_of("Filter column '");
    push_chars(&mut v, &chars_of(col.as_str()));
    push_str(&mut v, "' not found in schema");
    PipelineError::TransformFailed {
        transform: string_from_chars(&chars_of("row_filter")),
        message: string_from_chars(&v),
    }
}

fn not_boolean_error(col: &String) -> (e: PipelineError)
    ensures
        e matches PipelineError::TransformFailed { transform, message } && transform@
            == "row_filter"@ && message@ == not_boolean_message(col@),
{
    let mut v = chars_of("Column '");
    push_chars(&mut v, &chars_of(col.as_str()));
    push_str(&mut v, "' is not a boolean type");
    PipelineError::TransformFailed {
        transform: string_from_chars(&chars_of("row_filter")),
        message: string_from_chars(&v),
    }
}

/// Filters rows using a boolean column as the mask.
pub struct RowFilter {
    filter_column: String,
}

impl RowFilter {
    /// A filter on the column named `filter_column`.
    pub fn new(filter_column: String) -> (r: RowFilter)
        ensures
            r.column() == filter_column@,
    {
        RowFilter { filter_column }
    }

    /// The name of the mask column.
    pub closed spec fn column(&self) -> Seq<char> {
        self.filter_column@
    }

    /// The transform's name.
    pub fn name(&self) -> (r: &'static str)
        ensures
            r@ == "row_filter"@,
    {
        "row_filter"
    }

    /// Applies the filter to `batch` (see `row_filter_spec`).
    pub fn transform(&self, batch: Batch) -> (r: Result<Batch, PipelineError>)
        ensures
            outcome_matches(r, row_filter_spec(self.column(), batch@)),
    {
        let n = batch.num_rows();
        let ghost b = batch@;
        let idx = match batch.index_of(self.filter_column.as_str()) {
            Some(i) => i,
            None => {
                return Err(missing_column_error(&self.filter_column));
            },
        };
        proof {
            crate::batch::lemma_first_field_from(b.fields, self.column(), 0);
        }
        if batch.field(idx).data_type != DataKind::Boolean {
            return Err(not_boolean_error(&self.filter_column));
        }
        let (fields, columns, _) = batch.into_parts();
        let ghost mask = b.columns[idx as int];
        let out = filter_all_columns(&columns, idx, Ghost(b));
        let kept_rows = count_true(&columns[idx]);
        proof {
            lemma_filter_result_wf(b, idx as int);
        }
        Ok(Batch::from_parts(fields, out, kept_rows))
    }
}

/// The view of a successful filter on column `i` of `b`.
pub open spec fn filtered_view(b: BatchView, i: int) -> BatchView {
    BatchView {
        fields: b.fields,
        columns: Seq::new(b.columns.len(), |c: int| filter_by(b.columns[c], b.columns[i])),
        num_rows: count_kept(b.columns[i]),
    }
}

proof fn lemma_filter_result_wf(b: BatchView, i: int)
    requires
        batch_wf(b),
        0 <= i < b.columns.len(),
    ensures
        batch_wf(filtered_view(b, i)),
{
    let mask = b.columns[i];
    let result = filtered_view(b, i);
    lemma_filter_len(mask, mask);
    assert forall|j: int| 0 <= j < result.columns.len() implies (
    #[trigger] result.columns[j]).len() == result.num_rows by {
        lemma_filter_len(b.columns[j], mask);
    }
    assert forall|j: int| 0 <= j < result.columns.len() implies crate::batch::column_fits(
        result.fields[j].data_type,
        #[trigger] result.columns[j],
    ) by {
        lemma_filter_fits(b.fields[j].data_type, b.columns[j], mask);
    }
    assert forall|j: int|
        0 <= j < result.columns.len() && !result.fields[j].nullable implies crate::batch::has_no_null(
        #[trigger] result.columns[j],
    ) by {
        lemma_filter_no_null(b.columns[j], mask);
    }
}

/// Every column of `columns` filtered by column `idx`.
fn filter_all_columns(columns: &Vec<Vec<Cell>>, idx: usize, Ghost(b): Ghost<BatchView>) -> (r: Vec<
    Vec<Cell>,
>)
    requires
        batch_wf(b),
        columns_view(columns@) == b.columns,
        idx < b.columns.len(),
    ensures
        columns_view(r@) == filtered_view(b, idx as int).columns,
{
    let ghost mask = b.columns[idx as int];
    let mut out: Vec<Vec<Cell>> = Vec::new();
    let mut c: usize = 0;
    assert(columns@[idx as int]@.len() == b.num_rows) by {
        assert(columns_view(columns@)[idx as int] == column_view(columns@[idx as int]@));
    }
    while c < columns.len()
        invariant
            c <= columns@.len(),
            batch_wf(b),
            columns_view(columns@) == b.columns,
            idx < b.columns.len(),
            columns@[idx as int]@.len() == b.num_rows,
            mask == b.columns[idx as int],
            out@.len() == c,
            forall|j: int|
                0 <= j < c ==> column_view((#[trigger] out@[j])@) == filter_by(b.columns[j], mask),
        decreases columns.len() - c,
    {
        assert(columns_view(columns@)[c as int] == column_view(columns@[c as int]@));
        assert(columns_view(columns@)[idx as int] == column_view(columns@[idx as int]@));
        assert(b.columns[c as int].len() == b.num_rows);
        let col = filter_column_by(&columns[c], &columns[idx]);
        out.push(col);
        c = c + 1;
    }
    assert(columns_view(out@) =~= filtered_view(b, idx as int).columns);
    out
}

/// The cells of `col` whose rows `mask` keeps.
fn filter_column_by(col: &Vec<Cell>, mask: &Vec<Cell>) -> (r: Vec<Cell>)
    requires
        col@.len() == mask@.len(),
    ensures
        column_view(r@) == filter_by(column_view(col@), column_view(mask@)),
{
    let ghost cv = column_view(col@);
    let ghost mv = column_view(mask@);
    let mut r: Vec<Cell> = Vec::new();
    let mut i: usize = 0;
    while i < col.len()
        invariant
            i <= col@.len(),
            col@.len() == mask@.len(),
            cv == column_view(col@),
            mv == column_view(mask@),
            column_view(r@) == filter_by(cv.subrange(0, i as int), mv.subrange(0, i as int)),
        decreases col.len() - i,
    {
        let ghost c1 = cv.subrange(0, i + 1);
        let ghost m1 = mv.subrange(0, i + 1);
        assert(c1.drop_last() =~= cv.subrange(0, i as int));
        assert(m1.drop_last() =~= mv.subrange(0, i as int));
        let keep = match &mask[i] {
            Cell::Bool(true) => true,
            _ => false,
        };
        assert(keep == keeps(m1.last()));
        if keep {
            r.push(col[i].copy());
        }
        i = i + 1;
        assert(column_view(r@) =~= filter_by(c1, m1));
    }
    assert(cv.subrange(0, col@.len() as int) =~= cv);
    assert(mv.subrange(0, col@.len() as int) =~= mv);
    r
}

/// The number of rows that `mask` keeps.
fn count_true(mask: &Vec<Cell>) -> (r: usize)
    ensures
        r == count_kept(column_view(mask@)),
{
    let ghost mv = column_view(mask@);
    let mut n: usize = 0;
    let mut i: usize = 0;
    while i < mask.len()
        invariant
            i <= mask@.len(),
            mv == column_view(mask@),
            n == count_kept(mv.subrange(0, i as int)),
            n <= i,
        decreases mask.len() - i,
    {
        let ghost m1 = mv.subrange(0, i + 1);
        assert(m1.drop_last() =~= mv.subrange(0, i as int));
        if let Cell::Bool(true) = &mask[i] {
            n = n + 1;
        }
        i = i + 1;
    }
    assert(mv.subrange(0, mask@.len() as int) =~= mv);
    n
}

// ───────────────────────────── chains ─────────────────────────────

/// One step of a transform chain.
pub enum Transform {
    FieldMapper(FieldMapper),
    RowFilter(RowFilter),
}

/// What one step makes of a batch.
pub open spec fn step_spec(t: Transform, b: BatchView) -> Result<BatchView, TransformFailure> {
    match t {
        Transform::FieldMapper(m) => field_mapper_spec(m.mappings(), b),
        Transform::RowFilter(f) => row_filter_spec(f.column(), b),
    }
}

/// What the steps `ts` make of `b`, applied in order; the first failure ends
/// the chain.
pub open spec fn chain_spec(ts: Seq<Transform>, b: BatchView) -> Result<BatchView, TransformFailure>
    decreases ts.len(),
{
    if ts.len() == 0 {
        Ok(b)
    } else {
        match chain_spec(ts.drop_last(), b) {
            Ok(v) => step_spec(ts.last(), v),
            Err(e) => Err(e),
        }
    }
}

impl Transform {
    /// The step's name.
    pub fn name(&self) -> (r: &'static str)
        ensures
            self matches Transform::FieldMapper(_) ==> r@ == "field_mapper"@,
            self matches Transform::RowFilter(_) ==> r@ == "row_filter"@,
    {
        match self {
            Transform::FieldMapper(m) => m.name(),
            Transform::RowFilter(f) => f.name(),
        }
    }

    /// Applies this step to `batch`.
    pub fn transform(&self, batch: Batch) -> (r: Result<Batch, PipelineError>)
        ensures
            outcome_matches(r, step_spec(*self, batch@)),
    {
        match self {
            Transform::FieldMapper(m) => m.transform(batch),
            Transform::RowFilter(f) => f.transform(batch),
        }
    }
}

/// An ordered sequence of transformations applied to each batch.
pub struct TransformChain {
    transformers: Vec<Transform>,
}

impl TransformChain {
    /// A chain of these steps.
    pub fn new(transformers: Vec<Transform>) -> (r: TransformChain)
        ensures
            r.steps() == transformers@,
    {
        TransformChain { transformers }
    }

    /// A chain without steps.
    pub fn empty() -> (r: TransformChain)
        ensures
            r.steps().len() == 0,
    {
        TransformChain { transformers: Vec::new() }
    }

    /// The steps, in order.
    pub closed spec fn steps(&self) -> Seq<Transform> {
        self.transformers@
    }

    /// Applies all steps in order (see `chain_spec`).
    pub fn apply(&self, batch: Batch) -> (r: Result<Batch, PipelineError>)
        ensures
            outcome_matches(r, chain_spec(self.steps(), batch@)),
    {
        let ghost b0 = batch@;
        let mut current = batch;
        let mut i: usize = 0;
        while i < self.transformers.len()
            invariant
                i <= self.transformers@.len(),
                b0 == batch@,
                chain_spec(self.transformers@.subrange(0, i as int), b0) == Ok::<
                    BatchView,
                    TransformFailure,
                >(current@),
            decreases self.transformers.len() - i,
        {
            let ghost pre = self.transformers@.subrange(0, i as int);
            let ghost cur = self.transformers@.subrange(0, i + 1);
            assert(cur.drop_last() =~= pre);
            assert(cur.last() == self.transformers@[i as int]);
            let ghost cb = current@;
            assert(chain_spec(cur, b0) == step_spec(self.transformers@[i as int], cb));
            match self.transformers[i].transform(current) {
                Ok(next) => {
                    current = next;
                },
                Err(e) => {
                    proof {
                        lemma_chain_err_prefix(self.transformers@, i as int + 1, b0);
                    }
                    return Err(e);
                },
            }
            i = i + 1;
        }
        assert(self.transformers@.subrange(0, self.transformers@.len() as int)
            =~= self.transformers@);
        Ok(current)
    }
}

/// Once a prefix of the chain fails, the whole chain fails the same way.
pub proof fn lemma_chain_err_prefix(ts: Seq<Transform>, k: int, b: BatchView)
    requires
        0 <= k <= ts.len(),
        chain_spec(ts.subrange(0, k), b) is Err,
    ensures
        chain_spec(ts, b) == chain_spec(ts.subrange(0, k), b),
    decreases ts.len() - k,
{
    if k == ts.len() {
        assert(ts.subrange(0, k) =~= ts);
    } else {
        let next = ts.subrange(0, k + 1);
        assert(next.drop_last() =~= ts.subrange(0, k));
        lemma_chain_err_prefix(ts, k + 1, b);
    }
}

} // verus!
