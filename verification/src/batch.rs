//! Columnar record batches: a schema of named, typed fields and one column of
//! cells per field, all of the same length.
use vstd::prelude::*;
use crate::text::{chars_of, copy_string, decimal, decimal_chars, push_chars, push_str, seq_eq,
    string_from_chars};

verus! {

/// The type of a column.
#[derive(Debug, Clone, Copy, PartialEq, Eq, Structural)]
pub enum DataKind {
    Boolean,
    Int64,
    Float64,
    Utf8,
    /// Milliseconds since the Unix epoch.
    Timestamp,
    /// Days since the Unix epoch.
    Date32,
    Decimal128,
    /// Any other type; its cells hold a textual rendering.
    Other,
}

/// One value of a column.
#[derive(Debug)]
pub enum Cell {
    Null,
    Bool(bool),
    Int(i64),
    /// The IEEE-754 bit pattern of a 64-bit float.
    Float(u64),
    Wide(i128),
    Text(String),
}

/// The mathematical value of a cell.
pub enum CellView {
    Null,
    Bool(bool),
    Int(i64),
    Float(u64),
    Wide(i128),
    Text(Seq<char>),
}

impl View for Cell {
    type V = CellView;

    open spec fn view(&self) -> CellView {
        match self {
            Cell::Null => CellView::Null,
            Cell::Bool(b) => CellView::Bool(*b),
            Cell::Int(i) => CellView::Int(*i),
            Cell::Float(f) => CellView::Float(*f),
            Cell::Wide(w) => CellView::Wide(*w),
            Cell::Text(s) => CellView::Text(s@),
        }
    }
}

impl Cell {
    /// A copy of this cell.
    pub fn copy(&self) -> (r: Cell)
        ensures
            r@ == self@,
    {
        match self {
            Cell::Null => Cell::Null,
            Cell::Bool(b) => Cell::Bool(*b),
            Cell::Int(i) => Cell::Int(*i),
            Cell::Float(f) => Cell::Float(*f),
            Cell::Wide(w) => Cell::Wide(*w),
            Cell::Text(s) => Cell::Text(copy_string(s)),
        }
    }
}

/// Whether a cell can stand in a column of type `k`.
pub open spec fn cell_fits(k: DataKind, c: CellView) -> bool {
    match c {
        CellView::Null => true,
        CellView::Bool(_) => k == DataKind::Boolean,
        CellView::Int(i) => k == DataKind::Int64 || k == DataKind::Timestamp || (k
            == DataKind::Date32 && i32::MIN <= i <= i32::MAX),
        CellView::Float(_) => k == DataKind::Float64,
        CellView::Wide(_) => k == DataKind::Decimal128,
        CellView::Text(_) => k == DataKind::Utf8 || k == DataKind::Other,
    }
}

pub fn cell_fits_exec(k: DataKind, c: &Cell) -> (r: bool)
    ensures
        r == cell_fits(k, c@),
{
    match c {
        Cell::Null => true,
        Cell::Bool(_) => k == DataKind::Boolean,
        Cell::Int(i) => k == DataKind::Int64 || k == DataKind::Timestamp || (k == DataKind::Date32
            && i32::MIN as i64 <= *i && *i <= i32::MAX as i64),
        Cell::Float(_) => k == DataKind::Float64,
        Cell::Wide(_) => k == DataKind::Decimal128,
        Cell::Text(_) => k == DataKind::Utf8 || k == DataKind::Other,
    }
}

/// A named, typed column of a schema.
pub struct Field {
    pub name: String,
    pub data_type: DataKind,
    pub nullable: bool,
}

/// The mathematical value of a field.
pub struct FieldView {
    pub name: Seq<char>,
    pub data_type: DataKind,
    pub nullable: bool,
}

impl View for Field {
    type V = FieldView;

    open spec fn view(&self) -> FieldView {
        FieldView { name: self.name@, data_type: self.data_type, nullable: self.nullable }
    }
}

impl Field {
    /// A field with the given name, type and nullability.
    pub fn new(name: &str, data_type: DataKind, nullable: bool) -> (r: Field)
        ensures
            r@ == (FieldView { name: name@, data_type, nullable }),
    {
        Field { name: string_from_chars(&chars_of(name)), data_type, nullable }
    }

    /// A copy of this field.
    pub fn copy(&self) -> (r: Field)
        ensures
            r@ == self@,
    {
        Field { name: copy_string(&self.name), data_type: self.data_type, nullable: self.nullable }
    }
}

/// The mathematical value of a batch.
pub struct BatchView {
    pub fields: Seq<FieldView>,
    pub columns: Seq<Seq<CellView>>,
    pub num_rows: nat,
}

pub open spec fn fields_view(f: Seq<Field>) -> Seq<FieldView> {
    f.map_values(|x: Field| x@)
}

pub open spec fn column_view(c: Seq<Cell>) -> Seq<CellView> {
    c.map_values(|x: Cell| x@)
}

pub open spec fn columns_view(c: Seq<Vec<Cell>>) -> Seq<Seq<CellView>> {
    c.map_values(|x: Vec<Cell>| column_view(x@))
}

/// Whether column `col` has no null cell.
pub open spec fn has_no_null(col: Seq<CellView>) -> bool {
    forall|r: int| 0 <= r < col.len() ==> !(col[r] is Null)
}

/// Whether every cell of `col` fits type `k`.
pub open spec fn column_fits(k: DataKind, col: Seq<CellView>) -> bool {
    forall|r: int| 0 <= r < col.len() ==> cell_fits(k, #[trigger] col[r])
}

/// What a record batch requires of its schema and columns.
pub open spec fn batch_wf(b: BatchView) -> bool {
    &&& b.columns.len() == b.fields.len()
    &&& (b.columns.len() == 0 ==> b.num_rows == 0)
    &&& forall|c: int| 0 <= c < b.columns.len() ==> (#[trigger] b.columns[c]).len() == b.num_rows
    &&& forall|c: int| 0 <= c < b.columns.len() ==> column_fits(b.fields[c].data_type, #[trigger] b.columns[c])
    &&& forall|c: int|
        0 <= c < b.columns.len() && !b.fields[c].nullable ==> has_no_null(#[trigger] b.columns[c])
}

/// A batch of records held column by column.
pub struct Batch {
    fields: Vec<Field>,
    columns: Vec<Vec<Cell>>,
    num_rows: usize,
}

impl View for Batch {
    type V = BatchView;

    closed spec fn view(&self) -> BatchView {
        BatchView {
            fields: fields_view(self.fields@),
            columns: columns_view(self.columns@),
            num_rows: self.num_rows as nat,
        }
    }
}

// ───────────────────────────── the checks of `try_new` ─────────────────────────────

/// The index of the first of columns `from..` that is declared non-nullable
/// and holds a null, if any.
pub open spec fn first_null_violation(
    fields: Seq<FieldView>,
    cols: Seq<Seq<CellView>>,
    from: int,
) -> Option<int>
    decreases cols.len() - from,
{
    if from < 0 || from >= cols.len() {
        None
    } else if !fields[from].nullable && !has_no_null(cols[from]) {
        Some(from)
    } else {
        first_null_violation(fields, cols, from + 1)
    }
}

/// The index of the first of columns `from..` whose cells do not fit its type.
pub open spec fn first_type_violation(
    fields: Seq<FieldView>,
    cols: Seq<Seq<CellView>>,
    from: int,
) -> Option<int>
    decreases cols.len() - from,
{
    if from < 0 || from >= cols.len() {
        None
    } else if !column_fits(fields[from].data_type, cols[from]) {
        Some(from)
    } else {
        first_type_violation(fields, cols, from + 1)
    }
}

/// Whether all columns have `n` cells.
pub open spec fn all_lengths(cols: Seq<Seq<CellView>>, n: nat) -> bool {
    forall|c: int| 0 <= c < cols.len() ==> (#[trigger] cols[c]).len() == n
}

/// The message with which a batch of these fields and columns is refused, or
/// `None` where it is accepted; the checks run in this order: column count,
/// at least one column, nullability, equal lengths, cell types.
pub open spec fn batch_error(fields: Seq<FieldView>, cols: Seq<Seq<CellView>>) -> Option<
    Seq<char>,
> {
    if cols.len() != fields.len() {
        Some(
            "Invalid argument error: number of columns("@ + decimal(cols.len()) + ") must match number of fields("@
                + decimal(fields.len()) + ") in schema"@,
        )
    } else if cols.len() == 0 {
        Some("Invalid argument error: must either specify a row count or at least one column"@)
    } else if first_null_violation(fields, cols, 0) is Some {
        Some(
            "Invalid argument error: Column '"@ + fields[first_null_violation(
                fields,
                cols,
                0,
            )->0].name + "' is declared as non-nullable but contains null values"@,
        )
    } else if !all_lengths(cols, cols[0].len()) {
        Some(
            "Invalid argument error: all columns in a record batch must have the same length"@,
        )
    } else if first_type_violation(fields, cols, 0) is Some {
        Some(
            "Invalid argument error: column types must match schema types at column index "@
                + decimal(first_type_violation(fields, cols, 0)->0 as nat),
        )
    } else {
        None
    }
}

pub proof fn lemma_first_null_none(fields: Seq<FieldView>, cols: Seq<Seq<CellView>>, from: int)
    requires
        0 <= from,
        first_null_violation(fields, cols, from) is None,
    ensures
        forall|c: int|
            from <= c < cols.len() && !fields[c].nullable ==> has_no_null(#[trigger] cols[c]),
    decreases cols.len() - from,
{
    if from < cols.len() {
        lemma_first_null_none(fields, cols, from + 1);
    }
}

pub proof fn lemma_first_type_none(fields: Seq<FieldView>, cols: Seq<Seq<CellView>>, from: int)
    requires
        0 <= from,
        first_type_violation(fields, cols, from) is None,
    ensures
        forall|c: int| from <= c < cols.len() ==> column_fits(fields[c].data_type, #[trigger] cols[c]),
    decreases cols.len() - from,
{
    if from < cols.len() {
        lemma_first_type_none(fields, cols, from + 1);
    }
}

pub proof fn lemma_batch_error_none(fields: Seq<FieldView>, cols: Seq<Seq<CellView>>)
    requires
        batch_error(fields, cols) is None,
    ensures
        batch_wf(BatchView { fields, columns: cols, num_rows: cols[0].len() }),
{
    lemma_first_null_none(fields, cols, 0);
    lemma_first_type_none(fields, cols, 0);
}

/// Whether no cell of `col` is null.
fn column_has_no_null(col: &Vec<Cell>) -> (r: bool)
    ensures
        r == has_no_null(column_view(col@)),
{
    let mut i: usize = 0;
    while i < col.len()
        invariant
            i <= col@.len(),
            forall|r: int| 0 <= r < i ==> !(column_view(col@)[r] is Null),
        decreases col.len() - i,
    {
        if let Cell::Null = &col[i] {
            assert(column_view(col@)[i as int] is Null);
            return false;
        }
        i = i + 1;
    }
    true
}

/// Whether every cell of `col` fits type `k`.
fn column_fits_exec(k: DataKind, col: &Vec<Cell>) -> (r: bool)
    ensures
        r == column_fits(k, column_view(col@)),
{
    let mut i: usize = 0;
    while i < col.len()
        invariant
            i <= col@.len(),
            forall|r: int| 0 <= r < i ==> cell_fits(k, #[trigger] column_view(col@)[r]),
        decreases col.len() - i,
    {
        if !cell_fits_exec(k, &col[i]) {
            assert(!cell_fits(k, column_view(col@)[i as int]));
            return false;
        }
        i = i + 1;
    }
    true
}

fn message_with_number(prefix: &str, n: u64, suffix: &str) -> (r: Vec<char>)
    ensures
        r@ == prefix@ + decimal(n as nat) + suffix@,
{
    let mut v = chars_of(prefix);
    let d = decimal_chars(n);
    push_chars(&mut v, &d);
    push_str(&mut v, suffix);
    v
}

impl Batch {
    /// The batch's well-formedness: what `batch_wf` states of its view.
    #[verifier::type_invariant]
    spec fn inv(&self) -> bool {
        batch_wf(self@)
    }

    /// The number of rows.
    pub fn num_rows(&self) -> (r: usize)
        ensures
            r == self@.num_rows,
            batch_wf(self@),
    {
        proof {
            use_type_invariant(self);
        }
        self.num_rows
    }

    /// The number of columns.
    pub fn num_columns(&self) -> (r: usize)
        ensures
            r == self@.columns.len(),
            r == self@.fields.len(),
            batch_wf(self@),
    {
        proof {
            use_type_invariant(self);
        }
        self.columns.len()
    }

    /// The field of column `i`.
    pub fn field(&self, i: usize) -> (r: &Field)
        requires
            i < self@.fields.len(),
        ensures
            r@ == self@.fields[i as int],
    {
        &self.fields[i]
    }

    /// The cells of column `i`.
    pub fn column(&self, i: usize) -> (r: &Vec<Cell>)
        requires
            i < self@.columns.len(),
        ensures
            column_view(r@) == self@.columns[i as int],
    {
        &self.columns[i]
    }

    /// The index of the first field named `name` (what `Schema::index_of`
    /// finds).
    pub fn index_of(&self, name: &str) -> (r: Option<usize>)
        ensures
            match first_field_named(self@.fields, name@) {
                Some(i) => r == Some(i as usize),
                None => r is None,
            },
            r matches Some(i) ==> i < self@.fields.len() && i < self@.columns.len()
                && self@.fields[i as int].name == name@,
            batch_wf(self@),
    {
        proof {
            use_type_invariant(self);
        }
        let target = chars_of(name);
        let mut i: usize = 0;
        while i < self.fields.len()
            invariant
                i <= self@.fields.len(),
                target@ == name@,
                batch_wf(self@),
                first_field_named(self@.fields, name@) == first_field_from(
                    self@.fields,
                    name@,
                    i as int,
                ),
            decreases self.fields.len() - i,
        {
            let fname = chars_of(self.fields[i].name.as_str());
            if seq_eq(&fname, &target) {
                return Some(i);
            }
            i = i + 1;
        }
        None
    }

    /// An empty batch with the given schema.
    pub fn new_empty(fields: Vec<Field>) -> (r: Batch)
        ensures
            r@.fields == fields_view(fields@),
            r@.num_rows == 0,
            r@.columns.len() == fields@.len(),
            forall|c: int| 0 <= c < fields@.len() ==> (#[trigger] r@.columns[c]).len() == 0,
    {
        let mut columns: Vec<Vec<Cell>> = Vec::new();
        let mut i: usize = 0;
        while i < fields.len()
            invariant
                i <= fields@.len(),
                columns@.len() == i,
                forall|c: int| 0 <= c < i ==> (#[trigger] columns@[c])@.len() == 0,
            decreases fields.len() - i,
        {
            columns.push(Vec::new());
            i = i + 1;
        }
        let b = Batch { fields, columns, num_rows: 0 };
        assert(batch_wf(b@)) by {
            assert forall|c: int| 0 <= c < b@.columns.len() implies column_fits(
                b@.fields[c].data_type,
                #[trigger] b@.columns[c],
            ) by {
                assert(b@.columns[c].len() == 0);
            }
        }
        b
    }

    /// A batch of these fields and columns, if they form one; otherwise the
    /// message of the check that failed (see `batch_error`).
    pub fn try_new(fields: Vec<Field>, columns: Vec<Vec<Cell>>) -> (r: Result<Batch, String>)
        ensures
            match batch_error(fields_view(fields@), columns_view(columns@)) {
                Some(m) => r matches Err(e) && e@ == m,
                None => r matches Ok(b) && b@.fields == fields_view(fields@) && b@.columns
                    == columns_view(columns@),
            },
    {
        let ghost fv = fields_view(fields@);
        let ghost cv = columns_view(columns@);
        if columns.len() != fields.len() {
            let v = message_with_number(
                "Invalid argument error: number of columns(",
                columns.len() as u64,
                ") must match number of fields(",
            );
            let d = decimal_chars(fields.len() as u64);
            let mut v2 = v;
            push_chars(&mut v2, &d);
            push_str(&mut v2, ") in schema");
            return Err(string_from_chars(&v2));
        }
        if columns.len() == 0 {
            return Err(
                string_from_chars(
                    &chars_of(
                        "Invalid argument error: must either specify a row count or at least one column",
                    ),
                ),
            );
        }
        // nullability
        let mut c: usize = 0;
        while c < columns.len()
            invariant
                columns@.len() == fields@.len(),
                c <= columns@.len(),
                fv == fields_view(fields@),
                cv == columns_view(columns@),
                first_null_violation(fv, cv, 0) == first_null_violation(fv, cv, c as int),
            decreases columns.len() - c,
        {
            if !fields[c].nullable && !column_has_no_null(&columns[c]) {
                let mut v = chars_of("Invalid argument error: Column '");
                let name = chars_of(fields[c].name.as_str());
                push_chars(&mut v, &name);
                push_str(&mut v, "' is declared as non-nullable but contains null values");
                return Err(string_from_chars(&v));
            }
            c = c + 1;
        }
        // equal lengths
        let n = columns[0].len();
        let mut c2: usize = 0;
        while c2 < columns.len()
            invariant
                columns@.len() == fields@.len(),
                c2 <= columns@.len(),
                columns@.len() > 0,
                n == columns@[0]@.len(),
                fv == fields_view(fields@),
                cv == columns_view(columns@),
                first_null_violation(fv, cv, 0) is None,
                forall|j: int| 0 <= j < c2 ==> (#[trigger] cv[j]).len() == n,
            decreases columns.len() - c2,
        {
            if columns[c2].len() != n {
                assert(cv[c2 as int].len() != cv[0].len());
                return Err(
                    string_from_chars(
                        &chars_of(
                            "Invalid argument error: all columns in a record batch must have the same length",
                        ),
                    ),
                );
            }
            c2 = c2 + 1;
        }
        assert(all_lengths(cv, cv[0].len()));
        // cell types
        let mut c3: usize = 0;
        while c3 < columns.len()
            invariant
                columns@.len() == fields@.len(),
                c3 <= columns@.len(),
                fv == fields_view(fields@),
                cv == columns_view(columns@),
                first_type_violation(fv, cv, 0) == first_type_violation(fv, cv, c3 as int),
                first_null_violation(fv, cv, 0) is None,
                all_lengths(cv, cv[0].len()),
                n == cv[0].len(),
            decreases columns.len() - c3,
        {
            if !column_fits_exec(fields[c3].data_type, &columns[c3]) {
                let v = message_with_number(
                    "Invalid argument error: column types must match schema types at column index ",
                    c3 as u64,
                    "",
                );
                assert(""@ =~= Seq::<char>::empty()) by {
                    reveal_strlit("");
                }
                assert(v@ =~= "Invalid argument error: column types must match schema types at column index "@
                    + decimal(c3 as nat));
                return Err(string_from_chars(&v));
            }
            c3 = c3 + 1;
        }
        proof {
            lemma_batch_error_none(fv, cv);
        }
        let b = Batch { fields, columns, num_rows: n };
        Ok(b)
    }

    /// The batch's schema and columns, handed back.
    pub fn into_parts(self) -> (r: (Vec<Field>, Vec<Vec<Cell>>, usize))
        ensures
            fields_view(r.0@) == self@.fields,
            columns_view(r.1@) == self@.columns,
            r.2 == self@.num_rows,
            batch_wf(self@),
    {
        proof {
            use_type_invariant(&self);
        }
        (self.fields, self.columns, self.num_rows)
    }

    /// A batch from parts that already satisfy `batch_wf`.
    pub fn from_parts(fields: Vec<Field>, columns: Vec<Vec<Cell>>, num_rows: usize) -> (r: Batch)
        requires
            batch_wf(
                BatchView {
                    fields: fields_view(fields@),
                    columns: columns_view(columns@),
                    num_rows: num_rows as nat,
                },
            ),
        ensures
            r@.fields == fields_view(fields@),
            r@.columns == columns_view(columns@),
            r@.num_rows == num_rows,
    {
        Batch { fields, columns, num_rows }
    }
}

/// The index of the first of fields `from..` named `name`.
pub open spec fn first_field_from(fields: Seq<FieldView>, name: Seq<char>, from: int) -> Option<int>
    decreases fields.len() - from,
{
    if from < 0 || from >= fields.len() {
        None
    } else if fields[from].name == name {
        Some(from)
    } else {
        first_field_from(fields, name, from + 1)
    }
}

/// The index of the first field named `name`.
pub open spec fn first_field_named(fields: Seq<FieldView>, name: Seq<char>) -> Option<int> {
    first_field_from(fields, name, 0)
}

pub proof fn lemma_first_field_from(fields: Seq<FieldView>, name: Seq<char>, from: int)
    requires
        0 <= from,
    ensures
        match first_field_from(fields, name, from) {
            Some(i) => from <= i < fields.len() && fields[i].name == name && forall|j: int|
                from <= j < i ==> (#[trigger] fields[j]).name != name,
            None => forall|j: int| from <= j < fields.len() ==> (#[trigger] fields[j]).name != name,
        },
    decreases fields.len() - from,
{
    if from < fields.len() {
        lemma_first_field_from(fields, name, from + 1);
    }
}

} // verus!
