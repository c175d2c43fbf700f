//! The PostgreSQL sink: its settings, the SQL it issues, and how it splits a
//! batch into transactions.
use vstd::prelude::*;
use crate::batch::{cell_fits, fields_view, Batch, Cell, CellView, DataKind, Field, FieldView};
use crate::config::{get_property, lookup, ConnectorConfig};
use crate::connectors::kafka::{is_not_connected, not_connected};
use crate::connectors::settings::{
    bool_or, bool_or_default, comma_list, comma_list_matches, missing_message, number_or,
    optional_matches, required, u32_or_default, usize_or_default,
};
use crate::error::{is_config_error, is_connection_failure, is_internal, is_sink_failure, PipelineError};
use crate::timestamp::{millis_accepted, millis_representable};
use crate::types::WriteReceipt;
use crate::text::{
    chars_of, concat2, copy_string, decimal, decimal_chars, join, join_chars, pieces_view,
    push_chars, push_str, string_from_chars,
};

verus! {

/// Settings of the PostgreSQL sink.
pub struct PostgresSinkConfig {
    pub connection_string: String,
    pub table_name: String,
    pub schema_name: Option<String>,
    pub batch_size: usize,
    pub max_connections: u32,
    pub create_table_if_not_exists: bool,
    pub upsert_mode: bool,
    pub upsert_keys: Vec<String>,
}

/// The connection string: from the secrets, else from the properties.
pub open spec fn connection_string_of(c: ConnectorConfig) -> Option<Seq<char>> {
    match lookup(c.secrets@, "connection_string"@) {
        Some(v) => Some(v),
        None => lookup(c.properties@, "connection_string"@),
    }
}

/// Whether `k` holds the settings that `c` describes.
pub open spec fn postgres_config_matches(k: PostgresSinkConfig, c: ConnectorConfig) -> bool {
    let p = c.properties@;
    &&& connection_string_of(c) == Some(k.connection_string@)
    &&& lookup(p, "table_name"@) == Some(k.table_name@)
    &&& optional_matches(k.schema_name, p, "schema_name"@)
    &&& k.batch_size == number_or(p, "batch_size"@, usize::MAX as nat, 1000)
    &&& k.max_connections == number_or(p, "max_connections"@, u32::MAX as nat, 10)
    &&& k.create_table_if_not_exists == bool_or(p, "create_table_if_not_exists"@, false)
    &&& k.upsert_mode == bool_or(p, "upsert_mode"@, false)
    &&& match lookup(p, "upsert_keys"@) {
        Some(v) => comma_list_matches(k.upsert_keys@, v),
        None => k.upsert_keys@.len() == 0,
    }
}

impl PostgresSinkConfig {
    /// Reads the PostgreSQL settings. Fails with a configuration error when
    /// the connection string (checked first) or `table_name` is missing.
    pub fn try_from(config: &ConnectorConfig) -> (r: Result<PostgresSinkConfig, PipelineError>)
        ensures
            connection_string_of(*config) is None ==> (r matches Err(e) && is_config_error(
                e,
                missing_message("connection_string"@),
            )),
            connection_string_of(*config) is Some && lookup(config.properties@, "table_name"@)
                is None ==> (r matches Err(e) && is_config_error(e, missing_message("table_name"@))),
            connection_string_of(*config) is Some && lookup(config.properties@, "table_name"@)
                is Some ==> (r matches Ok(k) && postgres_config_matches(k, *config)),
    {
        let properties = &config.properties;
        let connection_string = match get_property(&config.secrets, "connection_string") {
            Some(v) => v,
            None => match required(properties, "connection_string") {
                Ok(v) => v,
                Err(e) => return Err(e),
            },
        };
        let table_name = match required(properties, "table_name") {
            Ok(v) => v,
            Err(e) => return Err(e),
        };
        let upsert_keys = match get_property(properties, "upsert_keys") {
            Some(v) => comma_list(v.as_str()),
            None => Vec::new(),
        };
        Ok(
            PostgresSinkConfig {
                connection_string,
                table_name,
                schema_name: get_property(properties, "schema_name"),
                batch_size: usize_or_default(properties, "batch_size", 1000),
                max_connections: u32_or_default(properties, "max_connections", 10),
                create_table_if_not_exists: bool_or_default(
                    properties,
                    "create_table_if_not_exists",
                    false,
                ),
                upsert_mode: bool_or_default(properties, "upsert_mode", false),
                upsert_keys,
            },
        )
    }
}

// ───────────────────────────── SQL ─────────────────────────────

/// The table name, qualified by the schema where one is set.
pub open spec fn full_table(c: PostgresSinkConfig) -> Seq<char> {
    match c.schema_name {
        Some(s) => s@ + "."@ + c.table_name@,
        None => c.table_name@,
    }
}

/// The PostgreSQL column type for a column type.
pub open spec fn pg_type(k: DataKind) -> Seq<char> {
    match k {
        DataKind::Utf8 => "TEXT"@,
        DataKind::Int64 => "BIGINT"@,
        DataKind::Float64 => "DOUBLE PRECISION"@,
        DataKind::Boolean => "BOOLEAN"@,
        DataKind::Timestamp => "TIMESTAMP WITH TIME ZONE"@,
        DataKind::Date32 => "DATE"@,
        DataKind::Decimal128 => "NUMERIC"@,
        DataKind::Other => "TEXT"@,
    }
}

pub fn pg_type_exec(k: DataKind) -> (r: &'static str)
    ensures
        r@ == pg_type(k),
{
    match k {
        DataKind::Utf8 => "TEXT",
        DataKind::Int64 => "BIGINT",
        DataKind::Float64 => "DOUBLE PRECISION",
        DataKind::Boolean => "BOOLEAN",
        DataKind::Timestamp => "TIMESTAMP WITH TIME ZONE",
        DataKind::Date32 => "DATE",
        DataKind::Decimal128 => "NUMERIC",
        DataKind::Other => "TEXT",
    }
}

/// Whether upserts apply: upsert mode with at least one key.
pub open spec fn upserting(c: PostgresSinkConfig) -> bool {
    c.upsert_mode && c.upsert_keys@.len() > 0
}

/// The names of `fields`.
pub open spec fn names(fields: Seq<FieldView>) -> Seq<Seq<char>> {
    fields.map_values(|f: FieldView| f.name)
}

/// The column definitions "name TYPE" of `fields`.
pub open spec fn column_defs(fields: Seq<FieldView>) -> Seq<Seq<char>> {
    fields.map_values(|f: FieldView| f.name + " "@ + pg_type(f.data_type))
}

/// The placeholders `$1`, ..., `$n`.
pub open spec fn placeholders(n: nat) -> Seq<Seq<char>> {
    Seq::new(n, |i: int| "$"@ + decimal((i + 1) as nat))
}

/// The update assignments "c = EXCLUDED.c" for the columns that are not keys.
pub open spec fn updates(cols: Seq<Seq<char>>, keys: Seq<Seq<char>>) -> Seq<Seq<char>>
    decreases cols.len(),
{
    if cols.len() == 0 {
        Seq::empty()
    } else {
        let prev = updates(cols.drop_last(), keys);
        if keys.contains(cols.last()) {
            prev
        } else {
            prev.push(cols.last() + " = EXCLUDED."@ + cols.last())
        }
    }
}

/// The views of a list of strings.
pub open spec fn texts(v: Seq<String>) -> Seq<Seq<char>> {
    v.map_values(|s: String| s@)
}

/// The statement that creates the table for `fields` where it does not exist,
/// with the upsert keys as primary key when upserting.
pub open spec fn create_table_sql(c: PostgresSinkConfig, fields: Seq<FieldView>) -> Seq<char> {
    if upserting(c) {
        "CREATE TABLE IF NOT EXISTS "@ + full_table(c) + " ("@ + join(column_defs(fields), ", "@)
            + ", PRIMARY KEY ("@ + join(texts(c.upsert_keys@), ", "@) + "))"@
    } else {
        "CREATE TABLE IF NOT EXISTS "@ + full_table(c) + " ("@ + join(column_defs(fields), ", "@)
            + ")"@
    }
}

/// The statement that inserts one row of `fields`; when upserting, a conflict
/// on the keys updates the other columns.
pub open spec fn insert_sql(c: PostgresSinkConfig, fields: Seq<FieldView>) -> Seq<char> {
    let cols = names(fields);
    let base = "INSERT INTO "@ + full_table(c) + " ("@ + join(cols, ", "@) + ") VALUES ("@ + join(
        placeholders(fields.len()),
        ", "@,
    ) + ")"@;
    if upserting(c) {
        base + " ON CONFLICT ("@ + join(texts(c.upsert_keys@), ", "@) + ") DO UPDATE SET "@ + join(
            updates(cols, texts(c.upsert_keys@)),
            ", "@,
        )
    } else {
        base
    }
}

/// The key under which the insert statement for `n` columns is prepared.
pub open spec fn statement_key(n: nat) -> Seq<char> {
    "insert_"@ + decimal(n)
}

/// The row ranges of the transactions: consecutive chunks of `size` rows from
/// `start` on, the last one possibly shorter.
pub open spec fn chunk_ranges(start: nat, n: nat, size: nat) -> Seq<(nat, nat)>
    decreases n - start,
{
    if size == 0 || start >= n {
        Seq::empty()
    } else if start + size >= n {
        seq![(start, n)]
    } else {
        seq![(start, start + size)] + chunk_ranges(start + size, n, size)
    }
}

/// The number of rows in each transaction: the batch size, but at most 100.
pub open spec fn chunk_size(c: PostgresSinkConfig) -> nat {
    if c.batch_size < 100 {
        c.batch_size as nat
    } else {
        100
    }
}

fn strings_chars(v: &Vec<String>) -> (r: Vec<Vec<char>>)
    ensures
        pieces_view(r@) == texts(v@),
{
    let mut r: Vec<Vec<char>> = Vec::new();
    let mut i: usize = 0;
    while i < v.len()
        invariant
            i <= v@.len(),
            pieces_view(r@) == texts(v@).subrange(0, i as int),
        decreases v.len() - i,
    {
        let ghost before = pieces_view(r@);
        let x = chars_of(v[i].as_str());
        r.push(x);
        assert(pieces_view(r@) =~= before.push(x@));
        assert(texts(v@).subrange(0, i + 1) =~= texts(v@).subrange(0, i as int).push(v@[i as int]@));
        i = i + 1;
    }
    assert(texts(v@).subrange(0, v@.len() as int) =~= texts(v@));
    r
}

fn contains_text(keys: &Vec<Vec<char>>, x: &Vec<char>) -> (r: bool)
    ensures
        r == pieces_view(keys@).contains(x@),
{
    let mut i: usize = 0;
    while i < keys.len()
        invariant
            i <= keys@.len(),
            forall|j: int| 0 <= j < i ==> keys@[j]@ != x@,
        decreases keys.len() - i,
    {
        if crate::text::seq_eq(&keys[i], x) {
            assert(pieces_view(keys@)[i as int] == x@);
            return true;
        }
        i = i + 1;
    }
    assert(!pieces_view(keys@).contains(x@)) by {
        if pieces_view(keys@).contains(x@) {
            let j = choose|j: int| 0 <= j < keys@.len() && pieces_view(keys@)[j] == x@;
            assert(keys@[j]@ == x@);
        }
    }
    false
}

impl PostgresSinkConfig {
    /// The table name, qualified by the schema where one is set.
    pub fn full_table_name(&self) -> (r: String)
        ensures
            r@ == full_table(*self),
    {
        match &self.schema_name {
            Some(s) => {
                let mut v = chars_of(s.as_str());
                push_str(&mut v, ".");
                push_str(&mut v, self.table_name.as_str());
                string_from_chars(&v)
            },
            None => copy_string(&self.table_name),
        }
    }

    /// Whether upserts apply.
    pub fn upserting(&self) -> (r: bool)
        ensures
            r == upserting(*self),
    {
        self.upsert_mode && self.upsert_keys.len() > 0
    }

    /// See `create_table_sql`.
    pub fn create_table_statement(&self, fields: &Vec<Field>) -> (r: String)
        ensures
            r@ == create_table_sql(*self, fields_view(fields@)),
    {
        let ghost fv = fields_view(fields@);
        let mut defs: Vec<Vec<char>> = Vec::new();
        let mut i: usize = 0;
        while i < fields.len()
            invariant
                i <= fields@.len(),
                fv == fields_view(fields@),
                pieces_view(defs@) == column_defs(fv).subrange(0, i as int),
            decreases fields.len() - i,
        {
            let mut d = chars_of(fields[i].name.as_str());
            push_str(&mut d, " ");
            push_str(&mut d, pg_type_exec(fields[i].data_type));
            let ghost before = pieces_view(defs@);
            defs.push(d);
            assert(pieces_view(defs@) =~= before.push(d@));
            assert(column_defs(fv).subrange(0, i + 1) =~= column_defs(fv).subrange(0, i as int).push(
                column_defs(fv)[i as int],
            ));
            i = i + 1;
        }
        assert(column_defs(fv).subrange(0, fields@.len() as int) =~= column_defs(fv));
        let table = self.full_table_name();
        let mut v = chars_of("CREATE TABLE IF NOT EXISTS ");
        push_str(&mut v, table.as_str());
        push_str(&mut v, " (");
        let cols = join_chars(&defs, ", ");
        push_chars(&mut v, &cols);
        if self.upserting() {
            push_str(&mut v, ", PRIMARY KEY (");
            let keys = strings_chars(&self.upsert_keys);
            let k = join_chars(&keys, ", ");
            push_chars(&mut v, &k);
            push_str(&mut v, "))");
        } else {
            push_str(&mut v, ")");
        }
        string_from_chars(&v)
    }

    /// See `insert_sql`.
    pub fn insert_statement(&self, fields: &Vec<Field>) -> (r: String)
        ensures
            r@ == insert_sql(*self, fields_view(fields@)),
    {
        let ghost fv = fields_view(fields@);
        let mut cols: Vec<Vec<char>> = Vec::new();
        let mut ph: Vec<Vec<char>> = Vec::new();
        let mut i: usize = 0;
        while i < fields.len()
            invariant
                i <= fields@.len(),
                fv == fields_view(fields@),
                pieces_view(cols@) == names(fv).subrange(0, i as int),
                pieces_view(ph@) == placeholders(fv.len()).subrange(0, i as int),
            decreases fields.len() - i,
        {
            let ghost before_c = pieces_view(cols@);
            let ghost before_p = pieces_view(ph@);
            let name = chars_of(fields[i].name.as_str());
            cols.push(name);
            let mut p = chars_of("$");
            let d = decimal_chars((i + 1) as u64);
            push_chars(&mut p, &d);
            ph.push(p);
            assert(pieces_view(cols@) =~= before_c.push(name@));
            assert(pieces_view(ph@) =~= before_p.push(p@));
            assert(names(fv).subrange(0, i + 1) =~= names(fv).subrange(0, i as int).push(
                names(fv)[i as int],
            ));
            assert(placeholders(fv.len()).subrange(0, i + 1) =~= placeholders(fv.len()).subrange(
                0,
                i as int,
            ).push(placeholders(fv.len())[i as int]));
            i = i + 1;
        }
        assert(names(fv).subrange(0, fields@.len() as int) =~= names(fv));
        assert(placeholders(fv.len()).subrange(0, fields@.len() as int) =~= placeholders(fv.len()));
        let table = self.full_table_name();
        let mut v = chars_of("INSERT INTO ");
        push_str(&mut v, table.as_str());
        push_str(&mut v, " (");
        push_chars(&mut v, &join_chars(&cols, ", "));
        push_str(&mut v, ") VALUES (");
        push_chars(&mut v, &join_chars(&ph, ", "));
        push_str(&mut v, ")");
        if self.upserting() {
            let keys = strings_chars(&self.upsert_keys);
            let ghost kv = texts(self.upsert_keys@);
            let mut ups: Vec<Vec<char>> = Vec::new();
            let mut j: usize = 0;
            while j < cols.len()
                invariant
                    j <= cols@.len(),
                    pieces_view(keys@) == kv,
                    pieces_view(ups@) == updates(pieces_view(cols@).subrange(0, j as int), kv),
                decreases cols.len() - j,
            {
                let ghost cur = pieces_view(cols@).subrange(0, j + 1);
                assert(cur.drop_last() =~= pieces_view(cols@).subrange(0, j as int));
                assert(cur.last() == cols@[j as int]@);
                if !contains_text(&keys, &cols[j]) {
                    let mut u = cols[j].clone();
                    push_str(&mut u, " = EXCLUDED.");
                    push_chars(&mut u, &cols[j]);
                    let ghost before = pieces_view(ups@);
                    ups.push(u);
                    assert(pieces_view(ups@) =~= before.push(u@));
                }
                j = j + 1;
            }
            assert(pieces_view(cols@).subrange(0, cols@.len() as int) =~= pieces_view(cols@));
            push_str(&mut v, " ON CONFLICT (");
            push_chars(&mut v, &join_chars(&keys, ", "));
            push_str(&mut v, ") DO UPDATE SET ");
            push_chars(&mut v, &join_chars(&ups, ", "));
        }
        string_from_chars(&v)
    }
}

/// The row ranges of the transactions for `n` rows in chunks of `size`.
pub fn chunks(n: usize, size: usize) -> (r: Vec<(usize, usize)>)
    requires
        size > 0,
    ensures
        r@.map_values(|p: (usize, usize)| (p.0 as nat, p.1 as nat)) == chunk_ranges(
            0,
            n as nat,
            size as nat,
        ),
{
    let mut r: Vec<(usize, usize)> = Vec::new();
    let mut start: usize = 0;
    while start < n
        invariant
            size > 0,
            r@.map_values(|p: (usize, usize)| (p.0 as nat, p.1 as nat)) + chunk_ranges(
                start as nat,
                n as nat,
                size as nat,
            ) == chunk_ranges(0, n as nat, size as nat),
        decreases n - start,
    {
        let ghost before = r@.map_values(|p: (usize, usize)| (p.0 as nat, p.1 as nat));
        if n - start <= size {
            r.push((start, n));
            assert(r@.map_values(|p: (usize, usize)| (p.0 as nat, p.1 as nat)) =~= before + seq![
                (start as nat, n as nat),
            ]);
            assert(chunk_ranges(n as nat, n as nat, size as nat) =~= Seq::empty());
            start = n;
        } else {
            r.push((start, start + size));
            assert(r@.map_values(|p: (usize, usize)| (p.0 as nat, p.1 as nat)) =~= before + seq![
                (start as nat, (start + size) as nat),
            ]);
            assert(before + chunk_ranges(start as nat, n as nat, size as nat) =~= before + seq![
                (start as nat, (start + size) as nat),
            ] + chunk_ranges((start + size) as nat, n as nat, size as nat));
            start = start + size;
        }
    }
    assert(chunk_ranges(start as nat, n as nat, size as nat) =~= Seq::empty());
    assert(r@.map_values(|p: (usize, usize)| (p.0 as nat, p.1 as nat)) =~= r@.map_values(
        |p: (usize, usize)| (p.0 as nat, p.1 as nat),
    ) + Seq::<(nat, nat)>::empty());
    r
}

// ───────────────────────────── row parameters ─────────────────────────────

/// A value bound to a placeholder of the insert statement.
pub enum SqlParam {
    Text(String),
    BigInt(i64),
    /// The IEEE-754 bit pattern of a double.
    Double(u64),
    Bool(bool),
    /// A timestamp in milliseconds since the epoch that chrono represents,
    /// bound as a time with zone.
    TimestampMillis(i64),
    /// A column of another type: bound as the debug text of the whole column.
    ColumnDebug,
}

/// The milliseconds that a timestamp cell holds (0 for a null slot, what a
/// read of the slot gives).
pub open spec fn cell_millis(c: CellView) -> i64 {
    match c {
        CellView::Int(i) => i,
        _ => 0,
    }
}

/// The arrow array that a column of type `k` is read as, for the types that
/// bind their values.
pub open spec fn array_name(k: DataKind) -> Option<Seq<char>> {
    match k {
        DataKind::Utf8 => Some("StringArray"@),
        DataKind::Int64 => Some("Int64Array"@),
        DataKind::Float64 => Some("Float64Array"@),
        DataKind::Boolean => Some("BooleanArray"@),
        DataKind::Timestamp => Some("TimestampMillisecondArray"@),
        _ => None,
    }
}

/// Why a cell `c` of a column of type `k` cannot be bound, where it cannot:
/// a value that is not of the column's type ("Failed to downcast to" the
/// column's array), or a timestamp that chrono does not represent.
pub open spec fn param_error(k: DataKind, c: CellView) -> Option<Seq<char>> {
    match array_name(k) {
        Some(a) => if !(c is Null) && !cell_fits(k, c) {
            Some("Failed to downcast to "@ + a)
        } else if k == DataKind::Timestamp && !millis_accepted(cell_millis(c)) {
            Some(invalid_timestamp_message())
        } else {
            None
        },
        None => None,
    }
}

/// Whether a cell `c` of a column of type `k` cannot be bound.
pub open spec fn param_fails(k: DataKind, c: CellView) -> bool {
    param_error(k, c) is Some
}

/// The message for a timestamp that cannot be bound.
pub open spec fn invalid_timestamp_message() -> Seq<char> {
    "Invalid timestamp value"@
}

fn downcast_error(name: &str) -> (e: PipelineError)
    ensures
        is_internal(e, "Failed to downcast to "@ + name@),
{
    PipelineError::Internal(concat2("Failed to downcast to ", name))
}

/// Whether `p` is the parameter for a cell `c` of a column of type `k`. The
/// typed columns bind their value, a null slot binding the type's zero value
/// (what a read of the slot gives); other types fall back to the column's
/// debug text.
pub open spec fn param_matches(p: SqlParam, k: DataKind, c: CellView) -> bool {
    match k {
        DataKind::Utf8 => p matches SqlParam::Text(s) && s@ == match c {
            CellView::Text(t) => t,
            _ => Seq::<char>::empty(),
        },
        DataKind::Int64 => p == SqlParam::BigInt(
            match c {
                CellView::Int(i) => i,
                _ => 0,
            },
        ),
        DataKind::Float64 => p == SqlParam::Double(
            match c {
                CellView::Float(f) => f,
                _ => 0,
            },
        ),
        DataKind::Boolean => p == SqlParam::Bool(
            match c {
                CellView::Bool(b) => b,
                _ => false,
            },
        ),
        DataKind::Timestamp => p == SqlParam::TimestampMillis(cell_millis(c)),
        _ => p is ColumnDebug,
    }
}

/// The parameter for cell `c` of a column of type `k` (see `param_matches`),
/// or the internal error of `param_error` where it cannot be bound.
pub fn sql_param(k: DataKind, c: &Cell) -> (r: Result<SqlParam, PipelineError>)
    ensures
        param_error(k, c@) matches Some(m) ==> (r matches Err(e) && is_internal(e, m)),
        param_error(k, c@) is None ==> (r matches Ok(p) && param_matches(p, k, c@)),
{
    match k {
        DataKind::Utf8 => match c {
            Cell::Text(t) => Ok(SqlParam::Text(copy_string(t))),
            Cell::Null => Ok(SqlParam::Text(string_from_chars(&Vec::new()))),
            _ => Err(downcast_error("StringArray")),
        },
        DataKind::Int64 => match c {
            Cell::Int(i) => Ok(SqlParam::BigInt(*i)),
            Cell::Null => Ok(SqlParam::BigInt(0)),
            _ => Err(downcast_error("Int64Array")),
        },
        DataKind::Float64 => match c {
            Cell::Float(f) => Ok(SqlParam::Double(*f)),
            Cell::Null => Ok(SqlParam::Double(0)),
            _ => Err(downcast_error("Float64Array")),
        },
        DataKind::Boolean => match c {
            Cell::Bool(b) => Ok(SqlParam::Bool(*b)),
            Cell::Null => Ok(SqlParam::Bool(false)),
            _ => Err(downcast_error("BooleanArray")),
        },
        DataKind::Timestamp => {
            let ms: i64 = match c {
                Cell::Int(i) => *i,
                Cell::Null => 0,
                _ => return Err(downcast_error("TimestampMillisecondArray")),
            };
            if millis_representable(ms) {
                Ok(SqlParam::TimestampMillis(ms))
            } else {
                Err(PipelineError::Internal(string_from_chars(&chars_of("Invalid timestamp value"))))
            }
        },
        _ => Ok(SqlParam::ColumnDebug),
    }
}

/// The parameters of row `row` of `batch`, one per column in order; the
/// error of the first column whose cell cannot be bound, where one cannot.
pub fn row_params(batch: &Batch, row: usize) -> (r: Result<Vec<SqlParam>, PipelineError>)
    requires
        row < batch@.num_rows,
    ensures
        (exists|c: int|
            0 <= c < batch@.columns.len() && #[trigger] param_fails(
                batch@.fields[c].data_type,
                batch@.columns[c][row as int],
            )) ==> r is Err,
        r matches Err(e) ==> exists|c: int|
            0 <= c < batch@.columns.len() && (forall|j: int|
                0 <= j < c ==> !#[trigger] param_fails(
                    batch@.fields[j].data_type,
                    batch@.columns[j][row as int],
                )) && (#[trigger] param_error(batch@.fields[c].data_type, batch@.columns[c][row as int])
                matches Some(m) && is_internal(e, m)),
        r matches Ok(v) ==> v@.len() == batch@.columns.len() && forall|c: int|
            0 <= c < v@.len() ==> param_matches(
                #[trigger] v@[c],
                batch@.fields[c].data_type,
                batch@.columns[c][row as int],
            ),
        r is Err ==> exists|c: int|
            0 <= c < batch@.columns.len() && #[trigger] param_fails(
                batch@.fields[c].data_type,
                batch@.columns[c][row as int],
            ),
{
    let n = batch.num_columns();
    let mut r: Vec<SqlParam> = Vec::new();
    let mut c: usize = 0;
    while c < n
        invariant
            n == batch@.columns.len(),
            n == batch@.fields.len(),
            crate::batch::batch_wf(batch@),
            row < batch@.num_rows,
            c <= n,
            r@.len() == c,
            forall|j: int|
                0 <= j < c ==> param_matches(
                    #[trigger] r@[j],
                    batch@.fields[j].data_type,
                    batch@.columns[j][row as int],
                ),
            forall|j: int|
                0 <= j < c ==> !#[trigger] param_fails(
                    batch@.fields[j].data_type,
                    batch@.columns[j][row as int],
                ),
        decreases n - c,
    {
        let col = batch.column(c);
        assert(batch@.columns[c as int].len() == batch@.num_rows);
        match sql_param(batch.field(c).data_type, &col[row]) {
            Ok(p) => r.push(p),
            Err(e) => {
                assert(col@[row as int]@ == batch@.columns[c as int][row as int]);
                assert(param_fails(batch@.fields[c as int].data_type, batch@.columns[c as int][row as int]));
                assert(param_error(batch@.fields[c as int].data_type, batch@.columns[c as int][row as int]) is Some);
                return Err(e);
            },
        }
        c = c + 1;
    }
    Ok(r)
}

// ───────────────────────────── the sink ─────────────────────────────

/// What writing one batch takes: the table to create first (on the first
/// batch, where configured), whether the insert statement is new and must
/// be prepared, the statement, and the row range of each transaction.
pub struct WritePlan {
    pub create_table: Option<String>,
    pub prepare: bool,
    pub insert: String,
    pub chunks: Vec<(usize, usize)>,
}

/// The PostgreSQL sink's state: its settings, whether its pool is
/// connected, the rows written so far and the statements prepared.
pub struct PostgresSink {
    config: PostgresSinkConfig,
    connected: bool,
    total_rows_written: u64,
    prepared_statements: Vec<String>,
}

impl PostgresSink {
    /// Whether `from_config` succeeds on `config`: a connection string and a
    /// table name are present.
    pub open spec fn from_config_outcome(config: &ConnectorConfig) -> bool {
        connection_string_of(*config) is Some && lookup(config.properties@, "table_name"@) is Some
    }

    /// A disconnected sink with the settings that `config` describes.
    pub fn from_config(config: &ConnectorConfig) -> (r: Result<PostgresSink, PipelineError>)
        ensures
            connection_string_of(*config) is None ==> (r matches Err(e) && is_config_error(
                e,
                missing_message("connection_string"@),
            )),
            connection_string_of(*config) is Some && lookup(config.properties@, "table_name"@)
                is None ==> (r matches Err(e) && is_config_error(e, missing_message("table_name"@))),
            connection_string_of(*config) is Some && lookup(config.properties@, "table_name"@)
                is Some ==> (r matches Ok(s) && postgres_config_matches(s.settings(), *config)
                && !s.is_connected() && s.total_rows() == 0 && s.prepared().len() == 0),
    {
        match PostgresSinkConfig::try_from(config) {
            Ok(c) => Ok(
                PostgresSink {
                    config: c,
                    connected: false,
                    total_rows_written: 0,
                    prepared_statements: Vec::new(),
                },
            ),
            Err(e) => Err(e),
        }
    }

    /// The connector's name.
    pub fn name(&self) -> (r: &'static str)
        ensures
            r@ == "postgres"@,
    {
        "postgres"
    }

    pub closed spec fn settings(&self) -> PostgresSinkConfig {
        self.config
    }

    pub closed spec fn is_connected(&self) -> bool {
        self.connected
    }

    pub closed spec fn total_rows(&self) -> nat {
        self.total_rows_written as nat
    }

    /// The keys of the statements prepared so far.
    pub closed spec fn prepared(&self) -> Seq<Seq<char>> {
        texts(self.prepared_statements@)
    }

    /// The sink's settings.
    pub fn config(&self) -> (r: &PostgresSinkConfig)
        ensures
            *r == self.settings(),
    {
        &self.config
    }

    /// The rows written so far.
    pub fn total_rows_written(&self) -> (r: u64)
        ensures
            r == self.total_rows(),
    {
        self.total_rows_written
    }

    /// Records that the pool connected.
    pub fn mark_connected(&mut self)
        ensures
            final(self).is_connected(),
            final(self).settings() == old(self).settings(),
            final(self).total_rows() == old(self).total_rows(),
            final(self).prepared() == old(self).prepared(),
    {
        self.connected = true;
    }

    /// The plan for writing a batch of `fields` and `num_rows` rows: an error
    /// where not connected; otherwise the statements and chunks described at
    /// `WritePlan`, the statement key remembered as prepared.
    pub fn plan_write(&mut self, fields: &Vec<Field>, num_rows: usize) -> (r: Result<
        WritePlan,
        PipelineError,
    >)
        requires
            old(self).settings().batch_size > 0,
        ensures
            !old(self).is_connected() ==> (r matches Err(e) && is_not_connected(e, "postgres"@)
                && final(self).prepared() == old(self).prepared()),
            old(self).is_connected() ==> (r matches Ok(p) && {
                let c = old(self).settings();
                let key = statement_key(fields@.len() as nat);
                &&& (p.create_table matches Some(s) ==> s@ == create_table_sql(c, fields_view(fields@)))
                &&& (p.create_table is Some <==> (old(self).total_rows() == 0
                    && c.create_table_if_not_exists))
                &&& p.prepare == !old(self).prepared().contains(key)
                &&& p.insert@ == insert_sql(c, fields_view(fields@))
                &&& p.chunks@.map_values(|q: (usize, usize)| (q.0 as nat, q.1 as nat))
                    == chunk_ranges(0, num_rows as nat, chunk_size(c))
            }),
            final(self).settings() == old(self).settings(),
            final(self).is_connected() == old(self).is_connected(),
            final(self).total_rows() == old(self).total_rows(),
            final(self).prepared() == old(self).prepared(),
    {
        if !self.connected {
            return Err(not_connected("postgres"));
        }
        let create_table = if self.total_rows_written == 0 && self.config.create_table_if_not_exists {
            Some(self.config.create_table_statement(fields))
        } else {
            None
        };
        let mut key = chars_of("insert_");
        push_chars(&mut key, &decimal_chars(fields.len() as u64));
        let known = strings_chars(&self.prepared_statements);
        let prepare = !contains_text(&known, &key);
        let insert = self.config.insert_statement(fields);
        let size = if self.config.batch_size < 100 {
            self.config.batch_size
        } else {
            100
        };
        let chunks = chunks(num_rows, size);
        Ok(WritePlan { create_table, prepare, insert, chunks })
    }

    /// Records that the insert statement for `n_fields` columns was prepared
    /// (its key is remembered once).
    pub fn record_prepared(&mut self, n_fields: usize)
        ensures
            final(self).prepared() == if old(self).prepared().contains(statement_key(n_fields as nat)) {
                old(self).prepared()
            } else {
                old(self).prepared().push(statement_key(n_fields as nat))
            },
            final(self).settings() == old(self).settings(),
            final(self).is_connected() == old(self).is_connected(),
            final(self).total_rows() == old(self).total_rows(),
    {
        let mut key = chars_of("insert_");
        push_chars(&mut key, &decimal_chars(n_fields as u64));
        let known = strings_chars(&self.prepared_statements);
        if !contains_text(&known, &key) {
            let ghost before = self.prepared();
            self.prepared_statements.push(string_from_chars(&key));
            assert(self.prepared() =~= before.push(key@));
        }
    }

    /// The receipt of a batch of `num_rows` rows all of whose transactions
    /// committed, taking `duration`: every row counted as written, no bytes
    /// reported, and the rows added to the total.
    pub fn complete_write(&mut self, num_rows: usize, duration: std::time::Duration) -> (r: WriteReceipt)
        requires
            old(self).total_rows() + num_rows <= u64::MAX,
        ensures
            r.rows_written == num_rows,
            r.bytes_written == 0,
            r.duration == duration,
            final(self).total_rows() == old(self).total_rows() + num_rows,
            final(self).settings() == old(self).settings(),
            final(self).is_connected() == old(self).is_connected(),
            final(self).prepared() == old(self).prepared(),
    {
        self.total_rows_written = self.total_rows_written + num_rows as u64;
        WriteReceipt::new(num_rows as u64, 0, duration)
    }

    /// Records `rows` more rows written.
    pub fn record_written(&mut self, rows: u64)
        requires
            old(self).total_rows() + rows <= u64::MAX,
        ensures
            final(self).total_rows() == old(self).total_rows() + rows,
            final(self).settings() == old(self).settings(),
            final(self).is_connected() == old(self).is_connected(),
            final(self).prepared() == old(self).prepared(),
    {
        self.total_rows_written = self.total_rows_written + rows;
    }

    /// Closes the pool and forgets the prepared statements.
    pub fn disconnect(&mut self)
        ensures
            !final(self).is_connected(),
            final(self).prepared().len() == 0,
            final(self).settings() == old(self).settings(),
            final(self).total_rows() == old(self).total_rows(),
    {
        self.connected = false;
        self.prepared_statements = Vec::new();
    }
}

// ───────────────────────────── failures ─────────────────────────────

/// The error where the pool cannot connect; `detail` is the driver's
/// complaint.
pub fn connect_error(detail: &str) -> (e: PipelineError)
    ensures
        is_connection_failure(e, "postgres"@, "Failed to connect to PostgreSQL: "@ + detail@),
{
    PipelineError::ConnectionFailed {
        connector: string_from_chars(&chars_of("postgres")),
        message: concat2("Failed to connect to PostgreSQL: ", detail),
    }
}

/// The step of a write that failed.
#[derive(Debug, Clone, Copy, PartialEq, Eq, Structural)]
pub enum WriteStep {
    CreateTable,
    Prepare,
    Begin,
    Insert,
    Commit,
}

/// The message for a failed step of a write to `table`.
pub open spec fn write_step_message(step: WriteStep, table: Seq<char>, detail: Seq<char>) -> Seq<char> {
    match step {
        WriteStep::CreateTable => "Failed to create table "@ + table + ": "@ + detail,
        WriteStep::Prepare => "Failed to prepare statement: "@ + detail,
        WriteStep::Begin => "Failed to begin transaction: "@ + detail,
        WriteStep::Insert => "Failed to insert row: "@ + detail,
        WriteStep::Commit => "Failed to commit transaction: "@ + detail,
    }
}

/// The error for a failed step of a write to `table` (no retries).
pub fn write_error(step: WriteStep, table: &str, detail: &str) -> (e: PipelineError)
    ensures
        is_sink_failure(e, "postgres"@, 0, write_step_message(step, table@, detail@)),
{
    let message = match step {
        WriteStep::CreateTable => {
            let mut v = chars_of("Failed to create table ");
            push_str(&mut v, table);
            push_str(&mut v, ": ");
            push_str(&mut v, detail);
            string_from_chars(&v)
        },
        WriteStep::Prepare => concat2("Failed to prepare statement: ", detail),
        WriteStep::Begin => concat2("Failed to begin transaction: ", detail),
        WriteStep::Insert => concat2("Failed to insert row: ", detail),
        WriteStep::Commit => concat2("Failed to commit transaction: ", detail),
    };
    PipelineError::SinkWriteFailed {
        connector: string_from_chars(&chars_of("postgres")),
        retries: 0,
        message,
    }
}

} // verus!
