use data_pipeline::batch::{Batch, Cell, DataKind, Field};

fn err(fields: Vec<Field>, columns: Vec<Vec<Cell>>) -> String {
    match Batch::try_new(fields, columns) {
        Err(m) => m,
        Ok(_) => panic!("expected a refusal"),
    }
}

#[test]
fn column_count_must_match_schema() {
    let m = err(vec![Field::new("a", DataKind::Int64, true)], vec![]);
    assert_eq!(m, "Invalid argument error: number of columns(0) must match number of fields(1) in schema");
}

#[test]
fn a_batch_needs_a_column() {
    let m = err(vec![], vec![]);
    assert_eq!(m, "Invalid argument error: must either specify a row count or at least one column");
}

#[test]
fn nulls_in_non_nullable_columns_are_refused() {
    let m = err(
        vec![Field::new("a", DataKind::Int64, true), Field::new("b", DataKind::Utf8, false)],
        vec![vec![Cell::Null], vec![Cell::Null]],
    );
    assert_eq!(m, "Invalid argument error: Column 'b' is declared as non-nullable but contains null values");
}

#[test]
fn columns_must_have_equal_lengths() {
    let m = err(
        vec![Field::new("a", DataKind::Int64, true), Field::new("b", DataKind::Int64, true)],
        vec![vec![Cell::Int(1)], vec![Cell::Int(1), Cell::Int(2)]],
    );
    assert_eq!(m, "Invalid argument error: all columns in a record batch must have the same length");
}

#[test]
fn cells_must_fit_their_type() {
    let m = err(
        vec![Field::new("a", DataKind::Int64, true), Field::new("b", DataKind::Boolean, true)],
        vec![vec![Cell::Int(1)], vec![Cell::Int(2)]],
    );
    assert_eq!(m, "Invalid argument error: column types must match schema types at column index 1");
    let m = err(vec![Field::new("d", DataKind::Date32, true)], vec![vec![Cell::Int(1 << 40)]]);
    assert_eq!(m, "Invalid argument error: column types must match schema types at column index 0");
}

#[test]
fn accepted_batch_and_its_accessors() {
    let b = Batch::try_new(
        vec![Field::new("x", DataKind::Float64, false), Field::new("x", DataKind::Utf8, true)],
        vec![vec![Cell::Float(1.5f64.to_bits()), Cell::Float(0)], vec![Cell::Null, Cell::Text("t".to_string())]],
    )
    .ok()
    .unwrap();
    assert_eq!(b.num_rows(), 2);
    assert_eq!(b.num_columns(), 2);
    // the first field of a name is found
    assert_eq!(b.index_of("x"), Some(0));
    assert_eq!(b.index_of("y"), None);
    let (fields, columns, n) = b.into_parts();
    assert_eq!(fields.len(), 2);
    assert_eq!(columns[1].len(), 2);
    assert_eq!(n, 2);
}

#[test]
fn empty_batch_keeps_schema() {
    let b = Batch::new_empty(vec![Field::new("a", DataKind::Boolean, false)]);
    assert_eq!(b.num_rows(), 0);
    assert_eq!(b.num_columns(), 1);
    assert!(b.column(0).is_empty());
}
