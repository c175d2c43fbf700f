use data_pipeline::batch::{Batch, Cell, DataKind, Field};
use data_pipeline::config::FieldMapping;
use data_pipeline::error::PipelineError;
use data_pipeline::transform::{FieldMapper, RowFilter, Transform, TransformChain};

fn text(s: &str) -> Cell {
    Cell::Text(s.to_string())
}

/// name: Utf8, age: Int64, keep: Boolean
fn people() -> Batch {
    Batch::try_new(
        vec![
            Field::new("name", DataKind::Utf8, false),
            Field::new("age", DataKind::Int64, true),
            Field::new("keep", DataKind::Boolean, true),
        ],
        vec![
            vec![text("ann"), text("bob"), text("cy"), text("di")],
            vec![Cell::Int(31), Cell::Null, Cell::Int(7), Cell::Int(52)],
            vec![Cell::Bool(true), Cell::Bool(false), Cell::Null, Cell::Bool(true)],
        ],
    )
    .ok()
    .unwrap()
}

fn names(b: &Batch) -> Vec<String> {
    b.column(0)
        .iter()
        .map(|c| match c {
            Cell::Text(s) => s.clone(),
            _ => panic!("not text"),
        })
        .collect()
}

fn mapping(from: &str, to: &str) -> FieldMapping {
    FieldMapping { source_field: from.to_string(), sink_field: to.to_string(), cast: None }
}

fn failure(r: Result<Batch, PipelineError>) -> (String, String) {
    match r {
        Err(PipelineError::TransformFailed { transform, message }) => (transform, message),
        _ => panic!("expected a transform failure"),
    }
}

#[test]
fn mapper_renames_and_selects_in_mapping_order() {
    let m = FieldMapper::new(vec![mapping("age", "years"), mapping("missing", "x"), mapping("name", "who")]);
    assert_eq!(m.name(), "field_mapper");
    let out = m.transform(people()).ok().unwrap();
    assert_eq!(out.num_columns(), 2);
    assert_eq!(out.num_rows(), 4);
    assert_eq!(out.field(0).name, "years");
    assert_eq!(out.field(0).data_type, DataKind::Int64);
    assert!(out.field(0).nullable);
    assert_eq!(out.field(1).name, "who");
    assert!(matches!(out.column(0)[0], Cell::Int(31)));
    assert!(matches!(out.column(0)[1], Cell::Null));
    assert!(matches!(&out.column(1)[3], Cell::Text(s) if s == "di"));
}

#[test]
fn mapper_without_mappings_hands_the_batch_back() {
    let out = FieldMapper::new(Vec::new()).transform(people()).ok().unwrap();
    assert_eq!(out.num_columns(), 3);
    assert_eq!(names(&out), vec!["ann", "bob", "cy", "di"]);
}

#[test]
fn mapper_with_no_matching_field_fails() {
    let (t, m) = failure(FieldMapper::new(vec![mapping("nope", "x")]).transform(people()));
    assert_eq!(t, "field_mapper");
    assert_eq!(m, "Invalid argument error: must either specify a row count or at least one column");
}

#[test]
fn filter_keeps_rows_whose_mask_is_true() {
    let f = RowFilter::new("keep".to_string());
    assert_eq!(f.name(), "row_filter");
    let out = f.transform(people()).ok().unwrap();
    assert_eq!(out.num_rows(), 2);
    assert_eq!(out.num_columns(), 3);
    assert_eq!(names(&out), vec!["ann", "di"]);
    assert!(matches!(out.column(1)[1], Cell::Int(52)));
    assert!(out.column(2).iter().all(|c| matches!(c, Cell::Bool(true))));
}

#[test]
fn filter_twice_is_filter_once() {
    let f = RowFilter::new("keep".to_string());
    let once = f.transform(people()).ok().unwrap();
    let twice = f.transform(f.transform(people()).ok().unwrap()).ok().unwrap();
    assert_eq!(once.num_rows(), twice.num_rows());
    assert_eq!(names(&once), names(&twice));
}

#[test]
fn filter_errors() {
    let (t, m) = failure(RowFilter::new("gone".to_string()).transform(people()));
    assert_eq!(t, "row_filter");
    assert_eq!(m, "Filter column 'gone' not found in schema");
    let (t, m) = failure(RowFilter::new("age".to_string()).transform(people()));
    assert_eq!(t, "row_filter");
    assert_eq!(m, "Column 'age' is not a boolean type");
}

#[test]
fn chain_applies_steps_in_order() {
    let chain = TransformChain::new(vec![
        Transform::RowFilter(RowFilter::new("keep".to_string())),
        Transform::FieldMapper(FieldMapper::new(vec![mapping("name", "n")])),
    ]);
    let out = chain.apply(people()).ok().unwrap();
    assert_eq!(out.num_columns(), 1);
    assert_eq!(out.field(0).name, "n");
    assert_eq!(names(&out), vec!["ann", "di"]);

    // the other order fails: the filter no longer finds its column
    let reversed = TransformChain::new(vec![
        Transform::FieldMapper(FieldMapper::new(vec![mapping("name", "n")])),
        Transform::RowFilter(RowFilter::new("keep".to_string())),
    ]);
    let (t, m) = failure(reversed.apply(people()));
    assert_eq!(t, "row_filter");
    assert_eq!(m, "Filter column 'keep' not found in schema");
}

#[test]
fn empty_chain_is_identity() {
    let out = TransformChain::empty().apply(people()).ok().unwrap();
    assert_eq!(out.num_rows(), 4);
    assert_eq!(names(&out), vec!["ann", "bob", "cy", "di"]);
}

#[test]
fn step_names() {
    assert_eq!(Transform::RowFilter(RowFilter::new("k".to_string())).name(), "row_filter");
    assert_eq!(Transform::FieldMapper(FieldMapper::new(Vec::new())).name(), "field_mapper");
}

fn cast(from: &str, to: &str, c: &str) -> FieldMapping {
    FieldMapping { source_field: from.to_string(), sink_field: to.to_string(), cast: Some(c.to_string()) }
}

fn ints(values: &[i64]) -> Batch {
    Batch::try_new(vec![Field::new("n", DataKind::Int64, false)], vec![values.iter().map(|v| Cell::Int(*v)).collect()])
        .ok()
        .unwrap()
}

#[test]
fn mapper_casts_integers_to_text() {
    let out = FieldMapper::new(vec![cast("n", "n_str", "string")]).transform(ints(&[1, 2, -30])).ok().unwrap();
    assert_eq!(out.field(0).name, "n_str");
    assert_eq!(out.field(0).data_type, DataKind::Utf8);
    assert!(!out.field(0).nullable);
    assert_eq!(names(&out), vec!["1", "2", "-30"]);
    let min = FieldMapper::new(vec![cast("n", "s", "string")]).transform(ints(&[i64::MIN])).ok().unwrap();
    assert_eq!(names(&min), vec![i64::MIN.to_string()]);
}

#[test]
fn mapper_casts_text_and_booleans_to_integers() {
    let out = FieldMapper::new(vec![cast("keep", "k", "integer"), cast("age", "a", "timestamp"), cast("keep", "t", "string")])
        .transform(people())
        .ok()
        .unwrap();
    assert_eq!(out.field(0).data_type, DataKind::Int64);
    assert!(matches!(out.column(0)[0], Cell::Int(1)));
    assert!(matches!(out.column(0)[1], Cell::Int(0)));
    assert!(matches!(out.column(0)[2], Cell::Null));
    assert_eq!(out.field(1).data_type, DataKind::Timestamp);
    assert!(matches!(out.column(1)[3], Cell::Int(52)));
    assert!(matches!(&out.column(2)[0], Cell::Text(s) if s == "true"));
    let digits = Batch::try_new(vec![Field::new("d", DataKind::Utf8, true)], vec![vec![text("-12"), Cell::Null, text("+7")]])
        .ok()
        .unwrap();
    let parsed = FieldMapper::new(vec![cast("d", "d", "integer")]).transform(digits).ok().unwrap();
    assert!(matches!(parsed.column(0)[0], Cell::Int(-12)));
    assert!(matches!(parsed.column(0)[1], Cell::Null));
    assert!(matches!(parsed.column(0)[2], Cell::Int(7)));
}

#[test]
fn mapper_refuses_unknown_and_impossible_casts() {
    let (t, m) = failure(FieldMapper::new(vec![cast("n", "x", "uuid")]).transform(ints(&[1])));
    assert_eq!(t, "field_mapper");
    assert_eq!(m, "Unknown cast 'uuid' for field 'n'");
    let (_, m) = failure(FieldMapper::new(vec![cast("name", "x", "integer")]).transform(people()));
    assert_eq!(m, "Cannot cast field 'name' to integer");
    let (_, m) = failure(FieldMapper::new(vec![cast("n", "x", "float")]).transform(ints(&[1])));
    assert_eq!(m, "Cannot cast field 'n' to float");
    // a mapping whose field is missing is skipped, cast or not
    let out = FieldMapper::new(vec![cast("zzz", "x", "uuid"), mapping("n", "n")]).transform(ints(&[4])).ok().unwrap();
    assert_eq!(out.num_columns(), 1);
}
