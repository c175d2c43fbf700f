use data_pipeline::dlq::{estimate_record_size, DlqErrorCategory, DlqRecord};
use data_pipeline::timestamp::UtcTimestamp;

#[test]
fn test_dlq_error_category() {
    assert_eq!(DlqErrorCategory::SchemaValidation.as_str(), "schema_validation");
    assert_eq!(DlqErrorCategory::Other.as_str(), "other");
}

#[test]
fn test_dlq_record_size_estimation() {
    let record = DlqRecord {
        id: "test-id".to_string(),
        pipeline_id: "test-pipeline".to_string(),
        timestamp: UtcTimestamp::now(),
        error_category: DlqErrorCategory::SchemaValidation,
        error_message: "Test error".to_string(),
        original_data: "{\"field\":\"value\"}".to_string(),
        metadata: Vec::new(),
    };

    let size = estimate_record_size(&record);
    assert!(size > 0);
}
