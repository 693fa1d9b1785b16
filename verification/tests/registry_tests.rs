use sql_engine::common::acid_sync::AcidSync;
use sql_engine::common::webserver_models::{QueryRequestData, QueryResultData, QueryStatus};

#[test]
fn same_table_same_lock() {
    let mut sync = AcidSync::new();
    let people = sync.get_rw_lock("people".to_string());
    let films = sync.get_rw_lock("films".to_string());
    assert_eq!(people, 0);
    assert_eq!(films, 1);
    assert_eq!(sync.get_rw_lock("people".to_string()), people);
    assert_eq!(sync.get_rw_lock("films".to_string()), films);
    assert_eq!(sync.get_rw_lock("".to_string()), 2);
    assert_eq!(sync.lock_count(), 3);
}

#[test]
fn models_have_defaults() {
    assert_eq!(QueryStatus::default(), QueryStatus::Failed);
    let result = QueryResultData::default();
    assert!(result.data.is_none());
    assert!(result.message.is_none());
    assert_eq!(QueryRequestData::default().query, "");
}
