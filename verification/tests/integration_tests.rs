use file_hasher::FileRecord;
use file_hasher::JobStatus;

#[test]
fn test_file_record_creation() {
    let path = String::from("dummy.txt");
    let record = FileRecord::new(path.clone());
    assert_eq!(record.path, path);
    assert!(matches!(record.status, JobStatus::Pending));
    assert!(record.started_at.is_none());
    assert!(record.finished_at.is_none());
}
