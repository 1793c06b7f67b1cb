use hotdog::error::storage_failure;
use hotdog::store::insert_failure;
use hotdog::StoreError;

#[test]
fn invalid_url_message() {
    assert_eq!(StoreError::InvalidUrl.message(), "Invalid image URL format");
}

#[test]
fn duplicate_url_message() {
    assert_eq!(
        StoreError::DuplicateUrl.message(),
        "This dog image has already been saved"
    );
}

#[test]
fn storage_message_is_its_text() {
    let error = StoreError::Storage(String::from("Database error: disk I/O error"));
    assert_eq!(error.message(), "Database error: disk I/O error");
}

#[test]
fn storage_failure_joins_step_and_cause() {
    assert_eq!(
        storage_failure("Failed to query dogs: ", "database is locked"),
        StoreError::Storage(String::from("Failed to query dogs: database is locked"))
    );
    assert_eq!(storage_failure("", ""), StoreError::Storage(String::new()));
}

#[test]
fn uniqueness_violation_becomes_duplicate() {
    assert_eq!(
        insert_failure("UNIQUE constraint failed: dogs.url"),
        StoreError::DuplicateUrl
    );
    assert_eq!(insert_failure("UNIQUE constraint failed"), StoreError::DuplicateUrl);
}

#[test]
fn other_insert_failures_keep_their_cause() {
    assert_eq!(
        insert_failure("no such table: dogs"),
        StoreError::Storage(String::from("Database error: no such table: dogs"))
    );
    assert_eq!(
        insert_failure("NOT NULL constraint failed: dogs.url"),
        StoreError::Storage(String::from(
            "Database error: NOT NULL constraint failed: dogs.url"
        ))
    );
    assert_eq!(
        insert_failure(""),
        StoreError::Storage(String::from("Database error: "))
    );
}
