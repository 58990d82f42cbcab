use soroban_pulse::error::AppError;
use soroban_pulse::saved_queries::{
    creation_failure, deletion_outcome, found_or_not_found, has_more, internal_failure,
    list_window, validation_failure, ListSavedQueriesParams, PaginationParams,
};

#[test]
fn paging_defaults_are_first_page_of_twenty() {
    let p = PaginationParams { page: None, limit: None };
    assert_eq!(p.page(), 1);
    assert_eq!(p.limit(), 20);
    assert_eq!(p.offset(), 0);
}

#[test]
fn paging_is_clamped() {
    let p = PaginationParams { page: Some(-5), limit: Some(-3) };
    assert_eq!(p.page(), 1);
    assert_eq!(p.limit(), 1);
    assert_eq!(p.offset(), 0);
    let p = PaginationParams { page: Some(0), limit: Some(1000) };
    assert_eq!(p.page(), 1);
    assert_eq!(p.limit(), 100);
    let p = PaginationParams { page: Some(3), limit: Some(10) };
    assert_eq!(p.offset(), 20);
}

#[test]
fn resolved_paging_resolves_to_itself() {
    let p = PaginationParams { page: Some(-9), limit: Some(500) };
    let q = PaginationParams { page: Some(p.page()), limit: Some(p.limit()) };
    assert_eq!((q.page(), q.limit(), q.offset()), (p.page(), p.limit(), p.offset()));
}

#[test]
fn listing_window_and_more_pages() {
    let (page, limit, offset) = list_window(&ListSavedQueriesParams { page: Some(2), limit: None });
    assert_eq!((page, limit, offset), (2, 20, 20));
    assert!(has_more(offset, limit, 41));
    assert!(!has_more(offset, limit, 40));
}

#[test]
fn lookups_and_deletions_answer_not_found() {
    match found_or_not_found::<u8>(None) {
        Err(AppError::NotFound(m)) => assert_eq!(m, "Saved query not found"),
        other => panic!("{:?}", other),
    }
    assert_eq!(found_or_not_found(Some(7u8)).unwrap(), 7);
    assert!(deletion_outcome(1).is_ok());
    match deletion_outcome(0) {
        Err(AppError::NotFound(m)) => assert_eq!(m, "Saved query not found"),
        other => panic!("{:?}", other),
    }
}

#[test]
fn failure_messages() {
    match creation_failure(true, "duplicate key") {
        AppError::Validation(m) => assert_eq!(m, "Query name already exists"),
        other => panic!("{:?}", other),
    }
    match creation_failure(false, "connection reset") {
        AppError::Internal(m) => assert_eq!(m, "Failed to create saved query: connection reset"),
        other => panic!("{:?}", other),
    }
    match internal_failure("Failed to fetch saved query", "timeout") {
        AppError::Internal(m) => assert_eq!(m, "Failed to fetch saved query: timeout"),
        other => panic!("{:?}", other),
    }
    match validation_failure("Invalid query parameters", "bad") {
        AppError::Validation(m) => assert_eq!(m, "Invalid query parameters: bad"),
        other => panic!("{:?}", other),
    }
}
