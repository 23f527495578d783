use mocks::error::MocksError;

#[test]
fn test_display_implementation() {
    let read_error = MocksError::FailedReadFile("Failed to read file".to_string());
    assert_eq!(read_error.to_string(), "Failed to read file");

    let write_error = MocksError::FailedWriteFile("Failed to write file".to_string());
    assert_eq!(write_error.to_string(), "Failed to write file");

    let invalid_args = MocksError::InvalidArgs("Invalid arguments".to_string());
    assert_eq!(invalid_args.to_string(), "Invalid arguments");

    let exception = MocksError::Exception("Unexpected error occurred".to_string());
    assert_eq!(exception.to_string(), "Unexpected error occurred");

    assert_eq!(
        MocksError::ResourceNotFound.to_string(),
        "Resource not found."
    );
    assert_eq!(MocksError::ObjectNotFound.to_string(), "Object not found.");
    assert_eq!(
        MocksError::MethodNotAllowed.to_string(),
        "Method not allowed."
    );
    assert_eq!(MocksError::InvalidRequest.to_string(), "Invalid request.");
    assert_eq!(MocksError::DuplicateId.to_string(), "Duplicate ID.");
}

#[test]
fn test_into_response_implementation() {
    let read_error = MocksError::FailedReadFile("Failed to read file".to_string());
    assert_eq!(read_error.status_code(), 500);

    let not_found = MocksError::ResourceNotFound;
    assert_eq!(not_found.status_code(), 404);

    let method_not_allowed = MocksError::MethodNotAllowed;
    assert_eq!(method_not_allowed.status_code(), 405);

    let invalid_request = MocksError::InvalidRequest;
    assert_eq!(invalid_request.status_code(), 400);

    let duplicate_id = MocksError::DuplicateId;
    assert_eq!(duplicate_id.status_code(), 409);
}

#[test]
fn test_error_equality() {
    let resource_not_found_error = MocksError::ResourceNotFound;
    let other_resource_not_found_error = MocksError::ResourceNotFound;
    let object_not_found_error = MocksError::ObjectNotFound;

    assert_eq!(resource_not_found_error, other_resource_not_found_error);
    assert_ne!(resource_not_found_error, object_not_found_error);
}

#[test]
fn test_error_source() {
    let error = MocksError::ResourceNotFound;
    assert!(error.source().is_none());
}

#[test]
fn test_error_response_body() {
    let error = MocksError::ResourceNotFound;
    assert_eq!(error.status_code(), 404);
}

#[test]
fn test_all_error_variants() {
    let error = MocksError::FailedReadFile("test error".to_string());
    assert_eq!(error.to_string(), "test error");
    assert_eq!(error.status_code(), 500);

    let error = MocksError::FailedWriteFile("test error".to_string());
    assert_eq!(error.to_string(), "test error");
    assert_eq!(error.status_code(), 500);

    let error = MocksError::InvalidArgs("test error".to_string());
    assert_eq!(error.to_string(), "test error");
    assert_eq!(error.status_code(), 500);

    let error = MocksError::Exception("test error".to_string());
    assert_eq!(error.to_string(), "test error");
    assert_eq!(error.status_code(), 500);

    let error = MocksError::ResourceNotFound;
    assert_eq!(error.to_string(), "Resource not found.");
    assert_eq!(error.status_code(), 404);

    let error = MocksError::ObjectNotFound;
    assert_eq!(error.to_string(), "Object not found.");
    assert_eq!(error.status_code(), 404);

    let error = MocksError::MethodNotAllowed;
    assert_eq!(error.to_string(), "Method not allowed.");
    assert_eq!(error.status_code(), 405);

    let error = MocksError::InvalidRequest;
    assert_eq!(error.to_string(), "Invalid request.");
    assert_eq!(error.status_code(), 400);

    let error = MocksError::DuplicateId;
    assert_eq!(error.to_string(), "Duplicate ID.");
    assert_eq!(error.status_code(), 409);

    let error = MocksError::QueryParamsNotAllowed;
    assert_eq!(error.to_string(), "Query parameters not allowed.");
    assert_eq!(error.status_code(), 400);

    let error = MocksError::InvalidSearchValue;
    assert_eq!(
        error.to_string(),
        "Cannot search on complex values (objects or arrays)."
    );
    assert_eq!(error.status_code(), 400);

    let error = MocksError::InvalidMatchType;
    assert_eq!(
        error.to_string(),
        "Invalid match type. Use: exact, startswith, endswith, contains."
    );
    assert_eq!(error.status_code(), 400);

    let error = MocksError::InvalidQueryParam;
    assert_eq!(error.to_string(), "Invalid query parameter format.");
    assert_eq!(error.status_code(), 400);

    let error = MocksError::MatchTypeRequired;
    assert_eq!(error.to_string(), "Match type is required. Use: field.exact, field.startswith, field.endswith, or field.contains.");
    assert_eq!(error.status_code(), 400);

    let error = MocksError::Aborted;
    assert_eq!(error.to_string(), "Operation aborted by user.");
    assert_eq!(error.status_code(), 500);
}
