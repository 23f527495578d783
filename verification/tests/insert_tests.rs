use mocks::error::MocksError;
use mocks::json::Json;
use mocks::storage::operation::insert::insert;

fn j(text: &str) -> Json {
    Json::parse(text).unwrap()
}


#[test]
fn test_insert_with_string_id() {
    let mut data = j(r#"{"posts":[{"id":"test1","title":"first post","views":100}]}"#);
    let input = j(r#"{"id":"test2","title":"second post","views":0}"#);

    match insert(&mut data, "posts", &input) {
        Ok(v) => {
            assert_eq!(v, j(r#"{"id":"test2","title":"second post","views":0}"#));

            match data.get("posts").unwrap().as_array() {
                None => {
                    panic!("panic in test_insert_with_string_id");
                }
                Some(values) => {
                    assert_eq!(values.len(), 2);
                }
            }
        }
        Err(e) => {
            panic!("panic in test_insert_with_string_id: {e:?}");
        }
    }
}

#[test]
fn test_insert_nested_resource_with_string_id() {
    let mut data = j(r#"{"api/v1/posts":[{"id":"test1","title":"first post","views":100}]}"#);
    let input = j(r#"{"id":"test2","title":"second post","views":0}"#);

    match insert(&mut data, "api/v1/posts", &input) {
        Ok(v) => {
            assert_eq!(v, j(r#"{"id":"test2","title":"second post","views":0}"#));

            match data.get("api/v1/posts").unwrap().as_array() {
                None => {
                    panic!("panic in test_insert_with_string_id");
                }
                Some(values) => {
                    assert_eq!(values.len(), 2);
                }
            }
        }
        Err(e) => {
            panic!("panic in test_insert_with_string_id: {e:?}");
        }
    }
}

#[test]
fn test_insert_with_number_id() {
    let mut data = j(r#"{"posts":[{"id":1,"title":"first post","views":100}]}"#);
    let input = j(r#"{"id":2,"title":"second post","views":0}"#);

    match insert(&mut data, "posts", &input) {
        Ok(v) => {
            assert_eq!(v, j(r#"{"id":2,"title":"second post","views":0}"#));

            match data.get("posts").unwrap().as_array() {
                None => {
                    panic!("panic in test_insert_with_number_id");
                }
                Some(values) => {
                    assert_eq!(values.len(), 2);
                }
            }
        }
        Err(e) => {
            panic!("panic in test_insert_with_string_id: {e:?}");
        }
    }
}

#[test]
fn test_insert_nested_resource_with_number_id() {
    let mut data = j(r#"{"api/v1/posts":[{"id":1,"title":"first post","views":100}]}"#);
    let input = j(r#"{"id":2,"title":"second post","views":0}"#);

    match insert(&mut data, "api/v1/posts", &input) {
        Ok(v) => {
            assert_eq!(v, j(r#"{"id":2,"title":"second post","views":0}"#));

            match data.get("api/v1/posts").unwrap().as_array() {
                None => {
                    panic!("panic in test_insert_with_number_id");
                }
                Some(values) => {
                    assert_eq!(values.len(), 2);
                }
            }
        }
        Err(e) => {
            panic!("panic in test_insert_with_string_id: {e:?}");
        }
    }
}

#[test]
fn test_insert_error_method_not_allowed() {
    let mut data = j(r#"{"profile":{"id":"user1","name":"John Smith","age":25}}"#);
    let input = j(r#"{"id":"user2","name":"Jane Smith","age":25}"#);

    match insert(&mut data, "profile", &input) {
        Ok(_v) => {
            panic!("panic in test_insert_error_method_not_allowed");
        }
        Err(e) => {
            assert_eq!(e, MocksError::MethodNotAllowed);
        }
    }
}

#[test]
fn test_insert_error_resource_not_found() {
    let mut data = j(r#"{"posts":[{"id":1,"title":"first post","views":100}]}"#);
    let input = j(r#"{"id":2,"title":"second post","views":0}"#);

    match insert(&mut data, "errors", &input) {
        Ok(_v) => {
            panic!("panic in test_insert_error_resource_not_found");
        }
        Err(e) => {
            assert_eq!(e, MocksError::ObjectNotFound);
        }
    }
}

#[test]
fn test_insert_error_with_duplicated_string_id() {
    let mut data = j(r#"{"posts":[{"id":"test1","title":"first post","views":100}]}"#);
    let input = j(r#"{"id":"test1","title":"duplicated id","views":0}"#);

    match insert(&mut data, "posts", &input) {
        Ok(_v) => {
            panic!("panic in test_insert_error_with_duplicated_string_id");
        }
        Err(e) => {
            assert_eq!(e, MocksError::DuplicateId);
        }
    }
}

#[test]
fn test_insert_error_with_duplicated_number_id() {
    let mut data = j(r#"{"posts":[{"id":1,"title":"first post","views":100}]}"#);
    let input = j(r#"{"id":1,"title":"duplicated id","views":0}"#);

    match insert(&mut data, "posts", &input) {
        Ok(_v) => {
            panic!("panic in test_insert_error_with_duplicated_number_id");
        }
        Err(e) => {
            assert_eq!(e, MocksError::DuplicateId);
        }
    }
}
