use mocks::error::MocksError;
use mocks::json::Json;
use mocks::storage::operation::remove::remove;

fn j(text: &str) -> Json {
    Json::parse(text).unwrap()
}


#[test]
fn test_remove_with_string_id() {
    let mut data = j(r#"{"posts":[{"id":"test1","title":"first post","views":100}]}"#);

    match remove(&mut data, "posts", "test1") {
        Ok(v) => {
            assert_eq!(v, j(r#"{"id":"test1","title":"first post","views":100}"#));

            match data.get("posts").unwrap().as_array() {
                None => {
                    panic!("panic in test_remove_with_string_id");
                }
                Some(values) => {
                    assert_eq!(values.len(), 0);
                }
            }
        }
        Err(e) => {
            panic!("panic in test_remove_with_string_id: {e:?}");
        }
    }
}

#[test]
fn test_remove_nested_resource_with_string_id() {
    let mut data = j(r#"{"api/v1/posts":[{"id":"test1","title":"first post","views":100}]}"#);

    match remove(&mut data, "api/v1/posts", "test1") {
        Ok(v) => {
            assert_eq!(v, j(r#"{"id":"test1","title":"first post","views":100}"#));

            match data.get("api/v1/posts").unwrap().as_array() {
                None => {
                    panic!("panic in test_remove_with_string_id");
                }
                Some(values) => {
                    assert_eq!(values.len(), 0);
                }
            }
        }
        Err(e) => {
            panic!("panic in test_remove_with_string_id: {e:?}");
        }
    }
}

#[test]
fn test_remove_with_number_id() {
    let mut data = j(r#"{"posts":[{"id":1,"title":"first post","views":100}]}"#);

    match remove(&mut data, "posts", "1") {
        Ok(v) => {
            assert_eq!(v, j(r#"{"id":1,"title":"first post","views":100}"#));

            match data.get("posts").unwrap().as_array() {
                None => {
                    panic!("panic in test_remove_with_number_id");
                }
                Some(values) => {
                    assert_eq!(values.len(), 0);
                }
            }
        }
        Err(e) => {
            panic!("panic in test_remove_with_number_id: {e:?}");
        }
    }
}

#[test]
fn test_remove_nested_resource_with_number_id() {
    let mut data = j(r#"{"api/v1/posts":[{"id":1,"title":"first post","views":100}]}"#);

    match remove(&mut data, "api/v1/posts", "1") {
        Ok(v) => {
            assert_eq!(v, j(r#"{"id":1,"title":"first post","views":100}"#));

            match data.get("api/v1/posts").unwrap().as_array() {
                None => {
                    panic!("panic in test_remove_with_number_id");
                }
                Some(values) => {
                    assert_eq!(values.len(), 0);
                }
            }
        }
        Err(e) => {
            panic!("panic in test_remove_with_number_id: {e:?}");
        }
    }
}

#[test]
fn test_remove_error_resource_not_found() {
    let mut data = j(r#"{"posts":[{"id":"test1","title":"first post","views":100}]}"#);

    match remove(&mut data, "errors", "test1") {
        Ok(_v) => {
            panic!("panic in test_remove_error_resource_not_found");
        }
        Err(e) => {
            assert_eq!(e, MocksError::ResourceNotFound);
        }
    }
}

#[test]
fn test_remove_error_object_not_found() {
    let mut data = j(r#"{"posts":[{"id":"test1","title":"first post","views":100}]}"#);

    match remove(&mut data, "posts", "error") {
        Ok(_v) => {
            panic!("panic in test_remove_error_object_not_found");
        }
        Err(e) => {
            assert_eq!(e, MocksError::ObjectNotFound);
        }
    }
}
