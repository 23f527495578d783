use mocks::error::MocksError;
use mocks::json::Json;
use mocks::storage::operation::select_all::select_all;

fn j(text: &str) -> Json {
    Json::parse(text).unwrap()
}


#[test]
fn test_select_all_list() {
    let data = j(r#"{"posts":[{"id":"test1","title":"first post","views":100}]}"#);

    match select_all(&data, "posts") {
        Ok(v) => {
            if let Json::Array(values) = v {
                assert_eq!(values.len(), 1);

                let v = &values[0];
                assert_eq!(*v, j(r#"{"id":"test1","title":"first post","views":100}"#));
            } else {
                panic!("panic in test_insert_with_string_id");
            }
        }
        Err(_) => {
            panic!("panic in test_insert_with_string_id");
        }
    }
}

#[test]
fn test_select_all_list_nested_resource() {
    let data = j(r#"{"api/v1/posts":[{"id":"test1","title":"first post","views":100}]}"#);

    match select_all(&data, "api/v1/posts") {
        Ok(v) => {
            if let Json::Array(values) = v {
                assert_eq!(values.len(), 1);

                let v = &values[0];
                assert_eq!(*v, j(r#"{"id":"test1","title":"first post","views":100}"#));
            } else {
                panic!("panic in test_insert_with_string_id");
            }
        }
        Err(_) => {
            panic!("panic in test_insert_with_string_id");
        }
    }
}

#[test]
fn test_select_all_object() {
    let data = j(r#"{"profile":{"id":1,"name":"John Smith","age":25}}"#);

    match select_all(&data, "profile") {
        Ok(v) => {
            assert_eq!(v, j(r#"{"id":1,"name":"John Smith","age":25}"#));
        }
        Err(_) => {
            panic!("panic in test_insert_with_string_id");
        }
    }
}

#[test]
fn test_select_all_object_nested_resource() {
    let data = j(r#"{"api/v1/profile":{"id":1,"name":"John Smith","age":25}}"#);

    match select_all(&data, "api/v1/profile") {
        Ok(v) => {
            assert_eq!(v, j(r#"{"id":1,"name":"John Smith","age":25}"#));
        }
        Err(_) => {
            panic!("panic in test_insert_with_string_id");
        }
    }
}

#[test]
fn test_select_all_error_list() {
    let data = j(r#"{"posts":[{"id":"test1","title":"first post","views":100}]}"#);

    match select_all(&data, "errors") {
        Ok(_v) => {
            panic!("panic in test_select_all_error_list");
        }
        Err(e) => {
            assert_eq!(e, MocksError::ResourceNotFound);
        }
    }
}

#[test]
fn test_select_all_error_object() {
    let data = j(r#"{"profile":{"id":1,"name":"John Smith","age":25}}"#);

    match select_all(&data, "error") {
        Ok(_v) => {
            panic!("panic in test_select_all_error_object");
        }
        Err(e) => {
            assert_eq!(e, MocksError::ResourceNotFound);
        }
    }
}
