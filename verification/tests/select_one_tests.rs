use mocks::error::MocksError;
use mocks::json::Json;
use mocks::storage::operation::select_one::select_one;

fn j(text: &str) -> Json {
    Json::parse(text).unwrap()
}


#[test]
fn test_select_one_with_string_id() {
    let data = j(r#"{"posts":[{"id":"test1","title":"first post","views":100}]}"#);

    match select_one(&data, "posts", "test1") {
        Ok(v) => {
            assert_eq!(v, j(r#"{"id":"test1","title":"first post","views":100}"#));
        }
        Err(e) => {
            panic!("panic in test_select_one_with_string_id: {e:?}");
        }
    }
}

#[test]
fn test_select_one_nested_resource_with_string_id() {
    let data = j(r#"{"api/v1/posts":[{"id":"test1","title":"first post","views":100}]}"#);

    match select_one(&data, "api/v1/posts", "test1") {
        Ok(v) => {
            assert_eq!(v, j(r#"{"id":"test1","title":"first post","views":100}"#));
        }
        Err(e) => {
            panic!("panic in test_select_one_with_string_id: {e:?}");
        }
    }
}

#[test]
fn test_select_one_with_number_id() {
    let data = j(r#"{"posts":[{"id":1,"title":"first post","views":100}]}"#);

    match select_one(&data, "posts", "1") {
        Ok(v) => {
            assert_eq!(v, j(r#"{"id":1,"title":"first post","views":100}"#));
            assert_eq!(*v.get("id").unwrap(), Json::number("1"));
        }
        Err(e) => {
            panic!("panic in test_select_one_with_number_id: {e:?}");
        }
    }
}

#[test]
fn test_select_one_nested_resource_with_number_id() {
    let data = j(r#"{"api/v1/posts":[{"id":1,"title":"first post","views":100}]}"#);

    match select_one(&data, "api/v1/posts", "1") {
        Ok(v) => {
            assert_eq!(v, j(r#"{"id":1,"title":"first post","views":100}"#));
            assert_eq!(*v.get("id").unwrap(), Json::number("1"));
        }
        Err(e) => {
            panic!("panic in test_select_one_with_number_id: {e:?}");
        }
    }
}

#[test]
fn test_select_one_error() {
    let data = j(r#"{"posts":[{"id":"test1","title":"first post","views":100}]}"#);

    match select_one(&data, "posts", "error") {
        Ok(_v) => {
            panic!("panic in test_select_one_error")
        }
        Err(e) => {
            assert_eq!(e, MocksError::ObjectNotFound);
        }
    }
}
