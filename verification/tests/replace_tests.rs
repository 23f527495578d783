use mocks::error::MocksError;
use mocks::json::Json;
use mocks::storage::operation::replace::replace;

fn j(text: &str) -> Json {
    Json::parse(text).unwrap()
}


#[test]
fn test_replace_with_string_id() {
    let mut data = j(r#"{"posts":[{"id":"test1","title":"first post","views":100}]}"#);
    let input = j(r#"{"id":"test1","title":"replace test","views":200}"#);

    match replace(&mut data, "posts", "test1", &input) {
        Ok(v) => {
            assert_eq!(v, j(r#"{"id":"test1","title":"replace test","views":200}"#));

            let updated_post = &data.get("posts").unwrap().as_array().unwrap()[0];
            assert_eq!(
                *updated_post,
                j(r#"{"id":"test1","title":"replace test","views":200}"#)
            );
        }
        Err(e) => {
            panic!("panic in test_replace_with_string_id: {}", e.to_string());
        }
    }
}

#[test]
fn test_replace_nested_resource_with_string_id() {
    let mut data = j(r#"{"api/v1/posts":[{"id":"test1","title":"first post","views":100}]}"#);
    let input = j(r#"{"id":"test1","title":"replace test","views":200}"#);

    match replace(&mut data, "api/v1/posts", "test1", &input) {
        Ok(v) => {
            assert_eq!(v, j(r#"{"id":"test1","title":"replace test","views":200}"#));

            let updated_post = &data.get("api/v1/posts").unwrap().as_array().unwrap()[0];
            assert_eq!(
                *updated_post,
                j(r#"{"id":"test1","title":"replace test","views":200}"#)
            );
        }
        Err(e) => {
            panic!("panic in test_replace_with_string_id: {}", e.to_string());
        }
    }
}

#[test]
fn test_replace_with_number_id() {
    let mut data = j(r#"{"posts":[{"id":1,"title":"first post","views":100}]}"#);
    let input = j(r#"{"id":1,"title":"replace test","views":200}"#);

    match replace(&mut data, "posts", "1", &input) {
        Ok(v) => {
            assert_eq!(v, j(r#"{"id":1,"title":"replace test","views":200}"#));

            let updated_post = &data.get("posts").unwrap().as_array().unwrap()[0];
            assert_eq!(
                *updated_post,
                j(r#"{"id":1,"title":"replace test","views":200}"#)
            );
        }
        Err(e) => {
            panic!("panic in test_replace_with_string_id: {}", e.to_string());
        }
    }
}

#[test]
fn test_replace_nested_resource_with_number_id() {
    let mut data = j(r#"{"api/v1/posts":[{"id":1,"title":"first post","views":100}]}"#);
    let input = j(r#"{"id":1,"title":"replace test","views":200}"#);

    match replace(&mut data, "api/v1/posts", "1", &input) {
        Ok(v) => {
            assert_eq!(v, j(r#"{"id":1,"title":"replace test","views":200}"#));

            let updated_post = &data.get("api/v1/posts").unwrap().as_array().unwrap()[0];
            assert_eq!(
                *updated_post,
                j(r#"{"id":1,"title":"replace test","views":200}"#)
            );
        }
        Err(e) => {
            panic!("panic in test_replace_with_string_id: {}", e.to_string());
        }
    }
}

#[test]
fn test_replace_error_resource_not_found() {
    let mut data = j(r#"{"posts":[{"id":"test1","title":"first post","views":100}]}"#);
    let input = j(r#"{"id":"error","title":"replace error","views":200}"#);

    match replace(&mut data, "errors", "test1", &input) {
        Ok(_v) => {
            panic!("panic in test_replace_error_resource_not_found")
        }
        Err(e) => {
            assert_eq!(e, MocksError::ResourceNotFound);
        }
    }
}

#[test]
fn test_replace_error_object_not_found() {
    let mut data = j(r#"{"posts":[{"id":"test1","title":"first post","views":100}]}"#);
    let input = j(r#"{"id":"error","title":"replace error","views":200}"#);

    match replace(&mut data, "posts", "error", &input) {
        Ok(_v) => {
            panic!("panic in test_replace_error_object_not_found")
        }
        Err(e) => {
            assert_eq!(e, MocksError::ObjectNotFound);
        }
    }
}
