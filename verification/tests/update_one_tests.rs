use mocks::error::MocksError;
use mocks::json::Json;
use mocks::storage::operation::update_one::update_one;

fn j(text: &str) -> Json {
    Json::parse(text).unwrap()
}


#[test]
fn test_update_one() {
    let mut data = j(r#"{"profile":{"id":"user1","name":"John Smith","age":25}}"#);
    let input = j(r#"{"id":"user1","name":"Jane Smith","age":30}"#);

    match update_one(&mut data, "profile", &input) {
        Ok(v) => {
            assert_eq!(v, j(r#"{"id":"user1","name":"Jane Smith","age":30}"#));

            let updated_profile = data.get("profile").unwrap();
            assert_eq!(
                *updated_profile,
                j(r#"{"id":"user1","name":"Jane Smith","age":30}"#)
            );
        }
        Err(e) => {
            panic!("panic in test_update_one: {e:?}");
        }
    }
}

#[test]
fn test_update_one_nested_resource() {
    let mut data = j(r#"{"api/v1/profile":{"id":"user1","name":"John Smith","age":25}}"#);
    let input = j(r#"{"id":"user1","name":"Jane Smith","age":30}"#);

    match update_one(&mut data, "api/v1/profile", &input) {
        Ok(v) => {
            assert_eq!(v, j(r#"{"id":"user1","name":"Jane Smith","age":30}"#));

            let updated_profile = data.get("api/v1/profile").unwrap();
            assert_eq!(
                *updated_profile,
                j(r#"{"id":"user1","name":"Jane Smith","age":30}"#)
            );
        }
        Err(e) => {
            panic!("panic in test_update_one: {e:?}");
        }
    }
}

#[test]
fn test_update_one_error() {
    let mut data = j(r#"{"profile":{"id":"user1","name":"John Smith","age":25}}"#);
    let input = j(r#"{"id":"user1","name":"Jane Smith","age":30}"#);

    match update_one(&mut data, "error", &input) {
        Ok(_v) => {
            panic!("panic in test_update_one_error")
        }
        Err(e) => {
            assert_eq!(e, MocksError::ObjectNotFound);
        }
    }
}
