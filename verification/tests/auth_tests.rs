use picture_vault::auth::{basic_credentials, get_uid, get_uid_credentials, split_credentials, Credentials};

fn parsed(r: Result<Credentials, i8>) -> Option<(String, String)> {
    match r {
        Ok(Credentials::Parsed(u, p)) => Some((u, p)),
        _ => None,
    }
}

#[test]
fn basic_credentials_decode_user_and_password() {
    let r = basic_credentials("Basic dXNlcjpwYXNz");
    assert_eq!(parsed(r), Some(("user".to_string(), "pass".to_string())));
}

#[test]
fn password_ends_at_second_colon() {
    let r = basic_credentials("Basic YTpiOmM=");
    assert_eq!(parsed(r), Some(("a".to_string(), "b".to_string())));
}

#[test]
fn text_without_colon_is_reported() {
    assert!(matches!(basic_credentials("Basic dXNlcg=="), Ok(Credentials::NoSeparator)));
}

#[test]
fn undecodable_value_is_minus_one() {
    assert!(matches!(basic_credentials("Basic !!!!"), Err(-1)));
}

#[test]
fn value_without_basic_prefix_decodes_nothing() {
    assert!(matches!(basic_credentials("Bearer dXNlcjpwYXNz"), Ok(Credentials::NoSeparator)));
}

#[test]
fn get_uid_credentials_errors() {
    assert!(matches!(get_uid_credentials(None), Err(-1)));
    assert!(matches!(get_uid_credentials(Some(None)), Err(-4)));
    let r = get_uid_credentials(Some(Some("Basic dXNlcjpwYXNz".to_string())));
    assert_eq!(parsed(r), Some(("user".to_string(), "pass".to_string())));
}

#[test]
fn get_uid_maps_lookup_errors() {
    assert_eq!(get_uid(Ok(12)), Ok(12));
    assert_eq!(get_uid(Err(-5)), Err(-2));
    assert_eq!(get_uid(Err(-4)), Err(-3));
    assert_eq!(get_uid(Err(-1)), Err(-3));
}

#[test]
fn credentials_roundtrip_on_concrete_values() {
    assert_eq!(split_credentials("alice:wonderland"), ("alice".to_string(), "wonderland".to_string()));
}
