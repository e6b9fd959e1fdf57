//! The build-output directory locator: value extraction, backslash
//! unescaping, last-occurrence selection, and the two error outcomes.

use gen_support::cargo::{target_dir, TargetDirError};

#[test]
fn plain_value_is_extracted() {
    let metadata = br#"{"workspace_root":"/w","target_directory":"/some/path","version":1}"#
        .to_vec();
    let dir = target_dir(Ok(metadata)).unwrap();
    assert_eq!(dir.0, b"/some/path".to_vec());
}

#[test]
fn doubled_backslashes_are_collapsed() {
    let metadata = br#"{"target_directory":"C:\\Users\\x"}"#.to_vec();
    let dir = target_dir(Ok(metadata)).unwrap();
    assert_eq!(dir.0, b"C:\\Users\\x".to_vec());
    assert_eq!(String::from_utf8(dir.0).unwrap(), "C:\\Users\\x");
}

#[test]
fn last_occurrence_of_the_key_wins() {
    let metadata =
        br#"{"packages":[{"target_directory":"/nested"}],"target_directory":"/top"}"#.to_vec();
    let dir = target_dir(Ok(metadata)).unwrap();
    assert_eq!(dir.0, b"/top".to_vec());
}

#[test]
fn missing_key_is_not_found() {
    let metadata = br#"{"something":"else"}"#.to_vec();
    let err = target_dir(Ok(metadata)).unwrap_err();
    assert!(matches!(err, TargetDirError::NotFound));
}

#[test]
fn missing_opening_quote_is_not_found() {
    let metadata = br#"{"target_directory":"#.to_vec();
    let err = target_dir(Ok(metadata)).unwrap_err();
    assert!(matches!(err, TargetDirError::NotFound));
}

#[test]
fn unterminated_value_is_not_found() {
    let metadata = br#"{"target_directory":"/never/closed"#.to_vec();
    let err = target_dir(Ok(metadata)).unwrap_err();
    assert!(matches!(err, TargetDirError::NotFound));
}

#[test]
fn undecodable_output_is_not_found() {
    let mut metadata = br#"{"target_directory":"/fine"}"#.to_vec();
    metadata.push(0xFF);
    let err = target_dir(Ok(metadata)).unwrap_err();
    assert!(matches!(err, TargetDirError::NotFound));
}

#[test]
fn invocation_failure_carries_the_cause() {
    let cause = std::io::Error::new(std::io::ErrorKind::NotFound, "spawn failed");
    let err = target_dir(Err(cause)).unwrap_err();
    match err {
        TargetDirError::Io(inner) => assert_eq!(inner.to_string(), "spawn failed"),
        TargetDirError::NotFound => panic!("expected the invocation failure to be reported"),
    }
}

#[test]
fn empty_value_is_extracted_as_empty() {
    let metadata = br#"{"target_directory":""}"#.to_vec();
    let dir = target_dir(Ok(metadata)).unwrap();
    assert_eq!(dir.0, Vec::<u8>::new());
}
