//! The annotated filesystem operations: successes pass through
//! unchanged, failures carry a message naming the operation and every
//! path argument, with the platform cause preserved.

use gen_support::fs::{
    canonicalize, copy, create_dir_all, current_dir, read, remove_file, symlink, symlink_dir,
    symlink_file,
};

fn failing() -> std::io::Error {
    std::io::Error::new(std::io::ErrorKind::NotFound, "boom")
}

#[test]
fn canonicalize_failure_names_operation_and_path() {
    let err = canonicalize::<String>("missing/dir", Err(failing())).unwrap_err();
    assert_eq!(err.message(), "Unable to canonicalize path: `missing/dir`");
    assert_eq!(err.source().to_string(), "boom");
}

#[test]
fn canonicalize_success_passes_through() {
    let resolved = canonicalize::<String>("x", Ok(String::from("/abs/x"))).unwrap();
    assert_eq!(resolved, "/abs/x");
}

#[test]
fn copy_failure_names_operation_and_both_paths() {
    let err = copy("src.txt", "dst.txt", Err(failing())).unwrap_err();
    assert_eq!(err.message(), "Failed to copy `src.txt` -> `dst.txt`");
    assert_eq!(err.source().to_string(), "boom");
}

#[test]
fn copy_success_passes_the_byte_count_through() {
    assert_eq!(copy("a", "b", Ok(42)).unwrap(), 42);
}

#[test]
fn create_dir_all_failure_names_operation_and_path() {
    let err = create_dir_all("new/dir", Err(failing())).unwrap_err();
    assert_eq!(err.message(), "Failed to create directory `new/dir`");
}

#[test]
fn current_dir_failure_has_fixed_message() {
    let err = current_dir::<String>(Err(failing())).unwrap_err();
    assert_eq!(err.message(), "Failed to determine current directory");
    assert_eq!(err.source().to_string(), "boom");
}

#[test]
fn current_dir_success_passes_through() {
    assert_eq!(current_dir::<u32>(Ok(7)).unwrap(), 7);
}

#[test]
fn read_failure_names_operation_and_path() {
    let err = read("data.bin", Err(failing())).unwrap_err();
    assert_eq!(err.message(), "Failed to read file `data.bin`");
}

#[test]
fn write_then_read_outcomes_pass_bytes_through_exactly() {
    assert!(gen_support::fs::write("f.txt", Ok(())).is_ok());
    let bytes = read("f.txt", Ok(vec![1u8, 2, 3])).unwrap();
    assert_eq!(bytes, vec![1u8, 2, 3]);
}

#[test]
fn remove_file_failure_names_operation_and_path() {
    let err = remove_file("old.txt", Err(failing())).unwrap_err();
    assert_eq!(err.message(), "Failed to remove file `old.txt`");
}

#[test]
fn symlink_failure_names_operation_and_both_paths() {
    let err = symlink("the/target", "the/link", Err(failing())).unwrap_err();
    assert_eq!(
        err.message(),
        "Failed to create symlink `the/link` pointing to `the/target`"
    );
    assert_eq!(err.source().to_string(), "boom");
}

#[test]
fn symlink_file_and_symlink_dir_share_the_message_shape() {
    let err = symlink_file("t", "l", Err(failing())).unwrap_err();
    assert_eq!(err.message(), "Failed to create symlink `l` pointing to `t`");
    let err = symlink_dir("t", "l", Err(failing())).unwrap_err();
    assert_eq!(err.message(), "Failed to create symlink `l` pointing to `t`");
    assert!(symlink_file("t", "l", Ok(())).is_ok());
    assert!(symlink_dir("t", "l", Ok(())).is_ok());
}

#[test]
fn write_failure_names_operation_and_path() {
    let err = gen_support::fs::write("out.rs", Err(failing())).unwrap_err();
    assert_eq!(err.message(), "Failed to write file `out.rs`");
}
