use minigrep::{GrepError, IoCause};

#[test]
fn missing_file_message() {
    let err = GrepError::IOError(String::from("poem.txt"), IoCause::NotFound);
    assert_eq!(err.message(), "File poem.txt not found.");
}

#[test]
fn usage_message() {
    assert_eq!(
        GrepError::NotEnoughParams.message(),
        "usage: minigrep [-i] keywords filename"
    );
}

#[test]
fn other_io_failure_message() {
    let err = GrepError::IOError(
        String::from("secret.txt"),
        IoCause::Other(String::from("Permission denied (os error 13)")),
    );
    assert_eq!(err.message(), "Permission denied (os error 13)");
}
