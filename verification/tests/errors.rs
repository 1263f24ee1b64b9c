use cargo_cli::errors::{human, CargoError, CliError};

#[test]
fn human_error_has_no_detail_and_no_cause() {
    let error = human("no such file");
    assert_eq!(error.description(), "no such file");
    assert!(error.detail().is_none());
    assert!(error.cause().is_none());
}

#[test]
fn detail_and_cause_are_kept() {
    let root = human("disk full");
    let error = human("could not write").with_detail("while saving the index").caused_by(root);
    assert_eq!(error.description(), "could not write");
    assert_eq!(error.detail().unwrap(), "while saving the index");
    let cause: &CargoError = error.cause().unwrap();
    assert_eq!(cause.description(), "disk full");
    assert!(cause.cause().is_none());
}

#[test]
fn new_cli_error_is_of_a_known_kind() {
    let error = CliError::new("bad flag", 1);
    assert_eq!(error.error.description, "bad flag");
    assert_eq!(error.exit_code, 1);
    assert!(!error.unknown);
    assert!(error.error.cause.is_none());
}

#[test]
fn cli_error_from_error_keeps_the_chain_and_the_code() {
    let error = CliError::from_error(human("top").caused_by(human("root")), 101);
    assert_eq!(error.exit_code, 101);
    assert!(!error.unknown);
    assert_eq!(error.error.cause().unwrap().description(), "root");
}

#[test]
fn unknown_cli_error_ends_with_status_one() {
    let error = CliError::unknown(human("something odd"));
    assert_eq!(error.exit_code, 1);
    assert!(error.unknown);
    assert_eq!(error.error.description(), "something odd");
}
