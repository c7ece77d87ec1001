use getargv::{Argv, OsError};

#[test]
fn argv_default_trait_sanity_check() {
    let argv: Argv = Default::default();
    assert_eq!(argv.len(), 0);
    assert!(argv.is_empty());
    assert_eq!(argv.as_bytes().len(), 0);
}

#[test]
fn argv_debug_trait_sanity_check() {
    let argv: Argv = Default::default();
    let output = format!("{:?}", argv);
    assert_eq!(output, "Argv { bytes: [] }");
}

#[test]
fn empty_argv_prints_nothing_and_clones_to_itself() {
    let argv: Argv = Default::default();
    assert!(argv.print().is_ok());
    let copy = argv.clone();
    assert_eq!(copy, argv);
    assert_eq!(copy.len(), 0);
}

#[test]
fn new_block_reports_exact_length() {
    let argv = Argv::new(b"zero\0one\0".to_vec());
    assert_eq!(argv.len(), 9);
    assert!(!argv.is_empty());
    assert_eq!(argv.as_bytes(), &b"zero\0one\0".to_vec());
}

#[test]
fn deep_clone_is_byte_for_byte_and_independent() {
    let original = Argv::new(b"zero one two\0".to_vec());
    let copy = original.clone();
    assert_eq!(copy, original);
    drop(original);
    assert_eq!(copy.len(), 13);
    assert_eq!(copy.as_bytes(), &b"zero one two\0".to_vec());
}

#[test]
fn blocks_with_different_bytes_are_unequal() {
    let a = Argv::new(b"zero".to_vec());
    let b = Argv::new(b"one".to_vec());
    assert_ne!(a, b);
    assert_ne!(a, Argv::new(b"zerO".to_vec()));
    assert_eq!(a, Argv::new(b"zero".to_vec()));
}

#[test]
fn print_succeeds_on_a_nonempty_block() {
    let argv = Argv::new(b"zero one two\n".to_vec());
    assert!(argv.print().is_ok());
}

#[test]
fn os_error_carries_its_code() {
    let e = OsError::from_code(3);
    assert_eq!(e.code(), 3);
    assert_eq!(e, OsError::from_code(3));
    assert_ne!(e, OsError::from_code(4));
}
