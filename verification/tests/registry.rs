use sloc::lang::{extension_of, lookup};

#[test]
fn known_extensions_have_names() {
    assert_eq!(lookup(b"rs").unwrap().name, "Rust");
    assert_eq!(lookup(b"py").unwrap().name, "Python");
    assert_eq!(lookup(b"java").unwrap().name, "Java");
    assert_eq!(lookup(b"makefile").unwrap().name, "make file");
    assert_eq!(lookup(b"scm").unwrap().name, "Scheme");
    assert_eq!(lookup(b"bat").unwrap().name, "batch script");
}

#[test]
fn unknown_extensions_are_absent() {
    assert!(lookup(b"xyz").is_none());
    assert!(lookup(b"").is_none());
    assert!(lookup(b"rust").is_none());
}

#[test]
fn lookup_is_case_sensitive() {
    assert!(lookup(b"RS").is_none());
    assert!(lookup(b"Py").is_none());
}

#[test]
fn rule_counts_match_the_table() {
    assert_eq!(lookup(b"rs").unwrap().comments.len(), 2);
    assert_eq!(lookup(b"py").unwrap().comments.len(), 1);
    assert_eq!(lookup(b"php").unwrap().comments.len(), 3);
    assert_eq!(lookup(b"ts").unwrap().comments.len(), 1);
}

#[test]
fn extension_is_what_follows_the_last_dot() {
    assert_eq!(extension_of(b"main.rs"), b"rs".to_vec());
    assert_eq!(extension_of(b"a.tar.gz"), b"gz".to_vec());
    assert_eq!(extension_of(b"trailing."), b"".to_vec());
}

#[test]
fn name_without_dot_is_its_own_extension() {
    assert_eq!(extension_of(b"makefile"), b"makefile".to_vec());
    assert_eq!(extension_of(b""), b"".to_vec());
}

#[test]
fn leading_dot_gives_the_rest() {
    assert_eq!(extension_of(b".gitignore"), b"gitignore".to_vec());
}
