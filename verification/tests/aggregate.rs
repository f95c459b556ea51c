use sloc::tally::CountResult;

fn entry(res: &CountResult, ext: &[u8]) -> Option<usize> {
    res.languages.iter().find(|e| e.0 == ext).map(|e| e.1)
}

#[test]
fn default_result_is_empty() {
    let res = CountResult::default();
    assert_eq!(res.total, 0);
    assert_eq!(res.languages.len(), 0);
}

#[test]
fn new_extensions_get_their_own_entries() {
    let mut res = CountResult::default();
    res.add_file(b"rs", 3);
    res.add_file(b"py", 2);
    assert_eq!(res.total, 5);
    assert_eq!(res.languages.len(), 2);
    assert_eq!(entry(&res, b"rs"), Some(3));
    assert_eq!(entry(&res, b"py"), Some(2));
}

#[test]
fn repeated_extension_accumulates() {
    let mut res = CountResult::default();
    res.add_file(b"rs", 3);
    res.add_file(b"py", 2);
    res.add_file(b"rs", 5);
    assert_eq!(res.total, 10);
    assert_eq!(res.languages.len(), 2);
    assert_eq!(entry(&res, b"rs"), Some(8));
    assert_eq!(entry(&res, b"py"), Some(2));
}

#[test]
fn zero_counts_are_recorded() {
    let mut res = CountResult::default();
    res.add_file(b"rs", 0);
    assert_eq!(res.total, 0);
    assert_eq!(entry(&res, b"rs"), Some(0));
}
