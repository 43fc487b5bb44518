use typst_preview::cache::Cache;
use typst_preview::error::FsError;

#[test]
fn loading_twice_reads_once() {
    let mut cache = Cache::new();
    let first = cache.get_or_load_source("/etc/passwd");
    let id1 = first.expect("the file should load");
    assert_eq!(cache.loads(), 1);
    let second = cache.get_or_load_source("/etc/passwd");
    let id2 = second.expect("the file should still load");
    assert_eq!(id1, id2);
    assert_eq!(cache.loads(), 1);
}

#[test]
fn reset_forces_one_fresh_read() {
    let mut cache = Cache::new();
    cache.get_or_load_source("/etc/passwd").expect("the file should load");
    cache.get_or_load_source("/etc/passwd").expect("the file should load");
    assert_eq!(cache.loads(), 1);
    cache.reset();
    cache.get_or_load_source("/etc/passwd").expect("the file should load");
    assert_eq!(cache.loads(), 2);
}

#[test]
fn two_spellings_share_one_identity() {
    let mut cache = Cache::new();
    let a = cache.resolve("/etc/passwd").expect("the file should resolve");
    let b = cache.resolve("/etc/./passwd").expect("the file should resolve");
    assert_eq!(a, b);
}

#[test]
fn two_spellings_share_one_source() {
    let mut cache = Cache::new();
    let id1 = cache.get_or_load_source("/etc/passwd").expect("the file should load");
    let id2 = cache.get_or_load_source("/etc/./passwd").expect("the file should load");
    assert_eq!(id1, id2);
    assert_eq!(cache.loads(), 1);
}

#[test]
fn missing_file_is_not_found() {
    let mut cache = Cache::new();
    let r = cache.get_or_load_source("no-such-file-anywhere.typ");
    assert_eq!(r, Err(FsError::NotFound));
    // The failure is memoized: asking again consumes no further read.
    let loads = cache.loads();
    let r2 = cache.get_or_load_source("no-such-file-anywhere.typ");
    assert_eq!(r2, Err(FsError::NotFound));
    assert_eq!(cache.loads(), loads);
}

#[test]
fn directory_is_rejected() {
    let mut cache = Cache::new();
    let r = cache.get_or_load_bytes("/etc");
    assert_eq!(r, Err(FsError::IsDirectory));
}

#[test]
fn source_by_id_returns_the_loaded_source() {
    let mut cache = Cache::new();
    let id = cache.get_or_load_source("/etc/passwd").expect("the file should load");
    let source = cache.source_by_id(id);
    assert_eq!(source.id, id);
    assert_eq!(source.path, "/etc/passwd");
    assert!(source.text.contains("root"));
}

#[test]
fn bytes_and_source_are_independent_memos() {
    let mut cache = Cache::new();
    cache.get_or_load_source("/etc/passwd").expect("the file should load");
    assert_eq!(cache.loads(), 1);
    let bytes = cache.get_or_load_bytes("/etc/passwd").expect("the file should read");
    assert!(!bytes.is_empty());
    assert_eq!(cache.loads(), 2);
    cache.get_or_load_bytes("/etc/passwd").expect("the file should read");
    assert_eq!(cache.loads(), 2);
}

#[test]
fn canonical_spelling_is_keyed_too() {
    let mut cache = Cache::new();
    // The file is loaded under a spelling with a redundant detour; its
    // canonicalized form must be a key of the path map as well, so an event
    // reported under the clean spelling is recognized.
    cache.get_or_load_source("/etc/../etc/passwd").expect("the file should load");
    assert!(cache.touched("/etc/passwd", None));
    assert_eq!(cache.lookup_path("/etc/passwd"), cache.lookup_path("/etc/../etc/passwd"));
}

#[test]
fn error_messages_name_the_file() {
    let msg = FsError::NotFound.message("a/b.typ");
    assert_eq!(msg, "file not found (searched at a/b.typ)");
    let msg = FsError::IsDirectory.message("d");
    assert_eq!(msg, "failed to load file d (is a directory)");
    let msg = FsError::InvalidEncoding.message("x.bin");
    assert_eq!(msg, "file x.bin is not valid utf-8");
}
