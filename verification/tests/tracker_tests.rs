use typst_preview::cache::Cache;
use typst_preview::ident::FileMeta;
use typst_preview::pathnorm::normalize_path;
use typst_preview::track::EventKind;

fn loaded_cache() -> Cache {
    let mut cache = Cache::new();
    cache.get_or_load_source("/etc/passwd").expect("the file should load");
    cache
}

#[test]
fn content_change_on_tracked_file_is_relevant() {
    let cache = loaded_cache();
    let paths = vec!["/etc/passwd".to_string()];
    let metas = vec![None];
    assert!(cache.is_relevant(EventKind::ModifyData, &paths, &metas));
}

#[test]
fn rename_with_tracked_old_path_is_relevant() {
    let cache = loaded_cache();
    let paths = vec!["/etc/passwd".to_string(), "renamed-away.toml".to_string()];
    let metas = vec![None, None];
    assert!(cache.is_relevant(EventKind::ModifyName, &paths, &metas));
}

#[test]
fn metadata_only_change_is_never_relevant() {
    let cache = loaded_cache();
    let paths = vec!["/etc/passwd".to_string()];
    let metas = vec![None];
    assert!(!cache.is_relevant(EventKind::ModifyMetadata, &paths, &metas));
}

#[test]
fn access_is_never_relevant() {
    let cache = loaded_cache();
    let paths = vec!["/etc/passwd".to_string()];
    let metas = vec![None];
    assert!(!cache.is_relevant(EventKind::Access, &paths, &metas));
}

#[test]
fn untracked_file_is_not_relevant() {
    let cache = loaded_cache();
    let paths = vec!["somewhere/else.typ".to_string()];
    let metas = vec![None];
    assert!(!cache.is_relevant(EventKind::ModifyData, &paths, &metas));
}

#[test]
fn tracked_path_matches_under_another_spelling() {
    let cache = loaded_cache();
    // The event names the file with a redundant `./x/..` detour; lexical
    // normalization still finds the tracked key.
    assert!(cache.touched("/x/../etc/passwd", None));
}

#[test]
fn identity_match_counts_as_touched() {
    let cache = loaded_cache();
    assert!(!cache.touched("unseen-name.typ", Some(FileMeta { dev: 1, ino: 2 })));
    let meta = FileMeta { dev: 7, ino: 9 };
    // A made-up identity differs from its inputs and is order-sensitive: the
    // token differs from both inputs: the hash is real.
    let token = meta.identity();
    assert_ne!(token, 7u128);
    assert_ne!(token, 9u128);
    assert_ne!(FileMeta { dev: 7, ino: 9 }.identity(), FileMeta { dev: 9, ino: 7 }.identity());
    assert_eq!(FileMeta { dev: 7, ino: 9 }.identity(), meta.identity());
}

#[test]
fn normalization_cleans_redundant_segments() {
    assert_eq!(normalize_path("a/./b"), "a/b");
    assert_eq!(normalize_path("a//b"), "a/b");
    assert_eq!(normalize_path("/a/../b"), "/b");
    assert_eq!(normalize_path("a/.."), "");
    assert_eq!(normalize_path("../x"), "../x");
    assert_eq!(normalize_path("/.."), "/");
    assert_eq!(normalize_path("/a/b/"), "/a/b");
    assert_eq!(normalize_path("."), "");
}
