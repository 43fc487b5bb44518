use typst_preview::cache::Cache;
use typst_preview::debounce::{Debouncer, PendingEvent};
use typst_preview::hub::Hub;
use typst_preview::track::EventKind;

fn modify_event(path: &str) -> PendingEvent {
    PendingEvent { kind: EventKind::ModifyData, paths: vec![path.to_string()] }
}

#[test]
fn burst_of_ten_triggers_once() {
    let mut cache = Cache::new();
    cache.get_or_load_source("/etc/passwd").expect("the file should load");
    let mut debouncer = Debouncer::new();
    let mut windows = 0;
    for _ in 0..10 {
        if debouncer.note_event(modify_event("/etc/passwd")) {
            windows += 1;
        }
    }
    // Ten events within one window open exactly one window.
    assert_eq!(windows, 1);
    let metas = vec![vec![None]; 10];
    let mut recompiles = 0;
    if debouncer.window_elapsed(&cache, &metas) {
        recompiles += 1;
    }
    assert_eq!(recompiles, 1);
    // The next burst starts over.
    assert!(debouncer.note_event(modify_event("/etc/passwd")));
}

#[test]
fn irrelevant_burst_triggers_nothing() {
    let mut cache = Cache::new();
    cache.get_or_load_source("/etc/passwd").expect("the file should load");
    let mut debouncer = Debouncer::new();
    debouncer.note_event(modify_event("unrelated.txt"));
    debouncer.note_event(PendingEvent {
        kind: EventKind::ModifyMetadata,
        paths: vec!["/etc/passwd".to_string()],
    });
    let metas = vec![vec![None], vec![None]];
    assert!(!debouncer.window_elapsed(&cache, &metas));
}

#[test]
fn failed_session_is_pruned_others_remain() {
    let mut hub = Hub::new();
    let s1 = hub.add_session();
    let s2 = hub.add_session();
    let s3 = hub.add_session();
    let snapshot = hub.snapshot();
    assert_eq!(snapshot, vec![s1, s2, s3]);
    // Session 2's transport failed during the broadcast pass.
    hub.apply_results(&snapshot, &vec![false, true, false]);
    assert_eq!(hub.snapshot(), vec![s1, s3]);
}

#[test]
fn session_added_during_broadcast_survives_pruning() {
    let mut hub = Hub::new();
    let s1 = hub.add_session();
    let s2 = hub.add_session();
    let snapshot = hub.snapshot();
    let s3 = hub.add_session();
    hub.apply_results(&snapshot, &vec![true, false]);
    assert_eq!(hub.snapshot(), vec![s2, s3]);
    assert_ne!(s1, s3);
}

#[test]
fn fresh_tokens_never_collide() {
    let mut hub = Hub::new();
    let s1 = hub.add_session();
    let snapshot = hub.snapshot();
    hub.apply_results(&snapshot, &vec![true]);
    let s2 = hub.add_session();
    assert_ne!(s1, s2);
}
