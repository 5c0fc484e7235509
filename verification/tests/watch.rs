use exemem_client_lib::watcher::is_supported;
use exemem_client_lib::watcher::Debouncer;
use exemem_client_lib::watcher::RawEventKind;
use exemem_client_lib::watcher::WatchEvent;
use exemem_client_lib::watcher::DEBOUNCE_MS;

#[test]
fn supported_extensions_are_recognized() {
    assert!(is_supported("notes.md"));
    assert!(is_supported("a/b/photo.JPG"));
    assert!(is_supported("deck.pptx"));
    assert!(!is_supported("binary.exe"));
    assert!(!is_supported("no_extension"));
    assert!(!is_supported(".hidden"));
}

#[test]
fn debounce_window_drops_the_second_event() {
    let mut d = Debouncer::new();
    let p = "dir/a.txt".to_string();
    let first = d.observe(RawEventKind::Create, &p, false, 1000);
    assert!(matches!(first, Some(WatchEvent::FileCreated(ref q)) if q == "dir/a.txt"));
    // Within the window: dropped.
    let second = d.observe(RawEventKind::Modify, &p, false, 1000 + DEBOUNCE_MS - 1);
    assert!(second.is_none());
    // The drop did not refresh the window: measured from the accepted event,
    // the window has now elapsed.
    let third = d.observe(RawEventKind::Modify, &p, false, 1000 + DEBOUNCE_MS);
    assert!(matches!(third, Some(WatchEvent::FileModified(ref q)) if q == "dir/a.txt"));
}

#[test]
fn events_past_the_window_both_come_through() {
    let mut d = Debouncer::new();
    let p = "b.csv".to_string();
    assert!(d.observe(RawEventKind::Modify, &p, false, 0).is_some());
    assert!(d.observe(RawEventKind::Modify, &p, false, DEBOUNCE_MS).is_some());
}

#[test]
fn paths_are_debounced_independently() {
    let mut d = Debouncer::new();
    let a = "a.txt".to_string();
    let b = "b.txt".to_string();
    assert!(d.observe(RawEventKind::Create, &a, false, 100).is_some());
    assert!(d.observe(RawEventKind::Create, &b, false, 150).is_some());
    assert!(d.observe(RawEventKind::Modify, &a, false, 200).is_none());
}

#[test]
fn directories_and_unsupported_files_are_dropped() {
    let mut d = Debouncer::new();
    let dir = "some.json".to_string();
    assert!(d.observe(RawEventKind::Create, &dir, true, 0).is_none());
    let exe = "tool.exe".to_string();
    assert!(d.observe(RawEventKind::Create, &exe, false, 0).is_none());
    // Neither consumed the path's window.
    assert!(d.observe(RawEventKind::Create, &dir, false, 1).is_some());
}

#[test]
fn other_kinds_emit_nothing_but_consume_the_window() {
    let mut d = Debouncer::new();
    let p = "c.log".to_string();
    assert!(d.observe(RawEventKind::Other, &p, false, 1000).is_none());
    // The accepted (but kind-dropped) event refreshed the path's time, so a
    // create right after is still inside the window.
    assert!(d.observe(RawEventKind::Create, &p, false, 1200).is_none());
    assert!(d.observe(RawEventKind::Create, &p, false, 1000 + DEBOUNCE_MS).is_some());
}
