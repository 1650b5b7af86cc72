use kubelet_adapters::image_gc::{Fraction, ImageGcConfig, ImageGcManager, ImageInfo, TrackedImage};
use kubelet_adapters::types::Timestamp;

const HOUR: i64 = 3600;

fn now() -> Timestamp {
    Timestamp { secs: 1_750_000_000, nanos: 0 }
}

fn later() -> Timestamp {
    Timestamp { secs: 1_750_000_000, nanos: 1 }
}

fn hours_ago(h: i64) -> Timestamp {
    Timestamp { secs: 1_750_000_000 - h * HOUR, nanos: 0 }
}

/// A threshold that is given in hundredths.
fn share(f: f64) -> Fraction {
    Fraction { numerator: (f * 100.0).round() as u64, denominator: 100 }
}

fn config(high: f64, low: f64) -> ImageGcConfig {
    ImageGcConfig { high_threshold: share(high), low_threshold: share(low), min_age_ns: 0 }
}

fn default_mgr() -> ImageGcManager {
    ImageGcManager::new(config(0.85, 0.80))
}

fn make_image(id: &str, size_bytes: u64) -> ImageInfo {
    ImageInfo {
        id: id.to_string(),
        repo_tags: vec![format!("{}:latest", id)],
        repo_digests: vec![],
        size_bytes,
    }
}

/// Makes an image that was last used at the given time.
fn use_at(mgr: &mut ImageGcManager, id: &str, at: Timestamp) {
    let t = mgr.images.remove(id).unwrap();
    mgr.images.insert(
        id.to_string(),
        TrackedImage { info: t.info, last_used: at, in_use: t.in_use },
    );
}

#[test]
fn test_track_and_count() {
    let mut mgr = default_mgr();
    mgr.track_image(make_image("img-a", 100_000_000), now());
    mgr.track_image(make_image("img-b", 200_000_000), now());
    assert_eq!(mgr.image_count(), 2);
    assert_eq!(mgr.total_image_bytes(), 300_000_000);
}

#[test]
fn test_no_gc_below_high_threshold() {
    let mut mgr = default_mgr();
    mgr.track_image(make_image("img-a", 10_000_000), now());
    let plan = mgr.gc_candidates(80 * 1024 * 1024 * 1024, 100 * 1024 * 1024 * 1024, later());
    assert!(plan.is_empty());
}

#[test]
fn test_gc_above_high_threshold() {
    let mut mgr = default_mgr();
    for i in 0..5 {
        mgr.track_image(make_image(&format!("img-{}", i), 10 * 1024 * 1024 * 1024), now());
    }
    let plan = mgr.gc_candidates(90 * 1024 * 1024 * 1024, 100 * 1024 * 1024 * 1024, later());
    assert!(!plan.is_empty());
    assert!(plan.bytes_to_free > 0);
}

#[test]
fn test_pinned_images_not_gc_d() {
    let mut mgr = default_mgr();
    mgr.track_image(make_image("pinned", 10 * 1024 * 1024 * 1024), now());
    mgr.mark_in_use("pinned", now());
    let plan = mgr.gc_candidates(90 * 1024 * 1024 * 1024, 100 * 1024 * 1024 * 1024, later());
    assert!(!plan.to_delete.contains(&"pinned".to_string()));
}

#[test]
fn test_oldest_image_deleted_first() {
    let mut mgr = ImageGcManager::new(config(0.85, 0.80));
    mgr.track_image(make_image("old", 5 * 1024 * 1024 * 1024), now());
    mgr.track_image(make_image("new", 5 * 1024 * 1024 * 1024), now());
    use_at(&mut mgr, "old", hours_ago(24));
    let plan = mgr.gc_candidates(90 * 1024 * 1024 * 1024, 100 * 1024 * 1024 * 1024, later());
    assert!(!plan.is_empty());
    assert_eq!(plan.to_delete[0], "old");
}

#[test]
fn test_mark_not_in_use_unpins() {
    let mut mgr = default_mgr();
    mgr.track_image(make_image("img", 5 * 1024 * 1024 * 1024), now());
    mgr.mark_in_use("img", now());
    assert_eq!(mgr.pinned_count(), 1);
    mgr.mark_not_in_use("img");
    assert_eq!(mgr.pinned_count(), 0);
}

#[test]
fn test_sync_removes_deleted_images() {
    let mut mgr = default_mgr();
    mgr.track_image(make_image("img-a", 100), now());
    mgr.track_image(make_image("img-b", 200), now());
    mgr.sync(vec![make_image("img-a", 100)], now());
    assert_eq!(mgr.image_count(), 1);
    assert!(!mgr.images.contains_key("img-b"));
}

#[test]
fn test_sync_adds_new_images() {
    let mut mgr = default_mgr();
    mgr.sync(vec![make_image("new-img", 500)], now());
    assert_eq!(mgr.image_count(), 1);
}

#[test]
fn test_remove_image() {
    let mut mgr = default_mgr();
    mgr.track_image(make_image("del", 100), now());
    mgr.remove_image("del");
    assert_eq!(mgr.image_count(), 0);
}

#[test]
fn test_gc_stops_at_low_threshold() {
    let mut mgr = ImageGcManager::new(config(0.80, 0.70));
    for i in 0..10 {
        let id = format!("img-{}", i);
        mgr.track_image(make_image(&id, 5 * 1024 * 1024 * 1024), now());
        use_at(&mut mgr, &id, hours_ago(10 - i));
    }
    let total = 100 * 1024 * 1024 * 1024u64;
    let used = 85 * 1024 * 1024 * 1024u64;
    let plan = mgr.gc_candidates(used, total, later());
    assert_eq!(plan.to_delete.len(), 3);
    assert_eq!(plan.to_delete[0], "img-0");
}

#[test]
fn young_images_stay() {
    let mut c = config(0.80, 0.70);
    c.min_age_ns = 2 * HOUR as i128 * 1_000_000_000;
    let mut mgr = ImageGcManager::new(c);
    mgr.track_image(make_image("young", 50 << 30), hours_ago(1));
    mgr.track_image(make_image("old", 50 << 30), hours_ago(3));
    let plan = mgr.gc_candidates(90 << 30, 100 << 30, now());
    assert_eq!(plan.to_delete, vec!["old".to_string()]);
}

#[test]
fn empty_disks_need_nothing() {
    let mgr = ImageGcManager::new(ImageGcConfig::default());
    assert!(mgr.gc_candidates(0, 0, now()).is_empty());
}

#[test]
fn no_image_is_named_twice() {
    let mut mgr = default_mgr();
    mgr.track_image(make_image("a", 10 << 30), hours_ago(5));
    mgr.track_image(make_image("a", 20 << 30), hours_ago(4));
    mgr.sync(
        vec![make_image("a", 10 << 30), make_image("b", 10 << 30), make_image("b", 1 << 30)],
        hours_ago(3),
    );
    mgr.mark_in_use("b", hours_ago(2));
    mgr.mark_not_in_use("b");
    assert_eq!(mgr.image_count(), 2);
    let plan = mgr.gc_candidates(99 << 30, 100 << 30, now());
    assert_eq!(plan.to_delete, vec!["a".to_string(), "b".to_string()]);
}
