use pelper::time::{relative, relative_at};
use std::time::{SystemTime, UNIX_EPOCH};

fn ago(secs: u64) -> String {
    let now = SystemTime::now().duration_since(UNIX_EPOCH).unwrap().as_secs();
    relative(now - secs)
}

#[test]
fn formats_buckets() {
    assert_eq!(ago(10), "now");
    assert_eq!(ago(120), "2m ago");
    assert_eq!(ago(7_200), "2h ago");
    assert_eq!(ago(172_800), "2d ago");
    assert_eq!(ago(1_209_600), "2w ago");
}

#[test]
fn relative_at_bucket_edges() {
    let now = 10_000_000_000;
    assert_eq!(relative_at(now, now - 59), "now");
    assert_eq!(relative_at(now, now - 60), "1m ago");
    assert_eq!(relative_at(now, now - 3_599), "59m ago");
    assert_eq!(relative_at(now, now - 3_600), "1h ago");
    assert_eq!(relative_at(now, now - 86_400), "1d ago");
    assert_eq!(relative_at(now, now - 604_800), "1w ago");
    assert_eq!(relative_at(now, now - 2_592_000), "1mo ago");
    assert_eq!(relative_at(now, now - 31_536_000 * 3), "3y ago");
}

#[test]
fn future_times_read_as_now() {
    assert_eq!(relative_at(100, 5_000), "now");
}
