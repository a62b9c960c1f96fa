use stream_carver::tracker::RegionTracker;

#[test]
fn tracker_contains_inside_half_open_region() {
    let mut t = RegionTracker::new();
    assert!(!t.contains(10));
    t.insert(10, 5);
    assert!(t.contains(10));
    assert!(t.contains(14));
    assert!(!t.contains(15));
    assert!(!t.contains(9));
}

#[test]
fn tracker_insert_twice_leaves_contains_unchanged() {
    let mut once = RegionTracker::new();
    once.insert(100, 50);
    let mut twice = RegionTracker::new();
    twice.insert(100, 50);
    twice.insert(100, 50);
    for x in 90..160 {
        assert_eq!(once.contains(x), twice.contains(x));
    }
    assert_eq!(once.ranges(), twice.ranges());
}

#[test]
fn tracker_coalesces_adjacent_regions() {
    let mut t = RegionTracker::new();
    t.insert(0, 10);
    t.insert(10, 10);
    t.insert(40, 5);
    let ranges = t.ranges();
    assert_eq!(ranges, vec![(0, 19), (40, 44)]);
}

#[test]
fn tracker_ranges_cover_exactly_the_inserted_bytes() {
    let mut t = RegionTracker::new();
    t.insert(5, 3);
    t.insert(20, 1);
    let ranges = t.ranges();
    assert_eq!(ranges, vec![(5, 7), (20, 20)]);
    let covered: usize = ranges.iter().map(|&(a, b)| b - a + 1).sum();
    assert_eq!(covered, 4);
}
