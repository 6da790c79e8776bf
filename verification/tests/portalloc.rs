use fedimint_server::portalloc::{default_next, RootData, HIGH, LOW, START_OVER};

#[test]
fn root_data_sanity() {
    let mut r = RootData::default();

    r.insert(2..4, 0);
    r.insert(6..8, 0);
    r.insert(100..108, 0);
    assert_eq!(r.contains(0..2), None);
    assert_eq!(r.contains(0..3), Some(4));
    assert_eq!(r.contains(2..4), Some(4));
    assert_eq!(r.contains(3..4), Some(4));
    assert_eq!(r.contains(3..5), Some(4));
    assert_eq!(r.contains(4..6), None);
    assert_eq!(r.contains(0..10), Some(8));
    assert_eq!(r.contains(6..10), Some(8));
    assert_eq!(r.contains(7..8), Some(8));
    assert_eq!(r.contains(8..10), None);
}

#[test]
fn search_starts_at_the_lowest_port() {
    let r = RootData::default();
    assert_eq!(r.next(), LOW);
    assert_eq!(r.next(), 10000);
    assert_eq!(HIGH, 32000);
}

#[test]
fn expired_ranges_are_reclaimed() {
    let mut r = RootData::default();
    r.insert(10..20, 1_000);
    r.insert(30..40, 2_000);
    assert_eq!(r.contains(15..16), Some(20));
    // a range lives for 120 seconds
    r.reclaim(1_119);
    assert_eq!(r.contains(15..16), Some(20));
    r.reclaim(1_120);
    assert_eq!(r.contains(15..16), None);
    assert_eq!(r.contains(35..36), Some(40));
    r.reclaim(2_120);
    assert_eq!(r.contains(35..36), None);
    assert_eq!(r.next(), 40);
}

#[test]
fn a_reservation_at_the_end_of_time_never_overflows() {
    let mut r = RootData::default();
    r.insert(10..20, u64::MAX - 1);
    r.reclaim(u64::MAX - 1);
    assert_eq!(r.contains(10..11), Some(20));
    r.reclaim(u64::MAX);
    assert_eq!(r.contains(10..11), None);
}

#[test]
fn inserting_moves_the_search_behind_the_range() {
    let mut r = RootData::default();
    r.insert(10_000..10_005, 0);
    assert_eq!(r.next(), 10_005);
    r.insert(65_000..65_535, 0);
    assert_eq!(r.next(), 65_535);
    assert_eq!(r.contains(65_534..65_535), Some(65_535));
}

#[test]
fn the_search_skips_reserved_ranges() {
    let mut r = RootData::default();
    assert_eq!(r.first_unreserved(LOW, 10), Some(10_000));
    r.insert(10_000..10_010, 0);
    r.insert(10_010..10_020, 0);
    r.insert(10_025..10_030, 0);
    assert_eq!(r.first_unreserved(LOW, 10), Some(10_030));
    assert_eq!(r.first_unreserved(LOW, 5), Some(10_020));
    assert_eq!(r.first_unreserved(10_015, 1), Some(10_020));
    assert_eq!(r.first_unreserved(31_999, 2), Some(31_999));
    assert_eq!(r.first_unreserved(HIGH, 33_535), Some(32_000));
    assert_eq!(r.first_unreserved(HIGH + 1, 1), None);
}

#[test]
fn the_search_gives_up_above_the_highest_port() {
    let mut r = RootData::default();
    r.insert(31_990..32_010, 0);
    assert_eq!(r.first_unreserved(31_995, 4), None);
    assert_eq!(r.first_unreserved(31_000, 4), Some(31_000));
    assert_eq!(r.first_unreserved(31_988, 4), None);
    assert_eq!(r.first_unreserved(31_986, 4), Some(31_986));
}

#[test]
fn an_empty_range_conflicts_inside_a_reserved_one() {
    let mut r = RootData::default();
    r.insert(10..20, 0);
    assert_eq!(r.contains(15..15), Some(20));
    assert_eq!(r.contains(10..10), None);
    assert_eq!(r.contains(20..20), None);
}

#[test]
fn the_default_next_port_is_the_lowest() {
    assert_eq!(default_next(), 10_000);
}

#[test]
fn the_search_starts_over_above_the_highest_port() {
    let mut r = RootData::default();
    r.insert(10_000..10_010, 1_000);
    // at or below the highest port the search goes on where it is
    assert_eq!(r.restart(10_000, 5_000), 10_000);
    assert_eq!(r.restart(HIGH, 5_000), HIGH);
    assert_eq!(r.contains(10_000..10_001), Some(10_010));
    // above it, expired ranges go and the search starts at the lowest port
    assert_eq!(START_OVER, 32_001);
    assert_eq!(r.restart(START_OVER, 1_119), LOW);
    assert_eq!(r.contains(10_000..10_001), Some(10_010));
    assert_eq!(r.restart(u16::MAX, 1_120), LOW);
    assert_eq!(r.contains(10_000..10_001), None);
}

#[test]
fn the_search_goes_on_behind_a_port_in_use() {
    assert_eq!(RootData::behind(10_000), 10_001);
    assert_eq!(RootData::behind(0), 1);
    assert_eq!(RootData::behind(u16::MAX - 1), u16::MAX);
    assert_eq!(RootData::behind(u16::MAX), u16::MAX);
}
