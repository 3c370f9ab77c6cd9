use nylon::timeline::{MAX_MEDIA, MAX_REGIONS, placement_index, track_range};

#[test]
fn regions_are_placed_after_those_on_their_track() {
    let tracks = [0usize, 0, 2, 2, 2, 5];
    assert_eq!(placement_index(&tracks, 0), 2);
    assert_eq!(placement_index(&tracks, 1), 2);
    assert_eq!(placement_index(&tracks, 2), 5);
    assert_eq!(placement_index(&tracks, 9), 6);
    assert_eq!(placement_index(&[], 3), 0);
    assert_eq!(track_range(&tracks, 2), (2, 5));
    assert_eq!(track_range(&tracks, 1), (2, 2));
    assert_eq!(track_range(&tracks, 5), (5, 6));
    assert_eq!(track_range(&tracks, 7), (6, 6));
}

#[test]
fn a_timeline_holds_a_bounded_number_of_media_and_regions() {
    assert_eq!(MAX_MEDIA, 1_024);
    assert_eq!(MAX_REGIONS, 4_096);
}
