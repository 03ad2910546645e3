use safclip_controller::timeline::{TimelineState, ZOOM_ONE};

const S: i64 = 1_000_000_000;

#[test]
fn new_timeline_shows_everything() {
    let t = TimelineState::new(100 * S);
    assert_eq!(t.zoom_level, ZOOM_ONE);
    assert_eq!(t.pan_offset, 0);
    assert_eq!(t.duration, 100 * S);
    assert_eq!(t.visible_range(100), (0, 100 * S));
}

#[test]
fn pixels_and_times_convert() {
    let t = TimelineState::new(100 * S);
    assert_eq!(t.pixel_to_time(0, 100), 0);
    assert_eq!(t.pixel_to_time(50, 100), 50 * S);
    assert_eq!(t.pixel_to_time(100, 100), 100 * S);
    assert_eq!(t.pixel_to_time(10, 0), 0);
    assert_eq!(t.time_to_pixel(50 * S, 100), 50);
    assert_eq!(t.time_to_pixel(50_600_000_000, 100), 51);
    assert_eq!(t.time_to_pixel(-5, 100), 0);
    assert_eq!(t.time_to_pixel(10, 0), 0);
}

#[test]
fn zoom_in_keeps_anchor_in_place() {
    let mut t = TimelineState::new(100 * S);
    t.zoom_in(2 * ZOOM_ONE, 50 * S);
    assert_eq!(t.zoom_level, 2 * ZOOM_ONE);
    // The anchor stays under the same column: 50 s sat at the middle.
    assert_eq!(t.pan_offset, 25 * S);
    assert_eq!(t.visible_range(100), (25 * S, 75 * S));
    assert_eq!(t.time_to_pixel(50 * S, 100), 50);
}

#[test]
fn zoom_levels_keep_nine_decimals() {
    let mut t = TimelineState::new(100 * S);
    for _ in 0..4 {
        t.zoom_in(1_500_000_000, 0);
    }
    // 1.5 to the fourth power.
    assert_eq!(t.zoom_level, 5_062_500_000);
    // On 100 us of media, zooming by 1.5 at 1 us leaves a third of a microsecond.
    let mut short = TimelineState::new(100_000);
    short.zoom_in(1_500_000_000, 1_000);
    assert_eq!(short.pan_offset, 334);
}

#[test]
fn zoom_out_never_goes_below_whole_view() {
    let mut t = TimelineState::new(100 * S);
    t.zoom_in(1_500_000_000, 0);
    assert_eq!(t.zoom_level, 1_500_000_000);
    t.zoom_out(1_500_000_000, 0);
    assert_eq!(t.zoom_level, ZOOM_ONE);
    t.zoom_out(1_500_000_000, 0);
    assert_eq!(t.zoom_level, ZOOM_ONE);
    assert_eq!(t.pan_offset, 0);
}

#[test]
fn zoom_stops_where_a_column_would_cover_less_than_a_unit() {
    // One second of media: the deepest view still spans u16::MAX nanoseconds.
    let mut t = TimelineState::new(S);
    for _ in 0..100 {
        t.zoom_in(10 * ZOOM_ONE, S / 2);
    }
    assert_eq!(t.zoom_level, 15_259_021_896_696);
    let (lo, hi) = t.visible_range(65535);
    assert!(hi - lo >= 65535);
    // A media shorter than that cannot be zoomed at all.
    let mut tiny = TimelineState::new(1_000);
    tiny.zoom_in(2 * ZOOM_ONE, 0);
    assert_eq!(tiny.zoom_level, ZOOM_ONE);
    tiny.zoom_out(0, 0);
    assert_eq!(tiny.zoom_level, ZOOM_ONE);
}

#[test]
fn pan_is_limited_to_the_media() {
    let mut t = TimelineState::new(100 * S);
    t.pan(10, 100);
    // Everything is in view: nothing to pan.
    assert_eq!(t.pan_offset, 0);
    t.zoom_in(2 * ZOOM_ONE, 0);
    t.pan(10, 100);
    assert_eq!(t.pan_offset, 5 * S);
    t.pan(-30, 100);
    assert_eq!(t.pan_offset, 0);
    t.pan(1000, 100);
    assert_eq!(t.pan_offset, 50 * S);
    t.pan(5, 0);
    assert_eq!(t.pan_offset, 50 * S);
    // 1 ms at zoom 2, one column of three: 166.67 us, kept to the nanosecond.
    let mut short = TimelineState::new(1_000_000);
    short.zoom_in(2 * ZOOM_ONE, 0);
    short.pan(1, 3);
    assert_eq!(short.pan_offset, 166_666);
}

#[test]
fn column_to_time_and_back() {
    let t = TimelineState::new(100 * S);
    for px in 0..=200u16 {
        let time = t.pixel_to_time(px, 200);
        assert_eq!(t.time_to_pixel(time, 200), px);
    }
    // One microsecond of media on two columns.
    let us = TimelineState::new(1_000);
    for px in 0..=2u16 {
        assert_eq!(us.time_to_pixel(us.pixel_to_time(px, 2), 2), px);
    }
    // The deepest zoom on the widest view.
    let mut deep = TimelineState::new(S);
    deep.zoom_out(0, S / 3);
    for px in [0u16, 1, 2, 1000, 32767, 65534, 65535] {
        assert_eq!(deep.time_to_pixel(deep.pixel_to_time(px, 65535), 65535), px);
    }
    // Times are rounded to the nearest unit.
    let short = TimelineState::new(10);
    assert_eq!(short.pixel_to_time(1, 4), 3);
    assert_eq!(short.pixel_to_time(3, 4), 8);
}

#[test]
fn odd_zoom_factors() {
    let mut t = TimelineState::new(100 * S);
    // A factor below one zooms in by nothing below the whole view.
    t.zoom_in(500_000_000, 0);
    assert_eq!(t.zoom_level, ZOOM_ONE);
    t.zoom_out(500_000_000, 0);
    assert_eq!(t.zoom_level, 2 * ZOOM_ONE);
    t.zoom_out(0, 0);
    assert_eq!(t.zoom_level, ((100 * S) as u128 * ZOOM_ONE as u128 / 65535) as u64);
    assert_eq!(t.visible_range(10).0, t.pan_offset);
}

#[test]
fn negative_length_runs_backwards() {
    let mut t = TimelineState::new(-100 * S);
    assert_eq!(t.duration, -100 * S);
    assert_eq!(t.pixel_to_time(5, 10), -50 * S);
    assert_eq!(t.time_to_pixel(-50 * S, 10), 5);
    assert_eq!(t.time_to_pixel(50, 10), 0);
    assert_eq!(t.visible_range(10), (0, -100 * S));
    t.pan(5, 10);
    assert_eq!(t.pan_offset, 0);
    t.zoom_in(2 * ZOOM_ONE, -30);
    assert_eq!(t.zoom_level, 2 * ZOOM_ONE);
    assert_eq!(t.pan_offset, 0);
}
