use nannou::state::mouse::{Button, ButtonMap, ButtonPosition};
use nannou::ruler::BarMarkersInTicks;
use nannou::osc::{decode, encode, msg, Packet};
use rosc::OscType;
use nannou::bars::{bars_duration_ticks, checked_bars_duration_ticks, TimeSig};
use nannou::math::{clamp, partial_max, partial_min, two};
use nannou::period::Period;
use nannou::stream::frame::opt::blank_segment_point_count;
use nannou::stream::raw::{
    dac_remaining_buffer_capacity, default_latency_points, points_per_frame, points_to_generate,
};

#[test]
fn clamp_in_either_order() {
    assert_eq!(clamp(5, 0, 10), 5);
    assert_eq!(clamp(-5, 0, 10), 0);
    assert_eq!(clamp(15, 0, 10), 10);
    assert_eq!(clamp(15, 10, 0), 10);
    assert_eq!(clamp(-3, 10, 0), 0);
    assert_eq!(clamp(clamp(42, 3, 7), 3, 7), clamp(42, 3, 7));
    assert_eq!(partial_max(3, 9), 9);
    assert_eq!(partial_min(3, 9), 3);
    assert_eq!(partial_max(-4, -4), -4);
    assert_eq!(two(), 2);
}

#[test]
fn period_queries() {
    let p = Period { start: 10i64, end: 20 };
    assert_eq!(p.duration(), 10);
    assert!(p.contains(10));
    assert!(p.contains(19));
    assert!(!p.contains(20));
    assert!(!p.contains(9));
    let q = Period { start: 20i64, end: 30 };
    assert!(p.intersects(&q));
    assert!(q.intersects(&p));
    let r = Period { start: 21i64, end: 30 };
    assert!(!p.intersects(&r));
    assert!(!r.intersects(&p));
}

#[test]
fn duration_of_bars() {
    let four_four = TimeSig { top: 4, bottom: 4 };
    let three_four = TimeSig { top: 3, bottom: 4 };
    assert_eq!(bars_duration_ticks(&[], 960), 0);
    assert_eq!(bars_duration_ticks(&[four_four], 960), 3840);
    assert_eq!(bars_duration_ticks(&[four_four, three_four], 960), 6720);
    assert_eq!(checked_bars_duration_ticks(&[four_four, three_four], 960), Some(6720));
}

#[test]
fn duration_of_concatenated_bars_adds() {
    let a = [TimeSig { top: 4, bottom: 4 }, TimeSig { top: 6, bottom: 8 }];
    let b = [TimeSig { top: 5, bottom: 4 }];
    let both = [a[0], a[1], b[0]];
    assert_eq!(
        bars_duration_ticks(&both, 480),
        bars_duration_ticks(&a, 480) + bars_duration_ticks(&b, 480)
    );
}

#[test]
fn checked_duration_reports_overflow() {
    let huge = TimeSig { top: u16::MAX, bottom: 1 };
    let bars = vec![huge; 10_000];
    assert_eq!(checked_bars_duration_ticks(&bars, u32::MAX), None);
}

#[test]
fn laser_point_counts() {
    assert_eq!(points_per_frame(10_000, 60), 166);
    assert_eq!(default_latency_points(10_000), 166);
    assert_eq!(blank_segment_point_count(2, 5), 10);
    assert_eq!(dac_remaining_buffer_capacity(1800, 100), 1699);
    assert_eq!(points_to_generate(1800, 100, 500), 400);
    assert_eq!(points_to_generate(1800, 600, 500), 0);
    assert_eq!(points_to_generate(1800, 1700, 1799), 99);
}

#[test]
fn osc_round_trip() {
    let m = msg("/note".to_string(), vec![OscType::Int(60), OscType::Float(0.5)]);
    let bytes = encode(Packet::Message(m.clone())).unwrap();
    assert_eq!(decode(&bytes).unwrap(), Packet::Message(m));
    assert!(decode(&[1, 2, 3]).is_err());
}

#[test]
fn ruler_bar_markers() {
    let mut markers = BarMarkersInTicks::new(Some(960), 240, 1920);
    let mut got = vec![];
    while let Some(t) = markers.next() {
        got.push(t);
    }
    assert_eq!(got, vec![960, 1200, 1440, 1680]);
    let mut none = BarMarkersInTicks::new(None, 240, 1920);
    assert_eq!(none.next(), None);
}

#[test]
fn mouse_buttons() {
    let mut map: ButtonMap<(i32, i32)> = ButtonMap::new();
    assert!(map.left().is_up());
    map.press(Button::Left, (3, 4));
    map.press(Button::Other(2), (5, 6));
    assert_eq!(map.left(), ButtonPosition::Down((3, 4)));
    assert_eq!(map.left().if_down(), Some((3, 4)));
    assert!(map.right().is_up());
    assert!(map.get(Button::Other(2)).is_down());
    let mut pressed = map.pressed();
    assert_eq!(pressed.next(), Some((Button::Other(2), (5, 6))));
    assert_eq!(pressed.next(), Some((Button::Left, (3, 4))));
    assert_eq!(pressed.next(), None);
    map.release(Button::Left);
    assert!(map.left().is_up());
    assert_eq!(map.middle().if_down(), None);
}

#[test]
fn msaa_samples_are_limited() {
    assert_eq!(nannou::vk::msaa_samples_limited(8, 4, 16), 4);
    assert_eq!(nannou::vk::msaa_samples_limited(8, 16, 2), 2);
    assert_eq!(nannou::vk::msaa_samples_limited(1, 8, 4), 1);
}

#[test]
fn msg_builds_message() {
    let m = msg("/foo".to_string(), vec![OscType::Int(1)]);
    assert_eq!(m.addr, "/foo");
    assert_eq!(m.args, vec![OscType::Int(1)]);
}
