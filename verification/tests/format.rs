use photo_cull::metadata::{format_aperture, format_focal_length, format_shutter_speed};

fn expected_shutter(num: u32, denom: u32) -> Option<String> {
    if denom == 0 {
        return None;
    }
    let speed = num as f64 / denom as f64;
    if speed >= 1.0 {
        Some(format!("{:.1}s", speed))
    } else {
        let reciprocal = (denom as f64 / num as f64).round() as u32;
        Some(format!("1/{}", reciprocal))
    }
}

fn expected_aperture(num: u32, denom: u32) -> Option<String> {
    if denom == 0 {
        return None;
    }
    Some(format!("f/{:.1}", num as f64 / denom as f64))
}

fn expected_focal(num: u32, denom: u32) -> Option<String> {
    if denom == 0 {
        return None;
    }
    Some(format!("{:.0}mm", num as f64 / denom as f64))
}

fn check(num: u32, denom: u32) {
    assert_eq!(format_shutter_speed(num, denom), expected_shutter(num, denom), "shutter {}/{}", num, denom);
    assert_eq!(format_aperture(num, denom), expected_aperture(num, denom), "aperture {}/{}", num, denom);
    assert_eq!(format_focal_length(num, denom), expected_focal(num, denom), "focal {}/{}", num, denom);
}

#[test]
fn shutter_speed_of_two_seconds() {
    assert_eq!(format_shutter_speed(2, 1), Some("2.0s".to_string()));
}

#[test]
fn shutter_speed_of_a_fraction() {
    assert_eq!(format_shutter_speed(1, 250), Some("1/250".to_string()));
}

#[test]
fn shutter_speed_rounds_the_reciprocal() {
    assert_eq!(format_shutter_speed(10, 2500), Some("1/250".to_string()));
    assert_eq!(format_shutter_speed(2, 5), Some("1/3".to_string()));
    assert_eq!(format_shutter_speed(2, 3), Some("1/2".to_string()));
    assert_eq!(format_shutter_speed(3, 10), Some("1/3".to_string()));
}

#[test]
fn shutter_speed_of_exactly_one_second() {
    assert_eq!(format_shutter_speed(1, 1), Some("1.0s".to_string()));
    assert_eq!(format_shutter_speed(250, 250), Some("1.0s".to_string()));
}

#[test]
fn shutter_speed_of_long_exposures() {
    assert_eq!(format_shutter_speed(30, 1), Some("30.0s".to_string()));
    assert_eq!(format_shutter_speed(25, 10), Some("2.5s".to_string()));
    assert_eq!(format_shutter_speed(13, 10), Some("1.3s".to_string()));
    assert_eq!(format_shutter_speed(4294967295, 1), Some("4294967295.0s".to_string()));
}

#[test]
fn shutter_speed_without_denominator_is_absent() {
    assert_eq!(format_shutter_speed(1, 0), None);
    assert_eq!(format_shutter_speed(0, 0), None);
}

#[test]
fn shutter_speed_of_zero_is_the_smallest_fraction() {
    assert_eq!(format_shutter_speed(0, 1), Some("1/4294967295".to_string()));
    assert_eq!(format_shutter_speed(0, 250), Some("1/4294967295".to_string()));
}

#[test]
fn aperture_of_two_point_eight() {
    assert_eq!(format_aperture(28, 10), Some("f/2.8".to_string()));
}

#[test]
fn aperture_examples() {
    assert_eq!(format_aperture(4, 1), Some("f/4.0".to_string()));
    assert_eq!(format_aperture(18, 10), Some("f/1.8".to_string()));
    assert_eq!(format_aperture(0, 10), Some("f/0.0".to_string()));
    assert_eq!(format_aperture(56, 10), Some("f/5.6".to_string()));
    assert_eq!(format_aperture(999, 100), Some("f/10.0".to_string()));
}

#[test]
fn aperture_without_denominator_is_absent() {
    assert_eq!(format_aperture(28, 0), None);
}

#[test]
fn aperture_ties_follow_the_double() {
    // 0.95 and 0.15 lie just below the tie as doubles, 1.05 just above;
    // 0.25 and 0.75 are exact ties and go to the even digit.
    assert_eq!(format_aperture(95, 100), Some("f/0.9".to_string()));
    assert_eq!(format_aperture(3, 20), Some("f/0.1".to_string()));
    assert_eq!(format_aperture(21, 20), Some("f/1.1".to_string()));
    assert_eq!(format_aperture(1, 4), Some("f/0.2".to_string()));
    assert_eq!(format_aperture(3, 4), Some("f/0.8".to_string()));
}

#[test]
fn focal_length_of_fifty_millimetres() {
    assert_eq!(format_focal_length(500, 10), Some("50mm".to_string()));
}

#[test]
fn focal_length_examples() {
    assert_eq!(format_focal_length(24, 1), Some("24mm".to_string()));
    assert_eq!(format_focal_length(0, 1), Some("0mm".to_string()));
    assert_eq!(format_focal_length(1, 2), Some("0mm".to_string()));
    assert_eq!(format_focal_length(3, 2), Some("2mm".to_string()));
    assert_eq!(format_focal_length(5, 2), Some("2mm".to_string()));
    assert_eq!(format_focal_length(7, 2), Some("4mm".to_string()));
    assert_eq!(format_focal_length(1049, 10), Some("105mm".to_string()));
}

#[test]
fn focal_length_without_denominator_is_absent() {
    assert_eq!(format_focal_length(50, 0), None);
}

#[test]
fn formats_agree_with_doubles_on_small_ratios() {
    for num in 0..120u32 {
        for denom in 0..120u32 {
            check(num, denom);
        }
    }
}

#[test]
fn formats_agree_with_doubles_on_decimal_ties() {
    for k in 0..3000u32 {
        for denom in [2u32, 4, 8, 10, 20, 40, 100, 200, 1000, 2000] {
            check(k, denom);
        }
    }
}

#[test]
fn formats_agree_with_doubles_on_large_ratios() {
    let mut state: u64 = 0x2545f4914f6cdd1d;
    for _ in 0..20000 {
        state ^= state << 13;
        state ^= state >> 7;
        state ^= state << 17;
        let num = (state >> 32) as u32;
        let denom = state as u32;
        check(num, denom);
        check(num >> 20, denom >> 20);
        check(num, denom >> 24);
        check(num >> 24, denom);
    }
}

#[test]
fn formats_agree_with_doubles_at_the_limits() {
    let edge = [0u32, 1, 2, 3, 9, 10, 11, 4294967293, 4294967294, 4294967295, 2147483647, 2147483648, 2147483649];
    for num in edge {
        for denom in edge {
            check(num, denom);
        }
    }
}
