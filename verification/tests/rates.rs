use tts_relay::rate::{adjusted_sample_rate, clamp_rate, MAX_RATE, MIN_RATE};

#[test]
fn no_adjustment_keeps_a_rate_within_the_limits() {
    assert_eq!(adjusted_sample_rate(44100, 0), 44100);
    assert_eq!(adjusted_sample_rate(8000, 0), 8000);
    assert_eq!(adjusted_sample_rate(192000, 0), 192000);
    for input in (8000u32..=192000).step_by(1009) {
        assert_eq!(adjusted_sample_rate(input, 0), input);
    }
}

#[test]
fn no_adjustment_still_limits_the_rate() {
    assert_eq!(adjusted_sample_rate(4000, 0), 8000);
    assert_eq!(adjusted_sample_rate(7999, 0), 8000);
    assert_eq!(adjusted_sample_rate(192001, 0), 192000);
    assert_eq!(adjusted_sample_rate(300000, 0), 192000);
    assert_eq!(adjusted_sample_rate(0, 0), 8000);
    assert_eq!(adjusted_sample_rate(u32::MAX, 0), 192000);
    assert_eq!(adjusted_sample_rate(4000, 99 - 99), 8000);
}

#[test]
fn ten_steps_double_or_halve() {
    assert_eq!(adjusted_sample_rate(44100, 10), 88200);
    assert_eq!(adjusted_sample_rate(44100, -10), 22050);
    assert_eq!(adjusted_sample_rate(16001, -10), 8001);
    assert_eq!(adjusted_sample_rate(15999, -10), 8000);
}

#[test]
fn steps_scale_by_tenths_of_an_octave() {
    assert_eq!(adjusted_sample_rate(44100, 5), 62367);
    assert_eq!(adjusted_sample_rate(24000, 3), 29547);
    assert_eq!(adjusted_sample_rate(22050, -3), 17910);
    assert_eq!(adjusted_sample_rate(48000, 1), 51445);
    assert_eq!(adjusted_sample_rate(48000, -1), 44786);
}

#[test]
fn rounding_is_exact_close_to_a_half() {
    assert_eq!(adjusted_sample_rate(47427, -9), 25416);
    assert_eq!(adjusted_sample_rate(74972, -9), 40177);
    assert_eq!(adjusted_sample_rate(142281, -9), 76247);
    assert_eq!(adjusted_sample_rate(383998, -10), 191999);
    assert_eq!(adjusted_sample_rate(383999, -10), 192000);
    assert_eq!(adjusted_sample_rate(8574, -1), 8000);
    assert_eq!(adjusted_sample_rate(179137, 1), 191994);
}

#[test]
fn more_steps_scale_further() {
    assert_eq!(adjusted_sample_rate(44100, -5), 31183);
    assert_eq!(adjusted_sample_rate(22050, 7), 35820);
    assert_eq!(adjusted_sample_rate(48000, 9), 89571);
    assert_eq!(adjusted_sample_rate(11025, -1), 10287);
    let mut last = 0;
    for steps in -10i32..=10 {
        let rate = adjusted_sample_rate(48000, steps);
        assert!(rate > last, "{} steps", steps);
        last = rate;
    }
}

#[test]
fn large_rates_are_capped_without_overflow() {
    assert_eq!(adjusted_sample_rate(524287, -10), 192000);
    assert_eq!(adjusted_sample_rate(524288, -10), 192000);
    assert_eq!(adjusted_sample_rate(524288, 10), 192000);
    assert_eq!(adjusted_sample_rate(u32::MAX, -1), 192000);
    assert_eq!(adjusted_sample_rate(96001, 10), 192000);
    assert_eq!(adjusted_sample_rate(96000, 10), 192000);
    assert_eq!(adjusted_sample_rate(95999, 10), 191998);
}

#[test]
fn scaled_rates_follow_the_power_of_two() {
    let common = [8000u32, 11025, 16000, 22050, 24000, 32000, 44100, 48000, 96000];
    for input in common.into_iter().chain((4000u32..400000).step_by(97)) {
        for steps in -10i32..=10 {
            if steps == 0 {
                continue;
            }
            let exact = (input as f64) * 2f64.powf(steps as f64 / 10.0);
            let expected = exact.round().clamp(8000.0, 192000.0);
            let got = adjusted_sample_rate(input, steps) as f64;
            let near_half = (exact - exact.floor() - 0.5).abs() < 1e-6;
            assert!(near_half || got == expected, "{} at {}: {} vs {}", input, steps, got, expected);
        }
    }
}

#[test]
fn adjusted_rates_are_limited() {
    assert_eq!(MIN_RATE, 8000);
    assert_eq!(MAX_RATE, 192000);
    assert_eq!(adjusted_sample_rate(4000, 1), 8000);
    assert_eq!(adjusted_sample_rate(192000, 1), 192000);
    assert_eq!(adjusted_sample_rate(u32::MAX, 10), 192000);
    assert_eq!(adjusted_sample_rate(u32::MAX, -10), 192000);
    assert_eq!(adjusted_sample_rate(1, -10), 8000);
    assert_eq!(adjusted_sample_rate(0, 7), 8000);
}

#[test]
fn requested_steps_are_limited_to_ten() {
    assert_eq!(clamp_rate(0), 0);
    assert_eq!(clamp_rate(10), 10);
    assert_eq!(clamp_rate(11), 10);
    assert_eq!(clamp_rate(-10), -10);
    assert_eq!(clamp_rate(-11), -10);
    assert_eq!(clamp_rate(i32::MAX), 10);
    assert_eq!(clamp_rate(i32::MIN), -10);
    assert_eq!(adjusted_sample_rate(48000, 20), 96000);
    assert_eq!(adjusted_sample_rate(48000, -99), 24000);
}
