use pyarc2::channels::{check_channels, cluster_of, gpio_cluster_of, is_row, slice_channels};
use pyarc2::directives::{IODir, OutputRange, ReadAfter, ReadAt, WaitFor};
use pyarc2::error::{Arc2Error, ConfigIssue};
use pyarc2::fast::check_fast_open;
use pyarc2::ramp::{plan_ramp, ramp_steps, ramp_voltage_at};

#[test]
fn ramp_wrong_sign_fails() {
    assert_eq!(
        ramp_steps(0, -100_000, 1_000_000),
        Err(Arc2Error::InvalidConfiguration(ConfigIssue::RampDirection))
    );
}

#[test]
fn ramp_step_count_ceil_plus_one() {
    assert_eq!(ramp_steps(0, 100_000, 1_000_000), Ok(11));
    assert_eq!(ramp_steps(0, 300_000, 1_000_000), Ok(5));
    assert_eq!(ramp_steps(1_000_000, -250_000, 0), Ok(5));
    assert_eq!(ramp_steps(500_000, 1, 500_000), Ok(1));
    assert_eq!(ramp_steps(500_000, -1, 500_000), Ok(1));
    assert_eq!(
        ramp_steps(0, 0, 1_000_000),
        Err(Arc2Error::InvalidConfiguration(ConfigIssue::RampDirection))
    );
    assert_eq!(
        ramp_steps(0, 0, 0),
        Err(Arc2Error::InvalidConfiguration(ConfigIssue::RampDirection))
    );
    assert_eq!(ramp_steps(i32::MIN, i32::MAX, i32::MAX), Ok(4));
}

#[test]
fn ramp_voltages_step_from_start() {
    assert_eq!(ramp_voltage_at(0, 100_000, 0), 0);
    assert_eq!(ramp_voltage_at(0, 100_000, 10), 1_000_000);
    assert_eq!(ramp_voltage_at(1_000_000, -250_000, 4), 0);
    assert_eq!(ramp_voltage_at(i32::MAX, i32::MAX, u32::MAX), i32::MAX as i64 * (1 + u32::MAX as i64));
}

#[test]
fn ramp_plan_frames() {
    let p = plan_ramp(0, 100_000, 1_000_000, 3, ReadAt::Bias, ReadAfter::Pulse).unwrap();
    assert_eq!(p.steps, 11);
    assert_eq!(p.frames, 33);
    assert_eq!(plan_ramp(0, 100_000, 1_000_000, 0, ReadAt::Bias, ReadAfter::Pulse).unwrap().frames, 11);
    assert_eq!(plan_ramp(0, 100_000, 1_000_000, 0, ReadAt::Bias, ReadAfter::Block).unwrap().frames, 0);
    assert_eq!(plan_ramp(0, 100_000, 1_000_000, 3, ReadAt::Bias, ReadAfter::Block).unwrap().frames, 11);
    assert_eq!(plan_ramp(0, 100_000, 1_000_000, 3, ReadAt::Bias, ReadAfter::Ramp).unwrap().frames, 1);
    assert_eq!(plan_ramp(0, 100_000, 1_000_000, 3, ReadAt::Never, ReadAfter::Pulse).unwrap().frames, 0);
    assert_eq!(
        plan_ramp(0, 100_000, 1_000_000, 3, ReadAt::Bias, ReadAfter::Never),
        Err(Arc2Error::InvalidConfiguration(ConfigIssue::ReadDirective))
    );
    let big = plan_ramp(0, 1, 1_000_000, usize::MAX, ReadAt::Bias, ReadAfter::Pulse).unwrap();
    assert_eq!(big.frames, 1_000_001u128 * usize::MAX as u128);
}

#[test]
fn fast_open_seven_or_nine_timings_fail() {
    let chans = vec![(1usize, 2_000_000i32, 0i32)];
    assert_eq!(
        check_fast_open(&chans, &vec![Some(100u128); 7]),
        Err(Arc2Error::InvalidConfiguration(ConfigIssue::ClusterTimingCount))
    );
    assert_eq!(
        check_fast_open(&chans, &vec![Some(100u128); 9]),
        Err(Arc2Error::InvalidConfiguration(ConfigIssue::ClusterTimingCount))
    );
}

#[test]
fn fast_open_missing_cluster_timing_fails() {
    let mut timings = vec![Some(100u128); 8];
    timings[2] = None;
    let chans = vec![(3usize, 1_000_000i32, 0i32), (17, 1_000_000, 0)];
    assert_eq!(
        check_fast_open(&chans, &timings),
        Err(Arc2Error::InvalidConfiguration(ConfigIssue::MissingClusterTiming { channel: 17, cluster: 2 }))
    );
}

#[test]
fn fast_open_consistent_timings_succeed() {
    let timings = vec![Some(100u128), Some(200), None, Some(500_000_000), None, None, None, Some(0)];
    let chans = vec![
        (0usize, 1_000_000i32, 0i32),
        (7, 2_000_000, 500_000),
        (8, -1_000_000, 0),
        (15, -2_000_000, 0),
        (24, 0, 0),
        (63, 3, 4),
    ];
    assert_eq!(check_fast_open(&chans, &timings), Ok(()));
    assert_eq!(check_fast_open(&vec![], &vec![None; 8]), Ok(()));
}

#[test]
fn fast_open_mixed_polarity_fails() {
    let timings = vec![Some(100u128); 8];
    let chans = vec![(9usize, 1_000_000i32, 0i32), (1, 0, 1), (12, -1_000_000, 0)];
    assert_eq!(
        check_fast_open(&chans, &timings),
        Err(Arc2Error::InvalidConfiguration(ConfigIssue::MixedClusterPolarity { cluster: 1 }))
    );
}

#[test]
fn fast_open_too_long_and_bad_channel() {
    let mut timings = vec![Some(100u128); 8];
    timings[4] = Some(500_000_001);
    assert_eq!(
        check_fast_open(&vec![(33usize, 1i32, 0i32)], &timings),
        Err(Arc2Error::InvalidConfiguration(ConfigIssue::ClusterPulseTooLong { channel: 33 }))
    );
    assert_eq!(
        check_fast_open(&vec![(1usize, 1i32, 0i32), (64, 1, 0), (33, 1, 0)], &timings),
        Err(Arc2Error::InvalidChannel(64))
    );
}

#[test]
fn channel_addressing() {
    assert!(is_row(0) && is_row(15) && is_row(32) && is_row(47));
    assert!(!is_row(16) && !is_row(31) && !is_row(48) && !is_row(63));
    assert_eq!(cluster_of(0), 0);
    assert_eq!(cluster_of(17), 2);
    assert_eq!(cluster_of(63), 7);
    assert_eq!(gpio_cluster_of(0), Ok(0));
    assert_eq!(gpio_cluster_of(23), Ok(2));
    assert_eq!(gpio_cluster_of(31), Ok(3));
    assert_eq!(gpio_cluster_of(32), Err(Arc2Error::InvalidChannel(32)));
    let words = slice_channels(5);
    let expected_words: Vec<usize> = (16..32).chain(48..64).collect();
    assert_eq!(words, expected_words);
    let bits = slice_channels(20);
    let expected_bits: Vec<usize> = (0..16).chain(32..48).collect();
    assert_eq!(bits, expected_bits);
    assert_eq!(check_channels(&[0, 63]), Ok(()));
    assert_eq!(check_channels(&[]), Ok(()));
    assert_eq!(check_channels(&[5, 64, 200]), Err(Arc2Error::InvalidChannel(64)));
}

#[test]
fn read_after_names_round_trip() {
    for d in [ReadAfter::Pulse, ReadAfter::Ramp, ReadAfter::Block, ReadAfter::Never] {
        assert_eq!(ReadAfter::from_str(d.as_str()), Ok(d));
    }
    assert_eq!(ReadAfter::from_str("block"), Ok(ReadAfter::Block));
    assert_eq!(ReadAfter::from_str("Pulse"), Err(Arc2Error::UnknownDirective));
    assert_eq!(ReadAfter::from_str(""), Err(Arc2Error::UnknownDirective));
    assert_eq!(ReadAfter::Ramp.repr(), "ReadAfter<Ramp>");
}

#[test]
fn directive_helpers() {
    assert_eq!(ReadAt::Arb(-250_000).voltage(), Some(-250_000));
    assert_eq!(ReadAt::Bias.voltage(), None);
    assert_eq!(ReadAt::Never.voltage(), None);
    assert_eq!(WaitFor::millis(3), WaitFor::Time(3_000_000));
    assert_eq!(WaitFor::millis(u64::MAX), WaitFor::Time(u64::MAX as u128 * 1_000_000));
    assert_eq!(WaitFor::nanos(7), WaitFor::Time(7));
    assert_eq!(WaitFor::iterations(4), WaitFor::Iterations(4));
    assert_eq!(IODir::OUT.as_str(), "IODir.OUT");
    assert_eq!(IODir::IN.as_str(), "IODir.IN");
    assert_eq!(OutputRange::STD.as_str(), "OutputRange.STD");
    assert_eq!(OutputRange::EXT.as_str(), "OutputRange.EXT");
}

#[test]
fn error_descriptions() {
    assert_eq!(Arc2Error::InvalidChannel(1).describe(), "invalid channel");
    assert_eq!(Arc2Error::TransportFailure("usb".to_string()).describe(), "transport failure");
    assert_eq!(Arc2Error::DeviceNotFound(2).describe(), "device not found");
    assert_eq!(Arc2Error::MemoryAccessFailure(3).describe(), "memory access failure");
    assert_eq!(
        Arc2Error::InvalidConfiguration(ConfigIssue::RampDirection).describe(),
        "invalid configuration"
    );
    assert_eq!(Arc2Error::UnknownDirective.describe(), "unknown directive");
}
