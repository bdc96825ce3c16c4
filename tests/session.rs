use pyarc2::directives::{BiasOrder, IODir, OutputRange, ReadAfter, ReadAt, WaitFor};
use pyarc2::error::{Arc2Error, ConfigIssue};
use pyarc2::instruction::Instruction;
use pyarc2::readout::{pick_channels, RESULT_MEMORY_BYTES, RESULT_SLABS};
use pyarc2::session::{LineState, Session};

#[test]
fn ground_then_open_stays_grounded() {
    let mut s = Session::new();
    s.connect_to_gnd(vec![3, 7]).unwrap();
    s.open_channels(vec![3, 7]).unwrap();
    assert_eq!(s.line_state(3), Ok(LineState::Grounded));
    assert_eq!(s.line_state(7), Ok(LineState::Grounded));
    assert_eq!(s.line_state(5), Ok(LineState::Driven));
    assert_eq!(s.pending_len(), 2);
    s.gnd_remove(vec![3]).unwrap();
    assert_eq!(s.line_state(3), Ok(LineState::Floating));
    assert_eq!(s.line_state(7), Ok(LineState::Grounded));
}

#[test]
fn empty_ground_clears_all_grounds() {
    let mut s = Session::new();
    s.connect_to_gnd(vec![1, 2, 3]).unwrap();
    s.connect_to_gnd(vec![]).unwrap();
    for ch in 0..64 {
        assert_eq!(s.line_state(ch), Ok(LineState::Driven));
    }
}

#[test]
fn ac_ground_independent_of_ground() {
    let mut s = Session::new();
    s.connect_to_ac_gnd(vec![4]).unwrap();
    s.connect_to_gnd(vec![]).unwrap();
    assert_eq!(s.line_state(4), Ok(LineState::AcGrounded));
    s.gnd_ac_add(vec![9]).unwrap();
    assert_eq!(s.line_state(9), Ok(LineState::AcGrounded));
    s.gnd_ac_remove(vec![4]).unwrap();
    assert_eq!(s.line_state(4), Ok(LineState::Driven));
}

#[test]
fn gnd_add_twice_buffers_once() {
    let mut s = Session::new();
    s.gnd_add(vec![10, 11]).unwrap();
    assert_eq!(s.pending_len(), 1);
    s.gnd_add(vec![11]).unwrap();
    assert_eq!(s.pending_len(), 1);
    s.gnd_remove(vec![40]).unwrap();
    assert_eq!(s.pending_len(), 1);
    s.gnd_add(vec![12]).unwrap();
    let batch = s.execute().unwrap();
    assert_eq!(batch.len(), 2);
    match &batch[1] {
        Instruction::SetGrounds { channels } => assert_eq!(channels, &vec![10, 11, 12]),
        other => panic!("unexpected {:?}", other),
    }
}

#[test]
fn float_all_releases_grounds() {
    let mut s = Session::new();
    s.connect_to_gnd(vec![0, 63]).unwrap();
    s.connect_to_ac_gnd(vec![5]).unwrap();
    s.float_all().unwrap();
    for ch in 0..64 {
        assert_eq!(s.line_state(ch), Ok(LineState::Floating));
    }
    s.config_channels(vec![(2, 1_000_000)], None).unwrap();
    assert_eq!(s.line_state(2), Ok(LineState::Driven));
    assert_eq!(s.line_state(3), Ok(LineState::Floating));
    s.config_channels(vec![], Some(0)).unwrap();
    assert_eq!(s.line_state(3), Ok(LineState::Driven));
}

#[test]
fn invalid_channel_keeps_buffer() {
    let fresh = || {
        let mut s = Session::new();
        s.delay(1_000).unwrap();
        s
    };
    let mut s = fresh();
    s.connect_to_gnd(vec![2]).unwrap();
    assert_eq!(s.connect_to_gnd(vec![1, 64, 70]), Err(Arc2Error::InvalidChannel(64)));
    assert_eq!(s.pending_len(), 2);
    assert_eq!(s.line_state(2), Ok(LineState::Grounded));
    assert_eq!(s.line_state(1), Ok(LineState::Driven));
    let mut s = fresh();
    assert_eq!(s.open_channels(vec![99]), Err(Arc2Error::InvalidChannel(99)));
    let mut s = fresh();
    assert_eq!(s.gnd_add(vec![65]), Err(Arc2Error::InvalidChannel(65)));
    let mut s = fresh();
    assert_eq!(s.pulse_one(0, 80, 1_000_000, 100), Err(Arc2Error::InvalidChannel(80)));
    let mut s = fresh();
    assert_eq!(s.pulse_slice_masked(3, vec![17, 64], 1, 100), Err(Arc2Error::InvalidChannel(64)));
    let mut s = fresh();
    assert_eq!(s.set_channel_range(vec![100], OutputRange::EXT), Err(Arc2Error::InvalidChannel(100)));
    let mut s = fresh();
    assert_eq!(s.config_channels(vec![(1, 0), (64, 0)], None), Err(Arc2Error::InvalidChannel(64)));
    assert_eq!(s.pending_len(), 1);
    assert_eq!(s.line_state(64), Err(Arc2Error::InvalidChannel(64)));
}

#[test]
fn selectors_limited_to_thirty_two() {
    let mut s = Session::new();
    s.config_selectors(vec![9, 12]).unwrap();
    assert_eq!(s.pending_len(), 1);
    assert_eq!(s.config_selectors(vec![31, 32]), Err(Arc2Error::InvalidChannel(32)));
    assert_eq!(s.pending_len(), 1);
}

#[test]
fn set_logic_defaults_to_output() {
    let mut s = Session::new();
    s.set_logic(0xFF, Some(IODir::IN), None, None, None).unwrap();
    let batch = s.execute().unwrap();
    match &batch[0] {
        Instruction::SetLogic { mask, cl0, cl1, cl2, cl3 } => {
            assert_eq!(*mask, 0xFF);
            assert_eq!(*cl0, IODir::IN);
            assert_eq!(*cl1, IODir::OUT);
            assert_eq!(*cl2, IODir::OUT);
            assert_eq!(*cl3, IODir::OUT);
        }
        other => panic!("unexpected {:?}", other),
    }
}

#[test]
fn execute_commits_in_order_and_marks_busy() {
    let mut s = Session::new();
    assert!(!s.busy());
    s.ground_all().unwrap();
    s.delay(500).unwrap();
    s.pulse_all(2_000_000, 1_000, BiasOrder::Rows).unwrap();
    let batch = s.execute().unwrap();
    assert_eq!(batch.len(), 3);
    assert!(matches!(batch[0], Instruction::GroundAll));
    assert!(matches!(batch[1], Instruction::Delay { nanos: 500 }));
    assert!(matches!(batch[2], Instruction::PulseAll { .. }));
    assert!(s.busy());
    assert_eq!(s.pending_len(), 0);
    s.ground_all_fast().unwrap();
    assert_eq!(s.pending_len(), 1);
    s.complete();
    assert!(!s.busy());
}

#[test]
fn invalid_third_instruction_commits_nothing() {
    let mut s = Session::new();
    let batch = vec![
        Instruction::Delay { nanos: 10 },
        Instruction::GroundAll,
        Instruction::SetGrounds { channels: vec![99] },
        Instruction::FloatAll,
        Instruction::ReadOpen { highs: vec![1], ground: true },
    ];
    assert_eq!(s.execute_batch(batch), Err(Arc2Error::InvalidChannel(99)));
    assert_eq!(s.pending_len(), 0);
    assert!(!s.busy());
    assert_eq!(s.frames_outstanding(), 0);
    assert!(!s.pick_one());
}

#[test]
fn valid_batch_commits_whole() {
    let mut s = Session::new();
    s.delay(1).unwrap();
    let batch = vec![
        Instruction::GroundAll,
        Instruction::SetGrounds { channels: vec![1] },
        Instruction::ReadOpen { highs: vec![1], ground: true },
    ];
    let committed = s.execute_batch(batch).unwrap();
    assert_eq!(committed.len(), 4);
    assert!(matches!(committed[0], Instruction::Delay { nanos: 1 }));
    assert_eq!(s.frames_outstanding(), 1);
    assert_eq!(s.line_state(1), Ok(LineState::Grounded));
}

#[test]
fn read_train_drains_exactly() {
    let mut s = Session::new();
    s.generate_read_train(vec![], vec![1, 2], 500_000, 4, 0, false).unwrap();
    assert!(!s.pick_one());
    s.execute().unwrap();
    for _ in 0..4 {
        assert!(s.pick_one());
    }
    assert!(!s.pick_one());
    assert!(!s.pick_one());
}

#[test]
fn vread_train_and_deferred_reads_drain() {
    let mut s = Session::new();
    s.generate_vread_train(vec![3], true, 2, 100).unwrap();
    s.read_slice_open_deferred(vec![4, 5], None).unwrap();
    s.vread_channels_deferred(vec![6], false).unwrap();
    s.execute().unwrap();
    assert_eq!(s.frames_outstanding(), 4);
    let mut n = 0;
    while s.pick_one() {
        n += 1;
    }
    assert_eq!(n, 4);
}

#[test]
fn ramp_frames_follow_read_directives() {
    let mut s = Session::new();
    s.generate_ramp(0, 17, 0, 100_000, 1_000_000, 1_000, 0, 3, ReadAt::Bias, ReadAfter::Pulse).unwrap();
    s.execute().unwrap();
    assert_eq!(s.frames_outstanding(), 33);
    let mut s = Session::new();
    s.generate_ramp(0, 17, 0, 100_000, 1_000_000, 1_000, 0, 3, ReadAt::Arb(200_000), ReadAfter::Block).unwrap();
    s.generate_ramp(0, 17, 0, 100_000, 1_000_000, 1_000, 0, 3, ReadAt::Bias, ReadAfter::Ramp).unwrap();
    s.generate_ramp(0, 17, 0, 100_000, 1_000_000, 1_000, 0, 3, ReadAt::Never, ReadAfter::Never).unwrap();
    s.execute().unwrap();
    assert_eq!(s.frames_outstanding(), 12);
}

#[test]
fn inconsistent_ramp_rejected_before_buffering() {
    let mut s = Session::new();
    assert_eq!(
        s.generate_ramp(0, 17, 0, -100_000, 1_000_000, 1_000, 0, 1, ReadAt::Bias, ReadAfter::Pulse),
        Err(Arc2Error::InvalidConfiguration(ConfigIssue::RampDirection))
    );
    assert_eq!(s.execute(), Err(Arc2Error::InvalidConfiguration(ConfigIssue::RampDirection)));
    assert_eq!(
        s.generate_ramp(0, 17, 0, 100_000, 1_000_000, 1_000, 0, 1, ReadAt::Bias, ReadAfter::Never),
        Err(Arc2Error::InvalidConfiguration(ConfigIssue::ReadDirective))
    );
    assert_eq!(s.execute(), Err(Arc2Error::InvalidConfiguration(ConfigIssue::ReadDirective)));
    assert_eq!(
        s.generate_ramp(0, 64, 0, 100_000, 1_000_000, 1_000, 0, 1, ReadAt::Bias, ReadAfter::Pulse),
        Err(Arc2Error::InvalidChannel(64))
    );
    assert_eq!(s.pending_len(), 0);
}

#[test]
fn result_memory_exhaustion() {
    let mut s = Session::new();
    assert_eq!(
        s.generate_read_train(vec![0], vec![1], 0, (RESULT_SLABS + 1) as usize, 0, true),
        Err(Arc2Error::MemoryAccessFailure(RESULT_MEMORY_BYTES))
    );
    assert_eq!(s.execute(), Err(Arc2Error::MemoryAccessFailure(RESULT_MEMORY_BYTES)));
    s.generate_read_train(vec![0], vec![1], 0, RESULT_SLABS as usize, 0, true).unwrap();
    assert_eq!(s.pending_len(), 1);
    assert_eq!(
        s.read_slice_open_deferred(vec![1], Some(false)),
        Err(Arc2Error::MemoryAccessFailure(RESULT_MEMORY_BYTES))
    );
    assert_eq!(s.pending_len(), 1);
}

#[test]
fn fast_open_through_session() {
    let mut s = Session::new();
    let timings = vec![Some(1_000), None, None, None, None, None, None, None];
    s.pulse_slice_fast_open(vec![(1, 2_000_000, 0), (2, 1_500_000, 0)], timings, true).unwrap();
    let short = vec![Some(1_000); 7];
    assert_eq!(
        s.pulse_slice_fast_open(vec![(1, 2_000_000, 0)], short, true),
        Err(Arc2Error::InvalidConfiguration(ConfigIssue::ClusterTimingCount))
    );
    assert_eq!(s.pending_len(), 1);
}

#[test]
fn vread_channels_ascending_order() {
    let mut s = Session::new();
    s.delay(5).unwrap();
    let (batch, order) = s.vread_channels(&vec![5, 1, 3]).unwrap();
    assert_eq!(batch.len(), 1);
    assert_eq!(order, vec![1, 3, 5]);
    let frame: Vec<f32> = (0..64).map(|c| c as f32 * 0.5).collect();
    let values = pick_channels(&frame, &order);
    assert_eq!(values, vec![0.5, 1.5, 2.5]);
    assert!(s.busy());
}

#[test]
fn synchronous_reads_flush_first() {
    let mut s = Session::new();
    s.config_channels(vec![(3, 100_000)], None).unwrap();
    let batch = s.read_one(3, 20).unwrap();
    assert_eq!(batch.len(), 1);
    assert_eq!(s.pending_len(), 0);
    assert_eq!(s.read_one(3, 64), Err(Arc2Error::InvalidChannel(64)));
    assert_eq!(s.read_slice(70), Err(Arc2Error::InvalidChannel(70)));
    assert!(s.read_slice(5).unwrap().is_empty());
    assert_eq!(s.read_slice_masked(5, &vec![17, 80]), Err(Arc2Error::InvalidChannel(80)));
    assert_eq!(s.read_slice_open(&vec![66]), Err(Arc2Error::InvalidChannel(66)));
    assert!(s.read_slice_open(&vec![1, 2]).is_ok());
}

#[test]
fn mac_needs_disjoint_channels() {
    let mut s = Session::new();
    assert_eq!(
        s.mac(&vec![(1, 100_000), (2, 200_000)], &vec![5, 2, 1]),
        Err(Arc2Error::InvalidConfiguration(ConfigIssue::OverlappingChannels { channel: 2 }))
    );
    assert_eq!(s.mac(&vec![(1, 100_000)], &vec![64]), Err(Arc2Error::InvalidChannel(64)));
    s.delay(1).unwrap();
    let batch = s.mac(&vec![(1, 100_000), (2, 200_000)], &vec![30, 16]).unwrap();
    assert_eq!(batch.len(), 1);
    let frame: Vec<i64> = (0..64).map(|c| c * 10).collect();
    assert_eq!(pick_channels(&frame, &vec![30, 16]), vec![300, 160]);
}

#[test]
fn rejected_append_cancels_chain() {
    let mut s = Session::new();
    s.delay(1).unwrap();
    s.ground_all().unwrap();
    assert_eq!(s.open_channels(vec![64]), Err(Arc2Error::InvalidChannel(64)));
    assert!(s.is_cancelled());
    assert_eq!(s.pending_len(), 2);
    assert_eq!(s.float_all(), Err(Arc2Error::InvalidChannel(64)));
    assert_eq!(s.delay(2), Err(Arc2Error::InvalidChannel(64)));
    assert_eq!(s.pending_len(), 2);
    assert_eq!(s.execute(), Err(Arc2Error::InvalidChannel(64)));
    assert!(!s.busy());
    assert_eq!(s.frames_outstanding(), 0);
    assert_eq!(s.pending_len(), 0);
    assert!(!s.is_cancelled());
    s.delay(3).unwrap();
    let batch = s.execute().unwrap();
    assert_eq!(batch, vec![Instruction::Delay { nanos: 3 }]);
}

#[test]
fn rejected_append_keeps_lines_until_commit() {
    let mut s = Session::new();
    s.connect_to_gnd(vec![2]).unwrap();
    s.execute().unwrap();
    s.connect_to_gnd(vec![5]).unwrap();
    s.read_slice_open_deferred(vec![5], None).unwrap();
    assert_eq!(s.line_state(5), Ok(LineState::Grounded));
    assert_eq!(s.gnd_add(vec![99]), Err(Arc2Error::InvalidChannel(99)));
    assert_eq!(s.line_state(5), Ok(LineState::Grounded));
    assert_eq!(s.pending_len(), 2);
    assert_eq!(s.gnd_remove(vec![2]), Err(Arc2Error::InvalidChannel(99)));
    assert_eq!(s.read_one(0, 20), Err(Arc2Error::InvalidChannel(99)));
    assert_eq!(s.frames_outstanding(), 0);
    assert_eq!(s.line_state(5), Ok(LineState::Driven));
    assert_eq!(s.line_state(2), Ok(LineState::Grounded));
    assert!(s.read_one(0, 20).unwrap().is_empty());
}

#[test]
fn rejected_batch_cancels_pending() {
    let mut s = Session::new();
    s.delay(1).unwrap();
    let batch = vec![Instruction::GroundAll, Instruction::OpenChannels { channels: vec![70] }];
    assert_eq!(s.submit(batch), Err(Arc2Error::InvalidChannel(70)));
    assert_eq!(s.pending_len(), 1);
    assert_eq!(s.execute(), Err(Arc2Error::InvalidChannel(70)));
    s.delay(4).unwrap();
    assert_eq!(s.execute_batch(vec![Instruction::FloatAll, Instruction::PulseOne { low: 1, high: 99, voltage: 0, nanos: 1 }]),
        Err(Arc2Error::InvalidChannel(99)));
    assert!(!s.is_cancelled());
    assert_eq!(s.pending_len(), 0);
    assert_eq!(s.line_state(3), Ok(LineState::Driven));
}

#[test]
fn channel_ranges_follow_set_range() {
    let mut s = Session::new();
    assert_eq!(s.channel_range(4), Ok(OutputRange::STD));
    s.set_channel_range(vec![4, 60], OutputRange::EXT).unwrap();
    assert_eq!(s.channel_range(4), Ok(OutputRange::EXT));
    assert_eq!(s.channel_range(60), Ok(OutputRange::EXT));
    assert_eq!(s.channel_range(5), Ok(OutputRange::STD));
    s.set_channel_range(vec![60], OutputRange::STD).unwrap();
    assert_eq!(s.channel_range(60), Ok(OutputRange::STD));
    assert_eq!(s.channel_range(4), Ok(OutputRange::EXT));
    assert_eq!(s.channel_range(64), Err(Arc2Error::InvalidChannel(64)));
}

#[test]
fn read_train_leaves_result_buffer_alone() {
    let mut s = Session::new();
    s.delay(7).unwrap();
    let batch = s.read_train(0, 20).unwrap();
    assert_eq!(batch, vec![Instruction::Delay { nanos: 7 }]);
    assert_eq!(s.frames_outstanding(), 0);
    assert!(!s.pick_one());
    assert_eq!(s.read_train(0, 64), Err(Arc2Error::InvalidChannel(64)));
    s.generate_vread_train(vec![1], false, 2, 0).unwrap();
    assert_eq!(
        s.read_train(0, 20),
        Err(Arc2Error::InvalidConfiguration(ConfigIssue::ResultsPending))
    );
    assert_eq!(s.pending_len(), 1);
    s.execute().unwrap();
    assert_eq!(
        s.read_train(0, 20),
        Err(Arc2Error::InvalidConfiguration(ConfigIssue::ResultsPending))
    );
    assert!(s.pick_one());
    assert!(s.pick_one());
    assert!(s.read_train(0, 20).is_ok());
    assert_eq!(s.frames_outstanding(), 0);
}

#[test]
fn transport_failure_makes_drain_ask() {
    let mut s = Session::new();
    s.generate_vread_train(vec![1], false, 3, 0).unwrap();
    s.execute().unwrap();
    s.transport_failed();
    assert!(!s.busy());
    assert_eq!(s.frames_outstanding(), 0);
    assert!(s.pick_one());
    s.drain_ended();
    assert!(!s.pick_one());
}

#[test]
fn ground_tracker_names_grounds_to_restore() {
    let mut s = Session::new();
    s.connect_to_gnd(vec![9, 3]).unwrap();
    s.execute().unwrap();
    s.connect_to_ac_gnd(vec![7]).unwrap();
    s.open_channels(vec![3, 7]).unwrap();
    s.float_all().unwrap();
    s.open_channels(vec![1]).unwrap();
    let mut t = s.ground_tracker();
    let batch = s.execute().unwrap();
    let restores: Vec<Option<(Vec<usize>, Vec<usize>)>> = batch.iter().map(|i| t.observe(i)).collect();
    assert_eq!(restores[0], None);
    assert_eq!(restores[1], Some((vec![3, 9], vec![7])));
    assert_eq!(restores[2], None);
    assert_eq!(restores[3], Some((vec![], vec![])));
}

#[test]
fn rejected_fast_pulse_keeps_buffer() {
    for slots in [7usize, 9] {
        let mut s = Session::new();
        s.delay(1).unwrap();
        assert_eq!(
            s.pulse_slice_fast_open(vec![(0, 1_000_000, 0)], vec![Some(1_000); slots], false),
            Err(Arc2Error::InvalidConfiguration(ConfigIssue::ClusterTimingCount))
        );
        assert_eq!(s.pending_len(), 1);
    }
    let mut s = Session::new();
    s.delay(1).unwrap();
    assert_eq!(
        s.pulse_slice_fast_open(vec![(0, 1_000_000, 0), (1, 0, 1_000_000)], vec![Some(1_000); 8], false),
        Err(Arc2Error::InvalidConfiguration(ConfigIssue::MixedClusterPolarity { cluster: 0 }))
    );
    assert_eq!(s.pending_len(), 1);
    let mut s = Session::new();
    s.delay(1).unwrap();
    assert_eq!(
        s.generate_ramp(0, 17, 0, 0, 1_000_000, 1_000, 0, 1, ReadAt::Bias, ReadAfter::Pulse),
        Err(Arc2Error::InvalidConfiguration(ConfigIssue::RampDirection))
    );
    assert_eq!(s.pending_len(), 1);
    assert_eq!(s.frames_outstanding(), 0);
}
