use mems_lidar::{bin_index, SignalStats, HISTOGRAM_BIN_COUNT, WAVEFORM_CAPACITY};

#[test]
fn bin_index_matches_distance_bars() {
    // distance = tof * 0.375, bars 5 wide
    assert_eq!(bin_index(0), 0);
    assert_eq!(bin_index(13), 0); // 4.875
    assert_eq!(bin_index(14), 1); // 5.25
    assert_eq!(bin_index(40), 3); // 15.0 exactly
    assert_eq!(bin_index(255), 19); // 95.625
    for tof in 0..=255u8 {
        let dist = f64::from(tof) * 0.375;
        assert_eq!(bin_index(tof), (dist / 5.0).floor() as usize);
    }
}

#[test]
fn record_chunks_uses_last_byte_of_each_record() {
    let mut s = SignalStats::new();
    s.record_chunks(&[1, 2, 3, 4, 40, 9, 9, 9, 9, 14, 7, 7]);
    assert_eq!(s.counter(), 2);
    let wave: Vec<(u64, u8)> = s.waveform().iter().copied().collect();
    assert_eq!(wave, vec![(0, 40), (1, 14)]);
    let h = s.histogram();
    assert_eq!(h.len(), HISTOGRAM_BIN_COUNT);
    assert_eq!(h[3], 1);
    assert_eq!(h[1], 1);
    assert_eq!(h.iter().sum::<u64>(), 2);
}

#[test]
fn waveform_keeps_latest_window() {
    let mut s = SignalStats::new();
    let mut bytes = Vec::new();
    for i in 0..600u32 {
        bytes.extend_from_slice(&[0, 0, 0, 0, (i % 256) as u8]);
    }
    s.record_chunks(&bytes);
    assert_eq!(s.counter(), 600);
    let wave: Vec<(u64, u8)> = s.waveform().iter().copied().collect();
    assert_eq!(wave.len(), WAVEFORM_CAPACITY);
    assert_eq!(wave[0], (88, 88));
    assert_eq!(wave[WAVEFORM_CAPACITY - 1], (599, (599 % 256) as u8));
    assert_eq!(s.histogram().iter().sum::<u64>(), 600);
}
