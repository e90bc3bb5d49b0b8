use mems_lidar::{decode_window, parse_packets, RawSample, HEADER_BYTE, PACKET_SIZE};

#[test]
fn decode_window_reads_big_endian_fields() {
    let w = [0x7E, 0x12, 0x34, 0xAB, 0xCD, 10, 20, 5];
    let s = decode_window(&w).unwrap();
    assert_eq!(
        s,
        RawSample { up: 0x1234, left: 0xABCD, tof: 10, tof_start: 20, tof_end: 5 }
    );
}

#[test]
fn decode_window_without_header_is_none() {
    let w = [0x7F, 0x12, 0x34, 0xAB, 0xCD, 10, 20, 5];
    assert_eq!(decode_window(&w), None);
}

#[test]
fn parse_packets_short_buffer_is_empty() {
    assert_eq!(parse_packets(&[0x7E, 1, 2, 3, 4, 5, 6]), Vec::new());
    assert_eq!(parse_packets(&[]), Vec::new());
}

#[test]
fn parse_packets_scans_every_offset() {
    // Two records back to back, with one stray byte in front.
    let bytes = [
        0x00, 0x7E, 0x00, 0x01, 0x00, 0x02, 3, 4, 5, 0x7E, 0xFF, 0xFF, 0x00, 0x00, 9, 8, 7,
    ];
    let samples = parse_packets(&bytes);
    assert_eq!(
        samples,
        vec![
            RawSample { up: 1, left: 2, tof: 3, tof_start: 4, tof_end: 5 },
            RawSample { up: 0xFFFF, left: 0, tof: 9, tof_start: 8, tof_end: 7 },
        ]
    );
}

#[test]
fn parse_packets_keeps_overlapping_windows() {
    // A header byte inside a record starts a window of its own.
    let bytes = [0x7E, 0x7E, 0, 0, 0, 0, 0, 0, 0];
    let samples = parse_packets(&bytes);
    assert_eq!(samples.len(), 2);
    assert_eq!(samples[0], RawSample { up: 0x7E00, left: 0, tof: 0, tof_start: 0, tof_end: 0 });
    assert_eq!(samples[1], RawSample { up: 0, left: 0, tof: 0, tof_start: 0, tof_end: 0 });
}

#[test]
fn packet_constants() {
    assert_eq!(PACKET_SIZE, 8);
    assert_eq!(HEADER_BYTE, 0x7E);
}

#[test]
fn record_stream_gives_one_sample_per_record() {
    let mut bytes = Vec::new();
    for r in 0..5u8 {
        bytes.extend_from_slice(&[0x7E, 0, r, 1, r, r + 10, r + 20, r + 30]);
    }
    let samples = parse_packets(&bytes);
    assert_eq!(samples.len(), 5);
    for (r, s) in samples.iter().enumerate() {
        let r = r as u8;
        assert_eq!(
            *s,
            RawSample { up: r as u16, left: 256 + r as u16, tof: r + 10, tof_start: r + 20, tof_end: r + 30 }
        );
    }
}
