use xdf::chunk_structs::ClockOffsetChunk;
use xdf::interpolate::interpolate_and_add_offsets;

const EPSILON: f64 = 1E-14;

fn offset(collection_time: f64, offset_value: f64) -> ClockOffsetChunk {
    ClockOffsetChunk {
        stream_id: 0,
        collection_time: collection_time.to_bits(),
        offset_value: offset_value.to_bits(),
    }
}

fn interpolate(ts: f64, offsets: &[ClockOffsetChunk], offset_index: &mut usize) -> f64 {
    f64::from_bits(interpolate_and_add_offsets(ts.to_bits(), offsets, offset_index))
}

// now without panics!
#[test]
fn test_interpolation_bad_offset() {
    let offsets = vec![offset(0.0, -1.0), offset(1.0, 1.0)];
    // before the range we expect the first offset to be used
    let timestamp = 0.0 - 1.0;
    let mut offset_index: usize = 1;

    // should not panic
    interpolate(timestamp, &offsets, &mut offset_index);
}

// test the interpolation function for timestamps *inside* the range of offsets
#[test]
fn test_interpolation_inside() {
    const TEST_VALUES: [((f64, f64), (f64, f64)); 4] = [
        ((0.0, -1.0), (1.0, 1.0)),
        ((0.0, 0.0), (1.0, 1.0)),
        ((0.0, -1.0), (1.0, 5.0)),
        ((4.0, -1.0), (5.0, 2.0)),
    ];

    for ((s1_t, s1_v), (s2_t, s2_v)) in TEST_VALUES {
        let offsets = vec![offset(s1_t, s1_v), offset(s2_t, s2_v)];

        let incline = (s2_v - s1_v) / (s2_t - s1_t);
        let first_pos = (s1_t, s1_v);

        let linspace = |start: f64, end: f64, n: usize| {
            (0..n)
                .map(|i| start + (end - start) * (i as f64) / (n as f64))
                .collect::<Vec<f64>>()
        };

        // test at multiple steps
        for timestamp in linspace(s1_t, s2_t, 100) {
            let mut offset_index: usize = 0;
            let interpolated = interpolate(timestamp, &offsets, &mut offset_index);

            let expected: f64 = timestamp + ((timestamp - first_pos.0) * incline + first_pos.1); // original timestamp + interpolated offset

            assert!(
                (interpolated - expected).abs() < EPSILON,
                "expected {interpolated} to be within {EPSILON} of {expected}"
            );
        }
    }
}

// test the interpolation function for timestamps after the last offset
#[test]
fn test_interpolation_after() {
    let offsets = vec![offset(0.0, -1.0), offset(1.0, 1.0), offset(3.0, 2.0)];
    // after the range we expect the last offset to be used
    let timestamp = 3.0 + 1.0;
    let mut offset_index: usize = 0;
    let interpolated = interpolate(timestamp, &offsets, &mut offset_index);
    let expected = timestamp + 2.0;

    assert!(
        (interpolated - expected).abs() < EPSILON,
        "expected {interpolated} to be within {EPSILON} of {expected}"
    );
}

// test the interpolation function for timestamps before the first offset
#[test]
fn test_interpolation_before() {
    let offsets = vec![offset(0.0, -1.0), offset(1.0, 1.0)];
    let timestamp = 0.0 - 1.0;
    let mut offset_index: usize = 0;
    let interpolated = interpolate(timestamp, &offsets, &mut offset_index);
    let expected = timestamp + (-1.0);

    assert!(
        (interpolated - expected).abs() < EPSILON,
        "expected {interpolated} to be within {EPSILON} of {expected}"
    );
}

#[test]
fn test_no_offsets() {
    let offsets: Vec<ClockOffsetChunk> = vec![];
    let mut offset_index: usize = 0;

    for i in -20..=20 {
        let timestamp = f64::from(i) / 10.0;
        let res = interpolate(timestamp, &offsets, &mut offset_index);

        //should be unchanged
        assert_eq!(timestamp, res);
        assert_eq!(offset_index, 0);
    }
}

#[test]
fn cursor_advances_monotonically() {
    let offsets = vec![
        offset(0.0, 0.0),
        offset(1.0, 0.0),
        offset(2.0, 0.0),
        offset(3.0, 0.0),
    ];
    let mut offset_index: usize = 0;
    let mut previous: usize = 0;
    for i in 0..40 {
        let ts = (i as f64) / 10.0;
        interpolate(ts, &offsets, &mut offset_index);
        assert!(offset_index >= previous);
        assert!(offset_index < offsets.len());
        previous = offset_index;
    }
}
