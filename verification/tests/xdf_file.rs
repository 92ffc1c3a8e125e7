use xdf::{Format, Values, XDFError, XDFFile};

fn chunk(tag: u16, content: &[u8]) -> Vec<u8> {
    let len = content.len() + 2;
    assert!(len < 256);
    let mut v = vec![1u8, len as u8];
    v.extend_from_slice(&tag.to_le_bytes());
    v.extend_from_slice(content);
    v
}

fn file_header_chunk(xml: &str) -> Vec<u8> {
    chunk(1, xml.as_bytes())
}

fn stream_header_chunk(id: u32, xml: &str) -> Vec<u8> {
    let mut c = id.to_le_bytes().to_vec();
    c.extend_from_slice(xml.as_bytes());
    chunk(2, &c)
}

fn clock_offset_chunk(id: u32, t: f64, v: f64) -> Vec<u8> {
    let mut c = id.to_le_bytes().to_vec();
    c.extend_from_slice(&t.to_bits().to_le_bytes());
    c.extend_from_slice(&v.to_bits().to_le_bytes());
    chunk(4, &c)
}

// one record per entry: an optional timestamp and the raw value bytes
fn samples_chunk(id: u32, records: &[(Option<f64>, Vec<u8>)]) -> Vec<u8> {
    let mut c = id.to_le_bytes().to_vec();
    c.push(1);
    c.push(records.len() as u8);
    for (ts, vals) in records {
        match ts {
            Some(t) => {
                c.push(8);
                c.extend_from_slice(&t.to_bits().to_le_bytes());
            }
            None => c.push(0),
        }
        c.extend_from_slice(vals);
    }
    chunk(3, &c)
}

fn xdf(chunks: &[Vec<u8>]) -> Vec<u8> {
    let mut v = b"XDF:".to_vec();
    for c in chunks {
        v.extend_from_slice(c);
    }
    v
}

fn int8_header(id: u32, srate: &str) -> Vec<u8> {
    stream_header_chunk(
        id,
        &format!(
            "<info><channel_count>1</channel_count><channel_format>int8</channel_format><nominal_srate>{}</nominal_srate></info>",
            srate
        ),
    )
}

const FILE_HEADER_XML: &str = "<info><version>1.0</version></info>";

#[test]
fn e1_minimal() {
    let bytes = xdf(&[file_header_chunk(FILE_HEADER_XML)]);
    let file = XDFFile::from_bytes(&bytes).unwrap();
    assert_eq!(file.version, 1.0f32.to_bits());
    assert_eq!(file.streams.len(), 0);
}

#[test]
fn e2_no_file_header() {
    let bytes = xdf(&[
        int8_header(1, "10"),
        samples_chunk(1, &[(Some(1.0), vec![7])]),
    ]);
    let err = XDFFile::from_bytes(&bytes).unwrap_err();
    assert!(matches!(err, XDFError::MissingFileHeader), "got {:?}", err);
}

#[test]
fn e3_samples_without_stream_header() {
    let bytes = xdf(&[
        file_header_chunk(FILE_HEADER_XML),
        samples_chunk(42, &[(Some(1.0), vec![7])]),
    ]);
    let err = XDFFile::from_bytes(&bytes).unwrap_err();
    assert!(
        matches!(err, XDFError::MissingStreamHeader(42)),
        "got {:?}",
        err
    );
}

#[test]
fn e4_interleaved_samples() {
    let bytes = xdf(&[
        file_header_chunk(FILE_HEADER_XML),
        int8_header(1, "10"),
        samples_chunk(1, &[(Some(10.0), vec![1])]),
        samples_chunk(1, &[(Some(5.0), vec![2])]),
    ]);
    let file = XDFFile::from_bytes(&bytes).unwrap();
    assert_eq!(file.streams.len(), 1);
    let s = &file.streams[0];
    assert_eq!(s.samples.len(), 2);
    assert_eq!(s.samples[0].timestamp, Some(5.0f64.to_bits()));
    assert_eq!(s.samples[0].values, Values::Int8(vec![2]));
    assert_eq!(s.samples[1].timestamp, Some(10.0f64.to_bits()));
    assert_eq!(s.samples[1].values, Values::Int8(vec![1]));
}

#[test]
fn e5_continuation_chunk() {
    let bytes = xdf(&[
        file_header_chunk(FILE_HEADER_XML),
        int8_header(1, "10"),
        samples_chunk(
            1,
            &[
                (Some(1.0), vec![1]),
                (Some(1.1), vec![2]),
                (Some(1.2), vec![3]),
            ],
        ),
        samples_chunk(1, &[(None, vec![4]), (None, vec![5]), (None, vec![6])]),
    ]);
    let file = XDFFile::from_bytes(&bytes).unwrap();
    let s = &file.streams[0];
    assert_eq!(s.samples.len(), 6);
    let srate = 10.0f64;
    for j in 1..=3u32 {
        let expected = 1.2f64 + (j as f64) / srate;
        assert_eq!(
            s.samples[2 + j as usize].timestamp,
            Some(expected.to_bits()),
            "sample {}",
            2 + j
        );
    }
}

#[test]
fn e6_offset_interpolation_and_measured_srate() {
    let bytes = xdf(&[
        file_header_chunk(FILE_HEADER_XML),
        int8_header(1, "2"),
        clock_offset_chunk(1, 0.0, -1.0),
        clock_offset_chunk(1, 1.0, 1.0),
        samples_chunk(
            1,
            &[
                (Some(0.0), vec![1]),
                (Some(0.5), vec![2]),
                (Some(1.0), vec![3]),
            ],
        ),
    ]);
    let file = XDFFile::from_bytes(&bytes).unwrap();
    let s = &file.streams[0];
    assert_eq!(s.samples.len(), 3);
    let expected: Vec<f64> = [0.0f64, 0.5, 1.0]
        .iter()
        .map(|t| {
            let x = (t - 0.0) / (1.0 - 0.0);
            t + ((-1.0) * (1.0 - x) + 1.0 * x)
        })
        .collect();
    assert_eq!(expected, vec![-1.0, 0.5, 2.0]);
    for (i, e) in expected.iter().enumerate() {
        assert_eq!(s.samples[i].timestamp, Some(e.to_bits()), "sample {}", i);
    }
    // three samples over the corrected interval of 3.0 seconds
    let delta = 2.0f64 - (-1.0f64);
    assert_eq!(s.measured_srate, Some((3.0f64 / delta).to_bits()));
    assert_eq!(s.measured_srate, Some(1.0f64.to_bits()));
}

#[test]
fn e7_truncated_mid_chunk() {
    let mut bytes = xdf(&[file_header_chunk(FILE_HEADER_XML)]);
    // a Samples chunk declaring 20 bytes of which only 5 arrive
    bytes.extend_from_slice(&[1, 20, 3, 0, 1, 0, 0]);
    let file = XDFFile::from_bytes(&bytes).unwrap();
    assert_eq!(file.version, 1.0f32.to_bits());
    assert_eq!(file.streams.len(), 0);
}

#[test]
fn string_samples() {
    let header = stream_header_chunk(
        3,
        "<info><channel_count>1</channel_count><channel_format>string</channel_format></info>",
    );
    // one string sample: length prefix width 1, length 5, "hello"
    let mut c = 3u32.to_le_bytes().to_vec();
    c.push(1);
    c.push(1);
    c.push(0);
    c.push(1);
    c.push(5);
    c.extend_from_slice(b"hello");
    let bytes = xdf(&[file_header_chunk(FILE_HEADER_XML), header, chunk(3, &c)]);
    let file = XDFFile::from_bytes(&bytes).unwrap();
    let s = &file.streams[0];
    assert_eq!(s.format, Format::String);
    assert_eq!(s.samples.len(), 1);
    assert_eq!(s.samples[0].timestamp, None);
    assert_eq!(s.samples[0].values, Values::String("hello".to_string()));
}

#[test]
fn channel_format_case_insensitive() {
    let header = stream_header_chunk(
        2,
        "<info><channel_count>2</channel_count><channel_format>FLOAT32</channel_format></info>",
    );
    let mut vals = Vec::new();
    vals.extend_from_slice(&1.5f32.to_bits().to_le_bytes());
    vals.extend_from_slice(&(-2.0f32).to_bits().to_le_bytes());
    let bytes = xdf(&[
        file_header_chunk(FILE_HEADER_XML),
        header,
        samples_chunk(2, &[(None, vals)]),
    ]);
    let file = XDFFile::from_bytes(&bytes).unwrap();
    let s = &file.streams[0];
    assert_eq!(s.format, Format::Float32);
    assert_eq!(s.channel_count, 2);
    assert_eq!(
        s.samples[0].values,
        Values::Float32(vec![1.5f32.to_bits(), (-2.0f32).to_bits()])
    );
}

#[test]
fn no_srate_passes_samples_through() {
    let header = stream_header_chunk(
        1,
        "<info><channel_count>1</channel_count><channel_format>int8</channel_format></info>",
    );
    let bytes = xdf(&[
        file_header_chunk(FILE_HEADER_XML),
        header,
        samples_chunk(1, &[(Some(4.0), vec![1]), (None, vec![2])]),
    ]);
    let file = XDFFile::from_bytes(&bytes).unwrap();
    let s = &file.streams[0];
    assert_eq!(s.nominal_srate, None);
    assert_eq!(s.measured_srate, None);
    assert_eq!(s.samples[0].timestamp, Some(4.0f64.to_bits()));
    assert_eq!(s.samples[1].timestamp, None);
}

#[test]
fn bad_channel_count() {
    let header = stream_header_chunk(
        1,
        "<info><channel_count>many</channel_count><channel_format>int8</channel_format></info>",
    );
    let bytes = xdf(&[file_header_chunk(FILE_HEADER_XML), header]);
    let err = XDFFile::from_bytes(&bytes).unwrap_err();
    assert!(
        matches!(err, XDFError::BadXmlElement(ref name) if name == "channel_count"),
        "got {:?}",
        err
    );
}

#[test]
fn bad_channel_format() {
    let header = stream_header_chunk(
        1,
        "<info><channel_count>1</channel_count><channel_format>int9</channel_format></info>",
    );
    let bytes = xdf(&[file_header_chunk(FILE_HEADER_XML), header]);
    let err = XDFFile::from_bytes(&bytes).unwrap_err();
    assert!(
        matches!(err, XDFError::BadXmlElement(ref name) if name == "channel_format"),
        "got {:?}",
        err
    );
}

#[test]
fn missing_version() {
    let bytes = xdf(&[file_header_chunk("<info><name>x</name></info>")]);
    let err = XDFFile::from_bytes(&bytes).unwrap_err();
    assert!(
        matches!(err, XDFError::BadXmlElement(ref name) if name == "version"),
        "got {:?}",
        err
    );
}

#[test]
fn unparseable_file_header_xml() {
    let bytes = xdf(&[file_header_chunk("<info><version>1.0")]);
    let err = XDFFile::from_bytes(&bytes).unwrap_err();
    assert!(matches!(err, XDFError::ParseChunk), "got {:?}", err);
}

#[test]
fn invalid_sample_flag() {
    let header = int8_header(1, "10");
    // record with timestamp flag 3: neither 0 nor 8
    let mut c = 1u32.to_le_bytes().to_vec();
    c.push(1);
    c.push(1);
    c.push(3);
    c.push(7);
    let bytes = xdf(&[file_header_chunk(FILE_HEADER_XML), header, chunk(3, &c)]);
    let err = XDFFile::from_bytes(&bytes).unwrap_err();
    assert!(matches!(err, XDFError::InvalidSample), "got {:?}", err);
}

#[test]
fn out_of_order_clock_offsets() {
    let bytes = xdf(&[
        file_header_chunk(FILE_HEADER_XML),
        int8_header(1, "10"),
        clock_offset_chunk(1, 2.0, 0.0),
        clock_offset_chunk(1, 1.0, 0.0),
        samples_chunk(1, &[(Some(0.0), vec![1])]),
    ]);
    let err = XDFFile::from_bytes(&bytes).unwrap_err();
    assert!(matches!(err, XDFError::InvalidClockOffset), "got {:?}", err);
}

#[test]
fn non_finite_clock_offsets_are_filtered() {
    // a NaN collection time would break the ordering; it is dropped first
    let bytes = xdf(&[
        file_header_chunk(FILE_HEADER_XML),
        int8_header(1, "10"),
        clock_offset_chunk(1, 2.0, 0.0),
        clock_offset_chunk(1, f64::NAN, 0.0),
        samples_chunk(1, &[(Some(0.0), vec![1])]),
    ]);
    let file = XDFFile::from_bytes(&bytes).unwrap();
    assert_eq!(file.streams.len(), 1);
}

#[test]
fn boundary_chunks_are_discarded() {
    let bytes = xdf(&[
        file_header_chunk(FILE_HEADER_XML),
        chunk(5, &[0u8; 16]),
        int8_header(1, "10"),
        chunk(5, &[0u8; 16]),
        samples_chunk(1, &[(Some(1.0), vec![9])]),
    ]);
    let file = XDFFile::from_bytes(&bytes).unwrap();
    assert_eq!(file.streams.len(), 1);
    assert_eq!(file.streams[0].samples.len(), 1);
}

#[test]
fn stream_footer_is_kept() {
    let bytes = xdf(&[
        file_header_chunk(FILE_HEADER_XML),
        int8_header(1, "10"),
        {
            let mut c = 1u32.to_le_bytes().to_vec();
            c.extend_from_slice(b"<info><first_timestamp>1.0</first_timestamp></info>");
            chunk(6, &c)
        },
        samples_chunk(1, &[(Some(1.0), vec![9])]),
    ]);
    let file = XDFFile::from_bytes(&bytes).unwrap();
    assert!(file.streams[0].footer.is_some());
}
