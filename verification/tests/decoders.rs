use xdf::{Format, Values, XDFFile};

fn chunk_wide(tag: u16, content: &[u8]) -> Vec<u8> {
    // frame with a 4-byte length prefix
    let len = (content.len() + 2) as u32;
    let mut v = vec![4u8];
    v.extend_from_slice(&len.to_le_bytes());
    v.extend_from_slice(&tag.to_le_bytes());
    v.extend_from_slice(content);
    v
}

fn chunk(tag: u16, content: &[u8]) -> Vec<u8> {
    let len = content.len() + 2;
    assert!(len < 256);
    let mut v = vec![1u8, len as u8];
    v.extend_from_slice(&tag.to_le_bytes());
    v.extend_from_slice(content);
    v
}

fn header(id: u32, count: u32, format: &str) -> Vec<u8> {
    let xml = format!(
        "<info><channel_count>{}</channel_count><channel_format>{}</channel_format></info>",
        count, format
    );
    let mut c = id.to_le_bytes().to_vec();
    c.extend_from_slice(xml.as_bytes());
    chunk(2, &c)
}

fn xdf(chunks: &[Vec<u8>]) -> Vec<u8> {
    let mut v = b"XDF:".to_vec();
    for c in chunks {
        v.extend_from_slice(c);
    }
    v
}

const FILE_HEADER_XML: &str = "<info><version>1.0</version></info>";

#[test]
fn four_byte_length_prefix() {
    let bytes = xdf(&[chunk_wide(1, FILE_HEADER_XML.as_bytes())]);
    let file = XDFFile::from_bytes(&bytes).unwrap();
    assert_eq!(file.version, 1.0f32.to_bits());
}

#[test]
fn int16_channels() {
    // two samples, two channels each, with an 8-byte sample-count width
    let mut c = 9u32.to_le_bytes().to_vec();
    c.push(8);
    c.extend_from_slice(&2u64.to_le_bytes());
    for vals in [[-5i16, 300i16], [7i16, -2i16]] {
        c.push(0);
        for v in vals {
            c.extend_from_slice(&v.to_le_bytes());
        }
    }
    let bytes = xdf(&[
        chunk(1, FILE_HEADER_XML.as_bytes()),
        header(9, 2, "int16"),
        chunk(3, &c),
    ]);
    let file = XDFFile::from_bytes(&bytes).unwrap();
    let s = &file.streams[0];
    assert_eq!(s.format, Format::Int16);
    assert_eq!(s.samples.len(), 2);
    assert_eq!(s.samples[0].values, Values::Int16(vec![-5, 300]));
    assert_eq!(s.samples[1].values, Values::Int16(vec![7, -2]));
}

#[test]
fn double64_channels() {
    let mut c = 4u32.to_le_bytes().to_vec();
    c.push(1);
    c.push(1);
    c.push(0);
    c.extend_from_slice(&(-1.25f64).to_bits().to_le_bytes());
    let bytes = xdf(&[
        chunk(1, FILE_HEADER_XML.as_bytes()),
        header(4, 1, "double64"),
        chunk(3, &c),
    ]);
    let file = XDFFile::from_bytes(&bytes).unwrap();
    let s = &file.streams[0];
    assert_eq!(s.format, Format::Float64);
    assert_eq!(
        s.samples[0].values,
        Values::Float64(vec![(-1.25f64).to_bits()])
    );
}

#[test]
fn int64_channels() {
    let mut c = 5u32.to_le_bytes().to_vec();
    c.push(1);
    c.push(1);
    c.push(0);
    c.extend_from_slice(&(-123456789012345i64).to_le_bytes());
    let bytes = xdf(&[
        chunk(1, FILE_HEADER_XML.as_bytes()),
        header(5, 1, "int64"),
        chunk(3, &c),
    ]);
    let file = XDFFile::from_bytes(&bytes).unwrap();
    assert_eq!(
        file.streams[0].samples[0].values,
        Values::Int64(vec![-123456789012345])
    );
}

#[test]
fn truncated_samples_content_keeps_prefix() {
    // two records declared, but the content ends inside the second one
    let mut c = 6u32.to_le_bytes().to_vec();
    c.push(1);
    c.push(2);
    c.push(0);
    c.push(11);
    c.push(0);
    let bytes = xdf(&[
        chunk(1, FILE_HEADER_XML.as_bytes()),
        header(6, 1, "int8"),
        chunk(3, &c),
    ]);
    let file = XDFFile::from_bytes(&bytes).unwrap();
    let s = &file.streams[0];
    assert_eq!(s.samples.len(), 1);
    assert_eq!(s.samples[0].values, Values::Int8(vec![11]));
}

#[test]
fn short_clock_offset_chunk_is_discarded() {
    // a ClockOffset chunk with fewer than 20 content bytes is dropped
    let bytes = xdf(&[
        chunk(1, FILE_HEADER_XML.as_bytes()),
        header(7, 1, "int8"),
        chunk(4, &[1, 2, 3]),
    ]);
    let file = XDFFile::from_bytes(&bytes).unwrap();
    assert_eq!(file.streams.len(), 1);
}
