use xdf::chunk_structs::Tag;
use xdf::raw_chunks::read_to_raw_chunks;
use xdf::XDFError;

#[test]
fn empty_file() {
    let bytes: Vec<u8> = vec![];
    let res = read_to_raw_chunks(bytes.as_slice());
    let err = res.unwrap_err();
    assert!(
        matches!(err, XDFError::NoMagicNumber),
        "Expected NoMagicNumberError, got {:?}",
        err
    );
}

#[test]
fn no_magic_num() {
    let bytes: Vec<u8> = vec![b'X', b'D', b'A', b':'];
    let res = read_to_raw_chunks(bytes.as_slice());
    let err = res.unwrap_err();
    assert!(
        matches!(err, XDFError::NoMagicNumber),
        "Expected NoMagicNumberError, got {:?}",
        err
    );
}

#[test]
fn chunk_too_short() {
    // magic number, then a Samples chunk with specified length of length 20 but insufficient actual length
    let bytes: Vec<u8> = vec![b'X', b'D', b'F', b':', 4, 0, 0, 0, 20, 3, 0, 1, 2, 3];
    let res = read_to_raw_chunks(bytes.as_slice());
    let chunks = res.unwrap();
    assert_eq!(chunks.len(), 0);
}

#[test]
fn invalid_tags() {
    //tag 0 is invalid
    let bytes: Vec<u8> = vec![b'X', b'D', b'F', b':', 1, 3, 0, 0, 10];
    let res = read_to_raw_chunks(bytes.as_slice());
    let err = res.unwrap_err();
    assert!(
        matches!(err, XDFError::InvalidTag(invalid_tag) if invalid_tag == 0),
        "Expected InvalidTagError(0), got {:?}",
        err
    );

    //tag 7 is invalid
    let bytes: Vec<u8> = vec![b'X', b'D', b'F', b':', 1, 3, 7, 0, 10];
    let res = read_to_raw_chunks(bytes.as_slice());
    let err = res.unwrap_err();
    assert!(
        matches!(err, XDFError::InvalidTag(invalid_tag) if invalid_tag == 7),
        "Expected InvalidTagError(7), got {:?}",
        err
    );
}

#[test]
fn invalid_length_prefix_width() {
    // a length prefix announcing 2 bytes is invalid: only 1, 4 and 8 exist
    let bytes: Vec<u8> = vec![b'X', b'D', b'F', b':', 2, 3, 0];
    let err = read_to_raw_chunks(bytes.as_slice()).unwrap_err();
    assert!(matches!(err, XDFError::InvalidNumCountBytes(2)));
}

#[test]
fn frames_one_chunk_exactly() {
    // one Boundary chunk with two content bytes
    let bytes: Vec<u8> = vec![b'X', b'D', b'F', b':', 1, 4, 1, 0, 0xaa, 0xbb];
    let chunks = read_to_raw_chunks(bytes.as_slice()).unwrap();
    assert_eq!(chunks.len(), 1);
    assert_eq!(chunks[0].tag, Tag::FileHeader);
    assert_eq!(chunks[0].content_bytes, vec![0xaa, 0xbb]);
}

#[test]
fn second_file_header_ends_framing() {
    // two FileHeader chunks: framing stops before the second one
    let bytes: Vec<u8> = vec![
        b'X', b'D', b'F', b':', 1, 3, 1, 0, 0x41, 1, 3, 1, 0, 0x42,
    ];
    let chunks = read_to_raw_chunks(bytes.as_slice()).unwrap();
    assert_eq!(chunks.len(), 1);
    assert_eq!(chunks[0].content_bytes, vec![0x41]);
}
