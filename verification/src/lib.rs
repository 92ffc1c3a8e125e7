//! A verified reader for XDF (Extensible Data Format) 1.0 files.
//!
//! The reader consumes the bytes of a whole XDF file and produces a
//! file-level header plus one stream per declared stream id, with per-sample
//! timestamps synthesized from the nominal sampling rate where missing and
//! corrected by piecewise-linear interpolation of the stream's clock
//! offsets.
//!
//! Floating-point quantities are carried as IEEE-754 bit patterns (`u64` for
//! binary64, `u32` for binary32); see [`fp`].

use vstd::prelude::*;
use vstd::string::StringSliceAdditionalSpecFns;

pub use chunk_structs::Sample;
pub use errors::XDFError;
pub use streams::Stream;

pub mod assoc;
pub mod bytes;
pub mod chunk_structs;
pub mod deep;
pub mod errors;
pub mod fp;
pub mod interpolate;
pub mod parsers;
pub mod raw_chunks;
pub mod streams;
pub mod text;
pub mod xml;

verus! {

/// The element type of a stream's channels, as declared by its header.
#[derive(Debug, Clone, Copy, PartialEq, Eq, Hash, Structural)]
pub enum Format {
    /// signed 8-bit integer
    Int8,
    /// signed 16-bit integer
    Int16,
    /// signed 32-bit integer
    Int32,
    /// signed 64-bit integer
    Int64,
    /// IEEE-754 binary32, carried as its `u32` bit pattern
    Float32,
    /// IEEE-754 binary64, carried as its `u64` bit pattern
    Float64,
    /// UTF-8 string, one string per sample
    String,
}

/// The values of one sample: a vector of elements of the stream's declared
/// format, or a single string.  Floating-point elements are carried as their
/// IEEE-754 bit patterns.
#[allow(missing_docs)]
#[derive(Debug, Clone, PartialEq)]
pub enum Values {
    Int8(Vec<i8>),
    Int16(Vec<i16>),
    Int32(Vec<i32>),
    Int64(Vec<i64>),
    Float32(Vec<u32>),
    Float64(Vec<u64>),
    String(String),
}

/// Model of [`Values`].
#[allow(missing_docs)]
pub enum ValuesV {
    Int8(Seq<i8>),
    Int16(Seq<i16>),
    Int32(Seq<i32>),
    Int64(Seq<i64>),
    Float32(Seq<u32>),
    Float64(Seq<u64>),
    String(Seq<char>),
}

impl View for Values {
    type V = ValuesV;

    open spec fn view(&self) -> ValuesV {
        match self {
            Values::Int8(v) => ValuesV::Int8(v@),
            Values::Int16(v) => ValuesV::Int16(v@),
            Values::Int32(v) => ValuesV::Int32(v@),
            Values::Int64(v) => ValuesV::Int64(v@),
            Values::Float32(v) => ValuesV::Float32(v@),
            Values::Float64(v) => ValuesV::Float64(v@),
            Values::String(s) => ValuesV::String(s@),
        }
    }
}

impl DeepView for Values {
    type V = ValuesV;

    open spec fn deep_view(&self) -> ValuesV {
        self.view()
    }
}

/// Element width in bytes of each fixed-size format; `None` for strings,
/// which are variable-length.
pub open spec fn spec_format_width(f: Format) -> Option<usize> {
    match f {
        Format::Int8 => Some(1usize),
        Format::Int16 => Some(2usize),
        Format::Int32 => Some(4usize),
        Format::Int64 => Some(8usize),
        Format::Float32 => Some(4usize),
        Format::Float64 => Some(8usize),
        Format::String => None,
    }
}

/// Returns the element width in bytes of a fixed-size format, or `None` for
/// strings.
pub fn format_width(f: Format) -> (r: Option<usize>)
    ensures
        r == spec_format_width(f),
{
    match f {
        Format::Int8 => Some(1),
        Format::Int16 => Some(2),
        Format::Int32 => Some(4),
        Format::Int64 => Some(8),
        Format::Float32 => Some(4),
        Format::Float64 => Some(8),
        Format::String => None,
    }
}

/// The format a (lowercased) `channel_format` token of a stream header
/// denotes, over the token's UTF-8 bytes.
pub open spec fn spec_str_to_format(b: Seq<u8>) -> Option<Format> {
    if b == seq![105u8, 110u8, 116u8, 56u8] {
        // "int8"
        Some(Format::Int8)
    } else if b == seq![105u8, 110u8, 116u8, 49u8, 54u8] {
        // "int16"
        Some(Format::Int16)
    } else if b == seq![105u8, 110u8, 116u8, 51u8, 50u8] {
        // "int32"
        Some(Format::Int32)
    } else if b == seq![105u8, 110u8, 116u8, 54u8, 52u8] {
        // "int64"
        Some(Format::Int64)
    } else if b == seq![102u8, 108u8, 111u8, 97u8, 116u8, 51u8, 50u8] {
        // "float32"
        Some(Format::Float32)
    } else if b == seq![100u8, 111u8, 117u8, 98u8, 108u8, 101u8, 54u8, 52u8] {
        // "double64"
        Some(Format::Float64)
    } else if b == seq![115u8, 116u8, 114u8, 105u8, 110u8, 103u8] {
        // "string"
        Some(Format::String)
    } else {
        None
    }
}

/// Maps a `channel_format` token to its [`Format`]: `int8`, `int16`, `int32`
/// and `int64` to the integer formats, `float32` and `double64` to the
/// floating-point ones, `string` to [`Format::String`]; anything else to
/// `None`.  Matching is exact; callers lowercase first.
pub fn str_to_format(input: &str) -> (r: Option<Format>)
    ensures
        r == spec_str_to_format(input.spec_bytes()),
{
    format_of_bytes(input.as_bytes())
}

/// [`str_to_format`] over the token's UTF-8 bytes.
pub fn format_of_bytes(b: &[u8]) -> (r: Option<Format>)
    ensures
        r == spec_str_to_format(b@),
{
    let tok_int8: Vec<u8> = vec![105u8, 110u8, 116u8, 56u8];
    let tok_int16: Vec<u8> = vec![105u8, 110u8, 116u8, 49u8, 54u8];
    let tok_int32: Vec<u8> = vec![105u8, 110u8, 116u8, 51u8, 50u8];
    let tok_int64: Vec<u8> = vec![105u8, 110u8, 116u8, 54u8, 52u8];
    let tok_float32: Vec<u8> = vec![102u8, 108u8, 111u8, 97u8, 116u8, 51u8, 50u8];
    let tok_double64: Vec<u8> = vec![100u8, 111u8, 117u8, 98u8, 108u8, 101u8, 54u8, 52u8];
    let tok_string: Vec<u8> = vec![115u8, 116u8, 114u8, 105u8, 110u8, 103u8];
    if text::bytes_eq(b, tok_int8.as_slice()) {
        Some(Format::Int8)
    } else if text::bytes_eq(b, tok_int16.as_slice()) {
        Some(Format::Int16)
    } else if text::bytes_eq(b, tok_int32.as_slice()) {
        Some(Format::Int32)
    } else if text::bytes_eq(b, tok_int64.as_slice()) {
        Some(Format::Int64)
    } else if text::bytes_eq(b, tok_float32.as_slice()) {
        Some(Format::Float32)
    } else if text::bytes_eq(b, tok_double64.as_slice()) {
        Some(Format::Float64)
    } else if text::bytes_eq(b, tok_string.as_slice()) {
        Some(Format::String)
    } else {
        None
    }
}

/// An XDF file: its version (binary32 bits), its header descriptor, and its
/// streams, in order of each stream id's first StreamHeader.
#[derive(Debug, Clone, PartialEq)]
pub struct XDFFile {
    /// XDF version, as binary32 bits; only 1.0 is defined.
    pub version: u32,
    /// The file-level XML descriptor.
    pub header: xmltree::Element,
    /// The streams of the file.
    pub streams: Vec<streams::Stream>,
}

/// Reading a whole file: frame the bytes into raw chunks, decode each chunk
/// by its tag, group the decoded chunks by stream, and reconstruct every
/// stream.  The result is the file version and the streams' models.
pub open spec fn spec_from_bytes(b: Seq<u8>) -> Result<
    (u32, Seq<streams::StreamV>),
    errors::XDFErrorV,
> {
    match raw_chunks::spec_read_chunks(b) {
        Err(e) => Err(e),
        Ok(raw) => match parsers::spec_decode_chunks(raw) {
            Err(e) => Err(e),
            Ok(chunks) => match streams::spec_group_chunks(chunks) {
                Err(e) => Err(e),
                Ok(p) => match streams::spec_process_streams(p.1) {
                    Err(e) => Err(e),
                    Ok(ss) => Ok((p.0.version, ss)),
                },
            },
        },
    }
}

impl XDFFile {
    /// Parses an XDF file from a byte slice, per [`spec_from_bytes`]:
    /// structural errors on the outermost frame (a missing magic number, an
    /// invalid length prefix or tag, a missing FileHeader) and per-chunk
    /// decoding errors propagate; mid-file truncation and a second
    /// FileHeader are tolerated, yielding the successfully read prefix.
    pub fn from_bytes(bytes: &[u8]) -> (r: Result<XDFFile, XDFError>)
        ensures
            match r {
                Ok(f) => spec_from_bytes(bytes@) == Ok::<
                    (u32, Seq<streams::StreamV>),
                    errors::XDFErrorV,
                >((f.version, f.streams.deep_view())),
                Err(e) => spec_from_bytes(bytes@) == Err::<
                    (u32, Seq<streams::StreamV>),
                    errors::XDFErrorV,
                >(e@),
            },
    {
        let raw = match raw_chunks::read_to_raw_chunks(bytes) {
            Ok(v) => v,
            Err(e) => {
                return Err(e);
            },
        };
        let chunks = match parsers::decode_chunks(&raw) {
            Ok(v) => v,
            Err(e) => {
                return Err(e);
            },
        };
        let (file_header_chunk, grouped_chunks) = match streams::group_chunks(chunks) {
            Ok(p) => p,
            Err(e) => {
                return Err(e);
            },
        };
        let ghost q = streams::spec_group_chunks(
            parsers::spec_decode_chunks(raw_chunks::spec_read_chunks(bytes@)->Ok_0)->Ok_0,
        )->Ok_0;
        let streams_vec = match streams::process_streams(grouped_chunks) {
            Ok(v) => v,
            Err(e) => {
                proof {
                    assert(streams::spec_process_streams(q.1) == streams::spec_process_streams(
                        streams::GroupStateV {
                            file_header: Option::None,
                            headers: q.1.headers,
                            footers: q.1.footers,
                            offsets: q.1.offsets,
                            samples: q.1.samples,
                        },
                    ));
                }
                return Err(e);
            },
        };
        proof {
            assert(streams::spec_process_streams(q.1) == streams::spec_process_streams(
                streams::GroupStateV {
                    file_header: Option::None,
                    headers: q.1.headers,
                    footers: q.1.footers,
                    offsets: q.1.offsets,
                    samples: q.1.samples,
                },
            ));
        }
        Ok(
            XDFFile {
                version: file_header_chunk.version,
                header: file_header_chunk.xml,
                streams: streams_vec,
            },
        )
    }
}

} // verus!
