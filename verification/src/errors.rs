//! The error taxonomy of the reader.

use vstd::prelude::*;

verus! {

/// Everything that can go wrong while reading an XDF file.
#[derive(Debug, Clone, PartialEq)]
pub enum XDFError {
    /// The input does not begin with the four magic bytes `XDF:`.
    NoMagicNumber,
    /// A length prefix announced a width other than 1, 4 or 8 bytes.
    InvalidNumCountBytes(u8),
    /// A chunk carried a tag code outside the six defined tags.
    InvalidTag(u16),
    /// No FileHeader chunk was found anywhere in the file.
    MissingFileHeader,
    /// A Samples chunk referred to a stream id with no prior StreamHeader.
    MissingStreamHeader(u32),
    /// A required descriptor field was missing or unparseable; carries the
    /// field's name.
    BadXmlElement(String),
    /// The XML parser rejected a chunk's embedded descriptor.
    ParseChunk,
    /// A per-sample timestamp flag byte was neither 0 nor 8.
    InvalidSample,
    /// A stream's clock offsets were not in non-decreasing collection time
    /// order.
    InvalidClockOffset,
}

/// Mathematical model of an [`XDFError`]; the field name of `BadXmlElement`
/// is taken to its character sequence.
pub enum XDFErrorV {
    NoMagicNumber,
    InvalidNumCountBytes(u8),
    InvalidTag(u16),
    MissingFileHeader,
    MissingStreamHeader(u32),
    BadXmlElement(Seq<char>),
    ParseChunk,
    InvalidSample,
    InvalidClockOffset,
}

impl View for XDFError {
    type V = XDFErrorV;

    open spec fn view(&self) -> XDFErrorV {
        match self {
            XDFError::NoMagicNumber => XDFErrorV::NoMagicNumber,
            XDFError::InvalidNumCountBytes(n) => XDFErrorV::InvalidNumCountBytes(*n),
            XDFError::InvalidTag(t) => XDFErrorV::InvalidTag(*t),
            XDFError::MissingFileHeader => XDFErrorV::MissingFileHeader,
            XDFError::MissingStreamHeader(id) => XDFErrorV::MissingStreamHeader(*id),
            XDFError::BadXmlElement(name) => XDFErrorV::BadXmlElement(name@),
            XDFError::ParseChunk => XDFErrorV::ParseChunk,
            XDFError::InvalidSample => XDFErrorV::InvalidSample,
            XDFError::InvalidClockOffset => XDFErrorV::InvalidClockOffset,
        }
    }
}

impl DeepView for XDFError {
    type V = XDFErrorV;

    open spec fn deep_view(&self) -> XDFErrorV {
        self.view()
    }
}

} // verus!
