//! The typed chunks of an XDF file, and their mathematical models.
//!
//! Each struct carries the decoded content of one chunk kind.  The `xml`
//! fields hold the chunk's descriptor as parsed by the external XML library
//! and are opaque to the verifier; every model (`...V`) therefore omits them
//! and keeps only the fields the reader's logic depends on.

use crate::{Format, Values, ValuesV};
use vstd::prelude::*;

verus! {

/// The six chunk kinds of XDF 1.0, in tag-code order (codes 1 through 6).
#[derive(Debug, Clone, Copy, PartialEq, Eq, Structural)]
pub enum Tag {
    FileHeader,
    StreamHeader,
    Samples,
    ClockOffset,
    Boundary,
    StreamFooter,
}

/// A framed but not yet decoded chunk: its tag and its content bytes.
#[derive(Debug, Clone, PartialEq)]
pub struct RawChunk {
    pub tag: Tag,
    pub content_bytes: Vec<u8>,
}

/// Model of a [`RawChunk`].
pub struct RawChunkV {
    pub tag: Tag,
    pub content_bytes: Seq<u8>,
}

impl View for RawChunk {
    type V = RawChunkV;

    open spec fn view(&self) -> RawChunkV {
        RawChunkV { tag: self.tag, content_bytes: self.content_bytes@ }
    }
}

impl DeepView for RawChunk {
    type V = RawChunkV;

    open spec fn deep_view(&self) -> RawChunkV {
        self.view()
    }
}

/// One sample: an optional timestamp (binary64 bits) and the channel values.
#[derive(Debug, Clone, PartialEq)]
pub struct Sample {
    pub timestamp: Option<u64>,
    pub values: Values,
}

/// Model of a [`Sample`].
pub struct SampleV {
    pub timestamp: Option<u64>,
    pub values: ValuesV,
}

impl View for Sample {
    type V = SampleV;

    open spec fn view(&self) -> SampleV {
        SampleV { timestamp: self.timestamp, values: self.values@ }
    }
}

impl DeepView for Sample {
    type V = SampleV;

    open spec fn deep_view(&self) -> SampleV {
        self.view()
    }
}

/// The decoded FileHeader chunk: the file version (binary32 bits, read from
/// the `version` child of the descriptor) and the descriptor itself.
#[derive(Debug, Clone, PartialEq)]
pub struct FileHeaderChunk {
    pub version: u32,
    pub xml: xmltree::Element,
}

/// Model of a [`FileHeaderChunk`]: the version bits.
pub struct FileHeaderChunkV {
    pub version: u32,
}

impl View for FileHeaderChunk {
    type V = FileHeaderChunkV;

    open spec fn view(&self) -> FileHeaderChunkV {
        FileHeaderChunkV { version: self.version }
    }
}

impl DeepView for FileHeaderChunk {
    type V = FileHeaderChunkV;

    open spec fn deep_view(&self) -> FileHeaderChunkV {
        self.view()
    }
}

/// The fields a StreamHeader's descriptor declares about its stream.
/// `channel_count` and `channel_format` are mandatory; the rest are read
/// opportunistically.  `nominal_srate` is the binary64 bits of the declared
/// rate in Hz.
#[derive(Debug, Clone, PartialEq)]
pub struct StreamHeaderChunkInfo {
    pub name: Option<String>,
    pub stream_type: Option<String>,
    pub channel_count: u32,
    pub nominal_srate: Option<u64>,
    pub channel_format: Format,
}

/// Model of a [`StreamHeaderChunkInfo`].
pub struct StreamHeaderChunkInfoV {
    pub name: Option<Seq<char>>,
    pub stream_type: Option<Seq<char>>,
    pub channel_count: u32,
    pub nominal_srate: Option<u64>,
    pub channel_format: Format,
}

impl View for StreamHeaderChunkInfo {
    type V = StreamHeaderChunkInfoV;

    open spec fn view(&self) -> StreamHeaderChunkInfoV {
        StreamHeaderChunkInfoV {
            name: self.name.deep_view(),
            stream_type: self.stream_type.deep_view(),
            channel_count: self.channel_count,
            nominal_srate: self.nominal_srate,
            channel_format: self.channel_format,
        }
    }
}

impl DeepView for StreamHeaderChunkInfo {
    type V = StreamHeaderChunkInfoV;

    open spec fn deep_view(&self) -> StreamHeaderChunkInfoV {
        self.view()
    }
}

/// The decoded StreamHeader chunk.
#[derive(Debug, Clone, PartialEq)]
pub struct StreamHeaderChunk {
    pub stream_id: u32,
    pub info: StreamHeaderChunkInfo,
    pub xml: xmltree::Element,
}

/// Model of a [`StreamHeaderChunk`].
pub struct StreamHeaderChunkV {
    pub stream_id: u32,
    pub info: StreamHeaderChunkInfoV,
}

impl View for StreamHeaderChunk {
    type V = StreamHeaderChunkV;

    open spec fn view(&self) -> StreamHeaderChunkV {
        StreamHeaderChunkV { stream_id: self.stream_id, info: self.info@ }
    }
}

impl DeepView for StreamHeaderChunk {
    type V = StreamHeaderChunkV;

    open spec fn deep_view(&self) -> StreamHeaderChunkV {
        self.view()
    }
}

/// The decoded StreamFooter chunk: its stream id and the verbatim descriptor.
#[derive(Debug, Clone, PartialEq)]
pub struct StreamFooterChunk {
    pub stream_id: u32,
    pub xml: xmltree::Element,
}

/// Model of a [`StreamFooterChunk`]: the stream id.
pub struct StreamFooterChunkV {
    pub stream_id: u32,
}

impl View for StreamFooterChunk {
    type V = StreamFooterChunkV;

    open spec fn view(&self) -> StreamFooterChunkV {
        StreamFooterChunkV { stream_id: self.stream_id }
    }
}

impl DeepView for StreamFooterChunk {
    type V = StreamFooterChunkV;

    open spec fn deep_view(&self) -> StreamFooterChunkV {
        self.view()
    }
}

/// The decoded Samples chunk: its stream id and the samples in arrival order.
#[derive(Debug, Clone, PartialEq)]
pub struct SamplesChunk {
    pub stream_id: u32,
    pub samples: Vec<Sample>,
}

/// Model of a [`SamplesChunk`].
pub struct SamplesChunkV {
    pub stream_id: u32,
    pub samples: Seq<SampleV>,
}

impl View for SamplesChunk {
    type V = SamplesChunkV;

    open spec fn view(&self) -> SamplesChunkV {
        SamplesChunkV { stream_id: self.stream_id, samples: self.samples.deep_view() }
    }
}

impl DeepView for SamplesChunk {
    type V = SamplesChunkV;

    open spec fn deep_view(&self) -> SamplesChunkV {
        self.view()
    }
}

/// The decoded ClockOffset chunk: one observation of a stream's clock offset,
/// both times as binary64 bits.
#[derive(Debug, Clone, Copy, PartialEq, Eq, Structural)]
pub struct ClockOffsetChunk {
    pub stream_id: u32,
    pub collection_time: u64,
    pub offset_value: u64,
}

impl View for ClockOffsetChunk {
    type V = ClockOffsetChunk;

    open spec fn view(&self) -> ClockOffsetChunk {
        *self
    }
}

impl DeepView for ClockOffsetChunk {
    type V = ClockOffsetChunk;

    open spec fn deep_view(&self) -> ClockOffsetChunk {
        *self
    }
}

/// The Boundary chunk: a delimiter with no content; readers discard it.
#[derive(Debug, Clone, Copy, PartialEq, Eq, Structural)]
pub struct BoundaryChunk {}

/// A decoded chunk of any kind.
#[derive(Debug, Clone, PartialEq)]
pub enum Chunk {
    FileHeader(FileHeaderChunk),
    StreamHeader(StreamHeaderChunk),
    StreamFooter(StreamFooterChunk),
    Samples(SamplesChunk),
    ClockOffset(ClockOffsetChunk),
    Boundary(BoundaryChunk),
}

/// Model of a [`Chunk`].
pub enum ChunkV {
    FileHeader(FileHeaderChunkV),
    StreamHeader(StreamHeaderChunkV),
    StreamFooter(StreamFooterChunkV),
    Samples(SamplesChunkV),
    ClockOffset(ClockOffsetChunk),
    Boundary,
}

impl View for Chunk {
    type V = ChunkV;

    open spec fn view(&self) -> ChunkV {
        match self {
            Chunk::FileHeader(c) => ChunkV::FileHeader(c@),
            Chunk::StreamHeader(c) => ChunkV::StreamHeader(c@),
            Chunk::StreamFooter(c) => ChunkV::StreamFooter(c@),
            Chunk::Samples(c) => ChunkV::Samples(c@),
            Chunk::ClockOffset(c) => ChunkV::ClockOffset(*c),
            Chunk::Boundary(_) => ChunkV::Boundary,
        }
    }
}

impl DeepView for Chunk {
    type V = ChunkV;

    open spec fn deep_view(&self) -> ChunkV {
        self.view()
    }
}

} // verus!
