//! The tag-specific chunk decoders.
//!
//! Each decoder consumes one raw chunk's content bytes and yields a typed
//! chunk.  Samples decoding is parameterized by the target stream's declared
//! channel format and channel count, looked up in the side table the
//! StreamHeader decoder fills.  Every decoder is verified against a spec
//! function over the content bytes (and, for samples, the side table's map).

use crate::assoc::{assoc_find, assoc_push, map_of};
use crate::bytes::{le_u16_at, le_u32_at, le_u64_at, le_uint_at, read_le_u16, read_le_u32,
    read_le_u64, read_le_uint};
use crate::chunk_structs::{Chunk, ChunkV, ClockOffsetChunk, FileHeaderChunk, FileHeaderChunkV,
    RawChunk, RawChunkV,
    Sample, SampleV, SamplesChunk, SamplesChunkV, StreamFooterChunk, StreamFooterChunkV,
    StreamHeaderChunk, StreamHeaderChunkInfo, StreamHeaderChunkInfoV, StreamHeaderChunkV, Tag};
use crate::errors::{XDFError, XDFErrorV};
use crate::fp::{spec_fp32_of_dec, spec_fp64_of_dec, fp32_of_dec, fp64_of_dec};
use crate::text::{spec_ascii_lower, spec_parse_u32, ascii_lower_bytes, parse_u32,
    string_from_utf8, utf8_chars};
use crate::xml::{child_text, parse_xml, xml_child_text, xml_parses};
use crate::{format_of_bytes, format_width, spec_format_width, spec_str_to_format, Format, Values,
    ValuesV};
use vstd::prelude::*;
use vstd::slice::{slice_subrange, slice_to_vec};
use vstd::utf8::{encode_utf8, valid_utf8};

verus! {

/// Decoding a FileHeader chunk: the content is XML; the `version` child's
/// text, read as a binary32 number, is the file version.
pub open spec fn spec_parse_file_header(c: Seq<u8>) -> Result<u32, XDFErrorV> {
    if !xml_parses(c) {
        Err(XDFErrorV::ParseChunk)
    } else {
        match xml_child_text(c, "version"@) {
            Option::None => Err(XDFErrorV::BadXmlElement("version"@)),
            Option::Some(s) => match spec_fp32_of_dec(s) {
                Option::None => Err(XDFErrorV::BadXmlElement("version"@)),
                Option::Some(v) => Ok(v),
            },
        }
    }
}

/// Decodes a FileHeader chunk, per [`spec_parse_file_header`]: `ParseChunk`
/// when the XML is rejected, `BadXmlElement("version")` when the version
/// field is missing or unparseable.
pub fn parse_file_header(raw: &RawChunk) -> (r: Result<FileHeaderChunk, XDFError>)
    ensures
        match r {
            Ok(fh) => spec_parse_file_header(raw@.content_bytes) == Ok::<u32, XDFErrorV>(
                fh.version,
            ),
            Err(e) => spec_parse_file_header(raw@.content_bytes) == Err::<u32, XDFErrorV>(e@),
        },
{
    let content = raw.content_bytes.as_slice();
    let root = match parse_xml(content) {
        Ok(root) => root,
        Err(_) => {
            return Err(XDFError::ParseChunk);
        },
    };
    let version = match child_text(content, "version") {
        Option::Some(s) => match fp32_of_dec(s.as_str()) {
            Option::Some(v) => v,
            Option::None => {
                return Err(XDFError::BadXmlElement("version".to_owned()));
            },
        },
        Option::None => {
            return Err(XDFError::BadXmlElement("version".to_owned()));
        },
    };
    Ok(FileHeaderChunk { version, xml: root })
}

/// Decoding a StreamHeader chunk: four bytes of stream id, then XML.
/// `channel_count` and `channel_format` are required (`channel_format` is
/// matched case-insensitively); `nominal_srate`, `name` and `type` are
/// optional.
pub open spec fn spec_parse_stream_header(c: Seq<u8>) -> Result<StreamHeaderChunkV, XDFErrorV> {
    if c.len() < 4 {
        Err(XDFErrorV::ParseChunk)
    } else {
        let id = le_u32_at(c, 0);
        let x = c.subrange(4, c.len() as int);
        if !xml_parses(x) {
            Err(XDFErrorV::ParseChunk)
        } else {
            match xml_child_text(x, "channel_count"@) {
                Option::None => Err(XDFErrorV::BadXmlElement("channel_count"@)),
                Option::Some(cc_text) => match spec_parse_u32(encode_utf8(cc_text)) {
                    Option::None => Err(XDFErrorV::BadXmlElement("channel_count"@)),
                    Option::Some(cc) => match xml_child_text(x, "channel_format"@) {
                        Option::None => Err(XDFErrorV::BadXmlElement("channel_format"@)),
                        Option::Some(fmt_text) => match spec_str_to_format(
                            spec_ascii_lower(encode_utf8(fmt_text)),
                        ) {
                            Option::None => Err(XDFErrorV::BadXmlElement("channel_format"@)),
                            Option::Some(fmt) => Ok(
                                StreamHeaderChunkV {
                                    stream_id: id,
                                    info: StreamHeaderChunkInfoV {
                                        name: xml_child_text(x, "name"@),
                                        stream_type: xml_child_text(x, "type"@),
                                        channel_count: cc,
                                        nominal_srate: match xml_child_text(
                                            x,
                                            "nominal_srate"@,
                                        ) {
                                            Option::None => Option::None,
                                            Option::Some(s) => spec_fp64_of_dec(s),
                                        },
                                        channel_format: fmt,
                                    },
                                },
                            ),
                        },
                    },
                },
            }
        }
    }
}

/// Decodes a StreamHeader chunk, per [`spec_parse_stream_header`], and
/// records the stream's declared info in the side table the Samples decoder
/// reads.
pub fn parse_stream_header(
    raw: &RawChunk,
    stream_info_map: &mut Vec<(u32, StreamHeaderChunkInfo)>,
) -> (r: Result<StreamHeaderChunk, XDFError>)
    ensures
        match r {
            Ok(h) => spec_parse_stream_header(raw@.content_bytes) == Ok::<
                StreamHeaderChunkV,
                XDFErrorV,
            >(h@) && (*final(stream_info_map)).deep_view() == (*old(
                stream_info_map,
            )).deep_view().push((h.stream_id, h.info@)),
            Err(e) => spec_parse_stream_header(raw@.content_bytes) == Err::<
                StreamHeaderChunkV,
                XDFErrorV,
            >(e@) && *final(stream_info_map) == *old(stream_info_map),
        },
{
    let content = raw.content_bytes.as_slice();
    if content.len() < 4 {
        return Err(XDFError::ParseChunk);
    }
    let stream_id = read_le_u32(content, 0);
    let xml_bytes = slice_subrange(content, 4, content.len());
    let root = match parse_xml(xml_bytes) {
        Ok(root) => root,
        Err(_) => {
            return Err(XDFError::ParseChunk);
        },
    };
    let channel_count = match child_text(xml_bytes, "channel_count") {
        Option::Some(s) => match parse_u32(s.as_str()) {
            Option::Some(n) => n,
            Option::None => {
                return Err(XDFError::BadXmlElement("channel_count".to_owned()));
            },
        },
        Option::None => {
            return Err(XDFError::BadXmlElement("channel_count".to_owned()));
        },
    };
    let channel_format = match child_text(xml_bytes, "channel_format") {
        Option::Some(s) => {
            let lowered = ascii_lower_bytes(s.as_str());
            match format_of_bytes(lowered.as_slice()) {
                Option::Some(f) => f,
                Option::None => {
                    return Err(XDFError::BadXmlElement("channel_format".to_owned()));
                },
            }
        },
        Option::None => {
            return Err(XDFError::BadXmlElement("channel_format".to_owned()));
        },
    };
    let nominal_srate = match child_text(xml_bytes, "nominal_srate") {
        Option::Some(s) => fp64_of_dec(s.as_str()),
        Option::None => Option::None,
    };
    let name = child_text(xml_bytes, "name");
    let stream_type = child_text(xml_bytes, "type");
    let info = StreamHeaderChunkInfo {
        name,
        stream_type,
        channel_count,
        nominal_srate,
        channel_format,
    };
    assoc_push(stream_info_map, stream_id, clone_info(&info));
    Ok(StreamHeaderChunk { stream_id, info, xml: root })
}

/// Copies an optional string.
fn clone_opt_string(o: &Option<String>) -> (r: Option<String>)
    ensures
        r.deep_view() == o.deep_view(),
{
    match o {
        Option::Some(s) => Option::Some(s.clone()),
        Option::None => Option::None,
    }
}

/// Copies a stream's declared info.
fn clone_info(i: &StreamHeaderChunkInfo) -> (r: StreamHeaderChunkInfo)
    ensures
        r@ == i@,
{
    StreamHeaderChunkInfo {
        name: clone_opt_string(&i.name),
        stream_type: clone_opt_string(&i.stream_type),
        channel_count: i.channel_count,
        nominal_srate: i.nominal_srate,
        channel_format: i.channel_format,
    }
}

/// Decoding a StreamFooter chunk: four bytes of stream id, then XML, kept
/// verbatim.
pub open spec fn spec_parse_stream_footer(c: Seq<u8>) -> Result<StreamFooterChunkV, XDFErrorV> {
    if c.len() < 4 {
        Err(XDFErrorV::ParseChunk)
    } else if !xml_parses(c.subrange(4, c.len() as int)) {
        Err(XDFErrorV::ParseChunk)
    } else {
        Ok(StreamFooterChunkV { stream_id: le_u32_at(c, 0) })
    }
}

/// Decodes a StreamFooter chunk, per [`spec_parse_stream_footer`].
pub fn parse_stream_footer(raw: &RawChunk) -> (r: Result<StreamFooterChunk, XDFError>)
    ensures
        match r {
            Ok(f) => spec_parse_stream_footer(raw@.content_bytes) == Ok::<
                StreamFooterChunkV,
                XDFErrorV,
            >(f@),
            Err(e) => spec_parse_stream_footer(raw@.content_bytes) == Err::<
                StreamFooterChunkV,
                XDFErrorV,
            >(e@),
        },
{
    let content = raw.content_bytes.as_slice();
    if content.len() < 4 {
        return Err(XDFError::ParseChunk);
    }
    let stream_id = read_le_u32(content, 0);
    let xml_bytes = slice_subrange(content, 4, content.len());
    match parse_xml(xml_bytes) {
        Ok(root) => Ok(StreamFooterChunk { stream_id, xml: root }),
        Err(_) => Err(XDFError::ParseChunk),
    }
}

/// The `k` fixed-width little-endian elements at `off`, per format.
pub open spec fn spec_fixed_values(c: Seq<u8>, off: int, fmt: Format, k: int) -> ValuesV {
    match fmt {
        Format::Int8 => ValuesV::Int8(Seq::new(k as nat, |j: int| c[off + j] as i8)),
        Format::Int16 => ValuesV::Int16(
            Seq::new(k as nat, |j: int| le_u16_at(c, off + 2 * j) as i16),
        ),
        Format::Int32 => ValuesV::Int32(
            Seq::new(k as nat, |j: int| le_u32_at(c, off + 4 * j) as i32),
        ),
        Format::Int64 => ValuesV::Int64(
            Seq::new(k as nat, |j: int| le_u64_at(c, off + 8 * j) as i64),
        ),
        Format::Float32 => ValuesV::Float32(Seq::new(k as nat, |j: int| le_u32_at(c, off + 4 * j))),
        Format::Float64 => ValuesV::Float64(Seq::new(k as nat, |j: int| le_u64_at(c, off + 8 * j))),
        Format::String => ValuesV::String(Seq::empty()),
    }
}

/// Decodes the `k` elements of one sample's values block, for a fixed-size
/// format.
fn decode_fixed_values(c: &[u8], off: usize, fmt: Format, k: u32) -> (r: Values)
    requires
        spec_format_width(fmt) matches Some(w) && off + w * k <= c@.len(),
    ensures
        r@ == spec_fixed_values(c@, off as int, fmt, k as int),
{
    proof {
        assert(c.len() == c@.len());
    }
    match fmt {
        Format::Int8 => {
            let mut v: Vec<i8> = Vec::new();
            let mut j: usize = 0;
            while j < k as usize
                invariant
                    j <= k,
                    off + 1 * k <= c@.len(),
                    c@.len() <= usize::MAX,
                    v@ == Seq::new(j as nat, |i: int| c@[off + i] as i8),
                decreases k - j,
            {
                v.push(#[verifier::truncate] (c[off + j] as i8));
                j = j + 1;
                proof {
                    assert(v@ =~= Seq::new(j as nat, |i: int| c@[off + i] as i8));
                }
            }
            Values::Int8(v)
        },
        Format::Int16 => {
            let mut v: Vec<i16> = Vec::new();
            let mut j: usize = 0;
            while j < k as usize
                invariant
                    j <= k,
                    off + 2 * k <= c@.len(),
                    c@.len() <= usize::MAX,
                    v@ == Seq::new(j as nat, |i: int| le_u16_at(c@, off + 2 * i) as i16),
                decreases k - j,
            {
                v.push(#[verifier::truncate] (read_le_u16(c, off + 2 * j) as i16));
                j = j + 1;
                proof {
                    assert(v@ =~= Seq::new(j as nat, |i: int| le_u16_at(c@, off + 2 * i) as i16));
                }
            }
            Values::Int16(v)
        },
        Format::Int32 => {
            let mut v: Vec<i32> = Vec::new();
            let mut j: usize = 0;
            while j < k as usize
                invariant
                    j <= k,
                    off + 4 * k <= c@.len(),
                    c@.len() <= usize::MAX,
                    v@ == Seq::new(j as nat, |i: int| le_u32_at(c@, off + 4 * i) as i32),
                decreases k - j,
            {
                v.push(#[verifier::truncate] (read_le_u32(c, off + 4 * j) as i32));
                j = j + 1;
                proof {
                    assert(v@ =~= Seq::new(j as nat, |i: int| le_u32_at(c@, off + 4 * i) as i32));
                }
            }
            Values::Int32(v)
        },
        Format::Int64 => {
            let mut v: Vec<i64> = Vec::new();
            let mut j: usize = 0;
            while j < k as usize
                invariant
                    j <= k,
                    off + 8 * k <= c@.len(),
                    c@.len() <= usize::MAX,
                    v@ == Seq::new(j as nat, |i: int| le_u64_at(c@, off + 8 * i) as i64),
                decreases k - j,
            {
                v.push(#[verifier::truncate] (read_le_u64(c, off + 8 * j) as i64));
                j = j + 1;
                proof {
                    assert(v@ =~= Seq::new(j as nat, |i: int| le_u64_at(c@, off + 8 * i) as i64));
                }
            }
            Values::Int64(v)
        },
        Format::Float32 => {
            let mut v: Vec<u32> = Vec::new();
            let mut j: usize = 0;
            while j < k as usize
                invariant
                    j <= k,
                    off + 4 * k <= c@.len(),
                    c@.len() <= usize::MAX,
                    v@ == Seq::new(j as nat, |i: int| le_u32_at(c@, off + 4 * i)),
                decreases k - j,
            {
                v.push(read_le_u32(c, off + 4 * j));
                j = j + 1;
                proof {
                    assert(v@ =~= Seq::new(j as nat, |i: int| le_u32_at(c@, off + 4 * i)));
                }
            }
            Values::Float32(v)
        },
        Format::Float64 => {
            let mut v: Vec<u64> = Vec::new();
            let mut j: usize = 0;
            while j < k as usize
                invariant
                    j <= k,
                    off + 8 * k <= c@.len(),
                    c@.len() <= usize::MAX,
                    v@ == Seq::new(j as nat, |i: int| le_u64_at(c@, off + 8 * i)),
                decreases k - j,
            {
                v.push(read_le_u64(c, off + 8 * j));
                j = j + 1;
                proof {
                    assert(v@ =~= Seq::new(j as nat, |i: int| le_u64_at(c@, off + 8 * i)));
                }
            }
            Values::Float64(v)
        },
        Format::String => Values::String(String::new()),
    }
}

/// Prepends already-decoded samples to the outcome of decoding the rest.
pub open spec fn prepend_records(s: Seq<SampleV>, r: Result<Seq<SampleV>, XDFErrorV>) -> Result<
    Seq<SampleV>,
    XDFErrorV,
> {
    match r {
        Ok(t) => Ok(s + t),
        Err(e) => Err(e),
    }
}

/// Decodes up to `remaining` sample records at `off`: a timestamp flag byte
/// (0: none, 8: a binary64 timestamp follows; anything else is
/// `InvalidSample`), then the values block.  Content that runs out
/// mid-record ends decoding with the samples read so far; so does a string
/// sample whose bytes are not valid UTF-8.
pub open spec fn spec_decode_records(
    c: Seq<u8>,
    off: int,
    remaining: nat,
    fmt: Format,
    k: u32,
) -> Result<Seq<SampleV>, XDFErrorV>
    decreases remaining,
{
    if remaining == 0 {
        Ok(Seq::empty())
    } else if off + 1 > c.len() {
        Ok(Seq::empty())
    } else {
        let flag = c[off];
        if flag != 0 && flag != 8 {
            Err(XDFErrorV::InvalidSample)
        } else if flag == 8 && off + 9 > c.len() {
            Ok(Seq::empty())
        } else {
            let ts: Option<u64> = if flag == 8 {
                Option::Some(le_u64_at(c, off + 1))
            } else {
                Option::None
            };
            let off2 = if flag == 8 {
                off + 9
            } else {
                off + 1
            };
            match spec_format_width(fmt) {
                Option::Some(w) => {
                    if off2 + (w as int) * (k as int) > c.len() {
                        Ok(Seq::empty())
                    } else {
                        let sample = SampleV {
                            timestamp: ts,
                            values: spec_fixed_values(c, off2, fmt, k as int),
                        };
                        prepend_records(
                            seq![sample],
                            spec_decode_records(
                                c,
                                off2 + (w as int) * (k as int),
                                (remaining - 1) as nat,
                                fmt,
                                k,
                            ),
                        )
                    }
                },
                Option::None => {
                    if off2 + 1 > c.len() {
                        Ok(Seq::empty())
                    } else {
                        let sncb = c[off2];
                        if !(sncb == 1 || sncb == 4 || sncb == 8) {
                            Err(XDFErrorV::InvalidNumCountBytes(sncb))
                        } else if off2 + 1 + sncb > c.len() {
                            Ok(Seq::empty())
                        } else {
                            let slen = le_uint_at(c, off2 + 1, sncb as int) as int;
                            let off3 = off2 + 1 + sncb;
                            if off3 + slen > c.len() {
                                Ok(Seq::empty())
                            } else if !valid_utf8(c.subrange(off3, off3 + slen)) {
                                Ok(Seq::empty())
                            } else {
                                let sample = SampleV {
                                    timestamp: ts,
                                    values: ValuesV::String(
                                        utf8_chars(c.subrange(off3, off3 + slen)),
                                    ),
                                };
                                prepend_records(
                                    seq![sample],
                                    spec_decode_records(
                                        c,
                                        off3 + slen,
                                        (remaining - 1) as nat,
                                        fmt,
                                        k,
                                    ),
                                )
                            }
                        }
                    }
                },
            }
        }
    }
}

/// Decoding a Samples chunk: stream id, the sample-count width and count,
/// then the records per [`spec_decode_records`], decoded with the channel
/// format and count the referenced stream's header declared.  A stream id
/// with no recorded header is `MissingStreamHeader`.
pub open spec fn spec_parse_samples(
    c: Seq<u8>,
    infos: Map<u32, StreamHeaderChunkInfoV>,
) -> Result<SamplesChunkV, XDFErrorV> {
    if c.len() < 5 {
        Err(XDFErrorV::ParseChunk)
    } else {
        let id = le_u32_at(c, 0);
        let ncb = c[4];
        if !(ncb == 1 || ncb == 4 || ncb == 8) {
            Err(XDFErrorV::InvalidNumCountBytes(ncb))
        } else if !infos.contains_key(id) {
            Err(XDFErrorV::MissingStreamHeader(id))
        } else if 5 + ncb > c.len() {
            Ok(SamplesChunkV { stream_id: id, samples: Seq::empty() })
        } else {
            let count = le_uint_at(c, 5, ncb as int);
            let info = infos[id];
            match spec_decode_records(
                c,
                5 + ncb as int,
                count as nat,
                info.channel_format,
                info.channel_count,
            ) {
                Ok(samples) => Ok(SamplesChunkV { stream_id: id, samples }),
                Err(e) => Err(e),
            }
        }
    }
}

/// Decodes a Samples chunk, per [`spec_parse_samples`].
#[verifier::rlimit(100)]
pub fn parse_samples(
    raw: &RawChunk,
    stream_info_map: &Vec<(u32, StreamHeaderChunkInfo)>,
) -> (r: Result<SamplesChunk, XDFError>)
    ensures
        match r {
            Ok(sc) => spec_parse_samples(
                raw@.content_bytes,
                map_of(stream_info_map.deep_view()),
            ) == Ok::<SamplesChunkV, XDFErrorV>(sc@),
            Err(e) => spec_parse_samples(
                raw@.content_bytes,
                map_of(stream_info_map.deep_view()),
            ) == Err::<SamplesChunkV, XDFErrorV>(e@),
        },
{
    let ghost infos = map_of(stream_info_map.deep_view());
    let c = raw.content_bytes.as_slice();
    if c.len() < 5 {
        return Err(XDFError::ParseChunk);
    }
    let stream_id = read_le_u32(c, 0);
    let ncb = c[4];
    if !(ncb == 1 || ncb == 4 || ncb == 8) {
        return Err(XDFError::InvalidNumCountBytes(ncb));
    }
    let info = match assoc_find(stream_info_map, stream_id) {
        Option::Some(info) => info,
        Option::None => {
            return Err(XDFError::MissingStreamHeader(stream_id));
        },
    };
    if ncb as usize > c.len() - 5 {
        let empty: Vec<Sample> = Vec::new();
        proof {
            assert(empty.deep_view() =~= Seq::<SampleV>::empty());
        }
        return Ok(SamplesChunk { stream_id, samples: empty });
    }
    let count: u64 = read_le_uint(c, 5, ncb);
    let fmt = info.channel_format;
    let k = info.channel_count;
    let start: usize = 5 + ncb as usize;
    let ghost cv = c@;
    let mut samples: Vec<Sample> = Vec::new();
    let mut off: usize = start;
    let mut done: u64 = 0;
    proof {
        assert(samples.deep_view() =~= Seq::<SampleV>::empty());
        assert(Seq::<SampleV>::empty() + spec_decode_records(
            cv,
            start as int,
            count as nat,
            fmt,
            k,
        )->Ok_0 =~= spec_decode_records(cv, start as int, count as nat, fmt, k)->Ok_0);
    }
    while done < count
        invariant
            cv == raw@.content_bytes,
            cv == c@,
            cv.len() >= 5,
            stream_id == le_u32_at(cv, 0),
            ncb == cv[4],
            ncb == 1 || ncb == 4 || ncb == 8,
            infos == map_of(stream_info_map.deep_view()),
            infos.contains_key(stream_id),
            infos[stream_id].channel_format == fmt,
            infos[stream_id].channel_count == k,
            start == 5 + ncb as int,
            start <= cv.len(),
            count == le_uint_at(cv, 5, ncb as int),
            done <= count,
            start <= off <= cv.len(),
            prepend_records(
                samples.deep_view(),
                spec_decode_records(cv, off as int, (count - done) as nat, fmt, k),
            ) == spec_decode_records(cv, start as int, count as nat, fmt, k),
        decreases count - done,
    {
        let ghost prev = samples.deep_view();
        let ghost rem = (count - done) as nat;
        let ghost off0 = off as int;
        if off >= c.len() {
            proof {
                assert(prev + Seq::<SampleV>::empty() =~= prev);
            }
            return Ok(SamplesChunk { stream_id, samples });
        }
        let flag = c[off];
        if flag != 0 && flag != 8 {
            return Err(XDFError::InvalidSample);
        }
        let (ts, off2): (Option<u64>, usize) = if flag == 8 {
            if 8 > c.len() - (off + 1) {
                proof {
                    assert(prev + Seq::<SampleV>::empty() =~= prev);
                }
                return Ok(SamplesChunk { stream_id, samples });
            }
            (Option::Some(read_le_u64(c, off + 1)), off + 9)
        } else {
            (Option::None, off + 1)
        };
        match format_width(fmt) {
            Option::Some(w) => {
                proof {
                    assert(w <= 8);
                    assert((w as int) * (k as int) <= 8 * (u32::MAX as int)) by (nonlinear_arith)
                        requires
                            w <= 8,
                            0 <= k as int <= u32::MAX as int,
                    ;
                }
                let need: u64 = (w as u64) * (k as u64);
                if need > (c.len() - off2) as u64 {
                    proof {
                        assert(prev + Seq::<SampleV>::empty() =~= prev);
                    }
                    return Ok(SamplesChunk { stream_id, samples });
                }
                let values = decode_fixed_values(c, off2, fmt, k);
                let sample = Sample { timestamp: ts, values };
                let ghost sample_v = sample@;
                samples.push(sample);
                done = done + 1;
                off = off2 + need as usize;
                proof {
                    assert(samples.deep_view() =~= prev.push(sample_v));
                    let rest = spec_decode_records(cv, off as int, (count - done) as nat, fmt, k);
                    assert(spec_decode_records(cv, off0, rem, fmt, k) == prepend_records(
                        seq![sample_v],
                        rest,
                    ));
                    match rest {
                        Ok(t) => {
                            assert(prev + (seq![sample_v] + t) =~= prev.push(sample_v) + t);
                        },
                        Err(_) => {
                        },
                    }
                }
            },
            Option::None => {
                if off2 >= c.len() {
                    proof {
                        assert(prev + Seq::<SampleV>::empty() =~= prev);
                    }
                    return Ok(SamplesChunk { stream_id, samples });
                }
                let sncb = c[off2];
                if !(sncb == 1 || sncb == 4 || sncb == 8) {
                    return Err(XDFError::InvalidNumCountBytes(sncb));
                }
                if sncb as usize > c.len() - (off2 + 1) {
                    proof {
                        assert(prev + Seq::<SampleV>::empty() =~= prev);
                    }
                    return Ok(SamplesChunk { stream_id, samples });
                }
                let slen: u64 = read_le_uint(c, off2 + 1, sncb);
                let off3: usize = off2 + 1 + sncb as usize;
                if slen > (c.len() - off3) as u64 {
                    proof {
                        assert(prev + Seq::<SampleV>::empty() =~= prev);
                    }
                    return Ok(SamplesChunk { stream_id, samples });
                }
                let sbytes: Vec<u8> = slice_to_vec(
                    slice_subrange(c, off3, off3 + slen as usize),
                );
                let s = match string_from_utf8(sbytes) {
                    Option::Some(s) => s,
                    Option::None => {
                        proof {
                            assert(prev + Seq::<SampleV>::empty() =~= prev);
                        }
                        return Ok(SamplesChunk { stream_id, samples });
                    },
                };
                let sample = Sample { timestamp: ts, values: Values::String(s) };
                let ghost sample_v = sample@;
                samples.push(sample);
                done = done + 1;
                off = off3 + slen as usize;
                proof {
                    assert(samples.deep_view() =~= prev.push(sample_v));
                    let rest = spec_decode_records(cv, off as int, (count - done) as nat, fmt, k);
                    match rest {
                        Ok(t) => {
                            assert(prev + (seq![sample_v] + t) =~= prev.push(sample_v) + t);
                        },
                        Err(_) => {
                        },
                    }
                }
            },
        }
    }
    proof {
        assert(samples.deep_view() + Seq::<SampleV>::empty() =~= samples.deep_view());
    }
    Ok(SamplesChunk { stream_id, samples })
}

/// Decoding a ClockOffset chunk: stream id, collection time and offset value
/// (both binary64).  A chunk with fewer than 20 content bytes is discarded.
pub open spec fn spec_parse_clock_offset(c: Seq<u8>) -> Option<ClockOffsetChunk> {
    if c.len() < 20 {
        Option::None
    } else {
        Option::Some(
            ClockOffsetChunk {
                stream_id: le_u32_at(c, 0),
                collection_time: le_u64_at(c, 4),
                offset_value: le_u64_at(c, 12),
            },
        )
    }
}

/// Decodes a ClockOffset chunk, per [`spec_parse_clock_offset`].
pub fn parse_clock_offset(raw: &RawChunk) -> (r: Option<ClockOffsetChunk>)
    ensures
        r == spec_parse_clock_offset(raw@.content_bytes),
{
    let content = raw.content_bytes.as_slice();
    if content.len() < 20 {
        return Option::None;
    }
    Option::Some(
        ClockOffsetChunk {
            stream_id: read_le_u32(content, 0),
            collection_time: read_le_u64(content, 4),
            offset_value: read_le_u64(content, 12),
        },
    )
}

/// State of the decode pass: the stream-info side table and the chunks
/// decoded so far.
pub struct DecodeStateV {
    pub infos: Map<u32, StreamHeaderChunkInfoV>,
    pub chunks: Seq<ChunkV>,
}

/// Decodes one raw chunk by its tag, threading the side table: a
/// StreamHeader also records its stream's info; a short ClockOffset chunk
/// and every Boundary chunk leave only a marker or nothing.
pub open spec fn spec_decode_step(st: DecodeStateV, rc: RawChunkV) -> Result<
    DecodeStateV,
    XDFErrorV,
> {
    match rc.tag {
        Tag::FileHeader => match spec_parse_file_header(rc.content_bytes) {
            Ok(v) => Ok(
                DecodeStateV {
                    infos: st.infos,
                    chunks: st.chunks.push(ChunkV::FileHeader(FileHeaderChunkV { version: v })),
                },
            ),
            Err(e) => Err(e),
        },
        Tag::StreamHeader => match spec_parse_stream_header(rc.content_bytes) {
            Ok(h) => Ok(
                DecodeStateV {
                    infos: st.infos.insert(h.stream_id, h.info),
                    chunks: st.chunks.push(ChunkV::StreamHeader(h)),
                },
            ),
            Err(e) => Err(e),
        },
        Tag::StreamFooter => match spec_parse_stream_footer(rc.content_bytes) {
            Ok(f) => Ok(
                DecodeStateV { infos: st.infos, chunks: st.chunks.push(ChunkV::StreamFooter(f)) },
            ),
            Err(e) => Err(e),
        },
        Tag::Samples => match spec_parse_samples(rc.content_bytes, st.infos) {
            Ok(sc) => Ok(
                DecodeStateV { infos: st.infos, chunks: st.chunks.push(ChunkV::Samples(sc)) },
            ),
            Err(e) => Err(e),
        },
        Tag::ClockOffset => match spec_parse_clock_offset(rc.content_bytes) {
            Option::Some(co) => Ok(
                DecodeStateV { infos: st.infos, chunks: st.chunks.push(ChunkV::ClockOffset(co)) },
            ),
            Option::None => Ok(st),
        },
        Tag::Boundary => Ok(
            DecodeStateV { infos: st.infos, chunks: st.chunks.push(ChunkV::Boundary) },
        ),
    }
}

/// Folds [`spec_decode_step`] over the raw chunks.
pub open spec fn spec_decode_fold(cs: Seq<RawChunkV>, st: DecodeStateV) -> Result<
    Seq<ChunkV>,
    XDFErrorV,
>
    decreases cs.len(),
{
    if cs.len() == 0 {
        Ok(st.chunks)
    } else {
        match spec_decode_step(st, cs[0]) {
            Ok(st2) => spec_decode_fold(cs.drop_first(), st2),
            Err(e) => Err(e),
        }
    }
}

/// Decoding a whole raw-chunk sequence, starting from an empty side table.
pub open spec fn spec_decode_chunks(cs: Seq<RawChunkV>) -> Result<Seq<ChunkV>, XDFErrorV> {
    spec_decode_fold(cs, DecodeStateV { infos: Map::empty(), chunks: Seq::empty() })
}

/// Decodes every raw chunk in order, per [`spec_decode_chunks`].
pub fn decode_chunks(raws: &Vec<RawChunk>) -> (r: Result<Vec<Chunk>, XDFError>)
    ensures
        match r {
            Ok(cs) => spec_decode_chunks(raws.deep_view()) == Ok::<Seq<ChunkV>, XDFErrorV>(
                cs.deep_view(),
            ),
            Err(e) => spec_decode_chunks(raws.deep_view()) == Err::<Seq<ChunkV>, XDFErrorV>(e@),
        },
{
    let ghost rv = raws.deep_view();
    let mut stream_info_map: Vec<(u32, StreamHeaderChunkInfo)> = Vec::new();
    let mut out: Vec<Chunk> = Vec::new();
    let mut i: usize = 0;
    proof {
        assert(rv.skip(0) =~= rv);
        assert(out.deep_view() =~= Seq::<ChunkV>::empty());
        assert(map_of(stream_info_map.deep_view()) =~= Map::<u32, StreamHeaderChunkInfoV>::empty());
    }
    while i < raws.len()
        invariant
            i <= raws@.len(),
            rv == raws.deep_view(),
            rv.len() == raws@.len(),
            spec_decode_fold(
                rv.skip(i as int),
                DecodeStateV {
                    infos: map_of(stream_info_map.deep_view()),
                    chunks: out.deep_view(),
                },
            ) == spec_decode_chunks(rv),
        decreases raws@.len() - i,
    {
        let ghost st = DecodeStateV {
            infos: map_of(stream_info_map.deep_view()),
            chunks: out.deep_view(),
        };
        let ghost prev_out = out.deep_view();
        let ghost prev_infos = stream_info_map.deep_view();
        proof {
            assert(rv.skip(i as int)[0] == rv[i as int]);
            assert(rv[i as int] == raws@[i as int].deep_view());
            assert(rv.skip(i as int).drop_first() =~= rv.skip(i as int + 1));
        }
        let rc: &RawChunk = &raws[i];
        match rc.tag {
            Tag::FileHeader => {
                match parse_file_header(rc) {
                    Ok(fh) => {
                        let ghost fh_v = fh@;
                        out.push(Chunk::FileHeader(fh));
                        proof {
                            assert(out.deep_view() =~= prev_out.push(ChunkV::FileHeader(fh_v)));
                        }
                    },
                    Err(e) => {
                        return Err(e);
                    },
                }
            },
            Tag::StreamHeader => {
                match parse_stream_header(rc, &mut stream_info_map) {
                    Ok(h) => {
                        let ghost h_v = h@;
                        out.push(Chunk::StreamHeader(h));
                        proof {
                            assert(out.deep_view() =~= prev_out.push(ChunkV::StreamHeader(h_v)));
                            crate::assoc::lemma_map_of_push(prev_infos, h_v.stream_id, h_v.info);
                        }
                    },
                    Err(e) => {
                        return Err(e);
                    },
                }
            },
            Tag::StreamFooter => {
                match parse_stream_footer(rc) {
                    Ok(f) => {
                        let ghost f_v = f@;
                        out.push(Chunk::StreamFooter(f));
                        proof {
                            assert(out.deep_view() =~= prev_out.push(ChunkV::StreamFooter(f_v)));
                        }
                    },
                    Err(e) => {
                        return Err(e);
                    },
                }
            },
            Tag::Samples => {
                match parse_samples(rc, &stream_info_map) {
                    Ok(sc) => {
                        let ghost sc_v = sc@;
                        out.push(Chunk::Samples(sc));
                        proof {
                            assert(out.deep_view() =~= prev_out.push(ChunkV::Samples(sc_v)));
                        }
                    },
                    Err(e) => {
                        return Err(e);
                    },
                }
            },
            Tag::ClockOffset => {
                match parse_clock_offset(rc) {
                    Option::Some(co) => {
                        out.push(Chunk::ClockOffset(co));
                        proof {
                            assert(out.deep_view() =~= prev_out.push(ChunkV::ClockOffset(co)));
                        }
                    },
                    Option::None => {
                    },
                }
            },
            Tag::Boundary => {
                out.push(Chunk::Boundary(crate::chunk_structs::BoundaryChunk {  }));
                proof {
                    assert(out.deep_view() =~= prev_out.push(ChunkV::Boundary));
                }
            },
        }
        i = i + 1;
    }
    proof {
        assert(rv.skip(rv.len() as int) =~= Seq::<RawChunkV>::empty());
    }
    Ok(out)
}

} // verus!
