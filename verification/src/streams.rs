//! Per-stream reconstruction: merging sample chunks in timestamp order,
//! synthesizing missing timestamps from the nominal rate, and applying the
//! interpolated clock offsets.

use crate::assoc::{assoc_multi_push, assoc_remove, assoc_upsert, spec_multi_push,
    spec_remove_first, spec_upsert};
use crate::chunk_structs::{Chunk, ChunkV, ClockOffsetChunk, FileHeaderChunk, FileHeaderChunkV,
    Sample, SampleV, SamplesChunk, StreamFooterChunk, StreamFooterChunkV, StreamHeaderChunk,
    StreamHeaderChunkV};
use crate::deep::{lemma_deep_of_add, lemma_deep_of_insert, lemma_deep_of_push, lemma_vec_deep};
use crate::errors::{XDFError, XDFErrorV};
use crate::fp::{f64_is_finite, f64_le, fp64_add, fp64_div, fp64_is_finite, fp64_le, fp64_of_uint,
    fp64_sub, spec_fp64_add, spec_fp64_div, spec_fp64_of_uint, spec_fp64_sub, F64_ZERO_BITS};
use crate::interpolate::{interpolate_and_add_offsets, offsets_sorted, spec_interpolate};
use crate::Format;
use vstd::prelude::*;
use vstd::slice::slice_index_get;

verus! {

/// One reconstructed stream of the file.
#[derive(Debug, Clone, PartialEq)]
pub struct Stream {
    /// The stream id its chunks carried.
    pub id: u32,
    /// The channel count its header declared.
    pub channel_count: u32,
    /// The nominal sampling rate its header declared (binary64 bits), if
    /// any.
    pub nominal_srate: Option<u64>,
    /// The channel format its header declared.
    pub format: Format,
    /// The stream's name, if its header named one.
    pub name: Option<String>,
    /// The stream's type, if its header named one.
    pub stream_type: Option<String>,
    /// The header's descriptor, verbatim.
    pub header: xmltree::Element,
    /// The footer's descriptor, verbatim, if a footer was present.
    pub footer: Option<xmltree::Element>,
    /// The rate measured over the reconstructed samples (binary64 bits), if
    /// one could be computed.
    pub measured_srate: Option<u64>,
    /// The reconstructed samples, in timestamp order.
    pub samples: Vec<Sample>,
}

/// Model of a [`Stream`]; the descriptors are opaque, only the footer's
/// presence is kept.
pub struct StreamV {
    pub id: u32,
    pub channel_count: u32,
    pub nominal_srate: Option<u64>,
    pub format: Format,
    pub name: Option<Seq<char>>,
    pub stream_type: Option<Seq<char>>,
    pub has_footer: bool,
    pub measured_srate: Option<u64>,
    pub samples: Seq<SampleV>,
}

impl View for Stream {
    type V = StreamV;

    open spec fn view(&self) -> StreamV {
        StreamV {
            id: self.id,
            channel_count: self.channel_count,
            nominal_srate: self.nominal_srate,
            format: self.format,
            name: self.name.deep_view(),
            stream_type: self.stream_type.deep_view(),
            has_footer: self.footer is Some,
            measured_srate: self.measured_srate,
            samples: self.samples.deep_view(),
        }
    }
}

impl DeepView for Stream {
    type V = StreamV;

    open spec fn deep_view(&self) -> StreamV {
        self.view()
    }
}

/// The side tables the grouper fills: headers and footers in arrival order,
/// clock offsets and sample chunks per stream id.
pub struct GroupedChunks {
    pub stream_header_chunks: Vec<StreamHeaderChunk>,
    pub stream_footer_chunks: Vec<StreamFooterChunk>,
    pub clock_offsets: Vec<(u32, Vec<ClockOffsetChunk>)>,
    pub sample_map: Vec<(u32, Vec<Vec<Sample>>)>,
}

/// Model of [`GroupedChunks`], together with the captured FileHeader.
pub struct GroupStateV {
    pub file_header: Option<FileHeaderChunkV>,
    pub headers: Seq<StreamHeaderChunkV>,
    pub footers: Seq<StreamFooterChunkV>,
    pub offsets: Seq<(u32, Seq<ClockOffsetChunk>)>,
    pub samples: Seq<(u32, Seq<Seq<SampleV>>)>,
}

/// Routes one decoded chunk into the side tables; Boundary chunks are
/// discarded, a FileHeader is captured (a later one would replace it).
pub open spec fn spec_group_step(st: GroupStateV, c: ChunkV) -> GroupStateV {
    match c {
        ChunkV::FileHeader(f) => GroupStateV { file_header: Option::Some(f), ..st },
        ChunkV::StreamHeader(h) => GroupStateV { headers: st.headers.push(h), ..st },
        ChunkV::StreamFooter(f) => GroupStateV { footers: st.footers.push(f), ..st },
        ChunkV::Samples(sc) => GroupStateV {
            samples: spec_multi_push(st.samples, sc.stream_id, sc.samples),
            ..st
        },
        ChunkV::ClockOffset(co) => GroupStateV {
            offsets: spec_multi_push(st.offsets, co.stream_id, co),
            ..st
        },
        ChunkV::Boundary => st,
    }
}

/// Folds [`spec_group_step`] over the decoded chunks.
pub open spec fn spec_group_fold(cs: Seq<ChunkV>, st: GroupStateV) -> GroupStateV
    decreases cs.len(),
{
    if cs.len() == 0 {
        st
    } else {
        spec_group_fold(cs.drop_first(), spec_group_step(st, cs[0]))
    }
}

/// The empty grouping state.
pub open spec fn spec_group_empty() -> GroupStateV {
    GroupStateV {
        file_header: Option::None,
        headers: Seq::empty(),
        footers: Seq::empty(),
        offsets: Seq::empty(),
        samples: Seq::empty(),
    }
}

/// Grouping a whole decoded-chunk sequence: the side tables, or
/// `MissingFileHeader` when no FileHeader chunk was among them.
pub open spec fn spec_group_chunks(cs: Seq<ChunkV>) -> Result<
    (FileHeaderChunkV, GroupStateV),
    XDFErrorV,
> {
    let st = spec_group_fold(cs, spec_group_empty());
    match st.file_header {
        Option::Some(fh) => Ok((fh, st)),
        Option::None => Err(XDFErrorV::MissingFileHeader),
    }
}

/// Sorts the decoded chunks into side tables, per [`spec_group_chunks`]:
/// the single FileHeader is captured separately; a file without one is
/// `MissingFileHeader`.
pub fn group_chunks(chunks: Vec<Chunk>) -> (r: Result<(FileHeaderChunk, GroupedChunks), XDFError>)
    ensures
        match r {
            Ok(p) => spec_group_chunks(chunks.deep_view()) matches Ok(q) && q.0 == p.0@
                && q.1.headers == p.1.stream_header_chunks.deep_view()
                && q.1.footers == p.1.stream_footer_chunks.deep_view()
                && q.1.offsets == p.1.clock_offsets.deep_view()
                && q.1.samples == p.1.sample_map.deep_view(),
            Err(e) => spec_group_chunks(chunks.deep_view()) == Err::<
                (FileHeaderChunkV, GroupStateV),
                XDFErrorV,
            >(e@),
        },
{
    let ghost cv0 = chunks.deep_view();
    let mut rest = chunks;
    let mut file_header_chunk: Option<FileHeaderChunk> = Option::None;
    let mut stream_header_chunks: Vec<StreamHeaderChunk> = Vec::new();
    let mut stream_footer_chunks: Vec<StreamFooterChunk> = Vec::new();
    let mut clock_offsets: Vec<(u32, Vec<ClockOffsetChunk>)> = Vec::new();
    let mut sample_map: Vec<(u32, Vec<Vec<Sample>>)> = Vec::new();
    proof {
        assert(stream_header_chunks.deep_view() =~= Seq::<StreamHeaderChunkV>::empty());
        assert(stream_footer_chunks.deep_view() =~= Seq::<StreamFooterChunkV>::empty());
        assert(clock_offsets.deep_view() =~= Seq::<(u32, Seq<ClockOffsetChunk>)>::empty());
        assert(sample_map.deep_view() =~= Seq::<(u32, Seq<Seq<SampleV>>)>::empty());
    }
    while rest.len() > 0
        invariant
            spec_group_fold(
                rest.deep_view(),
                GroupStateV {
                    file_header: file_header_chunk.deep_view(),
                    headers: stream_header_chunks.deep_view(),
                    footers: stream_footer_chunks.deep_view(),
                    offsets: clock_offsets.deep_view(),
                    samples: sample_map.deep_view(),
                },
            ) == spec_group_fold(cv0, spec_group_empty()),
        decreases rest@.len(),
    {
        let ghost rv = rest.deep_view();
        let ghost st0 = GroupStateV {
            file_header: file_header_chunk.deep_view(),
            headers: stream_header_chunks.deep_view(),
            footers: stream_footer_chunks.deep_view(),
            offsets: clock_offsets.deep_view(),
            samples: sample_map.deep_view(),
        };
        let c = rest.remove(0);
        proof {
            lemma_vec_deep(rest);
            assert(rv[0] == c.deep_view());
            assert(rest.deep_view() =~= rv.drop_first());
        }
        match c {
            Chunk::FileHeader(f) => {
                file_header_chunk = Option::Some(f);
            },
            Chunk::StreamHeader(h) => {
                let ghost hv = h@;
                stream_header_chunks.push(h);
                proof {
                    assert(stream_header_chunks.deep_view() =~= st0.headers.push(hv));
                }
            },
            Chunk::StreamFooter(f) => {
                let ghost fv = f@;
                stream_footer_chunks.push(f);
                proof {
                    assert(stream_footer_chunks.deep_view() =~= st0.footers.push(fv));
                }
            },
            Chunk::Samples(sc) => {
                let sid = sc.stream_id;
                let SamplesChunk { stream_id: _, samples } = sc;
                assoc_multi_push(&mut sample_map, sid, samples);
            },
            Chunk::ClockOffset(co) => {
                assoc_multi_push(&mut clock_offsets, co.stream_id, co);
            },
            Chunk::Boundary(_) => {
            },
        }
    }
    proof {
        assert(rest.deep_view() =~= Seq::<ChunkV>::empty());
    }
    let file_header_chunk = match file_header_chunk {
        Option::Some(fh) => fh,
        Option::None => {
            return Err(XDFError::MissingFileHeader);
        },
    };
    Ok(
        (
            file_header_chunk,
            GroupedChunks { stream_header_chunks, stream_footer_chunks, clock_offsets, sample_map },
        ),
    )
}

/// The headers keyed by stream id, later duplicates replacing earlier ones
/// in place.
pub open spec fn spec_upsert_headers(
    acc: Seq<(u32, StreamHeaderChunkV)>,
    hs: Seq<StreamHeaderChunkV>,
) -> Seq<(u32, StreamHeaderChunkV)>
    decreases hs.len(),
{
    if hs.len() == 0 {
        acc
    } else {
        spec_upsert_headers(spec_upsert(acc, hs[0].stream_id, hs[0]), hs.drop_first())
    }
}

/// The footers keyed by stream id, later duplicates replacing earlier ones
/// in place.
pub open spec fn spec_upsert_footers(
    acc: Seq<(u32, StreamFooterChunkV)>,
    fs: Seq<StreamFooterChunkV>,
) -> Seq<(u32, StreamFooterChunkV)>
    decreases fs.len(),
{
    if fs.len() == 0 {
        acc
    } else {
        spec_upsert_footers(spec_upsert(acc, fs[0].stream_id, fs[0]), fs.drop_first())
    }
}

/// The clock offsets whose collection time and value are both finite.
pub open spec fn spec_filter_finite(offs: Seq<ClockOffsetChunk>) -> Seq<ClockOffsetChunk>
    decreases offs.len(),
{
    if offs.len() == 0 {
        Seq::empty()
    } else if f64_is_finite(offs[0].collection_time) && f64_is_finite(offs[0].offset_value) {
        seq![offs[0]] + spec_filter_finite(offs.drop_first())
    } else {
        spec_filter_finite(offs.drop_first())
    }
}

/// The measured sampling rate of a reconstructed stream: only when a nominal
/// rate was declared, and the first and last samples carry timestamps whose
/// difference is finite and positive; then the sample count divided by that
/// difference.
pub open spec fn spec_measured_srate(samples: Seq<SampleV>, srate: Option<u64>) -> Option<u64> {
    if srate is None || samples.len() == 0 {
        Option::None
    } else {
        match (samples[0].timestamp, samples[samples.len() - 1].timestamp) {
            (Option::Some(a), Option::Some(b)) => {
                let delta = spec_fp64_sub(b, a);
                if f64_le(delta, F64_ZERO_BITS) || !f64_is_finite(delta) {
                    Option::None
                } else {
                    Option::Some(
                        spec_fp64_div(spec_fp64_of_uint(samples.len() as u64), delta),
                    )
                }
            },
            _ => Option::None,
        }
    }
}

/// Computes the measured sampling rate, per [`spec_measured_srate`].
fn measured_srate_of(samples: &Vec<Sample>, nominal_srate: Option<u64>) -> (r: Option<u64>)
    ensures
        r == spec_measured_srate(samples.deep_view(), nominal_srate),
{
    proof {
        lemma_vec_deep(*samples);
    }
    if nominal_srate.is_none() || samples.len() == 0 {
        return Option::None;
    }
    let n = samples.len();
    let first_ts = slice_index_get(samples.as_slice(), 0).timestamp;
    let last_ts = slice_index_get(samples.as_slice(), n - 1).timestamp;
    proof {
        assert(samples.deep_view()[0] == samples@[0].deep_view());
        assert(samples.deep_view()[n - 1] == samples@[n - 1].deep_view());
    }
    match (first_ts, last_ts) {
        (Option::Some(a), Option::Some(b)) => {
            let delta = fp64_sub(b, a);
            if fp64_le(delta, F64_ZERO_BITS) || !fp64_is_finite(delta) {
                Option::None
            } else {
                Option::Some(fp64_div(fp64_of_uint(n as u64), delta))
            }
        },
        _ => Option::None,
    }
}

/// Filters a stream's clock offsets to the finite ones, per
/// [`spec_filter_finite`].
fn filter_finite_offsets(offs: Vec<ClockOffsetChunk>) -> (r: Vec<ClockOffsetChunk>)
    ensures
        r@ == spec_filter_finite(offs@),
{
    let ghost ov = offs@;
    let mut out: Vec<ClockOffsetChunk> = Vec::new();
    let mut i: usize = 0;
    proof {
        assert(ov.skip(0) =~= ov);
        assert(out@ + spec_filter_finite(ov) =~= spec_filter_finite(ov));
    }
    while i < offs.len()
        invariant
            i <= offs@.len(),
            ov == offs@,
            out@ + spec_filter_finite(ov.skip(i as int)) == spec_filter_finite(ov),
        decreases offs@.len() - i,
    {
        let o = offs[i];
        proof {
            assert(ov.skip(i as int)[0] == o);
            assert(ov.skip(i as int).drop_first() =~= ov.skip(i as int + 1));
        }
        if fp64_is_finite(o.collection_time) && fp64_is_finite(o.offset_value) {
            let ghost out0 = out@;
            out.push(o);
            proof {
                assert(out0 + (seq![o] + spec_filter_finite(ov.skip(i as int + 1))) =~= out0.push(
                    o,
                ) + spec_filter_finite(ov.skip(i as int + 1)));
            }
        }
        i = i + 1;
    }
    proof {
        assert(ov.skip(ov.len() as int) =~= Seq::<ClockOffsetChunk>::empty());
        assert(out@ + Seq::<ClockOffsetChunk>::empty() =~= out@);
    }
    out
}

/// Decides whether the offsets are in non-decreasing collection-time order,
/// per [`offsets_sorted`].
fn check_offsets_sorted(offs: &Vec<ClockOffsetChunk>) -> (r: bool)
    ensures
        r == offsets_sorted(offs@),
{
    let n = offs.len();
    if n <= 1 {
        return true;
    }
    let mut i: usize = 0;
    while i < n - 1
        invariant
            n == offs@.len(),
            n >= 2,
            i <= n - 1,
            forall|j: int|
                0 <= j < i ==> f64_le(
                    (#[trigger] offs@[j]).collection_time,
                    offs@[j + 1].collection_time,
                ),
        decreases n - 1 - i,
    {
        if !fp64_le(offs[i].collection_time, offs[i + 1].collection_time) {
            return false;
        }
        i = i + 1;
    }
    true
}

/// Prepends finished streams to the outcome of processing the rest.
pub open spec fn prepend_streams(s: Seq<StreamV>, r: Result<Seq<StreamV>, XDFErrorV>) -> Result<
    Seq<StreamV>,
    XDFErrorV,
> {
    match r {
        Ok(t) => Ok(s + t),
        Err(e) => Err(e),
    }
}

/// Processing the streams, one header entry at a time: the stream's clock
/// offsets are filtered to the finite ones and must be in non-decreasing
/// collection-time order (else `InvalidClockOffset`); its sample chunks are
/// reconstructed per [`spec_process_samples`]; the stream record carries the
/// header's declared fields, the footer's presence, and the measured rate.
pub open spec fn spec_streams_fold(
    hs: Seq<(u32, StreamHeaderChunkV)>,
    footers: Seq<(u32, StreamFooterChunkV)>,
    offsets: Seq<(u32, Seq<ClockOffsetChunk>)>,
    samples: Seq<(u32, Seq<Seq<SampleV>>)>,
) -> Result<Seq<StreamV>, XDFErrorV>
    decreases hs.len(),
{
    if hs.len() == 0 {
        Ok(Seq::empty())
    } else {
        let id = hs[0].0;
        let h = hs[0].1;
        let fo = spec_remove_first(footers, id);
        let off_e = spec_remove_first(offsets, id);
        let sam_e = spec_remove_first(samples, id);
        let offs = spec_filter_finite(
            match off_e.0 {
                Option::Some(v) => v,
                Option::None => Seq::empty(),
            },
        );
        if !offsets_sorted(offs) {
            Err(XDFErrorV::InvalidClockOffset)
        } else {
            let chunks = match sam_e.0 {
                Option::Some(v) => v,
                Option::None => Seq::empty(),
            };
            let samples_out = spec_process_samples(chunks, offs, h.info.nominal_srate);
            let stream = StreamV {
                id,
                channel_count: h.info.channel_count,
                nominal_srate: h.info.nominal_srate,
                format: h.info.channel_format,
                name: h.info.name,
                stream_type: h.info.stream_type,
                has_footer: fo.0 is Some,
                measured_srate: spec_measured_srate(samples_out, h.info.nominal_srate),
                samples: samples_out,
            };
            prepend_streams(
                seq![stream],
                spec_streams_fold(hs.drop_first(), fo.1, off_e.1, sam_e.1),
            )
        }
    }
}

/// Processing all grouped chunks into streams, in order of each stream id's
/// first header.
pub open spec fn spec_process_streams(st: GroupStateV) -> Result<Seq<StreamV>, XDFErrorV> {
    spec_streams_fold(
        spec_upsert_headers(Seq::empty(), st.headers),
        spec_upsert_footers(Seq::empty(), st.footers),
        st.offsets,
        st.samples,
    )
}

/// Builds the finished streams from the grouped chunks, per
/// [`spec_process_streams`].
pub fn process_streams(grouped_chunks: GroupedChunks) -> (r: Result<Vec<Stream>, XDFError>)
    ensures
        match r {
            Ok(streams) => spec_process_streams(
                GroupStateV {
                    file_header: Option::None,
                    headers: grouped_chunks.stream_header_chunks.deep_view(),
                    footers: grouped_chunks.stream_footer_chunks.deep_view(),
                    offsets: grouped_chunks.clock_offsets.deep_view(),
                    samples: grouped_chunks.sample_map.deep_view(),
                },
            ) == Ok::<Seq<StreamV>, XDFErrorV>(streams.deep_view()),
            Err(e) => spec_process_streams(
                GroupStateV {
                    file_header: Option::None,
                    headers: grouped_chunks.stream_header_chunks.deep_view(),
                    footers: grouped_chunks.stream_footer_chunks.deep_view(),
                    offsets: grouped_chunks.clock_offsets.deep_view(),
                    samples: grouped_chunks.sample_map.deep_view(),
                },
            ) == Err::<Seq<StreamV>, XDFErrorV>(e@),
        },
{
    let GroupedChunks {
        stream_header_chunks,
        stream_footer_chunks,
        clock_offsets: mut clock_offsets,
        sample_map: mut sample_map,
    } = grouped_chunks;
    let ghost hv0 = stream_header_chunks.deep_view();
    let ghost fv0 = stream_footer_chunks.deep_view();
    // key the headers and footers by stream id, later entries winning
    let mut hrest = stream_header_chunks;
    let mut stream_header_map: Vec<(u32, StreamHeaderChunk)> = Vec::new();
    proof {
        assert(stream_header_map.deep_view() =~= Seq::<(u32, StreamHeaderChunkV)>::empty());
    }
    while hrest.len() > 0
        invariant
            spec_upsert_headers(stream_header_map.deep_view(), hrest.deep_view())
                == spec_upsert_headers(Seq::empty(), hv0),
        decreases hrest@.len(),
    {
        let ghost rv = hrest.deep_view();
        let h = hrest.remove(0);
        proof {
            lemma_vec_deep(hrest);
            assert(rv[0] == h@);
            assert(hrest.deep_view() =~= rv.drop_first());
        }
        let hid = h.stream_id;
        assoc_upsert(&mut stream_header_map, hid, h);
    }
    proof {
        assert(hrest.deep_view() =~= Seq::<StreamHeaderChunkV>::empty());
    }
    let mut frest = stream_footer_chunks;
    let mut stream_footer_map: Vec<(u32, StreamFooterChunk)> = Vec::new();
    proof {
        assert(stream_footer_map.deep_view() =~= Seq::<(u32, StreamFooterChunkV)>::empty());
    }
    while frest.len() > 0
        invariant
            spec_upsert_footers(stream_footer_map.deep_view(), frest.deep_view())
                == spec_upsert_footers(Seq::empty(), fv0),
        decreases frest@.len(),
    {
        let ghost rv = frest.deep_view();
        let f = frest.remove(0);
        proof {
            lemma_vec_deep(frest);
            assert(rv[0] == f@);
            assert(frest.deep_view() =~= rv.drop_first());
        }
        let fid = f.stream_id;
        assoc_upsert(&mut stream_footer_map, fid, f);
    }
    proof {
        assert(frest.deep_view() =~= Seq::<StreamFooterChunkV>::empty());
    }
    // build each stream in header order
    let ghost hm0g = stream_header_map.deep_view();
    let ghost fm0g = stream_footer_map.deep_view();
    let ghost om0g = clock_offsets.deep_view();
    let ghost sm0g = sample_map.deep_view();
    let ghost goal = spec_streams_fold(hm0g, fm0g, om0g, sm0g);
    let mut streams_vec: Vec<Stream> = Vec::new();
    proof {
        assert(streams_vec.deep_view() =~= Seq::<StreamV>::empty());
    }
    while stream_header_map.len() > 0
        invariant
            goal == spec_streams_fold(hm0g, fm0g, om0g, sm0g),
            hm0g == spec_upsert_headers(
                Seq::empty(),
                grouped_chunks.stream_header_chunks.deep_view(),
            ),
            fm0g == spec_upsert_footers(
                Seq::empty(),
                grouped_chunks.stream_footer_chunks.deep_view(),
            ),
            om0g == grouped_chunks.clock_offsets.deep_view(),
            sm0g == grouped_chunks.sample_map.deep_view(),
            prepend_streams(
                streams_vec.deep_view(),
                spec_streams_fold(
                    stream_header_map.deep_view(),
                    stream_footer_map.deep_view(),
                    clock_offsets.deep_view(),
                    sample_map.deep_view(),
                ),
            ) == goal,
        decreases stream_header_map@.len(),
    {
        let ghost hsv = stream_header_map.deep_view();
        let ghost fmv = stream_footer_map.deep_view();
        let ghost omv = clock_offsets.deep_view();
        let ghost smv = sample_map.deep_view();
        let ghost sv0 = streams_vec.deep_view();
        let (stream_id, stream_header) = stream_header_map.remove(0);
        proof {
            lemma_vec_deep(stream_header_map);
            assert(hsv[0] == (stream_id, stream_header@));
            assert(stream_header_map.deep_view() =~= hsv.drop_first());
        }
        let stream_footer = assoc_remove(&mut stream_footer_map, stream_id);
        let offs_raw: Vec<ClockOffsetChunk> = match assoc_remove(&mut clock_offsets, stream_id) {
            Option::Some(v) => v,
            Option::None => {
                let v: Vec<ClockOffsetChunk> = Vec::new();
                proof {
                    assert(v@ =~= Seq::<ClockOffsetChunk>::empty());
                }
                v
            },
        };
        let ghost off_found = spec_remove_first(omv, stream_id).0;
        let ghost offs_spec = spec_filter_finite(
            match off_found {
                Option::Some(v) => v,
                Option::None => Seq::empty(),
            },
        );
        proof {
            lemma_vec_deep(offs_raw);
            assert(offs_raw@ =~= (match off_found {
                Option::Some(v) => v,
                Option::None => Seq::empty(),
            }));
        }
        let stream_offsets = filter_finite_offsets(offs_raw);
        proof {
            assert(stream_offsets@ == offs_spec);
        }
        if !check_offsets_sorted(&stream_offsets) {
            proof {
                assert(spec_streams_fold(hsv, fmv, omv, smv) == Err::<Seq<StreamV>, XDFErrorV>(
                    XDFErrorV::InvalidClockOffset,
                ));
            }
            return Err(XDFError::InvalidClockOffset);
        }
        let chunks: Vec<Vec<Sample>> = match assoc_remove(&mut sample_map, stream_id) {
            Option::Some(v) => v,
            Option::None => {
                let v: Vec<Vec<Sample>> = Vec::new();
                proof {
                    assert(v.deep_view() =~= Seq::<Seq<SampleV>>::empty());
                }
                v
            },
        };
        let nominal_srate = stream_header.info.nominal_srate;
        let samples_vec = process_samples(chunks, stream_offsets.as_slice(), nominal_srate);
        let measured_srate = measured_srate_of(&samples_vec, nominal_srate);
        let StreamHeaderChunk { stream_id: _, info, xml } = stream_header;
        let footer_xml: Option<xmltree::Element> = match stream_footer {
            Option::Some(f) => {
                let StreamFooterChunk { stream_id: _, xml: fxml } = f;
                Option::Some(fxml)
            },
            Option::None => Option::None,
        };
        let stream = Stream {
            id: stream_id,
            channel_count: info.channel_count,
            nominal_srate: info.nominal_srate,
            format: info.channel_format,
            name: info.name,
            stream_type: info.stream_type,
            header: xml,
            footer: footer_xml,
            measured_srate,
            samples: samples_vec,
        };
        let ghost stream_v = stream@;
        streams_vec.push(stream);
        proof {
            lemma_vec_deep(streams_vec);
            assert(streams_vec.deep_view() =~= sv0.push(stream_v));
            let rest_r = spec_streams_fold(
                stream_header_map.deep_view(),
                stream_footer_map.deep_view(),
                clock_offsets.deep_view(),
                sample_map.deep_view(),
            );
            let h = hsv[0].1;
            let sam_e0 = spec_remove_first(smv, stream_id).0;
            let chunks_spec = match sam_e0 {
                Option::Some(v) => v,
                Option::None => Seq::empty(),
            };
            assert(chunks.deep_view() == chunks_spec);
            assert(h == stream_header@);
            assert(info@ == h.info);
            assert(samples_vec.deep_view() == spec_process_samples(
                chunks_spec,
                offs_spec,
                h.info.nominal_srate,
            ));
            assert(stream_v.has_footer == (spec_remove_first(fmv, stream_id).0 is Some));
            assert(stream_v == StreamV {
                id: stream_id,
                channel_count: h.info.channel_count,
                nominal_srate: h.info.nominal_srate,
                format: h.info.channel_format,
                name: h.info.name,
                stream_type: h.info.stream_type,
                has_footer: spec_remove_first(fmv, stream_id).0 is Some,
                measured_srate: spec_measured_srate(
                    spec_process_samples(chunks_spec, offs_spec, h.info.nominal_srate),
                    h.info.nominal_srate,
                ),
                samples: spec_process_samples(chunks_spec, offs_spec, h.info.nominal_srate),
            });
            assert(spec_streams_fold(hsv, fmv, omv, smv) == prepend_streams(
                seq![stream_v],
                rest_r,
            ));
            match rest_r {
                Ok(t) => {
                    assert(sv0 + (seq![stream_v] + t) =~= sv0.push(stream_v) + t);
                },
                Err(_) => {
                },
            }
        }
    }
    proof {
        assert(stream_header_map.deep_view() =~= Seq::<(u32, StreamHeaderChunkV)>::empty());
        assert(streams_vec.deep_view() + Seq::<StreamV>::empty() =~= streams_vec.deep_view());
    }
    Ok(streams_vec)
}

/// The anchor a chunk of samples carries: its first sample's timestamp, when
/// present and finite.
pub open spec fn anchor_of(ch: Seq<SampleV>) -> Option<u64> {
    match (if ch.len() > 0 {
        ch[0].timestamp
    } else {
        Option::None
    }) {
        Option::Some(t) => if f64_is_finite(t) {
            Option::Some(t)
        } else {
            Option::None
        },
        Option::None => Option::None,
    }
}

/// Adds one later chunk to the groups: an empty chunk is skipped, an
/// anchored chunk opens a new group, an unanchored one continues the most
/// recent group.
pub open spec fn spec_add_iter(
    groups: Seq<(u64, Seq<Seq<SampleV>>)>,
    ch: Seq<SampleV>,
) -> Seq<(u64, Seq<Seq<SampleV>>)> {
    if ch.len() == 0 {
        groups
    } else {
        match anchor_of(ch) {
            Option::Some(t) => groups.push((t, seq![ch])),
            Option::None => groups.update(
                groups.len() - 1,
                (groups.last().0, groups.last().1.push(ch)),
            ),
        }
    }
}

/// Folds [`spec_add_iter`] over the later chunks.
pub open spec fn spec_add_iters(
    groups: Seq<(u64, Seq<Seq<SampleV>>)>,
    rest: Seq<Seq<SampleV>>,
) -> Seq<(u64, Seq<Seq<SampleV>>)>
    decreases rest.len(),
{
    if rest.len() == 0 {
        groups
    } else {
        spec_add_iters(spec_add_iter(groups, rest[0]), rest.drop_first())
    }
}

/// Builds the groups: the first chunk always opens a group, anchored at its
/// first finite timestamp or at zero; the rest follow [`spec_add_iter`].
pub open spec fn spec_build_groups(chunks: Seq<Seq<SampleV>>) -> Seq<(u64, Seq<Seq<SampleV>>)> {
    if chunks.len() == 0 {
        Seq::empty()
    } else {
        let a0 = match anchor_of(chunks[0]) {
            Option::Some(t) => t,
            Option::None => F64_ZERO_BITS,
        };
        spec_add_iters(seq![(a0, seq![chunks[0]])], chunks.drop_first())
    }
}

/// Inserts a group after every group whose anchor is at most its own:
/// insertion sort, stable over equal anchors.
pub open spec fn spec_insert_group(
    sorted: Seq<(u64, Seq<Seq<SampleV>>)>,
    g: (u64, Seq<Seq<SampleV>>),
) -> Seq<(u64, Seq<Seq<SampleV>>)>
    decreases sorted.len(),
{
    if sorted.len() == 0 {
        seq![g]
    } else if f64_le(sorted.last().0, g.0) {
        sorted.push(g)
    } else {
        spec_insert_group(sorted.drop_last(), g).push(sorted.last())
    }
}

/// Folds [`spec_insert_group`] over the groups in order.
pub open spec fn spec_sort_rest(
    acc: Seq<(u64, Seq<Seq<SampleV>>)>,
    gs: Seq<(u64, Seq<Seq<SampleV>>)>,
) -> Seq<(u64, Seq<Seq<SampleV>>)>
    decreases gs.len(),
{
    if gs.len() == 0 {
        acc
    } else {
        spec_sort_rest(spec_insert_group(acc, gs[0]), gs.drop_first())
    }
}

/// The groups sorted by anchor, ascending, stable.
pub open spec fn spec_sort_groups(gs: Seq<(u64, Seq<Seq<SampleV>>)>) -> Seq<
    (u64, Seq<Seq<SampleV>>),
> {
    spec_sort_rest(Seq::empty(), gs)
}

/// All the chunks' samples, in chunk order.
pub open spec fn concat_all(ss: Seq<Seq<SampleV>>) -> Seq<SampleV>
    decreases ss.len(),
{
    if ss.len() == 0 {
        Seq::empty()
    } else {
        ss[0] + concat_all(ss.drop_first())
    }
}

/// All the groups' samples, in group order.
pub open spec fn spec_flatten_groups(gs: Seq<(u64, Seq<Seq<SampleV>>)>) -> Seq<SampleV>
    decreases gs.len(),
{
    if gs.len() == 0 {
        Seq::empty()
    } else {
        concat_all(gs[0].1) + spec_flatten_groups(gs.drop_first())
    }
}

/// Walks the samples from position `i` with the most recent explicit
/// timestamp `(last_i, last_t)` and the interpolator cursor: an explicit
/// timestamp is kept and becomes the most recent one; a missing one is
/// synthesized as `last_t + (i - last_i) / srate`; either way the
/// interpolated clock offset is added.
pub open spec fn spec_fill_rest(
    samples: Seq<SampleV>,
    i: nat,
    last_i: nat,
    last_t: u64,
    srate: u64,
    offsets: Seq<ClockOffsetChunk>,
    cursor: nat,
) -> Seq<SampleV>
    decreases samples.len() - i,
{
    if i >= samples.len() {
        Seq::empty()
    } else {
        let s = samples[i as int];
        let t = match s.timestamp {
            Option::Some(t0) => t0,
            Option::None => spec_fp64_add(
                last_t,
                spec_fp64_div(spec_fp64_of_uint((i - last_i) as u64), srate),
            ),
        };
        let li = match s.timestamp {
            Option::Some(_) => i,
            Option::None => last_i,
        };
        let lt = match s.timestamp {
            Option::Some(t0) => t0,
            Option::None => last_t,
        };
        let ct = spec_interpolate(offsets, cursor, t);
        seq![SampleV { timestamp: Option::Some(ct.0), values: s.values }] + spec_fill_rest(
            samples,
            i + 1,
            li,
            lt,
            srate,
            offsets,
            ct.1,
        )
    }
}

/// Reconstruction of one stream's samples from its chunks: group, sort
/// stably by anchor, concatenate, and, when a nominal rate is declared,
/// synthesize missing timestamps and add the interpolated clock offsets.
/// Without a nominal rate the samples pass through unchanged.
pub open spec fn spec_process_samples(
    chunks: Seq<Seq<SampleV>>,
    offsets: Seq<ClockOffsetChunk>,
    srate: Option<u64>,
) -> Seq<SampleV> {
    let flat = spec_flatten_groups(spec_sort_groups(spec_build_groups(chunks)));
    match srate {
        Option::None => flat,
        Option::Some(r) => spec_fill_rest(flat, 0, 0, F64_ZERO_BITS, r, offsets, 0),
    }
}

/// With no clock offsets, a run of samples without timestamps after
/// position `i` synthesizes each timestamp from the most recent explicit
/// one: sample `j` gets `last_t + (j - last_i) / srate`.
proof fn lemma_fill_none_rest(samples: Seq<SampleV>, i: nat, last_i: nat, last_t: u64, srate: u64)
    requires
        last_i <= i <= samples.len(),
        forall|j: int| i <= j < samples.len() ==> (#[trigger] samples[j]).timestamp is None,
    ensures
        spec_fill_rest(samples, i, last_i, last_t, srate, Seq::empty(), 0).len() == samples.len()
            - i,
        forall|j: int|
            i <= j < samples.len() ==> (#[trigger] spec_fill_rest(
                samples,
                i,
                last_i,
                last_t,
                srate,
                Seq::empty(),
                0,
            )[j - i]).timestamp == Option::Some(
                spec_fp64_add(
                    last_t,
                    spec_fp64_div(spec_fp64_of_uint((j - last_i) as u64), srate),
                ),
            ),
    decreases samples.len() - i,
{
    if i < samples.len() {
        assert(samples[i as int].timestamp is None);
        lemma_fill_none_rest(samples, i + 1, last_i, last_t, srate);
        let out = spec_fill_rest(samples, i, last_i, last_t, srate, Seq::empty(), 0);
        let tail = spec_fill_rest(samples, i + 1, last_i, last_t, srate, Seq::empty(), 0);
        let t = spec_fp64_add(
            last_t,
            spec_fp64_div(spec_fp64_of_uint((i - last_i) as u64), srate),
        );
        assert(out == seq![
            SampleV { timestamp: Option::Some(t), values: samples[i as int].values },
        ] + tail);
        assert forall|j: int|
            i <= j < samples.len() implies (#[trigger] out[j - i]).timestamp == Option::Some(
            spec_fp64_add(
                last_t,
                spec_fp64_div(spec_fp64_of_uint((j - last_i) as u64), srate),
            ),
        ) by {
            if j == i {
                assert(out[0].timestamp == Option::Some(t));
            } else {
                assert(out[j - i] == tail[j - i - 1]);
                assert(tail[j - (i + 1)].timestamp == Option::Some(
                    spec_fp64_add(
                        last_t,
                        spec_fp64_div(spec_fp64_of_uint((j - last_i) as u64), srate),
                    ),
                ));
            }
        }
    }
}

/// Law: with a nominal rate `r`, no clock offsets, and a run that starts at
/// an explicit timestamp `t0` and continues with samples lacking
/// timestamps, the reconstructed timestamps are `t0` and then
/// `t0 + j / r` for each following position `j`.
pub proof fn lemma_timestamp_synthesis(samples: Seq<SampleV>, t0: u64, srate: u64)
    requires
        samples.len() >= 1,
        samples[0].timestamp == Option::Some(t0),
        forall|j: int| 1 <= j < samples.len() ==> (#[trigger] samples[j]).timestamp is None,
    ensures
        spec_fill_rest(samples, 0, 0, F64_ZERO_BITS, srate, Seq::empty(), 0).len()
            == samples.len(),
        spec_fill_rest(samples, 0, 0, F64_ZERO_BITS, srate, Seq::empty(), 0)[0].timestamp
            == Option::Some(t0),
        forall|j: int|
            1 <= j < samples.len() ==> (#[trigger] spec_fill_rest(
                samples,
                0,
                0,
                F64_ZERO_BITS,
                srate,
                Seq::empty(),
                0,
            )[j]).timestamp == Option::Some(
                spec_fp64_add(t0, spec_fp64_div(spec_fp64_of_uint(j as u64), srate)),
            ),
{
    lemma_fill_none_rest(samples, 1, 0, t0, srate);
    let head = spec_fill_rest(samples, 0, 0, F64_ZERO_BITS, srate, Seq::empty(), 0);
    let tail = spec_fill_rest(samples, 1, 0, t0, srate, Seq::empty(), 0);
    assert(head == seq![
        SampleV { timestamp: Option::Some(t0), values: samples[0].values },
    ] + tail);
    assert forall|j: int| 1 <= j < samples.len() implies (#[trigger] head[j]).timestamp
        == Option::Some(
        spec_fp64_add(t0, spec_fp64_div(spec_fp64_of_uint(j as u64), srate)),
    ) by {
        assert(head[j] == tail[j - 1]);
        assert(tail[j - 1].timestamp == Option::Some(
            spec_fp64_add(t0, spec_fp64_div(spec_fp64_of_uint((j - 0) as u64), srate)),
        ));
    }
}

/// Law: a stream with a declared nominal rate whose reconstruction has
/// explicit first and last timestamps `a` and `b` with `b - a` finite and
/// positive reports the measured rate `n / (b - a)` over its `n` samples.
pub proof fn lemma_measured_srate_exact(samples: Seq<SampleV>, srate: u64, a: u64, b: u64)
    requires
        samples.len() >= 1,
        samples[0].timestamp == Option::Some(a),
        samples[samples.len() - 1].timestamp == Option::Some(b),
        f64_is_finite(spec_fp64_sub(b, a)),
        crate::fp::f64_lt(F64_ZERO_BITS, spec_fp64_sub(b, a)),
    ensures
        spec_measured_srate(samples, Option::Some(srate)) == Option::Some(
            spec_fp64_div(spec_fp64_of_uint(samples.len() as u64), spec_fp64_sub(b, a)),
        ),
{
    let delta = spec_fp64_sub(b, a);
    assert(!f64_le(delta, F64_ZERO_BITS));
}

/// Reads a chunk's anchor, per [`anchor_of`].
fn chunk_anchor(ch: &Vec<Sample>) -> (r: Option<u64>)
    ensures
        r == anchor_of(ch.deep_view()),
{
    proof {
        lemma_vec_deep(*ch);
    }
    if ch.len() == 0 {
        return Option::None;
    }
    let ts = slice_index_get(ch.as_slice(), 0).timestamp;
    proof {
        assert(ch.deep_view()[0] == ch@[0].deep_view());
    }
    match ts {
        Option::Some(t) => if fp64_is_finite(t) {
            Option::Some(t)
        } else {
            Option::None
        },
        Option::None => Option::None,
    }
}

/// The position in `s` before which `g` belongs: everything from `p` on has
/// an anchor that is not at most `g`'s.
proof fn lemma_insert_group_at(
    s: Seq<(u64, Seq<Seq<SampleV>>)>,
    g: (u64, Seq<Seq<SampleV>>),
    p: int,
)
    requires
        0 <= p <= s.len(),
        forall|j: int| p <= j < s.len() ==> !f64_le((#[trigger] s[j]).0, g.0),
        p > 0 ==> f64_le(s[p - 1].0, g.0),
    ensures
        spec_insert_group(s, g) == s.subrange(0, p).push(g) + s.subrange(p, s.len() as int),
    decreases s.len(),
{
    if p == s.len() {
        if s.len() == 0 {
            assert(seq![g] =~= s.subrange(0, p).push(g) + s.subrange(p, s.len() as int));
        } else {
            assert(s.subrange(0, p) =~= s);
            assert(s.push(g) =~= s.subrange(0, p).push(g) + s.subrange(p, s.len() as int));
        }
    } else {
        assert(!f64_le(s.last().0, g.0));
        lemma_insert_group_at(s.drop_last(), g, p);
        assert(s.drop_last().subrange(0, p) =~= s.subrange(0, p));
        assert(s.drop_last().subrange(p, s.len() - 1) =~= s.subrange(p, s.len() - 1));
        assert((s.subrange(0, p).push(g) + s.subrange(p, s.len() - 1)).push(s.last())
            =~= s.subrange(0, p).push(g) + s.subrange(p, s.len() as int));
    }
}

/// Combines chunks of a stream's samples into one vector with corrected,
/// interpolated timestamps, per [`spec_process_samples`].
#[verifier::rlimit(100)]
pub fn process_samples(
    sample_chunks: Vec<Vec<Sample>>,
    stream_offsets: &[ClockOffsetChunk],
    nominal_srate: Option<u64>,
) -> (r: Vec<Sample>)
    ensures
        r.deep_view() == spec_process_samples(
            sample_chunks.deep_view(),
            stream_offsets@,
            nominal_srate,
        ),
{
    let ghost cv0 = sample_chunks.deep_view();
    let mut rest = sample_chunks;
    let mut groups: Vec<(u64, Vec<Vec<Sample>>)> = Vec::new();
    if rest.len() > 0 {
        let first = rest.remove(0);
        proof {
            lemma_vec_deep(rest);
            assert(cv0[0] == first.deep_view());
            assert(rest.deep_view() =~= cv0.drop_first());
        }
        let a0 = match chunk_anchor(&first) {
            Option::Some(t) => t,
            Option::None => F64_ZERO_BITS,
        };
        let mut fv: Vec<Vec<Sample>> = Vec::new();
        fv.push(first);
        proof {
            lemma_vec_deep(fv);
            assert(fv.deep_view() =~= seq![cv0[0]]);
        }
        let ghost fvv = fv.deep_view();
        groups.push((a0, fv));
        proof {
            assert(groups.deep_view() =~= seq![(a0, fvv)]);
            assert(groups.deep_view() == seq![(a0, seq![cv0[0]])]);
        }
        while rest.len() > 0
            invariant
                cv0.len() > 0,
                groups@.len() >= 1,
                spec_add_iters(groups.deep_view(), rest.deep_view()) == spec_build_groups(cv0),
            decreases rest@.len(),
        {
            let ghost gv = groups.deep_view();
            let ghost rv = rest.deep_view();
            let ch = rest.remove(0);
            proof {
                lemma_vec_deep(rest);
                assert(rv[0] == ch.deep_view());
                assert(rest.deep_view() =~= rv.drop_first());
                assert(ch.deep_view().len() == ch@.len());
            }
            if ch.len() == 0 {
                proof {
                    assert(spec_add_iter(gv, rv[0]) == gv);
                }
            } else {
                match chunk_anchor(&ch) {
                    Option::Some(t) => {
                        let ghost chv = ch.deep_view();
                        let mut nv: Vec<Vec<Sample>> = Vec::new();
                        nv.push(ch);
                        proof {
                            assert(nv.deep_view() =~= seq![chv]);
                        }
                        let ghost nvv = nv.deep_view();
                        groups.push((t, nv));
                        proof {
                            assert(groups.deep_view() =~= gv.push((t, seq![chv])));
                            assert(spec_add_iter(gv, rv[0]) == gv.push((t, seq![chv])));
                        }
                    },
                    Option::None => {
                        let ghost chv = ch.deep_view();
                        match groups.pop() {
                            Option::Some((ga, mut gvec)) => {
                                let ghost gvec0 = gvec.deep_view();
                                gvec.push(ch);
                                proof {
                                    lemma_vec_deep(gvec);
                                    lemma_deep_of_push(gvec@.drop_last(), gvec@.last());
                                    assert(gvec.deep_view() =~= gvec0.push(chv));
                                    assert(gv.last() == (ga, gvec0));
                                }
                                let ghost gvv = gvec.deep_view();
                                groups.push((ga, gvec));
                                proof {
                                    assert(groups.deep_view() =~= gv.drop_last().push(
                                        (ga, gvec0.push(chv)),
                                    ));
                                    assert(gv.drop_last().push((ga, gvec0.push(chv))) =~= gv.update(
                                        gv.len() - 1,
                                        (gv.last().0, gv.last().1.push(chv)),
                                    ));
                                    assert(spec_add_iter(gv, rv[0]) == groups.deep_view());
                                }
                            },
                            Option::None => {
                                proof {
                                    assert(false);
                                }
                            },
                        }
                    },
                }
            }
        }
    }
    proof {
        if cv0.len() == 0 {
            assert(groups.deep_view() =~= Seq::<(u64, Seq<Seq<SampleV>>)>::empty());
            assert(groups.deep_view() == spec_build_groups(cv0));
        } else {
            assert(rest.deep_view() =~= Seq::<Seq<SampleV>>::empty());
        }
        assert(groups.deep_view() == spec_build_groups(cv0));
    }
    // sort the groups by anchor, stably
    let ghost all_groups = groups.deep_view();
    let mut sorted: Vec<(u64, Vec<Vec<Sample>>)> = Vec::new();
    proof {
        assert(sorted.deep_view() =~= Seq::<(u64, Seq<Seq<SampleV>>)>::empty());
    }
    while groups.len() > 0
        invariant
            spec_sort_rest(sorted.deep_view(), groups.deep_view()) == spec_sort_groups(all_groups),
        decreases groups@.len(),
    {
        let ghost gsv = groups.deep_view();
        let ghost sv = sorted.deep_view();
        let g = groups.remove(0);
        let ghost ggv = g.deep_view();
        proof {
            lemma_vec_deep(groups);
            assert(gsv[0] == ggv);
            assert(groups.deep_view() =~= gsv.drop_first());
            assert(sv.len() == sorted@.len());
        }
        let mut p: usize = sorted.len();
        while p > 0 && !fp64_le(sorted[p - 1].0, g.0)
            invariant
                p <= sorted@.len(),
                sv == sorted.deep_view(),
                sv.len() == sorted@.len(),
                ggv == g.deep_view(),
                forall|j: int| p <= j < sv.len() ==> !f64_le((#[trigger] sv[j]).0, ggv.0),
            decreases p,
        {
            proof {
                assert(sv[p - 1] == sorted@[p - 1].deep_view());
            }
            p = p - 1;
        }
        proof {
            if p > 0 {
                assert(sv[p - 1] == sorted@[p - 1].deep_view());
            }
        }
        sorted.insert(p, g);
        proof {
            lemma_insert_group_at(sv, ggv, p as int);
            lemma_deep_of_insert(sorted@.remove(p as int), p as int, sorted@[p as int]);
            assert(sorted@.remove(p as int).insert(p as int, sorted@[p as int]) =~= sorted@);
            assert(sorted.deep_view() =~= sv.insert(p as int, ggv));
            assert(sv.insert(p as int, ggv) =~= sv.subrange(0, p as int).push(ggv) + sv.subrange(
                p as int,
                sv.len() as int,
            ));
            assert(sorted.deep_view() == spec_insert_group(sv, ggv));
        }
    }
    proof {
        assert(groups.deep_view() =~= Seq::<(u64, Seq<Seq<SampleV>>)>::empty());
        assert(sorted.deep_view() == spec_sort_groups(all_groups));
    }
    // concatenate the sorted groups' chunks
    let ghost sorted_all = sorted.deep_view();
    let mut flat: Vec<Sample> = Vec::new();
    proof {
        assert(flat.deep_view() =~= Seq::<SampleV>::empty());
        assert(flat.deep_view() + spec_flatten_groups(sorted_all) =~= spec_flatten_groups(
            sorted_all,
        ));
    }
    while sorted.len() > 0
        invariant
            flat.deep_view() + spec_flatten_groups(sorted.deep_view()) == spec_flatten_groups(
                sorted_all,
            ),
        decreases sorted@.len(),
    {
        let ghost sv = sorted.deep_view();
        let g = sorted.remove(0);
        proof {
            lemma_vec_deep(sorted);
            assert(sv[0] == g.deep_view());
            assert(sorted.deep_view() =~= sv.drop_first());
        }
        let (_, mut chs) = g;
        proof {
            lemma_vec_deep(chs);
        }
        while chs.len() > 0
            invariant
                flat.deep_view() + concat_all(chs.deep_view()) + spec_flatten_groups(
                    sorted.deep_view(),
                ) == spec_flatten_groups(sorted_all),
            decreases chs@.len(),
        {
            let ghost fv = flat.deep_view();
            let ghost csv = chs.deep_view();
            let mut ch = chs.remove(0);
            let ghost chv = ch.deep_view();
            proof {
                lemma_vec_deep(chs);
                assert(csv[0] == chv);
                assert(chs.deep_view() =~= csv.drop_first());
            }
            let ghost f0 = flat@;
            let ghost c0 = ch@;
            flat.append(&mut ch);
            proof {
                lemma_vec_deep(flat);
                lemma_deep_of_add(f0, c0);
                assert(flat.deep_view() =~= fv + chv);
                assert((fv + chv) + concat_all(csv.drop_first()) =~= fv + (chv + concat_all(
                    csv.drop_first(),
                )));
            }
        }
        proof {
            assert(chs.deep_view() =~= Seq::<Seq<SampleV>>::empty());
        }
    }
    proof {
        assert(sorted.deep_view() =~= Seq::<(u64, Seq<Seq<SampleV>>)>::empty());
        assert(flat.deep_view() + Seq::<SampleV>::empty() =~= flat.deep_view());
        assert(flat.deep_view() == spec_flatten_groups(sorted_all));
    }
    // synthesize missing timestamps and add interpolated offsets
    let srate = match nominal_srate {
        Option::Some(srate) => srate,
        Option::None => {
            return flat;
        },
    };
    let ghost flatv = flat.deep_view();
    let mut work = flat;
    let mut out: Vec<Sample> = Vec::new();
    let mut i: usize = 0;
    let mut last_i: usize = 0;
    let mut last_t: u64 = F64_ZERO_BITS;
    let mut offset_index: usize = 0;
    let total = work.len();
    proof {
        assert(flatv.len() == work@.len());
        assert(total == work@.len());
        assert(work@.len() <= usize::MAX);
        assert(out.deep_view() =~= Seq::<SampleV>::empty());
        assert(out.deep_view() + spec_fill_rest(flatv, 0, 0, F64_ZERO_BITS, srate, stream_offsets@, 0)
            =~= spec_fill_rest(flatv, 0, 0, F64_ZERO_BITS, srate, stream_offsets@, 0));
    }
    while work.len() > 0
        invariant
            i as int + work@.len() == flatv.len(),
            flatv.len() <= usize::MAX,
            work.deep_view() == flatv.skip(i as int),
            last_i <= i,
            out.deep_view() + spec_fill_rest(
                flatv,
                i as nat,
                last_i as nat,
                last_t,
                srate,
                stream_offsets@,
                offset_index as nat,
            ) == spec_fill_rest(flatv, 0, 0, F64_ZERO_BITS, srate, stream_offsets@, 0),
        decreases work@.len(),
    {
        let ghost wv = work.deep_view();
        let ghost ov = out.deep_view();
        let ghost i0 = i as nat;
        let ghost li0 = last_i as nat;
        let ghost lt0 = last_t;
        let ghost cur0 = offset_index as nat;
        let s = work.remove(0);
        proof {
            lemma_vec_deep(work);
            assert(wv[0] == s.deep_view());
            assert(work.deep_view() =~= wv.drop_first());
            assert(wv[0] == flatv[i as int]);
            assert(work.deep_view() =~= flatv.skip(i as int + 1));
        }
        let t: u64 = match s.timestamp {
            Option::Some(t0) => {
                last_i = i;
                last_t = t0;
                t0
            },
            Option::None => fp64_add(
                last_t,
                fp64_div(fp64_of_uint((i - last_i) as u64), srate),
            ),
        };
        let ct = interpolate_and_add_offsets(t, stream_offsets, &mut offset_index);
        let ghost sample_v = SampleV { timestamp: Option::Some(ct), values: s.deep_view().values };
        out.push(Sample { timestamp: Option::Some(ct), values: s.values });
        i = i + 1;
        proof {
            lemma_vec_deep(out);
            lemma_deep_of_push(out@.drop_last(), out@.last());
            assert(out.deep_view() =~= ov.push(sample_v));
            let rest_fill = spec_fill_rest(
                flatv,
                i as nat,
                last_i as nat,
                last_t,
                srate,
                stream_offsets@,
                offset_index as nat,
            );
            assert(spec_fill_rest(flatv, i0, li0, lt0, srate, stream_offsets@, cur0) == seq![
                sample_v,
            ] + rest_fill);
            assert(ov + (seq![sample_v] + rest_fill) =~= ov.push(sample_v) + rest_fill);
        }
    }
    proof {
        assert(out.deep_view() + Seq::<SampleV>::empty() =~= out.deep_view());
    }
    out
}

} // verus!
