//! The chunk framer: splits the bytes of an XDF file into raw chunks.
//!
//! A file is the four magic bytes `XDF:` followed by chunks, each framed as
//! `ncb:u8  length:uint(ncb)  tag:u16  content:[length - 2]u8`, everything
//! little-endian and `ncb` one of 1, 4 or 8.  A length prefix width outside
//! that set and an unknown tag code are fatal; an input that ends in the
//! middle of a chunk yields the chunks read so far; a second FileHeader
//! chunk ends framing at that point.  The whole behaviour is captured by
//! [`spec_read_chunks`].

use crate::bytes::{le_u16_at, le_uint_at, read_le_u16, read_le_uint};
use crate::chunk_structs::{RawChunk, RawChunkV, Tag};
use crate::errors::{XDFError, XDFErrorV};
use vstd::prelude::*;
use vstd::slice::{slice_subrange, slice_to_vec};

verus! {

/// The four magic bytes `XDF:`.
pub open spec fn spec_magic() -> Seq<u8> {
    seq![88u8, 68u8, 70u8, 58u8]
}

/// The tag a chunk tag code denotes; codes run from 1 (FileHeader) to 6
/// (StreamFooter).
pub open spec fn spec_tag_of_code(c: u16) -> Option<Tag> {
    if c == 1 {
        Some(Tag::FileHeader)
    } else if c == 2 {
        Some(Tag::StreamHeader)
    } else if c == 3 {
        Some(Tag::Samples)
    } else if c == 4 {
        Some(Tag::ClockOffset)
    } else if c == 5 {
        Some(Tag::Boundary)
    } else if c == 6 {
        Some(Tag::StreamFooter)
    } else {
        None
    }
}

/// Maps a chunk tag code to its [`Tag`]; codes outside 1 through 6 give
/// `None`.
pub fn tag_of_code(c: u16) -> (r: Option<Tag>)
    ensures
        r == spec_tag_of_code(c),
{
    if c == 1 {
        Some(Tag::FileHeader)
    } else if c == 2 {
        Some(Tag::StreamHeader)
    } else if c == 3 {
        Some(Tag::Samples)
    } else if c == 4 {
        Some(Tag::ClockOffset)
    } else if c == 5 {
        Some(Tag::Boundary)
    } else if c == 6 {
        Some(Tag::StreamFooter)
    } else {
        None
    }
}

/// Outcome of framing the input from some position on.
pub enum FrameOut {
    /// A fatal framing error: an invalid length prefix width or tag code.
    Fatal(XDFErrorV),
    /// Framing stopped early (truncated input or a second FileHeader); the
    /// chunks framed before that point are kept.
    Partial(Seq<RawChunkV>),
    /// The input was consumed exactly.
    Complete(Seq<RawChunkV>),
}

/// Prepends already-framed chunks to the outcome of framing the rest.
pub open spec fn prepend_out(cs: Seq<RawChunkV>, o: FrameOut) -> FrameOut {
    match o {
        FrameOut::Fatal(e) => FrameOut::Fatal(e),
        FrameOut::Partial(d) => FrameOut::Partial(cs + d),
        FrameOut::Complete(d) => FrameOut::Complete(cs + d),
    }
}

/// Frames the bytes of `b` from position `p` on; `header_seen` records
/// whether a FileHeader chunk was already framed.
pub open spec fn spec_frame_rest(b: Seq<u8>, p: int, header_seen: bool) -> FrameOut
    decreases b.len() - p,
{
    if p < 0 || p >= b.len() {
        FrameOut::Complete(Seq::empty())
    } else {
        let ncb = b[p];
        if !(ncb == 1 || ncb == 4 || ncb == 8) {
            FrameOut::Fatal(XDFErrorV::InvalidNumCountBytes(ncb))
        } else if p + 1 + ncb > b.len() {
            FrameOut::Partial(Seq::empty())
        } else {
            let len = le_uint_at(b, p + 1, ncb as int) as int;
            let q = p + 1 + ncb;
            if q + 2 > b.len() {
                FrameOut::Partial(Seq::empty())
            } else {
                let code = le_u16_at(b, q);
                match spec_tag_of_code(code) {
                    Option::None => FrameOut::Fatal(XDFErrorV::InvalidTag(code)),
                    Option::Some(tag) => {
                        if tag == Tag::FileHeader && header_seen {
                            FrameOut::Partial(Seq::empty())
                        } else if len < 2 {
                            FrameOut::Partial(Seq::empty())
                        } else if q + 2 + (len - 2) > b.len() {
                            FrameOut::Partial(Seq::empty())
                        } else {
                            let chunk = RawChunkV {
                                tag,
                                content_bytes: b.subrange(q + 2, q + len),
                            };
                            prepend_out(
                                seq![chunk],
                                spec_frame_rest(
                                    b,
                                    q + len,
                                    header_seen || tag == Tag::FileHeader,
                                ),
                            )
                        }
                    },
                }
            }
        }
    }
}

/// Whether one of the chunks is a FileHeader.
pub open spec fn has_file_header(cs: Seq<RawChunkV>) -> bool {
    exists|i: int| 0 <= i < cs.len() && (#[trigger] cs[i]).tag == Tag::FileHeader
}

/// The framer, as a function of the file bytes: the magic check, the chunk
/// sequence, and the final missing-FileHeader rule, which applies only when
/// the input was consumed exactly.
pub open spec fn spec_read_chunks(b: Seq<u8>) -> Result<Seq<RawChunkV>, XDFErrorV> {
    if b.len() < 4 || b.subrange(0, 4) != spec_magic() {
        Err(XDFErrorV::NoMagicNumber)
    } else {
        match spec_frame_rest(b, 4, false) {
            FrameOut::Fatal(e) => Err(e),
            FrameOut::Partial(cs) => Ok(cs),
            FrameOut::Complete(cs) => if has_file_header(cs) {
                Ok(cs)
            } else {
                Err(XDFErrorV::MissingFileHeader)
            },
        }
    }
}

/// Splits a whole XDF file into its raw chunks, per [`spec_read_chunks`]:
/// an input that does not begin with `XDF:` is `NoMagicNumber`; a length
/// prefix width outside {1, 4, 8} and a tag code outside 1..=6 are fatal; a
/// truncated chunk or a second FileHeader ends framing with the chunks read
/// so far; an exactly consumed input without any FileHeader is
/// `MissingFileHeader`.
pub fn read_to_raw_chunks(file_bytes: &[u8]) -> (r: Result<Vec<RawChunk>, XDFError>)
    ensures
        match r {
            Ok(cs) => spec_read_chunks(file_bytes@) == Ok::<Seq<RawChunkV>, XDFErrorV>(
                cs.deep_view(),
            ),
            Err(e) => spec_read_chunks(file_bytes@) == Err::<Seq<RawChunkV>, XDFErrorV>(e@),
        },
{
    let n = file_bytes.len();
    if n < 4 || !(file_bytes[0] == 88 && file_bytes[1] == 68 && file_bytes[2] == 70
        && file_bytes[3] == 58) {
        proof {
            if n >= 4 && file_bytes@.subrange(0, 4) == spec_magic() {
                assert(file_bytes@.subrange(0, 4)[0] == 88);
                assert(file_bytes@.subrange(0, 4)[1] == 68);
                assert(file_bytes@.subrange(0, 4)[2] == 70);
                assert(file_bytes@.subrange(0, 4)[3] == 58);
            }
        }
        return Err(XDFError::NoMagicNumber);
    }
    proof {
        assert(file_bytes@.subrange(0, 4) =~= spec_magic());
    }
    let mut pos: usize = 4;
    let mut header_seen: bool = false;
    let mut chunks: Vec<RawChunk> = Vec::new();
    while pos < n
        invariant
            4 <= pos <= n,
            n == file_bytes@.len(),
            file_bytes@.subrange(0, 4) == spec_magic(),
            header_seen == has_file_header(chunks.deep_view()),
            prepend_out(chunks.deep_view(), spec_frame_rest(file_bytes@, pos as int, header_seen))
                == spec_frame_rest(file_bytes@, 4, false),
        decreases n - pos,
    {
        let ghost prev_chunks = chunks.deep_view();
        let ncb = file_bytes[pos];
        if !(ncb == 1 || ncb == 4 || ncb == 8) {
            return Err(XDFError::InvalidNumCountBytes(ncb));
        }
        if ncb as usize > n - pos - 1 {
            proof {
                assert(chunks.deep_view() + Seq::<RawChunkV>::empty() =~= chunks.deep_view());
            }
            return Ok(chunks);
        }
        let len: u64 = read_le_uint(file_bytes, pos + 1, ncb);
        let q = pos + 1 + ncb as usize;
        if n - q < 2 {
            proof {
                assert(chunks.deep_view() + Seq::<RawChunkV>::empty() =~= chunks.deep_view());
            }
            return Ok(chunks);
        }
        let code = read_le_u16(file_bytes, q);
        let tag = match tag_of_code(code) {
            Option::Some(t) => t,
            Option::None => {
                return Err(XDFError::InvalidTag(code));
            },
        };
        if header_seen && code == 1 {
            proof {
                assert(chunks.deep_view() + Seq::<RawChunkV>::empty() =~= chunks.deep_view());
            }
            return Ok(chunks);
        }
        if len < 2 {
            proof {
                assert(chunks.deep_view() + Seq::<RawChunkV>::empty() =~= chunks.deep_view());
            }
            return Ok(chunks);
        }
        let content_len: u64 = len - 2;
        if content_len > (n - q - 2) as u64 {
            proof {
                assert(chunks.deep_view() + Seq::<RawChunkV>::empty() =~= chunks.deep_view());
            }
            return Ok(chunks);
        }
        let content_end: usize = q + 2 + content_len as usize;
        let content: Vec<u8> = slice_to_vec(slice_subrange(file_bytes, q + 2, content_end));
        let chunk = RawChunk { tag, content_bytes: content };
        let ghost chunk_v = chunk@;
        chunks.push(chunk);
        proof {
            assert(chunks.deep_view() =~= prev_chunks.push(chunk_v));
        }
        if code == 1 {
            header_seen = true;
        }
        pos = content_end;
        proof {
            assert(chunk_v.content_bytes == file_bytes@.subrange(
                q as int + 2,
                q as int + len as int,
            ));
            assert(has_file_header(prev_chunks.push(chunk_v)) == (has_file_header(prev_chunks)
                || chunk_v.tag == Tag::FileHeader)) by {
                if has_file_header(prev_chunks) {
                    let i = choose|i: int|
                        0 <= i < prev_chunks.len() && (#[trigger] prev_chunks[i]).tag
                            == Tag::FileHeader;
                    assert(prev_chunks.push(chunk_v)[i].tag == Tag::FileHeader);
                } else if chunk_v.tag == Tag::FileHeader {
                    assert(prev_chunks.push(chunk_v)[prev_chunks.len() as int].tag
                        == Tag::FileHeader);
                } else {
                    if has_file_header(prev_chunks.push(chunk_v)) {
                        let i = choose|i: int|
                            0 <= i < prev_chunks.push(chunk_v).len() && (#[trigger] prev_chunks.push(
                                chunk_v,
                            )[i]).tag == Tag::FileHeader;
                        if i < prev_chunks.len() {
                            assert(prev_chunks[i].tag == Tag::FileHeader);
                        }
                    }
                }
            };
            assert forall|o: FrameOut|
                prepend_out(prev_chunks, prepend_out(seq![chunk_v], o)) == prepend_out(
                    prev_chunks.push(chunk_v),
                    o,
                ) by {
                match o {
                    FrameOut::Fatal(_) => {
                    },
                    FrameOut::Partial(d) => {
                        assert(prev_chunks + (seq![chunk_v] + d) =~= prev_chunks.push(chunk_v)
                            + d);
                    },
                    FrameOut::Complete(d) => {
                        assert(prev_chunks + (seq![chunk_v] + d) =~= prev_chunks.push(chunk_v)
                            + d);
                    },
                }
            };
        }
    }
    proof {
        assert(chunks.deep_view() + Seq::<RawChunkV>::empty() =~= chunks.deep_view());
    }
    if header_seen {
        Ok(chunks)
    } else {
        Err(XDFError::MissingFileHeader)
    }
}

/// Law: an input that is shorter than four bytes or whose first four bytes
/// differ from `XDF:` frames to `NoMagicNumber`.
pub proof fn lemma_magic_check(b: Seq<u8>)
    requires
        b.len() < 4 || b.subrange(0, 4) != spec_magic(),
    ensures
        spec_read_chunks(b) == Err::<Seq<RawChunkV>, XDFErrorV>(XDFErrorV::NoMagicNumber),
{
}

/// Law: the empty input frames to `NoMagicNumber`.
pub proof fn lemma_empty_input()
    ensures
        spec_read_chunks(Seq::<u8>::empty()) == Err::<Seq<RawChunkV>, XDFErrorV>(
            XDFErrorV::NoMagicNumber,
        ),
{
}

/// Law: a first chunk whose tag code `k` lies outside 1..=6 is rejected as
/// `InvalidTag(k)`, for every such `k`.  The file here starts with the magic,
/// a one-byte length prefix and that tag code.
pub proof fn lemma_unknown_tag(b: Seq<u8>, k: u16)
    requires
        b.len() >= 8,
        b.subrange(0, 4) == spec_magic(),
        b[4] == 1,
        le_u16_at(b, 6) == k,
        !(1 <= k <= 6),
    ensures
        spec_read_chunks(b) == Err::<Seq<RawChunkV>, XDFErrorV>(XDFErrorV::InvalidTag(k)),
{
    assert(spec_tag_of_code(k) is None);
}

/// A position where a chunk starts whose declared length runs past the end
/// of the input: the length prefix and tag are present and valid, but
/// `length - 2` content bytes do not fit.
pub open spec fn spec_chunk_truncated_at(b: Seq<u8>, p: int) -> bool {
    &&& 0 <= p < b.len()
    &&& (b[p] == 1 || b[p] == 4 || b[p] == 8)
    &&& p + 1 + b[p] + 2 <= b.len()
    &&& spec_tag_of_code(le_u16_at(b, p + 1 + b[p])) is Some
    &&& le_uint_at(b, p + 1, b[p] as int) >= 2
    &&& p + 1 + b[p] + le_uint_at(b, p + 1, b[p] as int) > b.len()
}

/// Framing a chunk start whose declared length exceeds the rest of the input
/// stops there, keeping what was framed before.
pub proof fn lemma_truncated_chunk(b: Seq<u8>, p: int, header_seen: bool)
    requires
        spec_chunk_truncated_at(b, p),
    ensures
        spec_frame_rest(b, p, header_seen) == FrameOut::Partial(Seq::<RawChunkV>::empty()),
{
}

/// A FileHeader is among `cons`-ed chunks exactly when it is the new head or
/// among the tail.
proof fn lemma_has_file_header_cons(c: RawChunkV, cs: Seq<RawChunkV>)
    ensures
        has_file_header(seq![c] + cs) == (c.tag == Tag::FileHeader || has_file_header(cs)),
{
    let all = seq![c] + cs;
    if c.tag == Tag::FileHeader {
        assert(all[0].tag == Tag::FileHeader);
    } else if has_file_header(cs) {
        let i = choose|i: int| 0 <= i < cs.len() && (#[trigger] cs[i]).tag == Tag::FileHeader;
        assert(all[i + 1].tag == Tag::FileHeader);
    } else {
        if has_file_header(all) {
            let i = choose|i: int| 0 <= i < all.len() && (#[trigger] all[i]).tag == Tag::FileHeader;
            if i == 0 {
                assert(c.tag == Tag::FileHeader);
            } else {
                assert(cs[i - 1].tag == Tag::FileHeader);
            }
        }
    }
}

/// Appending bytes to an input that frames completely re-frames the original
/// chunks unchanged and continues at the old end of input.
pub proof fn lemma_frame_extends(b: Seq<u8>, ext: Seq<u8>, p: int, hs: bool)
    requires
        0 <= p <= b.len(),
        spec_frame_rest(b, p, hs) is Complete,
    ensures
        spec_frame_rest(b + ext, p, hs) == prepend_out(
            spec_frame_rest(b, p, hs)->Complete_0,
            spec_frame_rest(
                b + ext,
                b.len() as int,
                hs || has_file_header(spec_frame_rest(b, p, hs)->Complete_0),
            ),
        ),
    decreases b.len() - p,
{
    let w = b + ext;
    assert(w.len() == b.len() + ext.len());
    assert forall|i: int| 0 <= i < b.len() implies w[i] == b[i] by {}
    let cs = spec_frame_rest(b, p, hs)->Complete_0;
    if p >= b.len() {
        assert(cs =~= Seq::<RawChunkV>::empty());
        let rest = spec_frame_rest(w, b.len() as int, hs);
        assert(prepend_out(cs, rest) == rest) by {
            match rest {
                FrameOut::Fatal(_) => {
                },
                FrameOut::Partial(d) => {
                    assert(cs + d =~= d);
                },
                FrameOut::Complete(d) => {
                    assert(cs + d =~= d);
                },
            }
        };
    } else {
        let ncb = b[p];
        let len = le_uint_at(b, p + 1, ncb as int) as int;
        let q = p + 1 + ncb;
        let code = le_u16_at(b, q);
        let tag = spec_tag_of_code(code)->0;
        assert(le_uint_at(w, p + 1, ncb as int) == le_uint_at(b, p + 1, ncb as int));
        assert(le_u16_at(w, q) == le_u16_at(b, q));
        let content_b = b.subrange(q + 2, q + len);
        let content_w = w.subrange(q + 2, q + len);
        assert(content_w =~= content_b);
        let chunk = RawChunkV { tag, content_bytes: content_b };
        let hs2 = hs || tag == Tag::FileHeader;
        let rest_b = spec_frame_rest(b, q + len, hs2);
        assert(rest_b is Complete);
        let cs_rest = rest_b->Complete_0;
        assert(cs =~= seq![chunk] + cs_rest);
        lemma_frame_extends(b, ext, q + len, hs2);
        lemma_has_file_header_cons(chunk, cs_rest);
        let tail = spec_frame_rest(w, b.len() as int, hs2 || has_file_header(cs_rest));
        assert(spec_frame_rest(w, q + len, hs2) == prepend_out(cs_rest, tail));
        assert(spec_frame_rest(w, p, hs) == prepend_out(seq![chunk], prepend_out(cs_rest, tail)));
        assert(prepend_out(seq![chunk], prepend_out(cs_rest, tail)) == prepend_out(cs, tail)) by {
            match tail {
                FrameOut::Fatal(_) => {
                },
                FrameOut::Partial(d) => {
                    assert(seq![chunk] + (cs_rest + d) =~= cs + d);
                },
                FrameOut::Complete(d) => {
                    assert(seq![chunk] + (cs_rest + d) =~= cs + d);
                },
            }
        };
        assert(hs || has_file_header(cs) == hs2 || has_file_header(cs_rest));
    }
}

/// Law: appending, to a file that frames completely with a FileHeader
/// present, a chunk start whose declared length exceeds the appended bytes,
/// yields exactly the original file's chunks, without an error.
pub proof fn lemma_truncation_tolerance(b: Seq<u8>, ext: Seq<u8>)
    requires
        b.len() >= 4,
        b.subrange(0, 4) == spec_magic(),
        spec_frame_rest(b, 4, false) is Complete,
        has_file_header(spec_frame_rest(b, 4, false)->Complete_0),
        spec_chunk_truncated_at(b + ext, b.len() as int),
    ensures
        spec_read_chunks(b) == Ok::<Seq<RawChunkV>, XDFErrorV>(
            spec_frame_rest(b, 4, false)->Complete_0,
        ),
        spec_read_chunks(b + ext) == Ok::<Seq<RawChunkV>, XDFErrorV>(
            spec_frame_rest(b, 4, false)->Complete_0,
        ),
{
    let w = b + ext;
    let cs = spec_frame_rest(b, 4, false)->Complete_0;
    assert(w.subrange(0, 4) =~= b.subrange(0, 4));
    lemma_frame_extends(b, ext, 4, false);
    lemma_truncated_chunk(w, b.len() as int, has_file_header(cs));
    assert(cs + Seq::<RawChunkV>::empty() =~= cs);
}

} // verus!
