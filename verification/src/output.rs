//! Recognising the renderer's output: PNG headers for images, container
//! signatures for media.

use vstd::prelude::*;
use crate::operation::{ParseOperation, image_limits_of};

verus! {

/// The eight-byte PNG file signature.
pub open spec fn png_signature() -> Seq<u8> {
    seq![0x89u8, 0x50u8, 0x4eu8, 0x47u8, 0x0du8, 0x0au8, 0x1au8, 0x0au8]
}

/// The big-endian length field of a thirteen-byte chunk.
pub open spec fn ihdr_length() -> Seq<u8> {
    seq![0u8, 0u8, 0u8, 13u8]
}

/// The chunk type `IHDR`.
pub open spec fn ihdr_tag() -> Seq<u8> {
    seq![0x49u8, 0x48u8, 0x44u8, 0x52u8]
}

/// The EBML magic that opens Matroska and WebM files.
pub open spec fn ebml_magic() -> Seq<u8> {
    seq![0x1au8, 0x45u8, 0xdfu8, 0xa3u8]
}

/// The box type `ftyp` that ISO media files carry at offset four.
pub open spec fn ftyp_tag() -> Seq<u8> {
    seq![0x66u8, 0x74u8, 0x79u8, 0x70u8]
}

/// The unsigned big-endian number in the four bytes of `s` from `at`.
pub open spec fn be_u32_at(s: Seq<u8>, at: int) -> int {
    s[at] * 16777216 + s[at + 1] * 65536 + s[at + 2] * 256 + s[at + 3]
}

/// Whether `s` holds the bytes of `part` from position `at` on.
pub open spec fn holds_at(s: Seq<u8>, at: int, part: Seq<u8>) -> bool {
    &&& 0 <= at
    &&& at + part.len() <= s.len()
    &&& s.subrange(at, at + part.len() as int) == part
}

/// Width and height from a PNG's header: the data opens with the signature
/// and an `IHDR` chunk of length thirteen, and both sides are positive.
pub open spec fn png_size(data: Seq<u8>) -> Option<(u32, u32)> {
    if data.len() >= 24 && holds_at(data, 0, png_signature()) && holds_at(data, 8, ihdr_length())
        && holds_at(data, 12, ihdr_tag()) && be_u32_at(data, 16) > 0 && be_u32_at(data, 20) > 0 {
        Some((be_u32_at(data, 16) as u32, be_u32_at(data, 20) as u32))
    } else {
        None
    }
}

/// Whether the data opens as a Matroska/WebM or an ISO media file.
pub open spec fn is_media_container(data: Seq<u8>) -> bool {
    holds_at(data, 0, ebml_magic()) || holds_at(data, 4, ftyp_tag())
}

/// Whether `data` is an acceptable result of `operation`: a media container
/// for a media preview, otherwise a PNG whose sides and pixel count stay
/// within the operation's bounds.
pub open spec fn output_accepted(operation: ParseOperation, data: Seq<u8>) -> bool {
    if operation == ParseOperation::PreviewMedia {
        is_media_container(data)
    } else {
        match (png_size(data), image_limits_of(operation)) {
            (Some((w, h)), Some((max_w, max_h, max_pixels))) =>
                w <= max_w && h <= max_h && w * h <= max_pixels,
            _ => false,
        }
    }
}

/// Whether the bytes of `data` from `at` equal `part`.
fn bytes_match(data: &[u8], at: usize, part: &[u8]) -> (same: bool)
    ensures
        same == holds_at(data@, at as int, part@),
{
    if at > data.len() || data.len() - at < part.len() {
        return false;
    }
    let mut i: usize = 0;
    while i < part.len()
        invariant
            at + part.len() <= data.len(),
            i <= part.len(),
            forall|j: int| 0 <= j < i ==> data@[at + j] == part@[j],
        decreases part.len() - i,
    {
        if data[at + i] != part[i] {
            assert(data@.subrange(at as int, at + part@.len())[i as int] != part@[i as int]);
            return false;
        }
        i = i + 1;
    }
    assert(data@.subrange(at as int, at + part@.len()) =~= part@);
    true
}

/// The big-endian number in `data[at..at + 4]`.
fn read_be_u32(data: &[u8], at: usize) -> (value: u32)
    requires
        at + 4 <= data@.len(),
    ensures
        value == be_u32_at(data@, at as int),
{
    let b0 = data[at] as u32;
    let b1 = data[at + 1] as u32;
    let b2 = data[at + 2] as u32;
    let b3 = data[at + 3] as u32;
    b0 * 16777216 + b1 * 65536 + b2 * 256 + b3
}

/// The width and height recorded in a PNG header, if `data` opens with one
/// and both are positive.
pub fn png_dimensions(data: &[u8]) -> (size: Option<(u32, u32)>)
    ensures
        size == png_size(data@),
{
    let signature: [u8; 8] = [0x89, 0x50, 0x4e, 0x47, 0x0d, 0x0a, 0x1a, 0x0a];
    let length: [u8; 4] = [0, 0, 0, 13];
    let tag: [u8; 4] = [0x49, 0x48, 0x44, 0x52];
    assert(signature@ =~= png_signature());
    assert(length@ =~= ihdr_length());
    assert(tag@ =~= ihdr_tag());
    if !bytes_match(data, 0, &signature) || !bytes_match(data, 8, &length)
        || !bytes_match(data, 12, &tag) || data.len() < 24 {
        return None;
    }
    let width = read_be_u32(data, 16);
    let height = read_be_u32(data, 20);
    if width > 0 && height > 0 {
        Some((width, height))
    } else {
        None
    }
}

/// Whether the renderer's output is acceptable for the operation.
pub fn valid_output(operation: ParseOperation, data: &[u8]) -> (accepted: bool)
    ensures
        accepted == output_accepted(operation, data@),
{
    if operation == ParseOperation::PreviewMedia {
        let magic: [u8; 4] = [0x1a, 0x45, 0xdf, 0xa3];
        let ftyp: [u8; 4] = [0x66, 0x74, 0x79, 0x70];
        assert(magic@ =~= ebml_magic());
        assert(ftyp@ =~= ftyp_tag());
        bytes_match(data, 0, &magic) || bytes_match(data, 4, &ftyp)
    } else {
        let Some((width, height)) = png_dimensions(data) else {
            return false;
        };
        let Some((max_width, max_height, max_pixels)) = operation.image_limits() else {
            return false;
        };
        if width > max_width || height > max_height {
            return false;
        }
        match (width as u64).checked_mul(height as u64) {
            Some(pixels) => pixels <= max_pixels,
            None => false,
        }
    }
}


proof fn lemma_product_bound(w: int, h: int, max_w: int, max_h: int)
    requires
        0 <= w <= max_w,
        0 <= h <= max_h,
    ensures
        w * h <= max_w * max_h,
{
    assert(w * h <= max_w * max_h) by (nonlinear_arith)
        requires
            0 <= w <= max_w,
            0 <= h <= max_h,
    ;
}

/// Which PNGs each raster operation accepts: every thumbnail (image, raw,
/// PDF or video) any PNG whose sides are at most 256, an image preview any
/// PNG whose sides are at most 1400, a PDF preview a PNG at most 1400 wide
/// and 1800 high with at most 2,500,000 pixels; and nothing that is not a
/// PNG with positive sides.
pub proof fn lemma_accepted_png_sizes(operation: ParseOperation, data: Seq<u8>)
    requires
        operation != ParseOperation::PreviewMedia,
    ensures
        output_accepted(operation, data) <==> (png_size(data) matches Some((w, h)) && match operation {
            ParseOperation::ThumbnailImage | ParseOperation::ThumbnailRaw | ParseOperation::ThumbnailPdf
            | ParseOperation::ThumbnailVideo => w <= 256 && h <= 256,
            ParseOperation::PreviewImage => w <= 1400 && h <= 1400,
            ParseOperation::PreviewPdf => w <= 1400 && h <= 1800 && w * h <= 2500000,
            ParseOperation::PreviewMedia => false,
        }),
{
    if let Some((w, h)) = png_size(data) {
        match operation {
            ParseOperation::ThumbnailImage | ParseOperation::ThumbnailRaw | ParseOperation::ThumbnailPdf
            | ParseOperation::ThumbnailVideo => {
                if w <= 256 && h <= 256 {
                    lemma_product_bound(w as int, h as int, 256, 256);
                }
            },
            ParseOperation::PreviewImage => {
                if w <= 1400 && h <= 1400 {
                    lemma_product_bound(w as int, h as int, 1400, 1400);
                }
            },
            _ => {},
        }
    }
}


/// The first 24 bytes of a PNG file of the given size: the signature, then
/// the length (13) and type of the `IHDR` chunk, then width and height in
/// big-endian order.
pub open spec fn png_header(w: u32, h: u32) -> Seq<u8> {
    seq![
        0x89u8, 0x50u8, 0x4eu8, 0x47u8, 0x0du8, 0x0au8, 0x1au8, 0x0au8,
        0u8, 0u8, 0u8, 13u8,
        0x49u8, 0x48u8, 0x44u8, 0x52u8,
        (w / 16777216) as u8, ((w / 65536) % 256) as u8, ((w / 256) % 256) as u8, (w % 256) as u8,
        (h / 16777216) as u8, ((h / 65536) % 256) as u8, ((h / 256) % 256) as u8, (h % 256) as u8,
    ]
}

/// Any file that opens with a PNG header of positive width and height is read
/// as that width and height, whatever follows the header; a header with a
/// zero side, or a file shorter than a header, is not read at all.
pub proof fn lemma_png_header_read(w: u32, h: u32, rest: Seq<u8>)
    ensures
        png_size(png_header(w, h) + rest) == if w > 0 && h > 0 { Some((w, h)) } else { None },
        forall|k: int| 0 <= k < 24 ==> png_size(#[trigger] png_header(w, h).take(k)) is None,
{
    let d = png_header(w, h) + rest;
    assert(d.subrange(0, 8) =~= png_signature());
    assert(d.subrange(8, 12) =~= ihdr_length());
    assert(d.subrange(12, 16) =~= ihdr_tag());
    assert(be_u32_at(d, 16) == w);
    assert(be_u32_at(d, 20) == h);
}

/// A media preview accepts exactly the outputs that open with the EBML magic
/// `1a 45 df a3` (Matroska, WebM) or carry `ftyp` at offset four (MP4 and
/// other ISO media files).
pub proof fn lemma_media_signatures(data: Seq<u8>)
    ensures
        output_accepted(ParseOperation::PreviewMedia, data) <==> (
            (data.len() >= 4 && data[0] == 0x1a && data[1] == 0x45 && data[2] == 0xdf && data[3] == 0xa3)
            || (data.len() >= 8 && data[4] == 0x66 && data[5] == 0x74 && data[6] == 0x79 && data[7] == 0x70)),
{
    if data.len() >= 4 {
        let m = data.subrange(0, 4);
        if data[0] == 0x1a && data[1] == 0x45 && data[2] == 0xdf && data[3] == 0xa3 {
            assert(m =~= ebml_magic());
        }
        if m == ebml_magic() {
            assert(m[0] == data[0] && m[1] == data[1] && m[2] == data[2] && m[3] == data[3]);
        }
    }
    if data.len() >= 8 {
        let f = data.subrange(4, 8);
        if data[4] == 0x66 && data[5] == 0x74 && data[6] == 0x79 && data[7] == 0x70 {
            assert(f =~= ftyp_tag());
        }
        if f == ftyp_tag() {
            assert(f[0] == data[4] && f[1] == data[5] && f[2] == data[6] && f[3] == data[7]);
        }
    }
}

} // verus!
