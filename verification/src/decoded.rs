//! A decoded image in memory, and the byte surgery that says which colour
//! space an encoded JPEG or PNG is in.

use vstd::prelude::*;
use std::io::Write;
use crate::icc::{be32_bytes, be16_bytes, zeros};

verus! {

#[verifier::external_type_specification]
#[verifier::external_body]
pub struct ExImageError(image::ImageError);

#[verifier::external_type_specification]
#[verifier::external_body]
pub struct ExIoError(std::io::Error);

/// Why an image could not be read, written or built.
#[derive(Debug)]
pub enum IoError {
    /// Image decode or encode failed.
    Image(image::ImageError),
    /// A file error.
    Fs(std::io::Error),
    /// A pixel buffer of the wrong length for its dimensions.
    PixelCountMismatch { expected: usize, found: usize },
}

/// A decoded image: tightly packed 8-bit RGBA, row by row.
#[derive(Clone, Debug, PartialEq, Eq)]
pub struct DecodedImage {
    pub width: u32,
    pub height: u32,
    pub pixels: Vec<u8>,
    /// The colour space the file said it was in, if it said and the name was
    /// known. `None` means nothing was declared.
    pub space: Option<&'static str>,
}

impl DecodedImage {
    /// An image from loose pixels, which must be exactly four bytes per
    /// pixel. It declares no colour space.
    pub fn new(width: u32, height: u32, pixels: Vec<u8>) -> (r: Result<Self, IoError>)
        requires
            width as int * height as int * 4 <= usize::MAX,
        ensures
            match r {
                Ok(img) => pixels@.len() == width * height * 4 && img.width == width && img.height
                    == height && img.pixels@ == pixels@ && img.space is None,
                Err(e) => pixels@.len() != width * height * 4 && e == (IoError::PixelCountMismatch {
                    expected: (width * height * 4) as usize,
                    found: pixels@.len() as usize,
                }),
            },
    {
        let expected = (width as usize) * (height as usize) * 4;
        if pixels.len() != expected {
            return Err(IoError::PixelCountMismatch { expected, found: pixels.len() });
        }
        Ok(DecodedImage { width, height, pixels, space: None })
    }

    /// The RGBA of the pixel at `x`, `y`.
    pub fn pixel(&self, x: u32, y: u32) -> (r: [u8; 4])
        requires
            (y as int * self.width as int + x as int) * 4 <= u32::MAX,
            (y as int * self.width as int + x as int) * 4 + 4 <= self.pixels@.len(),
        ensures
            ({
                let i = (y * self.width + x) * 4;
                r@ == self.pixels@.subrange(i, i + 4)
            }),
    {
        proof {
            assert(y * self.width <= u32::MAX) by (nonlinear_arith)
                requires
                    (y as int * self.width as int + x as int) * 4 <= u32::MAX,
            ;
        }
        let i = ((y * self.width + x) * 4) as usize;
        let r = [self.pixels[i], self.pixels[i + 1], self.pixels[i + 2], self.pixels[i + 3]];
        assert(r@ =~= self.pixels@.subrange(i as int, i + 4));
        r
    }

    pub fn size(&self) -> (r: (u32, u32))
        ensures
            r == (self.width, self.height),
    {
        (self.width, self.height)
    }

    /// Largest absolute per-channel difference against another image, over
    /// the bytes the two have in common; `None` if the dimensions differ.
    pub fn max_channel_delta(&self, other: &DecodedImage) -> (r: Option<u8>)
        ensures
            match r {
                None => (self.width, self.height) != (other.width, other.height),
                Some(d) => (self.width, self.height) == (other.width, other.height) && is_max_delta(
                    self.pixels@,
                    other.pixels@,
                    d,
                ),
            },
    {
        if self.width != other.width || self.height != other.height {
            return None;
        }
        let n = if self.pixels.len() <= other.pixels.len() { self.pixels.len() } else { other.pixels.len() };
        let mut best: u8 = 0;
        let mut i: usize = 0;
        while i < n
            invariant
                n == common_len(self.pixels@, other.pixels@),
                i <= n,
                forall|j: int| 0 <= j < i ==> abs_diff(self.pixels@[j], other.pixels@[j]) <= best,
                i == 0 ==> best == 0,
                i > 0 ==> exists|j: int| 0 <= j < i && abs_diff(self.pixels@[j], other.pixels@[j]) == best,
            decreases n - i,
        {
            let a = self.pixels[i];
            let b = other.pixels[i];
            let d = if a >= b { a - b } else { b - a };
            if d > best {
                best = d;
            }
            i = i + 1;
        }
        Some(best)
    }
}

pub open spec fn abs_diff(a: u8, b: u8) -> int {
    if a >= b { a - b } else { b - a }
}

pub open spec fn common_len(a: Seq<u8>, b: Seq<u8>) -> int {
    if a.len() <= b.len() { a.len() as int } else { b.len() as int }
}

/// `d` is the largest absolute difference between corresponding bytes of
/// `a` and `b` over their common length, and 0 when that is empty.
pub open spec fn is_max_delta(a: Seq<u8>, b: Seq<u8>, d: u8) -> bool {
    &&& forall|j: int| 0 <= j < common_len(a, b) ==> abs_diff(a[j], b[j]) <= d
    &&& (common_len(a, b) == 0 ==> d == 0)
    &&& (common_len(a, b) > 0 ==> exists|j: int| 0 <= j < common_len(a, b) && abs_diff(a[j], b[j]) == d)
}

/// An image does not differ from itself: against its own pixels the largest
/// difference is 0, which is what a golden comparison of identical images
/// reports.
pub proof fn lemma_an_image_does_not_differ_from_itself(a: Seq<u8>)
    ensures
        is_max_delta(a, a, 0),
{
    if a.len() > 0 {
        assert(abs_diff(a[0], a[0]) == 0);
    }
}

/// The difference is symmetric: what `a` is found to differ from `b` by is
/// what `b` differs from `a` by.
pub proof fn lemma_the_difference_is_symmetric(a: Seq<u8>, b: Seq<u8>, d: u8)
    requires
        is_max_delta(a, b, d),
    ensures
        is_max_delta(b, a, d),
{
    assert forall|j: int| 0 <= j < common_len(b, a) implies abs_diff(b[j], a[j]) <= d by {
        assert(abs_diff(a[j], b[j]) <= d);
    }
    if common_len(b, a) > 0 {
        let j = choose|j: int| 0 <= j < common_len(a, b) && abs_diff(a[j], b[j]) == d;
        assert(abs_diff(b[j], a[j]) == d);
    }
}

/// Profile bytes per APP2 segment: a segment's length field counts itself
/// and cannot pass 65535, and each segment spends twelve bytes on the
/// identifier and two on the chunk numbering.
pub const PER_CHUNK: usize = 65519;

/// `ICC_PROFILE` as it is written: eleven letters and a terminating zero.
pub open spec fn icc_identifier() -> Seq<u8> {
    seq![0x49u8, 0x43, 0x43, 0x5f, 0x50, 0x52, 0x4f, 0x46, 0x49, 0x4c, 0x45, 0x00]
}

/// How many pieces `len` bytes are cut into, none for no bytes.
pub open spec fn pieces(len: int) -> int {
    (len + PER_CHUNK - 1) / (PER_CHUNK as int)
}

/// Piece `k` of the profile.
pub open spec fn piece(profile: Seq<u8>, k: int) -> Seq<u8> {
    let end = if (k + 1) * PER_CHUNK <= profile.len() { (k + 1) * PER_CHUNK } else { profile.len() as int };
    profile.subrange(k * PER_CHUNK, end)
}

/// The APP2 segment carrying piece `k` of `total`.
pub open spec fn app2_segment(profile: Seq<u8>, k: int, total: int) -> Seq<u8> {
    seq![0xffu8, 0xe2u8] + be16_bytes(piece(profile, k).len() + 16int) + icc_identifier() + seq![
        (k + 1) as u8,
        total as u8,
    ] + piece(profile, k)
}

/// The first `i` APP2 segments.
pub open spec fn app2_segments(profile: Seq<u8>, i: int, total: int) -> Seq<u8>
    decreases i,
{
    if i <= 0 {
        Seq::empty()
    } else {
        app2_segments(profile, i - 1, total) + app2_segment(profile, i - 1, total)
    }
}

/// A JPEG with the profile spliced in as APP2 segments straight after the
/// start-of-image marker, numbered from one. Bytes that do not start with
/// that marker, and a profile needing more than 255 segments, are left as
/// they were.
pub open spec fn jpeg_tagged(bytes: Seq<u8>, profile: Seq<u8>) -> Seq<u8> {
    let total = if pieces(profile.len() as int) >= 1 { pieces(profile.len() as int) } else { 1 };
    if bytes.len() < 2 || bytes[0] != 0xff || bytes[1] != 0xd8 {
        bytes
    } else if total > 255 {
        bytes
    } else {
        bytes.subrange(0, 2) + app2_segments(profile, pieces(profile.len() as int), total) + bytes.subrange(
            2,
            bytes.len() as int,
        )
    }
}

fn append(out: &mut Vec<u8>, bytes: &[u8])
    ensures
        final(out)@ == old(out)@ + bytes@,
{
    let mut k: usize = 0;
    while k < bytes.len()
        invariant
            k <= bytes@.len(),
            out@ == old(out)@ + bytes@.subrange(0, k as int),
        decreases bytes@.len() - k,
    {
        out.push(bytes[k]);
        k = k + 1;
        assert(out@ =~= old(out)@ + bytes@.subrange(0, k as int));
    }
    assert(bytes@.subrange(0, bytes@.len() as int) =~= bytes@);
}

fn push_segment(out: &mut Vec<u8>, profile: &[u8], k: usize, total: usize)
    requires
        k < pieces(profile@.len() as int),
        k < 255,
        total <= 255,
    ensures
        final(out)@ == old(out)@ + app2_segment(profile@, k as int, total as int),
{
    let start = k * PER_CHUNK;
    let end = if (k + 1) * PER_CHUNK <= profile.len() { (k + 1) * PER_CHUNK } else { profile.len() };
    let part = &profile[start..end];
    assert(part@ == piece(profile@, k as int));
    assert(part@.len() <= PER_CHUNK);
    let seg_len: u16 = (part.len() + 16) as u16;
    let mut seg: Vec<u8> = Vec::new();
    seg.push(0xff);
    seg.push(0xe2);
    seg.push((seg_len / 0x100) as u8);
    seg.push((seg_len % 0x100) as u8);
    append(&mut seg, &[0x49, 0x43, 0x43, 0x5f, 0x50, 0x52, 0x4f, 0x46, 0x49, 0x4c, 0x45, 0x00]);
    seg.push((k + 1) as u8);
    seg.push(total as u8);
    append(&mut seg, part);
    assert(seg@ =~= app2_segment(profile@, k as int, total as int));
    append(out, seg.as_slice());
}

/// Put an ICC profile into an already-encoded JPEG.
pub fn with_icc_jpeg(bytes: Vec<u8>, profile: &[u8]) -> (out: Vec<u8>)
    ensures
        out@ == jpeg_tagged(bytes@, profile@),
{
    if bytes.len() < 2 || bytes[0] != 0xff || bytes[1] != 0xd8 {
        return bytes;
    }
    let n = profile.len() / PER_CHUNK + if profile.len() % PER_CHUNK == 0 { 0 } else { 1 };
    assert(n == pieces(profile@.len() as int));
    let total = if n >= 1 { n } else { 1 };
    if total > 255 {
        return bytes;
    }
    let mut out: Vec<u8> = Vec::new();
    out.push(bytes[0]);
    out.push(bytes[1]);
    let ghost head = out@;
    assert(head =~= bytes@.subrange(0, 2));
    let mut k: usize = 0;
    while k < n
        invariant
            k <= n <= 255,
            n == pieces(profile@.len() as int),
            1 <= total <= 255,
            total == (if n >= 1 { n } else { 1 }),
            out@ == head + app2_segments(profile@, k as int, total as int),
        decreases n - k,
    {
        push_segment(&mut out, profile, k, total);
        k = k + 1;
    }
    let rest = bytes.as_slice();
    append(&mut out, &rest[2..rest.len()]);
    out
}

/// `image::ImageReader::new` over the bytes, `with_guessed_format`,
/// `into_decoder`, the decoder's `icc_profile` (read before the pixels, since
/// decoding consumes the decoder; an unreadable profile counts as none), then
/// `DynamicImage::from_decoder` and `to_rgba8`, handing back the width, the
/// height, the pixels and the profile. Format guessing and decoding consult
/// hooks that any code in the process may register, so the outcome is not a
/// function of the bytes alone and nothing is stated of it but that a
/// failure is an I/O error from guessing the format or the `image` crate's
/// own error.
#[verifier::external_body]
fn decode_image(bytes: &[u8]) -> (r: Result<(u32, u32, Vec<u8>, Option<Vec<u8>>), IoError>)
    ensures
        r is Err ==> (r matches Err(IoError::Image(_)) || r matches Err(IoError::Fs(_))),
{
    let reader = image::ImageReader::new(std::io::Cursor::new(bytes));
    let reader = reader.with_guessed_format().map_err(IoError::Fs)?;
    let mut decoder = reader.into_decoder().map_err(IoError::Image)?;
    let profile = image::ImageDecoder::icc_profile(&mut decoder).ok().flatten();
    let img = image::DynamicImage::from_decoder(decoder).map_err(IoError::Image)?.to_rgba8();
    Ok((img.width(), img.height(), img.into_raw(), profile))
}

/// An image from what a decoder handed back: its size, its 8-bit RGBA
/// pixels and the profile it carried. Pixels that are not exactly four bytes
/// for each pixel are refused. The image declares no colour space yet:
/// naming one from the profile is for the caller.
pub fn from_decoded(width: u32, height: u32, pixels: Vec<u8>, profile: Option<Vec<u8>>) -> (r: Result<
    (DecodedImage, Option<Vec<u8>>),
    IoError,
>)
    ensures
        pixels@.len() == width * height * 4 ==> {
            &&& r matches Ok((img, p))
            &&& img.width == width && img.height == height && img.pixels@ == pixels@
            &&& img.space is None
            &&& p == profile
        },
        pixels@.len() != width * height * 4 ==> (r matches Err(IoError::PixelCountMismatch { found, .. })
            && found == pixels@.len()),
{
    let expected = match sample_count(width, height, 4) {
        Some(n) => n,
        None => return Err(IoError::PixelCountMismatch { expected: usize::MAX, found: pixels.len() }),
    };
    if pixels.len() != expected {
        return Err(IoError::PixelCountMismatch { expected, found: pixels.len() });
    }
    Ok((DecodedImage { width, height, pixels, space: None }, profile))
}

/// Decode an image held in memory, taking the ICC profile it embeds on the
/// way past, and check it with [`from_decoded`]. Whatever the decoder does,
/// an image that comes back holds exactly four bytes for each pixel and
/// declares no colour space, and a failure is the decoder's, or a pixel
/// buffer of the wrong length.
pub fn load_from_memory(bytes: &[u8]) -> (r: Result<(DecodedImage, Option<Vec<u8>>), IoError>)
    ensures
        r matches Ok((img, _)) ==> img.pixels@.len() == img.width * img.height * 4 && img.space is None,
        r is Err ==> (r matches Err(IoError::Image(_)) || r matches Err(IoError::Fs(_)) || r matches Err(
            IoError::PixelCountMismatch { .. },
        )),
{
    let (width, height, pixels, profile) = match decode_image(bytes) {
        Ok(v) => v,
        Err(e) => return Err(e),
    };
    from_decoded(width, height, pixels, profile)
}

/// The PNG the `image` crate encodes for `width` by `height` 8-bit RGBA
/// pixels.
pub uninterp spec fn png_rgba8(width: u32, height: u32, pixels: Seq<u8>) -> Seq<u8>;

/// The PNG the `image` crate encodes for `width` by `height` 16-bit RGBA
/// pixels.
pub uninterp spec fn png_rgba16(width: u32, height: u32, pixels: Seq<u16>) -> Seq<u8>;

/// The JPEG the `image` crate's encoder writes at `quality` for `width` by
/// `height` 8-bit RGB pixels.
pub uninterp spec fn jpeg_rgb8(width: u32, height: u32, pixels: Seq<u8>, quality: u8) -> Seq<u8>;

/// `image::RgbaImage::from_raw` over the pixels, which holds exactly the
/// image's bytes and so always succeeds, then `write_to` a buffer in memory
/// as PNG. What it writes is [`png_rgba8`]; a failure is the `image` crate's
/// own error.
#[verifier::external_body]
fn encode_png8(width: u32, height: u32, pixels: &[u8]) -> (r: Result<Vec<u8>, IoError>)
    requires
        pixels@.len() == width * height * 4,
    ensures
        width >= 1 && height >= 1 ==> r is Ok,
        r matches Ok(v) ==> v@ == png_rgba8(width, height, pixels@),
        r is Err ==> r matches Err(IoError::Image(_)),
{
    let buf = image::RgbaImage::from_raw(width, height, pixels.to_vec()).unwrap();
    let mut bytes: Vec<u8> = Vec::new();
    buf.write_to(&mut std::io::Cursor::new(&mut bytes), image::ImageFormat::Png).map_err(IoError::Image)?;
    Ok(bytes)
}

/// `image::ImageBuffer::<Rgba<u16>, _>::from_raw` over the pixels, which
/// hold exactly the image's samples and so always succeed, then `write_to` a
/// buffer in memory as PNG. What it writes is [`png_rgba16`]; a failure is
/// the `image` crate's own error.
#[verifier::external_body]
fn encode_png16(width: u32, height: u32, pixels: &[u16]) -> (r: Result<Vec<u8>, IoError>)
    requires
        pixels@.len() == width * height * 4,
    ensures
        width >= 1 && height >= 1 ==> r is Ok,
        r matches Ok(v) ==> v@ == png_rgba16(width, height, pixels@),
        r is Err ==> r matches Err(IoError::Image(_)),
{
    let buf = image::ImageBuffer::<image::Rgba<u16>, Vec<u16>>::from_raw(width, height, pixels.to_vec()).unwrap();
    let mut bytes: Vec<u8> = Vec::new();
    buf.write_to(&mut std::io::Cursor::new(&mut bytes), image::ImageFormat::Png).map_err(IoError::Image)?;
    Ok(bytes)
}

/// `image::RgbImage::from_raw` over the pixels, which holds exactly the
/// image's bytes and so always succeeds, then
/// `JpegEncoder::new_with_quality(..).encode_image` into a buffer in memory.
/// What it writes is [`jpeg_rgb8`]; a failure is the `image` crate's own
/// error.
#[verifier::external_body]
fn encode_jpeg(width: u32, height: u32, pixels: &[u8], quality: u8) -> (r: Result<Vec<u8>, IoError>)
    requires
        pixels@.len() == width * height * 3,
    ensures
        1 <= width <= 65535 && 1 <= height <= 65535 ==> r is Ok,
        r matches Ok(v) ==> v@ == jpeg_rgb8(width, height, pixels@, quality),
        r is Err ==> r matches Err(IoError::Image(_)),
{
    let buf = image::RgbImage::from_raw(width, height, pixels.to_vec()).unwrap();
    let mut bytes: Vec<u8> = Vec::new();
    let mut encoder = image::codecs::jpeg::JpegEncoder::new_with_quality(&mut bytes, quality);
    encoder.encode_image(&buf).map_err(IoError::Image)?;
    Ok(bytes)
}

/// An encoded PNG with the profile put in, when it starts the way a PNG does.
pub open spec fn png_with_profile(encoded: Seq<u8>, profile: Seq<u8>) -> Seq<u8> {
    if png_has_ihdr(encoded) {
        png_tagged(encoded, profile)
    } else {
        encoded
    }
}

/// The red, green and blue of the first `n` RGBA pixels, alpha dropped.
pub open spec fn rgb_of(pixels: Seq<u8>, n: int) -> Seq<u8> {
    Seq::new((3 * n) as nat, |i: int| pixels[(i / 3) * 4 + i % 3])
}

/// The samples handed to the JPEG encoder are each pixel's own red, green
/// and blue, in that order, with alpha dropped: sample `3 * p + c` of the
/// first `n` pixels is channel `c` of pixel `p`.
pub proof fn lemma_samples_are_each_pixels_channels(pixels: Seq<u8>, n: int, p: int, c: int)
    requires
        0 <= p < n,
        0 <= c < 3,
        4 * n <= pixels.len(),
    ensures
        rgb_of(pixels, n).len() == 3 * n,
        0 <= 3 * p + c < 3 * n,
        rgb_of(pixels, n)[3 * p + c] == pixels[4 * p + c],
{
    assert((3 * p + c) / 3 == p && (3 * p + c) % 3 == c) by (nonlinear_arith)
        requires
            0 <= c < 3,
            0 <= p,
    ;
}

/// How many bytes `width` by `height` pixels of `channels` samples hold,
/// where that fits in memory.
fn sample_count(width: u32, height: u32, channels: usize) -> (r: Option<usize>)
    requires
        1 <= channels <= 4,
    ensures
        match r {
            Some(n) => n == width * height * channels,
            None => width * height * channels > usize::MAX,
        },
{
    assert((width as u64) * (height as u64) <= u64::MAX) by (nonlinear_arith)
        requires width <= u32::MAX, height <= u32::MAX;
    let n: u64 = (width as u64) * (height as u64);
    if n > (usize::MAX as u64) / (channels as u64) {
        assert(n * channels > usize::MAX) by (nonlinear_arith)
            requires n > (usize::MAX as u64) / (channels as u64), channels >= 1;
        return None;
    }
    assert(n * channels <= usize::MAX) by (nonlinear_arith)
        requires n <= (usize::MAX as u64) / (channels as u64), channels >= 1;
    Some((n as usize) * channels)
}

/// Encode an image as PNG, tagged with `profile`. A pixel buffer too short
/// for the image's size is refused; bytes past the image's end are not
/// written.
pub fn png_bytes(img: &DecodedImage, profile: &[u8]) -> (r: Result<Vec<u8>, IoError>)
    ensures
        img.pixels@.len() < img.width * img.height * 4 ==> (r matches Err(
            IoError::PixelCountMismatch { found, .. },
        ) && found == img.pixels@.len()),
        img.pixels@.len() >= img.width * img.height * 4 ==> {
            &&& img.width >= 1 && img.height >= 1 ==> r is Ok
            &&& r matches Ok(v) ==> v@ == png_with_profile(
                png_rgba8(img.width, img.height, img.pixels@.subrange(0, img.width * img.height * 4)),
                profile@,
            )
            &&& r is Err ==> r matches Err(IoError::Image(_))
        },
{
    let expected = match sample_count(img.width, img.height, 4) {
        Some(n) => n,
        None => return Err(IoError::PixelCountMismatch { expected: usize::MAX, found: img.pixels.len() }),
    };
    if img.pixels.len() < expected {
        return Err(IoError::PixelCountMismatch { expected, found: img.pixels.len() });
    }
    let all = img.pixels.as_slice();
    let encoded = match encode_png8(img.width, img.height, &all[0..expected]) {
        Ok(v) => v,
        Err(e) => return Err(e),
    };
    Ok(with_icc_png(encoded, profile))
}

/// Encode sixteen bits a channel as PNG, tagged with `profile`. Samples that
/// are not exactly four for each pixel are refused.
pub fn png16_bytes(width: u32, height: u32, rgba: &[u16], profile: &[u8]) -> (r: Result<Vec<u8>, IoError>)
    ensures
        rgba@.len() != width * height * 4 ==> (r matches Err(IoError::PixelCountMismatch { found, .. })
            && found == rgba@.len()),
        rgba@.len() == width * height * 4 ==> {
            &&& width >= 1 && height >= 1 ==> r is Ok
            &&& r matches Ok(v) ==> v@ == png_with_profile(png_rgba16(width, height, rgba@), profile@)
            &&& r is Err ==> r matches Err(IoError::Image(_))
        },
{
    let expected = match sample_count(width, height, 4) {
        Some(n) => n,
        None => return Err(IoError::PixelCountMismatch { expected: usize::MAX, found: rgba.len() }),
    };
    if rgba.len() != expected {
        return Err(IoError::PixelCountMismatch { expected, found: rgba.len() });
    }
    let encoded = match encode_png16(width, height, rgba) {
        Ok(v) => v,
        Err(e) => return Err(e),
    };
    Ok(with_icc_png(encoded, profile))
}

/// Encode an image as JPEG at `quality` (0 counts as 1), its alpha dropped,
/// tagged with `profile`.
pub fn jpeg_bytes(img: &DecodedImage, quality: u8, profile: &[u8]) -> (r: Result<Vec<u8>, IoError>)
    requires
        img.width * img.height * 4 <= img.pixels@.len(),
    ensures
        1 <= img.width <= 65535 && 1 <= img.height <= 65535 ==> r is Ok,
        r matches Ok(v) ==> v@ == jpeg_tagged(
            jpeg_rgb8(img.width, img.height, rgb_of(img.pixels@, img.width * img.height), if quality >= 1 { quality } else { 1 }),
            profile@,
        ),
        r is Err ==> r matches Err(IoError::Image(_)),
{
    let n = match sample_count(img.width, img.height, 1) {
        Some(n) => n,
        None => return Err(IoError::PixelCountMismatch { expected: usize::MAX, found: img.pixels.len() }),
    };
    let total: usize = img.pixels.len();
    let mut rgb: Vec<u8> = Vec::new();
    let mut p: usize = 0;
    while p < n
        invariant
            p <= n,
            total == img.pixels@.len(),
            4 * n <= total,
            n == img.width * img.height,
            4 * n <= img.pixels@.len(),
            rgb@ == rgb_of(img.pixels@, p as int),
        decreases n - p,
    {
        let at = 4 * p;
        rgb.push(img.pixels[at]);
        rgb.push(img.pixels[at + 1]);
        rgb.push(img.pixels[at + 2]);
        p = p + 1;
        assert(rgb@ =~= rgb_of(img.pixels@, p as int));
    }
    let q: u8 = if quality >= 1 { quality } else { 1 };
    let encoded = match encode_jpeg(img.width, img.height, rgb.as_slice(), q) {
        Ok(v) => v,
        Err(e) => return Err(e),
    };
    Ok(with_icc_jpeg(encoded, profile))
}

/// A zlib encoder writing into memory. flate2's generic encoder type cannot
/// be declared to the verifier, so it is held here as an opaque field and
/// spoken of only through `zlib_fed`.
#[verifier::external_body]
pub struct ZlibWriter {
    inner: flate2::write::ZlibEncoder<Vec<u8>>,
}

/// The bytes written into a zlib encoder so far.
pub uninterp spec fn zlib_fed(e: ZlibWriter) -> Seq<u8>;

/// The zlib stream flate2 produces for `data` at its default compression
/// level.
pub uninterp spec fn zlib_stream(data: Seq<u8>) -> Seq<u8>;

/// The CRC-32 register after `k` of the eight shifts a byte takes: each
/// shift drops the low bit, and a dropped one folds in the reflected
/// polynomial `0xEDB88320`.
pub open spec fn crc_shifted(c: u32, k: nat) -> u32
    decreases k,
{
    if k == 0 {
        c
    } else {
        let d = crc_shifted(c, (k - 1) as nat);
        if d & 1 == 1 {
            (d >> 1) ^ 0xEDB8_8320
        } else {
            d >> 1
        }
    }
}

/// The CRC-32 register after the bytes of `data`, starting from all ones.
pub open spec fn crc_register(data: Seq<u8>) -> u32
    decreases data.len(),
{
    if data.len() == 0 {
        0xFFFF_FFFF
    } else {
        crc_shifted(crc_register(data.drop_last()) ^ (data.last() as u32), 8)
    }
}

/// The CRC-32 of `data`, as PNG chunks and zip files carry it: the register
/// after every byte, inverted.
pub open spec fn crc32(data: Seq<u8>) -> u32 {
    crc_register(data) ^ 0xFFFF_FFFF
}

/// The CRC-32 of `data`.
pub fn crc32_of(data: &[u8]) -> (r: u32)
    ensures
        r == crc32(data@),
{
    let mut c: u32 = 0xFFFF_FFFF;
    let mut i: usize = 0;
    while i < data.len()
        invariant
            i <= data@.len(),
            c == crc_register(data@.subrange(0, i as int)),
        decreases data@.len() - i,
    {
        let start: u32 = c ^ (data[i] as u32);
        let mut d: u32 = start;
        let mut k: u32 = 0;
        while k < 8
            invariant
                k <= 8,
                d == crc_shifted(start, k as nat),
            decreases 8 - k,
        {
            if d & 1 == 1 {
                d = (d >> 1) ^ 0xEDB8_8320;
            } else {
                d = d >> 1;
            }
            k = k + 1;
        }
        assert(data@.subrange(0, i + 1).drop_last() =~= data@.subrange(0, i as int));
        c = d;
        i = i + 1;
    }
    assert(data@.subrange(0, data@.len() as int) =~= data@);
    c ^ 0xFFFF_FFFF
}

/// `flate2::write::ZlibEncoder::new` over an empty `Vec`, at
/// `flate2::Compression::default()`: an encoder that has been fed nothing.
#[verifier::external_body]
fn zlib_encoder() -> (e: ZlibWriter)
    ensures
        zlib_fed(e) == Seq::<u8>::empty(),
{
    ZlibWriter { inner: flate2::write::ZlibEncoder::new(Vec::new(), flate2::Compression::default()) }
}

/// `std::io::Write::write_all` on a zlib encoder over a `Vec`: every byte of
/// `data` is fed to the encoder after what it had before, and the call
/// succeeds. flate2 reports an error only when miniz_oxide's compressor does,
/// which it does for a bad parameter (a flush other than finishing after a
/// finish) or a failed output callback; neither occurs while an encoder that
/// has not been finished is written into memory, and `Vec`'s own `write`
/// never fails.
#[verifier::external_body]
fn zlib_write_all(e: &mut ZlibWriter, data: &[u8]) -> (r: Result<(), std::io::Error>)
    ensures
        r is Ok,
        zlib_fed(*final(e)) == zlib_fed(*old(e)) + data@,
{
    e.inner.write_all(data)
}

/// `flate2::write::ZlibEncoder::finish` over a `Vec`: it succeeds, and the
/// buffer holds the zlib stream of everything the encoder was fed. Finishing
/// flushes with the finish flag on every round, which miniz_oxide accepts
/// however often it is repeated, and writes into memory, which cannot fail.
#[verifier::external_body]
fn zlib_finish(e: ZlibWriter) -> (r: Result<Vec<u8>, std::io::Error>)
    ensures
        r is Ok,
        r matches Ok(v) ==> v@ == zlib_stream(zlib_fed(e)),
{
    e.inner.finish()
}

/// Where the `IHDR` chunk ends: the signature, then the chunk's length,
/// type, thirteen bytes of data and CRC.
pub const AFTER_IHDR: usize = 33;

/// `ICC profile`, the name the chunk gives the profile.
pub open spec fn icc_profile_name() -> Seq<u8> {
    seq![0x49u8, 0x43, 0x43, 0x20, 0x70, 0x72, 0x6f, 0x66, 0x69, 0x6c, 0x65]
}

/// The `iCCP` chunk type.
pub open spec fn iccp() -> Seq<u8> {
    seq![0x69u8, 0x43, 0x43, 0x50]
}

/// An `iCCP` chunk carrying a compressed profile: length, type, the name,
/// its terminating zero, compression method zero, the stream, and the CRC
/// of type and data.
pub open spec fn iccp_chunk(compressed: Seq<u8>) -> Seq<u8> {
    let data = icc_profile_name() + seq![0u8, 0u8] + compressed;
    be32_bytes((data.len() as u32) as int) + iccp() + data + be32_bytes(crc32(iccp() + data) as int)
}

/// Whether the bytes look like a PNG whose first chunk is `IHDR`.
pub open spec fn png_has_ihdr(bytes: Seq<u8>) -> bool {
    bytes.len() >= AFTER_IHDR && bytes.subrange(12, 16) == seq![0x49u8, 0x48, 0x44, 0x52]
}

/// A PNG with an `iCCP` chunk carrying `compressed` immediately after `IHDR`.
pub open spec fn png_with_chunk(bytes: Seq<u8>, compressed: Seq<u8>) -> Seq<u8> {
    bytes.subrange(0, AFTER_IHDR as int) + iccp_chunk(compressed) + bytes.subrange(
        AFTER_IHDR as int,
        bytes.len() as int,
    )
}

/// A PNG with an `iCCP` chunk immediately after `IHDR`, holding the zlib
/// stream of `profile`.
pub open spec fn png_tagged(bytes: Seq<u8>, profile: Seq<u8>) -> Seq<u8> {
    png_with_chunk(bytes, zlib_stream(profile))
}

/// Put an already-compressed profile into an encoded PNG, as an `iCCP` chunk
/// straight after `IHDR`. Bytes that do not start that way come back as they
/// were.
pub fn insert_iccp_chunk(bytes: Vec<u8>, compressed: &[u8]) -> (out: Vec<u8>)
    ensures
        !png_has_ihdr(bytes@) ==> out@ == bytes@,
        png_has_ihdr(bytes@) ==> out@ == png_with_chunk(bytes@, compressed@),
{
    if !has_ihdr(&bytes) {
        return bytes;
    }
    let name: [u8; 11] = [0x49, 0x43, 0x43, 0x20, 0x70, 0x72, 0x6f, 0x66, 0x69, 0x6c, 0x65];
    assert(name@ =~= icc_profile_name());
    let kind: [u8; 4] = [0x69, 0x43, 0x43, 0x50];
    assert(kind@ =~= iccp());
    let mut data: Vec<u8> = Vec::new();
    append(&mut data, &name);
    data.push(0);
    data.push(0);
    append(&mut data, compressed);
    assert(data@ =~= icc_profile_name() + seq![0u8, 0u8] + compressed@);
    let mut chunk: Vec<u8> = Vec::new();
    let len_bytes = crate::icc::be32_array(#[verifier::truncate] (data.len() as u32));
    append(&mut chunk, &len_bytes);
    append(&mut chunk, &kind);
    append(&mut chunk, data.as_slice());
    assert(chunk@ =~= be32_bytes((data@.len() as u32) as int) + iccp() + data@);
    let covered = &chunk.as_slice()[4..chunk.len()];
    let sum = crc32_of(covered);
    assert(covered@ =~= iccp() + data@);
    let sum_bytes = crate::icc::be32_array(sum);
    append(&mut chunk, &sum_bytes);
    assert(chunk@ =~= iccp_chunk(compressed@));
    let mut out: Vec<u8> = Vec::new();
    let all = bytes.as_slice();
    append(&mut out, &all[0..AFTER_IHDR]);
    append(&mut out, chunk.as_slice());
    append(&mut out, &all[AFTER_IHDR..all.len()]);
    assert(out@ =~= png_with_chunk(bytes@, compressed@));
    out
}

/// Whether the bytes are long enough to hold a signature and an `IHDR`
/// chunk, and name `IHDR` where the first chunk's type stands.
fn has_ihdr(bytes: &Vec<u8>) -> (r: bool)
    ensures
        r == png_has_ihdr(bytes@),
{
    if bytes.len() < AFTER_IHDR || !(bytes[12] == 0x49 && bytes[13] == 0x48 && bytes[14] == 0x44 && bytes[15] == 0x52) {
        proof {
            if bytes@.len() >= AFTER_IHDR {
                assert(bytes@.subrange(12, 16) != seq![0x49u8, 0x48, 0x44, 0x52]) by {
                    assert(bytes@.subrange(12, 16)[0] == bytes@[12]);
                    assert(bytes@.subrange(12, 16)[1] == bytes@[13]);
                    assert(bytes@.subrange(12, 16)[2] == bytes@[14]);
                    assert(bytes@.subrange(12, 16)[3] == bytes@[15]);
                }
            }
        }
        return false;
    }
    assert(bytes@.subrange(12, 16) =~= seq![0x49u8, 0x48, 0x44, 0x52]);
    true
}

/// Put an ICC profile into an already-encoded PNG, as an `iCCP` chunk
/// straight after `IHDR`, its data the zlib stream of the profile. Bytes that
/// do not start that way come back as they were.
pub fn with_icc_png(bytes: Vec<u8>, profile: &[u8]) -> (out: Vec<u8>)
    ensures
        !png_has_ihdr(bytes@) ==> out@ == bytes@,
        png_has_ihdr(bytes@) ==> out@ == png_tagged(bytes@, profile@),
{
    if !has_ihdr(&bytes) {
        return bytes;
    }
    let mut encoder = zlib_encoder();
    match zlib_write_all(&mut encoder, profile) {
        Ok(()) => {},
        Err(_) => return bytes,
    }
    let compressed = match zlib_finish(encoder) {
        Ok(v) => v,
        Err(_) => return bytes,
    };
    assert(compressed@ == zlib_stream(profile@));
    insert_iccp_chunk(bytes, compressed.as_slice())
}

// Thumbnails.

/// The first source row (or column) that output row `i` of `dst` averages,
/// out of `src`.
pub open spec fn cell_start(i: int, src: int, dst: int) -> int {
    i * src / dst
}

/// One past the last source row (or column) that output row `i` averages:
/// derived from the edges rather than a fixed block size, so that a size
/// that does not divide evenly still covers every source pixel, and never
/// empty.
pub open spec fn cell_end(i: int, src: int, dst: int) -> int {
    let up = ((i + 1) * src + dst - 1) / dst;
    let hi = if up <= src { up } else { src };
    if hi > cell_start(i, src, dst) { hi } else { cell_start(i, src, dst) + 1 }
}

/// Pixel `x`, `y` of a `w` by `h` thumbnail of `img`, as `out` holds it:
/// what `mean` gives for the source cell it covers, fully opaque.
pub open spec fn thumb_pixel_ok<F: Fn(&DecodedImage, u32, u32, u32, u32) -> (u8, u8, u8)>(
    img: &DecodedImage,
    mean: F,
    w: int,
    h: int,
    out: Seq<u8>,
    x: int,
    y: int,
) -> bool {
    let i = (y * w + x) * 4;
    &&& 0 <= i
    &&& i + 4 <= out.len()
    &&& call_ensures(
        mean,
        (
            img,
            cell_start(x, img.width as int, w) as u32,
            cell_end(x, img.width as int, w) as u32,
            cell_start(y, img.height as int, h) as u32,
            cell_end(y, img.height as int, h) as u32,
        ),
        (out[i], out[i + 1], out[i + 2]),
    )
    &&& out[i + 3] == 255
}

proof fn lemma_cell_inside(i: int, src: int, dst: int)
    requires
        0 <= i < dst,
        1 <= src,
    ensures
        0 <= cell_start(i, src, dst) < cell_end(i, src, dst) <= src,
{
    assert(0 <= i * src / dst < src) by (nonlinear_arith)
        requires
            0 <= i < dst,
            1 <= src,
    ;
}

/// The blocks a reduction averages cover the whole frame: every source row
/// (or column) `s` lies in the block of some output row, whatever the ratio.
pub proof fn lemma_cells_cover_the_frame(src: int, dst: int, s: int)
    requires
        1 <= src,
        1 <= dst,
        0 <= s < src,
    ensures
        exists|i: int| 0 <= i < dst && cell_start(i, src, dst) <= s < #[trigger] cell_end(i, src, dst),
{
    let i = s * dst / src;
    assert(0 <= i < dst && i * src <= s * dst && s * dst < (i + 1) * src) by (nonlinear_arith)
        requires
            1 <= src,
            1 <= dst,
            0 <= s < src,
            i == s * dst / src,
    ;
    assert(i * src / dst <= s) by (nonlinear_arith)
        requires
            1 <= dst,
            i * src <= s * dst,
    ;
    assert(s < ((i + 1) * src + dst - 1) / dst) by (nonlinear_arith)
        requires
            1 <= dst,
            s * dst < (i + 1) * src,
    ;
    assert(cell_start(i, src, dst) <= s < cell_end(i, src, dst));
}

proof fn lemma_earlier_pixel(w: int, xx: int, yy: int, x: int, y: int)
    requires
        0 <= xx < w,
        0 <= x <= w,
        0 <= yy <= y,
        yy < y || xx < x,
    ensures
        (yy * w + xx) * 4 + 4 <= (y * w + x) * 4,
{
    if yy < y {
        assert(yy * w + w <= y * w) by (nonlinear_arith)
            requires
                yy < y,
                0 <= w,
        ;
    }
}

/// The source rows (or columns) output row `i` of `dst` averages, out of
/// `src`: the first, and one past the last.
fn cell(i: u32, src: u32, dst: u32) -> (r: (u32, u32))
    requires
        i < dst,
        1 <= src,
    ensures
        r.0 == cell_start(i as int, src as int, dst as int),
        r.1 == cell_end(i as int, src as int, dst as int),
        r.0 < r.1 <= src,
{
    proof {
        lemma_cell_inside(i as int, src as int, dst as int);
        assert(((i as int) + 1) * (src as int) <= 0x1_0000_0000 * 0xffff_ffff) by (nonlinear_arith)
            requires
                0 <= i <= 0xffff_ffff,
                0 <= src <= 0xffff_ffff,
        ;
        assert((i as int) * (src as int) <= ((i as int) + 1) * (src as int)) by (nonlinear_arith)
            requires
                0 <= src,
        ;
    }
    let start = ((i as u128) * (src as u128) / (dst as u128)) as u32;
    let up: u128 = ((i as u128) + 1) * (src as u128) + (dst as u128) - 1;
    let up = up / (dst as u128);
    let hi = if up <= src as u128 { up as u32 } else { src };
    let end = if hi > start { hi } else { start + 1 };
    (start, end)
}

/// A box-filtered reduction of `img` to `w` by `h` pixels. Each output pixel
/// is what `mean` gives for the half-open block of source columns and rows
/// it covers (`x0`, `x1`, `y0`, `y1`), made opaque; the blocks are derived
/// from the edges, so an awkward ratio still covers every source pixel. Asked
/// for the size it already has, the image comes back as it is.
pub fn thumbnail<F: Fn(&DecodedImage, u32, u32, u32, u32) -> (u8, u8, u8)>(
    img: &DecodedImage,
    w: u32,
    h: u32,
    mean: F,
) -> (r: DecodedImage)
    requires
        img.width >= 1,
        img.height >= 1,
        img.pixels@.len() >= img.width * img.height * 4,
        w >= 1,
        h >= 1,
        forall|x0: u32, x1: u32, y0: u32, y1: u32|
            x0 < x1 <= img.width && y0 < y1 <= img.height ==> call_requires(mean, (img, x0, x1, y0, y1)),
    ensures
        w == img.width && h == img.height ==> r.width == img.width && r.height == img.height && r.pixels@
            == img.pixels@ && r.space == img.space,
        !(w == img.width && h == img.height) ==> {
            &&& r.width == w
            &&& r.height == h
            &&& r.space is None
            &&& r.pixels@.len() == w * h * 4
            &&& forall|x: int, y: int|
                0 <= x < w && 0 <= y < h ==> #[trigger] thumb_pixel_ok(img, mean, w as int, h as int, r.pixels@, x, y)
        },
{
    if w == img.width && h == img.height {
        let pixels = img.pixels.clone();
        assert(pixels@ =~= img.pixels@);
        return DecodedImage { width: img.width, height: img.height, pixels, space: img.space };
    }
    let mut out: Vec<u8> = Vec::new();
    let mut y: u32 = 0;
    while y < h
        invariant
            w >= 1,
            h >= 1,
            y <= h,
            img.width >= 1,
            img.height >= 1,
            forall|x0: u32, x1: u32, y0: u32, y1: u32|
                x0 < x1 <= img.width && y0 < y1 <= img.height ==> call_requires(mean, (img, x0, x1, y0, y1)),
            out@.len() == (y * w) * 4,
            forall|xx: int, yy: int|
                0 <= xx < w && 0 <= yy < y ==> #[trigger] thumb_pixel_ok(img, mean, w as int, h as int, out@, xx, yy),
        decreases h - y,
    {
        let (y0, y1) = cell(y, img.height, h);
        let mut x: u32 = 0;
        while x < w
            invariant
                w >= 1,
                h >= 1,
                y < h,
                x <= w,
                img.width >= 1,
                y0 == cell_start(y as int, img.height as int, h as int),
                y1 == cell_end(y as int, img.height as int, h as int),
                y0 < y1 <= img.height,
                forall|x0: u32, x1: u32, y0: u32, y1: u32|
                    x0 < x1 <= img.width && y0 < y1 <= img.height ==> call_requires(mean, (img, x0, x1, y0, y1)),
                out@.len() == (y * w + x) * 4,
                forall|xx: int, yy: int|
                    0 <= xx < w && 0 <= yy <= y && (yy < y || xx < x) ==> #[trigger] thumb_pixel_ok(
                        img,
                        mean,
                        w as int,
                        h as int,
                        out@,
                        xx,
                        yy,
                    ),
            decreases w - x,
        {
            let (x0, x1) = cell(x, img.width, w);
            let (red, green, blue) = mean(img, x0, x1, y0, y1);
            let ghost before = out@;
            out.push(red);
            out.push(green);
            out.push(blue);
            out.push(255);
            proof {
                assert forall|xx: int, yy: int|
                    0 <= xx < w && 0 <= yy <= y && (yy < y || xx < x + 1) implies #[trigger] thumb_pixel_ok(
                    img,
                    mean,
                    w as int,
                    h as int,
                    out@,
                    xx,
                    yy,
                ) by {
                    if yy < y || xx < x {
                        lemma_earlier_pixel(w as int, xx, yy, x as int, y as int);
                        assert(thumb_pixel_ok(img, mean, w as int, h as int, before, xx, yy));
                        let i = (yy * w + xx) * 4;
                        assert(out@[i] == before[i] && out@[i + 1] == before[i + 1] && out@[i + 2] == before[i + 2]
                            && out@[i + 3] == before[i + 3]);
                    } else {
                        assert(xx == x && yy == y);
                        let i = (yy * w + xx) * 4;
                        assert(i == before.len());
                        assert(out@[i] == red && out@[i + 1] == green && out@[i + 2] == blue && out@[i + 3] == 255);
                    }
                }
            }
            x = x + 1;
        }
        proof {
            assert((y + 1) * w == y * w + w) by (nonlinear_arith);
        }
        y = y + 1;
    }
    proof {
        assert(h * w == w * h) by (nonlinear_arith);
    }
    DecodedImage { width: w, height: h, pixels: out, space: None }
}

/// Pixel `x`, `y` of a `w` by `h` chart as `out` holds it: the colour
/// `colour_at` gives for that place, fully opaque.
pub open spec fn chart_pixel_ok<F: Fn(u32, u32, u32, u32) -> (u8, u8, u8)>(
    colour_at: F,
    w: u32,
    h: u32,
    out: Seq<u8>,
    x: int,
    y: int,
) -> bool {
    let i = (y * w + x) * 4;
    &&& 0 <= i
    &&& i + 4 <= out.len()
    &&& call_ensures(colour_at, (x as u32, y as u32, w, h), (out[i], out[i + 1], out[i + 2]))
    &&& out[i + 3] == 255
}

/// Every byte of a `w` by `h` chart belongs to one pixel's run of four.
proof fn lemma_byte_in_pixel(w: int, h: int, k: int)
    requires
        w > 0,
        h > 0,
        0 <= k < w * h * 4,
    ensures
        0 <= (k / 4) % w < w,
        0 <= (k / 4) / w < h,
        k == (((k / 4) / w) * w + (k / 4) % w) * 4 + k % 4,
        0 <= k % 4 < 4,
{
    let p = k / 4;
    assert(k == 4 * p + k % 4 && 0 <= k % 4 < 4 && p >= 0);
    assert(p == w * (p / w) + p % w && 0 <= p % w < w) by (nonlinear_arith)
        requires w > 0, p >= 0;
    assert(p < w * h) by (nonlinear_arith)
        requires k == 4 * p + k % 4, 0 <= k % 4 < 4, k < w * h * 4;
    assert(p / w < h) by (nonlinear_arith)
        requires p == w * (p / w) + p % w, 0 <= p % w, p < w * h, w > 0;
    assert(p / w >= 0) by (nonlinear_arith)
        requires p >= 0, w > 0;
    assert(((p / w) * w + p % w) * 4 + k % 4 == k) by (nonlinear_arith)
        requires p == w * (p / w) + p % w, k == 4 * p + k % 4;
}

/// The chart is deterministic: two charts of one size, built from a colour
/// function that gives one answer for each pixel, hold the same pixels.
pub proof fn lemma_the_test_chart_is_deterministic<F: Fn(u32, u32, u32, u32) -> (u8, u8, u8)>(
    colour_at: F,
    width: u32,
    height: u32,
    a: Seq<u8>,
    b: Seq<u8>,
)
    requires
        forall|args: (u32, u32, u32, u32), r1: (u8, u8, u8), r2: (u8, u8, u8)|
            call_ensures(colour_at, args, r1) && call_ensures(colour_at, args, r2) ==> r1 == r2,
        a.len() == width * height * 4,
        b.len() == width * height * 4,
        forall|x: int, y: int|
            0 <= x < width && 0 <= y < height ==> #[trigger] chart_pixel_ok(colour_at, width, height, a, x, y),
        forall|x: int, y: int|
            0 <= x < width && 0 <= y < height ==> #[trigger] chart_pixel_ok(colour_at, width, height, b, x, y),
    ensures
        a == b,
{
    assert forall|k: int| 0 <= k < a.len() implies a[k] == b[k] by {
        let w = width as int;
        let h = height as int;
        assert(w > 0 && h > 0) by (nonlinear_arith)
            requires 0 <= k < w * h * 4, w >= 0, h >= 0;
        lemma_byte_in_pixel(w, h, k);
        let x = (k / 4) % w;
        let y = (k / 4) / w;
        assert(chart_pixel_ok(colour_at, width, height, a, x, y));
        assert(chart_pixel_ok(colour_at, width, height, b, x, y));
    }
    assert(a =~= b);
}

/// A deterministic test image, built in sRGB: each pixel is the colour
/// `colour_at` gives for its column, row and the chart's size, opaque.
pub fn test_chart<F: Fn(u32, u32, u32, u32) -> (u8, u8, u8)>(width: u32, height: u32, colour_at: F) -> (r:
    DecodedImage)
    requires
        width * height * 4 <= usize::MAX,
        forall|x: u32, y: u32| x < width && y < height ==> call_requires(colour_at, (x, y, width, height)),
    ensures
        r.width == width,
        r.height == height,
        r.space == Some("sRGB"),
        r.pixels@.len() == width * height * 4,
        forall|x: int, y: int|
            0 <= x < width && 0 <= y < height ==> #[trigger] chart_pixel_ok(colour_at, width, height, r.pixels@, x, y),
{
    let mut out: Vec<u8> = Vec::new();
    let mut y: u32 = 0;
    while y < height
        invariant
            y <= height,
            forall|x: u32, y: u32| x < width && y < height ==> call_requires(colour_at, (x, y, width, height)),
            out@.len() == (y * width) * 4,
            forall|xx: int, yy: int|
                0 <= xx < width && 0 <= yy < y ==> #[trigger] chart_pixel_ok(colour_at, width, height, out@, xx, yy),
        decreases height - y,
    {
        let mut x: u32 = 0;
        while x < width
            invariant
                y < height,
                x <= width,
                forall|x: u32, y: u32| x < width && y < height ==> call_requires(colour_at, (x, y, width, height)),
                out@.len() == (y * width + x) * 4,
                forall|xx: int, yy: int|
                    0 <= xx < width && 0 <= yy <= y && (yy < y || xx < x) ==> #[trigger] chart_pixel_ok(
                        colour_at,
                        width,
                        height,
                        out@,
                        xx,
                        yy,
                    ),
            decreases width - x,
        {
            let (red, green, blue) = colour_at(x, y, width, height);
            let ghost before = out@;
            out.push(red);
            out.push(green);
            out.push(blue);
            out.push(255);
            proof {
                assert forall|xx: int, yy: int|
                    0 <= xx < width && 0 <= yy <= y && (yy < y || xx < x + 1) implies #[trigger] chart_pixel_ok(
                    colour_at,
                    width,
                    height,
                    out@,
                    xx,
                    yy,
                ) by {
                    if yy < y || xx < x {
                        lemma_earlier_pixel(width as int, xx, yy, x as int, y as int);
                        assert(chart_pixel_ok(colour_at, width, height, before, xx, yy));
                        let i = (yy * width + xx) * 4;
                        assert(out@[i] == before[i] && out@[i + 1] == before[i + 1] && out@[i + 2] == before[i + 2]
                            && out@[i + 3] == before[i + 3]);
                    } else {
                        let i = (yy * width + xx) * 4;
                        assert(i == before.len());
                        assert(out@[i] == red && out@[i + 1] == green && out@[i + 2] == blue && out@[i + 3] == 255);
                    }
                }
            }
            x = x + 1;
        }
        proof {
            assert((y + 1) * width == y * width + width) by (nonlinear_arith);
        }
        y = y + 1;
    }
    proof {
        assert(height * width == width * height) by (nonlinear_arith);
    }
    DecodedImage { width, height, pixels: out, space: Some("sRGB") }
}

/// Tagging a file does not disturb it: a tagged JPEG is the untagged file's
/// start-of-image marker, the profile's segments, then every other byte of
/// the untagged file in order; a tagged PNG is the untagged file's signature
/// and header, the profile's chunk, then the rest of it in order.
pub proof fn lemma_tagging_keeps_the_file(bytes: Seq<u8>, profile: Seq<u8>)
    ensures
        ({
            let out = jpeg_tagged(bytes, profile);
            let tail = bytes.len() - 2;
            bytes.len() >= 2 ==> out.len() >= bytes.len() && out.subrange(0, 2) == bytes.subrange(0, 2)
                && out.subrange(out.len() - tail, out.len() as int) == bytes.subrange(2, bytes.len() as int)
        }),
        ({
            let out = png_tagged(bytes, profile);
            let tail = bytes.len() - AFTER_IHDR;
            png_has_ihdr(bytes) ==> out.len() >= bytes.len() && out.subrange(0, AFTER_IHDR as int)
                == bytes.subrange(0, AFTER_IHDR as int) && out.subrange(out.len() - tail, out.len() as int)
                == bytes.subrange(AFTER_IHDR as int, bytes.len() as int)
        }),
{
    if bytes.len() >= 2 {
        let out = jpeg_tagged(bytes, profile);
        if out != bytes {
            let tail = bytes.len() - 2;
            let total = if pieces(profile.len() as int) >= 1 { pieces(profile.len() as int) } else { 1 };
            let mid = app2_segments(profile, pieces(profile.len() as int), total);
            assert(out == bytes.subrange(0, 2) + mid + bytes.subrange(2, bytes.len() as int));
            assert(out.subrange(0, 2) =~= bytes.subrange(0, 2));
            assert(out.subrange(out.len() - tail, out.len() as int) =~= bytes.subrange(2, bytes.len() as int));
        } else {
            assert(out.subrange(out.len() - (bytes.len() - 2), out.len() as int) =~= bytes.subrange(
                2,
                bytes.len() as int,
            ));
        }
    }
    if png_has_ihdr(bytes) {
        let out = png_tagged(bytes, profile);
        let tail = bytes.len() - AFTER_IHDR;
        assert(out.subrange(0, AFTER_IHDR as int) =~= bytes.subrange(0, AFTER_IHDR as int));
        assert(out.subrange(out.len() - tail, out.len() as int) =~= bytes.subrange(
            AFTER_IHDR as int,
            bytes.len() as int,
        ));
    }
}

} // verus!
