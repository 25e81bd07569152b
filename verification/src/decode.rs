//! Decoding image files: the codec is the `image` crate's, what the
//! engine keeps of its output is decided here.

use std::io::Cursor;

use image::codecs::gif::GifDecoder;
use image::AnimationDecoder;
use vstd::prelude::*;

use crate::pixels::{PixelSize, TextureRawData};
use crate::text_cache::copy_vec;

verus! {

/// What `image::load_from_memory` decodes `bytes` to: the pixels as RGBA
/// bytes, the width, the height, and the channel count of the file's own
/// color type. `None` when the bytes do not decode.
pub uninterp spec fn decoded_rgba(bytes: Seq<u8>) -> Option<(Seq<u8>, u32, u32, u8)>;

/// `image::load_from_memory` on `bytes`, the result converted to RGBA
/// (`DynamicImage::to_rgba8`), with the size and the channel count of its
/// color type; the decoder's error as text.
#[verifier::external_body]
fn load_rgba(bytes: &[u8]) -> (r: Result<TextureRawData, String>)
    ensures
        r is Err <==> decoded_rgba(bytes@) is None,
        r matches Ok(t) ==> decoded_rgba(bytes@) == Some(
            (t.data@, t.size.width, t.size.height, t.channels),
        ),
{
    match image::load_from_memory(bytes) {
        Ok(image) => Ok(TextureRawData {
            data: image.to_rgba8().into_raw(),
            size: PixelSize { width: image.width(), height: image.height() },
            channels: image.color().channel_count(),
        }),
        Err(err) => Err(err.to_string()),
    }
}

/// The raw data of an encoded image file: its pixels as RGBA bytes, its
/// size, and the channel count the file itself has. An error when the
/// bytes are no image the codec reads.
pub fn parse_dynamic_image(bytes: &[u8]) -> (r: Result<TextureRawData, String>)
    ensures
        r is Err <==> decoded_rgba(bytes@) is None,
        r matches Ok(t) ==> decoded_rgba(bytes@) == Some(
            (t.data@, t.size.width, t.size.height, t.channels),
        ),
{
    load_rgba(bytes)
}

/// What `image::codecs::gif::GifDecoder` decodes `bytes` to, every frame
/// collected: each frame's RGBA pixels composited to the full canvas, its
/// width and height, and its delay in milliseconds as the numerator and
/// denominator `Delay::numer_denom_ms` gives. `None` when the bytes do not
/// decode.
pub uninterp spec fn gif_frames(bytes: Seq<u8>) -> Option<Seq<(Seq<u8>, u32, u32, u32, u32)>>;

/// The decoded frames as byte sequences.
pub open spec fn frames_view(v: Seq<(Vec<u8>, u32, u32, u32, u32)>) -> Seq<(Seq<u8>, u32, u32, u32, u32)> {
    v.map_values(|f: (Vec<u8>, u32, u32, u32, u32)| (f.0@, f.1, f.2, f.3, f.4))
}

/// `GifDecoder::new` on `data` and `collect_frames` of its frames, each
/// frame as its pixels, width, height and `numer_denom_ms` delay.
#[verifier::external_body]
fn gif_decode(data: &[u8]) -> (r: Option<Vec<(Vec<u8>, u32, u32, u32, u32)>>)
    ensures
        r is None <==> gif_frames(data@) is None,
        r matches Some(v) ==> gif_frames(data@) == Some(frames_view(v@)),
{
    let decoder = GifDecoder::new(Cursor::new(data)).ok()?;
    let frames = decoder.into_frames().collect_frames().ok()?;
    Some(frames.into_iter().map(|frame| {
        let (numer, denom) = frame.delay().numer_denom_ms();
        let pixels = frame.into_buffer();
        let (width, height) = (pixels.width(), pixels.height());
        (pixels.into_raw(), width, height, numer, denom)
    }).collect())
}

/// Why a gif cannot be shown.
#[derive(Clone, Copy, Debug, PartialEq, Eq, Structural)]
pub enum GifError {
    /// The bytes are no gif the codec reads.
    Decode,
    /// The gif decodes to no frame at all.
    NoFrames,
}

/// One frame of a gif: straight RGBA pixels of the full canvas, and how
/// long it shows, in milliseconds as a fraction whose denominator is at
/// least 1.
pub struct GifFrame {
    pub pixels: Vec<u8>,
    pub delay_numer: u32,
    pub delay_denom: u32,
}

/// A decoded gif: the size of its canvas, the first frame's, and its
/// frames in order.
pub struct DecodedFrames {
    pub width: u32,
    pub height: u32,
    pub frames: Vec<GifFrame>,
}

/// `d` at least 1.
pub open spec fn at_least_one(d: u32) -> u32 {
    if d == 0 {
        1
    } else {
        d
    }
}

/// The frames of an animated gif, composited by the decoder so every
/// frame is the whole canvas, with the delays kept as millisecond
/// fractions. A gif without frames is refused.
pub fn decode_gif(data: &[u8]) -> (r: Result<DecodedFrames, GifError>)
    ensures
        r matches Err(GifError::Decode) <==> gif_frames(data@) is None,
        r matches Err(GifError::NoFrames) <==> (gif_frames(data@) matches Some(fs) && fs.len() == 0),
        r matches Ok(d) ==> gif_frames(data@) matches Some(fs) && fs.len() > 0 && d.width == fs[0].1
            && d.height == fs[0].2 && d.frames.len() == fs.len() && forall|i: int|
            0 <= i < fs.len() ==> (#[trigger] d.frames@[i]).pixels@ == fs[i].0 && d.frames@[i].delay_numer
                == fs[i].3 && d.frames@[i].delay_denom == at_least_one(fs[i].4),
{
    let raw = match gif_decode(data) {
        Some(raw) => raw,
        None => return Err(GifError::Decode),
    };
    if raw.len() == 0 {
        return Err(GifError::NoFrames);
    }
    let ghost fs = frames_view(raw@);
    let width = raw[0].1;
    let height = raw[0].2;
    let mut frames: Vec<GifFrame> = Vec::new();
    let mut i: usize = 0;
    while i < raw.len()
        invariant
            i <= raw.len(),
            fs == frames_view(raw@),
            frames.len() == i,
            forall|k: int|
                0 <= k < i ==> (#[trigger] frames@[k]).pixels@ == fs[k].0 && frames@[k].delay_numer
                    == fs[k].3 && frames@[k].delay_denom == at_least_one(fs[k].4),
        decreases raw.len() - i,
    {
        let frame = &raw[i];
        let denom = if frame.4 == 0 {
            1
        } else {
            frame.4
        };
        frames.push(GifFrame { pixels: copy_vec(&frame.0), delay_numer: frame.3, delay_denom: denom });
        i = i + 1;
    }
    Ok(DecodedFrames { width, height, frames })
}

} // verus!
