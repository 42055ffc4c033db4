//! Converting uploaded pictures to WebP thumbnails that fit 400x400 pixels.
//! WebP input is kept as it is, an animated GIF is re-encoded frame by frame
//! as an animated WebP, anything else is decoded, scaled and encoded as WebP.

use vstd::prelude::*;
use image::{AnimationDecoder, DynamicImage, Frame, ImageFormat};
use webp_animation::Encoder;

verus! {

/// The longest side, in pixels, of a converted picture.
pub const THUMBNAIL_SIZE: u32 = 400;

#[verifier::external_type_specification]
#[verifier::external_body]
pub struct ExEncoder(Encoder);

/// The picture format, as far as the conversion tells formats apart.
#[derive(PartialEq, Eq, Structural, Debug, Clone, Copy)]
pub enum ImageKind {
    WebP,
    Gif,
    Other,
}

/// The format that `image::guess_format` reads from the magic bytes at the
/// start of a file, or `None` where it recognizes none.
pub uninterp spec fn guessed_format(bytes: Seq<u8>) -> Option<ImageKind>;

/// `image::guess_format`: the format named by the magic bytes of `bytes`.
#[verifier::external_body]
fn guess_image_format(bytes: &[u8]) -> (r: Option<ImageKind>)
    ensures
        r == guessed_format(bytes@),
{
    match image::guess_format(bytes) {
        Ok(ImageFormat::WebP) => Some(ImageKind::WebP),
        Ok(ImageFormat::Gif) => Some(ImageKind::Gif),
        Ok(_) => Some(ImageKind::Other),
        Err(_) => None,
    }
}

/// A frame of an animation as plain values: its size, its RGBA pixels row by
/// row, and its delay in milliseconds as a fraction.
pub struct GifFrame {
    pub width: u32,
    pub height: u32,
    pub pixels: Vec<u8>,
    pub delay: (u32, u32),
}

pub struct GifFrameView {
    pub width: u32,
    pub height: u32,
    pub pixels: Seq<u8>,
    pub delay: (u32, u32),
}

impl View for GifFrame {
    type V = GifFrameView;

    open spec fn view(&self) -> GifFrameView {
        GifFrameView {
            width: self.width,
            height: self.height,
            pixels: self.pixels@,
            delay: self.delay,
        }
    }
}

pub open spec fn frames_view(fs: Seq<GifFrame>) -> Seq<GifFrameView> {
    fs.map_values(|f: GifFrame| f@)
}

/// The frames that image's GIF decoder yields for `bytes`, or `None` where the
/// GIF or one of its frames does not decode.
pub uninterp spec fn decoded_gif(bytes: Seq<u8>) -> Option<Seq<GifFrameView>>;

/// `GifDecoder::new` and `AnimationDecoder::into_frames`, collected, each
/// frame taken apart by `Frame::delay` (`Delay::numer_denom_ms`) and
/// `Frame::into_buffer` (`ImageBuffer::width`, `height`, `into_raw`). image
/// builds every delay through `Ratio::new`, which refuses a zero denominator,
/// and every buffer through `ImageBuffer::from_raw` or `from_fn`, which hold at
/// least four bytes for each pixel.
#[verifier::external_body]
fn decode_gif_frames(bytes: &[u8]) -> (r: Option<Vec<GifFrame>>)
    ensures
        (match r {
            Some(v) => decoded_gif(bytes@) == Some(frames_view(v@)),
            None => decoded_gif(bytes@) is None,
        }),
        r matches Some(v) ==> forall|i: int|
            0 <= i < v@.len() ==> (#[trigger] v@[i]).delay.1 != 0 && v@[i].pixels@.len()
                >= v@[i].width * v@[i].height * 4,
{
    let decoder = image::codecs::gif::GifDecoder::new(std::io::Cursor::new(bytes)).ok()?;
    let frames = decoder.into_frames().collect::<Result<Vec<Frame>, _>>().ok()?;
    Some(frames.into_iter().map(|f| {
        let delay = f.delay().numer_denom_ms();
        let buffer = f.into_buffer();
        GifFrame { width: buffer.width(), height: buffer.height(), pixels: buffer.into_raw(), delay }
    }).collect())
}

/// The size and RGBA pixels of `DynamicImage::thumbnail` of an RGBA picture:
/// the picture scaled to fit `max_width` x `max_height`, keeping its aspect
/// ratio.
pub uninterp spec fn rgba_thumbnail(
    width: u32,
    height: u32,
    pixels: Seq<u8>,
    max_width: u32,
    max_height: u32,
) -> (u32, u32, Seq<u8>);

/// `ImageBuffer::from_raw` of RGBA pixels, `DynamicImage::thumbnail`, and
/// `to_rgba8` with its size and raw pixels.
#[verifier::external_body]
fn thumbnail_rgba(width: u32, height: u32, pixels: &Vec<u8>, max_width: u32, max_height: u32) -> (r: (
    u32,
    u32,
    Vec<u8>,
))
    requires
        pixels@.len() >= width * height * 4,
    ensures
        (r.0, r.1, r.2@) == rgba_thumbnail(width, height, pixels@, max_width, max_height),
{
    let buffer = image::RgbaImage::from_raw(width, height, pixels.clone()).unwrap();
    let thumb = DynamicImage::ImageRgba8(buffer).thumbnail(max_width, max_height).to_rgba8();
    (thumb.width(), thumb.height(), thumb.into_raw())
}

/// Whether `webp_animation::Encoder::new` makes an encoder for frames of
/// `width` x `height`.
pub uninterp spec fn webp_encoder_accepts(width: u32, height: u32) -> bool;

/// The size an encoder was made for.
pub uninterp spec fn encoder_size(e: Encoder) -> (u32, u32);

/// The frames an encoder holds, each with its timestamp, in the order they
/// were added.
pub uninterp spec fn encoder_frames(e: Encoder) -> Seq<(Seq<u8>, i32)>;

/// Whether `Encoder::add_frame` takes a frame with the given pixels and
/// timestamp, on an encoder of the given size that holds `frames`.
pub uninterp spec fn webp_frame_added(
    size: (u32, u32),
    frames: Seq<(Seq<u8>, i32)>,
    rgba: Seq<u8>,
    timestamp_ms: i32,
) -> bool;

/// What `Encoder::finalize` makes of an encoder of the given size that holds
/// `frames`, with the last frame ending at `end_ms`: the encoded animation, or
/// `None` where encoding fails.
pub uninterp spec fn webp_animation(size: (u32, u32), frames: Seq<(Seq<u8>, i32)>, end_ms: i32) -> Option<
    Seq<u8>,
>;

/// `webp_animation::Encoder::new` for frames of `width` x `height`: an empty
/// encoder, or `None` where it is refused.
#[verifier::external_body]
fn new_encoder(width: u32, height: u32) -> (r: Option<Encoder>)
    ensures
        r is Some <==> webp_encoder_accepts(width, height),
        r matches Some(e) ==> encoder_size(e) == (width, height) && encoder_frames(e).len() == 0,
{
    Encoder::new((width, height)).ok()
}

/// `Encoder::add_frame`: the encoder with the frame added, or `None` where it
/// is refused (the encoder is then dropped). It refuses, among others, a
/// timestamp that is not above the previous frame's.
#[verifier::external_body]
fn encoder_add_frame(encoder: Encoder, rgba: &[u8], timestamp_ms: i32) -> (r: Option<Encoder>)
    ensures
        r is Some <==> webp_frame_added(
            encoder_size(encoder),
            encoder_frames(encoder),
            rgba@,
            timestamp_ms,
        ),
        r matches Some(e) ==> encoder_size(e) == encoder_size(encoder) && encoder_frames(e)
            == encoder_frames(encoder).push((rgba@, timestamp_ms)),
{
    let mut encoder = encoder;
    encoder.add_frame(rgba, timestamp_ms).ok()?;
    Some(encoder)
}

pub open spec fn opt_bytes(r: Option<Vec<u8>>) -> Option<Seq<u8>> {
    match r {
        Some(v) => Some(v@),
        None => None,
    }
}

/// `Encoder::finalize`: the encoded animation, or `None` where encoding fails.
#[verifier::external_body]
fn encoder_finalize(encoder: Encoder, timestamp_ms: i32) -> (r: Option<Vec<u8>>)
    ensures
        opt_bytes(r) == webp_animation(encoder_size(encoder), encoder_frames(encoder), timestamp_ms),
{
    encoder.finalize(timestamp_ms).ok().map(|data| data.to_vec())
}

/// What `image::load_from_memory`, `DynamicImage::thumbnail` and
/// `DynamicImage::write_to` in WebP format make of a picture: the WebP of the
/// picture scaled to fit `max_width` x `max_height`, or `None` where decoding
/// or encoding fails.
pub uninterp spec fn webp_thumbnail_of(bytes: Seq<u8>, max_width: u32, max_height: u32) -> Option<
    Seq<u8>,
>;

/// `image::load_from_memory`, `DynamicImage::thumbnail`, and
/// `DynamicImage::write_to` in WebP format.
#[verifier::external_body]
fn webp_thumbnail(bytes: &[u8], max_width: u32, max_height: u32) -> (r: Option<Vec<u8>>)
    ensures
        opt_bytes(r) == webp_thumbnail_of(bytes@, max_width, max_height),
{
    let img = image::load_from_memory(bytes).ok()?;
    let mut buffer = Vec::new();
    let thumb = img.thumbnail(max_width, max_height);
    thumb.write_to(&mut std::io::Cursor::new(&mut buffer), ImageFormat::WebP).ok()?;
    Some(buffer)
}

/// The whole milliseconds of a delay given as a fraction, as an `i32` (a cast
/// of `u32` to `i32` wraps).
pub open spec fn delay_ms(delay: (u32, u32)) -> i32 {
    (delay.0 / delay.1) as i32
}

/// The timestamp of frame `i` of an animation: the sum of the delays of the
/// frames before it, added with `i32` wrapping. Timestamp `n` (one past the
/// last frame) ends the animation.
pub open spec fn frame_timestamp(delays: Seq<(u32, u32)>, i: int) -> i32
    decreases i,
{
    if i <= 0 {
        0
    } else {
        vstd::wrapping::i32_specs::wrapping_add(frame_timestamp(delays, i - 1), delay_ms(delays[i - 1]))
    }
}

/// The timestamps at which the frames of an animation start, and (last) the
/// one at which it ends, for frames with the given delays.
pub fn frame_timestamps(delays: &Vec<(u32, u32)>) -> (r: Vec<i32>)
    requires
        forall|i: int| 0 <= i < delays@.len() ==> (#[trigger] delays@[i]).1 != 0,
    ensures
        r@.len() == delays@.len() + 1,
        forall|i: int| 0 <= i <= delays@.len() ==> #[trigger] r@[i] == frame_timestamp(delays@, i),
{
    let n = delays.len();
    let mut out: Vec<i32> = Vec::new();
    let mut t: i32 = 0;
    out.push(t);
    let mut i: usize = 0;
    while i < n
        invariant
            n == delays@.len(),
            i <= n,
            forall|j: int| 0 <= j < delays@.len() ==> (#[trigger] delays@[j]).1 != 0,
            out@.len() == i + 1,
            t == frame_timestamp(delays@, i as int),
            forall|j: int| 0 <= j <= i ==> #[trigger] out@[j] == frame_timestamp(delays@, j),
        decreases n - i,
    {
        let (numer, denom) = delays[i];
        assert(delays@[i as int].1 != 0);
        let ms = numer / denom;
        t = t.wrapping_add(ms as i32);
        out.push(t);
        i = i + 1;
    }
    out
}

/// The delays of the frames of an animation.
pub open spec fn frame_delays(frames: Seq<GifFrameView>) -> Seq<(u32, u32)> {
    frames.map_values(|f: GifFrameView| f.delay)
}

/// A frame scaled to fit the thumbnail size: its size and RGBA pixels.
pub open spec fn frame_thumbnail(f: GifFrameView) -> (u32, u32, Seq<u8>) {
    rgba_thumbnail(f.width, f.height, f.pixels, THUMBNAIL_SIZE, THUMBNAIL_SIZE)
}

/// What is handed to the encoder for the frames of an animation: each frame's
/// scaled pixels, with the timestamp `frame_timestamps` gives it.
pub open spec fn stamped_frames(frames: Seq<GifFrameView>) -> Seq<(Seq<u8>, i32)> {
    Seq::new(
        frames.len(),
        |i: int| (frame_thumbnail(frames[i]).2, frame_timestamp(frame_delays(frames), i)),
    )
}

/// Whether an encoder of the given size takes each frame in turn.
pub open spec fn all_frames_added(size: (u32, u32), frames: Seq<(Seq<u8>, i32)>) -> bool {
    forall|k: int|
        0 <= k < frames.len() ==> #[trigger] webp_frame_added(
            size,
            frames.take(k),
            frames[k].0,
            frames[k].1,
        )
}

/// The animated WebP made of a GIF: its frames scaled to fit the thumbnail
/// size, in an encoder of the size of the first scaled frame, the last frame
/// ending at the sum of all delays; `None` where the GIF does not decode, has
/// no frame, or the encoder refuses a step.
pub open spec fn gif_webp(bytes: Seq<u8>) -> Option<Seq<u8>> {
    match decoded_gif(bytes) {
        None => None,
        Some(frames) => if frames.len() == 0 {
            None
        } else {
            let first = frame_thumbnail(frames[0]);
            let size = (first.0, first.1);
            let stamped = stamped_frames(frames);
            if !webp_encoder_accepts(size.0, size.1) || !all_frames_added(size, stamped) {
                None
            } else {
                webp_animation(size, stamped, frame_timestamp(frame_delays(frames), frames.len() as int))
            }
        },
    }
}

/// A GIF is re-encoded frame for frame: where its conversion succeeds, the
/// animation is what the encoder makes of, for each frame `k` of the GIF in
/// order, the pixels of frame `k` scaled to fit 400x400, shown from the sum of
/// the delays of the frames before it (added with `i32` wrapping) until the
/// sum of all delays; the encoder, made for the size of the first scaled
/// frame, took each of them in turn.
pub proof fn law_gif_frames_in_order(bytes: Seq<u8>, frames: Seq<GifFrameView>)
    requires
        decoded_gif(bytes) == Some(frames),
        gif_webp(bytes) is Some,
    ensures
        frames.len() > 0,
        ({
            let first = rgba_thumbnail(frames[0].width, frames[0].height, frames[0].pixels, 400, 400);
            let size = (first.0, first.1);
            let handed = Seq::new(
                frames.len(),
                |k: int|
                    (
                        rgba_thumbnail(frames[k].width, frames[k].height, frames[k].pixels, 400, 400).2,
                        frame_timestamp(frame_delays(frames), k),
                    ),
            );
            &&& webp_encoder_accepts(size.0, size.1)
            &&& forall|k: int|
                0 <= k < frames.len() ==> #[trigger] webp_frame_added(
                    size,
                    handed.take(k),
                    handed[k].0,
                    handed[k].1,
                )
            &&& gif_webp(bytes) == webp_animation(
                size,
                handed,
                frame_timestamp(frame_delays(frames), frames.len() as int),
            )
        }),
{
    let first = rgba_thumbnail(frames[0].width, frames[0].height, frames[0].pixels, 400, 400);
    let handed = Seq::new(
        frames.len(),
        |k: int|
            (
                rgba_thumbnail(frames[k].width, frames[k].height, frames[k].pixels, 400, 400).2,
                frame_timestamp(frame_delays(frames), k),
            ),
    );
    assert(stamped_frames(frames) =~= handed);
}

/// Frame `k` of the animation is GIF frame `k`, scaled: where the conversion
/// succeeds, the pixels handed to the encoder at place `k` are the thumbnail
/// of frame `k` of the GIF, and two frames that differ after scaling are
/// handed on as different frames.
pub proof fn law_gif_frame_k_is_frame_k(bytes: Seq<u8>, frames: Seq<GifFrameView>, j: int, k: int)
    requires
        decoded_gif(bytes) == Some(frames),
        0 <= j < frames.len(),
        0 <= k < frames.len(),
    ensures
        stamped_frames(frames)[k].0 == rgba_thumbnail(
            frames[k].width,
            frames[k].height,
            frames[k].pixels,
            400,
            400,
        ).2,
        rgba_thumbnail(frames[j].width, frames[j].height, frames[j].pixels, 400, 400).2
            != rgba_thumbnail(frames[k].width, frames[k].height, frames[k].pixels, 400, 400).2
            ==> stamped_frames(frames)[j].0 != stamped_frames(frames)[k].0,
{
}

/// Re-encodes an animated GIF as an animated WebP whose frames are scaled to
/// fit 400x400, each frame shown at the timestamp `frame_timestamps` gives.
fn gif_to_webp(raw_bytes: &[u8]) -> (r: Option<Vec<u8>>)
    ensures
        opt_bytes(r) == gif_webp(raw_bytes@),
{
    let frames = match decode_gif_frames(raw_bytes) {
        Some(f) => f,
        None => {
            return None;
        },
    };
    let ghost fv = frames_view(frames@);
    assert(fv.len() == frames@.len());
    let n = frames.len();
    if n == 0 {
        return None;
    }
    assert(frames@[0]@ == fv[0]);
    let first = thumbnail_rgba(frames[0].width, frames[0].height, &frames[0].pixels, THUMBNAIL_SIZE, THUMBNAIL_SIZE);
    let size = (first.0, first.1);
    let mut encoder = match new_encoder(first.0, first.1) {
        Some(e) => e,
        None => {
            return None;
        },
    };
    let mut delays: Vec<(u32, u32)> = Vec::new();
    let mut i: usize = 0;
    while i < n
        invariant
            n == frames@.len(),
            fv == frames_view(frames@),
            decoded_gif(raw_bytes@) == Some(fv),
            i <= n,
            delays@.len() == i,
            forall|j: int| 0 <= j < n ==> (#[trigger] frames@[j]).delay.1 != 0,
            forall|j: int| 0 <= j < i ==> (#[trigger] delays@[j]) == fv[j].delay,
        decreases n - i,
    {
        delays.push(frames[i].delay);
        i = i + 1;
    }
    assert(delays@ =~= frame_delays(fv));
    let stamps = frame_timestamps(&delays);
    let ghost stamped = stamped_frames(fv);
    let mut i: usize = 0;
    while i < n
        invariant
            n == frames@.len(),
            fv == frames_view(frames@),
            decoded_gif(raw_bytes@) == Some(fv),
            stamped == stamped_frames(fv),
            size == (frame_thumbnail(fv[0]).0, frame_thumbnail(fv[0]).1),
            forall|j: int|
                0 <= j < n ==> (#[trigger] frames@[j]).pixels@.len() >= frames@[j].width
                    * frames@[j].height * 4,
            stamps@.len() == n + 1,
            forall|j: int| 0 <= j <= n ==> #[trigger] stamps@[j] == frame_timestamp(frame_delays(fv), j),
            i <= n,
            encoder_size(encoder) == size,
            encoder_frames(encoder) == stamped.take(i as int),
            forall|k: int|
                0 <= k < i ==> #[trigger] webp_frame_added(
                    size,
                    stamped.take(k),
                    stamped[k].0,
                    stamped[k].1,
                ),
        decreases n - i,
    {
        assert(frames@[i as int]@ == fv[i as int]);
        let f = &frames[i];
        let thumb = thumbnail_rgba(f.width, f.height, &f.pixels, THUMBNAIL_SIZE, THUMBNAIL_SIZE);
        let ts = stamps[i];
        assert(stamped[i as int] == (thumb.2@, ts));
        encoder = match encoder_add_frame(encoder, thumb.2.as_slice(), ts) {
            Some(e) => e,
            None => {
                assert(!webp_frame_added(
                    size,
                    stamped.take(i as int),
                    stamped[i as int].0,
                    stamped[i as int].1,
                ));
                assert(!all_frames_added(size, stamped));
                return None;
            },
        };
        assert(stamped.take(i as int).push(stamped[i as int]) =~= stamped.take(i + 1));
        i = i + 1;
    }
    assert(stamped.take(n as int) =~= stamped);
    encoder_finalize(encoder, stamps[n])
}

/// What `convert_to_webp` makes of a file: WebP unchanged, a GIF re-encoded as
/// an animated WebP, another picture scaled to fit 400x400 and encoded as
/// WebP, nothing where the format is not recognized.
pub open spec fn webp_of(bytes: Seq<u8>) -> Option<Seq<u8>> {
    match guessed_format(bytes) {
        None => None,
        Some(ImageKind::WebP) => Some(bytes),
        Some(ImageKind::Gif) => gif_webp(bytes),
        Some(ImageKind::Other) => webp_thumbnail_of(bytes, THUMBNAIL_SIZE, THUMBNAIL_SIZE),
    }
}

/// Converts an uploaded picture to WebP: WebP comes back unchanged, a GIF is
/// re-encoded as an animated WebP, another format is scaled to fit 400x400 and
/// encoded as WebP; `None` where the format is not recognized or a step fails.
pub fn convert_to_webp(raw_bytes: &[u8]) -> (r: Option<Vec<u8>>)
    ensures
        opt_bytes(r) == webp_of(raw_bytes@),
{
    match guess_image_format(raw_bytes) {
        None => None,
        Some(ImageKind::WebP) => Some(vstd::slice::slice_to_vec(raw_bytes)),
        Some(ImageKind::Gif) => gif_to_webp(raw_bytes),
        Some(ImageKind::Other) => webp_thumbnail(raw_bytes, THUMBNAIL_SIZE, THUMBNAIL_SIZE),
    }
}

} // verus!
