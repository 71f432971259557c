use image::{DynamicImage, GrayImage, ImageBuffer, Rgb};
use std::sync::atomic::{AtomicU8, Ordering};
use vstd::prelude::*;

verus! {

/// The percentile of a frame's luma that stands for the room's brightness.
pub const BRIGHTNESS_PERCENTILE: u8 = 90;

/// The value the shared cell holds before the first sample: bright.
pub const DEFAULT_BRIGHTNESS: u8 = 100;

/// The largest attempt number; the counter wraps back to 1 after it.
pub const ATTEMPT_MAX: u8 = 127;

/// Delay before the capture device is opened again after a failure.
pub const RETRY_BACKOFF_MILLIS: u64 = 5000;

/// Delay between two samples of a running session.
pub const SAMPLE_DELAY_MILLIS: u64 = 500;

/// The luma of one RGB pixel with the sRGB weights 0.2126, 0.7152 and
/// 0.0722, rounded down.
pub open spec fn luma(r: u8, g: u8, b: u8) -> int {
    (2126 * r + 7152 * g + 722 * b) / 10000
}

/// The luma of each pixel of a row-major RGB byte sequence.
pub open spec fn luma_seq(rgb: Seq<u8>) -> Seq<u8> {
    Seq::new((rgb.len() / 3) as nat, |i: int| luma(rgb[3 * i], rgb[3 * i + 1], rgb[3 * i + 2]) as u8)
}

/// How many values of `s` are at most `v`.
pub open spec fn count_at_most(s: Seq<u8>, v: int) -> nat
    decreases s.len(),
{
    if s.len() == 0 {
        0
    } else {
        count_at_most(s.drop_last(), v) + if s.last() <= v {
            1nat
        } else {
            0nat
        }
    }
}

/// The least level from `i` up whose cumulative share of `s`, in whole
/// percent rounded down, reaches `p`; 255 at the latest.
pub open spec fn percentile_from(s: Seq<u8>, p: int, i: nat) -> u8
    decreases 255 - i,
{
    if i >= 255 {
        255
    } else if (100 * count_at_most(s, i as int)) as int / (s.len() as int) >= p {
        i as u8
    } else {
        percentile_from(s, p, i + 1)
    }
}

/// The `p`-th percentile of the values of `s`.
pub open spec fn percentile_of(s: Seq<u8>, p: int) -> u8 {
    percentile_from(s, p, 0)
}

/// Relies on `ImageBuffer::from_raw`, which accepts a buffer of `3 * width *
/// height` bytes, and `DynamicImage::into_luma8`, which maps each RGB pixel
/// to `(2126 r + 7152 g + 722 b) / 10000`.
#[verifier::external_body]
fn rgb_to_luma_image(rgb: Vec<u8>, width: u32, height: u32) -> (r: Option<Vec<u8>>)
    requires
        rgb@.len() == 3 * (width * height),
    ensures
        r.is_some(),
        r.unwrap()@ == luma_seq(rgb@),
{
    ImageBuffer::<Rgb<u8>, Vec<u8>>::from_raw(width, height, rgb).map(
        |img| DynamicImage::ImageRgb8(img).into_luma8().into_raw(),
    )
}

/// Relies on `imageproc::stats::percentile` over a gray image built by
/// `ImageBuffer::from_raw`: the least level whose cumulative count, as a
/// whole percentage of all pixels rounded down, reaches `p`. It divides by
/// the pixel count, counts pixels in `u32` histogram bins and asserts
/// `p <= 100`.
#[verifier::external_body]
fn gray_percentile(luma: Vec<u8>, width: u32, height: u32, p: u8) -> (r: Option<u8>)
    requires
        luma@.len() == width * height,
        0 < luma@.len() <= u32::MAX,
        p <= 100,
    ensures
        r == Some(percentile_of(luma@, p as int)),
{
    GrayImage::from_raw(width, height, luma).map(|img| imageproc::stats::percentile(&img, p))
}

/// The brightness of one captured frame of `width` by `height` RGB pixels:
/// the `BRIGHTNESS_PERCENTILE`-th percentile of its luma. `None` when the
/// frame is empty, has more than `u32::MAX` pixels, or its length is not
/// three bytes per pixel.
pub fn frame_brightness(rgb: Vec<u8>, width: u32, height: u32) -> (r: Option<u8>)
    ensures
        r == if rgb@.len() == 3 * (width * height) && 0 < width * height <= u32::MAX {
            Some(percentile_of(luma_seq(rgb@), BRIGHTNESS_PERCENTILE as int))
        } else {
            None::<u8>
        },
{
    let n = rgb.len();
    assert((width as u64) * (height as u64) <= u32::MAX as u64 * u32::MAX as u64) by (nonlinear_arith)
        requires
            width <= u32::MAX,
            height <= u32::MAX,
    ;
    let pixels = (width as u64) * (height as u64);
    if pixels == 0 || pixels > u32::MAX as u64 || n as u64 / 3 != pixels || n % 3 != 0 {
        return None;
    }
    match rgb_to_luma_image(rgb, width, height) {
        Some(l) => gray_percentile(l, width, height, BRIGHTNESS_PERCENTILE),
        None => None,
    }
}

/// How a captured frame is encoded.
#[derive(Clone, Copy, Debug, PartialEq, Eq, Structural)]
pub enum PixelFormat {
    /// Raw RGB, three bytes per pixel (`RGB3`).
    Rgb,
    /// Motion-JPEG (`MJPG`), to be decoded to RGB.
    Mjpeg,
    /// Anything else, which the monitor cannot read.
    Unsupported,
}

/// The encoding named by a four-character code.
pub open spec fn format_of(code: Seq<u8>) -> PixelFormat {
    if code =~= seq![82u8, 71u8, 66u8, 51u8] {
        PixelFormat::Rgb
    } else if code =~= seq![77u8, 74u8, 80u8, 71u8] {
        PixelFormat::Mjpeg
    } else {
        PixelFormat::Unsupported
    }
}

/// The encoding named by the four-character code `code`: `RGB3` is raw RGB,
/// `MJPG` is Motion-JPEG.
pub fn pixel_format(code: [u8; 4]) -> (f: PixelFormat)
    ensures
        f == format_of(code@),
{
    let rgb = code[0] == 82 && code[1] == 71 && code[2] == 66 && code[3] == 51;
    let mjpg = code[0] == 77 && code[1] == 74 && code[2] == 80 && code[3] == 71;
    proof {
        if rgb {
            assert(code@ =~= seq![82u8, 71u8, 66u8, 51u8]);
        }
        if mjpg {
            assert(code@ =~= seq![77u8, 74u8, 80u8, 71u8]);
        }
    }
    if rgb {
        PixelFormat::Rgb
    } else if mjpg {
        PixelFormat::Mjpeg
    } else {
        PixelFormat::Unsupported
    }
}

/// Whether Motion-JPEG must be requested after asking the device for raw RGB:
/// `negotiated` is the code the device settled on, or `None` when it
/// rejected the request. Only a device that settled on raw RGB needs no
/// fallback.
pub fn needs_fallback(negotiated: Option<[u8; 4]>) -> (b: bool)
    ensures
        b == match negotiated {
            Some(code) => format_of(code@) != PixelFormat::Rgb,
            None => true,
        },
{
    match negotiated {
        Some(code) => match pixel_format(code) {
            PixelFormat::Rgb => false,
            _ => true,
        },
        None => true,
    }
}

/// The attempt number after `a`: one more, or 1 after `ATTEMPT_MAX`.
pub open spec fn next_attempt(a: u8) -> u8 {
    if a >= ATTEMPT_MAX {
        1
    } else {
        (a + 1) as u8
    }
}

/// What happened since the monitor's last action.
#[derive(Clone, Copy, Debug, PartialEq, Eq, Structural)]
pub enum MonitorEvent {
    /// The device could not be opened or configured.
    OpenFailed,
    /// The device is open and streaming.
    Opened,
    /// A frame was read and reduced to this brightness.
    FrameRead(u8),
    /// Reading or decoding a frame failed; the session is over.
    ReadFailed,
}

/// What the sampling loop does next.
#[derive(Clone, Copy, Debug, PartialEq, Eq, Structural)]
pub enum MonitorAction {
    /// Wait this long, then open and configure the device.
    OpenAfter(u64),
    /// Read the next frame.
    Read,
    /// Publish this brightness, wait this long, then read the next frame.
    Publish(u8, u64),
}

/// The decisions of the ambient-light sampling loop: which attempt it is
/// on, and whether a session is streaming.
#[derive(Clone, Copy, Debug)]
pub struct Monitor {
    pub attempt: u8,
    pub streaming: bool,
}

impl Monitor {
    /// The attempt counter lies in `1..=ATTEMPT_MAX`.
    pub open spec fn wf(&self) -> bool {
        1 <= self.attempt <= ATTEMPT_MAX
    }

    /// A monitor on its first attempt, not streaming; its first action is to
    /// open the device at once.
    pub fn new() -> (m: Monitor)
        ensures
            m.wf(),
            m.attempt == 1,
            !m.streaming,
    {
        Monitor { attempt: 1, streaming: false }
    }

    /// The first action: open the device without waiting.
    pub fn start(&self) -> (a: MonitorAction)
        ensures
            a == MonitorAction::OpenAfter(0),
    {
        MonitorAction::OpenAfter(0)
    }

    /// Takes `event` and says what to do next. A failure to open, or a failed
    /// read, moves to the next attempt and opens again after the backoff; a
    /// frame is published and followed by the next read after the sample
    /// delay.
    pub fn on_event(&mut self, event: MonitorEvent) -> (a: MonitorAction)
        requires
            old(self).wf(),
        ensures
            final(self).wf(),
            match event {
                MonitorEvent::OpenFailed | MonitorEvent::ReadFailed => {
                    &&& final(self).attempt == next_attempt(old(self).attempt)
                    &&& !final(self).streaming
                    &&& a == MonitorAction::OpenAfter(RETRY_BACKOFF_MILLIS)
                },
                MonitorEvent::Opened => {
                    &&& final(self).attempt == old(self).attempt
                    &&& final(self).streaming
                    &&& a == MonitorAction::Read
                },
                MonitorEvent::FrameRead(v) => {
                    &&& final(self).attempt == old(self).attempt
                    &&& final(self).streaming
                    &&& a == MonitorAction::Publish(v, SAMPLE_DELAY_MILLIS)
                },
            },
    {
        match event {
            MonitorEvent::OpenFailed | MonitorEvent::ReadFailed => {
                self.attempt = if self.attempt >= ATTEMPT_MAX {
                    1
                } else {
                    self.attempt + 1
                };
                self.streaming = false;
                MonitorAction::OpenAfter(RETRY_BACKOFF_MILLIS)
            },
            MonitorEvent::Opened => {
                self.streaming = true;
                MonitorAction::Read
            },
            MonitorEvent::FrameRead(v) => {
                self.streaming = true;
                MonitorAction::Publish(v, SAMPLE_DELAY_MILLIS)
            },
        }
    }
}

/// The attempt number after `k` consecutive failures from attempt `a`.
pub open spec fn attempt_after(a: u8, k: nat) -> u8
    decreases k,
{
    if k == 0 {
        a
    } else {
        next_attempt(attempt_after(a, (k - 1) as nat))
    }
}

/// Counting failures: `k` failures from attempt `a`, with `a + k` at most
/// `ATTEMPT_MAX`, leave the counter at `a + k`; one more failure at
/// `ATTEMPT_MAX` wraps it to 1.
pub proof fn lemma_attempts_count_failures(a: u8, k: nat)
    requires
        1 <= a,
        a + k <= ATTEMPT_MAX,
    ensures
        attempt_after(a, k) == a + k,
        next_attempt(ATTEMPT_MAX) == 1,
    decreases k,
{
    if k > 0 {
        lemma_attempts_count_failures(a, (k - 1) as nat);
    }
}

/// The single cell through which the sampling thread hands the latest
/// brightness to the render loop. It holds `DEFAULT_BRIGHTNESS` until the
/// first sample; a reader may see a stale value.
pub struct BrightnessCell {
    value: AtomicU8,
}

impl BrightnessCell {
    /// A cell holding `DEFAULT_BRIGHTNESS`.
    pub fn new() -> (c: BrightnessCell) {
        BrightnessCell { value: AtomicU8::new(DEFAULT_BRIGHTNESS) }
    }

    /// Stores `v` with relaxed ordering.
    pub fn publish(&self, v: u8) {
        self.value.store(v, Ordering::Relaxed)
    }

    /// Loads the latest value with acquire ordering.
    pub fn read(&self) -> (v: u8) {
        self.value.load(Ordering::Acquire)
    }
}

} // verus!
