//! Frame capture: which buffer to read back, whether it can be read, and what
//! picture it holds.
//!
//! The application renders into shared-memory buffers that it attaches to its
//! surfaces. Their pixels are read straight out of the pool, so capture needs
//! no help of the compositor and stays bound to this application.
use crate::error::SeatError;
use crate::proxy::{keys_of, Conn, ConnView, ShmFrame};
use crate::text::{join2, join3, prefixed_hex_text, signed_text};
use vstd::prelude::*;

verus! {

broadcast use vstd::std_specs::hash::group_hash_axioms;

/// `wl_shm` formats that can be decoded (little-endian: the bytes of a pixel
/// are blue, green, red, and alpha or nothing).
pub const WL_SHM_FORMAT_ARGB8888: u32 = 0;

pub const WL_SHM_FORMAT_XRGB8888: u32 = 1;

// ---------------------------------------------------------------------------
// Pictures
// ---------------------------------------------------------------------------

/// A decoded picture, as the `image` crate holds it.
#[verifier::external_type_specification]
#[verifier::external_body]
pub struct ExDynamicImage(image::DynamicImage);

/// The pixels of a picture, row by row, as red, green and blue.
pub uninterp spec fn image_pixels(image: image::DynamicImage) -> Seq<(u8, u8, u8)>;

/// The width and the height of a picture.
pub uninterp spec fn image_size(image: image::DynamicImage) -> (u32, u32);

/// The pixels that consecutive bytes hold, three bytes each.
pub open spec fn pixels_of(rgb: Seq<u8>, count: nat) -> Seq<(u8, u8, u8)> {
    Seq::new(count, |i: int| (rgb[3 * i], rgb[3 * i + 1], rgb[3 * i + 2]))
}

/// `RgbImage::from_raw`, as a picture of any kind: the bytes become the
/// pixels, and it succeeds exactly where there are enough of them. A picture
/// without pixels is left out.
#[verifier::external_body]
fn assembled(width: u32, height: u32, rgb: Vec<u8>) -> (image: Option<image::DynamicImage>)
    requires
        width > 0,
        height > 0,
    ensures
        image is Some <==> 3 * width * height <= rgb@.len(),
        image matches Some(image) ==> image_size(image) == (width, height) && image_pixels(image)
            == pixels_of(rgb@, (width * height) as nat),
{
    image::RgbImage::from_raw(width, height, rgb).map(image::DynamicImage::ImageRgb8)
}

/// `DynamicImage::to_rgb8` and the pixels of the result, which are what
/// `image_pixels` names.
#[verifier::external_body]
fn rgb_pixels(image: &image::DynamicImage) -> (pixels: Vec<(u8, u8, u8)>)
    ensures
        pixels@ == image_pixels(*image),
{
    image.to_rgb8().pixels().map(|pixel| (pixel[0], pixel[1], pixel[2])).collect()
}

/// One decoded frame.
#[derive(Debug)]
pub struct CapturedFrame {
    /// Decoded RGB application frame.
    pub image: image::DynamicImage,
    /// Captured buffer width in pixels.
    pub width: u32,
    /// Captured buffer height in pixels.
    pub height: u32,
}

// ---------------------------------------------------------------------------
// The frame to read
// ---------------------------------------------------------------------------

/// A dimension of a frame, where it is one.
pub open spec fn extent(size: i32) -> int {
    if size < 0 {
        0
    } else {
        size as int
    }
}

/// How large a frame is.
pub open spec fn area<F>(frame: ShmFrame<F>) -> int {
    extent(frame.width) * extent(frame.height)
}

impl<F> ConnView<F> {
    /// Whether a surface shows something that can be read.
    pub open spec fn shows(self, surface: u64) -> bool {
        self.surfaces.contains_key(surface) && self.surfaces[surface].attached is Some
    }

    /// The area of what a surface shows.
    pub open spec fn shown_area(self, surface: u64) -> int {
        area(self.surfaces[surface].attached.unwrap())
    }

    /// Whether a surface is at least as good a main window as another one:
    /// it is larger, or as large and committed as often.
    pub open spec fn outranks(self, surface: u64, other: u64) -> bool {
        ||| self.shown_area(surface) > self.shown_area(other)
        ||| self.shown_area(surface) == self.shown_area(other)
            && self.surfaces[surface].commit_count >= self.surfaces[other].commit_count
    }

    /// Whether this surface is the one to capture.
    pub open spec fn is_main(self, surface: u64) -> bool {
        &&& self.shows(surface)
        &&& forall|other: u64| #[trigger] self.shows(other) ==> self.outranks(surface, other)
    }

    /// Whether this is the frame to capture: that of a main surface, none
    /// where no surface shows anything.
    pub open spec fn is_primary(self, frame: Option<ShmFrame<F>>) -> bool {
        match frame {
            Some(frame) => exists|surface: u64| #[trigger]
                self.is_main(surface) && self.surfaces[surface].attached == Some(frame),
            None => forall|surface: u64| !#[trigger] self.shows(surface),
        }
    }
}

fn area_of<F>(frame: &ShmFrame<F>) -> (area: i64)
    ensures
        area == self::area(*frame),
{
    let width: i64 = if frame.width < 0 {
        0
    } else {
        frame.width as i64
    };
    let height: i64 = if frame.height < 0 {
        0
    } else {
        frame.height as i64
    };
    assert(0 <= width * height <= 0x7fff_ffff * 0x7fff_ffff) by (nonlinear_arith)
        requires
            0 <= width <= 0x7fff_ffff,
            0 <= height <= 0x7fff_ffff,
    ;
    width * height
}

impl<F> Conn<F> {
    /// Pick the frame most likely to be the application's main window: the
    /// largest readable buffer that is attached, the commit count only
    /// breaking ties. Startup icons and splash helpers can commit many more
    /// times than the eventual main window.
    pub fn primary_shm_frame(&self) -> (frame: Option<&ShmFrame<F>>)
        ensures
            self@.is_primary(
                match frame {
                    Some(frame) => Some(*frame),
                    None => None,
                },
            ),
    {
        let keys: Vec<u64> = keys_of(&self.surfaces);
        let mut best: Option<(i64, u64, &ShmFrame<F>)> = None;
        let ghost mut chosen: u64 = 0;
        let mut i: usize = 0;
        while i < keys.len()
            invariant
                i <= keys.len(),
                forall|k: u64| self.surfaces@.contains_key(k) <==> #[trigger] keys@.contains(k),
                match best {
                    Some((area, commits, frame)) => {
                        &&& self@.shows(chosen)
                        &&& self@.surfaces[chosen].attached == Some(*frame)
                        &&& self@.surfaces[chosen].commit_count == commits
                        &&& self@.shown_area(chosen) == area
                        &&& forall|j: int|
                            0 <= j < i && self@.shows(#[trigger] keys@[j]) ==> self@.outranks(
                                chosen,
                                keys@[j],
                            )
                    },
                    None => forall|j: int| 0 <= j < i ==> !self@.shows(#[trigger] keys@[j]),
                },
            decreases keys.len() - i,
        {
            let id: u64 = keys[i];
            assert(keys@.contains(keys@[i as int]));
            match self.surfaces.get(&id) {
                Some(state) => match &state.attached {
                    Some(frame) => {
                        let area: i64 = area_of(frame);
                        let keep: bool = match best {
                            Some((best_area, best_commits, _)) => best_area > area || best_area
                                == area && best_commits >= state.commit_count,
                            None => false,
                        };
                        if !keep {
                            best = Some((area, state.commit_count, frame));
                            proof {
                                chosen = id;
                            }
                        }
                    },
                    None => {},
                },
                None => {},
            }
            i = i + 1;
        }
        proof {
            assert forall|k: u64| #[trigger] self@.shows(k) implies exists|j: int|
                0 <= j < keys@.len() && #[trigger] keys@[j] == k by {
                assert(keys@.contains(k));
            }
            if best is Some {
                assert(self@.is_main(chosen));
            }
        }
        match best {
            Some((_, _, frame)) => Some(frame),
            None => None,
        }
    }
}

// ---------------------------------------------------------------------------
// Whether it can be read
// ---------------------------------------------------------------------------

/// The bytes of the pool that a frame reaches up to.
pub open spec fn reach<F>(frame: ShmFrame<F>) -> int {
    frame.offset + frame.stride * frame.height
}

/// Whether a frame has sensible numbers.
pub open spec fn is_plausible<F>(frame: ShmFrame<F>) -> bool {
    frame.offset >= 0 && frame.width > 0 && frame.height > 0 && frame.stride > 0 && frame.pool_size
        > 0
}

/// Whether a frame lies within its pool.
pub open spec fn is_readable<F>(frame: ShmFrame<F>) -> bool {
    is_plausible(frame) && reach(frame) <= frame.pool_size
}

/// What is wrong with a frame that cannot be read.
pub open spec fn unreadable<F>(frame: ShmFrame<F>) -> Seq<char> {
    if !is_plausible(frame) {
        "invalid shm frame offset="@ + crate::text::signed_decimal(frame.offset as int)
            + ", geometry="@ + crate::text::signed_decimal(frame.width as int) + "x"@
            + crate::text::signed_decimal(frame.height as int) + ", stride="@
            + crate::text::signed_decimal(frame.stride as int) + ", pool="@
            + crate::text::signed_decimal(frame.pool_size as int)
    } else {
        "frame ("@ + crate::text::signed_decimal(reach(frame))
            + " bytes) exceeds shm pool size ("@ + crate::text::signed_decimal(
            frame.pool_size as int,
        ) + " bytes)"@
    }
}

fn implausible<F>(frame: &ShmFrame<F>) -> (message: String)
    requires
        !is_plausible(*frame),
    ensures
        message@ == unreadable(*frame),
{
    let offset: String = signed_text(frame.offset as i64);
    let width: String = signed_text(frame.width as i64);
    let height: String = signed_text(frame.height as i64);
    let stride: String = signed_text(frame.stride as i64);
    let pool: String = signed_text(frame.pool_size as i64);
    let text: String = join2("invalid shm frame offset=", offset.as_str());
    let text: String = join3(text.as_str(), ", geometry=", width.as_str());
    let text: String = join3(text.as_str(), "x", height.as_str());
    let text: String = join3(text.as_str(), ", stride=", stride.as_str());
    let text: String = join3(text.as_str(), ", pool=", pool.as_str());
    assert(text@ =~= unreadable(*frame));
    text
}

/// Check that a frame lies within its pool.
pub fn check_frame<F>(frame: &ShmFrame<F>) -> (checked: Result<(), String>)
    ensures
        match checked {
            Ok(()) => is_readable(*frame),
            Err(message) => !is_readable(*frame) && message@ == unreadable(*frame),
        },
        checked is Ok <==> frame.offset >= 0 && frame.width > 0 && frame.height > 0 && frame.stride
            > 0 && frame.pool_size > 0 && frame.offset + frame.stride * frame.height
            <= frame.pool_size,
{
    if frame.offset < 0 || frame.width <= 0 || frame.height <= 0 || frame.stride <= 0
        || frame.pool_size <= 0 {
        return Err(implausible(frame));
    }
    let stride: i64 = frame.stride as i64;
    let height: i64 = frame.height as i64;
    assert(0 <= stride * height <= 0x7fff_ffff * 0x7fff_ffff) by (nonlinear_arith)
        requires
            0 <= stride <= 0x7fff_ffff,
            0 <= height <= 0x7fff_ffff,
    ;
    let need: i64 = frame.offset as i64 + stride * height;
    if need > frame.pool_size as i64 {
        let reached: String = signed_text(need);
        let pool: String = signed_text(frame.pool_size as i64);
        let text: String = join3("frame (", reached.as_str(), " bytes) exceeds shm pool size (");
        let text: String = join3(text.as_str(), pool.as_str(), " bytes)");
        assert(text@ =~= unreadable(*frame));
        return Err(text);
    }
    Ok(())
}

// ---------------------------------------------------------------------------
// What it shows
// ---------------------------------------------------------------------------

/// The pixel of a frame in column `x` and row `y`. A row may be shorter than
/// the frame is wide; what it does not hold is black.
pub open spec fn frame_pixel<F>(frame: ShmFrame<F>, pool: Seq<u8>, x: int, y: int) -> (u8, u8, u8) {
    let at = frame.offset + y * frame.stride + 4 * x;
    if 4 * x + 2 < frame.stride {
        (pool[at + 2], pool[at + 1], pool[at])
    } else {
        (0, 0, 0)
    }
}

/// The pixels of a frame, row by row.
pub open spec fn frame_pixels<F>(frame: ShmFrame<F>, pool: Seq<u8>) -> Seq<(u8, u8, u8)> {
    Seq::new(
        (frame.width * frame.height) as nat,
        |i: int| frame_pixel(frame, pool, i % (frame.width as int), i / (frame.width as int)),
    )
}

proof fn lemma_pixels_in_place<F>(frame: ShmFrame<F>, pool: Seq<u8>)
    requires
        frame.width > 0,
        frame.height > 0,
    ensures
        frame_pixels(frame, pool).len() == frame.width * frame.height,
        forall|x: int, y: int|
            0 <= x < frame.width && 0 <= y < frame.height ==> (#[trigger] frame_pixels(frame, pool)[y
                * frame.width + x]) == (if 4 * x + 2 < frame.stride {
                (
                    pool[frame.offset + y * frame.stride + 4 * x + 2],
                    pool[frame.offset + y * frame.stride + 4 * x + 1],
                    pool[frame.offset + y * frame.stride + 4 * x],
                )
            } else {
                (0, 0, 0)
            }),
{
    let width = frame.width as int;
    let height = frame.height as int;
    assert(width * height >= 0) by (nonlinear_arith)
        requires
            width > 0,
            height > 0,
    ;
    assert forall|x: int, y: int| 0 <= x < width && 0 <= y < height implies (
    #[trigger] frame_pixels(frame, pool)[y * frame.width + x]) == frame_pixel(
        frame,
        pool,
        x,
        y,
    ) by {
        vstd::arithmetic::div_mod::lemma_fundamental_div_mod_converse(y * width + x, width, y, x);
        assert(0 <= y * width + x < width * height) by (nonlinear_arith)
            requires
                0 <= x < width,
                0 <= y < height,
        ;
    }
}

/// Whether the pixels of a format can be decoded.
pub open spec fn is_decodable(format: u32) -> bool {
    format == WL_SHM_FORMAT_ARGB8888 || format == WL_SHM_FORMAT_XRGB8888
}

fn decoded_rows<F>(frame: &ShmFrame<F>, pool: &[u8]) -> (rgb: Vec<u8>)
    requires
        is_readable(*frame),
        pool@.len() == frame.pool_size,
        3 * frame.width * frame.height <= usize::MAX,
    ensures
        rgb@.len() == 3 * frame.width * frame.height,
        pixels_of(rgb@, (frame.width * frame.height) as nat) == frame_pixels(*frame, pool@),
{
    let width: usize = frame.width as usize;
    let height: usize = frame.height as usize;
    let stride: usize = frame.stride as usize;
    let offset: usize = frame.offset as usize;
    let mut rgb: Vec<u8> = Vec::new();
    let mut y: usize = 0;
    while y < height
        invariant
            y <= height,
            is_readable(*frame),
            pool@.len() == frame.pool_size,
            width == frame.width,
            height == frame.height,
            stride == frame.stride,
            offset == frame.offset,
            rgb@.len() == 3 * (y * width),
            forall|i: int|
                0 <= i < y * width ==> (#[trigger] rgb@[3 * i], rgb@[3 * i + 1], rgb@[3 * i + 2])
                    == frame_pixel(*frame, pool@, i % (width as int), i / (width as int)),
        decreases height - y,
    {
        let mut x: usize = 0;
        proof {
            assert(y * stride + stride <= height * stride) by (nonlinear_arith)
                requires
                    0 <= y < height,
                    0 <= stride,
            ;
            assert(stride * height == height * stride) by (nonlinear_arith);
            assert(0 <= y * stride) by (nonlinear_arith)
                requires
                    0 <= y,
                    0 <= stride,
            ;
        }
        let start: usize = offset + y * stride;
        while x < width
            invariant
                x <= width,
                y < height,
                is_readable(*frame),
                pool@.len() == frame.pool_size,
                width == frame.width,
                height == frame.height,
                stride == frame.stride,
                offset == frame.offset,
                start == offset + y * stride,
                start + stride <= pool@.len(),
                rgb@.len() == 3 * (y * width + x),
                forall|i: int|
                    0 <= i < y * width + x ==> (
                        #[trigger] rgb@[3 * i],
                        rgb@[3 * i + 1],
                        rgb@[3 * i + 2],
                    ) == frame_pixel(*frame, pool@, i % (width as int), i / (width as int)),
            decreases width - x,
        {
            let ghost before = rgb@;
            let ghost flat: int = y * width + x;
            let (red, green, blue): (u8, u8, u8) = if stride > 2 && x <= (stride - 3) / 4 {
                let at: usize = start + 4 * x;
                (pool[at + 2], pool[at + 1], pool[at])
            } else {
                (0, 0, 0)
            };
            rgb.push(red);
            rgb.push(green);
            rgb.push(blue);
            proof {
                vstd::arithmetic::div_mod::lemma_fundamental_div_mod_converse(
                    flat,
                    width as int,
                    y as int,
                    x as int,
                );
                assert((red, green, blue) == frame_pixel(*frame, pool@, x as int, y as int));
                assert forall|i: int| 0 <= i < flat + 1 implies (
                    #[trigger] rgb@[3 * i],
                    rgb@[3 * i + 1],
                    rgb@[3 * i + 2],
                ) == frame_pixel(*frame, pool@, i % (width as int), i / (width as int)) by {
                    if i < flat {
                        assert(rgb@[3 * i] == before[3 * i]);
                        assert(rgb@[3 * i + 1] == before[3 * i + 1]);
                        assert(rgb@[3 * i + 2] == before[3 * i + 2]);
                    }
                }
            }
            x = x + 1;
        }
        proof {
            assert((y + 1) * width == y * width + width) by (nonlinear_arith);
        }
        y = y + 1;
    }
    proof {
        assert(height * width == frame.width * frame.height) by (nonlinear_arith)
            requires
                height == frame.height,
                width == frame.width,
        ;
        assert(3 * (frame.width * frame.height) == 3 * frame.width * frame.height)
            by (nonlinear_arith);
        assert(pixels_of(rgb@, (frame.width * frame.height) as nat) =~= frame_pixels(
            *frame,
            pool@,
        ));
    }
    rgb
}

/// Why a format cannot be decoded.
pub open spec fn undecodable(format: u32) -> Seq<char> {
    "unsupported wl_shm format "@ + crate::text::prefixed_hexadecimal(format as nat)
        + " (only ARGB8888/XRGB8888 are decoded)"@
}

/// Decode the rows of a frame, given the bytes of its pool, into a picture.
pub fn decode_frame<F>(frame: &ShmFrame<F>, pool: &[u8]) -> (decoded: Result<
    image::DynamicImage,
    String,
>)
    requires
        is_readable(*frame),
        pool@.len() == frame.pool_size,
        3 * frame.width * frame.height <= usize::MAX,
    ensures
        match decoded {
            Ok(image) => {
                &&& is_decodable(frame.format)
                &&& image_size(image) == (frame.width as u32, frame.height as u32)
                &&& image_pixels(image) == frame_pixels(*frame, pool@)
                &&& image_pixels(image).len() == frame.width * frame.height
                &&& forall|x: int, y: int|
                    0 <= x < frame.width && 0 <= y < frame.height ==> (#[trigger] image_pixels(
                        image,
                    )[y * frame.width + x]) == (if 4 * x + 2 < frame.stride {
                        (
                            pool@[frame.offset + y * frame.stride + 4 * x + 2],
                            pool@[frame.offset + y * frame.stride + 4 * x + 1],
                            pool@[frame.offset + y * frame.stride + 4 * x],
                        )
                    } else {
                        (0, 0, 0)
                    })
            },
            Err(message) => !is_decodable(frame.format) && message@ == undecodable(frame.format),
        },
        decoded is Ok <==> frame.format == 0 || frame.format == 1,
{
    if frame.format != WL_SHM_FORMAT_ARGB8888 && frame.format != WL_SHM_FORMAT_XRGB8888 {
        let number: String = prefixed_hex_text(frame.format);
        return Err(
            join3(
                "unsupported wl_shm format ",
                number.as_str(),
                " (only ARGB8888/XRGB8888 are decoded)",
            ),
        );
    }
    let rgb: Vec<u8> = decoded_rows(frame, pool);
    match assembled(frame.width as u32, frame.height as u32, rgb) {
        Some(image) => {
            proof {
                lemma_pixels_in_place(*frame, pool@);
            }
            Ok(image)
        },
        None => Err("failed to assemble the captured frame".to_owned()),
    }
}

// ---------------------------------------------------------------------------
// Capture as a whole
// ---------------------------------------------------------------------------

impl<F> Conn<F> {
    /// The frame to capture, checked; its pool is to be mapped next.
    pub fn begin_capture(&self) -> (frame: Result<&ShmFrame<F>, SeatError>)
        ensures
            match frame {
                Ok(frame) => self@.is_primary(Some(*frame)) && is_readable(*frame),
                Err(SeatError::Capture(message)) => {
                    ||| self@.is_primary(None) && message@
                        == "the app has no readable shm frame yet (it may use GPU buffers)"@
                    ||| exists|frame: ShmFrame<F>| #[trigger]
                        self@.is_primary(Some(frame)) && !is_readable(frame) && message@
                            == unreadable(frame)
                },
                Err(_) => false,
            },
    {
        match self.primary_shm_frame() {
            None => Err(
                SeatError::Capture(
                    "the app has no readable shm frame yet (it may use GPU buffers)".to_owned(),
                ),
            ),
            Some(frame) => match check_frame(frame) {
                Ok(()) => Ok(frame),
                Err(message) => Err(SeatError::Capture(message)),
            },
        }
    }
}

/// The error of a pool that could not be mapped.
pub fn map_error(reason: &str) -> (error: SeatError)
    ensures
        error matches SeatError::Capture(message) && message@ == "mmap of the shm pool failed: "@
            + reason@,
{
    SeatError::Capture(join2("mmap of the shm pool failed: ", reason))
}

/// The captured frame, given the bytes of its pool.
pub fn finish_capture<F>(frame: &ShmFrame<F>, pool: &[u8]) -> (captured: Result<
    CapturedFrame,
    SeatError,
>)
    requires
        is_readable(*frame),
        pool@.len() == frame.pool_size,
        3 * frame.width * frame.height <= usize::MAX,
    ensures
        match captured {
            Ok(captured) => {
                &&& is_decodable(frame.format)
                &&& captured.width == frame.width
                &&& captured.height == frame.height
                &&& image_size(captured.image) == (captured.width, captured.height)
                &&& image_pixels(captured.image) == frame_pixels(*frame, pool@)
                &&& image_pixels(captured.image).len() == frame.width * frame.height
                &&& forall|x: int, y: int|
                    0 <= x < frame.width && 0 <= y < frame.height ==> (#[trigger] image_pixels(
                        captured.image,
                    )[y * frame.width + x]) == (if 4 * x + 2 < frame.stride {
                        (
                            pool@[frame.offset + y * frame.stride + 4 * x + 2],
                            pool@[frame.offset + y * frame.stride + 4 * x + 1],
                            pool@[frame.offset + y * frame.stride + 4 * x],
                        )
                    } else {
                        (0, 0, 0)
                    })
            },
            Err(SeatError::Capture(message)) => !is_decodable(frame.format) && message@
                == undecodable(frame.format),
            Err(_) => false,
        },
        captured is Ok <==> frame.format == 0 || frame.format == 1,
{
    match decode_frame(frame, pool) {
        Ok(image) => Ok(
            CapturedFrame { image, width: frame.width as u32, height: frame.height as u32 },
        ),
        Err(message) => Err(SeatError::Capture(message)),
    }
}

/// Whether a frame of this size is a window rather than a startup icon or a
/// cursor-sized helper.
pub open spec fn is_window_sized(width: u32, height: u32) -> bool {
    width >= 160 && height >= 120 && width * height >= 65_536
}

impl CapturedFrame {
    /// Whether this frame is a window rather than a startup icon or a
    /// cursor-sized helper.
    pub fn is_interactive(&self) -> (interactive: bool)
        ensures
            interactive == is_window_sized(self.width, self.height),
            interactive <==> self.width >= 160 && self.height >= 120 && self.width * self.height
                >= 65_536,
    {
        assert(0 <= self.width * self.height <= 0xffff_ffff * 0xffff_ffff) by (nonlinear_arith)
            requires
                0 <= self.width <= 0xffff_ffff,
                0 <= self.height <= 0xffff_ffff,
        ;
        self.width >= 160 && self.height >= 120 && self.width as u64 * self.height as u64
            >= 65_536
    }
}

/// Whether pixels show something: one of every sixty-four differs from the
/// first.
pub open spec fn is_varied(pixels: Seq<(u8, u8, u8)>) -> bool {
    exists|k: int| 0 <= k && 64 * k < pixels.len() && #[trigger] pixels[64 * k] != pixels[0]
}

/// Whether pixels show something.
pub fn are_varied(pixels: &Vec<(u8, u8, u8)>) -> (varied: bool)
    ensures
        varied == is_varied(pixels@),
        varied <==> exists|k: int|
            0 <= k && 64 * k < pixels@.len() && #[trigger] pixels@[64 * k] != pixels@[0],
{
    if pixels.len() == 0 {
        return false;
    }
    let (red, green, blue): (u8, u8, u8) = pixels[0];
    let mut i: usize = 0;
    let ghost mut k: int = 0;
    while i < pixels.len()
        invariant
            pixels@.len() > 0,
            k >= 0,
            i == 64 * k || i == usize::MAX && 64 * k > usize::MAX,
            (red, green, blue) == pixels@[0],
            forall|j: int|
                0 <= j < k && 64 * j < pixels@.len() ==> #[trigger] pixels@[64 * j] == pixels@[0],
        decreases
            if i < pixels.len() {
                pixels.len() - i
            } else {
                0
            },
    {
        let (r, g, b): (u8, u8, u8) = pixels[i];
        if r != red || g != green || b != blue {
            assert(pixels@[64 * k] != pixels@[0]);
            return true;
        }
        i = if usize::MAX - i < 64 {
            usize::MAX
        } else {
            i + 64
        };
        proof {
            k = k + 1;
        }
    }
    false
}

/// Whether a captured frame shows something: a bridge that only shows its
/// empty root window does not.
pub fn frame_has_visible_content(frame: &CapturedFrame) -> (visible: bool)
    ensures
        visible == is_varied(image_pixels(frame.image)),
{
    let pixels: Vec<(u8, u8, u8)> = rgb_pixels(&frame.image);
    are_varied(&pixels)
}

} // verus!
