//! What holds of captured frames.
use crate::capture::CapturedFrame;
use crate::error::SeatError;
use crate::proxy::{ConnView, ShmFrame};
use vstd::prelude::*;

verus! {

/// The picture of a frame has a pixel for each column and row. Each is read
/// from its own four bytes in the pool, blue first, then green, then red,
/// wherever its row holds them, and is black elsewhere.
pub proof fn law_pixels_are_read_in_place<F>(frame: ShmFrame<F>, pool: Seq<u8>, x: int, y: int)
    requires
        0 <= x < frame.width,
        0 <= y < frame.height,
    ensures
        ({
            let pixels = crate::capture::frame_pixels(frame, pool);
            let at = frame.offset + y * frame.stride + 4 * x;
            let (red, green, blue) = pixels[y * frame.width + x];
            &&& pixels.len() == frame.width * frame.height
            &&& 0 <= y * frame.width + x < pixels.len()
            &&& 4 * x + 2 < frame.stride ==> red == pool[at + 2] && green == pool[at + 1] && blue
                == pool[at + 0]
            &&& 4 * x + 2 >= frame.stride ==> red == 0 && green == 0 && blue == 0
        }),
{
    let width = frame.width as int;
    vstd::arithmetic::div_mod::lemma_fundamental_div_mod_converse(y * width + x, width, y, x);
    assert(0 <= y * width + x < frame.width * frame.height) by (nonlinear_arith)
        requires
            0 <= x < width,
            0 <= y < frame.height,
            width == frame.width,
    ;
}

/// The fourth byte of a pixel is never looked at: two frames that differ in
/// their format alone show the same picture.
pub proof fn law_formats_decode_alike<F>(frame: ShmFrame<F>, format: u32, pool: Seq<u8>)
    ensures
        crate::capture::frame_pixels(frame, pool) == crate::capture::frame_pixels(
            ShmFrame { format, ..frame },
            pool,
        ),
{
    let other = ShmFrame { format, ..frame };
    assert(crate::capture::frame_pixels(frame, pool) =~= crate::capture::frame_pixels(other, pool));
}

/// A picture depends on nothing but the colour bytes of its own pixels: two
/// pools that hold the same ones give the same picture.
pub proof fn law_only_the_frame_is_shown<F>(frame: ShmFrame<F>, pool: Seq<u8>, other: Seq<u8>)
    requires
        frame.width > 0,
        frame.height > 0,
        forall|x: int, y: int, colour: int|
            0 <= x < frame.width && 0 <= y < frame.height && 0 <= colour < 3 && 4 * x + 2
                < frame.stride ==> #[trigger] pool[frame.offset + y * frame.stride + 4 * x
                + colour] == other[frame.offset + y * frame.stride + 4 * x + colour],
    ensures
        crate::capture::frame_pixels(frame, pool) == crate::capture::frame_pixels(frame, other),
{
    let width = frame.width as int;
    assert forall|i: int| 0 <= i < frame.width * frame.height implies crate::capture::frame_pixels(
        frame,
        pool,
    )[i] == crate::capture::frame_pixels(frame, other)[i] by {
        let x = i % width;
        let y = i / width;
        vstd::arithmetic::div_mod::lemma_fundamental_div_mod(i, width);
        vstd::arithmetic::div_mod::lemma_mod_bound(i, width);
        let height = frame.height as int;
        assert(0 <= y < height) by (nonlinear_arith)
            requires
                i == width * y + x,
                0 <= x < width,
                0 <= i < width * height,
        ;
        let at = frame.offset + y * frame.stride + 4 * x;
        if 4 * x + 2 < frame.stride {
            assert(pool[at + 0] == other[at + 0]);
            assert(pool[at + 1] == other[at + 1]);
            assert(pool[at + 2] == other[at + 2]);
        }
    }
    assert(crate::capture::frame_pixels(frame, pool) =~= crate::capture::frame_pixels(frame, other));
}

/// Whether a frame has a row of this number.
pub open spec fn is_row<F>(frame: ShmFrame<F>, y: int) -> bool {
    0 <= y < frame.height
}

/// A frame is read exactly where it has a size and a pool, and each of its
/// rows lies within the pool.
pub proof fn law_frames_lie_within_their_pool<F>(frame: ShmFrame<F>)
    ensures
        crate::capture::is_readable(frame) <==> {
            &&& frame.offset >= 0
            &&& frame.width > 0
            &&& frame.height > 0
            &&& frame.stride > 0
            &&& frame.pool_size > 0
            &&& forall|y: int|
                #![trigger is_row(frame, y)]
                is_row(frame, y) ==> frame.offset + y * frame.stride + frame.stride
                    <= frame.pool_size
        },
{
    let height = frame.height as int;
    let stride = frame.stride as int;
    if height > 0 && stride > 0 {
        assert(is_row(frame, height - 1));
        assert((height - 1) * stride + stride == stride * height) by (nonlinear_arith);
        assert forall|y: int| is_row(frame, y) implies y * stride + stride <= stride
            * height by {
            assert(y * stride + stride <= stride * height) by (nonlinear_arith)
                requires
                    0 <= y < height,
                    0 < stride,
            ;
        }
    }
}

/// The window that is captured is the largest readable one, by width times
/// height, where a negative size counts as none; among the largest it is the
/// one committed most often.
pub proof fn law_main_window_is_the_largest<F>(v: ConnView<F>, surface: u64, other: u64)
    requires
        v.is_main(surface),
        v.surfaces.contains_key(other),
        v.surfaces[other].attached is Some,
    ensures
        v.surfaces.contains_key(surface),
        v.surfaces[surface].attached is Some,
        ({
            let mine = v.surfaces[surface].attached.unwrap();
            let theirs = v.surfaces[other].attached.unwrap();
            &&& theirs.width > 0 && theirs.height > 0 ==> mine.width > 0 && mine.height > 0
                && mine.width * mine.height >= theirs.width * theirs.height
            &&& theirs.width > 0 && theirs.height > 0 && mine.width * mine.height == theirs.width
                * theirs.height ==> v.surfaces[surface].commit_count
                >= v.surfaces[other].commit_count
        }),
{
    assert(v.shows(other));
    let mine = v.surfaces[surface].attached.unwrap();
    let theirs = v.surfaces[other].attached.unwrap();
    if theirs.width > 0 && theirs.height > 0 {
        assert(theirs.width * theirs.height > 0) by (nonlinear_arith)
            requires
                theirs.width > 0,
                theirs.height > 0,
        ;
        if mine.width <= 0 || mine.height <= 0 {
            assert(crate::capture::extent(mine.width) * crate::capture::extent(mine.height) == 0)
                by (nonlinear_arith)
                requires
                    crate::capture::extent(mine.width) == 0 || crate::capture::extent(mine.height)
                        == 0,
            ;
        }
    }
}

/// Some window is captured as soon as one shows something readable, and none
/// where none does.
pub proof fn law_something_is_captured_where_anything_shows<F>(
    v: ConnView<F>,
    frame: Option<ShmFrame<F>>,
    surface: u64,
)
    requires
        v.is_primary(frame),
    ensures
        v.surfaces.contains_key(surface) && v.surfaces[surface].attached is Some ==> frame is Some,
        frame is Some ==> exists|shown: u64| #[trigger]
            v.surfaces.contains_key(shown) && v.surfaces[shown].attached == frame,
{
    if v.surfaces.contains_key(surface) && v.surfaces[surface].attached is Some {
        assert(v.shows(surface));
    }
}

/// Whether pixels differ from one another is seen at every sixty-fourth of
/// them: a picture of one colour shows nothing, and one whose looked-at
/// pixels are not all alike does.
pub proof fn law_uniform_pictures_show_nothing(pixels: Seq<(u8, u8, u8)>, i: int, j: int)
    ensures
        (forall|k: int| 0 <= k < pixels.len() ==> #[trigger] pixels[k] == pixels[0])
            ==> !crate::capture::is_varied(pixels),
        0 <= i && 0 <= j && 64 * i < pixels.len() && 64 * j < pixels.len() && pixels[64 * i]
            != pixels[64 * j] ==> crate::capture::is_varied(pixels),
{
    if 0 <= i && 0 <= j && 64 * i < pixels.len() && 64 * j < pixels.len() && pixels[64 * i]
        != pixels[64 * j] {
        assert(pixels[64 * i] != pixels[0] || pixels[64 * j] != pixels[0]);
    }
}

/// What is captured is the picture of a window of this application, in its
/// own size, read from the pool that the window's frame lies in.
pub proof fn law_captures_show_the_main_window<
    F,
    M: Fn(&ShmFrame<F>) -> Result<Vec<u8>, String>,
>(v: ConnView<F>, map: M, captured: CapturedFrame)
    requires
        crate::seat_app::captures(v, map, Ok::<CapturedFrame, SeatError>(captured)),
    ensures
        exists|surface: u64, pool: Vec<u8>| #[trigger]
            is_capture_of(v, map, captured, surface, pool),
{
    let frame = choose|frame: ShmFrame<F>| #[trigger]
        v.is_primary(Some(frame)) && crate::capture::is_readable(frame)
            && crate::seat_app::captures_frame(
            frame,
            map,
            Ok::<CapturedFrame, SeatError>(captured),
        );
    let surface = choose|surface: u64| #[trigger]
        v.is_main(surface) && v.surfaces[surface].attached == Some(frame);
    let pool = choose|pool: Vec<u8>| #[trigger]
        call_ensures(map, (&frame,), Ok(pool)) && crate::capture::is_decodable(frame.format)
            && crate::capture::image_pixels(captured.image) == crate::capture::frame_pixels(
            frame,
            pool@,
        );
    assert forall|x: int, y: int|
        0 <= x < frame.width && 0 <= y < frame.height && 4 * x + 2 < frame.stride implies (
    #[trigger] crate::capture::image_pixels(captured.image)[y * frame.width + x]) == (
        pool@[frame.offset + y * frame.stride + 4 * x + 2],
        pool@[frame.offset + y * frame.stride + 4 * x + 1],
        pool@[frame.offset + y * frame.stride + 4 * x],
    ) by {
        law_pixels_are_read_in_place(frame, pool@, x, y);
    }
    assert(is_capture_of(v, map, captured, surface, pool));
}

/// Whether a captured frame is what a surface shows, read from this pool.
pub open spec fn is_capture_of<F, M: Fn(&ShmFrame<F>) -> Result<Vec<u8>, String>>(
    v: ConnView<F>,
    map: M,
    captured: CapturedFrame,
    surface: u64,
    pool: Vec<u8>,
) -> bool {
    &&& v.surfaces.contains_key(surface)
    &&& v.is_main(surface)
    &&& v.surfaces[surface].attached matches Some(frame)
    &&& call_ensures(map, (&frame,), Ok(pool))
    &&& frame.format == 0 || frame.format == 1
    &&& captured.width == frame.width
    &&& captured.height == frame.height
    &&& crate::capture::image_size(captured.image) == (captured.width, captured.height)
    &&& crate::capture::image_pixels(captured.image).len() == frame.width * frame.height
    &&& forall|x: int, y: int|
        0 <= x < frame.width && 0 <= y < frame.height && 4 * x + 2 < frame.stride ==> (
        #[trigger] crate::capture::image_pixels(captured.image)[y * frame.width + x]) == (
            pool@[frame.offset + y * frame.stride + 4 * x + 2],
            pool@[frame.offset + y * frame.stride + 4 * x + 1],
            pool@[frame.offset + y * frame.stride + 4 * x],
        )
}

/// A frame that cannot be read is described by its numbers: all of them where
/// they make no sense, else how far it reaches and how large its pool is. A
/// format that cannot be decoded is named by its number.
pub proof fn law_unreadable_frames_are_described<F>(frame: ShmFrame<F>)
    ensures
        frame.offset < 0 || frame.width <= 0 || frame.height <= 0 || frame.stride <= 0
            || frame.pool_size <= 0 ==> crate::capture::unreadable(frame)
            == "invalid shm frame offset="@ + crate::text::signed_decimal(frame.offset as int)
            + ", geometry="@ + crate::text::signed_decimal(frame.width as int) + "x"@
            + crate::text::signed_decimal(frame.height as int) + ", stride="@
            + crate::text::signed_decimal(frame.stride as int) + ", pool="@
            + crate::text::signed_decimal(frame.pool_size as int),
        frame.offset >= 0 && frame.width > 0 && frame.height > 0 && frame.stride > 0
            && frame.pool_size > 0 ==> crate::capture::unreadable(frame) == "frame ("@
            + crate::text::signed_decimal(frame.offset + frame.stride * frame.height)
            + " bytes) exceeds shm pool size ("@ + crate::text::signed_decimal(
            frame.pool_size as int,
        ) + " bytes)"@,
        crate::capture::undecodable(frame.format) == "unsupported wl_shm format "@
            + crate::text::prefixed_hexadecimal(frame.format as nat)
            + " (only ARGB8888/XRGB8888 are decoded)"@,
        crate::capture::is_decodable(frame.format) <==> frame.format == 0 || frame.format == 1,
{
}

/// A window is at least 160 pixels wide and 120 pixels high, and has at least
/// 65536 of them.
pub proof fn law_windows_have_a_size(width: u32, height: u32)
    ensures
        crate::capture::is_window_sized(width, height) <==> width >= 160 && height >= 120 && width
            * height >= 0x1_0000,
{
}

} // verus!
