use agent_seat_linux::capture::{
    are_varied, check_frame, decode_frame, finish_capture, frame_has_visible_content, map_error,
    CapturedFrame,
};
use agent_seat_linux::proxy::{Conn, ShmFrame, SurfaceState};
use agent_seat_linux::{ControlledApp, SeatApp, SeatError, Transport};
use std::sync::Arc;

fn frame(width: i32, height: i32, stride: i32, offset: i32, pool_size: i32, format: u32) -> ShmFrame<u8> {
    ShmFrame { fd: Arc::new(0), pool_size, offset, width, height, stride, format }
}

fn surface(attached: Option<ShmFrame<u8>>, commit_count: u64) -> SurfaceState<u8> {
    SurfaceState { attached, commit_count, last_commit: commit_count }
}

#[test]
fn visible_content_rejects_uniform_bridge_roots() {
    let blank = CapturedFrame {
        image: image::DynamicImage::ImageRgb8(image::RgbImage::new(1280, 800)),
        width: 1280,
        height: 800,
    };
    assert!(!frame_has_visible_content(&blank));

    let mut image = image::RgbImage::new(128, 128);
    image.put_pixel(64, 64, image::Rgb([255, 255, 255]));
    let visible = CapturedFrame {
        image: image::DynamicImage::ImageRgb8(image),
        width: 128,
        height: 128,
    };
    assert!(frame_has_visible_content(&visible));
}

#[test]
fn only_one_pixel_of_sixty_four_is_looked_at() {
    let mut pixels = vec![(0, 0, 0); 130];
    pixels[63] = (1, 1, 1);
    assert!(!are_varied(&pixels));
    pixels[128] = (0, 0, 1);
    assert!(are_varied(&pixels));
    assert!(!are_varied(&vec![]));
    assert!(!are_varied(&vec![(9, 9, 9)]));
}

#[test]
fn pixels_are_decoded_row_by_row() {
    let mut pool = vec![0u8; 4 + 2 * 12];
    for (i, byte) in pool.iter_mut().enumerate() {
        *byte = i as u8;
    }
    let source = frame(2, 2, 12, 4, 28, 0);
    let image = decode_frame(&source, &pool).unwrap();
    assert_eq!((image.width(), image.height()), (2, 2));
    let rgb = image.to_rgb8();
    assert_eq!(rgb.get_pixel(0, 0).0, [6, 5, 4]);
    assert_eq!(rgb.get_pixel(1, 0).0, [10, 9, 8]);
    assert_eq!(rgb.get_pixel(0, 1).0, [18, 17, 16]);
    assert_eq!(rgb.get_pixel(1, 1).0, [22, 21, 20]);
}

#[test]
fn short_rows_are_black_at_the_end() {
    let pool = vec![200u8; 7];
    let image = decode_frame(&frame(3, 1, 7, 0, 7, 1), &pool).unwrap().to_rgb8();
    assert_eq!(image.get_pixel(0, 0).0, [200, 200, 200]);
    assert_eq!(image.get_pixel(1, 0).0, [200, 200, 200]);
    assert_eq!(image.get_pixel(2, 0).0, [0, 0, 0]);
    let narrow = decode_frame(&frame(1, 1, 2, 0, 2, 1), &pool[..2]).unwrap().to_rgb8();
    assert_eq!(narrow.get_pixel(0, 0).0, [0, 0, 0]);
}

#[test]
fn unknown_formats_are_refused() {
    let pool = vec![0u8; 4];
    assert_eq!(
        decode_frame(&frame(1, 1, 4, 0, 4, 0x34325241), &pool).unwrap_err(),
        "unsupported wl_shm format 0x34325241 (only ARGB8888/XRGB8888 are decoded)"
    );
    assert!(matches!(
        finish_capture(&frame(1, 1, 4, 0, 4, 7), &pool),
        Err(SeatError::Capture(message)) if message.contains("0x7")
    ));
}

#[test]
fn frames_must_lie_within_their_pool() {
    assert_eq!(check_frame(&frame(1, 1, 4, 0, 4, 0)), Ok(()));
    assert_eq!(
        check_frame(&frame(-1, 2, 3, 4, 5, 0)).unwrap_err(),
        "invalid shm frame offset=4, geometry=-1x2, stride=3, pool=5"
    );
    assert_eq!(
        check_frame(&frame(1, 2, 4, 1, 8, 0)).unwrap_err(),
        "frame (9 bytes) exceeds shm pool size (8 bytes)"
    );
    for bad in [
        frame(1, 0, 4, 0, 4, 0),
        frame(1, 1, 0, 0, 4, 0),
        frame(1, 1, 4, -1, 4, 0),
        frame(1, 1, 4, 0, 0, 0),
    ] {
        assert!(check_frame(&bad).unwrap_err().starts_with("invalid shm frame"));
    }
    assert_eq!(
        check_frame(&frame(1, i32::MAX, i32::MAX, i32::MAX, i32::MAX, 0)).unwrap_err(),
        "frame (4611686016279904256 bytes) exceeds shm pool size (2147483647 bytes)"
    );
}

#[test]
fn the_largest_window_is_captured() {
    let mut conn: Conn<u8> = Conn::new();
    assert!(conn.primary_shm_frame().is_none());
    conn.surfaces.insert(1, surface(Some(frame(16, 16, 64, 0, 4096, 0)), 500));
    conn.surfaces.insert(2, surface(Some(frame(64, 64, 256, 0, 65536, 0)), 1));
    conn.surfaces.insert(3, surface(None, 900));
    assert_eq!(conn.primary_shm_frame().unwrap().width, 64);
    conn.surfaces.insert(4, surface(Some(frame(32, 128, 128, 0, 65536, 0)), 2));
    assert_eq!(conn.primary_shm_frame().unwrap().width, 32);
    conn.surfaces.insert(5, surface(Some(frame(-5, -5, 1, 0, 1, 0)), 999));
    assert_eq!(conn.primary_shm_frame().unwrap().width, 32);
}

#[test]
fn captures_report_what_is_wrong() {
    let mut app: SeatApp<u8> = SeatApp::new(7, Conn::new());
    let bytes = |frame: &ShmFrame<u8>| Ok(vec![9u8; frame.pool_size as usize]);
    let message = |captured: Result<CapturedFrame, SeatError>| match captured {
        Err(SeatError::Capture(message)) => message,
        _ => panic!("the capture must fail"),
    };
    assert_eq!(
        message(app.capture_frame(bytes)),
        "the app has no readable shm frame yet (it may use GPU buffers)"
    );
    app.conn.surfaces.insert(1, surface(Some(frame(2, 2, 8, 8, 8, 0)), 1));
    assert_eq!(
        message(app.capture_frame(bytes)),
        "frame (24 bytes) exceeds shm pool size (8 bytes)"
    );
    app.conn.surfaces.insert(1, surface(Some(frame(2, 2, 8, 0, 16, 0)), 1));
    assert_eq!(
        message(app.capture_frame(|_| Err(String::from("denied")))),
        "mmap of the shm pool failed: denied"
    );
    let captured = app.capture_frame(bytes).unwrap();
    assert_eq!((captured.width, captured.height), (2, 2));
    assert_eq!(captured.image.to_rgb8().get_pixel(1, 1).0, [9, 9, 9]);
    assert!(!app.has_interactive_frame(bytes));
    assert!(matches!(map_error("x"), SeatError::Capture(m) if m == "mmap of the shm pool failed: x"));

    let controlled = ControlledApp::new((), 1, 2, Transport::NativeWayland);
    assert!(controlled.capture(&app, bytes).is_ok());
    let error = controlled.capture(&app, |_| Err(String::from("denied"))).unwrap_err();
    assert_eq!(error.to_string(), "capture failure: mmap of the shm pool failed: denied");
    assert!(matches!(error.source(), Some(SeatError::Capture(_))));
}

#[test]
fn windows_have_a_least_size() {
    let sized = |width: u32, height: u32| {
        let image = image::DynamicImage::ImageRgb8(image::RgbImage::new(1, 1));
        CapturedFrame { image, width, height }.is_interactive()
    };
    assert!(sized(256, 256));
    assert!(sized(160, 410));
    assert!(!sized(160, 409));
    assert!(!sized(159, 10_000));
    assert!(!sized(10_000, 119));
    assert!(sized(u32::MAX, u32::MAX));
}
