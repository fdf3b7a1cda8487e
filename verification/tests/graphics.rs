use nosso_os::graphics::{Color, FrameBufferInfo, Framebuffer, GraphicsBackend, PixelFormat, Point, Rect, Size};

fn info(width: usize, height: usize, format: PixelFormat) -> FrameBufferInfo {
    FrameBufferInfo {
        byte_len: width * height * 3,
        width,
        height,
        pixel_format: format,
        bytes_per_pixel: 3,
        stride: width,
    }
}

#[test]
fn constructors_keep_their_fields() {
    let c = Color::rgb(1, 2, 3);
    assert_eq!((c.r, c.g, c.b), (1, 2, 3));
    let p = Point::new(4, 5);
    assert_eq!((p.x, p.y), (4, 5));
    let s = Size::new(6, 7);
    assert_eq!((s.width, s.height), (6, 7));
    let r = Rect::new(8, 9, 10, 11);
    assert_eq!((r.x, r.y, r.width, r.height), (8, 9, 10, 11));
    let w = Color::white();
    assert_eq!((w.r, w.g, w.b), (255, 255, 255));
    let k = Color::black();
    assert_eq!((k.r, k.g, k.b), (0, 0, 0));
    assert_eq!(Color::red().r, 255);
    assert_eq!(Color::green().g, 255);
    assert_eq!(Color::blue().b, 255);
}

#[test]
fn draw_pixel_stores_rgb_at_its_offset() {
    let mut buf = vec![0u8; 4 * 3 * 3];
    {
        let mut fb = Framebuffer::new(&mut buf, info(4, 3, PixelFormat::Rgb));
        fb.draw_pixel(Point::new(1, 2), Color::rgb(10, 20, 30));
    }
    let off = (2 * 4 + 1) * 3;
    assert_eq!(&buf[off..off + 3], &[10, 20, 30]);
    assert_eq!(buf.iter().filter(|b| **b != 0).count(), 3);
}

#[test]
fn draw_pixel_stores_bgr_reversed() {
    let mut buf = vec![0u8; 4 * 3 * 3];
    {
        let mut fb = Framebuffer::new(&mut buf, info(4, 3, PixelFormat::Bgr));
        fb.draw_pixel(Point::new(0, 0), Color::rgb(10, 20, 30));
    }
    assert_eq!(&buf[0..3], &[30, 20, 10]);
}

#[test]
fn draw_pixel_u8_stores_red_only() {
    let mut buf = vec![0u8; 4 * 3 * 3];
    {
        let mut fb = Framebuffer::new(&mut buf, info(4, 3, PixelFormat::U8));
        fb.draw_pixel(Point::new(0, 0), Color::rgb(10, 20, 30));
    }
    assert_eq!(&buf[0..3], &[10, 0, 0]);
}

#[test]
fn draw_pixel_unknown_format_draws_nothing() {
    let mut buf = vec![0u8; 4 * 3 * 3];
    {
        let format = PixelFormat::Unknown { red_position: 0, green_position: 8, blue_position: 16 };
        let mut fb = Framebuffer::new(&mut buf, info(4, 3, format));
        fb.draw_pixel(Point::new(0, 0), Color::rgb(10, 20, 30));
    }
    assert!(buf.iter().all(|b| *b == 0));
}

#[test]
fn draw_pixel_off_screen_or_past_buffer_is_ignored() {
    let mut buf = vec![0u8; 4 * 3 * 3 - 1];
    {
        let mut fb = Framebuffer::new(&mut buf, info(4, 3, PixelFormat::Rgb));
        fb.draw_pixel(Point::new(4, 0), Color::white());
        fb.draw_pixel(Point::new(0, 3), Color::white());
        // the last pixel's third byte lies past the shortened buffer
        fb.draw_pixel(Point::new(3, 2), Color::white());
    }
    assert!(buf.iter().all(|b| *b == 0));
}

#[test]
fn blend_pixel_mixes_with_alpha() {
    let mut buf = vec![100u8; 4 * 3 * 3];
    {
        let mut fb = Framebuffer::new(&mut buf, info(4, 3, PixelFormat::Rgb));
        fb.blend_pixel(Point::new(0, 0), Color::rgb(200, 0, 255), 90);
    }
    // (200 * 90 + 100 * 165) / 255 = 135, (0 * 90 + 100 * 165) / 255 = 64,
    // (255 * 90 + 100 * 165) / 255 = 154
    assert_eq!(&buf[0..3], &[135, 64, 154]);
    assert_eq!(buf[3], 100);
}

#[test]
fn blend_pixel_bgr_and_u8() {
    let mut buf = vec![100u8; 4 * 3 * 3];
    {
        let mut fb = Framebuffer::new(&mut buf, info(4, 3, PixelFormat::Bgr));
        fb.blend_pixel(Point::new(0, 0), Color::rgb(200, 0, 255), 90);
    }
    assert_eq!(&buf[0..3], &[154, 64, 135]);
    let mut gray = vec![100u8; 4 * 3 * 3];
    {
        let mut fb = Framebuffer::new(&mut gray, info(4, 3, PixelFormat::U8));
        fb.blend_pixel(Point::new(0, 0), Color::rgb(200, 0, 255), 90);
    }
    assert_eq!(&gray[0..3], &[135, 100, 100]);
}

#[test]
fn blend_at_full_opacity_is_drawing() {
    let mut a = vec![77u8; 4 * 3 * 3];
    let mut b = vec![77u8; 4 * 3 * 3];
    {
        let mut fa = Framebuffer::new(&mut a, info(4, 3, PixelFormat::Rgb));
        fa.blend_pixel(Point::new(2, 1), Color::rgb(1, 128, 250), 255);
        let mut fbb = Framebuffer::new(&mut b, info(4, 3, PixelFormat::Rgb));
        fbb.draw_pixel(Point::new(2, 1), Color::rgb(1, 128, 250));
    }
    assert_eq!(a, b);
}

#[test]
fn blend_at_zero_opacity_changes_nothing() {
    let mut a = vec![77u8; 4 * 3 * 3];
    {
        let mut fa = Framebuffer::new(&mut a, info(4, 3, PixelFormat::Rgb));
        fa.blend_pixel(Point::new(2, 1), Color::rgb(1, 128, 250), 0);
    }
    assert!(a.iter().all(|b| *b == 77));
}

#[test]
fn drawing_twice_is_drawing_once() {
    let mut a = vec![0u8; 4 * 3 * 3];
    let mut b = vec![0u8; 4 * 3 * 3];
    {
        let mut fa = Framebuffer::new(&mut a, info(4, 3, PixelFormat::Rgb));
        fa.draw_pixel(Point::new(3, 2), Color::rgb(5, 6, 7));
        fa.draw_pixel(Point::new(3, 2), Color::rgb(5, 6, 7));
        let mut fbb = Framebuffer::new(&mut b, info(4, 3, PixelFormat::Rgb));
        fbb.draw_pixel(Point::new(3, 2), Color::rgb(5, 6, 7));
    }
    assert_eq!(a, b);
}

#[test]
fn fill_rect_covers_exactly_the_rectangle() {
    let mut buf = vec![0u8; 4 * 3 * 3];
    {
        let mut fb = Framebuffer::new(&mut buf, info(4, 3, PixelFormat::Rgb));
        fb.fill_rect(Rect::new(1, 1, 2, 2), Color::rgb(9, 9, 9));
    }
    for y in 0..3 {
        for x in 0..4 {
            let inside = (1..3).contains(&x) && (1..3).contains(&y);
            let off = (y * 4 + x) * 3;
            assert_eq!(buf[off] == 9, inside, "pixel ({}, {})", x, y);
        }
    }
}

#[test]
fn fill_rect_clips_to_the_screen() {
    let mut buf = vec![0u8; 4 * 3 * 3];
    {
        let mut fb = Framebuffer::new(&mut buf, info(4, 3, PixelFormat::Rgb));
        fb.fill_rect(Rect::new(3, 2, 10, 10), Color::rgb(9, 9, 9));
    }
    assert_eq!(buf.iter().filter(|b| **b == 9).count(), 3);
}

#[test]
fn clear_fills_everything() {
    let mut buf = vec![0u8; 4 * 3 * 3];
    {
        let mut fb = Framebuffer::new(&mut buf, info(4, 3, PixelFormat::Rgb));
        assert_eq!(fb.width(), 4);
        assert_eq!(fb.height(), 3);
        fb.clear(Color::rgb(1, 2, 3));
    }
    for px in buf.chunks(3) {
        assert_eq!(px, &[1, 2, 3]);
    }
}

#[test]
fn stride_wider_than_width_skips_padding() {
    let mut buf = vec![0u8; 6 * 2 * 3];
    {
        let i = FrameBufferInfo {
            byte_len: 36,
            width: 4,
            height: 2,
            pixel_format: PixelFormat::Rgb,
            bytes_per_pixel: 3,
            stride: 6,
        };
        let mut fb = Framebuffer::new(&mut buf, i);
        fb.draw_pixel(Point::new(0, 1), Color::rgb(1, 1, 1));
    }
    assert_eq!(buf[18], 1);
}

#[test]
fn framebuffer_gives_back_info_and_buffer() {
    let mut buf = vec![0u8; 4 * 3 * 3];
    let i = info(4, 3, PixelFormat::Rgb);
    let mut fb = Framebuffer::new(&mut buf, i);
    assert_eq!(fb.info().stride, 4);
    fb.buffer_mut()[0] = 42;
    let back = fb.into_buffer();
    assert_eq!(back[0], 42);
}

#[test]
fn addressable_geometry() {
    assert!(info(800, 600, PixelFormat::Rgb).is_addressable());
    assert!(info(0, 600, PixelFormat::Rgb).is_addressable());
    let huge = FrameBufferInfo {
        byte_len: 0,
        width: 2,
        height: usize::MAX,
        pixel_format: PixelFormat::Rgb,
        bytes_per_pixel: 3,
        stride: 4,
    };
    assert!(!huge.is_addressable());
    let tight = FrameBufferInfo {
        byte_len: 0,
        width: 1,
        height: 1,
        pixel_format: PixelFormat::Rgb,
        bytes_per_pixel: usize::MAX,
        stride: 1,
    };
    assert!(tight.is_addressable());
}
