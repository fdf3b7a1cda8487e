use vstd::prelude::*;
use super::backend::GraphicsBackend;
use super::types::{Color, Point, Rect};

verus! {

/// How the bytes of one pixel encode its color.
#[derive(Clone, Copy, Debug)]
pub enum PixelFormat {
    /// One byte red, then one byte green, then one byte blue.
    Rgb,
    /// One byte blue, then one byte green, then one byte red.
    Bgr,
    /// A single grayscale byte.
    U8,
    /// A format given by bit offsets; nothing is drawn in it.
    Unknown { red_position: u8, green_position: u8, blue_position: u8 },
}

/// The geometry and color format of a linear framebuffer.
#[derive(Clone, Copy, Debug)]
pub struct FrameBufferInfo {
    /// The total size in bytes.
    pub byte_len: usize,
    /// The width in pixels.
    pub width: usize,
    /// The height in pixels.
    pub height: usize,
    pub pixel_format: PixelFormat,
    pub bytes_per_pixel: usize,
    /// Number of pixels between the start of a line and the start of the next.
    pub stride: usize,
}

impl FrameBufferInfo {
    /// Whether a framebuffer can be built on this geometry; see `addressable`.
    pub fn is_addressable(&self) -> (ok: bool)
        ensures
            ok == self.addressable(),
    {
        if self.width == 0 || self.height == 0 {
            return true;
        }
        let rows = match (self.height - 1).checked_mul(self.stride) {
            Some(rows) => rows,
            None => {
                return false;
            },
        };
        let last = match rows.checked_add(self.width - 1) {
            Some(last) => last,
            None => {
                return false;
            },
        };
        proof {
            assert(last * self.bytes_per_pixel >= 0) by (nonlinear_arith)
                requires
                    last >= 0,
                    self.bytes_per_pixel >= 0,
            ;
        }
        match last.checked_mul(self.bytes_per_pixel) {
            Some(bytes) => bytes <= usize::MAX - 2,
            None => false,
        }
    }

    /// Index of the first pixel of row `p.y` plus `p.x`.
    pub open spec fn pixel_index(self, p: Point) -> int {
        p.y * self.stride + p.x
    }

    /// Index of the first byte of the pixel at `p`.
    pub open spec fn byte_offset(self, p: Point) -> int {
        self.pixel_index(p) * self.bytes_per_pixel
    }

    /// The offsets of every visible pixel, and the two bytes after each, fit in a `usize`.
    pub open spec fn addressable(self) -> bool {
        self.width == 0 || self.height == 0 || {
            let last = (self.height - 1) * self.stride + (self.width - 1);
            &&& last <= usize::MAX
            &&& last * self.bytes_per_pixel + 2 <= usize::MAX
        }
    }
}

/// What a framebuffer shows: its geometry and the bytes of its buffer.
pub struct FrameView {
    pub info: FrameBufferInfo,
    pub bytes: Seq<u8>,
}

/// `new` mixed over `old` with opacity `alpha` out of 255, rounded down.
pub open spec fn mix(new: u8, old: u8, alpha: u8) -> u8 {
    ((new * alpha + old * (255 - alpha)) / 255) as u8
}

/// Whether `p` lies on the screen and its three bytes lie inside the buffer.
pub open spec fn pixel_in_buffer(view: FrameView, p: Point) -> bool {
    &&& p.x < view.info.width
    &&& p.y < view.info.height
    &&& view.info.byte_offset(p) + 2 < view.bytes.len()
}

/// Off-screen points, and points whose three bytes do not all lie in the
/// buffer, are left alone; otherwise the color is stored in the pixel's
/// format (only red, as gray, for `U8`; nothing for `Unknown`).
pub open spec fn frame_pixel_drawn(canvas: FrameView, point: Point, color: Color) -> FrameView {
    if !pixel_in_buffer(canvas, point) {
        canvas
    } else {
        let off = canvas.info.byte_offset(point);
        let b = canvas.bytes;
        match canvas.info.pixel_format {
            PixelFormat::Rgb => FrameView {
                info: canvas.info,
                bytes: b.update(off, color.r).update(off + 1, color.g).update(off + 2, color.b),
            },
            PixelFormat::Bgr => FrameView {
                info: canvas.info,
                bytes: b.update(off, color.b).update(off + 1, color.g).update(off + 2, color.r),
            },
            PixelFormat::U8 => FrameView { info: canvas.info, bytes: b.update(off, color.r) },
            PixelFormat::Unknown { .. } => canvas,
        }
    }
}

/// Like `pixel_drawn`, but each stored component becomes `mix` of the
/// new component over the byte that was there.
pub open spec fn frame_pixel_blended(canvas: FrameView, point: Point, color: Color, alpha: u8) -> FrameView {
    if !pixel_in_buffer(canvas, point) {
        canvas
    } else {
        let off = canvas.info.byte_offset(point);
        let b = canvas.bytes;
        match canvas.info.pixel_format {
            PixelFormat::Rgb => FrameView {
                info: canvas.info,
                bytes: b.update(off, mix(color.r, b[off], alpha)).update(
                    off + 1,
                    mix(color.g, b[off + 1], alpha),
                ).update(off + 2, mix(color.b, b[off + 2], alpha)),
            },
            PixelFormat::Bgr => FrameView {
                info: canvas.info,
                bytes: b.update(off, mix(color.b, b[off], alpha)).update(
                    off + 1,
                    mix(color.g, b[off + 1], alpha),
                ).update(off + 2, mix(color.r, b[off + 2], alpha)),
            },
            PixelFormat::U8 => FrameView {
                info: canvas.info,
                bytes: b.update(off, mix(color.r, b[off], alpha)),
            },
            PixelFormat::Unknown { .. } => canvas,
        }
    }
}

/// The first `n` pixels of row `y` from column `x0`, drawn left to right.
pub open spec fn frame_row_drawn(view: FrameView, x0: int, y: int, n: nat, color: Color) -> FrameView
    decreases n,
{
    if n == 0 {
        view
    } else {
        frame_pixel_drawn(
            frame_row_drawn(view, x0, y, (n - 1) as nat, color),
            Point { x: (x0 + n - 1) as usize, y: y as usize },
            color,
        )
    }
}

/// The first `rows` rows of `rect`, each drawn left to right, top to bottom.
pub open spec fn frame_rows_drawn(view: FrameView, rect: Rect, rows: nat, color: Color) -> FrameView
    decreases rows,
{
    if rows == 0 {
        view
    } else {
        frame_row_drawn(
            frame_rows_drawn(view, rect, (rows - 1) as nat, color),
            rect.x as int,
            rect.y + rows - 1,
            rect.width as nat,
            color,
        )
    }
}

proof fn lemma_frame_row_keeps_info(view: FrameView, x0: int, y: int, n: nat, color: Color)
    ensures
        frame_row_drawn(view, x0, y, n, color).info == view.info,
    decreases n,
{
    if n > 0 {
        lemma_frame_row_keeps_info(view, x0, y, (n - 1) as nat, color);
    }
}

proof fn lemma_frame_rows_keep_info(view: FrameView, rect: Rect, rows: nat, color: Color)
    ensures
        frame_rows_drawn(view, rect, rows, color).info == view.info,
    decreases rows,
{
    if rows > 0 {
        let prev = frame_rows_drawn(view, rect, (rows - 1) as nat, color);
        lemma_frame_rows_keep_info(view, rect, (rows - 1) as nat, color);
        lemma_frame_row_keeps_info(prev, rect.x as int, rect.y + rows - 1, rect.width as nat, color);
    }
}

/// Mixing at full opacity gives the new component; at zero opacity, the old one.
pub proof fn lemma_mix_extremes(new: u8, old: u8)
    ensures
        mix(new, old, 255) == new,
        mix(new, old, 0) == old,
{
    assert((new * 255 + old * 0) / 255 == new) by (nonlinear_arith);
    assert((new * 0 + old * 255) / 255 == old) by (nonlinear_arith);
}

/// Blending at full opacity is drawing.
pub proof fn lemma_opaque_blend_draws(view: FrameView, point: Point, color: Color)
    ensures
        frame_pixel_blended(view, point, color, 255) == frame_pixel_drawn(view, point, color),
{
    if pixel_in_buffer(view, point) {
        let off = view.info.byte_offset(point);
        lemma_mix_extremes(color.r, view.bytes[off]);
        lemma_mix_extremes(color.g, view.bytes[off + 1]);
        lemma_mix_extremes(color.b, view.bytes[off + 2]);
        lemma_mix_extremes(color.r, view.bytes[off + 2]);
        lemma_mix_extremes(color.b, view.bytes[off]);
    }
}

/// Blending at zero opacity changes nothing.
pub proof fn lemma_transparent_blend_keeps(view: FrameView, point: Point, color: Color)
    ensures
        frame_pixel_blended(view, point, color, 0) == view,
{
    if pixel_in_buffer(view, point) {
        let off = view.info.byte_offset(point);
        let b = view.bytes;
        lemma_mix_extremes(color.r, b[off]);
        lemma_mix_extremes(color.g, b[off + 1]);
        lemma_mix_extremes(color.b, b[off + 2]);
        lemma_mix_extremes(color.b, b[off]);
        lemma_mix_extremes(color.r, b[off + 2]);
        let after = frame_pixel_blended(view, point, color, 0);
        assert(after.bytes =~= b);
    }
}

/// Drawing a pixel twice is drawing it once.
pub proof fn lemma_draw_twice(view: FrameView, point: Point, color: Color)
    ensures
        frame_pixel_drawn(frame_pixel_drawn(view, point, color), point, color) == frame_pixel_drawn(view, point, color),
{
    let once = frame_pixel_drawn(view, point, color);
    assert(once.info == view.info);
    assert(once.bytes.len() == view.bytes.len());
    let twice = frame_pixel_drawn(once, point, color);
    assert(twice.bytes =~= once.bytes);
}

/// Drawing a pixel changes at most its own bytes, never the length of the
/// buffer nor the geometry.
pub proof fn lemma_draw_is_local(view: FrameView, point: Point, color: Color, i: int)
    requires
        0 <= i < view.bytes.len(),
        !(view.info.byte_offset(point) <= i < view.info.byte_offset(point) + 3),
    ensures
        frame_pixel_drawn(view, point, color).info == view.info,
        frame_pixel_drawn(view, point, color).bytes.len() == view.bytes.len(),
        frame_pixel_drawn(view, point, color).bytes[i] == view.bytes[i],
{
}

/// A linear framebuffer over a borrowed byte buffer.
pub struct Framebuffer<'a> {
    buffer: &'a mut [u8],
    info: FrameBufferInfo,
}

proof fn lemma_offset_fits(info: FrameBufferInfo, p: Point)
    requires
        info.addressable(),
        p.x < info.width,
        p.y < info.height,
    ensures
        0 <= info.pixel_index(p) <= usize::MAX,
        0 <= info.byte_offset(p),
        info.byte_offset(p) + 2 <= usize::MAX,
{
    let last = (info.height - 1) * info.stride + (info.width - 1);
    let idx = p.y * info.stride + p.x;
    assert(p.y * info.stride <= (info.height - 1) * info.stride) by (nonlinear_arith)
        requires
            p.y <= info.height - 1,
    ;
    assert(idx <= last);
    assert(idx * info.bytes_per_pixel <= last * info.bytes_per_pixel) by (nonlinear_arith)
        requires
            0 <= idx <= last,
    ;
    assert(0 <= idx * info.bytes_per_pixel) by (nonlinear_arith)
        requires
            0 <= idx,
    ;
}

proof fn lemma_mix_bounds(new: u8, old: u8, alpha: u8)
    ensures
        new * alpha <= 65025,
        old * (255 - alpha) <= 65025,
        new * alpha + old * (255 - alpha) <= 65025,
        (new * alpha + old * (255 - alpha)) / 255 <= 255,
{
    assert(new * alpha <= 255 * alpha) by (nonlinear_arith)
        requires
            new <= 255,
            0 <= alpha,
    ;
    assert(old * (255 - alpha) <= 255 * (255 - alpha)) by (nonlinear_arith)
        requires
            old <= 255,
            0 <= 255 - alpha,
    ;
}

fn reborrow<'b, 'a>(buffer: &'b mut &'a mut [u8]) -> (inner: &'b mut [u8])
    ensures
        inner@ == old(buffer)@,
        final(buffer)@ == final(inner)@,
    no_unwind
{
    &mut **buffer
}

impl<'a> Framebuffer<'a> {
    #[verifier::type_invariant]
    spec fn inv(self) -> bool {
        self.info.addressable()
    }

    pub closed spec fn spec_info(&self) -> FrameBufferInfo {
        self.info
    }

    pub closed spec fn bytes(&self) -> Seq<u8> {
        self.buffer@
    }

    /// A framebuffer drawing into `buffer` with the given geometry.
    pub fn new(buffer: &'a mut [u8], info: FrameBufferInfo) -> (fb: Self)
        requires
            info.addressable(),
        ensures
            fb.spec_info() == info,
            fb.bytes() == old(buffer)@,
    {
        Framebuffer { buffer, info }
    }

    pub fn info(&self) -> (info: FrameBufferInfo)
        ensures
            info == self.spec_info(),
    {
        self.info
    }

    /// The underlying bytes, for direct access.
    pub fn buffer_mut(&mut self) -> (buffer: &mut [u8])
        ensures
            buffer@ == old(self).bytes(),
            final(self).spec_info() == old(self).spec_info(),
            final(self).bytes() == final(buffer)@,
    {
        proof {
            use_type_invariant(&*self);
        }
        reborrow(&mut self.buffer)
    }

    /// Gives the buffer back.
    pub fn into_buffer(self) -> (buffer: &'a mut [u8])
        ensures
            buffer@ == self.bytes(),
    {
        let Framebuffer { buffer, info: _ } = self;
        buffer
    }
}

impl<'a> GraphicsBackend for Framebuffer<'a> {
    type Canvas = FrameView;

    open spec fn canvas(&self) -> FrameView {
        FrameView { info: self.spec_info(), bytes: self.bytes() }
    }

    open spec fn canvas_width(canvas: FrameView) -> usize {
        canvas.info.width
    }

    open spec fn canvas_height(canvas: FrameView) -> usize {
        canvas.info.height
    }

    open spec fn pixel_drawn(canvas: FrameView, point: Point, color: Color) -> FrameView {
        frame_pixel_drawn(canvas, point, color)
    }

    open spec fn pixel_blended(canvas: FrameView, point: Point, color: Color, alpha: u8) -> FrameView {
        frame_pixel_blended(canvas, point, color, alpha)
    }

    /// Every pixel of `rect` drawn, row by row, left to right.
    open spec fn rect_filled(canvas: FrameView, rect: Rect, color: Color) -> FrameView {
        frame_rows_drawn(canvas, rect, rect.height as nat, color)
    }

    proof fn lemma_drawing_keeps_size(canvas: FrameView, point: Point, color: Color, alpha: u8) {
    }

    proof fn lemma_filling_keeps_size(canvas: FrameView, rect: Rect, color: Color) {
        lemma_frame_rows_keep_info(canvas, rect, rect.height as nat, color);
    }

    fn width(&self) -> (w: usize) {
        self.info.width
    }

    fn height(&self) -> (h: usize) {
        self.info.height
    }

    fn clear(&mut self, color: Color) {
        let w = self.width();
        let h = self.height();
        self.fill_rect(Rect::new(0, 0, w, h), color);
    }

    fn draw_pixel(&mut self, point: Point, color: Color) {
        proof {
            use_type_invariant(&*self);
        }
        if point.x >= self.width() || point.y >= self.height() {
            return ;
        }
        proof {
            lemma_offset_fits(self.info, point);
        }
        let pixel_offset = point.y * self.info.stride + point.x;
        let byte_offset = pixel_offset * self.info.bytes_per_pixel;
        if byte_offset + 2 >= self.buffer.len() {
            return ;
        }
        match self.info.pixel_format {
            PixelFormat::Rgb => {
                self.buffer[byte_offset] = color.r;
                self.buffer[byte_offset + 1] = color.g;
                self.buffer[byte_offset + 2] = color.b;
            },
            PixelFormat::Bgr => {
                self.buffer[byte_offset] = color.b;
                self.buffer[byte_offset + 1] = color.g;
                self.buffer[byte_offset + 2] = color.r;
            },
            PixelFormat::U8 => {
                self.buffer[byte_offset] = color.r;
            },
            _ => {},
        }
    }

    fn fill_rect(&mut self, rect: Rect, color: Color) {
        let ghost start = self.canvas();
        let y_end = rect.y + rect.height;
        let x_end = rect.x + rect.width;
        let mut y = rect.y;
        while y < y_end
            invariant
                rect.y <= y <= y_end,
                y_end == rect.y + rect.height,
                x_end == rect.x + rect.width,
                self.canvas() == frame_rows_drawn(start, rect, (y - rect.y) as nat, color),
            decreases y_end - y,
        {
            let ghost row_start = self.canvas();
            let mut x = rect.x;
            while x < x_end
                invariant
                    rect.x <= x <= x_end,
                    rect.y <= y < y_end,
                    y_end == rect.y + rect.height,
                    x_end == rect.x + rect.width,
                    row_start == frame_rows_drawn(start, rect, (y - rect.y) as nat, color),
                    self.canvas() == frame_row_drawn(row_start, rect.x as int, y as int, (x - rect.x) as nat, color),
                decreases x_end - x,
            {
                self.draw_pixel(Point::new(x, y), color);
                x = x + 1;
            }
            y = y + 1;
        }
    }

    fn blend_pixel(&mut self, point: Point, color: Color, alpha: u8) {
        proof {
            use_type_invariant(&*self);
        }
        if point.x >= self.width() || point.y >= self.height() {
            return ;
        }
        proof {
            lemma_offset_fits(self.info, point);
        }
        let pixel_offset = point.y * self.info.stride + point.x;
        let byte_offset = pixel_offset * self.info.bytes_per_pixel;
        if byte_offset + 2 >= self.buffer.len() {
            return ;
        }
        let alpha16 = alpha as u16;
        let inverse_alpha = 255 - alpha16;
        match self.info.pixel_format {
            PixelFormat::Rgb => {
                let old_red = self.buffer[byte_offset] as u16;
                let old_green = self.buffer[byte_offset + 1] as u16;
                let old_blue = self.buffer[byte_offset + 2] as u16;
                proof {
                    lemma_mix_bounds(color.r, old_red as u8, alpha);
                    lemma_mix_bounds(color.g, old_green as u8, alpha);
                    lemma_mix_bounds(color.b, old_blue as u8, alpha);
                }
                self.buffer[byte_offset] = ((color.r as u16 * alpha16 + old_red * inverse_alpha) / 255) as u8;
                self.buffer[byte_offset + 1] = ((color.g as u16 * alpha16 + old_green * inverse_alpha) / 255) as u8;
                self.buffer[byte_offset + 2] = ((color.b as u16 * alpha16 + old_blue * inverse_alpha) / 255) as u8;
            },
            PixelFormat::Bgr => {
                let old_blue = self.buffer[byte_offset] as u16;
                let old_green = self.buffer[byte_offset + 1] as u16;
                let old_red = self.buffer[byte_offset + 2] as u16;
                proof {
                    lemma_mix_bounds(color.r, old_red as u8, alpha);
                    lemma_mix_bounds(color.g, old_green as u8, alpha);
                    lemma_mix_bounds(color.b, old_blue as u8, alpha);
                }
                self.buffer[byte_offset] = ((color.b as u16 * alpha16 + old_blue * inverse_alpha) / 255) as u8;
                self.buffer[byte_offset + 1] = ((color.g as u16 * alpha16 + old_green * inverse_alpha) / 255) as u8;
                self.buffer[byte_offset + 2] = ((color.r as u16 * alpha16 + old_red * inverse_alpha) / 255) as u8;
            },
            PixelFormat::U8 => {
                let old = self.buffer[byte_offset] as u16;
                proof {
                    lemma_mix_bounds(color.r, old as u8, alpha);
                }
                self.buffer[byte_offset] = ((color.r as u16 * alpha16 + old * inverse_alpha) / 255) as u8;
            },
            _ => {},
        }
    }
}

} // verus!
