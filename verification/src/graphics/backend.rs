use vstd::prelude::*;
use super::types::{Color, Point, Rect};

verus! {

/// A drawing surface addressed by pixel coordinates.
///
/// Each implementation describes its contents by a `Canvas` value and says
/// what drawing one pixel, blending one pixel and filling one rectangle do
/// to it.
pub trait GraphicsBackend {
    /// The abstract contents of the surface.
    type Canvas;

    spec fn canvas(&self) -> Self::Canvas;

    spec fn canvas_width(canvas: Self::Canvas) -> usize;

    spec fn canvas_height(canvas: Self::Canvas) -> usize;

    /// The canvas after `point` has been set to `color`.
    spec fn pixel_drawn(canvas: Self::Canvas, point: Point, color: Color) -> Self::Canvas;

    /// The canvas after `color` has been mixed into `point` with opacity `alpha`.
    spec fn pixel_blended(canvas: Self::Canvas, point: Point, color: Color, alpha: u8) -> Self::Canvas;

    /// The canvas after every pixel of `rect` has been set to `color`.
    spec fn rect_filled(canvas: Self::Canvas, rect: Rect, color: Color) -> Self::Canvas;

    /// Drawing never changes the size of the surface.
    proof fn lemma_drawing_keeps_size(canvas: Self::Canvas, point: Point, color: Color, alpha: u8)
        ensures
            Self::canvas_width(Self::pixel_drawn(canvas, point, color)) == Self::canvas_width(canvas),
            Self::canvas_height(Self::pixel_drawn(canvas, point, color)) == Self::canvas_height(canvas),
            Self::canvas_width(Self::pixel_blended(canvas, point, color, alpha)) == Self::canvas_width(canvas),
            Self::canvas_height(Self::pixel_blended(canvas, point, color, alpha)) == Self::canvas_height(canvas),
    ;

    /// Filling never changes the size of the surface.
    proof fn lemma_filling_keeps_size(canvas: Self::Canvas, rect: Rect, color: Color)
        ensures
            Self::canvas_width(Self::rect_filled(canvas, rect, color)) == Self::canvas_width(canvas),
            Self::canvas_height(Self::rect_filled(canvas, rect, color)) == Self::canvas_height(canvas),
    ;

    fn width(&self) -> (w: usize)
        ensures
            w == Self::canvas_width(self.canvas()),
    ;

    fn height(&self) -> (h: usize)
        ensures
            h == Self::canvas_height(self.canvas()),
    ;

    /// Fills the whole surface with `color`.
    fn clear(&mut self, color: Color)
        ensures
            final(self).canvas() == Self::rect_filled(
                old(self).canvas(),
                Rect {
                    x: 0,
                    y: 0,
                    width: Self::canvas_width(old(self).canvas()),
                    height: Self::canvas_height(old(self).canvas()),
                },
                color,
            ),
    ;

    fn draw_pixel(&mut self, point: Point, color: Color)
        ensures
            final(self).canvas() == Self::pixel_drawn(old(self).canvas(), point, color),
    ;

    /// Draws every pixel of `rect` with `color`, row by row.
    fn fill_rect(&mut self, rect: Rect, color: Color)
        requires
            rect.x + rect.width <= usize::MAX,
            rect.y + rect.height <= usize::MAX,
        ensures
            final(self).canvas() == Self::rect_filled(old(self).canvas(), rect, color),
    ;

    fn blend_pixel(&mut self, point: Point, color: Color, alpha: u8)
        ensures
            final(self).canvas() == Self::pixel_blended(old(self).canvas(), point, color, alpha),
    ;
}

/// The first `n` pixels of row `y` starting at column `x0`, drawn left to right.
pub open spec fn drawn_row<G: GraphicsBackend + ?Sized>(
    canvas: G::Canvas,
    x0: int,
    y: int,
    n: nat,
    color: Color,
) -> G::Canvas
    decreases n,
{
    if n == 0 {
        canvas
    } else {
        G::pixel_drawn(
            drawn_row::<G>(canvas, x0, y, (n - 1) as nat, color),
            Point { x: (x0 + n - 1) as usize, y: y as usize },
            color,
        )
    }
}

/// The first `rows` rows of `rect`, each drawn left to right, top to bottom.
pub open spec fn drawn_rows<G: GraphicsBackend + ?Sized>(
    canvas: G::Canvas,
    rect: Rect,
    rows: nat,
    color: Color,
) -> G::Canvas
    decreases rows,
{
    if rows == 0 {
        canvas
    } else {
        drawn_row::<G>(
            drawn_rows::<G>(canvas, rect, (rows - 1) as nat, color),
            rect.x as int,
            rect.y + rows - 1,
            rect.width as nat,
            color,
        )
    }
}

/// `canvas` with every pixel of `rect` drawn in `color`.
pub open spec fn filled<G: GraphicsBackend + ?Sized>(canvas: G::Canvas, rect: Rect, color: Color) -> G::Canvas {
    drawn_rows::<G>(canvas, rect, rect.height as nat, color)
}

/// The first `n` pixels of row `y` from column `x0`, each blended with `color`.
pub open spec fn blended_row<G: GraphicsBackend + ?Sized>(
    canvas: G::Canvas,
    x0: int,
    y: int,
    n: nat,
    color: Color,
    alpha: u8,
) -> G::Canvas
    decreases n,
{
    if n == 0 {
        canvas
    } else {
        G::pixel_blended(
            blended_row::<G>(canvas, x0, y, (n - 1) as nat, color, alpha),
            Point { x: (x0 + n - 1) as usize, y: y as usize },
            color,
            alpha,
        )
    }
}

/// The first `rows` rows of `rect`, each blended left to right, top to bottom.
pub open spec fn blended_rows<G: GraphicsBackend + ?Sized>(
    canvas: G::Canvas,
    rect: Rect,
    rows: nat,
    color: Color,
    alpha: u8,
) -> G::Canvas
    decreases rows,
{
    if rows == 0 {
        canvas
    } else {
        blended_row::<G>(
            blended_rows::<G>(canvas, rect, (rows - 1) as nat, color, alpha),
            rect.x as int,
            rect.y + rows - 1,
            rect.width as nat,
            color,
            alpha,
        )
    }
}

/// Drawing a row keeps the size of the surface.
pub proof fn lemma_drawn_row_keeps_size<G: GraphicsBackend + ?Sized>(
    canvas: G::Canvas,
    x0: int,
    y: int,
    n: nat,
    color: Color,
)
    ensures
        G::canvas_width(drawn_row::<G>(canvas, x0, y, n, color)) == G::canvas_width(canvas),
        G::canvas_height(drawn_row::<G>(canvas, x0, y, n, color)) == G::canvas_height(canvas),
    decreases n,
{
    if n > 0 {
        let prev = drawn_row::<G>(canvas, x0, y, (n - 1) as nat, color);
        lemma_drawn_row_keeps_size::<G>(canvas, x0, y, (n - 1) as nat, color);
        G::lemma_drawing_keeps_size(prev, Point { x: (x0 + n - 1) as usize, y: y as usize }, color, 0);
    }
}

/// Filling the first rows of a rectangle keeps the size of the surface.
pub proof fn lemma_drawn_rows_keep_size<G: GraphicsBackend + ?Sized>(
    canvas: G::Canvas,
    rect: Rect,
    rows: nat,
    color: Color,
)
    ensures
        G::canvas_width(drawn_rows::<G>(canvas, rect, rows, color)) == G::canvas_width(canvas),
        G::canvas_height(drawn_rows::<G>(canvas, rect, rows, color)) == G::canvas_height(canvas),
    decreases rows,
{
    if rows > 0 {
        let prev = drawn_rows::<G>(canvas, rect, (rows - 1) as nat, color);
        lemma_drawn_rows_keep_size::<G>(canvas, rect, (rows - 1) as nat, color);
        lemma_drawn_row_keeps_size::<G>(prev, rect.x as int, rect.y + rows - 1, rect.width as nat, color);
    }
}

/// Blending a row keeps the size of the surface.
pub proof fn lemma_blended_row_keeps_size<G: GraphicsBackend + ?Sized>(
    canvas: G::Canvas,
    x0: int,
    y: int,
    n: nat,
    color: Color,
    alpha: u8,
)
    ensures
        G::canvas_width(blended_row::<G>(canvas, x0, y, n, color, alpha)) == G::canvas_width(canvas),
        G::canvas_height(blended_row::<G>(canvas, x0, y, n, color, alpha)) == G::canvas_height(canvas),
    decreases n,
{
    if n > 0 {
        let prev = blended_row::<G>(canvas, x0, y, (n - 1) as nat, color, alpha);
        lemma_blended_row_keeps_size::<G>(canvas, x0, y, (n - 1) as nat, color, alpha);
        G::lemma_drawing_keeps_size(prev, Point { x: (x0 + n - 1) as usize, y: y as usize }, color, alpha);
    }
}

/// Blending the first rows of a rectangle keeps the size of the surface.
pub proof fn lemma_blended_rows_keep_size<G: GraphicsBackend + ?Sized>(
    canvas: G::Canvas,
    rect: Rect,
    rows: nat,
    color: Color,
    alpha: u8,
)
    ensures
        G::canvas_width(blended_rows::<G>(canvas, rect, rows, color, alpha)) == G::canvas_width(canvas),
        G::canvas_height(blended_rows::<G>(canvas, rect, rows, color, alpha)) == G::canvas_height(canvas),
    decreases rows,
{
    if rows > 0 {
        let prev = blended_rows::<G>(canvas, rect, (rows - 1) as nat, color, alpha);
        lemma_blended_rows_keep_size::<G>(canvas, rect, (rows - 1) as nat, color, alpha);
        lemma_blended_row_keeps_size::<G>(prev, rect.x as int, rect.y + rows - 1, rect.width as nat, color, alpha);
    }
}

} // verus!
