//! Drawing primitives: plain geometry types, the drawing interface and a
//! byte-addressed linear framebuffer that implements it.

pub mod types;
pub mod backend;
pub mod framebuffer;

pub use types::{Color, Point, Rect, Size};
pub use backend::GraphicsBackend;
pub use framebuffer::{Framebuffer, FrameBufferInfo, PixelFormat};
