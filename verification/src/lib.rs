//! Verified core of a small x86_64 hobby kernel: a framebuffer renderer, a
//! text terminal with line editing and command history, a PS/2 keyboard
//! decoder, the decisions of the kernel's event loop, and the pure parts of
//! the memory and timer code.

pub mod graphics;
pub mod font;
pub mod terminal;
pub mod keyboard;
pub mod timer;
pub mod console;
pub mod interrupts;
pub mod power;
pub mod memory;
