# nosso_os

A small x86_64 hobby kernel whose logic is verified with Verus.

The kernel boots through `bootloader_api`, draws a text terminal on the
framebuffer the bootloader hands over, reads the PS/2 keyboard and the PIT
through interrupts, and offers a handful of commands (`help`, `about`,
`clear`, `echo`, `reboot`, `uptime`, `int3`) with line editing and a
command history.

## Layout

- `src/` is the verified library.
  - `graphics/`: colors and geometry, the `GraphicsBackend` drawing
    interface, and a linear framebuffer implementing it byte by byte.
  - `font.rs`: the glyphs, taken from `noto-sans-mono-bitmap`.
  - `terminal/`: the terminal. `model.rs` describes each operation as a
    function on an abstract state, `mod.rs` implements them against those
    descriptions, `laws.rs` proves how the operations relate to each other,
    and `headroom.rs` bounds how far each of them moves the cursor.
  - `keyboard.rs`: scan code set 1 decoding and the modifier keys.
  - `console.rs`: the decisions of the kernel's main loop, one timer reading
    or scan code at a time.
  - `memory.rs`, `timer.rs`, `interrupts.rs`, `power.rs`: the computations
    of the memory map walk, the PIT, the interrupt latch and the reset
    request.
- `app/` is the kernel binary around the library: the entry point, the
  interrupt descriptor table and handlers, port I/O, paging and the heap.
- `tests/` runs the library on concrete inputs.
