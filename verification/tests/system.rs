use nosso_os::console::Console;
use nosso_os::graphics::{FrameBufferInfo, Framebuffer, PixelFormat};
use nosso_os::interrupts::{keyboard_scancode, KEYBOARD_INTERRUPT_ID, PIC_2_OFFSET, TIMER_INTERRUPT_ID};
use nosso_os::memory::{
    frames_walkable_to, heap_page_range, usable_memory_bytes, BootInfoFrameAllocator, MemoryRegion, MemoryRegionKind, HEAP_SIZE,
    HEAP_START,
};
use nosso_os::power::controller_ready;
use nosso_os::terminal::model::CommandEffect;
use nosso_os::terminal::Terminal;
use nosso_os::timer::{count_from_bytes, divisor_bytes, PitTimer, PIT_DIVISOR};

const W: usize = 800;
const H: usize = 600;

fn info() -> FrameBufferInfo {
    FrameBufferInfo { byte_len: W * H * 3, width: W, height: H, pixel_format: PixelFormat::Rgb, bytes_per_pixel: 3, stride: W }
}

fn regions() -> Vec<MemoryRegion> {
    vec![
        MemoryRegion { start: 0, end: 0x1000, kind: MemoryRegionKind::Usable },
        MemoryRegion { start: 0x1000, end: 0x5000, kind: MemoryRegionKind::Usable },
        MemoryRegion { start: 0x5000, end: 0x6000, kind: MemoryRegionKind::Bootloader },
        MemoryRegion { start: 0x10_0001, end: 0x10_3000, kind: MemoryRegionKind::Usable },
        MemoryRegion { start: 0x20_0000, end: 0x20_0800, kind: MemoryRegionKind::Usable },
        MemoryRegion { start: 0x30_0000, end: 0x40_0000, kind: MemoryRegionKind::UnknownBios(2) },
    ]
}

#[test]
fn usable_bytes_add_up() {
    assert_eq!(usable_memory_bytes(&regions()), 0x1000 + 0x4000 + (0x10_3000 - 0x10_0001) + 0x800);
    assert_eq!(usable_memory_bytes(&[]), 0);
}

#[test]
fn frames_are_handed_out_in_order_and_never_twice() {
    let map = regions();
    let mut allocator = BootInfoFrameAllocator::init(&map);
    let mut frames = Vec::new();
    while let Some(frame) = allocator.allocate_frame() {
        frames.push(frame);
    }
    assert_eq!(frames, vec![0x1000, 0x2000, 0x3000, 0x4000, 0x10_1000, 0x10_2000]);
    assert_eq!(allocator.allocate_frame(), None);
    assert!(frames.windows(2).all(|w| w[0] < w[1]));
    assert!(frames.iter().all(|f| f % 4096 == 0));
}

#[test]
fn allocator_counts_what_it_hands_out() {
    let map = regions();
    let mut allocator = BootInfoFrameAllocator::init(&map);
    assert_eq!(allocator.frames_handed_out(), 0);
    allocator.allocate_frame();
    allocator.allocate_frame();
    assert_eq!(allocator.frames_handed_out(), 2);
    for _ in 0..10 {
        allocator.allocate_frame();
    }
    assert_eq!(allocator.frames_handed_out(), 6);
}

#[test]
fn walkability_of_the_memory_map() {
    let map = regions();
    for n in 0..20 {
        assert!(frames_walkable_to(&map, n));
    }
    let high = vec![
        MemoryRegion { start: 0x1000, end: 0x3000, kind: MemoryRegionKind::Usable },
        MemoryRegion { start: 0x10_0000_0000_0000 - 0x2000, end: 0x10_0000_0000_1000, kind: MemoryRegionKind::Usable },
    ];
    assert!(frames_walkable_to(&high, 0));
    assert!(frames_walkable_to(&high, 1));
    assert!(frames_walkable_to(&high, 2));
    assert!(frames_walkable_to(&high, 3));
    assert!(!frames_walkable_to(&high, 4));
    let wrapping = vec![MemoryRegion { start: u64::MAX - 10, end: u64::MAX, kind: MemoryRegionKind::Usable }];
    assert!(!frames_walkable_to(&wrapping, 0));
    let reserved = vec![MemoryRegion { start: u64::MAX - 10, end: u64::MAX, kind: MemoryRegionKind::Bootloader }];
    assert!(frames_walkable_to(&reserved, 0));
}

#[test]
fn heap_pages_span_the_heap() {
    let (first, last) = heap_page_range();
    assert_eq!(first, HEAP_START);
    assert_eq!(last, 0x4444_4445_8000);
    assert_eq!((last - first) / 4096 + 1, HEAP_SIZE / 4096);
}

#[test]
fn pit_counts_reloads() {
    assert_eq!(divisor_bytes(PIT_DIVISOR), (0x9C, 0x2E));
    assert_eq!(count_from_bytes(0x9C, 0x2E), 11_932);
    let mut timer = PitTimer::new();
    timer.observe_count(500);
    timer.observe_count(400);
    assert_eq!(timer.ticks(), 0);
    timer.observe_count(600);
    assert_eq!(timer.ticks(), 1);
    for _ in 0..199 {
        timer.observe_count(100);
        timer.observe_count(200);
    }
    assert_eq!(timer.ticks(), 200);
    assert_eq!(timer.seconds(), 2);
}

#[test]
fn interrupt_numbers_and_scancode_latch() {
    assert_eq!(TIMER_INTERRUPT_ID, 32);
    assert_eq!(KEYBOARD_INTERRUPT_ID, 33);
    assert_eq!(PIC_2_OFFSET, 40);
    assert_eq!(keyboard_scancode(0), None);
    assert_eq!(keyboard_scancode(0x1E), Some(0x1E));
}

#[test]
fn controller_ready_checks_input_buffer_bit() {
    assert!(controller_ready(0x00));
    assert!(controller_ready(0x01));
    assert!(!controller_ready(0x02));
    assert!(!controller_ready(0xFF));
}

#[test]
fn console_types_and_executes() {
    let mut buf = vec![0u8; W * H * 3];
    let mut fb = Framebuffer::new(&mut buf, info());
    let terminal = Terminal::new(&mut fb);
    let mut console = Console::new(terminal);
    assert!(console.cursor_visible);
    for sc in [0x23u8, 0x12, 0x26, 0x19] {
        assert!(matches!(console.on_scancode(sc), CommandEffect::Done));
        assert!(matches!(console.on_scancode(sc | 0x80), CommandEffect::Done));
    }
    assert_eq!(console.terminal.command_bytes(), b"help".to_vec());
    console.on_scancode(0x1C);
    assert_eq!(console.terminal.history_count, 1);
    assert_eq!(console.terminal.command_bytes(), Vec::<u8>::new());
    // Up arrow recalls it
    console.on_scancode(0xE0);
    console.on_scancode(0x48);
    assert_eq!(console.terminal.command_bytes(), b"help".to_vec());
    // Backspace
    console.on_scancode(0x0E);
    assert_eq!(console.terminal.command_bytes(), b"hel".to_vec());
    // Shift + a
    console.on_scancode(0x2A);
    console.on_scancode(0x1E);
    console.on_scancode(0xAA);
    console.on_scancode(0x1E);
    assert_eq!(console.terminal.command_bytes(), b"helAa".to_vec());
    // Left arrow then x
    console.on_scancode(0xE0);
    console.on_scancode(0x4B);
    console.on_scancode(0x2D);
    assert_eq!(console.terminal.command_bytes(), b"helAxa".to_vec());
}

#[test]
fn console_control_keys() {
    let mut buf = vec![0u8; W * H * 3];
    let mut fb = Framebuffer::new(&mut buf, info());
    let mut console = Console::new(Terminal::new(&mut fb));
    for sc in [0x1Eu8, 0x30, 0x2E] {
        console.on_scancode(sc);
    }
    // Ctrl+A selects, Ctrl+C cancels
    console.on_scancode(0x1D);
    console.on_scancode(0x1E);
    assert!(console.terminal.command_selected);
    assert!(console.keyboard.ctrl_pressed);
    console.on_scancode(0x2E);
    assert!(!console.terminal.command_selected);
    assert_eq!(console.terminal.command_bytes(), Vec::<u8>::new());
    // Ctrl+L restarts the screen
    console.on_scancode(0x26);
    assert_eq!(console.terminal.cursor_position(), (32 + 2 * 9, 32 + 4 * 20));
    console.on_scancode(0x9D);
    assert!(!console.keyboard.ctrl_pressed);
}

#[test]
fn console_reports_reboot_and_breakpoint() {
    let mut buf = vec![0u8; W * H * 3];
    let mut fb = Framebuffer::new(&mut buf, info());
    let mut console = Console::new(Terminal::new(&mut fb));
    for sc in [0x17u8, 0x31, 0x14, 0x04] {
        console.on_scancode(sc);
    }
    assert_eq!(console.terminal.command_bytes(), b"int3".to_vec());
    let visible = console.cursor_visible;
    assert!(matches!(console.on_scancode(0x1C), CommandEffect::Breakpoint));
    assert_eq!(console.cursor_visible, visible);
}

#[test]
fn console_blinks_once_per_second() {
    let mut buf = vec![0u8; W * H * 3];
    let mut fb = Framebuffer::new(&mut buf, info());
    let mut console = Console::new(Terminal::new(&mut fb));
    console.on_timer(50);
    assert!(console.cursor_visible);
    assert_eq!(console.last_second, 0);
    console.on_timer(100);
    assert!(!console.cursor_visible);
    assert_eq!(console.last_second, 1);
    console.on_timer(150);
    assert!(!console.cursor_visible);
    console.on_timer(250);
    assert!(console.cursor_visible);
    assert_eq!(console.last_second, 2);
}

#[test]
fn key_presses_bring_the_cursor_back() {
    let mut buf = vec![0u8; W * H * 3];
    let mut fb = Framebuffer::new(&mut buf, info());
    let mut console = Console::new(Terminal::new(&mut fb));
    console.on_timer(100);
    assert!(!console.cursor_visible);
    // A release leaves it hidden, the prefix too.
    console.on_scancode(0x9E);
    assert!(!console.cursor_visible);
    console.on_scancode(0xE0);
    assert!(!console.cursor_visible);
    // The arrow after the prefix shows it.
    console.on_scancode(0x4B);
    assert!(console.cursor_visible);
    console.on_timer(200);
    assert!(!console.cursor_visible);
    // A modifier shows it, and so does a letter.
    console.on_scancode(0x2A);
    assert!(console.cursor_visible);
    console.on_timer(300);
    console.on_scancode(0x1E);
    assert!(console.cursor_visible);
    // A second reading in the same second changes nothing.
    console.on_timer(310);
    assert!(console.cursor_visible);
    assert_eq!(console.last_second, 3);
}

#[test]
fn checked_key_handling_matches_the_plain_one() {
    let mut buf_a = vec![0u8; W * H * 3];
    let mut buf_b = vec![0u8; W * H * 3];
    let mut fb_a = Framebuffer::new(&mut buf_a, info());
    let mut fb_b = Framebuffer::new(&mut buf_b, info());
    let mut plain = Console::new(Terminal::new(&mut fb_a));
    let mut checked = Console::new(Terminal::new(&mut fb_b));
    assert!(checked.terminal.has_room_for_event());
    for sc in [0x23u8, 0x12, 0x26, 0x19, 0x1C, 0xE0, 0x48, 0x0E, 0x1D, 0x1E, 0x9D, 0x39] {
        let expected = plain.on_scancode(sc);
        let got = checked.try_on_scancode(sc).expect("room for the key");
        assert_eq!(format!("{:?}", got), format!("{:?}", expected));
        assert_eq!(checked.terminal.command_bytes(), plain.terminal.command_bytes());
        assert_eq!(checked.terminal.cursor_position(), plain.terminal.cursor_position());
        assert_eq!(checked.cursor_visible, plain.cursor_visible);
    }
    drop(plain);
    drop(checked);
    assert_eq!(buf_a, buf_b);
}
