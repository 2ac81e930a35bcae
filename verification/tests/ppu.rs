use advantic::interrupts::Interrupts;
use advantic::ppu::model::{ScalingData, LINE_CYCLES, SCREEN_HEIGHT, TOTAL_LINES};
use advantic::ppu::render::transform_bg;
use advantic::ppu::{Ppu, PpuEvent};

fn ppu(control: u16) -> Ppu {
    let mut ppu = Ppu::new();
    set(&mut ppu, 0, control);
    for i in 0..512u16 {
        let [low, high] = (0x4000 + i).to_le_bytes();
        ppu.palettes[usize::from(i) * 2] = low;
        ppu.palettes[usize::from(i) * 2 + 1] = high;
    }
    ppu
}

fn set(ppu: &mut Ppu, register: u32, value: u16) {
    let [low, high] = value.to_le_bytes();
    ppu.write_register(register, low);
    ppu.write_register(register + 1, high);
}

fn line(ppu: &mut Ppu) -> Vec<u16> {
    assert!(ppu.can_render_line());
    let bytes = ppu.render_line().unwrap();
    assert_eq!(bytes.len(), 480);
    bytes.chunks(2).map(|pixel| u16::from_le_bytes([pixel[0], pixel[1]])).collect()
}

/// Background and object colours as the palettes of these tests hold them.
fn bg(index: u16) -> u16 {
    0x4000 + index
}

fn obj(index: u16) -> u16 {
    0x4100 + index
}

/// An object of 8 by 8 half byte pixels, with tile 1, whose rows are 1 to 8.
fn small_object(ppu: &mut Ppu, number: usize, x: u16, y: u8, priority: u8) {
    ppu.oam[number * 8..number * 8 + 6].copy_from_slice(&[
        y,
        0,
        x as u8,
        (x >> 8) as u8,
        1,
        priority << 2,
    ]);
    for row in 0..8 {
        ppu.vram[0x10020 + row * 4..0x10024 + row * 4].copy_from_slice(&[0x21, 0x43, 0x65, 0x87]);
    }
}

/// Moves all objects below the screen.
fn hide_objects(ppu: &mut Ppu) {
    for i in 0..128 {
        ppu.oam[i * 8] = 200;
    }
}

#[test]
fn an_empty_line_has_the_first_colour() {
    assert_eq!(line(&mut ppu(0)), vec![bg(0); 240]);
}

#[test]
fn a_blanked_line_is_not_drawn() {
    let mut ppu = ppu(1 << 7 | 7);
    set(&mut ppu, 0x22, 5);
    assert!(ppu.can_render_line());
    assert!(ppu.render_line().is_none());
    assert_eq!(ppu.reference_points, [0; 4]);
}

#[test]
fn scrolled_backgrounds() {
    let mut ppu = ppu(1 << 8);
    // The map at 0x800, the tiles at 0x4000.
    set(&mut ppu, 8, 1 << 8 | 1 << 2);
    // The second tile of the first row: tile 3 with palette 2, mirrored.
    ppu.vram[0x802] = 3;
    ppu.vram[0x803] = 2 << 4 | 1 << 2;
    ppu.vram[0x4060] = 0x21;
    ppu.vram[0x4063] = 0x80;
    let pixels = line(&mut ppu);
    assert_eq!(pixels[8], bg(0x28));
    assert_eq!(pixels[9], bg(0));
    assert_eq!(pixels[14], bg(0x22));
    assert_eq!(pixels[15], bg(0x21));
    assert!(pixels[..8].iter().chain(&pixels[16..]).all(|pixel| *pixel == bg(0)));
    // Scrolled by 10 to the left and from the last line of the map.
    set(&mut ppu, 0x10, 10);
    assert_eq!(line(&mut ppu)[5], bg(0x21));
    set(&mut ppu, 0x12, 255);
    assert_eq!(line(&mut ppu)[5], bg(0));
    ppu.line = 1;
    assert_eq!(line(&mut ppu)[5], bg(0x21));
    // Mirrored the other way up, the row is the last one of the tile.
    ppu.vram[0x803] |= 1 << 3;
    assert_eq!(line(&mut ppu)[5], bg(0));
    ppu.line = 8;
    assert_eq!(line(&mut ppu)[5], bg(0x21));
}

#[test]
fn scrolled_backgrounds_with_byte_pixels_and_areas() {
    let mut ppu = ppu(1 << 9);
    set(&mut ppu, 10, 1 << 7 | 1 << 14 | 1 << 15);
    set(&mut ppu, 0x14, 256);
    set(&mut ppu, 0x16, 256);
    ppu.vram[0x800 * 3] = 0x90;
    ppu.vram[0x90 * 64] = 200;
    assert_eq!(line(&mut ppu)[0], bg(200));
    // Only one area to the side: the row wraps around.
    set(&mut ppu, 10, 1 << 7 | 1 << 14);
    assert_eq!(line(&mut ppu)[0], bg(0));
    ppu.vram[0x800] = 0x90;
    assert_eq!(line(&mut ppu)[0], bg(200));
}

#[test]
fn tiles_of_objects_are_not_shown_in_backgrounds() {
    let mut ppu = ppu(1 << 8);
    set(&mut ppu, 8, 3 << 2 | 1 << 7);
    ppu.vram[1] = 1;
    ppu.vram[0xc000 + 0x100 * 64] = 1;
    ppu.vram[2] = 0xff;
    ppu.vram[0xc000 + 0xff * 64] = 2;
    let pixels = line(&mut ppu);
    assert_eq!(pixels[0], bg(0));
    assert_eq!(pixels[8], bg(2));
}

#[test]
fn the_mosaic_repeats_pixels() {
    let mut ppu = ppu(1 << 8);
    set(&mut ppu, 8, 1 << 6 | 1 << 8);
    ppu.write_register(0x4c, 0x13);
    ppu.vram[..4].copy_from_slice(&[0x21, 0x43, 0x65, 0x87]);
    let pixels = line(&mut ppu);
    assert_eq!(pixels[..8], [1, 1, 3, 3, 5, 5, 7, 7].map(bg));
    ppu.line = 3;
    assert_eq!(line(&mut ppu), pixels);
    ppu.line = 4;
    assert_ne!(line(&mut ppu), pixels);
}

#[test]
fn scaled_backgrounds() {
    let mut ppu = ppu(2 | 1 << 10);
    set(&mut ppu, 12, 1 << 8);
    // Two pixels of the background for each one of the screen, from (-2, 1).
    set(&mut ppu, 0x20, 0x200);
    set(&mut ppu, 0x26, 0x100);
    set(&mut ppu, 0x28, (-0x200i16) as u16);
    set(&mut ppu, 0x2a, 0x0fff);
    set(&mut ppu, 0x2c, 0x100);
    ppu.vram[0x800] = 1;
    ppu.vram[64 + 8..64 + 16].copy_from_slice(&[1, 2, 3, 4, 5, 6, 7, 8]);
    let points = ppu.reference_points;
    assert_eq!(points, [-0x200, 0x100, 0, 0]);
    let pixels = line(&mut ppu);
    assert_eq!(pixels[..6], [0, 1, 3, 5, 7, 0].map(bg));
    assert_eq!(pixels[1 + 64], bg(0));
    assert_eq!(ppu.reference_points, [-0x200, 0x200, 0, 0]);
    // With repetition the background comes again after 128 pixels.
    ppu.reference_points = points;
    set(&mut ppu, 12, 1 << 8 | 1 << 13);
    let pixels = line(&mut ppu);
    assert_eq!(pixels[1..5], [1, 3, 5, 7].map(bg));
    assert_eq!(pixels[65..69], [1, 3, 5, 7].map(bg));
}

#[test]
fn both_scaled_backgrounds_move_on() {
    let mut ppu = ppu(2 | 1 << 10 | 1 << 11);
    set(&mut ppu, 0x22, 5);
    set(&mut ppu, 0x26, 6);
    set(&mut ppu, 0x32, (-7i16) as u16);
    set(&mut ppu, 0x36, 8);
    line(&mut ppu);
    line(&mut ppu);
    assert_eq!(ppu.reference_points, [10, 12, -14, 16]);
    // In mode 1 only the first one is scaled.
    set(&mut ppu, 0, 1 | 1 << 10 | 1 << 11);
    line(&mut ppu);
    assert_eq!(ppu.reference_points, [15, 18, -14, 16]);
}

#[test]
fn places_on_a_scaled_background() {
    let data = ScalingData { scroll_y: 0x180, scroll_x: -1, xx: 0x100, xy: 0, yx: 0x80, yy: 0 };
    assert_eq!(transform_bg(0, data), (1, u64::MAX));
    assert_eq!(transform_bg(2, data), (2, 1));
    // Far from the screen, and with steps that no register holds.
    assert_eq!(transform_bg(1000, data), (501, 999));
    let far = ScalingData { xx: 1 << 40, scroll_y: i64::MIN, ..data };
    assert_eq!(transform_bg(2, far), ((i64::MIN / 256 + 1) as u64, (1 << 33) - 1));
}

#[test]
fn bitmaps() {
    let mut ppu = ppu(3 | 1 << 10);
    set(&mut ppu, 0x20, 0x100);
    set(&mut ppu, 0x26, 0x100);
    ppu.vram[2..4].copy_from_slice(&[0x34, 0x12]);
    ppu.vram[480..482].copy_from_slice(&[0x78, 0x56]);
    assert_eq!(line(&mut ppu)[1], 0x1234);
    assert_eq!(line(&mut ppu)[0], 0x5678);
    // Mode 4, both pictures.
    set(&mut ppu, 0, 4 | 1 << 10);
    ppu.reference_points = [0; 4];
    ppu.vram[0xa000 + 3] = 9;
    assert_eq!(line(&mut ppu)[2], bg(0x34));
    set(&mut ppu, 0, 4 | 1 << 10 | 1 << 4);
    ppu.reference_points = [0; 4];
    assert_eq!(line(&mut ppu)[3], bg(9));
    // Mode 5 is smaller.
    set(&mut ppu, 0, 5 | 1 << 10);
    ppu.reference_points = [0; 4];
    ppu.vram[320..322].copy_from_slice(&[0x11, 0x22]);
    let pixels = line(&mut ppu);
    assert_eq!(pixels[1], 0x1234);
    assert_eq!(pixels[160], bg(0));
    assert_eq!(line(&mut ppu)[0], 0x2211);
}

#[test]
fn objects_are_placed_and_mirrored() {
    let mut ppu = ppu(1 << 12 | 1 << 6);
    hide_objects(&mut ppu);
    small_object(&mut ppu, 5, 100, 0, 0);
    ppu.vram[0x10020 + 28] = 0xfe;
    let pixels = line(&mut ppu);
    assert_eq!(pixels[99], bg(0));
    assert_eq!(pixels[100..108], [1, 2, 3, 4, 5, 6, 7, 8].map(obj));
    assert_eq!(pixels[108], bg(0));
    // Mirrored to the side.
    ppu.oam[5 * 8 + 3] = 1 << 4;
    assert_eq!(line(&mut ppu)[100..108], [8, 7, 6, 5, 4, 3, 2, 1].map(obj));
    // Mirrored upside down, the first line shows the last row.
    ppu.oam[5 * 8 + 3] = 1 << 5;
    assert_eq!(line(&mut ppu)[100..102], [0xe, 0xf].map(obj));
    // Partly left of the screen, with the palette 3.
    small_object(&mut ppu, 5, 512 - 6, 250, 0);
    ppu.oam[5 * 8 + 5] = 3 << 4;
    assert_eq!(line(&mut ppu)[..3], [obj(0x37), obj(0x38), bg(0)]);
    ppu.line = 2;
    assert_eq!(line(&mut ppu)[0], bg(0));
}

#[test]
fn large_objects_and_their_tiles() {
    let mut ppu = ppu(1 << 12);
    hide_objects(&mut ppu);
    // 16 by 32 with byte pixels, from tile 4.
    ppu.oam[..6].copy_from_slice(&[0, 1 << 5 | 2 << 6, 0, 2 << 6, 4, 0]);
    ppu.line = 9;
    ppu.vram[0x10000 + (4 + 32) * 32 + 8] = 77;
    ppu.vram[0x10000 + (4 + 32) * 32 + 64 + 8 + 7] = 78;
    let pixels = line(&mut ppu);
    assert_eq!(pixels[0], obj(77));
    assert_eq!(pixels[15], obj(78));
    // Tiles without gaps between the rows.
    set(&mut ppu, 0, 1 << 12 | 1 << 6);
    ppu.vram[0x10000 + (4 + 2) * 32 + 8] = 79;
    assert_eq!(line(&mut ppu)[0], obj(79));
}

#[test]
fn objects_are_scaled_about_their_middle() {
    let mut ppu = ppu(1 << 12);
    hide_objects(&mut ppu);
    small_object(&mut ppu, 0, 0, 0, 0);
    // Twice the size, in twice the area, with the second set of numbers.
    ppu.oam[1] = 0b11;
    ppu.oam[3] = 1 << 1;
    ppu.oam[6 + 32] = 0x80;
    ppu.oam[6 + 32 + 24] = 0x80;
    ppu.line = 8;
    let pixels = line(&mut ppu);
    assert_eq!(pixels[..16], [1, 1, 2, 2, 3, 3, 4, 4, 5, 5, 6, 6, 7, 7, 8, 8].map(obj));
    assert_eq!(pixels[16], bg(0));
}

#[test]
fn priorities() {
    let mut ppu = ppu(1 << 12 | 1 << 8 | 1 << 9);
    hide_objects(&mut ppu);
    // Background 0 has priority 2, background 1 priority 1.
    set(&mut ppu, 8, 2 | 1 << 8);
    set(&mut ppu, 10, 1 | 2 << 8);
    ppu.vram[0x800] = 2;
    ppu.vram[0x1000] = 3;
    ppu.vram[0x40] = 0x11;
    ppu.vram[0x60] = 0x02;
    assert_eq!(line(&mut ppu)[..2], [bg(2), bg(1)]);
    // An object lies on top of the backgrounds of its priority.
    small_object(&mut ppu, 1, 0, 0, 2);
    assert_eq!(line(&mut ppu)[..2], [bg(2), obj(2)]);
    small_object(&mut ppu, 1, 0, 0, 1);
    assert_eq!(line(&mut ppu)[..2], [obj(1), obj(2)]);
    // Of two objects the one with the lower priority number is on top, then
    // the one with the lower number.
    small_object(&mut ppu, 0, 1, 0, 1);
    assert_eq!(line(&mut ppu)[..2], [obj(1), obj(1)]);
    small_object(&mut ppu, 1, 0, 0, 0);
    assert_eq!(line(&mut ppu)[..2], [obj(1), obj(2)]);
    small_object(&mut ppu, 0, 1, 0, 3);
    small_object(&mut ppu, 1, 0, 0, 3);
    assert_eq!(line(&mut ppu)[..3], [bg(2), bg(1), obj(2)]);
}

#[test]
fn windows_hide_layers() {
    let mut ppu = ppu(1 << 8 | 1 << 13);
    set(&mut ppu, 8, 1 << 8);
    ppu.vram[..32].fill(0x11);
    // Columns 10 to 19 and lines 0 to 4 show the background.
    ppu.write_register(0x40, 20);
    ppu.write_register(0x41, 10);
    ppu.write_register(0x44, 5);
    ppu.write_register(0x48, 1);
    let pixels = line(&mut ppu);
    assert_eq!([9, 10, 19, 20].map(|x| pixels[x]), [0, 1, 1, 0].map(bg));
    ppu.line = 5;
    assert_eq!(line(&mut ppu)[10], bg(0));
    // The second window comes after the first, the rest last.
    ppu.line = 0;
    set(&mut ppu, 0, 1 << 8 | 1 << 13 | 1 << 14);
    ppu.write_register(0x42, 25);
    ppu.write_register(0x43, 15);
    ppu.write_register(0x46, 160);
    ppu.write_register(0x4a, 1);
    let pixels = line(&mut ppu);
    assert_eq!([14, 15, 19, 20, 24, 25].map(|x| pixels[x]), [1, 1, 1, 0, 0, 1].map(bg));
}

#[test]
fn lines_that_cannot_be_shown() {
    assert!(!ppu(6).can_render_line());
    assert!(!ppu(7).can_render_line());
    // A window that asks for effects, but only where there is a pixel.
    let mut effects = ppu(1 << 8 | 1 << 13);
    set(&mut effects, 8, 1 << 8);
    effects.write_register(0x4a, 1 << 5);
    assert!(effects.can_render_line());
    effects.vram[0] = 1;
    assert!(!effects.can_render_line());
    // Transparent objects, and objects of the window, on the line.
    let mut kinds = ppu(1 << 12);
    hide_objects(&mut kinds);
    small_object(&mut kinds, 0, 0, 0, 0);
    kinds.oam[1] = 1 << 2;
    assert!(!kinds.can_render_line());
    kinds.line = 8;
    assert!(kinds.can_render_line());
    kinds.oam[1] = 2 << 2;
    kinds.line = 0;
    assert!(kinds.can_render_line());
    set(&mut kinds, 0, 1 << 15);
    assert!(!kinds.can_render_line());
    // Tiles beyond the end of the memory.
    let mut beyond = ppu(1 << 12);
    hide_objects(&mut beyond);
    beyond.oam[..6].copy_from_slice(&[0, 1 << 5, 0, 1 << 6, 0xff, 3]);
    assert!(!beyond.can_render_line());
    // A switched off object with upper tiles, mirrored from its lower half.
    let mut mirrored = ppu(1 << 12);
    hide_objects(&mut mirrored);
    mirrored.oam[..6].copy_from_slice(&[0, 2, 0, 1 << 5, 0, 2]);
    assert!(mirrored.can_render_line());
    mirrored.line = 8;
    assert!(!mirrored.can_render_line());
}

#[test]
fn objects_of_bitmap_modes_need_upper_tiles() {
    let mut ppu = ppu(3 | 1 << 12);
    hide_objects(&mut ppu);
    small_object(&mut ppu, 0, 0, 0, 0);
    assert_eq!(line(&mut ppu)[0], bg(0));
    ppu.oam[5] = 2;
    ppu.vram[0x10000 + 513 * 32] = 4;
    assert_eq!(line(&mut ppu)[0], obj(4));
}

#[test]
fn reference_points_are_signed() {
    let mut ppu = Ppu::new();
    ppu.write_register(0x2b, 0xf8);
    assert_eq!(ppu.reference_points, [-0x0800_0000, 0, 0, 0]);
    ppu.write_register(0x2c, 1);
    ppu.write_register(0x38, 2);
    ppu.write_register(0x3d, 3);
    assert_eq!(ppu.reference_points, [-0x0800_0000, 1, 2, 0x300]);
    // The last byte of the second point of each pair does not load it.
    ppu.write_register(0x2f, 1);
    ppu.write_register(0x3f, 1);
    assert_eq!(ppu.reference_points, [-0x0800_0000, 1, 2, 0x300]);
    ppu.write_register(0x2c, 1);
    assert_eq!(ppu.reference_points[1], 0x0100_0001);
}

#[test]
fn the_status_shows_the_line() {
    let mut ppu = Ppu::new();
    ppu.write_register(4, 0xff);
    ppu.write_register(5, 7);
    assert_eq!(ppu.read_register(4), 0x0000_07f8);
    ppu.line = 7;
    ppu.hblank = true;
    assert_eq!(ppu.read_register(4), 0x0007_07fe);
    ppu.line = 160;
    assert_eq!(ppu.read_register(4), 0x00a0_07fb);
    ppu.write_register(8, 1);
    assert_eq!(ppu.read_register(8), 1);
}

/// The number of cycles up to and with the next one that changes the line or
/// the pause between lines.
fn run(ppu: &mut Ppu, interrupts: &mut Interrupts) -> (u32, PpuEvent) {
    let before = (ppu.line, ppu.hblank);
    let mut cycles = 0;
    loop {
        assert!(ppu.can_step());
        let event = ppu.step(interrupts);
        cycles += 1;
        if before != (ppu.line, ppu.hblank) {
            return (cycles, event);
        }
        assert!(matches!(event, PpuEvent::Nothing));
    }
}

#[test]
fn lines_and_pauses_alternate() {
    let mut ppu = Ppu::new();
    let mut interrupts = Interrupts(0xffff);
    set(&mut ppu, 4, 0x0100 | 1 << 4 | 1 << 5);
    let (cycles, event) = run(&mut ppu, &mut interrupts);
    assert_eq!(cycles, 1);
    assert!(ppu.hblank);
    assert!(matches!(event, PpuEvent::Line(0, pixels) if pixels.len() == 480));
    assert_eq!(interrupts.0, 0x0002_ffff);
    let (cycles, event) = run(&mut ppu, &mut interrupts);
    assert_eq!(cycles, 229);
    assert!(matches!(event, PpuEvent::Nothing));
    assert_eq!((ppu.line, ppu.hblank), (1, false));
    assert_eq!(interrupts.0, 0x0006_ffff);
    let (cycles, event) = run(&mut ppu, &mut interrupts);
    assert_eq!(cycles, 1005);
    assert!(matches!(event, PpuEvent::Line(1, _)));
}

#[test]
fn the_picture_ends() {
    let mut ppu = Ppu::new();
    let mut interrupts = Interrupts(1);
    set(&mut ppu, 4, 1 << 3);
    ppu.write_register(0x2c, 9);
    ppu.line = SCREEN_HEIGHT;
    ppu.reference_points = [1, 2, 3, 4];
    let (_, event) = run(&mut ppu, &mut interrupts);
    assert!(matches!(event, PpuEvent::Nothing));
    assert_eq!(interrupts.0, 0x0001_0001);
    assert_eq!(ppu.reference_points, [0, 9, 0, 0]);
    assert_eq!((ppu.line, ppu.wait_cycles), (161, LINE_CYCLES));
    while ppu.line != TOTAL_LINES {
        assert!(matches!(run(&mut ppu, &mut interrupts), (1233, PpuEvent::Nothing)));
    }
    let (_, event) = run(&mut ppu, &mut interrupts);
    assert!(matches!(event, PpuEvent::Frame));
    assert_eq!(ppu.line, 0);
}

#[test]
fn a_line_that_cannot_be_shown_stops_the_unit() {
    let mut ppu = Ppu::new();
    ppu.write_register(0, 6);
    assert!(!ppu.can_step());
    ppu.wait_cycles = 1;
    assert!(ppu.can_step());
}

#[test]
fn an_empty_object_window_leaves_the_rest() {
    let mut ppu = ppu(1 << 8 | 1 << 15);
    hide_objects(&mut ppu);
    small_object(&mut ppu, 0, 0, 100, 0);
    ppu.oam[1] = 2 << 2;
    set(&mut ppu, 8, 1 << 8);
    ppu.vram[..32].fill(0x11);
    ppu.write_register(0x4a, 1);
    assert_eq!(line(&mut ppu)[0], bg(1));
    ppu.write_register(0x4a, 0);
    ppu.write_register(0x4b, 1);
    assert_eq!(line(&mut ppu)[0], bg(0));
}
