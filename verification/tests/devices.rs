use advantic::clock::{picture_time_left, Clock};
use advantic::interrupts::Interrupts;
use advantic::keys::{Key, PressedKeys};
use advantic::memory::{parse_address, MemoryRegion};
use advantic::timer::Timers;

#[test]
fn a_request_needs_an_enabled_source() {
    let mut interrupts = Interrupts(0b0100);
    interrupts.interrupt(1);
    assert_eq!(interrupts.0, 0b0100);
    interrupts.interrupt(2);
    assert_eq!(interrupts.0, 0x0004_0004);
    interrupts.interrupt(2);
    assert_eq!(interrupts.0, 0x0004_0004);
    // The bits of the request half are no sources.
    interrupts.interrupt(31);
    assert_eq!(interrupts.0, 0x0004_0004);
}

#[test]
fn enabling_replaces_a_byte() {
    let mut interrupts = Interrupts(0xffff_1234);
    interrupts.write_register(0x200, 0x56);
    assert_eq!(interrupts.0, 0xffff_1256);
    interrupts.write_register(0x201, 0x78);
    assert_eq!(interrupts.0, 0xffff_7856);
}

#[test]
fn acknowledging_clears_bits() {
    let mut interrupts = Interrupts(0xffff_1234);
    interrupts.write_register(0x202, 0x0f);
    assert_eq!(interrupts.0, 0xfff0_1234);
    interrupts.write_register(0x203, 0x80);
    assert_eq!(interrupts.0, 0x7ff0_1234);
}

#[test]
fn a_stopped_timer_does_not_count() {
    let mut timers = Timers::default();
    let mut interrupts = Interrupts(0xffff);
    for cycle in 0..10 {
        timers.step(&mut interrupts, cycle);
    }
    assert_eq!(timers.read_register(0x100), 0);
    assert_eq!(interrupts.0, 0xffff);
}

#[test]
fn a_timer_counts_every_divider_cycles() {
    let mut timers = Timers::default();
    let mut interrupts = Interrupts(0);
    timers.write_register(0x102, 0x80);
    timers.write_register(0x106, 0x81);
    timers.write_register(0x10a, 0x82);
    timers.write_register(0x10e, 0x83);
    for cycle in 0..1025 {
        timers.step(&mut interrupts, cycle);
    }
    assert_eq!(timers.read_register(0x100), 0x0080_0000 + 1025);
    assert_eq!(timers.read_register(0x104), 0x0081_0000 + 17);
    assert_eq!(timers.read_register(0x108), 0x0082_0000 + 5);
    assert_eq!(timers.read_register(0x10c), 0x0083_0000 + 2);
}

#[test]
fn an_overflow_reloads_and_interrupts() {
    let mut timers = Timers::default();
    let mut interrupts = Interrupts(0b1_0000);
    // The second timer starts from 0xfffe.
    timers.write_register(0x104, 0xfe);
    timers.write_register(0x105, 0xff);
    timers.write_register(0x106, 0xc0);
    timers.write_register(0x107, 0x40);
    assert_eq!(timers.read_register(0x104), 0x40c0_fffe);
    timers.step(&mut interrupts, 0);
    assert_eq!(timers.read_register(0x104), 0x40c0_ffff);
    assert_eq!(interrupts.0, 0b1_0000);
    timers.step(&mut interrupts, 1);
    assert_eq!(timers.read_register(0x104), 0x40c0_fffe);
    assert_eq!(interrupts.0, 0x0010_0010);
}

#[test]
fn starting_twice_does_not_reload() {
    let mut timers = Timers::default();
    let mut interrupts = Interrupts(0);
    timers.write_register(0x102, 0x80);
    timers.write_register(0x103, 0x40);
    timers.step(&mut interrupts, 0);
    timers.step(&mut interrupts, 1);
    timers.write_register(0x103, 0x40);
    assert_eq!(timers.read_register(0x100) & 0xffff, 2);
}

#[test]
fn addresses_belong_to_regions() {
    let cases: [(u32, Option<(MemoryRegion, u32)>); 24] = [
        (0x0000_0000, Some((MemoryRegion::Bios, 0))),
        (0x0000_3fff, Some((MemoryRegion::Bios, 0x3fff))),
        (0x0000_4000, None),
        (0x01ff_ffff, None),
        (0x0200_0000, Some((MemoryRegion::Ram, 0))),
        (0x0204_0001, Some((MemoryRegion::Ram, 1))),
        (0x0300_0000, Some((MemoryRegion::Ram, 0x40000))),
        (0x03ff_ffff, Some((MemoryRegion::Ram, 0x47fff))),
        (0x0400_0000, Some((MemoryRegion::PPURegister, 0))),
        (0x0400_005f, Some((MemoryRegion::PPURegister, 0x5f))),
        (0x0400_0060, Some((MemoryRegion::IO, 0x60))),
        (0x0400_03fe, Some((MemoryRegion::IO, 0x3fe))),
        (0x0400_03ff, None),
        (0x0500_0402, Some((MemoryRegion::Palette, 2))),
        (0x0600_ffff, Some((MemoryRegion::Vram, 0xffff))),
        (0x0601_7fff, Some((MemoryRegion::Vram, 0x17fff))),
        (0x0601_8000, Some((MemoryRegion::Vram, 0x10000))),
        (0x0602_0000, Some((MemoryRegion::Vram, 0))),
        (0x0700_07ff, Some((MemoryRegion::Oam, 0x3ff))),
        (0x0800_0004, Some((MemoryRegion::Rom, 4))),
        (0x0a00_0004, Some((MemoryRegion::Rom, 4))),
        (0x0dff_ffff, Some((MemoryRegion::Rom, 0x01ff_ffff))),
        (0x0e01_0003, Some((MemoryRegion::Ram, 0x48003))),
        (0x0f00_0000, None),
    ];
    for (address, expected) in cases {
        assert!(parse_address(address) == expected, "{address:08x}");
    }
}

#[test]
fn keys_are_held_until_released() {
    let mut keys = PressedKeys::new();
    assert!(!keys.contains(Key::Q));
    keys.insert(Key::Q);
    keys.insert(Key::E);
    assert!(keys.contains(Key::Q));
    keys.remove(Key::Q);
    assert!(!keys.contains(Key::Q));
    assert!(keys.contains(Key::E));
}

#[test]
fn devices_catch_up_with_the_processor() {
    let mut clock = Clock::new();
    assert!(!clock.is_behind());
    assert!(clock.is_frame());
    clock.instruction_done(0xfffe, 1);
    clock.stalled(2);
    let mut cycles = 0;
    while clock.is_behind() {
        clock.advance();
        cycles += 1;
    }
    assert_eq!(cycles, 5);
    assert!(!clock.is_frame());
    clock.stalled(280_896 - 5);
    while clock.is_behind() {
        clock.advance();
    }
    assert!(clock.is_frame());
}

#[test]
fn the_time_of_a_picture_is_limited() {
    assert_eq!(picture_time_left(0), Some(16_949_152));
    assert_eq!(picture_time_left(16_949_151), Some(1));
    assert_eq!(picture_time_left(16_949_152), None);
    assert_eq!(picture_time_left(u64::MAX), None);
}
