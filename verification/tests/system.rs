use advantic::clock::Clock;
use advantic::dma::DmaChannel;
use advantic::keys::Key;
use advantic::memory::MemoryBus;
use advantic::ppu::PpuEvent;
use advantic::system::{
    note_read, note_write, System, VoidAccess, CYCLES_PER_SECOND, FRAME_CYCLES, SYNC_CYCLE_DURATION,
};

fn machine() -> System {
    let bios = (0..0x4000u32).map(|i| (i % 251) as u8).collect();
    let rom = vec![0x11, 0x22, 0x33, 0x44, 0x55, 0x66, 0x77, 0x88];
    System::new(bios, rom)
}

#[test]
fn constants_of_time() {
    assert_eq!(FRAME_CYCLES, 280_896);
    assert_eq!(CYCLES_PER_SECOND, 16_777_216);
    assert_eq!(SYNC_CYCLE_DURATION, 16_949_152);
}

#[test]
fn words_read_back_in_every_memory() {
    let mut sys = machine();
    for address in [0x0200_0100, 0x0300_0100, 0x0500_0010, 0x0600_2000, 0x0700_0020, 0x0e00_0040] {
        sys.write(address, 0x1234_5678, 4);
        assert_eq!(sys.read(address), 0x1234_5678);
        assert_eq!(sys.read(address + 3), 0x1234_5678);
        sys.write(address + 3, 0xab, 1);
        assert_eq!(sys.read(address), 0xab34_5678);
        sys.write(address + 1, 0xcdef, 2);
        assert_eq!(sys.read(address), 0xab34_cdef);
        assert_eq!(sys.read(address + 4), 0);
    }
}

#[test]
fn memories_repeat_over_their_range() {
    let mut sys = machine();
    sys.write(0x0200_0000, 0xdead_beef, 4);
    assert_eq!(sys.read(0x02fc_0000), 0xdead_beef);
    sys.write(0x0601_0000, 0x0bad_cafe, 4);
    assert_eq!(sys.read(0x0601_8000), 0x0bad_cafe);
}

#[test]
fn read_only_memories() {
    let mut sys = machine();
    assert_eq!(sys.read(0x0000_0004), 0x0706_0504);
    assert_eq!(sys.read(0x0800_0000), 0x4433_2211);
    assert_eq!(sys.read(0x0a00_0004), 0x8877_6655);
    assert_eq!(sys.read(0x0c00_0006), 0x8877_6655);
    assert_eq!(sys.read(0x0800_0008), 0);
    assert!(!sys.can_write(0x0000_0000, 4));
    assert!(!sys.can_write(0x0800_0000, 1));
    assert!(sys.can_write(0x0200_0000, 4));
    assert!(!sys.can_write(0x0200_0000, 5));
    assert!(!sys.can_write(0x0200_0000, 0));
    sys.write(0x0f00_0000, 0xffff_ffff, 4);
    assert_eq!(sys.read(0x0f00_0000), 0);
}

#[test]
fn short_memories_cannot_be_read() {
    let sys = System::new(vec![0; 6], vec![0; 6]);
    assert!(sys.can_read(0));
    assert!(!sys.can_read(4));
    assert!(sys.can_read(0x0800_0000));
    assert!(!sys.can_read(0x0800_0004));
    assert!(sys.can_read(0x0800_0008));
}

#[test]
fn buttons_are_low_while_pressed() {
    let mut sys = machine();
    assert_eq!(sys.read(0x0400_0130), 0x3ff);
    sys.write(0x0400_0200, 0x1000, 2);
    sys.key_down(Some(Key::Z));
    assert_eq!(sys.read(0x0400_0130), 0x3fe);
    assert_eq!(sys.read(0x0400_0200), 0x1000_1000);
    sys.key_down(Some(Key::Space));
    sys.key_up(Key::Z);
    assert_eq!(sys.read(0x0400_0130), 0x3fe);
    sys.key_up(Key::Space);
    sys.key_down(Some(Key::Q));
    assert_eq!(sys.read(0x0400_0130), 0x1ff);
    sys.key_down(None);
    assert_eq!(sys.read(0x0400_0130), 0x1ff);
}

#[test]
fn every_button_has_its_bit() {
    let cases = [
        (Key::Space, 0),
        (Key::Z, 0),
        (Key::LeftControl, 1),
        (Key::X, 1),
        (Key::Tab, 2),
        (Key::Return, 3),
        (Key::Right, 4),
        (Key::D, 4),
        (Key::Left, 5),
        (Key::A, 5),
        (Key::Up, 6),
        (Key::W, 6),
        (Key::Down, 7),
        (Key::S, 7),
        (Key::E, 8),
        (Key::Q, 9),
    ];
    for (key, bit) in cases {
        let mut sys = machine();
        sys.key_down(Some(key));
        assert_eq!(sys.read(0x0400_0130), 0x3ff & !(1 << bit));
    }
}

#[test]
fn device_registers() {
    let mut sys = machine();
    sys.write(0x0400_0200, 0x0000_0008, 4);
    assert_eq!(sys.read(0x0400_0200), 8);
    // The first timer overflows with its first count.
    sys.write(0x0400_0100, 0xffff, 2);
    sys.write(0x0400_0102, 0x40c0, 2);
    assert_eq!(sys.read(0x0400_0100), 0x40c0_ffff);
    sys.step_devices(0);
    assert_eq!(sys.read(0x0400_0200), 0x0008_0008);
    sys.write(0x0400_0202, 0x0008, 2);
    assert_eq!(sys.read(0x0400_0200), 8);
    sys.write(0x0400_0304, 0x7777, 2);
    assert_eq!(sys.read(0x0400_0304), 0x7777);
    assert!(!sys.cpu_paused);
    sys.write(0x0400_0301, 0, 1);
    assert!(sys.cpu_paused);
}

fn start_dma(sys: &mut System, channel: u32, source: u32, target: u32, count: u32, control: u32) {
    let registers = 0x0400_00b0 + 0xc * channel;
    sys.write(registers, source, 4);
    sys.write(registers + 4, target, 4);
    sys.write(registers + 8, count, 2);
    sys.write(registers + 10, control, 2);
}

#[test]
fn a_channel_copies_words() {
    let mut sys = machine();
    for i in 0..4 {
        sys.write(0x0200_0000 + 4 * i, 0x100 + i, 4);
    }
    sys.write(0x0400_0200, 0x0800, 2);
    start_dma(&mut sys, 3, 0x0200_0000, 0x0300_0000, 3, 0xc400);
    assert!(sys.dma[3].can_run(&sys));
    assert_eq!(sys.run_channels(&mut Vec::new()), Ok(8));
    assert_eq!(sys.read(0x0300_0000), 0x100);
    assert_eq!(sys.read(0x0300_0004), 0x101);
    assert_eq!(sys.read(0x0300_0008), 0x102);
    assert_eq!(sys.read(0x0300_000c), 0);
    // It has switched itself off and asked for its interrupt.
    assert_eq!(sys.read(0x0400_00dc), 0x4400_0003);
    assert_eq!(sys.read(0x0400_0200), 0x0800_0800);
    let channel = sys.dma[3];
    assert_eq!(channel.source, 0x0200_000c);
    assert_eq!(channel.target, 0x0300_000c);
    assert_eq!(sys.run_channels(&mut Vec::new()), Ok(0));
}

#[test]
fn addresses_move_as_selected() {
    let mut sys = machine();
    sys.write(0x0200_0000, 0xaaaa_bbbb, 4);
    sys.write(0x0200_0004, 0xcccc_dddd, 4);
    // Half words, the source fixed, the target backwards.
    start_dma(&mut sys, 0, 0x0200_0004, 0x0300_0012, 2, 0x8000 | 2 << 7 | 1 << 5);
    assert_eq!(sys.run_channels(&mut Vec::new()), Ok(6));
    assert_eq!(sys.read(0x0300_0010), 0xdddd_dddd);
    assert_eq!(sys.dma[0].source, 0x0200_0004);
    assert_eq!(sys.dma[0].target, 0x0300_000e);
}

#[test]
fn a_repeating_channel_waits_for_its_occasion() {
    let mut sys = machine();
    start_dma(&mut sys, 1, 0x0200_0000, 0x0300_0000, 1, 0x8000 | 1 << 12 | 1 << 9 | 3 << 5);
    assert_eq!(sys.run_channels(&mut Vec::new()), Ok(0));
    sys.ppu.line = 160;
    assert_eq!(sys.run_channels(&mut Vec::new()), Ok(4));
    assert!(sys.dma[1].handled);
    assert_eq!(sys.dma[1].target, 0x0300_0000);
    assert_eq!(sys.dma[1].source, 0x0200_0002);
    assert_eq!(sys.run_channels(&mut Vec::new()), Ok(0));
    sys.ppu.line = 161;
    assert_eq!(sys.run_channels(&mut Vec::new()), Ok(0));
    assert!(!sys.dma[1].handled);
    sys.ppu.line = 160;
    assert_eq!(sys.run_channels(&mut Vec::new()), Ok(4));
}

#[test]
fn counts_of_zero_are_the_largest() {
    let mut sys = machine();
    start_dma(&mut sys, 2, 0x0200_0000, 0x0300_0000, 0, 0x8000 | 2 << 12);
    assert_eq!(sys.dma[2].count, 0x4000);
    start_dma(&mut sys, 3, 0x0200_0000, 0x0300_0000, 0, 0x8000 | 2 << 12);
    assert_eq!(sys.dma[3].count, 0x10000);
    start_dma(&mut sys, 1, 0x0200_0000, 0x0300_0000, 0x0405, 0x8000 | 2 << 12);
    assert_eq!(sys.dma[1].count, 5);
}

#[test]
fn channels_that_cannot_run() {
    let mut sys = machine();
    start_dma(&mut sys, 0, 0x0200_0000, 0x0800_0000, 1, 0x8000);
    assert!(!sys.dma[0].can_run(&sys));
    start_dma(&mut sys, 1, 0x0200_0000, 0x0300_0000, 1, 0x8000 | 3 << 12);
    assert!(!sys.dma[1].can_run(&sys));
    start_dma(&mut sys, 3, 0x0200_0000, 0x0300_0000, 1, 0x8000 | 1 << 11);
    assert!(!sys.dma[3].can_run(&sys));
    assert!(DmaChannel::new(2).can_run(&sys));
    assert_eq!(sys.run_channels(&mut Vec::new()), Err(0));
}

#[test]
fn channels_run_one_after_the_other() {
    let mut sys = machine();
    sys.write(0x0200_0000, 0x1234_5678, 4);
    start_dma(&mut sys, 0, 0x0200_0000, 0x0300_0000, 1, 0x8400);
    start_dma(&mut sys, 2, 0x0300_0000, 0x0300_0010, 1, 0x8400);
    assert_eq!(sys.run_channels(&mut Vec::new()), Ok(8));
    assert_eq!(sys.read(0x0300_0010), 0x1234_5678);
    // A channel stops those after it, but not those before it.
    start_dma(&mut sys, 1, 0x0200_0000, 0x0300_0020, 1, 0x8400);
    start_dma(&mut sys, 2, 0x0200_0000, 0x0800_0000, 1, 0x8400);
    start_dma(&mut sys, 3, 0x0200_0000, 0x0300_0030, 1, 0x8400);
    assert_eq!(sys.run_channels(&mut Vec::new()), Err(2));
    assert_eq!(sys.read(0x0300_0020), 0x1234_5678);
    assert_eq!(sys.read(0x0300_0030), 0);
}

#[test]
fn lines_and_pictures_come_as_events() {
    let mut sys = machine();
    sys.write(0x0500_0000, 0x1234, 2);
    let mut lines = 0;
    let mut frames = 0;
    for cycle in 0..300_000 {
        assert!(sys.ppu.can_step());
        match sys.step_devices(cycle) {
            PpuEvent::Line(line, pixels) => {
                assert_eq!(u32::from(line), lines);
                assert_eq!(pixels.len(), 480);
                assert!(pixels.chunks(2).all(|pixel| pixel == [0x34, 0x12]));
                lines += 1;
            }
            PpuEvent::Frame => {
                frames += 1;
                break;
            }
            PpuEvent::Nothing => {}
        }
    }
    assert_eq!(lines, 160);
    assert_eq!(frames, 1);
    assert_eq!(sys.ppu.line, 0);
}

#[test]
fn void_accesses_are_listed() {
    let mut void = Vec::new();
    note_read(0x0200_0000, &mut void);
    note_write(0x0400_0000, 4, &mut void);
    assert_eq!(void, []);
    note_read(0x0100_0006, &mut void);
    note_write(0x0100_0007, 2, &mut void);
    // The last register byte is not mapped.
    note_write(0x0400_03fc, 4, &mut void);
    assert_eq!(
        void,
        [
            VoidAccess::Read(0x0100_0004),
            VoidAccess::Write(0x0100_0006),
            VoidAccess::Write(0x0100_0007),
            VoidAccess::Write(0x0400_03ff),
        ]
    );
    let mut sys = machine();
    start_dma(&mut sys, 0, 0x0100_0000, 0x0200_0000, 2, 0x8000);
    start_dma(&mut sys, 1, 0x0200_0000, 0x0100_0000, 1, 0x8000);
    void.clear();
    assert_eq!(sys.run_channels(&mut void), Ok(10));
    assert_eq!(
        void,
        [
            VoidAccess::Read(0x0100_0000),
            VoidAccess::Read(0x0100_0000),
            VoidAccess::Write(0x0100_0000),
            VoidAccess::Write(0x0100_0001),
        ]
    );
    void.clear();
    assert_eq!(sys.run_channels(&mut void), Ok(0));
    assert_eq!(void, []);
}

#[test]
fn a_machine_cycle_runs_devices_and_channels() {
    let mut sys = machine();
    let mut clock = Clock { cycle: 0, reached: 3 };
    sys.write(0x0200_0000, 0x1234_5678, 4);
    // The channel waits for the pause after a line, which the cycle brings.
    start_dma(&mut sys, 0, 0x0200_0000, 0x0300_0000, 1, 0x8400 | 2 << 12);
    let (event, picture_over) = sys.run_cycle(&mut clock, &mut Vec::new()).unwrap();
    assert!(matches!(event, PpuEvent::Line(0, _)));
    assert!(picture_over);
    assert_eq!(sys.read(0x0300_0000), 0x1234_5678);
    assert_eq!((clock.cycle, clock.reached), (1, 7));
    let (event, picture_over) = sys.run_cycle(&mut clock, &mut Vec::new()).unwrap();
    assert!(matches!(event, PpuEvent::Nothing));
    assert!(!picture_over);
    assert_eq!((clock.cycle, clock.reached), (2, 7));
    start_dma(&mut sys, 1, 0x0200_0000, 0x0800_0000, 1, 0x8400);
    assert!(matches!(sys.run_cycle(&mut clock, &mut Vec::new()), Err(1)));
    assert_eq!((clock.cycle, clock.reached), (2, 7));
}

#[test]
fn addresses_wrap_around() {
    let mut sys = machine();
    start_dma(&mut sys, 3, 0x0200_0000, 0, 2, 0x8400 | 1 << 5);
    sys.dma[3].target = 0x0fff_fffc;
    sys.dma[3].source = 0xffff_fffc;
    assert_eq!(sys.run_channels(&mut Vec::new()), Ok(6));
    assert_eq!(sys.dma[3].source, 4);
    assert_eq!(sys.dma[3].target, 0x0fff_fff4);
}
