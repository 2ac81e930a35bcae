# Advantic

An emulator of the Game Boy Advance whose machine is verified with Verus.

- `src/` is the machine: the processor (`cpu`), the picture unit (`ppu`), the
  memory map and the bus (`memory`, `system`), the timers, the copying channels
  (`dma`), the interrupt registers, the buttons (`keys`), and the clock that
  keeps the devices in step with the processor.
- `app/` is the program around it: it reads the files, opens the window, polls
  the keyboard and paces the pictures.
- `tests/` runs the machine on concrete values.

Each part has a state as its view, and spec functions that say what an operation
makes of it: `CpuState` and `Machine` in `cpu::model`, `PpuState` in
`ppu::model`, `SystemState` in `system`, `TimerState` in `timer`. The contracts
of the executable functions are stated over these. What holds across several
operations is proved in the `laws` modules and beside the definitions.

Some programs do what the machine does not support: they write to read-only
memory, execute words that are not instructions, or ask for a picture that cannot
be drawn. The operations require that this is not so, and the functions whose
names begin with `can_` tell it beforehand: `Cpu::can_step`, `Ppu::can_step`,
`Ppu::can_render_line`, `DmaChannel::can_run`, and `can_read` and `can_write` of
the bus. `Cpu::obstacle` also says what stands in the way, and `System::run_cycle`
stops at a channel that cannot be run. Accesses to addresses where nothing is
mapped have no effect; the machine lists them, and the program reports them.

The program takes the path of a cartridge as its argument, and reads the
start-up program from `gba_bios.bin` in the working directory.
