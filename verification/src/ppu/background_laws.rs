//! What the backgrounds show, from the bytes of the registers and memories.

use crate::bits::{le16, lemma_digits_u16, lemma_digits_u8, Bits};
use crate::ppu::model::{PpuState, ScalingData};
use vstd::prelude::*;

verus! {

/// A half word taken as a signed number.
pub open spec fn signed_half(half: u16) -> int {
    if half < 0x8000 { half as int } else { half - 0x1_0000 }
}

/// The signed number in a half word, and the whole part of a number that counts
/// parts of 256.
pub(crate) proof fn lemma_signed_parts(half: u16, long: i64, short: i32)
    ensures
        (half as i16) as i32 == signed_half(half),
        (half as i16) as i64 == signed_half(half),
        long >> 8 == long as int / 256,
        short >> 8 == short as int / 256,
{
    assert(half as i16 == (if half < 0x8000 { half as int } else { half - 0x1_0000 }) && long == (
    long >> 8) * 256 + (long & 0xff) && 0 <= (long & 0xff) < 256 && short == (short >> 8) * 256 + (
    short & 0xff) && 0 <= (short & 0xff) < 256) by (bit_vector);
}

/// The palette entry of a pixel of a tile, if it has one. The tiles have 8 rows of 8
/// pixels. Without a palette a pixel is a byte; with one it is half a byte, the low
/// half first, and the palettes have 16 entries. The entry 0 is transparent.
pub open spec fn tile_pixel(
    memory: Seq<u8>,
    tiles: int,
    tile: int,
    row: int,
    column: int,
    palette: Option<int>,
) -> Option<u8> {
    match palette {
        None => {
            let byte = memory[tiles + 64 * tile + 8 * row + column];
            if byte == 0 { None } else { Some(byte) }
        },
        Some(palette) => {
            let byte = memory[tiles + 32 * tile + 4 * row + column / 2] as int;
            let entry = if column % 2 == 0 { byte % 16 } else { byte / 16 };
            if entry == 0 { None } else { Some((16 * palette + entry) as u8) }
        },
    }
}

/// The palette entry of a pixel of a background tile: tiles that start in the memory
/// of the objects are not shown.
pub open spec fn background_pixel(
    memory: Seq<u8>,
    tiles: int,
    tile: int,
    row: int,
    column: int,
    palette: Option<int>,
) -> Option<u8> {
    let start = if palette is None {
        tiles + 64 * tile + 8 * row
    } else {
        tiles + 32 * tile + 4 * row
    };
    if start >= 0x10000 { None } else { tile_pixel(memory, tiles, tile, row, column, palette) }
}

#[verifier::spinoff_prover]
#[verifier::rlimit(50)]
pub(crate) proof fn lemma_tile_pixel(
    state: PpuState,
    tiles: int,
    tile: int,
    row: int,
    column: int,
    palette: Option<u8>,
)
    requires
        0 <= column < 8,
        palette is Some ==> palette->0 < 16,
    ensures
        palette is None ==> state.pixel_from_tile(tiles + 64 * tile + 8 * row, column, palette)
            == tile_pixel(state.vram, tiles, tile, row, column, None),
        palette is Some ==> state.pixel_from_tile(tiles + 32 * tile + 4 * row, column, palette)
            == tile_pixel(state.vram, tiles, tile, row, column, Some(palette->0 as int)),
{
    lemma_digits_u8(state.vram[tiles + 32 * tile + 4 * row + column / 2]);
}

#[verifier::spinoff_prover]
#[verifier::rlimit(50)]
proof fn lemma_background_pixel(
    state: PpuState,
    layer: int,
    tile: int,
    row: int,
    column: int,
    palette: Option<u8>,
)
    requires
        0 <= column < 8,
        palette is Some ==> palette->0 < 16,
    ensures
        state.bg_tile_pixel(layer, tile, row, column, palette) == background_pixel(
            state.vram,
            0x4000 * (state.bg_control(layer) / 4 % 4),
            tile,
            row,
            column,
            match palette {
                Some(palette) => Some(palette as int),
                None => None,
            },
        ),
{
    let tiles = 0x4000 * (state.bg_control(layer) / 4 % 4);
    lemma_digits_u16(state.bg_control(layer));
    lemma_tile_pixel(state, tiles, tile, row, column, palette);
}

/// The column of a background that a column of the screen shows before it is
/// scrolled: where the control register asks for it, the start of a block whose
/// width stands in the upper half of the mosaic byte.
pub open spec fn across(state: PpuState, layer: int, x: int) -> int {
    if state.bg_control(layer).has_bit(6) {
        x - x % (state.registers[0x4c] as int / 16 + 1)
    } else {
        x
    }
}

/// The row of a background that the line shows before it is scrolled.
pub open spec fn down(state: PpuState, layer: int) -> int {
    if state.bg_control(layer).has_bit(6) {
        state.line - state.line as int % (state.registers[0x4c] as int % 16 + 1)
    } else {
        state.line as int
    }
}

#[verifier::spinoff_prover]
#[verifier::rlimit(50)]
proof fn lemma_block_starts(state: PpuState, layer: int, x: int)
    ensures
        state.bg_column(layer, x) == across(state, layer, x),
        state.bg_row(layer) == down(state, layer),
{
    lemma_digits_u8(state.registers[0x4c]);
    assert(4int / 8 == 0 && 4int % 8 == 4 && 0int / 8 == 0 && 0int % 8 == 0);
    assert(state.registers[0x4c + 4int / 8] == state.registers[0x4c]);
}

/// The map of a scrolled background is made of areas of 32 rows of 32 entries of two
/// bytes, one after the other. The entry at a place of an area shows its tile at the
/// pixels of that place: the tile with the number in its low ten bits, mirrored by
/// the next two bits, with the palette in the top four.
#[verifier::spinoff_prover]
#[verifier::rlimit(60)]
pub proof fn map_entry_shows_its_tile(
    state: PpuState,
    layer: int,
    x: int,
    map_row: int,
    map_column: int,
    tile_row: int,
    tile_column: int,
)
    requires
        0 <= layer < 4,
        0 <= x < 240,
        0 <= map_row < 32,
        0 <= map_column < 32,
        0 <= tile_row < 8,
        0 <= tile_column < 8,
        (across(state, layer, x) + le16(state.registers, 0x10 + 4 * layer) % 512) % 256 == 8
            * map_column + tile_column,
        (down(state, layer) + le16(state.registers, 0x12 + 4 * layer) % 512) % 256 == 8 * map_row
            + tile_row,
    ensures
        ({
            let control = state.registers[8 + 2 * layer] + 0x100 * state.registers[9 + 2 * layer];
            let right = (across(state, layer, x) + le16(state.registers, 0x10 + 4 * layer) % 512)
                % 512 >= 256;
            let below = (down(state, layer) + le16(state.registers, 0x12 + 4 * layer) % 512) % 512
                >= 256;
            let area = (if right && state.bg_control(layer).has_bit(14) {
                1int
            } else {
                0
            }) + (if below && state.bg_control(layer).has_bit(15) {
                2int
            } else {
                0
            });
            let place = 0x800 * (control / 256 % 32 + area) + 2 * (32 * map_row + map_column);
            let entry = le16(state.vram, place);
            state.text_pixel(layer, x) == background_pixel(
                state.vram,
                0x4000 * (control / 4 % 4),
                entry as int % 1024,
                if entry.has_bit(11) { 7 - tile_row } else { tile_row },
                if entry.has_bit(10) { 7 - tile_column } else { tile_column },
                if state.bg_control(layer).has_bit(7) { None } else { Some(entry as int / 4096) },
            )
        }),
{
    let control = state.bg_control(layer);
    let column = across(state, layer, x) + le16(state.registers, 0x10 + 4 * layer) % 512;
    let row = down(state, layer) + le16(state.registers, 0x12 + 4 * layer) % 512;
    lemma_block_starts(state, layer, x);
    lemma_digits_u16(control);
    lemma_digits_u16(le16(state.registers, 0x10 + 4 * layer));
    lemma_digits_u16(le16(state.registers, 0x12 + 4 * layer));
    let right = if control.has_bit(14) && column % 512 >= 256 { 1int } else { 0 };
    let below = if control.has_bit(15) && row % 512 >= 256 { 2int } else { 0 };
    let place = 0x800 * (control / 256 % 32 + right + below) + 2 * (32 * map_row + map_column);
    lemma_cell(column, map_column, tile_column);
    lemma_cell(row, map_row, tile_row);
    let entry = le16(state.vram, place);
    lemma_digits_u16(entry);
    let palette = if control.has_bit(7) { None } else { Some((entry >> 12) as u8) };
    let shown_row = if entry.has_bit(11) { 7 - tile_row } else { tile_row };
    let shown_column = if entry.has_bit(10) { 7 - tile_column } else { tile_column };
    assert(state.text_pixel(layer, x) == state.bg_tile_pixel(
        layer,
        (entry & 0x3ff) as int,
        shown_row,
        shown_column,
        palette,
    )) by {
        assert(place == state.map_offset(layer) + (right + below) * 0x800 + row % 256 / 8 * 64
            + column % 256 / 8 * 2);
    }
    lemma_background_pixel(
        state,
        layer,
        (entry & 0x3ff) as int,
        shown_row,
        shown_column,
        palette,
    );
}

/// The cell of eight that a coordinate of an area lies in, and its place in the cell.
proof fn lemma_cell(coordinate: int, cell: int, inside: int)
    requires
        coordinate % 256 == 8 * cell + inside,
        0 <= inside < 8,
    ensures
        coordinate % 256 / 8 == cell,
        coordinate % 8 == inside,
{
}

/// How a scaled background is placed: its reference point, and the four signed
/// numbers of its registers in the order of the steps in x for a pixel and for a
/// line, and in y for a pixel and for a line.
pub proof fn scaling_comes_from_the_registers(state: PpuState, layer: int)
    requires
        layer == 2 || layer == 3,
    ensures
        ({
            let data = state.scaling_data(layer);
            let start = 0x10 * layer;
            let point = if layer == 2 { 0int } else { 2 };
            &&& data.scroll_x == state.reference_points[point]
            &&& data.scroll_y == state.reference_points[point + 1]
            &&& data.xx == signed_half(le16(state.registers, start))
            &&& data.xy == signed_half(le16(state.registers, start + 2))
            &&& data.yx == signed_half(le16(state.registers, start + 4))
            &&& data.yy == signed_half(le16(state.registers, start + 6))
        }),
{
    lemma_signed_parts(le16(state.registers, 0x10 * layer), 0, 0);
    lemma_signed_parts(le16(state.registers, 0x10 * layer + 2), 0, 0);
    lemma_signed_parts(le16(state.registers, 0x10 * layer + 4), 0, 0);
    lemma_signed_parts(le16(state.registers, 0x10 * layer + 6), 0, 0);
}

/// The place of a scaled background that a pixel shows, as row and column: so many
/// steps from the reference point, counted in parts of 256 and rounded down.
pub open spec fn scaled_place(data: ScalingData, x: int) -> (int, int) {
    ((data.scroll_y + data.yx * x) / 256, (data.scroll_x + data.xx * x) / 256)
}

/// The coordinates on a scaled background are those of the place that a pixel shows;
/// where that lies left of or above the background they are huge.
pub(crate) proof fn lemma_transformed(state: PpuState, layer: int, x: int)
    requires
        state.well_formed(),
        layer == 2 || layer == 3,
        0 <= x < 240,
    ensures
        ({
            let data = state.scaling_data(layer);
            let (row, column) = scaled_place(data, x);
            let found = crate::ppu::model::transformed(x, data);
            &&& found.0 == (if row < 0 { row + 0x1_0000_0000_0000_0000 } else { row })
            &&& found.1 == (if column < 0 { column + 0x1_0000_0000_0000_0000 } else { column })
            &&& -0x10_0000_0000 < row < 0x10_0000_0000
            &&& -0x10_0000_0000 < column < 0x10_0000_0000
        }),
{
    let data = state.scaling_data(layer);
    scaling_comes_from_the_registers(state, layer);
    assert(-state.reach() <= state.reference_points[2 * (layer - 2)] <= state.reach());
    assert(-state.reach() <= state.reference_points[2 * (layer - 2) + 1] <= state.reach());
    let xx = data.xx as int;
    let yx = data.yx as int;
    assert(-0x80_0000 <= xx * x <= 0x80_0000 && -0x80_0000 <= yx * x <= 0x80_0000) by (
        nonlinear_arith)
        requires
            -0x8000 <= xx <= 0x8000,
            -0x8000 <= yx <= 0x8000,
            0 <= x < 240,
    ;
    lemma_signed_parts(0, (data.yx * x + data.scroll_y) as i64, 0);
    lemma_signed_parts(0, (data.xx * x + data.scroll_x) as i64, 0);
    crate::cpu::instruction_laws::lemma_double_words(
        0,
        ((data.yx * x + data.scroll_y) as i64 >> 8) as i64,
        0,
        0,
    );
    crate::cpu::instruction_laws::lemma_double_words(
        0,
        ((data.xx * x + data.scroll_x) as i64 >> 8) as i64,
        0,
        0,
    );
}

/// A scaled background is a square of 16, 32, 64 or 128 tiles to a side, with a map
/// of one byte for each tile, row by row, and pixels of one byte. Beyond its edges it
/// repeats where the control register says so, and shows nothing otherwise.
#[verifier::spinoff_prover]
#[verifier::rlimit(50)]
pub proof fn scaled_background_shows_its_tiles(
    state: PpuState,
    layer: int,
    x: int,
    row: int,
    column: int,
)
    requires
        state.well_formed(),
        layer == 2 || layer == 3,
        0 <= x < 240,
        ({
            let side = 128 * vstd::arithmetic::power2::pow2(
                (state.registers[9 + 2 * layer] as int / 64) as nat,
            ) as int;
            let place = scaled_place(state.scaling_data(layer), across(state, layer, x));
            &&& 0 <= row < side && 0 <= column < side
            &&& if state.bg_control(layer).has_bit(13) {
                place.0 % side == row && place.1 % side == column
            } else {
                place == (row, column)
            }
        }),
    ensures
        ({
            let control = state.registers[8 + 2 * layer] + 0x100 * state.registers[9 + 2 * layer];
            let tiles = 16 * vstd::arithmetic::power2::pow2(
                (state.registers[9 + 2 * layer] as int / 64) as nat,
            ) as int;
            let tile = state.vram[0x800 * (control / 256 % 32) + tiles * (row / 8) + column / 8];
            state.scaled_pixel(layer, x) == background_pixel(
                state.vram,
                0x4000 * (control / 4 % 4),
                tile as int,
                row % 8,
                column % 8,
                None,
            )
        }),
{
    vstd::arithmetic::power2::lemma2_to64();
    lemma_block_starts(state, layer, x);
    lemma_digits_u16(state.bg_control(layer));
    lemma_digits_u8(state.registers[0x4c]);
    let bg_x = across(state, layer, x);
    lemma_across(state, layer, x);
    lemma_transformed(state, layer, bg_x);
    let tiles = state.scaled_tiles(layer);
    let side = 8 * tiles;
    let control = state.bg_control(layer);
    assert(control >> 14 == state.registers[9 + 2 * layer] / 64);
    assert(tiles == 16 || tiles == 32 || tiles == 64 || tiles == 128);
    let data = state.scaling_data(layer);
    let place = scaled_place(data, bg_x);
    let found = crate::ppu::model::transformed(bg_x, data);
    lemma_wrap(place.0, tiles);
    lemma_wrap(place.1, tiles);
    assert(row / 8 * tiles == tiles * (row / 8)) by (nonlinear_arith);
    let tile = state.vram[state.map_offset(layer) + row / 8 * tiles + column / 8];
    lemma_background_pixel(state, layer, tile as int, row % 8, column % 8, None);
    assert(state.scaled_pixel(layer, x) == state.scaled_place_pixel(layer, row, column));
}

proof fn lemma_across(state: PpuState, layer: int, x: int)
    requires
        0 <= x < 240,
    ensures
        0 <= across(state, layer, x) < 240,
{
    let size = state.registers[0x4c] as int / 16 + 1;
    vstd::arithmetic::div_mod::lemma_mod_bound(x, size);
    vstd::arithmetic::div_mod::lemma_mod_decreases(x as nat, size as nat);
}

proof fn lemma_wrap(place: int, tiles: int)
    requires
        tiles == 16 || tiles == 32 || tiles == 64 || tiles == 128,
    ensures
        (place + 0x1_0000_0000_0000_0000) % (8 * tiles) == place % (8 * tiles),
{
    if tiles == 16 {
        assert((place + 0x1_0000_0000_0000_0000) % 128 == place % 128);
    } else if tiles == 32 {
        assert((place + 0x1_0000_0000_0000_0000) % 256 == place % 256);
    } else if tiles == 64 {
        assert((place + 0x1_0000_0000_0000_0000) % 512 == place % 512);
    } else {
        assert((place + 0x1_0000_0000_0000_0000) % 1024 == place % 1024);
    }
}

/// Outside of its square a scaled background that does not repeat shows nothing.
#[verifier::spinoff_prover]
#[verifier::rlimit(50)]
pub proof fn scaled_background_ends(state: PpuState, layer: int, x: int)
    requires
        state.well_formed(),
        layer == 2 || layer == 3,
        0 <= x < 240,
        !state.bg_control(layer).has_bit(13),
        ({
            let side = 128 * vstd::arithmetic::power2::pow2(
                (state.registers[9 + 2 * layer] as int / 64) as nat,
            ) as int;
            let (row, column) = scaled_place(state.scaling_data(layer), across(state, layer, x));
            !(0 <= row < side && 0 <= column < side)
        }),
    ensures
        state.scaled_pixel(layer, x) is None,
{
    vstd::arithmetic::power2::lemma2_to64();
    lemma_block_starts(state, layer, x);
    lemma_digits_u16(state.bg_control(layer));
    lemma_across(state, layer, x);
    lemma_transformed(state, layer, across(state, layer, x));
    assert(state.bg_control(layer) >> 14 == state.registers[9 + 2 * layer] / 64);
}

/// What the bitmaps show: 240 by 160 colours of two bytes in the mode 3, as many
/// palette entries of one byte in the mode 4, and 160 by 128 colours in the mode 5,
/// row by row; the last two modes have a second picture 0xa000 bytes on. Outside of
/// the picture there is nothing.
pub proof fn bitmap_shows_its_pixels(state: PpuState, x: int)
    requires
        state.well_formed(),
        3 <= state.registers[0] as int % 8 <= 5,
        0 <= x < 240,
    ensures
        ({
            let mode = state.registers[0] as int % 8;
            let (row, column) = scaled_place(state.scaling_data(2), x);
            let width = if mode == 5 { 160int } else { 240 };
            let height = if mode == 5 { 128int } else { 160 };
            let start = if mode != 3 && state.registers[0].has_bit(4) { 0xa000int } else { 0 };
            let index = width * row + column;
            state.bitmap_colour(x) == (if !(0 <= row < height && 0 <= column < width) {
                None
            } else if mode == 4 {
                Some(le16(state.palettes, 2 * state.vram[start + index]))
            } else {
                Some(le16(state.vram, start + 2 * index))
            })
        }),
{
    lemma_control(state);
    lemma_transformed(state, 2, x);
    let (row, column) = scaled_place(state.scaling_data(2), x);
    assert(row * 160 == 160 * row && row * 240 == 240 * row);
}

/// The mode is what the low three bits of the first register byte hold, and the bits
/// of the first two bytes are those of the control register.
pub(crate) proof fn lemma_control(state: PpuState)
    ensures
        state.mode() == state.registers[0] as int % 8,
        state.control().has_bit(4) == state.registers[0].has_bit(4),
        state.control().has_bit(6) == state.registers[0].has_bit(6),
        state.control().has_bit(7) == state.registers[0].has_bit(7),
        state.control().has_bit(8) == state.registers[1].has_bit(0),
        state.control().has_bit(9) == state.registers[1].has_bit(1),
        state.control().has_bit(10) == state.registers[1].has_bit(2),
        state.control().has_bit(11) == state.registers[1].has_bit(3),
        state.control().has_bit(12) == state.registers[1].has_bit(4),
        state.control().has_bit(13) == state.registers[1].has_bit(5),
        state.control().has_bit(14) == state.registers[1].has_bit(6),
        state.control().has_bit(15) == state.registers[1].has_bit(7),
        state.control() >> 13 == state.registers[1] as int / 32,
{
    lemma_low_and_high(state.registers[0], state.registers[1]);
    lemma_half_bits(state.control(), state.registers[0], state.registers[1], 0);
    lemma_half_bits(state.control(), state.registers[0], state.registers[1], 1);
    lemma_half_bits(state.control(), state.registers[0], state.registers[1], 2);
    lemma_half_bits(state.control(), state.registers[0], state.registers[1], 3);
    lemma_half_bits(state.control(), state.registers[0], state.registers[1], 4);
    lemma_half_bits(state.control(), state.registers[0], state.registers[1], 5);
    lemma_half_bits(state.control(), state.registers[0], state.registers[1], 6);
    lemma_half_bits(state.control(), state.registers[0], state.registers[1], 7);
}

/// The low three and the high three bits of a half word, from its bytes.
#[verifier::spinoff_prover]
#[verifier::rlimit(50)]
proof fn lemma_low_and_high(low: u8, high: u8)
    ensures
        (low + 0x100 * high) as u16 & 0b111 == low as int % 8,
        (low + 0x100 * high) as u16 >> 13 == high as int / 32,
{
    let half = (low + 0x100 * high) as u16;
    assert(half & 0b111 == half % 8 && half >> 13 == half / 8192) by {
        lemma_digits_u16(half);
    }
}

/// The bits of a half word are those of its bytes.
proof fn lemma_half_bits(half: u16, low: u8, high: u8, bit: u16)
    requires
        half == low + 0x100 * high,
        bit < 8,
    ensures
        half.has_bit(bit) == low.has_bit(bit as u8),
        half.has_bit((bit + 8) as u16) == high.has_bit(bit as u8),
{
    let small = bit as u8;
    let upper = (bit + 8) as u16;
    assert((half & (1u16 << bit) != 0) == (low & (1u8 << small) != 0) && (half & (1u16 << upper)
        != 0) == (high & (1u8 << small) != 0)) by (bit_vector)
        requires
            half == low + 0x100 * high,
            bit < 8,
            small == bit,
            upper == bit + 8,
    ;
}

/// Which kind of background is shown in a mode, and in which colours: the modes from
/// 3 on have a bitmap, the mode 2 and the third background of the mode 1 are scaled,
/// the others are scrolled. The colours of the palette have two bytes each.
pub proof fn backgrounds_have_their_kinds(state: PpuState, layer: int, x: int)
    ensures
        ({
            let mode = state.registers[0] as int % 8;
            let index = if mode == 2 || (mode == 1 && layer == 2) {
                state.scaled_pixel(layer, x)
            } else {
                state.text_pixel(layer, x)
            };
            state.layer_colour(layer, x) == (if mode >= 3 {
                state.bitmap_colour(x)
            } else {
                match index {
                    Some(entry) => Some(
                        (state.palettes[2 * entry] + 0x100 * state.palettes[2 * entry + 1]) as u16,
                    ),
                    None => None,
                }
            })
        }),
{
    lemma_control(state);
}

/// Which backgrounds are shown: each has a switch in the second register byte. The
/// modes 0 and 1 have the first three, the mode 2 has the last two, the others have
/// the third alone. The priority of a background is in the low bits of its control.
pub proof fn backgrounds_are_switched_on(state: PpuState, layer: int)
    requires
        0 <= layer < 4,
    ensures
        ({
            let mode = state.registers[0] as int % 8;
            &&& state.shows_layer(layer) == (state.registers[1].has_bit(layer as u8) && (layer == 2
                || (layer < 2 && mode < 2) || (layer == 3 && mode == 2)))
            &&& state.bg_priority(layer) == state.registers[8 + 2 * layer] as int % 4
        }),
{
    lemma_control(state);
    lemma_priority(state, layer);
    if layer == 0 {
        assert(state.control().has_bit(8) == state.registers[1].has_bit(0));
    } else if layer == 1 {
        assert(state.control().has_bit(9) == state.registers[1].has_bit(1));
    } else if layer == 2 {
        assert(state.control().has_bit(10) == state.registers[1].has_bit(2));
    } else {
        assert(state.control().has_bit(11) == state.registers[1].has_bit(3));
    }
}

#[verifier::spinoff_prover]
#[verifier::rlimit(50)]
proof fn lemma_priority(state: PpuState, layer: int)
    ensures
        state.bg_priority(layer) == state.registers[8 + 2 * layer] as int % 4,
{
    lemma_digits_u16(state.bg_control(layer));
}

/// Showing a line moves exactly the scaled backgrounds and the bitmap that are shown,
/// unless the line is blanked.
pub proof fn shown_scaled_backgrounds_advance(state: PpuState, layer: int)
    requires
        layer == 2 || layer == 3,
    ensures
        ({
            let mode = state.registers[0] as int % 8;
            state.advances(layer) == (!state.registers[0].has_bit(7)
                && state.registers[1].has_bit(layer as u8) && (if layer == 2 {
                mode != 0
            } else {
                mode == 2
            }))
        }),
{
    lemma_control(state);
}

} // verus!
