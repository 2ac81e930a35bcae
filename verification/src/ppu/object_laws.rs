//! What the objects show, from the bytes of the registers and memories.

use crate::bits::{le16, lemma_digits_u16, lemma_digits_u8, Bits};
use crate::ppu::background_laws::{
    lemma_control, lemma_signed_parts, lemma_tile_pixel, signed_half, tile_pixel,
};
use crate::ppu::model::{Object, PpuState};
use vstd::arithmetic::power2::pow2;
use vstd::prelude::*;

verus! {

/// An object is described by six of eight bytes of the object memory: its line, its
/// shape and kind, nine bits for its column, its size, ten bits for its tile, two for
/// its priority and four for its palette.
#[verifier::spinoff_prover]
#[verifier::rlimit(50)]
pub proof fn objects_are_read_from_memory(state: PpuState, i: int)
    ensures
        ({
            let object = state.object(i);
            &&& object.y == state.oam[8 * i]
            &&& object.shape == state.oam[8 * i + 1]
            &&& object.size == state.oam[8 * i + 3]
            &&& object.tile_high == state.oam[8 * i + 5]
            &&& object.kind() == state.oam[8 * i + 1] as int / 4 % 4
            &&& object.left() == state.oam[8 * i + 2] + 0x100 * (state.oam[8 * i + 3] as int % 2)
            &&& object.tile() == state.oam[8 * i + 4] + 0x100 * (state.oam[8 * i + 5] as int % 4)
            &&& object.priority == state.oam[8 * i + 5] as int / 4 % 4
        }),
{
    let object = state.object(i);
    lemma_digits_u8(object.shape);
    lemma_digits_u8(object.tile_high);
    lemma_numbers(object.x_low, object.size);
    lemma_numbers(object.tile_low, object.tile_high);
}

/// The low nine and the low ten bits of a half word, from its bytes.
#[verifier::spinoff_prover]
#[verifier::rlimit(50)]
proof fn lemma_numbers(low: u8, high: u8)
    ensures
        (low + 0x100 * high) as u16 & 0x1ff == low + 0x100 * (high as int % 2),
        (low + 0x100 * high) as u16 & 0x3ff == low + 0x100 * (high as int % 4),
{
    let half = (low + 0x100 * high) as u16;
    assert(half & 0x1ff == half % 512 && half & 0x3ff == half % 1024) by {
        lemma_digits_u16(half);
    }
    let h = high as int;
    assert(half == 512 * (h / 2) + (low + 0x100 * (h % 2)));
    assert(half == 1024 * (h / 4) + (low + 0x100 * (h % 4)));
    vstd::arithmetic::div_mod::lemma_fundamental_div_mod_converse(
        half as int,
        512,
        h / 2,
        low + 0x100 * (h % 2),
    );
    vstd::arithmetic::div_mod::lemma_fundamental_div_mod_converse(
        half as int,
        1024,
        h / 4,
        low + 0x100 * (h % 4),
    );
}

/// The distance from a start, on a circle.
proof fn lemma_circle(start: int, distance: int, place: int, size: int)
    requires
        size == 256 || size == 512,
        0 <= start < size,
        0 <= distance < size,
        place == (start + distance) % size,
    ensures
        place == start + distance || place == start + distance - size,
        (place + size - start) % size == distance,
{
    if size == 256 {
        assert(place == (start + distance) % 256);
    } else {
        assert(place == (start + distance) % 512);
    }
}

/// The width and height of an object. Squares have sides of 8, 16, 32 or 64 pixels.
/// The other shapes have 16 by 8, 32 by 8, 32 by 16 or 64 by 32; the shape 2 is
/// higher than wide, the others are wider than high. The area that an object can
/// cover is doubled to both sides where bit 1 of its second byte is set.
#[verifier::spinoff_prover]
#[verifier::rlimit(50)]
pub proof fn objects_have_their_dimensions(object: Object)
    ensures
        ({
            let shape = object.shape as int / 64;
            let size = object.size as int / 64;
            let longer: int = if size == 0 {
                16
            } else if size == 3 {
                64
            } else {
                32
            };
            let shorter: int = if size < 2 {
                8
            } else if size == 2 {
                16
            } else {
                32
            };
            let factor: int = if object.shape.has_bit(1) { 2 } else { 1 };
            &&& shape == 0 ==> object.width() == 8 * pow2(size as nat) && object.height()
                == object.width()
            &&& shape == 2 ==> object.width() == shorter && object.height() == longer
            &&& shape == 2 ==> object.height() > object.width()
            &&& shape == 1 || shape == 3 ==> object.width() == longer && object.height() == shorter
            &&& shape == 1 || shape == 3 ==> object.width() > object.height()
            &&& object.outer_width() == factor * object.width()
            &&& object.outer_height() == factor * object.height()
        }),
{
    lemma_digits_u8(object.shape);
    lemma_digits_u8(object.size);
    vstd::arithmetic::power2::lemma2_to64();
}

/// The row and column of an object, before scaling or mirroring, that a row and
/// column of its area show: with a mosaic those at the start of a block.
pub open spec fn blocked(state: PpuState, object: Object, row: int, column: int) -> (int, int) {
    let sizes = state.registers[0x4d] as int;
    if object.shape.has_bit(4) {
        (row - row % (sizes % 16 + 1), column - column % (sizes / 16 + 1))
    } else {
        (row, column)
    }
}

/// One of the four signed numbers that an object is scaled by; the sets of four are
/// spread over the object memory, two bytes in every eight.
pub open spec fn object_factor(state: PpuState, object: Object, i: int) -> int {
    signed_half(le16(state.oam, 32 * (object.size as int / 2 % 32) + 8 * i + 6))
}

/// The place of an object that a row and column of its area show. A scaled object is
/// turned and stretched about the middle of its area; others are mirrored at their
/// middle, to the side and upside down.
pub open spec fn object_place(state: PpuState, object: Object, row: int, column: int) -> (int, int) {
    let (row, column) = blocked(state, object, row, column);
    if object.shape.has_bit(0) {
        let x = column - object.outer_width() / 2;
        let y = row - object.outer_height() / 2;
        (
            (object_factor(state, object, 2) * x + object_factor(state, object, 3) * y) / 256
                + object.height() / 2,
            (object_factor(state, object, 0) * x + object_factor(state, object, 1) * y) / 256
                + object.width() / 2,
        )
    } else {
        (
            if object.size.has_bit(5) { object.height() - 1 - row } else { row },
            if object.size.has_bit(4) { object.width() - 1 - column } else { column },
        )
    }
}

/// The palette entry at a place of an object. Its tiles follow each other in a row;
/// the rows of tiles follow each other too, or lie 32 tiles apart. Tiles are counted
/// by 32 bytes modulo 1024, from 0x10000 on.
pub open spec fn object_entry(state: PpuState, object: Object, row: int, column: int) -> Option<u8> {
    let stride = if state.registers[0].has_bit(6) { object.width() / 8 } else { 32 };
    let first = 0x10000 + 32 * ((object.tile() + row / 8 * stride) % 1024);
    if object.shape.has_bit(5) {
        tile_pixel(state.vram, first, column / 8, row % 8, column % 8, None)
    } else {
        tile_pixel(
            state.vram,
            first,
            column / 8,
            row % 8,
            column % 8,
            Some(object.tile_high as int / 16),
        )
    }
}

#[verifier::spinoff_prover]
#[verifier::rlimit(50)]
proof fn lemma_blocked(state: PpuState, object: Object, column: int)
    ensures
        state.object_row(object) == blocked(state, object, state.object_line(object), column).0,
        state.object_column(object, column) == blocked(
            state,
            object,
            state.object_line(object),
            column,
        ).1,
{
    lemma_digits_u8(state.registers[0x4d]);
    assert(8int / 8 == 1 && 8int % 8 == 0 && 12int / 8 == 1 && 12int % 8 == 4);
    assert(state.registers[0x4c + 8int / 8] == state.registers[0x4d]);
    assert(state.registers[0x4c + 12int / 8] == state.registers[0x4d]);
}

proof fn lemma_block_bounds(state: PpuState, object: Object, row: int, column: int)
    requires
        row >= 0,
        column >= 0,
    ensures
        0 <= blocked(state, object, row, column).0 <= row,
        0 <= blocked(state, object, row, column).1 <= column,
{
    let sizes = state.registers[0x4d] as int;
    vstd::arithmetic::div_mod::lemma_mod_bound(row, sizes % 16 + 1);
    vstd::arithmetic::div_mod::lemma_mod_bound(column, sizes / 16 + 1);
    vstd::arithmetic::div_mod::lemma_mod_decreases(row as nat, (sizes % 16 + 1) as nat);
    vstd::arithmetic::div_mod::lemma_mod_decreases(column as nat, (sizes / 16 + 1) as nat);
}

proof fn lemma_dimensions(object: Object)
    ensures
        8 <= object.width() <= 64,
        8 <= object.height() <= 64,
        object.width() <= object.outer_width() <= 128,
        object.height() <= object.outer_height() <= 128,
{
}

#[verifier::spinoff_prover]
#[verifier::rlimit(50)]
proof fn lemma_object_factor(state: PpuState, object: Object, i: int)
    ensures
        state.object_scaling(object, i) == object_factor(state, object, i),
        -0x8000 <= object_factor(state, object, i) <= 0x7fff,
{
    lemma_digits_u8(object.size);
    lemma_signed_parts(le16(state.oam, 32 * (object.size as int / 2 % 32) + 8 * i + 6), 0, 0);
}

proof fn lemma_object_place(state: PpuState, object: Object, column: int)
    requires
        state.meets(object),
        0 <= column < object.outer_width(),
    ensures
        state.object_place(object, column) == object_place(
            state,
            object,
            state.object_line(object),
            column,
        ),
{
    let row = state.object_line(object);
    lemma_blocked(state, object, column);
    if object.shape.has_bit(0) {
        lemma_block_bounds(state, object, row, column);
        lemma_dimensions(object);
        let (top, side) = blocked(state, object, row, column);
        let x = side - object.outer_width() / 2;
        let y = top - object.outer_height() / 2;
        lemma_object_factor(state, object, 0);
        lemma_object_factor(state, object, 1);
        lemma_object_factor(state, object, 2);
        lemma_object_factor(state, object, 3);
        let a = state.object_scaling(object, 0);
        let b = state.object_scaling(object, 1);
        let c = state.object_scaling(object, 2);
        let d = state.object_scaling(object, 3);
        crate::ppu::render::lemma_scaled_range(a, x, b, y);
        crate::ppu::render::lemma_scaled_range(c, x, d, y);
        lemma_signed_parts(0, 0, (a * x + b * y) as i32);
        lemma_signed_parts(0, 0, (c * x + d * y) as i32);
    }
}

#[verifier::spinoff_prover]
#[verifier::rlimit(50)]
proof fn lemma_object_entry(state: PpuState, object: Object, row: int, column: int)
    requires
        0 <= row,
        0 <= column,
    ensures
        state.pixel_from_tile(
            state.object_tile_line(object, row, column),
            column % 8,
            state.object_palette(object),
        ) == object_entry(state, object, row, column),
{
    lemma_control(state);
    lemma_digits_u8(object.tile_high);
    let stride = if state.registers[0].has_bit(6) { object.width() / 8 } else { 32 };
    let first = 0x10000 + 32 * ((object.tile() + row / 8 * stride) % 1024);
    lemma_tile_pixel(
        state,
        first,
        column / 8,
        row % 8,
        column % 8,
        state.object_palette(object),
    );
}

/// An object covers the rows and columns of its area, counted from its corner, which
/// wrap around after 256 lines and 512 columns. There it shows the colour of the place
/// that the row and column lead to, if that lies in the object and is not transparent;
/// its colours are those of the second half of the palette memory. Elsewhere it shows
/// nothing.
#[verifier::spinoff_prover]
#[verifier::rlimit(60)]
pub proof fn object_shows_its_pixels(
    state: PpuState,
    object: Object,
    x: int,
    row: int,
    column: int,
)
    requires
        0 <= x < 240,
        0 <= row < 256,
        0 <= column < 512,
        state.line == (object.y + row) % 256,
        x == (object.left() + column) % 512,
    ensures
        ({
            let (place_row, place_column) = object_place(state, object, row, column);
            let covered = row < object.outer_height() && column < object.outer_width();
            let inside = 0 <= place_row < object.height() && 0 <= place_column < object.width();
            state.object_colour(object, x) == (if !(covered && inside) {
                None
            } else {
                match object_entry(state, object, place_row, place_column) {
                    Some(entry) => Some(
                        (state.palettes[0x200 + 2 * entry] + 0x100 * state.palettes[0x201 + 2
                            * entry]) as u16,
                    ),
                    None => None,
                }
            })
        }),
{
    lemma_numbers(object.x_low, object.size);
    lemma_circle(object.left(), column, x, 512);
    lemma_circle(object.y as int, row, state.line as int, 256);
    assert(object.column(x) == column);
    assert(state.object_line(object) == row);
    if row < object.outer_height() && column < object.outer_width() {
        lemma_object_place(state, object, column);
        let (place_row, place_column) = object_place(state, object, row, column);
        if 0 <= place_row < object.height() && 0 <= place_column < object.width() {
            lemma_object_entry(state, object, place_row, place_column);
        }
    }
}

/// Which objects are considered: those that are not switched off, in the modes below
/// 3, and those whose tiles lie in the upper half of their memory.
#[verifier::spinoff_prover]
#[verifier::rlimit(50)]
pub proof fn objects_are_considered(state: PpuState, object: Object)
    ensures
        state.considers(object) == ((object.shape as int % 4 != 2 && state.registers[0] as int % 8
            < 3) || object.tile() >= 512),
{
    lemma_digits_u8(object.shape);
    lemma_control(state);
}

/// The number of selected objects with a number below `end`.
pub open spec fn selected_below(state: PpuState, windows: bool, end: nat) -> nat
    decreases end,
{
    if end == 0 {
        0
    } else {
        let object = state.object(end - 1);
        selected_below(state, windows, (end - 1) as nat) + (if state.considers(object) && (
        object.kind() == 2) == windows {
            1nat
        } else {
            0
        })
    }
}

/// The objects that are considered are listed in the order of their numbers: those
/// that make up the object window, and all others.
pub proof fn considered_objects_are_listed_in_order(state: PpuState, windows: bool, number: int)
    requires
        0 <= number < 128,
    ensures
        state.selected(windows, 128).len() == selected_below(state, windows, 128),
        ({
            let object = state.object(number);
            let place = selected_below(state, windows, number as nat);
            state.considers(object) && (object.kind() == 2) == windows ==> place < state.selected(
                windows,
                128,
            ).len() && state.selected(windows, 128)[place as int] == object
        }),
{
    lemma_listed(state, windows, 128, number);
}

proof fn lemma_listed(state: PpuState, windows: bool, end: nat, number: int)
    requires
        0 <= number,
    ensures
        state.selected(windows, end).len() == selected_below(state, windows, end),
        ({
            let object = state.object(number);
            let place = selected_below(state, windows, number as nat);
            number < end && state.considers(object) && (object.kind() == 2) == windows ==> place
                < state.selected(windows, end).len() && state.selected(windows, end)[place as int]
                == object
        }),
    decreases end,
{
    if end > 0 {
        lemma_listed(state, windows, (end - 1) as nat, number);
    }
}

/// The objects with one priority are listed in the order in which they were.
pub proof fn sorting_is_stable(objects: Seq<Object>, priority: int, i: int, j: int)
    requires
        0 <= i < j < objects.len(),
        objects[i].priority == priority,
        objects[j].priority == priority,
    ensures
        ({
            let sorted = crate::ppu::model::with_priority(objects, priority, objects.len());
            let first = crate::ppu::model::with_priority(objects, priority, i as nat).len() as int;
            let second = crate::ppu::model::with_priority(objects, priority, j as nat).len() as int;
            first < second < sorted.len() && sorted[first] == objects[i] && sorted[second]
                == objects[j]
        }),
{
    lemma_stable(objects, priority, i, objects.len());
    lemma_stable(objects, priority, j, objects.len());
    lemma_stable(objects, priority, i, j as nat);
}

proof fn lemma_stable(objects: Seq<Object>, priority: int, i: int, count: nat)
    requires
        0 <= i < objects.len(),
        count <= objects.len(),
        objects[i].priority == priority,
    ensures
        ({
            let sorted = crate::ppu::model::with_priority(objects, priority, count);
            let place = crate::ppu::model::with_priority(objects, priority, i as nat).len() as int;
            i < count ==> place < sorted.len() && sorted[place] == objects[i]
        }),
    decreases count,
{
    if count > 0 {
        lemma_stable(objects, priority, i, (count - 1) as nat);
    }
}

/// When an object can be drawn: it does not reach the line, or it is a normal one and each
/// of its columns that lie on the screen can be drawn. There mirroring must stay inside the
/// object, the pixel must lie in the video memory, and a pixel that is not transparent
/// must not be in a window with special effects.
pub proof fn objects_can_be_drawn(
    state: PpuState,
    object: Object,
    object_window: Option<Seq<u16>>,
    column: int,
)
    requires
        0 <= column < object.outer_width(),
    ensures
        ({
            let x = (object.left() + column) % 512;
            let scaled = object.shape.has_bit(0);
            let leaves = !scaled && ((object.size.has_bit(5) && state.object_row(object)
                >= object.height()) || (object.size.has_bit(4) && state.object_column(object, column)
                >= object.width()));
            let outside = state.shows_object(object, column) && state.object_index(object, column)
                >= 0x18000;
            let special = state.object_pixel(object, column) is Some && state.window(
                x,
                object_window,
            ).has_bit(5);
            let drawable = state.object_drawable(object, object_window);
            &&& !state.meets(object) ==> drawable
            &&& state.meets(object) && object.shape as int / 4 % 4 != 0 ==> !drawable
            &&& state.meets(object) && x < 240 && (leaves || outside || special) ==> !drawable
            &&& (x >= 240 || !(leaves || outside || special)) ==> state.column_drawable(
                object,
                column,
                object_window,
            )
            &&& object.shape as int / 4 % 4 == 0 && (forall|i: int|
                0 <= i < object.outer_width() ==> #[trigger] state.column_drawable(
                    object,
                    i,
                    object_window,
                )) ==> drawable
        }),
{
    lemma_digits_u8(object.shape);
    assert(state.object_drawable(object, object_window) && state.meets(object)
        ==> state.column_drawable(object, column, object_window));
}

} // verus!
