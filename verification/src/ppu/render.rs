//! Drawing a line of the picture.

use crate::bits::{read_u16, Bits};
use crate::ppu::laws::lemma_layers_with;
use crate::ppu::model::{
    blank_line, drawn, leading, transformed, with_priority, Object, PpuState, ScalingData, EMPTY,
};
use crate::ppu::Ppu;
use vstd::arithmetic::div_mod::lemma_mod_decreases;
use vstd::prelude::*;

verus! {

/// Finds where a pixel at column `x` lies on a scaled background, as row and
/// column.
pub fn transform_bg(x: usize, data: ScalingData) -> (r: (u64, u64))
    requires
        i64::MIN <= data.xx * (x as isize) <= i64::MAX,
        i64::MIN <= data.xx * (x as isize) + data.scroll_x <= i64::MAX,
        i64::MIN <= data.yx * (x as isize) <= i64::MAX,
        i64::MIN <= data.yx * (x as isize) + data.scroll_y <= i64::MAX,
    ensures
        r == transformed((x as isize) as int, data),
{
    let x1: i64 = (x as isize) as i64;
    let x: i64 = (data.xx * x1 + data.scroll_x) >> 8;
    let y: i64 = (data.yx * x1 + data.scroll_y) >> 8;
    (y as u64, x as u64)
}

/// On the screen the coordinates of a scaled background do not overflow.
proof fn lemma_transform_range(x: usize, data: ScalingData)
    requires
        x < 240,
        -0x8000 <= data.xx <= 0x7fff,
        -0x8000 <= data.yx <= 0x7fff,
        -0x1000_0000 <= data.scroll_x <= 0x1000_0000,
        -0x1000_0000 <= data.scroll_y <= 0x1000_0000,
    ensures
        x as isize == x,
        -0x8000 * 240 <= data.xx * (x as isize) <= 0x8000 * 240,
        -0x8000 * 240 <= data.yx * (x as isize) <= 0x8000 * 240,
{
    assert(-0x8000 * 240 <= data.xx * x <= 0x8000 * 240) by (nonlinear_arith)
        requires
            -0x8000 <= data.xx <= 0x7fff,
            0 <= x < 240,
    ;
    assert(-0x8000 * 240 <= data.yx * x <= 0x8000 * 240) by (nonlinear_arith)
        requires
            -0x8000 <= data.yx <= 0x7fff,
            0 <= x < 240,
    ;
}

/// There are not more objects before a background than there are objects.
pub(crate) proof fn lemma_leading(objects: Seq<Object>, priority: u8)
    ensures
        leading(objects, priority) <= objects.len(),
    decreases objects.len(),
{
    if objects.len() > 0 && objects.last().priority > priority {
        lemma_leading(objects.drop_last(), priority);
    }
}

/// What an object window holds.
pub open spec fn window_pixels(object_window: Option<&[u16; 240]>) -> Option<Seq<u16>> {
    match object_window {
        Some(pixels) => Some(pixels@),
        None => None,
    }
}

/// A sum of two products, shifted to the right, is small.
pub(crate) proof fn lemma_scaled_range(a: i32, x: int, b: i32, y: int)
    requires
        -0x8000 <= a <= 0x7fff,
        -0x8000 <= b <= 0x7fff,
        -64 <= x <= 127,
        -64 <= y <= 127,
    ensures
        -0x40_0000 <= a * x <= 0x40_0000,
        -0x40_0000 <= b * y <= 0x40_0000,
        -0x8000 <= ((a * x + b * y) as i32 >> 8) <= 0x8000,
{
    assert(-0x40_0000 <= a * x <= 0x40_0000) by (nonlinear_arith)
        requires
            -0x8000 <= a <= 0x7fff,
            -64 <= x <= 127,
    ;
    assert(-0x40_0000 <= b * y <= 0x40_0000) by (nonlinear_arith)
        requires
            -0x8000 <= b <= 0x7fff,
            -64 <= y <= 127,
    ;
    let sum = (a * x + b * y) as i32;
    assert(-0x8000 <= (sum >> 8) <= 0x8000) by (bit_vector)
        requires
            -0x80_0000 <= sum <= 0x80_0000,
    ;
}

/// A column of an object and the column of the screen that it falls on
/// determine each other.
proof fn lemma_column(object: Object, column: int, x: int)
    requires
        0 <= column < 512,
        0 <= x < 512,
    ensures
        (object.column(x) == column) == (x == (object.left() + column) % 512),
        0 <= object.left() < 512,
{
    crate::bits::lemma_fields_u16((object.x_low + 0x100 * object.size) as u16);
}

impl Object {
    pub(crate) fn dimensions_of(&self) -> (r: (usize, usize))
        ensures
            r.0 == self.width(),
            r.1 == self.height(),
            8 <= r.0 <= 64,
            8 <= r.1 <= 64,
    {
        let size: u8 = self.size >> 6;
        let shape: u8 = self.shape >> 6;
        if shape > 0 {
            let (larger, smaller): (usize, usize) = match size {
                0 => (16, 8),
                1 => (32, 8),
                2 => (32, 16),
                _ => (64, 32),
            };
            if shape == 2 { (smaller, larger) } else { (larger, smaller) }
        } else {
            let side: usize = match size {
                0 => 8,
                1 => 16,
                2 => 32,
                _ => 64,
            };
            (side, side)
        }
    }

    pub(crate) fn outer_dimensions(&self) -> (r: (usize, usize))
        ensures
            r.0 == self.outer_width(),
            r.1 == self.outer_height(),
            r.0 <= 128,
            r.1 <= 128,
    {
        let (width, height) = self.dimensions_of();
        if self.shape.bit(1) { (width * 2, height * 2) } else { (width, height) }
    }

    pub(crate) fn left_column(&self) -> (r: usize)
        ensures
            r == self.left(),
            r < 512,
    {
        let x: u16 = self.x_low as u16 + 0x100 * self.size as u16;
        proof {
            crate::bits::lemma_fields_u16(x);
        }
        (x & 0x1ff) as usize
    }

    fn tile_number(&self) -> (r: usize)
        ensures
            r == self.tile(),
            r < 1024,
    {
        let tile: u16 = self.tile_low as u16 + 0x100 * self.tile_high as u16;
        proof {
            crate::bits::lemma_fields_u16(tile);
        }
        (tile & 0x3ff) as usize
    }
}

impl Ppu {
    pub(crate) fn control(&self) -> (r: u16)
        ensures
            r == self@.control(),
    {
        read_u16(&self.registers, 0)
    }

    fn bg_control(&self, layer: usize) -> (r: u16)
        requires
            layer < 4,
        ensures
            r == self@.bg_control(layer as int),
    {
        read_u16(&self.registers, 8 + layer * 2)
    }

    pub(crate) fn get_window(&self, x: usize, object_window: Option<&[u16; 240]>) -> (r: u8)
        requires
            x < 240,
        ensures
            r == self@.window(x as int, window_pixels(object_window)),
    {
        let control: u16 = self.control();
        if control >> 13 == 0 {
            return 0b11111;
        }
        let mut i: usize = 0;
        while i < 2
            invariant
                i <= 2,
                x < 240,
                control == self@.control(),
                i > 0 ==> !self@.in_window(0, x as int),
                i > 1 ==> !self@.in_window(1, x as int),
                control >> 13 != 0,
            decreases 2 - i,
        {
            if control.bit(13 + i as u16) {
                let offset: usize = 0x40 + i * 2;
                if self.registers[offset] > x as u8 && self.registers[offset + 1] <= x as u8
                    && self.registers[offset + 4] > self.line && self.registers[offset + 5]
                    <= self.line {
                    assert(self@.in_window(i as int, x as int));
                    return self.registers[0x48 + i];
                }
            }
            assert(!self@.in_window(i as int, x as int));
            i += 1;
        }
        if let Some(object_window) = object_window {
            if object_window[x] != EMPTY {
                return self.registers[0x4b];
            }
        }
        self.registers[0x4a]
    }

    fn mosaic(&self, value: usize, shift: u8) -> (r: usize)
        requires
            shift < 16,
        ensures
            r == self@.mosaic(value as int, shift as int),
            r <= value,
    {
        let register: u8 = self.registers[0x4c + (shift / 8) as usize];
        let field: u8 = (register >> (shift % 8)) & 0xf;
        proof {
            crate::bits::lemma_fields_u8(register >> (shift % 8));
            lemma_mod_decreases(value as nat, (field + 1) as nat);
        }
        value - value % (field + 1) as usize
    }

    fn pixel_from_tile(&self, tile_line: usize, tile_x: usize, palette: Option<u8>) -> (r: Option<
        u8,
    >)
        requires
            self@.well_formed(),
            tile_x < 8,
            tile_line < 0x20000,
            self@.pixel_index(tile_line as int, tile_x as int, palette) < 0x18000,
            palette is Some ==> palette->0 < 16,
        ensures
            r == self@.pixel_from_tile(tile_line as int, tile_x as int, palette),
    {
        match palette {
            Some(palette) => {
                let byte: u8 = self.vram[tile_line + tile_x / 2];
                let shifted: u8 = byte >> ((tile_x % 2 * 4) as u8);
                let pixel: u8 = shifted & 0b1111;
                proof {
                    crate::bits::lemma_fields_u8(shifted);
                }
                if pixel == 0 { None } else { Some(palette * 16 + pixel) }
            },
            None => {
                let index: u8 = self.vram[tile_line + tile_x];
                if index == 0 { None } else { Some(index) }
            },
        }
    }

    fn render_pixel(
        &self,
        rendered: &mut [u16; 240],
        x: usize,
        colour: u16,
        layer: u8,
        object_window: Option<&[u16; 240]>,
    )
        requires
            x < 240,
            layer < 8,
            !self@.window(x as int, window_pixels(object_window)).has_bit(5),
        ensures
            final(rendered)@ == old(rendered)@.update(
                x as int,
                drawn(
                    old(rendered)@[x as int],
                    colour,
                    layer,
                    self@.window(x as int, window_pixels(object_window)),
                ),
            ),
    {
        let window: u8 = self.get_window(x, object_window);
        if rendered[x] == EMPTY && window.bit(layer) {
            rendered[x] = colour;
        }
        assert(rendered@ =~= old(rendered)@.update(
            x as int,
            drawn(old(rendered)@[x as int], colour, layer, window),
        ));
    }

    fn colour_from_palette(&self, offset: usize, index: u8) -> (r: u16)
        requires
            offset <= 0x200,
        ensures
            r == self@.colour_from_palette(offset as int, index),
    {
        let palette_index: usize = offset + index as usize * 2;
        read_u16(&self.palettes, palette_index)
    }

    fn object_scaling(&self, object: Object, i: usize) -> (r: i32)
        requires
            i < 4,
        ensures
            r == self@.object_scaling(object, i as int),
            -0x8000 <= r <= 0x7fff,
    {
        let scaling_index: usize = ((object.size >> 1) & 0b11111) as usize;
        proof {
            crate::bits::lemma_fields_u8(object.size);
        }
        (read_u16(&self.oam, 6 + scaling_index * 32 + i * 8) as i16) as i32
    }

    /// Finds the place in an object that a column of it shows, if any.
    pub(crate) fn object_place(&self, object: Object, row: usize, column: usize) -> (r: Option<(usize, usize)>)
        requires
            self@.meets(object),
            column < object.outer_width(),
            row == self@.object_row(object),
            self@.mirrors_inside(object, column as int),
        ensures
            r is Some <==> self@.shows_object(object, column as int),
            r is Some ==> (r->0).0 == self@.object_place(object, column as int).0,
            r is Some ==> (r->0).1 == self@.object_place(object, column as int).1,
    {
        let (width, height) = object.dimensions_of();
        let (outer_width, outer_height) = object.outer_dimensions();
        let column: usize = self.object_column(object, column);
        proof {
            assert(row < 128);
        }
        if object.shape.bit(0) {
            let x1: i32 = column as i32 - (outer_width / 2) as i32;
            let y1: i32 = row as i32 - (outer_height / 2) as i32;
            let a: i32 = self.object_scaling(object, 0);
            let b: i32 = self.object_scaling(object, 1);
            let c: i32 = self.object_scaling(object, 2);
            let d: i32 = self.object_scaling(object, 3);
            proof {
                lemma_scaled_range(a, x1 as int, b, y1 as int);
                lemma_scaled_range(c, x1 as int, d, y1 as int);
            }
            let x: i32 = ((a * x1 + b * y1) >> 8) + (width / 2) as i32;
            let y: i32 = ((c * x1 + d * y1) >> 8) + (height / 2) as i32;
            if 0 <= x && x < width as i32 && 0 <= y && y < height as i32 {
                Some((y as usize, x as usize))
            } else {
                None
            }
        } else {
            let y: usize = if object.size.bit(5) { height - row - 1 } else { row };
            let x: usize = if object.size.bit(4) { width - column - 1 } else { column };
            if x < width && y < height { Some((y, x)) } else { None }
        }
    }
}

impl Ppu {
    /// Finds the palette entry that a column of an object shows, if any.
    pub(crate) fn object_pixel(&self, object: Object, row: usize, column: usize) -> (r: Option<u8>)
        requires
            self@.well_formed(),
            self@.meets(object),
            column < object.outer_width(),
            row == self@.object_row(object),
            self@.mirrors_inside(object, column as int),
            self@.shows_object(object, column as int) ==> self@.object_index(object, column as int)
                < 0x18000,
        ensures
            r == self@.object_pixel(object, column as int),
    {
        match self.object_place(object, row, column) {
            Some((y, x)) => {
                let (tile_line, palette) = self.object_tile_line(object, y, x);
                self.pixel_from_tile(tile_line, x % 8, palette)
            },
            None => None,
        }
    }

    /// Finds the tile row that a place in an object lies in, and the palette of
    /// the object.
    pub(crate) fn object_tile_line(&self, object: Object, y: usize, x: usize) -> (r: (usize, Option<u8>))
        requires
            y < object.height(),
            x < object.width(),
        ensures
            r.0 == self@.object_tile_line(object, y as int, x as int),
            r.1 == self@.object_palette(object),
            r.0 < 0x20000,
            r.1 is Some ==> r.1->0 < 16,
    {
        let (width, height) = object.dimensions_of();
        let stride: usize = if self.control().bit(6) { width / 8 } else { 0x20 };
        proof {
            assert(0 <= y / 8 * stride <= 8 * 0x20) by (nonlinear_arith)
                requires
                    y < 64,
                    stride <= 0x20,
            ;
            crate::bits::lemma_fields_u8(object.tile_high);
        }
        let first: usize = (object.tile_number() + y / 8 * stride) % 1024;
        if object.shape.bit(5) {
            (0x10000 + first * 32 + x / 8 * 64 + y % 8 * 8, None)
        } else {
            (0x10000 + first * 32 + x / 8 * 32 + y % 8 * 4, Some(object.tile_high >> 4))
        }
    }

    pub(crate) fn object_row(&self, object: Object) -> (r: usize)
        ensures
            r == self@.object_row(object),
    {
        let object_y: usize = self.line.wrapping_sub(object.y) as usize;
        if object.shape.bit(4) { self.mosaic(object_y, 8) } else { object_y }
    }

    pub(crate) fn object_column(&self, object: Object, column: usize) -> (r: usize)
        ensures
            r == self@.object_column(object, column as int),
            r <= column,
    {
        if object.shape.bit(4) { self.mosaic(column, 12) } else { column }
    }

    fn render_object(
        &self,
        object: Object,
        object_window: Option<&[u16; 240]>,
        rendered: &mut [u16; 240],
    )
        requires
            self@.well_formed(),
            self@.object_drawable(object, window_pixels(object_window)),
        ensures
            final(rendered)@ == self@.object_drawn(
                old(rendered)@,
                object,
                window_pixels(object_window),
            ),
    {
        let ghost before = rendered@;
        let ghost window = window_pixels(object_window);
        let ghost target = self@.object_drawn(before, object, window);
        let (outer_width, outer_height) = object.outer_dimensions();
        if self.line.wrapping_sub(object.y) as usize >= outer_height {
            assert(rendered@ =~= target);
            return;
        }
        let row: usize = self.object_row(object);
        let left: usize = object.left_column();
        let mut column: usize = 0;
        assert(rendered@ =~= partly_drawn(before, target, object, 0)) by {
            assert forall|x: int| 0 <= x < 240 implies object.column(x) >= 0 by {}
        }
        while column < outer_width
            invariant
                column <= outer_width,
                outer_width == object.outer_width(),
                outer_width <= 128,
                left == object.left(),
                row == self@.object_row(object),
                self@.well_formed(),
                self@.meets(object),
                self@.object_drawable(object, window),
                window == window_pixels(object_window),
                target == self@.object_drawn(before, object, window),
                before.len() == 240,
                rendered@ == partly_drawn(before, target, object, column as int),
            decreases outer_width - column,
        {
            let x: usize = (left + column) % 512;
            assert(self@.column_drawable(object, column as int, window));
            let ghost so_far = rendered@;
            proof {
                assert forall|y: int| 0 <= y < 240 implies (object.column(y) == column) == (y == x)
                    by {
                    lemma_column(object, column as int, y);
                }
            }
            if x < 240 {
                match self.object_pixel(object, row, column) {
                    Some(colour) => {
                        self.render_pixel(
                            rendered,
                            x,
                            self.colour_from_palette(0x200, colour),
                            4,
                            object_window,
                        );
                    },
                    None => {},
                }
                assert(so_far[x as int] == before[x as int]);
                assert(rendered@[x as int] == target[x as int]);
            }
            assert(rendered@ =~= partly_drawn(before, target, object, column + 1));
            column += 1;
        }
        assert(rendered@ =~= target);
    }

    fn render_objects(
        &self,
        objects: &mut Vec<Object>,
        max_priority: u8,
        object_window: Option<&[u16; 240]>,
        rendered: &mut [u16; 240],
    )
        requires
            self@.well_formed(),
            forall|i: int|
                0 <= i < leading(old(objects)@, max_priority) ==> self@.object_drawable(
                    #[trigger] old(objects)@[i],
                    window_pixels(object_window),
                ),
        ensures
            final(rendered)@ == self@.objects_drawn(
                old(rendered)@,
                old(objects)@,
                window_pixels(object_window),
                leading(old(objects)@, max_priority),
            ),
            final(objects)@ == old(objects)@.skip(leading(old(objects)@, max_priority) as int),
    {
        let mut end: usize = objects.len();
        assert(objects@.take(end as int) =~= objects@);
        while end > 0 && objects[end - 1].priority > max_priority
            invariant
                end <= objects@.len(),
                objects@ == old(objects)@,
                leading(objects@.take(end as int), max_priority) == leading(objects@, max_priority),
            ensures
                end <= objects@.len(),
                end == leading(objects@, max_priority),
            decreases end,
        {
            proof {
                let part = objects@.take(end as int);
                assert(part.drop_last() =~= objects@.take(end - 1));
                assert(part.last() == objects@[end - 1]);
            }
            end -= 1;
        }
        let mut i: usize = 0;
        while i < end
            invariant
                i <= end <= objects@.len(),
                objects@ == old(objects)@,
                self@.well_formed(),
                forall|j: int|
                    0 <= j < end ==> self@.object_drawable(
                        #[trigger] objects@[j],
                        window_pixels(object_window),
                    ),
                rendered@ == self@.objects_drawn(
                    old(rendered)@,
                    objects@,
                    window_pixels(object_window),
                    i as nat,
                ),
            decreases end - i,
        {
            let object: Object = objects[i];
            self.render_object(object, object_window, rendered);
            i += 1;
        }
        let rest = objects.split_off(end);
        *objects = rest;
        assert(objects@ =~= old(objects)@.skip(end as int));
    }
}

/// A line to which the columns of an object before `end` have been drawn.
spec fn partly_drawn(before: Seq<u16>, target: Seq<u16>, object: Object, end: int) -> Seq<u16> {
    Seq::new(240, |x: int| if object.column(x) < end { target[x] } else { before[x] })
}

impl Ppu {
    fn scaling_data(&self, layer: usize) -> (r: ScalingData)
        requires
            2 <= layer < 4,
        ensures
            r == self@.scaling_data(layer as int),
    {
        let start: usize = 0x10 * layer;
        ScalingData {
            scroll_y: self.reference_points[2 * (layer - 2) + 1],
            scroll_x: self.reference_points[2 * (layer - 2)],
            xx: (read_u16(&self.registers, start) as i16) as i64,
            xy: (read_u16(&self.registers, start + 2) as i16) as i64,
            yx: (read_u16(&self.registers, start + 4) as i16) as i64,
            yy: (read_u16(&self.registers, start + 6) as i16) as i64,
        }
    }

    /// Moves the reference point of a scaled background to the next line.
    fn advance_reference_point(&mut self, layer: usize)
        requires
            2 <= layer < 4,
            forall|i: int|
                0 <= i < 4 ==> -0x1000_0000 <= #[trigger] old(self)@.reference_points[i]
                    <= 0x1000_0000,
        ensures
            final(self)@ == (PpuState {
                reference_points: old(self)@.advanced(layer as int),
                ..old(self)@
            }),
    {
        let data: ScalingData = self.scaling_data(layer);
        assert(-0x1000_0000 <= self@.reference_points[2 * (layer - 2)] <= 0x1000_0000);
        assert(-0x1000_0000 <= self@.reference_points[2 * (layer - 2) + 1] <= 0x1000_0000);
        self.reference_points[2 * (layer - 2)] = data.scroll_x + data.xy;
        self.reference_points[2 * (layer - 2) + 1] = data.scroll_y + data.yy;
    }

    /// Finds the palette entry of a pixel of a background tile.
    fn bg_tile_pixel(
        &self,
        layer: usize,
        tile: usize,
        row: usize,
        column: usize,
        palette: Option<u8>,
    ) -> (r: Option<u8>)
        requires
            self@.well_formed(),
            layer < 4,
            tile < 1024,
            row < 8,
            column < 8,
            palette is Some ==> palette->0 < 16,
        ensures
            r == self@.bg_tile_pixel(
                layer as int,
                tile as int,
                row as int,
                column as int,
                palette,
            ),
    {
        let control: u16 = self.bg_control(layer);
        proof {
            crate::bits::lemma_fields_u16(control);
        }
        let tile_offset: usize = 0x4000 * ((control >> 2) & 0b11) as usize;
        let tile_line: usize = match palette {
            Some(_) => tile_offset + tile * 32 + row * 4,
            None => tile_offset + tile * 64 + row * 8,
        };
        if tile_line >= 0x10000 {
            // These tiles belong to the objects.
            None
        } else {
            self.pixel_from_tile(tile_line, column, palette)
        }
    }

    fn bg_column(&self, layer: usize, x: usize) -> (r: usize)
        requires
            layer < 4,
        ensures
            r == self@.bg_column(layer as int, x as int),
            r <= x,
    {
        if self.bg_control(layer).bit(6) { self.mosaic(x, 4) } else { x }
    }

    /// Finds the palette entry that a scrolled background has at a column.
    fn text_pixel(&self, layer: usize, x: usize) -> (r: Option<u8>)
        requires
            self@.well_formed(),
            layer < 4,
            x < 240,
        ensures
            r == self@.text_pixel(layer as int, x as int),
    {
        let control: u16 = self.bg_control(layer);
        let y: usize = self.line as usize;
        let y: usize = if control.bit(6) { self.mosaic(y, 0) } else { y };
        let scroll_x: u16 = read_u16(&self.registers, 0x10 + layer * 4);
        let scroll_y: u16 = read_u16(&self.registers, 0x12 + layer * 4);
        proof {
            crate::bits::lemma_fields_u16(control);
            crate::bits::lemma_fields_u16(scroll_x);
            crate::bits::lemma_fields_u16(scroll_y);
        }
        let column: usize = self.bg_column(layer, x) + (scroll_x & 0x1ff) as usize;
        let row: usize = y + (scroll_y & 0x1ff) as usize;
        let mut area_index: usize = 0;
        if control.bit(14) && column % 512 >= 256 {
            area_index += 1;
        }
        if control.bit(15) && row % 512 >= 256 {
            area_index += 2;
        }
        let map_offset: usize = 0x800 * ((control >> 8) & 0b11111) as usize;
        let entry: u16 = read_u16(
            self.vram.as_slice(),
            map_offset + area_index * 0x800 + row % 256 / 8 * 64 + column % 256 / 8 * 2,
        );
        proof {
            crate::bits::lemma_fields_u16(entry);
        }
        self.bg_tile_pixel(
            layer,
            (entry & 0x3ff) as usize,
            if entry.bit(11) { 7 - row % 8 } else { row % 8 },
            if entry.bit(10) { 7 - column % 8 } else { column % 8 },
            if control.bit(7) { None } else { Some((entry >> 12) as u8) },
        )
    }

    /// Finds the palette entry that a scaled background has at a column.
    fn scaled_pixel(&self, layer: usize, x: usize) -> (r: Option<u8>)
        requires
            self@.well_formed(),
            2 <= layer < 4,
            x < 240,
        ensures
            r == self@.scaled_pixel(layer as int, x as int),
    {
        let control: u16 = self.bg_control(layer);
        let size: usize = match control >> 14 {
            0 => 16,
            1 => 32,
            2 => 64,
            _ => 128,
        };
        let pixels: u64 = 8 * size as u64;
        assert(-0x1000_0000 <= self@.reference_points[2 * (layer - 2)] <= 0x1000_0000);
        assert(-0x1000_0000 <= self@.reference_points[2 * (layer - 2) + 1] <= 0x1000_0000);
        let column: usize = self.bg_column(layer, x);
        let data: ScalingData = self.scaling_data(layer);
        proof {
            lemma_transform_range(column, data);
        }
        let (row, column) = transform_bg(column, data);
        if control.bit(13) {
            self.scaled_place_pixel(layer, size, (row % pixels) as usize, (column % pixels) as usize)
        } else if column < pixels && row < pixels {
            self.scaled_place_pixel(layer, size, row as usize, column as usize)
        } else {
            None
        }
    }

    fn scaled_place_pixel(&self, layer: usize, size: usize, row: usize, column: usize) -> (r: Option<
        u8,
    >)
        requires
            self@.well_formed(),
            2 <= layer < 4,
            size == self@.scaled_tiles(layer as int),
            row < 8 * size,
            column < 8 * size,
        ensures
            r == self@.scaled_place_pixel(layer as int, row as int, column as int),
    {
        let control: u16 = self.bg_control(layer);
        proof {
            crate::bits::lemma_fields_u16(control);
            assert(0 <= row / 8 * size <= 127 * 128) by (nonlinear_arith)
                requires
                    row < 8 * size,
                    size <= 128,
            ;
        }
        let map_offset: usize = 0x800 * ((control >> 8) & 0b11111) as usize;
        let tile: usize = self.vram[map_offset + row / 8 * size + column / 8] as usize;
        self.bg_tile_pixel(layer, tile, row % 8, column % 8, None)
    }

    /// Finds the colour that the bitmap has at a column.
    fn bitmap_colour(&self, x: usize) -> (r: Option<u16>)
        requires
            self@.well_formed(),
            self@.mode() < 6,
            x < 240,
        ensures
            r == self@.bitmap_colour(x as int),
    {
        let control: u16 = self.control();
        let mode: u16 = control & 0b111;
        let offset: usize = if mode > 3 && control.bit(4) { 0xa000 } else { 0 };
        let width: u64 = if mode == 5 { 160 } else { 240 };
        let height: u64 = if mode == 5 { 128 } else { 160 };
        assert(-0x1000_0000 <= self@.reference_points[0] <= 0x1000_0000);
        assert(-0x1000_0000 <= self@.reference_points[1] <= 0x1000_0000);
        let data: ScalingData = self.scaling_data(2);
        proof {
            lemma_transform_range(x, data);
        }
        let (row, column) = transform_bg(x, data);
        if column < width && row < height {
            assert(row * width <= 159 * 240 && row * width >= 0) by (nonlinear_arith)
                requires
                    row < 160,
                    width <= 240,
            ;
            assert(mode == 5 ==> row * width <= 127 * 160) by (nonlinear_arith)
                requires
                    mode == 5 ==> row < 128 && width <= 160,
            ;
            let index: usize = (row * width + column) as usize;
            Some(
                if mode == 4 {
                    self.colour_from_palette(0, self.vram[offset + index])
                } else {
                    read_u16(self.vram.as_slice(), offset + index * 2)
                },
            )
        } else {
            None
        }
    }

    /// Finds the colour that a background has at a column.
    pub(crate) fn layer_colour(&self, layer: usize, x: usize) -> (r: Option<u16>)
        requires
            self@.well_formed(),
            layer < 4,
            self@.mode() < 6,
            self@.is_scaled(layer as int) ==> layer >= 2,
            x < 240,
        ensures
            r == self@.layer_colour(layer as int, x as int),
    {
        let mode: u16 = self.control() & 0b111;
        if mode >= 3 {
            return self.bitmap_colour(x);
        }
        let pixel: Option<u8> = if mode == 2 || (mode == 1 && layer == 2) {
            self.scaled_pixel(layer, x)
        } else {
            self.text_pixel(layer, x)
        };
        match pixel {
            Some(index) => Some(self.colour_from_palette(0, index)),
            None => None,
        }
    }

    fn render_layer(
        &self,
        layer: usize,
        object_window: Option<&[u16; 240]>,
        rendered: &mut [u16; 240],
    )
        requires
            self@.well_formed(),
            layer < 4,
            self@.mode() < 6,
            self@.is_scaled(layer as int) ==> layer >= 2,
            self@.layer_drawable(layer as int, window_pixels(object_window)),
        ensures
            final(rendered)@ == self@.layer_drawn(
                old(rendered)@,
                layer as int,
                window_pixels(object_window),
            ),
    {
        let ghost before = rendered@;
        let ghost target = self@.layer_drawn(before, layer as int, window_pixels(object_window));
        let mut x: usize = 0;
        while x < 240
            invariant
                x <= 240,
                self@.well_formed(),
                layer < 4,
                self@.mode() < 6,
                self@.is_scaled(layer as int) ==> layer >= 2,
                self@.layer_drawable(layer as int, window_pixels(object_window)),
                before.len() == 240,
                target == self@.layer_drawn(before, layer as int, window_pixels(object_window)),
                rendered@ == target.take(x as int) + before.skip(x as int),
            decreases 240 - x,
        {
            match self.layer_colour(layer, x) {
                Some(colour) => {
                    self.render_pixel(rendered, x, colour, layer as u8, object_window);
                },
                None => {},
            }
            assert(rendered@ =~= target.take(x + 1) + before.skip(x + 1));
            x += 1;
        }
        assert(rendered@ =~= target);
    }
}

/// Puts objects in the order in which they are drawn.
pub(crate) fn sort_objects(objects: &Vec<Object>) -> (r: Vec<Object>)
    ensures
        r@ == with_priority(objects@, 0, objects@.len()) + with_priority(
            objects@,
            1,
            objects@.len(),
        ) + with_priority(objects@, 2, objects@.len()) + with_priority(objects@, 3, objects@.len()),
{
    let mut sorted: Vec<Object> = Vec::new();
    push_with_priority(objects, 0, &mut sorted);
    push_with_priority(objects, 1, &mut sorted);
    push_with_priority(objects, 2, &mut sorted);
    push_with_priority(objects, 3, &mut sorted);
    assert(sorted@ =~= with_priority(objects@, 0, objects@.len()) + with_priority(
        objects@,
        1,
        objects@.len(),
    ) + with_priority(objects@, 2, objects@.len()) + with_priority(objects@, 3, objects@.len()));
    sorted
}

/// Appends the objects of a priority.
fn push_with_priority(objects: &Vec<Object>, priority: u8, sorted: &mut Vec<Object>)
    ensures
        final(sorted)@ == old(sorted)@ + with_priority(
            objects@,
            priority as int,
            objects@.len(),
        ),
{
    let mut i: usize = 0;
    assert(sorted@ =~= old(sorted)@ + with_priority(objects@, priority as int, 0));
    while i < objects.len()
        invariant
            i <= objects@.len(),
            sorted@ == old(sorted)@ + with_priority(objects@, priority as int, i as nat),
        decreases objects@.len() - i,
    {
        if objects[i].priority == priority {
            sorted.push(objects[i]);
        }
        i += 1;
        assert(sorted@ =~= old(sorted)@ + with_priority(objects@, priority as int, i as nat));
    }
}

/// Whether a list of numbers is this sequence.
spec fn same_layers(list: Seq<usize>, layers: Seq<int>) -> bool {
    list.len() == layers.len() && forall|i: int|
        0 <= i < list.len() ==> #[trigger] list[i] == layers[i]
}

impl Ppu {
    fn object(&self, i: usize) -> (r: Object)
        requires
            i < 128,
        ensures
            r == self@.object(i as int),
    {
        Object {
            y: self.oam[8 * i],
            shape: self.oam[8 * i + 1],
            x_low: self.oam[8 * i + 2],
            size: self.oam[8 * i + 3],
            tile_low: self.oam[8 * i + 4],
            tile_high: self.oam[8 * i + 5],
            priority: (self.oam[8 * i + 5] >> 2) & 0b11,
        }
    }

    /// Lists the objects that are considered and do or do not make up the
    /// object window.
    pub(crate) fn objects(&self, windows: bool) -> (r: Vec<Object>)
        ensures
            r@ == self@.selected(windows, 128),
    {
        let mode: u16 = self.control() & 0b111;
        let mut objects: Vec<Object> = Vec::new();
        let mut i: usize = 0;
        while i < 128
            invariant
                i <= 128,
                mode == self@.mode(),
                objects@ == self@.selected(windows, i as nat),
            decreases 128 - i,
        {
            let object: Object = self.object(i);
            if (object.shape & 0b11 != 0b10 && mode < 3) || object.tile_number() >= 512 {
                if ((object.shape >> 2) & 0b11 == 0b10) == windows {
                    objects.push(object);
                }
            }
            i += 1;
        }
        objects
    }

    pub(crate) fn shows_layer(&self, layer: usize) -> (r: bool)
        requires
            layer < 4,
        ensures
            r == self@.shows_layer(layer as int),
    {
        let control: u16 = self.control();
        let mode: u16 = control & 0b111;
        control.bit(8 + layer as u16) && if mode >= 3 {
            layer == 2
        } else {
            layer == 2 || (layer < 2 && mode != 2) || (layer == 3 && mode == 2)
        }
    }

    fn push_layers(&self, priority: u8, layers: &mut Vec<usize>, Ghost(before): Ghost<Seq<int>>)
        requires
            same_layers(old(layers)@, before),
        ensures
            same_layers(
                final(layers)@,
                before + self@.layers_with(priority as int, 4),
            ),
    {
        let mut layer: usize = 0;
        assert(before + self@.layers_with(priority as int, 0) =~= before);
        while layer < 4
            invariant
                layer <= 4,
                same_layers(layers@, before + self@.layers_with(priority as int, layer as nat)),
            decreases 4 - layer,
        {
            let ghost so_far = before + self@.layers_with(priority as int, layer as nat);
            if self.shows_layer(layer) && (self.bg_control(layer) & 0b11) as u8 == priority {
                layers.push(layer);
                assert(before + self@.layers_with(priority as int, (layer + 1) as nat)
                    =~= so_far.push(layer as int));
            }
            layer += 1;
        }
    }

    /// Lists the shown backgrounds in the order in which they are drawn.
    fn layers(&self) -> (r: Vec<usize>)
        ensures
            same_layers(r@, self@.layers()),
    {
        let mut layers: Vec<usize> = Vec::new();
        let ghost none = Seq::<int>::empty();
        let ghost first = self@.layers_with(0, 4);
        let ghost second = first + self@.layers_with(1, 4);
        let ghost third = second + self@.layers_with(2, 4);
        self.push_layers(0, &mut layers, Ghost(none));
        assert(none + first =~= first);
        self.push_layers(1, &mut layers, Ghost(first));
        self.push_layers(2, &mut layers, Ghost(second));
        self.push_layers(3, &mut layers, Ghost(third));
        layers
    }
}

/// Every drawn background is shown.
pub(crate) proof fn lemma_layers(state: PpuState, i: int)
    requires
        0 <= i < state.layers().len(),
    ensures
        0 <= state.layers()[i] < 4,
        state.shows_layer(state.layers()[i]),
{
    let a = state.layers_with(0, 4);
    let b = state.layers_with(1, 4);
    let c = state.layers_with(2, 4);
    let d = state.layers_with(3, 4);
    lemma_layers_with(state, 0, 4);
    lemma_layers_with(state, 1, 4);
    lemma_layers_with(state, 2, 4);
    lemma_layers_with(state, 3, 4);
    if i < a.len() {
        assert(a.contains(a[i]));
    } else if i < a.len() + b.len() {
        assert(b.contains(b[i - a.len()]));
    } else if i < a.len() + b.len() + c.len() {
        assert(c.contains(c[i - a.len() - b.len()]));
    } else {
        assert(d.contains(d[i - a.len() - b.len() - c.len()]));
    }
}

impl Ppu {
    /// Draws the object window, where it is used.
    pub(crate) fn render_object_window(&self) -> (r: Option<[u16; 240]>)
        requires
            self@.well_formed(),
            self@.window_drawable(),
        ensures
            match r {
                Some(pixels) => self@.object_window() == Some(pixels@),
                None => self@.object_window() is None,
            },
    {
        if self.control().bit(15) {
            let mut window: [u16; 240] = [EMPTY; 240];
            assert(window@ =~= blank_line());
            let mut objects = self.objects(true);
            proof {
                lemma_leading(objects@, 4);
            }
            self.render_objects(&mut objects, 4, None, &mut window);
            Some(window)
        } else {
            None
        }
    }

    /// Draws all backgrounds and objects of the line.
    fn compose_line(&self) -> (rendered: [u16; 240])
        requires
            self@.well_formed(),
            !self@.is_blanked(),
            self@.line_drawable(),
        ensures
            rendered@ == self@.composed_line(),
    {
        let drawn_window: Option<[u16; 240]> = self.render_object_window();
        let object_window: Option<&[u16; 240]> = match &drawn_window {
            Some(pixels) => Some(pixels),
            None => None,
        };
        assert(window_pixels(object_window) == self@.object_window());
        let mut objects: Vec<Object> = if self.control().bit(12) {
            let unsorted = self.objects(false);
            sort_objects(&unsorted)
        } else {
            Vec::new()
        };
        assert(objects@ =~= self@.shown_objects());
        let mut rendered: [u16; 240] = [EMPTY; 240];
        assert(rendered@ =~= blank_line());
        let layers: Vec<usize> = self.layers();
        let ghost window = self@.object_window();
        let mut i: usize = 0;
        while i < layers.len()
            invariant
                i <= layers@.len(),
                same_layers(layers@, self@.layers()),
                self@.well_formed(),
                self@.mode() < 6,
                window == self@.object_window(),
                window == window_pixels(object_window),
                (rendered@, objects@) == self@.composed(i as nat),
                forall|j: int|
                    0 <= j < objects@.len() ==> self@.object_drawable(
                        #[trigger] objects@[j],
                        window,
                    ),
                forall|layer: int|
                    0 <= layer < 4 && #[trigger] self@.shows_layer(layer) ==> self@.layer_drawable(
                        layer,
                        window,
                    ),
            decreases layers@.len() - i,
        {
            let layer: usize = layers[i];
            proof {
                lemma_layers(self@, i as int);
                assert(layer == self@.layers()[i as int]);
                assert(self@.shows_layer(layer as int));
                assert(self@.layer_drawable(layer as int, window));
            }
            let priority: u8 = (self.bg_control(layer) & 0b11) as u8;
            proof {
                lemma_leading(objects@, priority);
            }
            self.render_objects(&mut objects, priority, object_window, &mut rendered);
            self.render_layer(layer, object_window, &mut rendered);
            i += 1;
        }
        proof {
            lemma_leading(objects@, 4);
        }
        self.render_objects(&mut objects, 4, object_window, &mut rendered);
        rendered
    }

    /// Shows the current line: its pixels, or `None` where it is blanked.
    pub fn render_line(&mut self) -> (pixels: Option<Vec<u8>>)
        requires
            old(self)@.well_formed(),
            old(self)@.line_drawable(),
        ensures
            final(self)@ == old(self)@.line_shown(),
            pixels is None <==> old(self)@.is_blanked(),
            pixels is Some ==> (pixels->0)@ == old(self)@.line_bytes(),
    {
        let ghost state = self@;
        let control: u16 = self.control();
        if control.bit(7) {
            return None;
        }
        let rendered: [u16; 240] = self.compose_line();
        let default_colour: u16 = self.colour_from_palette(0, 0);
        let mut pixels: Vec<u8> = Vec::new();
        let mut x: usize = 0;
        while x < 240
            invariant
                x <= 240,
                rendered@ == state.composed_line(),
                default_colour == state.colour_from_palette(0, 0),
                pixels@ == state.line_bytes().take(2 * x as int),
            decreases 240 - x,
        {
            let colour: u16 = if rendered[x] == EMPTY { default_colour } else { rendered[x] };
            assert(colour == state.shown_colour(x as int));
            pixels.push((colour % 0x100) as u8);
            pixels.push((colour / 0x100) as u8);
            x += 1;
            assert(pixels@ =~= state.line_bytes().take(2 * x as int));
        }
        assert(pixels@ =~= state.line_bytes());
        let mode: u16 = control & 0b111;
        assert forall|i: int| 0 <= i < 4 implies -0xf00_0000 <= #[trigger] state.reference_points[i]
            <= 0xf00_0000 by {
            assert(-state.reach() <= state.reference_points[i] <= state.reach());
        }
        if self.shows_layer(2) && (mode >= 3 || mode == 2 || mode == 1) {
            self.advance_reference_point(2);
        }
        if self.shows_layer(3) && mode == 2 {
            self.advance_reference_point(3);
        }
        Some(pixels)
    }
}

} // verus!
