//! Finding out whether a line can be drawn before it is.

use crate::bits::Bits;
use crate::ppu::model::{Object, SCREEN_HEIGHT};
use crate::ppu::render::{sort_objects, window_pixels};
use crate::ppu::Ppu;
use vstd::prelude::*;

verus! {

impl Ppu {
    fn can_draw_column(
        &self,
        object: Object,
        row: usize,
        column: usize,
        object_window: Option<&[u16; 240]>,
    ) -> (r: bool)
        requires
            self@.well_formed(),
            self@.meets(object),
            column < object.outer_width(),
            row == self@.object_row(object),
        ensures
            r == self@.column_drawable(object, column as int, window_pixels(object_window)),
    {
        let x: usize = (object.left_column() + column) % 512;
        if x >= 240 {
            return true;
        }
        let (width, height) = object.dimensions_of();
        if !object.shape.bit(0) {
            if object.size.bit(5) && row >= height {
                return false;
            }
            if object.size.bit(4) && self.object_column(object, column) >= width {
                return false;
            }
        }
        match self.object_place(object, row, column) {
            Some((y, x)) => {
                let (tile_line, palette) = self.object_tile_line(object, y, x);
                let index: usize = match palette {
                    Some(_) => tile_line + x % 8 / 2,
                    None => tile_line + x % 8,
                };
                if index >= 0x18000 {
                    return false;
                }
            },
            None => {},
        }
        match self.object_pixel(object, row, column) {
            Some(_) => !self.get_window(x, object_window).bit(5),
            None => true,
        }
    }

    fn can_draw_object(&self, object: Object, object_window: Option<&[u16; 240]>) -> (r: bool)
        requires
            self@.well_formed(),
        ensures
            r == self@.object_drawable(object, window_pixels(object_window)),
    {
        let (outer_width, outer_height) = object.outer_dimensions();
        if self.line.wrapping_sub(object.y) as usize >= outer_height {
            return true;
        }
        if (object.shape >> 2) & 0b11 != 0 {
            return false;
        }
        let row: usize = self.object_row(object);
        let mut column: usize = 0;
        while column < outer_width
            invariant
                self@.well_formed(),
                self@.meets(object),
                row == self@.object_row(object),
                outer_width == object.outer_width(),
                forall|i: int|
                    0 <= i < column ==> #[trigger] self@.column_drawable(
                        object,
                        i,
                        window_pixels(object_window),
                    ),
            decreases outer_width - column,
        {
            if !self.can_draw_column(object, row, column, object_window) {
                return false;
            }
            column += 1;
        }
        true
    }

    fn can_draw_objects(&self, objects: &Vec<Object>, object_window: Option<&[u16; 240]>) -> (r: bool)
        requires
            self@.well_formed(),
        ensures
            r == forall|i: int|
                0 <= i < objects@.len() ==> self@.object_drawable(
                    #[trigger] objects@[i],
                    window_pixels(object_window),
                ),
    {
        let mut i: usize = 0;
        while i < objects.len()
            invariant
                self@.well_formed(),
                i <= objects@.len(),
                forall|j: int|
                    0 <= j < i ==> self@.object_drawable(
                        #[trigger] objects@[j],
                        window_pixels(object_window),
                    ),
            decreases objects@.len() - i,
        {
            if !self.can_draw_object(objects[i], object_window) {
                assert(!self@.object_drawable(objects@[i as int], window_pixels(object_window)));
                return false;
            }
            i += 1;
        }
        true
    }

    fn can_draw_layer(&self, layer: usize, object_window: Option<&[u16; 240]>) -> (r: bool)
        requires
            self@.well_formed(),
            layer < 4,
            self@.mode() < 6,
            self@.is_scaled(layer as int) ==> layer >= 2,
        ensures
            r == self@.layer_drawable(layer as int, window_pixels(object_window)),
    {
        let mut x: usize = 0;
        while x < 240
            invariant
                self@.well_formed(),
                layer < 4,
                x <= 240,
                self@.mode() < 6,
                self@.is_scaled(layer as int) ==> layer >= 2,
                forall|i: int|
                    0 <= i < x && #[trigger] self@.layer_colour(layer as int, i) is Some
                        ==> !self@.window(i, window_pixels(object_window)).has_bit(5),
            decreases 240 - x,
        {
            if self.layer_colour(layer, x).is_some() && self.get_window(x, object_window).bit(5) {
                assert(self@.layer_colour(layer as int, x as int) is Some);
                return false;
            }
            x += 1;
        }
        true
    }

    /// Tells whether the current line can be shown.
    pub fn can_render_line(&self) -> (r: bool)
        requires
            self@.well_formed(),
        ensures
            r == self@.line_drawable(),
    {
        let control: u16 = self.control();
        if control.bit(7) {
            return true;
        }
        if control & 0b111 >= 6 {
            return false;
        }
        if control.bit(15) {
            let objects = self.objects(true);
            if !self.can_draw_objects(&objects, None) {
                return false;
            }
        }
        let drawn_window: Option<[u16; 240]> = self.render_object_window();
        let object_window: Option<&[u16; 240]> = match &drawn_window {
            Some(pixels) => Some(pixels),
            None => None,
        };
        assert(window_pixels(object_window) == self@.object_window());
        let ghost window = self@.object_window();
        if control.bit(12) {
            let unsorted = self.objects(false);
            let objects = sort_objects(&unsorted);
            assert(objects@ == self@.shown_objects());
            if !self.can_draw_objects(&objects, object_window) {
                return false;
            }
        }
        let mut layer: usize = 0;
        while layer < 4
            invariant
                layer <= 4,
                self@.well_formed(),
                self@.mode() < 6,
                window == window_pixels(object_window),
                forall|i: int|
                    0 <= i < layer && #[trigger] self@.shows_layer(i) ==> self@.layer_drawable(
                        i,
                        window,
                    ),
                window == self@.object_window(),
                !self@.is_blanked(),
            decreases 4 - layer,
        {
            if self.shows_layer(layer) {
                if !self.can_draw_layer(layer, object_window) {
                    assert(self@.shows_layer(layer as int));
                    assert(!self@.layers_drawable());
                    return false;
                }
            }
            layer += 1;
        }
        true
    }

    /// Tells whether the next cycle can be run.
    pub fn can_step(&self) -> (r: bool)
        requires
            self@.well_formed(),
        ensures
            r == self@.can_step(),
    {
        if self.wait_cycles > 0 || self.hblank || self.line >= SCREEN_HEIGHT {
            true
        } else {
            self.can_render_line()
        }
    }
}

} // verus!
