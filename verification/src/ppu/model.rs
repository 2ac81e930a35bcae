//! What the picture unit shows, as functions of its state.

use crate::bits::{le16, le32, le_bytes, Bits};
use crate::interrupts::requested;
use vstd::prelude::*;

verus! {

/// The width of the screen in pixels.
pub const SCREEN_WIDTH: usize = 240;

/// The height of the screen in pixels.
pub const SCREEN_HEIGHT: u8 = 160;

/// The number of lines that pass between two pictures.
pub const VBLANK_LINES: u8 = 68;

/// The number of lines of a picture and the pause after it.
pub const TOTAL_LINES: u8 = SCREEN_HEIGHT + VBLANK_LINES;

/// The number of cycles in which a line is shown.
pub const RENDER_CYCLES: u16 = 1004;

/// The number of cycles that pass between two lines.
pub const HBLANK_CYCLES: u16 = 228;

/// The number of cycles of a line and the pause after it.
pub const LINE_CYCLES: u16 = RENDER_CYCLES + HBLANK_CYCLES;

/// The colour of a pixel that nothing has been drawn to.
pub const EMPTY: u16 = 0xffff;

/// What the picture unit holds.
#[verifier::ext_equal]
pub struct PpuState {
    pub line: u8,
    pub hblank: bool,
    pub wait_cycles: u16,
    pub palettes: Seq<u8>,
    pub vram: Seq<u8>,
    pub registers: Seq<u8>,
    pub oam: Seq<u8>,
    pub reference_points: Seq<i64>,
}

/// How a scaled background is placed on a line: where the line starts, and how
/// far one pixel and one line lead.
#[derive(Clone, Copy)]
pub struct ScalingData {
    pub scroll_y: i64,
    pub scroll_x: i64,
    /// The step in x for each pixel.
    pub xx: i64,
    /// The step in x for each line.
    pub xy: i64,
    /// The step in y for each pixel.
    pub yx: i64,
    /// The step in y for each line.
    pub yy: i64,
}

/// An object: the six bytes that describe it, and its priority.
#[derive(Clone, Copy)]
pub struct Object {
    pub y: u8,
    pub shape: u8,
    pub x_low: u8,
    pub size: u8,
    pub tile_low: u8,
    pub tile_high: u8,
    pub priority: u8,
}

/// Where a pixel at column `x` of the screen lies on a scaled background, in
/// whole pixels. A place left of or above the background has a huge
/// coordinate.
pub open spec fn transformed(x: int, data: ScalingData) -> (u64, u64) {
    (
        (((data.yx * x + data.scroll_y) as i64) >> 8) as u64,
        (((data.xx * x + data.scroll_x) as i64) >> 8) as u64,
    )
}

/// The colour of a pixel after another colour has been drawn to it: what is
/// drawn first stays, and a window hides the layers whose bit it has clear.
pub open spec fn drawn(pixel: u16, colour: u16, layer: u8, window: u8) -> u16 {
    if pixel == EMPTY && window.has_bit(layer) { colour } else { pixel }
}

/// A line to which nothing has been drawn.
pub open spec fn blank_line() -> Seq<u16> {
    Seq::new(240, |x: int| EMPTY)
}

impl Object {
    /// The kind of the object: 0 for a normal one, 2 for one that makes up the
    /// object window.
    pub open spec fn kind(self) -> u8 {
        (self.shape >> 2) & 0b11
    }

    /// The width and height in pixels.
    pub open spec fn dimensions(self) -> (int, int) {
        let size = self.size >> 6;
        let shape = self.shape >> 6;
        if shape > 0 {
            let (larger, smaller): (int, int) = if size == 0 {
                (16, 8)
            } else if size == 1 {
                (32, 8)
            } else if size == 2 {
                (32, 16)
            } else {
                (64, 32)
            };
            if shape == 2 { (smaller, larger) } else { (larger, smaller) }
        } else {
            let side: int = if size == 0 {
                8
            } else if size == 1 {
                16
            } else if size == 2 {
                32
            } else {
                64
            };
            (side, side)
        }
    }

    pub open spec fn width(self) -> int {
        self.dimensions().0
    }

    pub open spec fn height(self) -> int {
        self.dimensions().1
    }

    /// The width of the part of the screen that the object can cover.
    pub open spec fn outer_width(self) -> int {
        if self.shape.has_bit(1) { 2 * self.width() } else { self.width() }
    }

    /// The height of the part of the screen that the object can cover.
    pub open spec fn outer_height(self) -> int {
        if self.shape.has_bit(1) { 2 * self.height() } else { self.height() }
    }

    /// The column of the screen at which the object starts, modulo 512.
    pub open spec fn left(self) -> int {
        ((self.x_low + 0x100 * self.size) as u16 & 0x1ff) as int
    }

    /// The number of the first tile.
    pub open spec fn tile(self) -> int {
        ((self.tile_low + 0x100 * self.tile_high) as u16 & 0x3ff) as int
    }

    /// Whether the pixels are bytes, not half bytes.
    pub open spec fn has_byte_pixels(self) -> bool {
        self.shape.has_bit(5)
    }

    /// The column of the object at a column of the screen.
    pub open spec fn column(self, x: int) -> int {
        (x + 512 - self.left()) % 512
    }
}

impl PpuState {
    /// Whether all memories have their sizes, and the reference points are no
    /// further away than the lines since they were loaded can have moved them.
    pub open spec fn well_formed(self) -> bool {
        &&& self.palettes.len() == 0x400
        &&& self.vram.len() == 0x18000
        &&& self.registers.len() == 0x60
        &&& self.oam.len() == 0x400
        &&& self.reference_points.len() == 4
        &&& forall|i: int|
            0 <= i < 4 ==> -self.reach() <= #[trigger] self.reference_points[i] <= self.reach()
    }

    /// The number of lines that have been shown since the picture began.
    pub open spec fn lines_shown(self) -> int {
        if self.line <= SCREEN_HEIGHT {
            self.line + (if self.hblank { 1int } else { 0 })
        } else {
            0
        }
    }

    /// How far a reference point can be from the origin.
    pub open spec fn reach(self) -> int {
        0x0800_0000 + 0x8000 * self.lines_shown()
    }

    /// The display control register.
    pub open spec fn control(self) -> u16 {
        le16(self.registers, 0)
    }

    /// The video mode.
    pub open spec fn mode(self) -> u16 {
        self.control() & 0b111
    }

    /// The control register of a background.
    pub open spec fn bg_control(self, layer: int) -> u16 {
        le16(self.registers, 8 + 2 * layer)
    }

    /// The priority of a background; lower ones are drawn first and so lie on
    /// top.
    pub open spec fn bg_priority(self, layer: int) -> u8 {
        (self.bg_control(layer) & 0b11) as u8
    }

    /// Whether a pixel lies in one of the two rectangular windows.
    pub open spec fn in_window(self, window: int, x: int) -> bool {
        &&& self.control().has_bit((13 + window) as u16)
        &&& self.registers[0x41 + 2 * window] <= x < self.registers[0x40 + 2 * window]
        &&& self.registers[0x45 + 2 * window] <= self.line < self.registers[0x44 + 2 * window]
    }

    /// Which layers are shown at a column of the line, one bit for each: those
    /// of the first window that the pixel lies in, or those outside of all
    /// windows; all of them where no window is used.
    pub open spec fn window(self, x: int, object_window: Option<Seq<u16>>) -> u8 {
        if self.control() >> 13 == 0 {
            0b11111
        } else if self.in_window(0, x) {
            self.registers[0x48]
        } else if self.in_window(1, x) {
            self.registers[0x49]
        } else if object_window is Some && (object_window->0)[x] != EMPTY {
            self.registers[0x4b]
        } else {
            self.registers[0x4a]
        }
    }

    /// A coordinate moved back to the start of its mosaic block; the size of
    /// the blocks stands at bit `shift` of the mosaic register.
    pub open spec fn mosaic(self, value: int, shift: int) -> int {
        let size = ((self.registers[0x4c + shift / 8] >> ((shift % 8) as u8)) & 0xf) + 1;
        value - value % size
    }

    /// The index of a pixel of a tile in the video memory.
    pub open spec fn pixel_index(self, tile_line: int, tile_x: int, palette: Option<u8>) -> int {
        if palette is Some { tile_line + tile_x / 2 } else { tile_line + tile_x }
    }

    /// The palette entry of a pixel of a tile, or `None` where it is
    /// transparent. With a palette the pixel is a half byte, the first one the
    /// low half; without one it is a byte.
    pub open spec fn pixel_from_tile(self, tile_line: int, tile_x: int, palette: Option<u8>) -> Option<
        u8,
    > {
        let byte = self.vram[self.pixel_index(tile_line, tile_x, palette)];
        match palette {
            Some(palette) => {
                let pixel = (byte >> ((tile_x % 2 * 4) as u8)) & 0b1111;
                if pixel == 0 { None } else { Some((palette * 16 + pixel) as u8) }
            },
            None => if byte == 0 { None } else { Some(byte) },
        }
    }

    /// A colour of the palette memory.
    pub open spec fn colour_from_palette(self, offset: int, index: u8) -> u16 {
        le16(self.palettes, offset + 2 * index)
    }

    // ---- objects ----

    /// The object with this number.
    pub open spec fn object(self, i: int) -> Object {
        Object {
            y: self.oam[8 * i],
            shape: self.oam[8 * i + 1],
            x_low: self.oam[8 * i + 2],
            size: self.oam[8 * i + 3],
            tile_low: self.oam[8 * i + 4],
            tile_high: self.oam[8 * i + 5],
            priority: (self.oam[8 * i + 5] >> 2) & 0b11,
        }
    }

    /// Whether an object is considered at all: it is not switched off and the
    /// mode leaves the tiles to the objects, or its tiles lie in the upper
    /// half.
    pub open spec fn considers(self, object: Object) -> bool {
        (object.shape & 0b11 != 0b10 && self.mode() < 3) || object.tile() >= 512
    }

    /// The objects among the first `count` that are considered and do or do
    /// not make up the object window.
    pub open spec fn selected(self, windows: bool, count: nat) -> Seq<Object>
        decreases count,
    {
        if count == 0 {
            Seq::empty()
        } else {
            let before = self.selected(windows, (count - 1) as nat);
            let object = self.object(count - 1);
            if self.considers(object) && (object.kind() == 0b10) == windows {
                before.push(object)
            } else {
                before
            }
        }
    }

    /// The line of an object that the line of the screen shows.
    pub open spec fn object_line(self, object: Object) -> int {
        self.line.wrapping_sub(object.y) as int
    }

    /// Whether an object reaches the line.
    pub open spec fn meets(self, object: Object) -> bool {
        self.object_line(object) < object.outer_height()
    }

    /// One of the four numbers that an object is scaled by.
    pub open spec fn object_scaling(self, object: Object, i: int) -> i32 {
        let set = ((object.size >> 1) & 0b11111) as int;
        (le16(self.oam, 6 + set * 32 + i * 8) as i16) as i32
    }

    /// The row of the object that a line of it shows.
    pub open spec fn object_row(self, object: Object) -> int {
        let line = self.object_line(object);
        if object.shape.has_bit(4) { self.mosaic(line, 8) } else { line }
    }

    /// The column of the object that a column of it shows.
    pub open spec fn object_column(self, object: Object, column: int) -> int {
        if object.shape.has_bit(4) { self.mosaic(column, 12) } else { column }
    }

    /// Whether mirroring leads to a place inside the object, where it applies.
    pub open spec fn mirrors_inside(self, object: Object, column: int) -> bool {
        !object.shape.has_bit(0) ==> {
            &&& object.size.has_bit(5) ==> self.object_row(object) < object.height()
            &&& object.size.has_bit(4) ==> self.object_column(object, column) < object.width()
        }
    }

    /// The place in the object, as row and column, that a column of the object
    /// shows on this line: scaled about the middle, or mirrored.
    pub open spec fn object_place(self, object: Object, column: int) -> (int, int) {
        let row = self.object_row(object);
        let column = self.object_column(object, column);
        if object.shape.has_bit(0) {
            let x = column - object.outer_width() / 2;
            let y = row - object.outer_height() / 2;
            (
                ((self.object_scaling(object, 2) * x + self.object_scaling(object, 3) * y) as i32
                    >> 8) + object.height() / 2,
                ((self.object_scaling(object, 0) * x + self.object_scaling(object, 1) * y) as i32
                    >> 8) + object.width() / 2,
            )
        } else {
            (
                if object.size.has_bit(5) { object.height() - row - 1 } else { row },
                if object.size.has_bit(4) { object.width() - column - 1 } else { column },
            )
        }
    }

    /// Whether a column of the object shows a place of the object at all.
    pub open spec fn shows_object(self, object: Object, column: int) -> bool {
        let (row, column) = self.object_place(object, column);
        0 <= row < object.height() && 0 <= column < object.width()
    }

    /// The start in the video memory of the tile row that a place in an object
    /// lies in. Rows of tiles follow each other directly or 32 tiles apart.
    pub open spec fn object_tile_line(self, object: Object, row: int, column: int) -> int {
        let stride = if self.control().has_bit(6) { object.width() / 8 } else { 0x20 };
        let first = (object.tile() + row / 8 * stride) % 1024;
        let inside = if object.has_byte_pixels() {
            column / 8 * 64 + row % 8 * 8
        } else {
            column / 8 * 32 + row % 8 * 4
        };
        0x10000 + first * 32 + inside
    }

    /// The palette that the pixels of an object are taken from.
    pub open spec fn object_palette(self, object: Object) -> Option<u8> {
        if object.has_byte_pixels() { None } else { Some(object.tile_high >> 4) }
    }

    /// The index in the video memory of what a column of an object shows.
    pub open spec fn object_index(self, object: Object, column: int) -> int {
        let (row, place) = self.object_place(object, column);
        self.pixel_index(
            self.object_tile_line(object, row, place),
            place % 8,
            self.object_palette(object),
        )
    }

    /// The palette entry that a column of an object shows on this line.
    pub open spec fn object_pixel(self, object: Object, column: int) -> Option<u8> {
        if self.shows_object(object, column) {
            let (row, place) = self.object_place(object, column);
            self.pixel_from_tile(
                self.object_tile_line(object, row, place),
                place % 8,
                self.object_palette(object),
            )
        } else {
            None
        }
    }

    /// The colour that an object gives to a column of the screen.
    pub open spec fn object_colour(self, object: Object, x: int) -> Option<u16> {
        let column = object.column(x);
        if self.meets(object) && column < object.outer_width() {
            match self.object_pixel(object, column) {
                Some(index) => Some(self.colour_from_palette(0x200, index)),
                None => None,
            }
        } else {
            None
        }
    }

    /// The line after an object has been drawn to it.
    pub open spec fn object_drawn(
        self,
        line: Seq<u16>,
        object: Object,
        object_window: Option<Seq<u16>>,
    ) -> Seq<u16> {
        Seq::new(
            240,
            |x: int|
                match self.object_colour(object, x) {
                    Some(colour) => drawn(line[x], colour, 4, self.window(x, object_window)),
                    None => line[x],
                },
        )
    }

    /// Whether a column of an object can be drawn: mirroring stays inside the
    /// object, the tile lies in the video memory, and where there is a pixel to
    /// draw the window does not ask for special effects.
    pub open spec fn column_drawable(
        self,
        object: Object,
        column: int,
        object_window: Option<Seq<u16>>,
    ) -> bool {
        let x = (object.left() + column) % 512;
        x < 240 ==> {
            &&& self.mirrors_inside(object, column)
            &&& self.shows_object(object, column) ==> self.object_index(object, column) < 0x18000
            &&& self.object_pixel(object, column) is Some ==> !self.window(
                x,
                object_window,
            ).has_bit(5)
        }
    }

    /// Whether an object can be drawn: if it reaches the line, it is a normal
    /// one and each of its columns can be drawn.
    pub open spec fn object_drawable(
        self,
        object: Object,
        object_window: Option<Seq<u16>>,
    ) -> bool {
        self.meets(object) ==> {
            &&& object.kind() == 0
            &&& forall|column: int|
                0 <= column < object.outer_width() ==> #[trigger] self.column_drawable(
                    object,
                    column,
                    object_window,
                )
        }
    }

    /// The line after the first `count` objects have been drawn to it.
    pub open spec fn objects_drawn(
        self,
        line: Seq<u16>,
        objects: Seq<Object>,
        object_window: Option<Seq<u16>>,
        count: nat,
    ) -> Seq<u16>
        decreases count,
    {
        if count == 0 {
            line
        } else {
            self.object_drawn(
                self.objects_drawn(line, objects, object_window, (count - 1) as nat),
                objects[count - 1],
                object_window,
            )
        }
    }

    // ---- backgrounds ----

    /// Whether a background is shown scaled.
    pub open spec fn is_scaled(self, layer: int) -> bool {
        self.mode() == 2 || (self.mode() == 1 && layer == 2)
    }

    /// How a scaled background is placed on the next line.
    pub open spec fn scaling_data(self, layer: int) -> ScalingData {
        ScalingData {
            scroll_y: self.reference_points[2 * (layer - 2) + 1],
            scroll_x: self.reference_points[2 * (layer - 2)],
            xx: (le16(self.registers, 0x10 * layer) as i16) as i64,
            xy: (le16(self.registers, 0x10 * layer + 2) as i16) as i64,
            yx: (le16(self.registers, 0x10 * layer + 4) as i16) as i64,
            yy: (le16(self.registers, 0x10 * layer + 6) as i16) as i64,
        }
    }

    /// The reference points after a line of a scaled background.
    pub open spec fn advanced(self, layer: int) -> Seq<i64> {
        let data = self.scaling_data(layer);
        self.reference_points.update(
            2 * (layer - 2),
            (data.scroll_x + data.xy) as i64,
        ).update(2 * (layer - 2) + 1, (data.scroll_y + data.yy) as i64)
    }

    /// The start of a background's map in the video memory.
    pub open spec fn map_offset(self, layer: int) -> int {
        0x800 * ((self.bg_control(layer) >> 8) & 0b11111)
    }

    /// The start of a background's tiles in the video memory.
    pub open spec fn tile_offset(self, layer: int) -> int {
        0x4000 * ((self.bg_control(layer) >> 2) & 0b11)
    }

    /// The row of a background that the line shows, before scrolling.
    pub open spec fn bg_row(self, layer: int) -> int {
        if self.bg_control(layer).has_bit(6) {
            self.mosaic(self.line as int, 0)
        } else {
            self.line as int
        }
    }

    /// The column of a background that a column of the screen shows, before
    /// scrolling.
    pub open spec fn bg_column(self, layer: int, x: int) -> int {
        if self.bg_control(layer).has_bit(6) { self.mosaic(x, 4) } else { x }
    }

    /// The palette entry of a pixel of a background tile. Tiles beyond the
    /// first 64 KiB belong to the objects and are not shown.
    pub open spec fn bg_tile_pixel(
        self,
        layer: int,
        tile: int,
        row: int,
        column: int,
        palette: Option<u8>,
    ) -> Option<u8> {
        let tile_line = if palette is Some {
            self.tile_offset(layer) + tile * 32 + row * 4
        } else {
            self.tile_offset(layer) + tile * 64 + row * 8
        };
        if tile_line >= 0x10000 {
            None
        } else {
            self.pixel_from_tile(tile_line, column, palette)
        }
    }

    /// The palette entry that a scrolled background has at a column. Its map
    /// is made of up to four areas of 32 by 32 tiles.
    pub open spec fn text_pixel(self, layer: int, x: int) -> Option<u8> {
        let control = self.bg_control(layer);
        let column = self.bg_column(layer, x) + (le16(self.registers, 0x10 + 4 * layer) & 0x1ff);
        let row = self.bg_row(layer) + (le16(self.registers, 0x12 + 4 * layer) & 0x1ff);
        let right = if control.has_bit(14) && column % 512 >= 256 { 1int } else { 0 };
        let below = if control.has_bit(15) && row % 512 >= 256 { 2int } else { 0 };
        let entry = le16(
            self.vram,
            self.map_offset(layer) + (right + below) * 0x800 + row % 256 / 8 * 64 + column % 256 / 8
                * 2,
        );
        self.bg_tile_pixel(
            layer,
            (entry & 0x3ff) as int,
            if entry.has_bit(11) { 7 - row % 8 } else { row % 8 },
            if entry.has_bit(10) { 7 - column % 8 } else { column % 8 },
            if control.has_bit(7) { None } else { Some((entry >> 12) as u8) },
        )
    }

    /// The number of tiles in a row of a scaled background.
    pub open spec fn scaled_tiles(self, layer: int) -> int {
        let size = self.bg_control(layer) >> 14;
        if size == 0 {
            16
        } else if size == 1 {
            32
        } else if size == 2 {
            64
        } else {
            128
        }
    }

    /// The palette entry that a scaled background has at a column. Beyond its
    /// edge the background repeats or is transparent.
    pub open spec fn scaled_pixel(self, layer: int, x: int) -> Option<u8> {
        let tiles = self.scaled_tiles(layer);
        let (row, column) = transformed(self.bg_column(layer, x), self.scaling_data(layer));
        if self.bg_control(layer).has_bit(13) {
            self.scaled_place_pixel(layer, row as int % (8 * tiles), column as int % (8 * tiles))
        } else if row < 8 * tiles && column < 8 * tiles {
            self.scaled_place_pixel(layer, row as int, column as int)
        } else {
            None
        }
    }

    /// The palette entry at a place of a scaled background.
    pub open spec fn scaled_place_pixel(self, layer: int, row: int, column: int) -> Option<u8> {
        let tile = self.vram[self.map_offset(layer) + row / 8 * self.scaled_tiles(layer) + column
            / 8];
        self.bg_tile_pixel(layer, tile as int, row % 8, column % 8, None)
    }

    /// The colour that the bitmap of the modes 3 to 5 has at a column.
    pub open spec fn bitmap_colour(self, x: int) -> Option<u16> {
        let mode = self.mode();
        let width = if mode == 5 { 160int } else { 240 };
        let height = if mode == 5 { 128int } else { 160 };
        let start = if mode > 3 && self.control().has_bit(4) { 0xa000int } else { 0 };
        let (row, column) = transformed(x, self.scaling_data(2));
        if row < height && column < width {
            let index = row * width + column;
            if mode == 4 {
                Some(self.colour_from_palette(0, self.vram[start + index]))
            } else {
                Some(le16(self.vram, start + index * 2))
            }
        } else {
            None
        }
    }

    /// The colour that a background has at a column of the line.
    pub open spec fn layer_colour(self, layer: int, x: int) -> Option<u16> {
        if self.mode() >= 3 {
            self.bitmap_colour(x)
        } else {
            let pixel = if self.is_scaled(layer) {
                self.scaled_pixel(layer, x)
            } else {
                self.text_pixel(layer, x)
            };
            match pixel {
                Some(index) => Some(self.colour_from_palette(0, index)),
                None => None,
            }
        }
    }

    /// Whether a background is shown: it is switched on, and the mode has it.
    pub open spec fn shows_layer(self, layer: int) -> bool {
        &&& self.control().has_bit((8 + layer) as u16)
        &&& if self.mode() >= 3 {
            layer == 2
        } else {
            layer == 2 || (layer < 2 && self.mode() != 2) || (layer == 3 && self.mode() == 2)
        }
    }

    /// The shown backgrounds with a number below `end` and this priority.
    pub open spec fn layers_with(self, priority: int, end: nat) -> Seq<int>
        decreases end,
    {
        if end == 0 {
            Seq::empty()
        } else {
            let before = self.layers_with(priority, (end - 1) as nat);
            if self.shows_layer(end - 1) && self.bg_priority(end - 1) == priority {
                before.push(end - 1)
            } else {
                before
            }
        }
    }

    /// The shown backgrounds in the order in which they are drawn: by their
    /// priority, and by their number where that is equal.
    pub open spec fn layers(self) -> Seq<int> {
        self.layers_with(0, 4) + self.layers_with(1, 4) + self.layers_with(2, 4) + self.layers_with(
            3,
            4,
        )
    }

    /// The line after a background has been drawn to it.
    pub open spec fn layer_drawn(
        self,
        line: Seq<u16>,
        layer: int,
        object_window: Option<Seq<u16>>,
    ) -> Seq<u16> {
        Seq::new(
            240,
            |x: int|
                match self.layer_colour(layer, x) {
                    Some(colour) => drawn(
                        line[x],
                        colour,
                        layer as u8,
                        self.window(x, object_window),
                    ),
                    None => line[x],
                },
        )
    }

    /// Whether a background can be drawn: where it has a pixel the window does
    /// not ask for special effects.
    pub open spec fn layer_drawable(self, layer: int, object_window: Option<Seq<u16>>) -> bool {
        forall|x: int|
            0 <= x < 240 && #[trigger] self.layer_colour(layer, x) is Some ==> !self.window(
                x,
                object_window,
            ).has_bit(5)
    }

    // ---- the whole line ----

    /// The object window, where it is used: the pixels that the objects of
    /// that kind cover.
    pub open spec fn object_window(self) -> Option<Seq<u16>> {
        if self.control().has_bit(15) {
            let objects = self.selected(true, 128);
            Some(
                self.objects_drawn(
                    blank_line(),
                    objects,
                    None,
                    leading(objects, 4),
                ),
            )
        } else {
            None
        }
    }

    /// The objects that are drawn, in that order: by their priority, and by
    /// their number where that is equal.
    pub open spec fn shown_objects(self) -> Seq<Object> {
        if self.control().has_bit(12) {
            let objects = self.selected(false, 128);
            with_priority(objects, 0, objects.len()) + with_priority(objects, 1, objects.len())
                + with_priority(objects, 2, objects.len()) + with_priority(
                objects,
                3,
                objects.len(),
            )
        } else {
            Seq::empty()
        }
    }

    /// The line after the first `count` backgrounds, and the objects that are
    /// left: before each background come the objects of its priority and of
    /// those before.
    pub open spec fn composed(self, count: nat) -> (Seq<u16>, Seq<Object>)
        decreases count,
    {
        if count == 0 {
            (blank_line(), self.shown_objects())
        } else {
            let (line, objects) = self.composed((count - 1) as nat);
            let layer = self.layers()[count - 1];
            let end = leading(objects, self.bg_priority(layer));
            (
                self.layer_drawn(
                    self.objects_drawn(line, objects, self.object_window(), end),
                    layer,
                    self.object_window(),
                ),
                objects.skip(end as int),
            )
        }
    }

    /// The line with all backgrounds and objects drawn.
    pub open spec fn composed_line(self) -> Seq<u16> {
        let (line, objects) = self.composed(self.layers().len());
        self.objects_drawn(line, objects, self.object_window(), leading(objects, 4))
    }

    /// The colour that the screen shows at a column of the line; where nothing
    /// was drawn it is the first colour of the palette.
    pub open spec fn shown_colour(self, x: int) -> u16 {
        let pixel = self.composed_line()[x];
        if pixel == EMPTY { self.colour_from_palette(0, 0) } else { pixel }
    }

    /// The line as bytes, two for each pixel.
    pub open spec fn line_bytes(self) -> Seq<u8> {
        Seq::new(480, |i: int| le_bytes(self.shown_colour(i / 2))[i % 2])
    }

    /// Whether the line is blanked and nothing is shown.
    pub open spec fn is_blanked(self) -> bool {
        self.control().has_bit(7)
    }

    /// Whether the object window can be drawn, where it is used.
    pub open spec fn window_drawable(self) -> bool {
        self.control().has_bit(15) ==> forall|i: int|
            0 <= i < self.selected(true, 128).len() ==> self.object_drawable(
                #[trigger] self.selected(true, 128)[i],
                None,
            )
    }

    /// Whether all objects on the line can be drawn.
    pub open spec fn objects_drawable(self) -> bool {
        forall|i: int|
            0 <= i < self.shown_objects().len() ==> self.object_drawable(
                #[trigger] self.shown_objects()[i],
                self.object_window(),
            )
    }

    /// Whether all backgrounds on the line can be drawn.
    pub open spec fn layers_drawable(self) -> bool {
        forall|layer: int|
            0 <= layer < 4 && #[trigger] self.shows_layer(layer) ==> self.layer_drawable(
                layer,
                self.object_window(),
            )
    }

    /// Whether the line can be shown: the mode exists, and every object and
    /// background on it can be drawn.
    pub open spec fn line_drawable(self) -> bool {
        self.is_blanked() || (self.mode() < 6 && self.window_drawable() && self.objects_drawable()
            && self.layers_drawable())
    }

    /// Whether the next cycle can be run.
    pub open spec fn can_step(self) -> bool {
        self.is_showing() ==> self.line_drawable()
    }

    /// Whether a background moves its reference point when the line is shown.
    pub open spec fn advances(self, layer: int) -> bool {
        !self.is_blanked() && self.shows_layer(layer) && (self.mode() >= 3 || self.is_scaled(layer))
    }

    /// The state after the line has been shown.
    pub open spec fn line_shown(self) -> PpuState {
        let first = if self.advances(2) {
            PpuState { reference_points: self.advanced(2), ..self }
        } else {
            self
        };
        if self.advances(3) {
            PpuState { reference_points: first.advanced(3), ..first }
        } else {
            first
        }
    }

    // ---- registers and time ----

    /// A reference point as the registers hold it: a signed number of 28 bits.
    pub open spec fn reference_register(self, index: int) -> i64 {
        let word = le32(self.registers, 0x28 + 0x10 * (index / 2) + 4 * (index % 2));
        ((((word << 4) as i32) as i64) >> 4) as i64
    }

    /// The state after a reference point has been loaded from its register.
    pub open spec fn reference_loaded(self, index: int) -> PpuState {
        PpuState {
            reference_points: self.reference_points.update(index, self.reference_register(index)),
            ..self
        }
    }

    /// The word that reading a register gives. The word with the status shows
    /// the line and whether it is beyond the picture, between two lines, or the
    /// one that the program waits for.
    pub open spec fn register_word(self, address: u32) -> u32 {
        if address == 4 {
            let stored = le16(self.registers, 4) as u32 | ((self.line as u32) << 16);
            stored.with_bit(0, self.line >= SCREEN_HEIGHT).with_bit(1, self.hblank).with_bit(
                2,
                self.line == self.registers[5],
            )
        } else {
            le32(self.registers, address as int)
        }
    }

    /// The state after a register byte has been written. A byte of a reference
    /// point loads that point, but for the last byte of a pair of points.
    pub open spec fn register_written(self, address: u32, value: u8) -> PpuState {
        let stored = PpuState {
            registers: self.registers.update(address as int, value),
            ..self
        };
        if 0x28 <= address < 0x2f || 0x38 <= address < 0x3f {
            stored.reference_loaded((address - 0x28) % 8 / 4 + (address - 0x28) / 0x10 * 2)
        } else {
            stored
        }
    }

    /// Whether the next cycle shows a line.
    pub open spec fn is_showing(self) -> bool {
        self.wait_cycles == 0 && !self.hblank && self.line < SCREEN_HEIGHT
    }

    /// Whether the next cycle ends a line.
    pub open spec fn is_ending(self) -> bool {
        self.wait_cycles == 0 && (self.hblank || self.line >= SCREEN_HEIGHT)
    }

    /// The state after all reference points have been loaded.
    pub open spec fn all_references_loaded(self) -> PpuState {
        self.reference_loaded(0).reference_loaded(1).reference_loaded(2).reference_loaded(3)
    }

    /// The number of the line that follows.
    pub open spec fn next_line(self) -> u8 {
        if self.line == TOTAL_LINES { 0 } else { self.line.wrapping_add(1) }
    }

    /// The state after the line has ended. The first line beyond the picture
    /// loads the reference points.
    pub open spec fn line_ended(self) -> PpuState {
        let loaded = if self.line == SCREEN_HEIGHT { self.all_references_loaded() } else { self };
        PpuState {
            line: self.next_line(),
            wait_cycles: if self.hblank { RENDER_CYCLES } else { LINE_CYCLES },
            hblank: false,
            ..loaded
        }
    }

    /// The state after the next cycle.
    pub open spec fn stepped(self) -> PpuState {
        if self.is_showing() {
            PpuState {
                hblank: true,
                wait_cycles: HBLANK_CYCLES,
                ..self.line_shown()
            }
        } else if self.is_ending() {
            self.line_ended()
        } else {
            PpuState { wait_cycles: (self.wait_cycles - 1) as u16, ..self }
        }
    }

    /// The interrupt registers after the next cycle: the picture unit asks for
    /// an interrupt at the end of the picture, at the end of each line, and at
    /// the line that the program waits for, where the status register has them
    /// switched on.
    pub open spec fn requests(self, interrupts: u32) -> u32 {
        let status = self.registers[4];
        if self.is_showing() {
            if status.has_bit(4) { requested(interrupts, 1) } else { interrupts }
        } else if self.is_ending() {
            let first = if self.line == SCREEN_HEIGHT && status.has_bit(3) {
                requested(interrupts, 0)
            } else {
                interrupts
            };
            if status.has_bit(5) && self.next_line() == self.registers[5] {
                requested(first, 2)
            } else {
                first
            }
        } else {
            interrupts
        }
    }
}

/// How many objects are drawn before a background of this priority: all up to
/// the last one whose priority is not higher.
pub open spec fn leading(objects: Seq<Object>, priority: u8) -> nat
    decreases objects.len(),
{
    if objects.len() == 0 {
        0
    } else if objects.last().priority <= priority {
        objects.len()
    } else {
        leading(objects.drop_last(), priority)
    }
}

/// The objects among the first `count` that have this priority.
pub open spec fn with_priority(objects: Seq<Object>, priority: int, count: nat) -> Seq<Object>
    decreases count,
{
    if count == 0 {
        Seq::empty()
    } else {
        let before = with_priority(objects, priority, (count - 1) as nat);
        if objects[count - 1].priority == priority {
            before.push(objects[count - 1])
        } else {
            before
        }
    }
}

} // verus!
