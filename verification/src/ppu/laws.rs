//! What holds of every picture.

use crate::bits::{set_bit_is_local_u32, Bits};
use crate::ppu::model::{
    blank_line, leading, transformed, with_priority, Object, PpuState, ScalingData, EMPTY,
    LINE_CYCLES, SCREEN_HEIGHT, TOTAL_LINES,
};
use crate::ppu::render::lemma_leading;
use vstd::prelude::*;

verus! {

/// A pixel to which something has been drawn keeps its colour, whatever is
/// drawn after it.
pub proof fn drawn_pixel_stays(
    state: PpuState,
    line: Seq<u16>,
    object: Object,
    layer: int,
    window: Option<Seq<u16>>,
    x: int,
)
    requires
        0 <= x < 240,
        line[x] != EMPTY,
    ensures
        state.object_drawn(line, object, window)[x] == line[x],
        state.layer_drawn(line, layer, window)[x] == line[x],
{
}

/// A pixel keeps its colour while any number of objects is drawn.
pub proof fn drawn_pixel_stays_under_objects(
    state: PpuState,
    line: Seq<u16>,
    objects: Seq<Object>,
    window: Option<Seq<u16>>,
    count: nat,
    x: int,
)
    requires
        0 <= x < 240,
        line[x] != EMPTY,
    ensures
        state.objects_drawn(line, objects, window, count)[x] == line[x],
    decreases count,
{
    if count > 0 {
        drawn_pixel_stays_under_objects(state, line, objects, window, (count - 1) as nat, x);
    }
}

/// A pixel that drawing objects changes was empty before. It gets a colour of the
/// object palettes, and its window shows the objects.
pub proof fn changed_pixel_has_an_object_colour(
    state: PpuState,
    line: Seq<u16>,
    objects: Seq<Object>,
    window: Option<Seq<u16>>,
    count: nat,
    x: int,
)
    requires
        0 <= x < 240,
        state.objects_drawn(line, objects, window, count)[x] != line[x],
    ensures
        line[x] == EMPTY,
        exists|index: u8|
            state.objects_drawn(line, objects, window, count)[x]
                == #[trigger] state.colour_from_palette(0x200, index),
        state.window(x, window).has_bit(4),
    decreases count,
{
    if line[x] != EMPTY {
        drawn_pixel_stays_under_objects(state, line, objects, window, count, x);
    }
    if count > 0 {
        let before = state.objects_drawn(line, objects, window, (count - 1) as nat);
        if before[x] != line[x] {
            changed_pixel_has_an_object_colour(
                state,
                line,
                objects,
                window,
                (count - 1) as nat,
                x,
            );
        }
        let object = objects[count - 1];
        let column = object.column(x);
        if state.object_drawn(before, object, window)[x] != before[x] {
            let index = state.object_pixel(object, column)->0;
            assert(state.object_colour(object, x) == Some(
                state.colour_from_palette(0x200, index),
            ));
        }
    }
}

/// Moving a scaled background to the next line adds its steps for a line to its
/// reference point, and leaves the other background where it is.
pub proof fn reference_point_advances(state: PpuState, layer: int)
    requires
        state.well_formed(),
        layer == 2 || layer == 3,
    ensures
        ({
            let after = PpuState { reference_points: state.advanced(layer), ..state };
            let data = state.scaling_data(layer);
            &&& after.scaling_data(layer) == (ScalingData {
                scroll_x: after.scaling_data(layer).scroll_x,
                scroll_y: after.scaling_data(layer).scroll_y,
                ..data
            })
            &&& after.scaling_data(layer).scroll_x == data.scroll_x + data.xy
            &&& after.scaling_data(layer).scroll_y == data.scroll_y + data.yy
            &&& after.scaling_data(5 - layer) == state.scaling_data(5 - layer)
            &&& after.reference_points.len() == 4
        }),
{
    assert(-state.reach() <= state.reference_points[2 * (layer - 2)] <= state.reach());
    assert(-state.reach() <= state.reference_points[2 * (layer - 2) + 1] <= state.reach());
}

/// On two lines in a row a scaled background starts from points that differ by
/// its steps for a line; a background that is not shown scaled stays where it is.
pub proof fn lines_in_a_row_differ_by_a_step(state: PpuState, layer: int)
    requires
        state.well_formed(),
        layer == 2 || layer == 3,
    ensures
        ({
            let first = state.scaling_data(layer);
            let second = state.line_shown().scaling_data(layer);
            if state.advances(layer) {
                &&& second.scroll_x == first.scroll_x + first.xy
                &&& second.scroll_y == first.scroll_y + first.yy
                &&& second == (ScalingData {
                    scroll_x: second.scroll_x,
                    scroll_y: second.scroll_y,
                    ..first
                })
            } else {
                second == first
            }
        }),
{
    assert(-state.reach() <= state.reference_points[2 * (layer - 2)] <= state.reach());
    assert(-state.reach() <= state.reference_points[2 * (layer - 2) + 1] <= state.reach());
}

/// A blanked line changes nothing.
pub proof fn blanked_line_changes_nothing(state: PpuState)
    requires
        state.is_blanked(),
    ensures
        state.line_shown() == state,
        state.line_drawable(),
{
}

/// Where no window is used, all backgrounds and the objects are visible and no
/// special effect is asked for.
pub proof fn without_windows_all_is_visible(
    state: PpuState,
    x: int,
    window: Option<Seq<u16>>,
    layer: u8,
)
    requires
        state.control() >> 13 == 0,
        layer < 8,
    ensures
        state.window(x, window).has_bit(layer) == (layer < 5),
{
    assert((0b11111u8 & (1u8 << layer) != 0) == (layer < 5)) by (bit_vector)
        requires
            layer < 8,
    ;
}

proof fn lemma_with_priority(objects: Seq<Object>, priority: int, count: nat)
    requires
        count <= objects.len(),
    ensures
        forall|i: int|
            0 <= i < with_priority(objects, priority, count).len() ==> (#[trigger] with_priority(
                objects,
                priority,
                count,
            )[i]).priority == priority,
    decreases count,
{
    if count > 0 {
        lemma_with_priority(objects, priority, (count - 1) as nat);
        let before = with_priority(objects, priority, (count - 1) as nat);
        let all = with_priority(objects, priority, count);
        assert forall|i: int| 0 <= i < all.len() implies (#[trigger] all[i]).priority == priority by {
            if i < before.len() {
                assert(all[i] == before[i]);
            }
        }
    }
}

/// No object that is drawn has a priority number above 3.
pub proof fn shown_priorities_are_small(state: PpuState, i: int)
    requires
        0 <= i < state.shown_objects().len(),
    ensures
        state.shown_objects()[i].priority <= 3,
{
    let objects = state.selected(false, 128);
    lemma_with_priority(objects, 0, objects.len());
    lemma_with_priority(objects, 1, objects.len());
    lemma_with_priority(objects, 2, objects.len());
    lemma_with_priority(objects, 3, objects.len());
    let a = with_priority(objects, 0, objects.len());
    let b = with_priority(objects, 1, objects.len());
    let c = with_priority(objects, 2, objects.len());
    let d = with_priority(objects, 3, objects.len());
    let all = a + b + c + d;
    if i < a.len() {
        assert(all[i] == a[i]);
    } else if i < a.len() + b.len() {
        assert(all[i] == b[i - a.len()]);
    } else if i < a.len() + b.len() + c.len() {
        assert(all[i] == c[i - a.len() - b.len()]);
    } else {
        assert(all[i] == d[i - a.len() - b.len() - c.len()]);
    }
}

/// Objects are drawn in the order of their priorities.
pub proof fn objects_are_sorted(state: PpuState, i: int, j: int)
    requires
        0 <= i < j < state.shown_objects().len(),
    ensures
        state.shown_objects()[i].priority <= state.shown_objects()[j].priority,
{
    let objects = state.selected(false, 128);
    lemma_with_priority(objects, 0, objects.len());
    lemma_with_priority(objects, 1, objects.len());
    lemma_with_priority(objects, 2, objects.len());
    lemma_with_priority(objects, 3, objects.len());
    let a = with_priority(objects, 0, objects.len());
    let b = with_priority(objects, 1, objects.len());
    let c = with_priority(objects, 2, objects.len());
    let d = with_priority(objects, 3, objects.len());
    let all = a + b + c + d;
    assert forall|k: int| 0 <= k < all.len() implies (#[trigger] all[k]).priority == (if k
        < a.len() {
        0int
    } else if k < a.len() + b.len() {
        1
    } else if k < a.len() + b.len() + c.len() {
        2
    } else {
        3
    }) by {
        if k < a.len() {
            assert(all[k] == a[k]);
        } else if k < a.len() + b.len() {
            assert(all[k] == b[k - a.len()]);
        } else if k < a.len() + b.len() + c.len() {
            assert(all[k] == c[k - a.len() - b.len()]);
        } else {
            assert(all[k] == d[k - a.len() - b.len() - c.len()]);
        }
    }
    assert(all[i].priority <= all[j].priority);
}

/// Before a background exactly those of some sorted objects are drawn whose
/// priority is not higher than that of the background.
pub proof fn leading_objects_are_those_in_front(objects: Seq<Object>, priority: u8, i: int)
    requires
        forall|j: int, k: int|
            0 <= j < k < objects.len() ==> (#[trigger] objects[j]).priority <= (
            #[trigger] objects[k]).priority,
        0 <= i < objects.len(),
    ensures
        (i < leading(objects, priority)) == (objects[i].priority <= priority),
    decreases objects.len(),
{
    let last = objects.len() - 1;
    if objects.last().priority <= priority {
        assert(i < last ==> objects[i].priority <= objects[last].priority);
    } else {
        lemma_leading(objects.drop_last(), priority);
        if i < last {
            leading_objects_are_those_in_front(objects.drop_last(), priority, i);
        }
    }
}

proof fn lemma_selected(state: PpuState, windows: bool, count: nat, i: int)
    requires
        0 <= i < state.selected(windows, count).len(),
    ensures
        state.selected(windows, count)[i].priority <= 3,
        (state.selected(windows, count)[i].kind() == 0b10) == windows,
        state.considers(state.selected(windows, count)[i]),
    decreases count,
{
    let before = state.selected(windows, (count - 1) as nat);
    if i < before.len() {
        lemma_selected(state, windows, (count - 1) as nat, i);
    } else {
        crate::bits::lemma_fields_u8(state.oam[8 * (count - 1) + 5]);
    }
}

proof fn lemma_priorities_partition(objects: Seq<Object>, count: nat)
    requires
        count <= objects.len(),
        forall|i: int| 0 <= i < objects.len() ==> (#[trigger] objects[i]).priority <= 3,
    ensures
        (with_priority(objects, 0, count) + with_priority(objects, 1, count) + with_priority(
            objects,
            2,
            count,
        ) + with_priority(objects, 3, count)).to_multiset() == objects.take(
            count as int,
        ).to_multiset(),
    decreases count,
{
    broadcast use vstd::seq_lib::group_to_multiset_ensures;
    let a = with_priority(objects, 0, count);
    let b = with_priority(objects, 1, count);
    let c = with_priority(objects, 2, count);
    let d = with_priority(objects, 3, count);
    vstd::seq_lib::lemma_multiset_commutative(a, b);
    vstd::seq_lib::lemma_multiset_commutative(a + b, c);
    vstd::seq_lib::lemma_multiset_commutative(a + b + c, d);
    if count == 0 {
        assert(a + b + c + d =~= Seq::<Object>::empty());
        assert(objects.take(0) =~= Seq::<Object>::empty());
    } else {
        let n = (count - 1) as nat;
        lemma_priorities_partition(objects, n);
        let a0 = with_priority(objects, 0, n);
        let b0 = with_priority(objects, 1, n);
        let c0 = with_priority(objects, 2, n);
        let d0 = with_priority(objects, 3, n);
        vstd::seq_lib::lemma_multiset_commutative(a0, b0);
        vstd::seq_lib::lemma_multiset_commutative(a0 + b0, c0);
        vstd::seq_lib::lemma_multiset_commutative(a0 + b0 + c0, d0);
        assert(objects.take(count as int) =~= objects.take(n as int).push(objects[n as int]));
        assert((a + b + c + d).to_multiset() =~= (a0 + b0 + c0 + d0).to_multiset().insert(
            objects[n as int],
        ));
    }
}

/// Sorting loses no object and adds none.
pub proof fn every_object_is_drawn_once(state: PpuState)
    requires
        state.control().has_bit(12),
    ensures
        state.shown_objects().to_multiset() == state.selected(false, 128).to_multiset(),
{
    let objects = state.selected(false, 128);
    assert forall|i: int| 0 <= i < objects.len() implies (#[trigger] objects[i]).priority <= 3 by {
        lemma_selected(state, false, 128, i);
    }
    lemma_priorities_partition(objects, objects.len());
    assert(objects.take(objects.len() as int) =~= objects);
}

/// On a line that can be shown no object makes up the object window, so that
/// window is empty.
pub proof fn object_window_is_empty(state: PpuState)
    requires
        state.line_drawable(),
        !state.is_blanked(),
        state.control().has_bit(15),
    ensures
        state.object_window() == Some(blank_line()),
{
    let objects = state.selected(true, 128);
    lemma_window_empty(state, objects, leading(objects, 4));
    lemma_leading(objects, 4);
}

proof fn lemma_window_empty(state: PpuState, objects: Seq<Object>, count: nat)
    requires
        objects == state.selected(true, 128),
        state.window_drawable(),
        state.control().has_bit(15),
    ensures
        count <= objects.len() ==> state.objects_drawn(blank_line(), objects, None, count)
            == blank_line(),
    decreases count,
{
    if 0 < count <= objects.len() {
        lemma_window_empty(state, objects, (count - 1) as nat);
        lemma_selected(state, true, 128, count - 1);
        assert(state.object_drawable(state.selected(true, 128)[count - 1], None));
        assert(state.object_drawn(blank_line(), objects[count - 1], None) =~= blank_line());
    }
}

/// The backgrounds of one priority are listed in the order of their numbers,
/// and they are exactly those that are shown.
pub(crate) proof fn lemma_layers_with(state: PpuState, priority: int, end: nat)
    requires
        end <= 4,
    ensures
        forall|i: int, j: int|
            0 <= i < j < state.layers_with(priority, end).len() ==> (#[trigger] state.layers_with(
                priority,
                end,
            )[i]) < (#[trigger] state.layers_with(priority, end)[j]),
        forall|layer: int|
            #[trigger] state.layers_with(priority, end).contains(layer) <==> 0 <= layer < end
                && state.shows_layer(layer) && state.bg_priority(layer) == priority,
    decreases end,
{
    if end > 0 {
        let n = (end - 1) as nat;
        lemma_layers_with(state, priority, n);
        let before = state.layers_with(priority, n);
        let all = state.layers_with(priority, end);
        assert forall|layer: int| #[trigger] all.contains(layer) <==> 0 <= layer < end
            && state.shows_layer(layer) && state.bg_priority(layer) == priority by {
            if before.contains(layer) {
                let i = choose|i: int| 0 <= i < before.len() && before[i] == layer;
                assert(all[i] == layer);
            }
            if layer == n && state.shows_layer(layer) && state.bg_priority(layer) == priority {
                assert(all[before.len() as int] == layer);
            }
            if all.contains(layer) {
                let i = choose|i: int| 0 <= i < all.len() && all[i] == layer;
                if i < before.len() {
                    assert(before[i] == layer);
                    assert(before.contains(layer));
                }
            }
        }
        assert forall|i: int, j: int| 0 <= i < j < all.len() implies (#[trigger] all[i]) < (
        #[trigger] all[j]) by {
            assert(all[i] == before[i]);
            assert(before.contains(before[i]));
            if j < before.len() {
                assert(all[j] == before[j]);
            }
        }
    }
}

/// Backgrounds are drawn in the order of their priorities, and those of one
/// priority in the order of their numbers.
pub proof fn layers_are_sorted(state: PpuState, i: int, j: int)
    requires
        0 <= i < j < state.layers().len(),
    ensures
        state.bg_priority(state.layers()[i]) <= state.bg_priority(state.layers()[j]),
        state.bg_priority(state.layers()[i]) == state.bg_priority(state.layers()[j])
            ==> state.layers()[i] < state.layers()[j],
{
    lemma_layer_priorities(state, i);
    lemma_layer_priorities(state, j);
    let a = state.layers_with(0, 4);
    let b = state.layers_with(1, 4);
    let c = state.layers_with(2, 4);
    let d = state.layers_with(3, 4);
    lemma_layers_with(state, 0, 4);
    lemma_layers_with(state, 1, 4);
    lemma_layers_with(state, 2, 4);
    lemma_layers_with(state, 3, 4);
    if j < a.len() {
        assert(a[i] < a[j]);
    } else if a.len() <= i && j < a.len() + b.len() {
        assert(b[i - a.len()] < b[j - a.len()]);
    } else if a.len() + b.len() <= i && j < a.len() + b.len() + c.len() {
        assert(c[i - a.len() - b.len()] < c[j - a.len() - b.len()]);
    } else if a.len() + b.len() + c.len() <= i {
        assert(d[i - a.len() - b.len() - c.len()] < d[j - a.len() - b.len() - c.len()]);
    }
}

proof fn lemma_layer_priorities(state: PpuState, k: int)
    requires
        0 <= k < state.layers().len(),
    ensures
        ({
            let a = state.layers_with(0, 4).len();
            let b = state.layers_with(1, 4).len();
            let c = state.layers_with(2, 4).len();
            state.bg_priority(state.layers()[k]) == (if k < a {
                0int
            } else if k < a + b {
                1
            } else if k < a + b + c {
                2
            } else {
                3
            })
        }),
{
    let a = state.layers_with(0, 4);
    let b = state.layers_with(1, 4);
    let c = state.layers_with(2, 4);
    let d = state.layers_with(3, 4);
    lemma_layers_with(state, 0, 4);
    lemma_layers_with(state, 1, 4);
    lemma_layers_with(state, 2, 4);
    lemma_layers_with(state, 3, 4);
    if k < a.len() {
        assert(a.contains(a[k]));
    } else if k < a.len() + b.len() {
        assert(b.contains(b[k - a.len()]));
    } else if k < a.len() + b.len() + c.len() {
        assert(c.contains(c[k - a.len() - b.len()]));
    } else {
        assert(d.contains(d[k - a.len() - b.len() - c.len()]));
    }
}

/// A background is drawn exactly if it is shown.
pub proof fn shown_layers_are_drawn(state: PpuState, layer: int)
    requires
        0 <= layer < 4,
    ensures
        state.layers().contains(layer) == state.shows_layer(layer),
{
    let a = state.layers_with(0, 4);
    let b = state.layers_with(1, 4);
    let c = state.layers_with(2, 4);
    let d = state.layers_with(3, 4);
    lemma_layers_with(state, 0, 4);
    lemma_layers_with(state, 1, 4);
    lemma_layers_with(state, 2, 4);
    lemma_layers_with(state, 3, 4);
    let all = state.layers();
    if all.contains(layer) {
        let k = choose|k: int| 0 <= k < all.len() && all[k] == layer;
        if k < a.len() {
            assert(a.contains(a[k]));
        } else if k < a.len() + b.len() {
            assert(b.contains(b[k - a.len()]));
        } else if k < a.len() + b.len() + c.len() {
            assert(c.contains(c[k - a.len() - b.len()]));
        } else {
            assert(d.contains(d[k - a.len() - b.len() - c.len()]));
        }
    }
    if state.shows_layer(layer) {
        crate::bits::lemma_fields_u16(state.bg_control(layer));
        let priority = state.bg_priority(layer);
        let part = state.layers_with(priority as int, 4);
        assert(part.contains(layer));
        let k = choose|k: int| 0 <= k < part.len() && part[k] == layer;
        if priority == 0 {
            assert(all[k] == layer);
        } else if priority == 1 {
            assert(all[a.len() + k] == layer);
        } else if priority == 2 {
            assert(all[a.len() + b.len() + k] == layer);
        } else {
            assert(all[a.len() + b.len() + c.len() + k] == layer);
        }
    }
}

/// A mosaic block starts at a multiple of its size, not after the coordinate
/// and less than a block before it; the start of a block is its own start.
pub proof fn mosaic_leads_to_block_start(state: PpuState, value: int, shift: int)
    requires
        value >= 0,
        0 <= shift < 16,
    ensures
        ({
            let size = ((state.registers[0x4c + shift / 8] >> ((shift % 8) as u8)) & 0xf) + 1;
            let start = state.mosaic(value, shift);
            &&& 0 <= start <= value < start + size
            &&& start % size == 0
            &&& state.mosaic(start, shift) == start
        }),
{
    let field = state.registers[0x4c + shift / 8] >> ((shift % 8) as u8);
    let size = (field & 0xf) + 1;
    vstd::arithmetic::div_mod::lemma_mod_decreases(value as nat, size as nat);
    vstd::arithmetic::div_mod::lemma_mod_bound(value, size);
    vstd::arithmetic::div_mod::lemma_fundamental_div_mod(value, size);
    vstd::arithmetic::div_mod::lemma_mod_multiples_basic(value / size, size);
    vstd::arithmetic::mul::lemma_mul_is_commutative(value / size, size);
}

/// The line counter stays in its range: it counts up to the number of lines of
/// a picture and starts again.
pub proof fn line_counter_stays_in_range(state: PpuState)
    requires
        state.line <= TOTAL_LINES,
    ensures
        state.stepped().line <= TOTAL_LINES,
        state.stepped().line == state.line || state.stepped().line == state.line + 1 || (state.line
            == TOTAL_LINES && state.stepped().line == 0),
{
}

/// The pause after a line belongs to a line of the picture, and the picture unit
/// never waits longer than a line takes.
pub proof fn waiting_stays_in_range(state: PpuState)
    requires
        state.hblank ==> state.line < SCREEN_HEIGHT,
        state.wait_cycles <= LINE_CYCLES,
    ensures
        state.stepped().hblank ==> state.stepped().line < SCREEN_HEIGHT,
        state.stepped().wait_cycles <= LINE_CYCLES,
{
}

/// The status register tells whether the line is beyond the picture, whether it
/// has been shown, and whether the program waits for it.
pub proof fn status_shows_the_line(state: PpuState)
    ensures
        state.register_word(4).has_bit(0) == (state.line >= SCREEN_HEIGHT),
        state.register_word(4).has_bit(1) == state.hblank,
        state.register_word(4).has_bit(2) == (state.line == state.registers[5]),
{
    let stored = crate::bits::le16(state.registers, 4) as u32 | ((state.line as u32) << 16);
    let first = stored.with_bit(0, state.line >= SCREEN_HEIGHT);
    let second = first.with_bit(1, state.hblank);
    let waited = state.line == state.registers[5];
    set_bit_is_local_u32(stored, 0, state.line >= SCREEN_HEIGHT, 0);
    set_bit_is_local_u32(first, 1, state.hblank, 0);
    set_bit_is_local_u32(first, 1, state.hblank, 1);
    set_bit_is_local_u32(second, 2, waited, 0);
    set_bit_is_local_u32(second, 2, waited, 1);
    set_bit_is_local_u32(second, 2, waited, 2);
}

/// A coordinate on a scaled background, taken modulo a size that is a power of
/// two, is the coordinate that the mathematical remainder gives, also left of
/// and above the background.
pub proof fn scaled_coordinates_repeat(x: int, data: ScalingData, size: int)
    requires
        size == 128 || size == 256 || size == 512 || size == 1024,
    ensures
        transformed(x, data).0 as int % size == (((data.yx * x + data.scroll_y) as i64) >> 8) as int
            % size,
        transformed(x, data).1 as int % size == (((data.xx * x + data.scroll_x) as i64) >> 8) as int
            % size,
{
    lemma_unsigned((((data.yx * x + data.scroll_y) as i64) >> 8) as i64, size);
    lemma_unsigned((((data.xx * x + data.scroll_x) as i64) >> 8) as i64, size);
}

proof fn lemma_unsigned(value: i64, size: int)
    requires
        size == 128 || size == 256 || size == 512 || size == 1024,
    ensures
        (value as u64) as int % size == value as int % size,
{
    assert(value as u64 == if value < 0 { value + 0x1_0000_0000_0000_0000 } else { value as int })
        by (bit_vector);
    if value < 0 {
        let turns = if size == 128 {
            0x200_0000_0000_0000int
        } else if size == 256 {
            0x100_0000_0000_0000
        } else if size == 512 {
            0x80_0000_0000_0000
        } else {
            0x40_0000_0000_0000
        };
        assert(size * turns == 0x1_0000_0000_0000_0000);
        vstd::arithmetic::div_mod::lemma_mod_multiples_vanish(turns, value as int, size);
    }
}

/// A register of a reference point holds a number of 28 bits with a sign: the
/// point has these bits and lies in their range.
pub proof fn reference_points_have_28_bits(state: PpuState, index: int)
    ensures
        ({
            let word = crate::bits::le32(
                state.registers,
                0x28 + 0x10 * (index / 2) + 4 * (index % 2),
            );
            let bits = (word & 0xfff_ffff) as int;
            state.reference_register(index) == (if bits >= 0x800_0000 {
                bits - 0x1000_0000
            } else {
                bits
            })
        }),
{
    let word = crate::bits::le32(state.registers, 0x28 + 0x10 * (index / 2) + 4 * (index % 2));
    assert(((((word << 4) as i32) as i64) >> 4) as i64 == (if word & 0xfff_ffff >= 0x800_0000 {
        (word & 0xfff_ffff) - 0x1000_0000
    } else {
        (word & 0xfff_ffff) as int
    })) by (bit_vector);
}

} // verus!
