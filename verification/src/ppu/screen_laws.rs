//! How the screen is put together, and when.

use crate::bits::{le16, le32, set_bit_is_local_u32, Bits};
use crate::interrupts::requested;
use crate::ppu::background_laws::lemma_control;
use crate::ppu::laws::{
    drawn_pixel_stays, drawn_pixel_stays_under_objects, layers_are_sorted,
    leading_objects_are_those_in_front, objects_are_sorted, shown_layers_are_drawn,
};
use crate::ppu::model::{leading, Object, PpuState};
use crate::ppu::render::lemma_leading;
use crate::ppu::{is_event_of, PpuEvent};
use vstd::prelude::*;

verus! {

/// Whether a pixel of the line lies in a rectangle: from its left column and upper
/// line on, before its right column and lower line.
pub open spec fn in_rectangle(
    state: PpuState,
    x: int,
    left: u8,
    right: u8,
    upper: u8,
    lower: u8,
) -> bool {
    left <= x < right && upper <= state.line < lower
}

/// Which layers a pixel shows. Without windows it shows all. The first window comes
/// before the second, and both before the object window; each is used where its switch
/// is on, and has a byte with one bit for each layer. The last byte is for the pixels
/// outside.
pub proof fn windows_select_the_layers(state: PpuState, x: int, object_window: Option<Seq<u16>>)
    requires
        0 <= x < 240,
    ensures
        ({
            let registers = state.registers;
            let window = state.window(x, object_window);
            let in_first = registers[1].has_bit(5) && in_rectangle(
                state,
                x,
                registers[0x41],
                registers[0x40],
                registers[0x45],
                registers[0x44],
            );
            let in_second = registers[1].has_bit(6) && in_rectangle(
                state,
                x,
                registers[0x43],
                registers[0x42],
                registers[0x47],
                registers[0x46],
            );
            let in_objects = object_window is Some && (object_window->0)[x] != 0xffff;
            &&& registers[1] < 0x20 ==> window == 31
            &&& registers[1] >= 0x20 && in_first ==> window == registers[0x48]
            &&& registers[1] >= 0x20 && !in_first && in_second ==> window == registers[0x49]
            &&& registers[1] >= 0x20 && !in_first && !in_second && in_objects ==> window
                == registers[0x4b]
            &&& registers[1] >= 0x20 && !in_first && !in_second && !in_objects ==> window
                == registers[0x4a]
        }),
{
    lemma_control(state);
    assert(13 + 0 == 13 && 13 + 1 == 14);
    assert(state.in_window(0, x) == (state.control().has_bit(13) && in_rectangle(
        state,
        x,
        state.registers[0x41],
        state.registers[0x40],
        state.registers[0x45],
        state.registers[0x44],
    )));
    assert(state.in_window(1, x) == (state.control().has_bit(14) && in_rectangle(
        state,
        x,
        state.registers[0x43],
        state.registers[0x42],
        state.registers[0x47],
        state.registers[0x46],
    )));
}

/// The colour that an object would give to a pixel of the line, 0xffff for none: it
/// shows a colour there, and the window shows the objects.
pub open spec fn object_offer(state: PpuState, object: Object, x: int) -> u16 {
    match state.object_colour(object, x) {
        Some(colour) => if state.window(x, state.object_window()).has_bit(4) {
            colour
        } else {
            0xffff
        },
        None => 0xffff,
    }
}

/// The colour that a background would give to a pixel of the line, 0xffff for none.
pub open spec fn layer_offer(state: PpuState, layer: int, x: int) -> u16 {
    match state.layer_colour(layer, x) {
        Some(colour) => if state.window(x, state.object_window()).has_bit(layer as u8) {
            colour
        } else {
            0xffff
        },
        None => 0xffff,
    }
}

/// Drawing gives a pixel what is offered to it, if nothing has been drawn to it yet.
pub proof fn empty_pixels_take_what_is_offered(
    state: PpuState,
    line: Seq<u16>,
    object: Object,
    layer: int,
    x: int,
)
    requires
        0 <= x < 240,
        0 <= layer < 4,
    ensures
        state.object_drawn(line, object, state.object_window())[x] == (if line[x] == 0xffff {
            object_offer(state, object, x)
        } else {
            line[x]
        }),
        state.layer_drawn(line, layer, state.object_window())[x] == (if line[x] == 0xffff {
            layer_offer(state, layer, x)
        } else {
            line[x]
        }),
{
}

/// While objects are drawn that offer nothing, a pixel stays empty.
proof fn lemma_no_offers(state: PpuState, line: Seq<u16>, objects: Seq<Object>, count: nat, x: int)
    requires
        0 <= x < 240,
        line[x] == 0xffff,
        count <= objects.len(),
        forall|j: int| 0 <= j < count ==> object_offer(state, #[trigger] objects[j], x) == 0xffff,
    ensures
        state.objects_drawn(line, objects, state.object_window(), count)[x] == 0xffff,
    decreases count,
{
    if count > 0 {
        lemma_no_offers(state, line, objects, (count - 1) as nat, x);
        empty_pixels_take_what_is_offered(
            state,
            state.objects_drawn(line, objects, state.object_window(), (count - 1) as nat),
            objects[count - 1],
            0,
            x,
        );
    }
}

/// The first object that offers a colour gives it to the pixel.
proof fn lemma_first_offer(
    state: PpuState,
    line: Seq<u16>,
    objects: Seq<Object>,
    count: nat,
    k: int,
    x: int,
)
    requires
        0 <= x < 240,
        line[x] == 0xffff,
        0 <= k < count <= objects.len(),
        forall|j: int| 0 <= j < k ==> object_offer(state, #[trigger] objects[j], x) == 0xffff,
        object_offer(state, objects[k], x) != 0xffff,
    ensures
        state.objects_drawn(line, objects, state.object_window(), count)[x] == object_offer(
            state,
            objects[k],
            x,
        ),
    decreases count,
{
    let last = (count - 1) as nat;
    let before = state.objects_drawn(line, objects, state.object_window(), last);
    empty_pixels_take_what_is_offered(state, before, objects[last as int], 0, x);
    if k < last {
        lemma_first_offer(state, line, objects, last, k, x);
    } else {
        lemma_no_offers(state, line, objects, last, x);
    }
}

/// How many of the objects have been drawn after the first `count` backgrounds.
spec fn drawn_objects(state: PpuState, count: nat) -> nat {
    if count == 0 {
        0
    } else {
        leading(state.shown_objects(), state.bg_priority(state.layers()[count - 1]))
    }
}

proof fn lemma_front(state: PpuState, priority: u8, i: int)
    requires
        0 <= i < state.shown_objects().len(),
    ensures
        (i < leading(state.shown_objects(), priority)) == (state.shown_objects()[i].priority
            <= priority),
{
    let objects = state.shown_objects();
    assert forall|j: int, k: int| 0 <= j < k < objects.len() implies (#[trigger] objects[j]).priority
        <= (#[trigger] objects[k]).priority by {
        objects_are_sorted(state, j, k);
    }
    leading_objects_are_those_in_front(objects, priority, i);
}

/// The objects that are left after some backgrounds are those behind the last of
/// them, and before the next background come those up to its priority.
proof fn lemma_objects_left(state: PpuState, count: nat)
    requires
        count <= state.layers().len(),
    ensures
        drawn_objects(state, count) <= state.shown_objects().len(),
        state.composed(count).1 == state.shown_objects().skip(drawn_objects(state, count) as int),
        count < state.layers().len() ==> drawn_objects(state, count) + leading(
            state.composed(count).1,
            state.bg_priority(state.layers()[count as int]),
        ) == drawn_objects(state, count + 1),
    decreases count,
{
    let objects = state.shown_objects();
    if count > 0 {
        lemma_objects_left(state, (count - 1) as nat);
        lemma_leading(objects, state.bg_priority(state.layers()[count - 1]));
        let before = drawn_objects(state, (count - 1) as nat);
        let end = leading(
            state.composed((count - 1) as nat).1,
            state.bg_priority(state.layers()[count - 1]),
        );
        assert(objects.skip(before as int).skip(end as int) =~= objects.skip((before + end) as int));
    } else {
        assert(objects.skip(0) =~= objects);
    }
    if count < state.layers().len() {
        let done = drawn_objects(state, count);
        let priority = state.bg_priority(state.layers()[count as int]);
        lemma_leading(objects, priority);
        if count > 0 {
            layers_are_sorted(state, count - 1, count as int);
            if done > 0 {
                lemma_front(state, state.bg_priority(state.layers()[count - 1]), done - 1);
                lemma_front(state, priority, done - 1);
            }
        }
        lemma_leading_skip(objects, done, priority);
    }
}

/// Skipping objects that are in front leaves the others that are in front.
proof fn lemma_leading_skip(objects: Seq<Object>, done: nat, priority: u8)
    requires
        done <= leading(objects, priority),
    ensures
        leading(objects, priority) <= objects.len(),
        done + leading(objects.skip(done as int), priority) == leading(objects, priority),
    decreases objects.len(),
{
    lemma_leading(objects, priority);
    let rest = objects.skip(done as int);
    if objects.len() == done {
        assert(rest.len() == 0);
    } else {
        assert(rest.last() == objects.last());
        if objects.last().priority > priority {
            lemma_leading_skip(objects.drop_last(), done, priority);
            assert(rest.drop_last() =~= objects.drop_last().skip(done as int));
        }
    }
}

/// After some backgrounds a pixel that nothing has been offered to is empty.
proof fn lemma_still_empty(state: PpuState, count: nat, x: int)
    requires
        0 <= x < 240,
        count <= state.layers().len(),
        forall|j: int|
            0 <= j < drawn_objects(state, count) ==> object_offer(
                state,
                #[trigger] state.shown_objects()[j],
                x,
            ) == 0xffff,
        forall|j: int|
            0 <= j < count ==> layer_offer(state, #[trigger] state.layers()[j], x) == 0xffff,
    ensures
        state.composed(count).0[x] == 0xffff,
    decreases count,
{
    if count > 0 {
        let last = (count - 1) as nat;
        let objects = state.shown_objects();
        lemma_objects_left(state, last);
        lemma_objects_left(state, count);
        let done = drawn_objects(state, last);
        let (line, rest) = state.composed(last);
        let layer = state.layers()[last as int];
        let end = leading(rest, state.bg_priority(layer));
        assert(done + end == drawn_objects(state, count));
        lemma_still_empty(state, last, x);
        assert forall|j: int| 0 <= j < end implies object_offer(state, #[trigger] rest[j], x)
            == 0xffff by {
            assert(rest[j] == objects[done + j]);
        }
        lemma_leading(rest, state.bg_priority(layer));
        lemma_no_offers(state, line, rest, end, x);
        crate::ppu::render::lemma_layers(state, last as int);
        empty_pixels_take_what_is_offered(
            state,
            state.objects_drawn(line, rest, state.object_window(), end),
            objects[0],
            layer,
            x,
        );
    }
}

/// What has been drawn to a pixel stays to the end.
proof fn lemma_stays(state: PpuState, count: nat, x: int)
    requires
        0 <= x < 240,
        count <= state.layers().len(),
        state.composed(count).0[x] != 0xffff,
    ensures
        state.composed_line()[x] == state.composed(count).0[x],
{
    lemma_stays_between(state, count, state.layers().len(), x);
    let (line, rest) = state.composed(state.layers().len());
    drawn_pixel_stays_under_objects(state, line, rest, state.object_window(), leading(rest, 4), x);
}

proof fn lemma_stays_between(state: PpuState, count: nat, later: nat, x: int)
    requires
        0 <= x < 240,
        count <= later <= state.layers().len(),
        state.composed(count).0[x] != 0xffff,
    ensures
        state.composed(later).0[x] == state.composed(count).0[x],
    decreases later - count,
{
    if later > count {
        let last = (later - 1) as nat;
        lemma_stays_between(state, count, last, x);
        let (line, rest) = state.composed(last);
        let layer = state.layers()[last as int];
        let end = leading(rest, state.bg_priority(layer));
        drawn_pixel_stays_under_objects(state, line, rest, state.object_window(), end, x);
        drawn_pixel_stays(
            state,
            state.objects_drawn(line, rest, state.object_window(), end),
            state.shown_objects()[0],
            layer,
            state.object_window(),
            x,
        );
    }
}

/// A background shows through where it offers a colour and nothing in front of it
/// does: no background with a lower priority number, or with the same one and a lower
/// number of its own, and no object with a priority number that is not higher.
pub proof fn front_background_is_shown(state: PpuState, layer: int, x: int)
    requires
        0 <= x < 240,
        0 <= layer < 4,
        state.shows_layer(layer),
        layer_offer(state, layer, x) != 0xffff,
        forall|other: int|
            0 <= other < 4 && #[trigger] state.shows_layer(other) && (state.bg_priority(other)
                < state.bg_priority(layer) || (state.bg_priority(other) == state.bg_priority(layer)
                && other < layer)) ==> layer_offer(state, other, x) == 0xffff,
        forall|j: int|
            0 <= j < state.shown_objects().len() && (#[trigger] state.shown_objects()[j]).priority
                <= state.bg_priority(layer) ==> object_offer(state, state.shown_objects()[j], x)
                == 0xffff,
    ensures
        state.composed_line()[x] == layer_offer(state, layer, x),
{
    shown_layers_are_drawn(state, layer);
    let i = choose|i: int| 0 <= i < state.layers().len() && state.layers()[i] == layer;
    let count = i as nat;
    let objects = state.shown_objects();
    lemma_objects_left(state, count);
    lemma_objects_left(state, count + 1);
    assert forall|j: int| 0 <= j < drawn_objects(state, count + 1) implies object_offer(
        state,
        #[trigger] objects[j],
        x,
    ) == 0xffff by {
        lemma_front(state, state.bg_priority(layer), j);
    }
    let done = drawn_objects(state, count);
    assert(done <= drawn_objects(state, count + 1));
    assert forall|j: int| 0 <= j < count implies layer_offer(
        state,
        #[trigger] state.layers()[j],
        x,
    ) == 0xffff by {
        layers_are_sorted(state, j, i);
        crate::ppu::render::lemma_layers(state, j);
        assert(state.shows_layer(state.layers()[j]));
    }
    lemma_still_empty(state, count, x);
    let (line, rest) = state.composed(count);
    let end = leading(rest, state.bg_priority(layer));
    assert forall|j: int| 0 <= j < end implies object_offer(state, #[trigger] rest[j], x)
        == 0xffff by {
        assert(rest[j] == objects[done + j]);
    }
    lemma_leading(rest, state.bg_priority(layer));
    lemma_no_offers(state, line, rest, end, x);
    empty_pixels_take_what_is_offered(
        state,
        state.objects_drawn(line, rest, state.object_window(), end),
        objects[0],
        layer,
        x,
    );
    lemma_stays(state, count + 1, x);
}

/// An object shows where it offers a colour and nothing in front of it does: no object
/// before it in the order of the priorities, and no background with a lower priority
/// number.
pub proof fn front_object_is_shown(state: PpuState, k: int, x: int)
    requires
        0 <= x < 240,
        0 <= k < state.shown_objects().len(),
        object_offer(state, state.shown_objects()[k], x) != 0xffff,
        forall|j: int|
            0 <= j < k ==> object_offer(state, #[trigger] state.shown_objects()[j], x) == 0xffff,
        forall|other: int|
            0 <= other < 4 && #[trigger] state.shows_layer(other) && state.bg_priority(other)
                < state.shown_objects()[k].priority ==> layer_offer(state, other, x) == 0xffff,
    ensures
        state.composed_line()[x] == object_offer(state, state.shown_objects()[k], x),
{
    lemma_first_behind(state, k, 0);
    let count = choose|count: nat| #[trigger] is_first_behind(state, k, count);
    let objects = state.shown_objects();
    lemma_objects_left(state, count);
    let done = drawn_objects(state, count);
    if count > 0 {
        lemma_front(state, state.bg_priority(state.layers()[count - 1]), k);
    }
    assert(done <= k);
    assert forall|j: int| 0 <= j < count implies layer_offer(
        state,
        #[trigger] state.layers()[j],
        x,
    ) == 0xffff by {
        crate::ppu::render::lemma_layers(state, j);
        assert(state.shows_layer(state.layers()[j]));
    }
    lemma_still_empty(state, count, x);
    let (line, rest) = state.composed(count);
    assert forall|j: int| 0 <= j < k - done implies object_offer(state, #[trigger] rest[j], x)
        == 0xffff by {
        assert(rest[j] == objects[done + j]);
    }
    assert(rest[k - done] == objects[k]);
    if count < state.layers().len() {
        let layer = state.layers()[count as int];
        let end = leading(rest, state.bg_priority(layer));
        lemma_front(state, state.bg_priority(layer), k);
        lemma_leading(rest, state.bg_priority(layer));
        lemma_objects_left(state, count + 1);
        lemma_first_offer(state, line, rest, end, k - done, x);
        drawn_pixel_stays(
            state,
            state.objects_drawn(line, rest, state.object_window(), end),
            objects[0],
            layer,
            state.object_window(),
            x,
        );
        lemma_stays(state, count + 1, x);
    } else {
        let end = leading(rest, 4);
        lemma_all_in_front(state, done);
        lemma_first_offer(state, line, rest, end, k - done, x);
    }
}

/// Whether the backgrounds before a place of their order are in front of an object, and
/// the one at the place is not.
spec fn is_first_behind(state: PpuState, k: int, count: nat) -> bool {
    &&& count <= state.layers().len()
    &&& forall|j: int|
        0 <= j < count ==> state.bg_priority(#[trigger] state.layers()[j])
            < state.shown_objects()[k].priority
    &&& count < state.layers().len() ==> state.bg_priority(state.layers()[count as int])
        >= state.shown_objects()[k].priority
}

proof fn lemma_first_behind(state: PpuState, k: int, from: nat)
    requires
        from <= state.layers().len(),
        forall|j: int|
            0 <= j < from ==> state.bg_priority(#[trigger] state.layers()[j])
                < state.shown_objects()[k].priority,
    ensures
        exists|count: nat| #[trigger] is_first_behind(state, k, count),
    decreases state.layers().len() - from,
{
    if from < state.layers().len() && state.bg_priority(state.layers()[from as int])
        < state.shown_objects()[k].priority {
        lemma_first_behind(state, k, from + 1);
    } else {
        assert(is_first_behind(state, k, from));
    }
}

/// All objects that are left come before the end.
proof fn lemma_all_in_front(state: PpuState, done: nat)
    requires
        done <= state.shown_objects().len(),
    ensures
        leading(state.shown_objects().skip(done as int), 4)
            == state.shown_objects().skip(done as int).len(),
{
    let rest = state.shown_objects().skip(done as int);
    if rest.len() > 0 {
        let last = state.shown_objects().len() - 1;
        assert(rest.last() == state.shown_objects()[last]);
        crate::ppu::laws::shown_priorities_are_small(state, last);
    }
}

/// Where nothing offers a colour, nothing is drawn.
pub proof fn empty_pixel_stays_empty(state: PpuState, x: int)
    requires
        0 <= x < 240,
        forall|layer: int|
            0 <= layer < 4 && #[trigger] state.shows_layer(layer) ==> layer_offer(state, layer, x)
                == 0xffff,
        forall|j: int|
            0 <= j < state.shown_objects().len() ==> object_offer(
                state,
                #[trigger] state.shown_objects()[j],
                x,
            ) == 0xffff,
    ensures
        state.composed_line()[x] == 0xffff,
{
    let count = state.layers().len();
    let objects = state.shown_objects();
    lemma_objects_left(state, count);
    assert forall|j: int| 0 <= j < count implies layer_offer(
        state,
        #[trigger] state.layers()[j],
        x,
    ) == 0xffff by {
        crate::ppu::render::lemma_layers(state, j);
        assert(state.shows_layer(state.layers()[j]));
    }
    lemma_still_empty(state, count, x);
    let (line, rest) = state.composed(count);
    let done = drawn_objects(state, count);
    assert forall|j: int| 0 <= j < rest.len() implies object_offer(state, #[trigger] rest[j], x)
        == 0xffff by {
        assert(rest[j] == objects[done + j]);
    }
    lemma_leading(rest, 4);
    lemma_no_offers(state, line, rest, leading(rest, 4), x);
}

/// The bytes of a line hold the colours of its pixels, the low byte first; a pixel to
/// which nothing was drawn has the first colour of the palette.
pub proof fn line_holds_its_colours(state: PpuState, x: int)
    requires
        0 <= x < 240,
    ensures
        state.line_bytes().len() == 480,
        ({
            let drawn = state.composed_line()[x];
            let colour = state.line_bytes()[2 * x] + 0x100 * state.line_bytes()[2 * x + 1];
            colour == (if drawn == 0xffff {
                state.palettes[0] + 0x100 * state.palettes[1]
            } else {
                drawn as int
            })
        }),
{
    assert((2 * x) / 2 == x && (2 * x) % 2 == 0 && (2 * x + 1) / 2 == x && (2 * x + 1) % 2 == 1);
}

/// The time of the picture unit. It waits; then a line of the picture is shown and 228
/// cycles pass before the next one begins, which is shown 1004 cycles later. A line
/// after the picture takes 1232 cycles, and the line after the one with the number 228
/// is the first one. At the end of the line 160 the reference points are loaded.
pub proof fn picture_unit_keeps_time(state: PpuState)
    requires
        state.line <= 228,
        state.hblank ==> state.line < 160,
    ensures
        ({
            let after = state.stepped();
            let next: int = if state.line == 228 { 0 } else { state.line + 1 };
            &&& state.wait_cycles > 0 ==> after == (PpuState {
                wait_cycles: (state.wait_cycles - 1) as u16,
                ..state
            })
            &&& state.wait_cycles == 0 && state.line < 160 && !state.hblank ==> after.hblank
                && after.line == state.line && after.wait_cycles == 228
            &&& state.wait_cycles == 0 && state.hblank ==> !after.hblank && after.line == next
                && after.wait_cycles == 1004 && after.reference_points == state.reference_points
            &&& state.wait_cycles == 0 && state.line >= 160 ==> !after.hblank && after.line == next
                && after.wait_cycles == 1232
            &&& state.wait_cycles == 0 && state.line > 160 ==> after.reference_points
                == state.reference_points
            &&& state.wait_cycles == 0 && state.line == 160 && state.reference_points.len() == 4
                ==> after.reference_points == seq![
                state.reference_register(0),
                state.reference_register(1),
                state.reference_register(2),
                state.reference_register(3),
            ]
            &&& after.palettes == state.palettes && after.vram == state.vram && after.registers
                == state.registers && after.oam == state.oam
        }),
{
    if state.wait_cycles == 0 && state.line == 160 && state.reference_points.len() == 4 {
        assert(state.all_references_loaded().reference_points =~= seq![
            state.reference_register(0),
            state.reference_register(1),
            state.reference_register(2),
            state.reference_register(3),
        ]);
    }
}

/// Which interrupts the picture unit asks for in a cycle, each where it is enabled and
/// its bit in the status register is set: the second one when a line has been shown,
/// the first one at the end of the line 160, the third one when the line begins whose
/// number is in the register.
pub proof fn picture_unit_requests_interrupts(state: PpuState, interrupts: u32, bit: u32)
    requires
        bit < 32,
    ensures
        ({
            let after = state.requests(interrupts);
            let status = state.registers[4];
            let shown = state.wait_cycles == 0 && !state.hblank && state.line < 160;
            let ended = state.wait_cycles == 0 && (state.hblank || state.line >= 160);
            let next: int = if state.line == 228 { 0 } else { (state.line + 1) % 256 };
            after.has_bit(bit) == (interrupts.has_bit(bit) || (bit == 16 && interrupts.has_bit(0)
                && ended && state.line == 160 && status.has_bit(3)) || (bit == 17
                && interrupts.has_bit(1) && shown && status.has_bit(4)) || (bit == 18
                && interrupts.has_bit(2) && ended && status.has_bit(5) && next
                == state.registers[5]))
        }),
{
    set_bit_is_local_u32(interrupts, 16, true, bit);
    set_bit_is_local_u32(interrupts, 16, true, 2);
    set_bit_is_local_u32(interrupts, 17, true, bit);
    set_bit_is_local_u32(requested(interrupts, 0), 18, true, bit);
    set_bit_is_local_u32(interrupts, 18, true, bit);
}

/// Writing a register of the picture unit replaces its byte. The bytes from 0x28 on
/// hold two pairs of reference points of four bytes each, 0x10 bytes apart; writing one
/// loads its point, but for the last byte of each pair. Reading gives the bytes back,
/// the lowest first, but for the word with the status, whose upper half holds the line.
pub proof fn picture_registers_are_written_and_read(
    state: PpuState,
    address: u32,
    value: u8,
    read: u32,
    bit: u32,
)
    requires
        state.well_formed(),
        address < 0x60,
        read + 3 < 0x60,
        3 <= bit < 32,
    ensures
        ({
            let after = state.register_written(address, value);
            let stored = PpuState { registers: after.registers, ..state };
            let point: int = if 0x28 <= address < 0x2c {
                0
            } else if 0x2c <= address < 0x2f {
                1
            } else if 0x38 <= address < 0x3c {
                2
            } else if 0x3c <= address < 0x3f {
                3
            } else {
                4
            };
            &&& after.registers == state.registers.update(address as int, value)
            &&& after == (PpuState {
                reference_points: if point < 4 {
                    state.reference_points.update(point, stored.reference_register(point))
                } else {
                    state.reference_points
                },
                ..stored
            })
            &&& read != 4 ==> state.register_word(read) == le32(state.registers, read as int)
            &&& state.register_word(4).has_bit(bit) == ((le16(state.registers, 4) + 0x1_0000
                * state.line) as u32).has_bit(bit)
        }),
{
    let word = le16(state.registers, 4) as u32 | ((state.line as u32) << 16);
    let waited = state.line == state.registers[5];
    let first = word.with_bit(0, state.line >= 160);
    let second = first.with_bit(1, state.hblank);
    set_bit_is_local_u32(word, 0, state.line >= 160, bit);
    set_bit_is_local_u32(first, 1, state.hblank, bit);
    set_bit_is_local_u32(second, 2, waited, bit);
    crate::bits::lemma_joined(le16(state.registers, 4), state.line);
}

/// What a cycle brings for the screen: the pixels of a line when it is shown and not
/// blanked, the end of the picture after the line 228, and nothing otherwise.
pub proof fn cycles_bring_their_events(state: PpuState, event: PpuEvent)
    requires
        state.line <= 228,
        state.hblank ==> state.line < 160,
    ensures
        ({
            let shown = state.wait_cycles == 0 && !state.hblank && state.line < 160
                && !state.registers[0].has_bit(7);
            let complete = state.wait_cycles == 0 && state.line == 228;
            is_event_of(event, state) == (match event {
                PpuEvent::Line(line, pixels) => shown && line == state.line && pixels@
                    == state.line_bytes(),
                PpuEvent::Frame => complete,
                PpuEvent::Nothing => !shown && !complete,
            })
        }),
{
    lemma_control(state);
}

/// When a line can be shown. One that is blanked can; in a mode that does not exist
/// none can. No background and no object may be drawn into a window with special
/// effects.
pub proof fn lines_can_be_shown(state: PpuState, layer: int, x: int, i: int)
    requires
        0 <= layer < 4,
        0 <= x < 240,
    ensures
        ({
            let blanked = state.registers[0].has_bit(7);
            let mode = state.registers[0] as int % 8;
            &&& blanked ==> state.line_drawable()
            &&& !blanked && mode >= 6 ==> !state.line_drawable()
            &&& !blanked && state.shows_layer(layer) && state.layer_colour(layer, x) is Some
                && state.window(x, state.object_window()).has_bit(5) ==> !state.line_drawable()
            &&& !blanked && 0 <= i < state.shown_objects().len() && !state.object_drawable(
                state.shown_objects()[i],
                state.object_window(),
            ) ==> !state.line_drawable()
        }),
{
    lemma_control(state);
}

/// Without windows and objects every line of the six modes can be shown.
pub proof fn plain_lines_can_be_shown(state: PpuState)
    requires
        state.registers[0] as int % 8 < 6,
        (state.registers[1] as int) < 16,
    ensures
        state.line_drawable(),
{
    lemma_control(state);
    vstd::arithmetic::power2::lemma2_to64();
    crate::bits::bits_are_digits_u8(state.registers[1], 4);
    crate::bits::bits_are_digits_u8(state.registers[1], 7);
    assert(!0b11111u8.has_bit(5)) by {
        crate::bits::bits_are_digits_u8(0b11111u8, 5);
    }
}

/// The object window can be drawn only where all objects that make it up can.
pub proof fn object_window_can_be_drawn(state: PpuState, i: int)
    requires
        0 <= i < state.selected(true, 128).len(),
        !state.object_drawable(state.selected(true, 128)[i], None),
        state.registers[1].has_bit(7),
        !state.registers[0].has_bit(7),
    ensures
        !state.line_drawable(),
{
    lemma_control(state);
}

/// A line can be shown where its mode exists and all that is on it can be drawn.
pub proof fn drawable_lines_can_be_shown(state: PpuState)
    requires
        state.registers[0] as int % 8 < 6,
        forall|i: int|
            0 <= i < state.selected(true, 128).len() ==> state.object_drawable(
                #[trigger] state.selected(true, 128)[i],
                None,
            ),
        forall|i: int|
            0 <= i < state.shown_objects().len() ==> state.object_drawable(
                #[trigger] state.shown_objects()[i],
                state.object_window(),
            ),
        forall|layer: int, x: int|
            0 <= layer < 4 && 0 <= x < 240 && #[trigger] state.layer_colour(layer, x) is Some
                ==> !state.window(x, state.object_window()).has_bit(5),
    ensures
        state.line_drawable(),
{
    lemma_control(state);
}

} // verus!
