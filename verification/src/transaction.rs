//! Properties of the controller's bus transaction that span many events.

use vstd::prelude::*;

use crate::controller::{
    after_event, blue_channel, commit_started, green_channel, next_action, outgoing_of,
    pressed_in, red_channel, BusAction, BusEvent, BusStage, PadView, INCOMING_BITS,
    OUTGOING_BITS,
};
use crate::wire::{
    bit_of, bit_weight, frame_of_wire, lemma_wire_order_bits, msb_first_bytes, packed_byte,
    wire_order,
};

verus! {

/// The state reached from `v` after the pin driver reports `events` in order.
pub open spec fn run(v: PadView, events: Seq<BusEvent>) -> PadView
    decreases events.len(),
{
    if events.len() == 0 {
        v
    } else {
        run(after_event(v, events[0]), events.drop_first())
    }
}

/// The actions requested from `v` while the pin driver reports `events` in order, one
/// before each event.
pub open spec fn trace(v: PadView, events: Seq<BusEvent>) -> Seq<BusAction>
    decreases events.len(),
{
    if events.len() == 0 {
        Seq::empty()
    } else {
        seq![next_action(v)] + trace(after_event(v, events[0]), events.drop_first())
    }
}

/// `n` reports of success.
pub open spec fn successes(n: nat) -> Seq<BusEvent> {
    Seq::new(n, |i: int| BusEvent::Done)
}

/// The reports of a button frame sampled at these levels.
pub open spec fn samples(levels: Seq<bool>) -> Seq<BusEvent> {
    Seq::new(levels.len(), |i: int| BusEvent::Level(levels[i]))
}

/// The reports of a commit in which every pin operation succeeds and the button frame
/// is sampled at `levels`.
pub open spec fn clean_commit(levels: Seq<bool>) -> Seq<BusEvent> {
    successes(1) + successes(OUTGOING_BITS as nat) + samples(levels) + successes(1)
}

/// The actions of a commit that clocks out `outgoing` and then 128 bits in.
pub open spec fn commit_actions(outgoing: Seq<bool>) -> Seq<BusAction> {
    seq![BusAction::Lock] + outgoing.map_values(|b: bool| BusAction::ClockOut(b)) + Seq::new(
        INCOMING_BITS as nat,
        |i: int| BusAction::ClockIn,
    ) + seq![BusAction::Unlock]
}

/// Running two lists of events in turn is running them joined.
pub proof fn lemma_run_append(v: PadView, a: Seq<BusEvent>, b: Seq<BusEvent>)
    ensures
        run(v, a + b) == run(run(v, a), b),
        trace(v, a + b) == trace(v, a) + trace(run(v, a), b),
    decreases a.len(),
{
    if a.len() == 0 {
        assert(a + b =~= b);
        assert(trace(v, a) + trace(run(v, a), b) =~= trace(v, b));
    } else {
        assert((a + b).drop_first() =~= a.drop_first() + b);
        lemma_run_append(after_event(v, a[0]), a.drop_first(), b);
        assert(trace(v, a + b) =~= trace(v, a) + trace(run(v, a), b));
    }
}

/// While the colours are clocked out, each success sends the next bit, and the last one
/// moves on to reading.
proof fn lemma_write_phase(v: PadView)
    requires
        v.stage == BusStage::Write,
        v.outgoing.len() == OUTGOING_BITS,
        v.sent < OUTGOING_BITS,
    ensures
        run(v, successes((OUTGOING_BITS - v.sent) as nat)) == (PadView {
            stage: BusStage::Read,
            sent: OUTGOING_BITS as nat,
            incoming: Seq::empty(),
            ..v
        }),
        trace(v, successes((OUTGOING_BITS - v.sent) as nat)) == v.outgoing.subrange(
            v.sent as int,
            OUTGOING_BITS as int,
        ).map_values(|b: bool| BusAction::ClockOut(b)),
    decreases OUTGOING_BITS - v.sent,
{
    let n = (OUTGOING_BITS - v.sent) as nat;
    let w = after_event(v, BusEvent::Done);
    assert(successes(n).drop_first() =~= successes((n - 1) as nat));
    if v.sent + 1 == OUTGOING_BITS {
        assert(successes((n - 1) as nat) =~= Seq::<BusEvent>::empty());
        assert(run(v, successes(n)) == run(w, successes((n - 1) as nat)));
        assert(run(w, Seq::<BusEvent>::empty()) == w);
        assert(trace(v, successes(n)) == seq![next_action(v)] + trace(w, successes((n - 1) as nat)));
        assert(trace(w, Seq::<BusEvent>::empty()) == Seq::<BusAction>::empty());
        assert(trace(v, successes(n)) =~= v.outgoing.subrange(
            v.sent as int,
            OUTGOING_BITS as int,
        ).map_values(|b: bool| BusAction::ClockOut(b)));
    } else {
        lemma_write_phase(w);
        assert(w.sent == v.sent + 1);
        assert(trace(v, successes(n)) == seq![next_action(v)] + trace(w, successes((n - 1) as nat)));
        assert(next_action(v) == BusAction::ClockOut(v.outgoing[v.sent as int]));
        assert(trace(v, successes(n)) =~= v.outgoing.subrange(
            v.sent as int,
            OUTGOING_BITS as int,
        ).map_values(|b: bool| BusAction::ClockOut(b)));
    }
}

/// While the button frame is clocked in, each sample is kept, and the last one decodes the
/// buttons and moves on to releasing the bus.
proof fn lemma_read_phase(v: PadView, levels: Seq<bool>)
    requires
        v.stage == BusStage::Read,
        levels.len() == INCOMING_BITS,
        v.incoming.len() < INCOMING_BITS,
        v.incoming == levels.take(v.incoming.len() as int),
    ensures
        run(v, samples(levels.skip(v.incoming.len() as int))) == (PadView {
            stage: BusStage::Unlock,
            incoming: levels,
            buttons: pressed_in(frame_of_wire(levels)),
            ..v
        }),
        trace(v, samples(levels.skip(v.incoming.len() as int))) == Seq::new(
            (INCOMING_BITS - v.incoming.len()) as nat,
            |i: int| BusAction::ClockIn,
        ),
    decreases INCOMING_BITS - v.incoming.len(),
{
    let k = v.incoming.len() as int;
    let rest = samples(levels.skip(k));
    let w = after_event(v, rest[0]);
    assert(rest[0] == BusEvent::Level(levels[k]));
    assert(v.incoming.push(levels[k]) =~= levels.take(k + 1));
    assert(rest.drop_first() =~= samples(levels.skip(k + 1)));
    if k + 1 == INCOMING_BITS {
        assert(levels.take(k + 1) =~= levels);
        assert(samples(levels.skip(k + 1)) =~= Seq::<BusEvent>::empty());
        assert(w == (PadView {
            stage: BusStage::Unlock,
            incoming: levels,
            buttons: pressed_in(frame_of_wire(levels)),
            ..v
        }));
        assert(run(v, rest) == run(w, rest.drop_first()));
        assert(run(w, Seq::<BusEvent>::empty()) == w);
        assert(trace(v, rest) == seq![next_action(v)] + trace(w, rest.drop_first()));
        assert(trace(w, Seq::<BusEvent>::empty()) == Seq::<BusAction>::empty());
        assert(trace(v, rest) =~= Seq::new(
            (INCOMING_BITS - v.incoming.len()) as nat,
            |i: int| BusAction::ClockIn,
        ));
    } else {
        lemma_read_phase(w, levels);
        assert(w.incoming.len() == k + 1);
        assert(trace(v, rest) == seq![next_action(v)] + trace(w, rest.drop_first()));
        assert(trace(v, rest) =~= Seq::new(
            (INCOMING_BITS - v.incoming.len()) as nat,
            |i: int| BusAction::ClockIn,
        ));
    }
}

/// A commit in which every pin operation succeeds requests, in order: the bus lock, the
/// red, green and blue frames bit by bit, 128 bits in, and the bus release. It ends idle,
/// with the colours unchanged and the buttons decoded from the bits read.
pub proof fn lemma_clean_commit(
    red: Seq<u8>,
    green: Seq<u8>,
    blue: Seq<u8>,
    buttons: Seq<bool>,
    levels: Seq<bool>,
)
    requires
        red.len() == 16,
        green.len() == 16,
        blue.len() == 16,
        levels.len() == INCOMING_BITS,
    ensures
        trace(commit_started(red, green, blue, buttons), clean_commit(levels)) == commit_actions(
            outgoing_of(red, green, blue),
        ),
        run(commit_started(red, green, blue, buttons), clean_commit(levels)) == (PadView {
            red,
            green,
            blue,
            buttons: pressed_in(frame_of_wire(levels)),
            stage: BusStage::Idle,
            outgoing: outgoing_of(red, green, blue),
            sent: OUTGOING_BITS as nat,
            incoming: levels,
        }),
        next_action(run(commit_started(red, green, blue, buttons), clean_commit(levels)))
            == BusAction::Idle,
{
    let v0 = commit_started(red, green, blue, buttons);
    let one = successes(1);
    let writes = successes(OUTGOING_BITS as nat);
    let reads = samples(levels);
    // Lock.
    let v1 = after_event(v0, BusEvent::Done);
    assert(one.drop_first() =~= Seq::<BusEvent>::empty());
    assert(run(v0, one) == run(v1, Seq::<BusEvent>::empty()));
    assert(trace(v0, one) == seq![next_action(v0)] + trace(v1, Seq::<BusEvent>::empty()));
    assert(trace(v0, one) =~= seq![BusAction::Lock]);
    // Write.
    assert(v1.outgoing.len() == OUTGOING_BITS);
    lemma_write_phase(v1);
    let v2 = run(v1, writes);
    assert(v1.outgoing.subrange(0, OUTGOING_BITS as int) =~= v1.outgoing);
    // Read.
    assert(v2.incoming =~= levels.take(0));
    assert(levels.skip(0) =~= levels);
    lemma_read_phase(v2, levels);
    let v3 = run(v2, reads);
    // Unlock.
    let v4 = after_event(v3, BusEvent::Done);
    assert(run(v3, one) == run(v4, Seq::<BusEvent>::empty()));
    assert(trace(v3, one) == seq![next_action(v3)] + trace(v4, Seq::<BusEvent>::empty()));
    assert(trace(v3, one) =~= seq![BusAction::Unlock]);
    // Joined.
    lemma_run_append(v0, one, writes);
    lemma_run_append(v0, one + writes, reads);
    lemma_run_append(v0, one + writes + reads, one);
    assert(clean_commit(levels) == one + writes + reads + one);
    assert(trace(v0, clean_commit(levels)) =~= commit_actions(outgoing_of(red, green, blue)));
}

/// Bus events never change the colours nor the bits being sent.
pub proof fn lemma_bus_keeps_colours(v: PadView, events: Seq<BusEvent>)
    ensures
        run(v, events).red == v.red,
        run(v, events).green == v.green,
        run(v, events).blue == v.blue,
        run(v, events).outgoing == v.outgoing,
    decreases events.len(),
{
    if events.len() > 0 {
        lemma_bus_keeps_colours(after_event(v, events[0]), events.drop_first());
    }
}

/// A finished transaction, successful or failed, ignores every further event.
pub proof fn lemma_finished_stays(v: PadView, events: Seq<BusEvent>)
    requires
        v.stage == BusStage::Idle || v.stage == BusStage::Failed,
    ensures
        run(v, events) == v,
    decreases events.len(),
{
    if events.len() > 0 {
        lemma_finished_stays(after_event(v, events[0]), events.drop_first());
    }
}

/// A pin failure before the bus is released, while locking, writing or reading, stops the
/// transaction and leaves the buttons as they were: the buttons only ever show a frame
/// that was read in full.
pub proof fn lemma_failure_keeps_buttons(v: PadView)
    requires
        v.stage == BusStage::Lock || v.stage == BusStage::Write || v.stage == BusStage::Read,
    ensures
        after_event(v, BusEvent::Failed) == (PadView { stage: BusStage::Failed, ..v }),
        after_event(v, BusEvent::Failed).buttons == v.buttons,
        next_action(after_event(v, BusEvent::Failed)) == BusAction::Failed,
{
}

/// A clean commit's actions and resulting buttons depend only on the colours and on the
/// levels read, not on the buttons held before.
pub proof fn lemma_commit_ignores_old_buttons(
    red: Seq<u8>,
    green: Seq<u8>,
    blue: Seq<u8>,
    buttons_a: Seq<bool>,
    buttons_b: Seq<bool>,
    levels: Seq<bool>,
)
    requires
        red.len() == 16,
        green.len() == 16,
        blue.len() == 16,
        levels.len() == INCOMING_BITS,
    ensures
        trace(commit_started(red, green, blue, buttons_a), clean_commit(levels)) == trace(
            commit_started(red, green, blue, buttons_b),
            clean_commit(levels),
        ),
        run(commit_started(red, green, blue, buttons_a), clean_commit(levels)) == run(
            commit_started(red, green, blue, buttons_b),
            clean_commit(levels),
        ),
{
    lemma_clean_commit(red, green, blue, buttons_a, levels);
    lemma_clean_commit(red, green, blue, buttons_b, levels);
}

/// Bit `j` of the eight read for the key at index `i`: the keys come last key first.
pub open spec fn key_level(levels: Seq<bool>, i: int, j: int) -> bool {
    levels[8 * (15 - i) + j]
}

/// All eight bits read for the key at index `i` are low.
pub open spec fn key_levels_low(levels: Seq<bool>, i: int) -> bool {
    forall|j: int| 0 <= j < 8 ==> !#[trigger] key_level(levels, i, j)
}

/// A key counts as pressed exactly when the eight bits that carry it all read low.
pub proof fn lemma_pressed_iff_levels_low(levels: Seq<bool>)
    requires
        levels.len() == INCOMING_BITS,
    ensures
        forall|i: int|
            0 <= i < 16 ==> #[trigger] pressed_in(frame_of_wire(levels))[i] == key_levels_low(
                levels,
                i,
            ),
{
    assert forall|i: int| 0 <= i < 16 implies #[trigger] pressed_in(frame_of_wire(levels))[i]
        == key_levels_low(levels, i) by {
        let a = 15 - i;
        let p = packed_byte(levels, a);
        assert(msb_first_bytes(levels).len() == 16);
        assert(frame_of_wire(levels)[i] == msb_first_bytes(levels)[a]);
        assert(0 <= p <= 255);
        assert((p as u8 == 0) == (p == 0));
        if key_levels_low(levels, i) {
            assert(!key_level(levels, i, 0));
            assert(!key_level(levels, i, 1));
            assert(!key_level(levels, i, 2));
            assert(!key_level(levels, i, 3));
            assert(!key_level(levels, i, 4));
            assert(!key_level(levels, i, 5));
            assert(!key_level(levels, i, 6));
            assert(!key_level(levels, i, 7));
        } else {
            let j = choose|j: int| 0 <= j < 8 && #[trigger] key_level(levels, i, j);
            assert(bit_weight(levels, 8 * a + j, 1) >= 0);
            assert(p > 0);
        }
    }
}

/// The frame of colour channel `c`: 0 red, 1 green, 2 blue.
pub open spec fn channel(red: Seq<u8>, green: Seq<u8>, blue: Seq<u8>, c: int) -> Seq<u8> {
    if c == 0 {
        red
    } else if c == 1 {
        green
    } else {
        blue
    }
}

/// A commit sends 384 bits: for channel `c` (red, green, blue in turn), position
/// `128 * c + 8 * a + j` carries bit `j` (least significant first) of byte `15 - a` of that
/// channel's frame. So the eight bits of key `k` in a channel sit at `128 * c + 8 * (15 - k)`.
pub proof fn lemma_commit_bits(
    red: Seq<u8>,
    green: Seq<u8>,
    blue: Seq<u8>,
    buttons: Seq<bool>,
    c: int,
    a: int,
    j: int,
)
    requires
        red.len() == 16,
        green.len() == 16,
        blue.len() == 16,
        0 <= c < 3,
        0 <= a < 16,
        0 <= j < 8,
    ensures
        commit_started(red, green, blue, buttons).outgoing.len() == OUTGOING_BITS,
        commit_started(red, green, blue, buttons).outgoing[128 * c + 8 * a + j] == bit_of(
            channel(red, green, blue, c)[15 - a],
            j,
        ),
{
    let out = commit_started(red, green, blue, buttons).outgoing;
    assert(wire_order(red).len() == 128);
    assert(wire_order(green).len() == 128);
    assert(wire_order(blue).len() == 128);
    assert(out == wire_order(red) + wire_order(green) + wire_order(blue));
    lemma_wire_order_bits(channel(red, green, blue, c), a, j);
    if c == 0 {
        assert(out[8 * a + j] == wire_order(red)[8 * a + j]);
    } else if c == 1 {
        assert(out[128 + 8 * a + j] == wire_order(green)[8 * a + j]);
    } else {
        assert(out[256 + 8 * a + j] == wire_order(blue)[8 * a + j]);
    }
}

/// In a commit where every pin operation succeeds, the `1 + 128 * c + 8 * a + j`-th action
/// (after the lock) clocks out bit `j` of byte `15 - a` of channel `c`.
pub proof fn lemma_clean_commit_clocks_out_keys(
    red: Seq<u8>,
    green: Seq<u8>,
    blue: Seq<u8>,
    buttons: Seq<bool>,
    levels: Seq<bool>,
    c: int,
    a: int,
    j: int,
)
    requires
        red.len() == 16,
        green.len() == 16,
        blue.len() == 16,
        levels.len() == INCOMING_BITS,
        0 <= c < 3,
        0 <= a < 16,
        0 <= j < 8,
    ensures
        trace(commit_started(red, green, blue, buttons), clean_commit(levels))[1 + 128 * c + 8
            * a + j] == BusAction::ClockOut(bit_of(channel(red, green, blue, c)[15 - a], j)),
{
    lemma_clean_commit(red, green, blue, buttons, levels);
    lemma_commit_bits(red, green, blue, buttons, c, a, j);
    let out = outgoing_of(red, green, blue);
    let k = 128 * c + 8 * a + j;
    let acts = commit_actions(out);
    assert(out.len() == OUTGOING_BITS);
    assert(acts[1 + k] == out.map_values(|b: bool| BusAction::ClockOut(b))[k]);
}

/// The bits a commit sends for key `k` depend on byte `k` of each channel only: two sets of
/// colours that agree there send the same bits there, whatever the other keys and buttons.
pub proof fn lemma_key_bits_depend_on_key_only(
    red1: Seq<u8>,
    green1: Seq<u8>,
    blue1: Seq<u8>,
    buttons1: Seq<bool>,
    red2: Seq<u8>,
    green2: Seq<u8>,
    blue2: Seq<u8>,
    buttons2: Seq<bool>,
    k: int,
)
    requires
        red1.len() == 16,
        green1.len() == 16,
        blue1.len() == 16,
        red2.len() == 16,
        green2.len() == 16,
        blue2.len() == 16,
        0 <= k < 16,
        red1[k] == red2[k],
        green1[k] == green2[k],
        blue1[k] == blue2[k],
    ensures
        forall|c: int, j: int|
            0 <= c < 3 && 0 <= j < 8 ==> #[trigger] commit_started(
                red1,
                green1,
                blue1,
                buttons1,
            ).outgoing[128 * c + 8 * (15 - k) + j] == commit_started(
                red2,
                green2,
                blue2,
                buttons2,
            ).outgoing[128 * c + 8 * (15 - k) + j],
{
    assert forall|c: int, j: int| 0 <= c < 3 && 0 <= j < 8 implies #[trigger] commit_started(
        red1,
        green1,
        blue1,
        buttons1,
    ).outgoing[128 * c + 8 * (15 - k) + j] == commit_started(
        red2,
        green2,
        blue2,
        buttons2,
    ).outgoing[128 * c + 8 * (15 - k) + j] by {
        lemma_commit_bits(red1, green1, blue1, buttons1, c, 15 - k, j);
        lemma_commit_bits(red2, green2, blue2, buttons2, c, 15 - k, j);
    }
}

proof fn lemma_byte_bit_of_word(x: u32, s: u32, j: u8)
    by (bit_vector)
    requires
        s == 0 || s == 8 || s == 16,
        j < 8,
    ensures
        ((((x >> s) & 255u32) as u8) >> j) & 1u8 == 1u8 <==> (x >> (s + (j as u32))) & 1u32
            == 1u32,
{
}

/// A commit of a `0xRRGGBB` matrix sends, for key `k` and `0 <= j < 8`: in the red frame at
/// `8 * (15 - k) + j` bit `16 + j` of `matrix[k]`, in the green frame at
/// `128 + 8 * (15 - k) + j` bit `8 + j`, in the blue frame at `256 + 8 * (15 - k) + j` bit `j`.
pub proof fn lemma_matrix_commit_bits(matrix: Seq<u32>, buttons: Seq<bool>, k: int, j: int)
    requires
        matrix.len() == 16,
        0 <= k < 16,
        0 <= j < 8,
    ensures
        commit_started(
            red_channel(matrix),
            green_channel(matrix),
            blue_channel(matrix),
            buttons,
        ).outgoing[8 * (15 - k) + j] == ((matrix[k] >> (16 + j) as u32) & 1u32 == 1u32),
        commit_started(
            red_channel(matrix),
            green_channel(matrix),
            blue_channel(matrix),
            buttons,
        ).outgoing[128 + 8 * (15 - k) + j] == ((matrix[k] >> (8 + j) as u32) & 1u32 == 1u32),
        commit_started(
            red_channel(matrix),
            green_channel(matrix),
            blue_channel(matrix),
            buttons,
        ).outgoing[256 + 8 * (15 - k) + j] == ((matrix[k] >> j as u32) & 1u32 == 1u32),
{
    let r = red_channel(matrix);
    let g = green_channel(matrix);
    let b = blue_channel(matrix);
    lemma_commit_bits(r, g, b, buttons, 0, 15 - k, j);
    lemma_commit_bits(r, g, b, buttons, 1, 15 - k, j);
    lemma_commit_bits(r, g, b, buttons, 2, 15 - k, j);
    let ju = j as u8;
    assert((j as u8) as int == j);
    lemma_byte_bit_of_word(matrix[k], 16, ju);
    lemma_byte_bit_of_word(matrix[k], 8, ju);
    lemma_byte_bit_of_word(matrix[k], 0, ju);
    assert((16u32 + (ju as u32)) == (16 + j) as u32);
    assert((8u32 + (ju as u32)) == (8 + j) as u32);
    assert((0u32 + (ju as u32)) == j as u32);
    let x = matrix[k];
    assert((x >> 0u32) & 255u32 == x & 255u32) by (bit_vector);
}

} // verus!
