//! What the keypad reports: which key is held, when to notify, and how pressed keys light up.

use vstd::prelude::*;

verus! {

/// The number reported for no key held.
pub const NO_KEY: u8 = 0;

/// The number of the first pad key pressed at or after index `i`, or 0 if none is.
pub open spec fn first_pad_key(pad: Seq<bool>, i: int) -> int
    decreases 16 - i,
{
    if i >= 16 || i < 0 {
        0
    } else if pad[i] {
        i + 1
    } else {
        first_pad_key(pad, i + 1)
    }
}

/// The key that a poll sees pressed: the first extra button held (numbers 17 to 20),
/// else the first pad key held (numbers 1 to 16), else 0.
pub open spec fn pressed_key(extra: Seq<bool>, pad: Seq<bool>) -> int {
    if extra[0] {
        17
    } else if extra[1] {
        18
    } else if extra[2] {
        19
    } else if extra[3] {
        20
    } else {
        first_pad_key(pad, 0)
    }
}

/// The key reported after a poll that sees `key` pressed, when `last` was reported before:
/// a held key stays reported until every key is released.
pub open spec fn next_reported(last: int, key: int) -> int {
    if key != 0 {
        if last == 0 {
            key
        } else {
            last
        }
    } else {
        0
    }
}

/// Tracks the key reported to the paired device.
pub struct PressTracker {
    last: u8,
}

impl View for PressTracker {
    type V = int;

    closed spec fn view(&self) -> int {
        self.last as int
    }
}

proof fn lemma_first_pad_key_range(pad: Seq<bool>, i: int)
    requires
        0 <= i <= 16,
    ensures
        first_pad_key(pad, i) == 0 || (i < first_pad_key(pad, i) <= 16),
    decreases 16 - i,
{
    if i < 16 && !pad[i] {
        lemma_first_pad_key_range(pad, i + 1);
    }
}

impl PressTracker {
    /// A tracker that reports no key.
    pub fn new() -> (t: Self)
        ensures
            t@ == 0,
    {
        PressTracker { last: NO_KEY }
    }

    /// The key currently reported, 0 for none.
    pub fn last(&self) -> (key: u8)
        ensures
            key == self@,
    {
        self.last
    }

    /// Takes in one poll of the four extra buttons and the pad's sixteen keys. Returns the
    /// number to notify, if the reported key changes: the new key on a press, 0 on release.
    pub fn poll(&mut self, extra: [bool; 4], pad: [bool; 16]) -> (notify: Option<u8>)
        ensures
            final(self)@ == next_reported(old(self)@, pressed_key(extra@, pad@)),
            notify == (if final(self)@ != old(self)@ {
                Some(final(self)@ as u8)
            } else {
                None::<u8>
            }),
    {
        let mut notify: Option<u8> = None;
        let mut pressed = false;
        let mut key: u8 = 0;
        if extra[0] {
            pressed = true;
            key = 17;
        } else if extra[1] {
            pressed = true;
            key = 18;
        } else if extra[2] {
            pressed = true;
            key = 19;
        } else if extra[3] {
            pressed = true;
            key = 20;
        }
        if !pressed {
            let mut idx: usize = 0;
            while idx < 16 && !pressed
                invariant
                    idx <= 16,
                    !pressed ==> key == 0,
                    !pressed ==> first_pad_key(pad@, 0) == first_pad_key(pad@, idx as int),
                    pressed ==> key as int == first_pad_key(pad@, 0) && key != 0,
                    !(extra@[0] || extra@[1] || extra@[2] || extra@[3]),
                decreases 16 - idx + (if pressed { 0int } else { 1int }),
            {
                if pad[idx] {
                    pressed = true;
                    key = (idx as u8) + 1;
                } else {
                    idx = idx + 1;
                }
            }
            proof {
                if !pressed {
                    assert(first_pad_key(pad@, 16) == 0);
                }
            }
        }
        assert(key as int == pressed_key(extra@, pad@));
        assert(pressed <==> key != 0);
        if pressed {
            if self.last == NO_KEY {
                self.last = key;
                notify = Some(key);
            }
        }
        if !pressed && self.last != NO_KEY {
            self.last = NO_KEY;
            notify = Some(NO_KEY);
        }
        notify
    }
}

/// No pad key at or after index `i` is held exactly when the scan from `i` finds none.
proof fn lemma_first_pad_key_none(pad: Seq<bool>, i: int)
    requires
        0 <= i <= 16,
    ensures
        (first_pad_key(pad, i) == 0) <==> (forall|k: int| i <= k < 16 ==> !pad[k]),
    decreases 16 - i,
{
    if i < 16 {
        lemma_first_pad_key_none(pad, i + 1);
        lemma_first_pad_key_range(pad, i + 1);
    }
}

/// Keys are numbered 17 to 20 for the extra buttons and 1 to 16 for the pad; 0 means none.
pub proof fn lemma_pressed_key_range(extra: Seq<bool>, pad: Seq<bool>)
    ensures
        0 <= pressed_key(extra, pad) <= 20,
        !(extra[0] || extra[1] || extra[2] || extra[3]) ==> pressed_key(extra, pad) <= 16,
{
    lemma_first_pad_key_range(pad, 0);
}

/// After a poll no key is reported exactly when no button, extra or on the pad, is held.
pub proof fn lemma_reports_none_iff_all_released(last: int, extra: Seq<bool>, pad: Seq<bool>)
    requires
        extra.len() == 4,
        pad.len() == 16,
    ensures
        (next_reported(last, pressed_key(extra, pad)) == 0) <==> ((forall|i: int|
            0 <= i < 4 ==> !extra[i]) && (forall|i: int| 0 <= i < 16 ==> !pad[i])),
{
    lemma_first_pad_key_none(pad, 0);
    lemma_first_pad_key_range(pad, 0);
    if !(forall|i: int| 0 <= i < 4 ==> !extra[i]) {
        let i = choose|i: int| 0 <= i < 4 && extra[i];
        assert(extra[0] || extra[1] || extra[2] || extra[3]);
    }
}

/// A key held stays reported, whatever else is pressed, until every button is released.
pub proof fn lemma_held_key_kept(last: int, extra: Seq<bool>, pad: Seq<bool>)
    requires
        last != 0,
        pressed_key(extra, pad) != 0,
    ensures
        next_reported(last, pressed_key(extra, pad)) == last,
{
}

/// Polling again with the same buttons held changes nothing, so notifies nothing.
pub proof fn lemma_poll_settles(last: int, extra: Seq<bool>, pad: Seq<bool>)
    ensures
        next_reported(next_reported(last, pressed_key(extra, pad)), pressed_key(extra, pad))
            == next_reported(last, pressed_key(extra, pad)),
{
}

/// With no extra button held, a poll sees pressed key `i + 1` for the least index `i`
/// whose pad key is held; from a tracker reporting no key, that number becomes the one
/// reported (and, being new, notified).
pub proof fn lemma_first_held_pad_key_reported(extra: Seq<bool>, pad: Seq<bool>, i: int)
    requires
        extra.len() == 4,
        pad.len() == 16,
        forall|j: int| 0 <= j < 4 ==> !extra[j],
        0 <= i < 16,
        pad[i],
        forall|k: int| 0 <= k < i ==> !pad[k],
    ensures
        pressed_key(extra, pad) == i + 1,
        next_reported(0, pressed_key(extra, pad)) == i + 1,
{
    lemma_first_pad_key_skips(pad, 0, i);
    assert(!extra[0] && !extra[1] && !extra[2] && !extra[3]);
}

/// Scanning from `start` passes over keys not held up to the first one held.
proof fn lemma_first_pad_key_skips(pad: Seq<bool>, start: int, i: int)
    requires
        0 <= start <= i < 16,
        pad[i],
        forall|k: int| start <= k < i ==> !pad[k],
    ensures
        first_pad_key(pad, start) == i + 1,
    decreases i - start,
{
    if start < i {
        lemma_first_pad_key_skips(pad, start + 1, i);
    }
}

/// When an extra button is held, a poll sees pressed key `17 + j` for the least `j` whose
/// extra button is held, whatever the pad shows; from a tracker reporting no key, that
/// number becomes the one reported.
pub proof fn lemma_first_held_extra_key_reported(extra: Seq<bool>, pad: Seq<bool>, j: int)
    requires
        extra.len() == 4,
        0 <= j < 4,
        extra[j],
        forall|l: int| 0 <= l < j ==> !extra[l],
    ensures
        pressed_key(extra, pad) == 17 + j,
        next_reported(0, pressed_key(extra, pad)) == 17 + j,
{
    if j > 0 {
        assert(!extra[0]);
    }
    if j > 1 {
        assert(!extra[1]);
    }
    if j > 2 {
        assert(!extra[2]);
    }
}

/// The colour of a pressed key as `0xRRGGBB`: blue on even indices, green on multiples of
/// three, red on multiples of five, white where none of these holds.
pub open spec fn key_color(idx: int) -> u32 {
    let c = (if idx % 2 == 0 { 0xffint } else { 0 }) + (if idx % 3 == 0 { 0xff00int } else { 0 }) + (
    if idx % 5 == 0 {
        0xff0000int
    } else {
        0
    });
    if c == 0 {
        0xffffffu32
    } else {
        c as u32
    }
}

proof fn lemma_color_bytes()
    by (bit_vector)
    ensures
        0xffu32 & 0xffu32 == 0xffu32 && (0xffu32 >> 8u32) & 0xffu32 == 0u32 && (0xffu32 >> 16u32)
            & 0xffu32 == 0u32 && 0xffu32 >> 24u32 == 0u32,
        0xff00u32 & 0xffu32 == 0u32 && (0xff00u32 >> 8u32) & 0xffu32 == 0xffu32 && (0xff00u32
            >> 16u32) & 0xffu32 == 0u32 && 0xff00u32 >> 24u32 == 0u32,
        0xffffu32 & 0xffu32 == 0xffu32 && (0xffffu32 >> 8u32) & 0xffu32 == 0xffu32 && (0xffffu32
            >> 16u32) & 0xffu32 == 0u32 && 0xffffu32 >> 24u32 == 0u32,
        0xff0000u32 & 0xffu32 == 0u32 && (0xff0000u32 >> 8u32) & 0xffu32 == 0u32 && (0xff0000u32
            >> 16u32) & 0xffu32 == 0xffu32 && 0xff0000u32 >> 24u32 == 0u32,
        0xff00ffu32 & 0xffu32 == 0xffu32 && (0xff00ffu32 >> 8u32) & 0xffu32 == 0u32 && (
        0xff00ffu32 >> 16u32) & 0xffu32 == 0xffu32 && 0xff00ffu32 >> 24u32 == 0u32,
        0xffff00u32 & 0xffu32 == 0u32 && (0xffff00u32 >> 8u32) & 0xffu32 == 0xffu32 && (
        0xffff00u32 >> 16u32) & 0xffu32 == 0xffu32 && 0xffff00u32 >> 24u32 == 0u32,
        0xffffffu32 & 0xffu32 == 0xffu32 && (0xffffffu32 >> 8u32) & 0xffu32 == 0xffu32 && (
        0xffffffu32 >> 16u32) & 0xffu32 == 0xffu32 && 0xffffffu32 >> 24u32 == 0u32,
{
}

/// A pressed key's colour has its blue byte `0xff` exactly on even indices, its green byte
/// `0xff` exactly on multiples of three and its red byte `0xff` exactly on multiples of
/// five, each byte otherwise 0 and no bit above them; where none of the three holds it is
/// white, `0xffffff`.
pub proof fn lemma_key_color_bytes(idx: int)
    ensures
        (idx % 2 == 0 || idx % 3 == 0 || idx % 5 == 0) ==> {
            &&& (key_color(idx) & 0xffu32) == (if idx % 2 == 0 {
                0xffu32
            } else {
                0u32
            })
            &&& ((key_color(idx) >> 8u32) & 0xffu32) == (if idx % 3 == 0 {
                0xffu32
            } else {
                0u32
            })
            &&& ((key_color(idx) >> 16u32) & 0xffu32) == (if idx % 5 == 0 {
                0xffu32
            } else {
                0u32
            })
        },
        !(idx % 2 == 0 || idx % 3 == 0 || idx % 5 == 0) ==> key_color(idx) == 0xffffffu32,
        key_color(idx) >> 24u32 == 0u32,
{
    lemma_color_bytes();
}

/// The colour shown on the key at index `idx` while it is pressed.
pub fn pressed_color(idx: usize) -> (color: u32)
    ensures
        color == key_color(idx as int),
        color != 0,
        color <= 0xffffff,
{
    assert(0xffu32 << 8u32 == 0xff00u32) by (bit_vector);
    assert(0xffu32 << 16u32 == 0xff0000u32) by (bit_vector);
    let mut color: u32 = 0x00;
    if idx % 2 == 0 {
        color += 0xff;
    }
    if idx % 3 == 0 {
        color += 0xff << 8;
    }
    if idx % 5 == 0 {
        color += 0xff << 16;
    }
    if color == 0x00 {
        color = 0xffffff;
    }
    color
}

/// The colour matrix that lights each pressed key and leaves the others dark.
pub fn pressed_matrix(buttons: &[bool; 16]) -> (matrix: [u32; 16])
    ensures
        forall|i: int|
            0 <= i < 16 ==> matrix@[i] == (if buttons@[i] {
                key_color(i)
            } else {
                0u32
            }),
{
    let mut matrix = [0u32; 16];
    let mut i: usize = 0;
    while i < 16
        invariant
            i <= 16,
            forall|k: int|
                0 <= k < i ==> matrix@[k] == (if buttons@[k] {
                    key_color(k)
                } else {
                    0u32
                }),
        decreases 16 - i,
    {
        matrix[i] = if buttons[i] {
            pressed_color(i)
        } else {
            0x000000
        };
        i = i + 1;
    }
    matrix
}

} // verus!
