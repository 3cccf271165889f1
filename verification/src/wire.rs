//! Bit-level encoding of the frames exchanged with the button pad.

use vstd::prelude::*;

verus! {

/// The `BitVec` type of the `bit_vec` crate, with its default block type.
#[verifier::external_type_specification]
#[verifier::external_body]
#[verifier::reject_recursive_types(B)]
pub struct ExBitVec<B>(bit_vec::BitVec<B>);

/// The bits that a `BitVec` holds, first bit first.
pub uninterp spec fn bit_vec_contents(v: bit_vec::BitVec) -> Seq<bool>;

/// Bit `j` (0 is the least significant) of a byte.
pub open spec fn bit_of(byte: u8, j: int) -> bool {
    (byte >> (j as u8)) & 1u8 == 1u8
}

/// The bits of a byte sequence, each byte most significant bit first.
pub open spec fn msb_first_bits(bytes: Seq<u8>) -> Seq<bool> {
    Seq::new(8 * bytes.len(), |k: int| bit_of(bytes[k / 8], 7 - k % 8))
}

/// `BitVec::from_bytes`: each byte becomes eight bits, most significant bit first.
#[verifier::external_body]
fn bit_vec_from_bytes(bytes: &[u8]) -> (v: bit_vec::BitVec)
    requires
        bytes@.len() * 8 <= usize::MAX,
    ensures
        bit_vec_contents(v) == msb_first_bits(bytes@),
{
    bit_vec::BitVec::from_bytes(bytes)
}

/// `BitVec::len`: the number of bits held.
#[verifier::external_body]
fn bit_vec_len(v: &bit_vec::BitVec) -> (n: usize)
    ensures
        n == bit_vec_contents(*v).len(),
{
    v.len()
}

/// `BitVec::get`: the bit at an index, `None` past the end.
#[verifier::external_body]
fn bit_vec_get(v: &bit_vec::BitVec, i: usize) -> (r: Option<bool>)
    ensures
        i < bit_vec_contents(*v).len() ==> r == Some(bit_vec_contents(*v)[i as int]),
        i >= bit_vec_contents(*v).len() ==> r is None,
{
    v.get(i)
}

/// The wire order of a frame: its bits, most significant bit first, sent last bit first.
pub open spec fn wire_order(frame: Seq<u8>) -> Seq<bool> {
    msb_first_bits(frame).reverse()
}

/// On the wire a frame goes last byte first, each byte least significant bit first.
pub proof fn lemma_wire_order_bits(frame: Seq<u8>, a: int, b: int)
    requires
        frame.len() == 16,
        0 <= a < 16,
        0 <= b < 8,
    ensures
        wire_order(frame)[8 * a + b] == bit_of(frame[15 - a], b),
{
    let k = 8 * a + b;
    let m = 127 - k;
    assert(m == 8 * (15 - a) + (7 - b));
    assert(m / 8 == 15 - a);
    assert(m % 8 == 7 - b);
}

/// The bits of a frame in the order in which they are clocked out on the bus.
pub fn wire_bits(frame: &[u8; 16]) -> (bits: Vec<bool>)
    ensures
        bits@ == wire_order(frame@),
{
    let bv = bit_vec_from_bytes(frame.as_slice());
    let n = bit_vec_len(&bv);
    let ghost all = bit_vec_contents(bv);
    let mut bits: Vec<bool> = Vec::new();
    let mut i: usize = n;
    while i > 0
        invariant
            i <= n,
            n == all.len(),
            all == bit_vec_contents(bv),
            all == msb_first_bits(frame@),
            bits@.len() == n - i,
            forall|k: int| 0 <= k < bits@.len() ==> bits@[k] == all[n - 1 - k],
        decreases i,
    {
        i = i - 1;
        match bit_vec_get(&bv, i) {
            Some(b) => bits.push(b),
            None => {},
        }
    }
    assert(bits@ =~= wire_order(frame@));
    bits
}


/// Weight of one bit in a byte packed most significant bit first: `w` when bit `k` is set.
pub open spec fn bit_weight(bits: Seq<bool>, k: int, w: int) -> int {
    if 0 <= k < bits.len() && bits[k] {
        w
    } else {
        0
    }
}

/// Byte `i` of a bit sequence packed eight bits to a byte, first bit as the high-order bit;
/// bits past the end count as `false`.
pub open spec fn packed_byte(bits: Seq<bool>, i: int) -> int {
    bit_weight(bits, 8 * i, 128) + bit_weight(bits, 8 * i + 1, 64) + bit_weight(bits, 8 * i + 2, 32)
        + bit_weight(bits, 8 * i + 3, 16) + bit_weight(bits, 8 * i + 4, 8) + bit_weight(
        bits,
        8 * i + 5,
        4,
    ) + bit_weight(bits, 8 * i + 6, 2) + bit_weight(bits, 8 * i + 7, 1)
}

/// The bytes of a bit sequence, first bit the high-order bit of the first byte, the last
/// byte padded with `false`.
pub open spec fn msb_first_bytes(bits: Seq<bool>) -> Seq<u8> {
    Seq::new((bits.len() + 7) / 8, |i: int| packed_byte(bits, i) as u8)
}

/// `BitVec::from_elem`: `len` bits, each equal to `bit`.
#[verifier::external_body]
fn bit_vec_from_elem(len: usize, bit: bool) -> (v: bit_vec::BitVec)
    ensures
        bit_vec_contents(v) == Seq::new(len as nat, |k: int| bit),
{
    bit_vec::BitVec::from_elem(len, bit)
}

/// `BitVec::set`: replaces the bit at an in-range index.
#[verifier::external_body]
fn bit_vec_set(v: &mut bit_vec::BitVec, i: usize, x: bool)
    requires
        i < bit_vec_contents(*old(v)).len(),
    ensures
        bit_vec_contents(*final(v)) == bit_vec_contents(*old(v)).update(i as int, x),
{
    v.set(i, x)
}

/// `BitVec::to_bytes`: the bits packed into bytes, first bit as the high-order bit of the
/// first byte, trailing bits of the last byte `false`.
#[verifier::external_body]
fn bit_vec_to_bytes(v: &bit_vec::BitVec) -> (bytes: Vec<u8>)
    requires
        bit_vec_contents(*v).len() + 8 <= usize::MAX,
    ensures
        bytes@ == msb_first_bytes(bit_vec_contents(*v)),
{
    v.to_bytes()
}

/// The frame that 128 bits read from the bus stand for: packed into bytes, first bit as the
/// high-order bit, and the bytes taken last first.
pub open spec fn frame_of_wire(levels: Seq<bool>) -> Seq<u8> {
    msb_first_bytes(levels).reverse()
}

/// The frame read back from the bus, given the 128 levels sampled in order.
pub fn frame_from_wire(levels: &[bool]) -> (frame: [u8; 16])
    requires
        levels@.len() == 128,
    ensures
        frame@ == frame_of_wire(levels@),
{
    let mut bv = bit_vec_from_elem(128, false);
    let n = bit_vec_len(&bv);
    let mut i: usize = 0;
    while i < n
        invariant
            n == 128,
            levels@.len() == 128,
            i <= n,
            bit_vec_contents(bv).len() == 128,
            forall|k: int| 0 <= k < i ==> bit_vec_contents(bv)[k] == levels@[k],
        decreases n - i,
    {
        bit_vec_set(&mut bv, i, levels[i]);
        i = i + 1;
    }
    assert(bit_vec_contents(bv) =~= levels@);
    let bytes = bit_vec_to_bytes(&bv);
    assert(bytes@.len() == 16);
    let mut frame = [0u8; 16];
    let mut j: usize = 0;
    while j < 16
        invariant
            j <= 16,
            bytes@ == msb_first_bytes(levels@),
            bytes@.len() == 16,
            forall|k: int| 0 <= k < j ==> frame@[15 - k] == bytes@[k],
        decreases 16 - j,
    {
        frame[15 - j] = bytes[j];
        j = j + 1;
    }
    assert(frame@ =~= frame_of_wire(levels@));
    frame
}

/// Which keys a button frame reports pressed: a key is pressed when its byte is zero.
pub fn buttons_from_frame(frame: &[u8; 16]) -> (pressed: [bool; 16])
    ensures
        forall|i: int| 0 <= i < 16 ==> pressed@[i] == (frame@[i] == 0),
{
    let mut pressed = [false; 16];
    let mut i: usize = 0;
    while i < 16
        invariant
            i <= 16,
            forall|k: int| 0 <= k < i ==> pressed@[k] == (frame@[k] == 0),
        decreases 16 - i,
    {
        pressed[i] = frame[i] == 0;
        i = i + 1;
    }
    pressed
}

} // verus!
