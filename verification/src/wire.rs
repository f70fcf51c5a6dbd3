//! Reading integers out of byte buffers, through `byteorder`.
use byteorder::{ByteOrder, NativeEndian, NetworkEndian};
use vstd::prelude::*;

verus! {

/// The big-endian (network order) `u32` in `b[i..i + 4]`.
pub open spec fn be_u32_at(b: Seq<u8>, i: int) -> u32 {
    (b[i] as int * 0x1000000 + b[i + 1] as int * 0x10000 + b[i + 2] as int * 0x100
        + b[i + 3] as int) as u32
}

/// The little-endian `u32` in `b[i..i + 4]`.
pub open spec fn le_u32_at(b: Seq<u8>, i: int) -> u32 {
    (b[i + 3] as int * 0x1000000 + b[i + 2] as int * 0x10000 + b[i + 1] as int * 0x100
        + b[i] as int) as u32
}

/// Whether `v` is the `u32` in `b[i..i + 4]` read in one of the two byte
/// orders a machine can have.
pub open spec fn is_native_u32_at(b: Seq<u8>, i: int, v: u32) -> bool {
    v == le_u32_at(b, i) || v == be_u32_at(b, i)
}

/// Calls `<byteorder::NetworkEndian as ByteOrder>::read_u32`, which decodes
/// the first four bytes of `buf` in big-endian order and panics when
/// `buf` is shorter than four bytes.
#[verifier::external_body]
fn network_read_u32(buf: &[u8]) -> (value: u32)
    requires
        buf@.len() >= 4,
    ensures
        value == be_u32_at(buf@, 0),
{
    NetworkEndian::read_u32(buf)
}

/// Calls `<byteorder::NativeEndian as ByteOrder>::read_u32`, which decodes
/// the first four bytes of `buf` in the byte order of the machine it was
/// built for, and panics when `buf` is shorter than four bytes. Which of the
/// two orders that is depends on the machine, so only that the value is one
/// of the two readings is stated.
#[verifier::external_body]
fn native_read_u32(buf: &[u8]) -> (value: u32)
    requires
        buf@.len() >= 4,
    ensures
        is_native_u32_at(buf@, 0, value),
{
    NativeEndian::read_u32(buf)
}

/// The big-endian `u32` at `pos` in `buf`.
pub fn read_be_u32_at(buf: &[u8], pos: usize) -> (value: u32)
    requires
        pos + 4 <= buf.len(),
    ensures
        value == be_u32_at(buf@, pos as int),
{
    let part = vstd::slice::slice_subrange(buf, pos, pos + 4);
    let value = network_read_u32(part);
    assert(part@[0] == buf@[pos as int] && part@[1] == buf@[pos + 1] && part@[2] == buf@[pos
        + 2] && part@[3] == buf@[pos + 3]);
    value
}

/// The machine-order `u32` at `pos` in `buf`.
pub fn read_native_u32_at(buf: &[u8], pos: usize) -> (value: u32)
    requires
        pos + 4 <= buf.len(),
    ensures
        is_native_u32_at(buf@, pos as int, value),
{
    let part = vstd::slice::slice_subrange(buf, pos, pos + 4);
    let value = native_read_u32(part);
    assert(part@[0] == buf@[pos as int] && part@[1] == buf@[pos + 1] && part@[2] == buf@[pos
        + 2] && part@[3] == buf@[pos + 3]);
    value
}


/// The little-endian `u32` at `pos` in `buf`.
pub fn read_le_u32_at(buf: &[u8], pos: usize) -> (value: u32)
    requires
        pos + 4 <= buf.len(),
    ensures
        value == le_u32_at(buf@, pos as int),
{
    (buf[pos + 3] as u32) * 0x1000000 + (buf[pos + 2] as u32) * 0x10000 + (buf[pos + 1] as u32)
        * 0x100 + (buf[pos] as u32)
}

/// Whether the machine reads `u32`s little-endian: it reads the bytes
/// 1, 0, 0, 0 as 1 then, and as `0x01000000` big-endian.
pub(crate) fn native_order_is_little() -> bool {
    let probe: Vec<u8> = vec![1u8, 0, 0, 0];
    native_read_u32(probe.as_slice()) == 1
}

/// The four bytes of `v`, most significant first.
pub open spec fn be_bytes(v: u32) -> Seq<u8> {
    seq![
        (v / 0x1000000) as u8,
        ((v / 0x10000) % 0x100) as u8,
        ((v / 0x100) % 0x100) as u8,
        (v % 0x100) as u8,
    ]
}

/// Reading the big-endian bytes of `v` back gives `v`.
pub proof fn lemma_be_bytes_read_back(v: u32)
    ensures
        be_u32_at(be_bytes(v), 0) == v,
{
    let b = be_bytes(v);
    let b0 = (v / 0x1000000) as u8;
    let b1 = ((v / 0x10000) % 0x100) as u8;
    let b2 = ((v / 0x100) % 0x100) as u8;
    let b3 = (v % 0x100) as u8;
    assert(b[0] == b0 && b[1] == b1 && b[2] == b2 && b[3] == b3);
    let x = v as int;
    vstd::arithmetic::div_mod::lemma_fundamental_div_mod(x, 0x100);
    vstd::arithmetic::div_mod::lemma_fundamental_div_mod(x / 0x100, 0x100);
    vstd::arithmetic::div_mod::lemma_fundamental_div_mod(x / 0x10000, 0x100);
    vstd::arithmetic::div_mod::lemma_div_denominator(x, 0x100, 0x100);
    vstd::arithmetic::div_mod::lemma_div_denominator(x, 0x10000, 0x100);
    assert(x / 0x1000000 < 0x100) by (nonlinear_arith)
        requires
            0 <= x < 0x100000000,
    ;
}

/// `u32`s laid out one after another, each big-endian.
pub open spec fn be_layout(syns: Seq<u32>) -> Seq<u8>
    decreases syns.len(),
{
    if syns.len() == 0 {
        Seq::empty()
    } else {
        be_layout(syns.drop_last()) + be_bytes(syns.last())
    }
}

/// Where the bytes of each value stand in a big-endian layout.
pub proof fn lemma_be_layout(syns: Seq<u32>)
    ensures
        be_layout(syns).len() == 4 * syns.len(),
        forall|j: int, k: int|
            0 <= j < syns.len() && 0 <= k < 4 ==> #[trigger] be_layout(syns)[4 * j + k]
                == be_bytes(syns[j])[k],
    decreases syns.len(),
{
    if syns.len() > 0 {
        let init = syns.drop_last();
        lemma_be_layout(init);
        assert forall|j: int, k: int| 0 <= j < syns.len() && 0 <= k < 4 implies #[trigger] be_layout(
            syns,
        )[4 * j + k] == be_bytes(syns[j])[k] by {
            if j < init.len() {
                assert(be_layout(init)[4 * j + k] == be_bytes(init[j])[k]);
            }
        }
    }
}

/// `v` with its four bytes in reverse order.
pub open spec fn swap_bytes(v: u32) -> u32 {
    ((v % 0x100) as int * 0x1000000 + ((v / 0x100) % 0x100) as int * 0x10000 + ((v / 0x10000)
        % 0x100) as int * 0x100 + (v / 0x1000000) as int) as u32
}

/// Reading the big-endian bytes of `v` little-endian gives `v` byte-swapped.
pub proof fn lemma_be_bytes_read_swapped(v: u32)
    ensures
        le_u32_at(be_bytes(v), 0) == swap_bytes(v),
{
    let x = v as int;
    assert(x / 0x1000000 < 0x100) by (nonlinear_arith)
        requires
            0 <= x < 0x100000000,
    ;
}

} // verus!
