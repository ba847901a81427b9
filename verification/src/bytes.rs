//! Reinterpretation of byte buffers between the signed and the unsigned view.
//!
//! The managed foreign runtime has only a signed byte type, while the native
//! layer works on unsigned bytes. Crossing the boundary therefore
//! reinterprets every element's bit pattern; it never changes a bit and it
//! never changes the length of the buffer.

use vstd::prelude::*;

verus! {

/// The unsigned reading of a signed byte: the same eight bits.
pub open spec fn as_unsigned(b: i8) -> u8 {
    b as u8
}

/// The signed reading of an unsigned byte: the same eight bits.
pub open spec fn as_signed(b: u8) -> i8 {
    b as i8
}

/// Reinterpret a buffer of signed bytes as unsigned bytes, element by
/// element, keeping length and order.
pub fn signed_to_unsigned(buf: &Vec<i8>) -> (r: Vec<u8>)
    ensures
        r@.len() == buf@.len(),
        forall|i: int| 0 <= i < buf@.len() ==> r@[i] == as_unsigned(buf@[i]),
{
    let mut r: Vec<u8> = Vec::new();
    let mut i: usize = 0;
    while i < buf.len()
        invariant
            i <= buf@.len(),
            r@.len() == i,
            forall|j: int| 0 <= j < i ==> r@[j] == as_unsigned(buf@[j]),
        decreases buf@.len() - i,
    {
        r.push(buf[i] as u8);
        i = i + 1;
    }
    r
}

/// Reinterpret a buffer of unsigned bytes as signed bytes, element by
/// element, keeping length and order.
pub fn unsigned_to_signed(buf: &Vec<u8>) -> (r: Vec<i8>)
    ensures
        r@.len() == buf@.len(),
        forall|i: int| 0 <= i < buf@.len() ==> r@[i] == as_signed(buf@[i]),
{
    let mut r: Vec<i8> = Vec::new();
    let mut i: usize = 0;
    while i < buf.len()
        invariant
            i <= buf@.len(),
            r@.len() == i,
            forall|j: int| 0 <= j < i ==> r@[j] == as_signed(buf@[j]),
        decreases buf@.len() - i,
    {
        r.push(buf[i] as i8);
        i = i + 1;
    }
    r
}

/// Reading a signed byte as unsigned and back recovers the byte: the
/// reinterpretation touches no bit.
pub proof fn lemma_signed_round_trip(b: i8)
    ensures
        as_signed(as_unsigned(b)) == b,
{
    assert((b as u8) as i8 == b) by (bit_vector);
}

/// Reading an unsigned byte as signed and back recovers the byte.
pub proof fn lemma_unsigned_round_trip(b: u8)
    ensures
        as_unsigned(as_signed(b)) == b,
{
    assert((b as i8) as u8 == b) by (bit_vector);
}

/// Reinterpreting a whole signed buffer as unsigned and back yields the
/// original buffer, for any length.
pub proof fn lemma_buffer_round_trip(signed: Seq<i8>, unsigned: Seq<u8>, back: Seq<i8>)
    requires
        unsigned.len() == signed.len(),
        forall|i: int| 0 <= i < signed.len() ==> unsigned[i] == as_unsigned(signed[i]),
        back.len() == unsigned.len(),
        forall|i: int| 0 <= i < unsigned.len() ==> back[i] == as_signed(unsigned[i]),
    ensures
        back =~= signed,
{
    assert forall|i: int| 0 <= i < signed.len() implies back[i] == signed[i] by {
        lemma_signed_round_trip(signed[i]);
    }
}

} // verus!
