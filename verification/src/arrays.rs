//! The codec of byte arrays.
//!
//! A byte array has no number to reorder: under every byte order its bytes
//! are copied as they are.

use crate::radix::write_bytes;
use crate::traits::{DecodeBE, DecodeLE, DecodeME, EncodeBE, EncodeLE, EncodeME, PackedSize};
use vstd::prelude::*;

verus! {

/// Fills `bytes` with the contents of `array`.
fn copy_out<const N: usize>(array: &[u8; N], bytes: &mut [u8])
    requires
        old(bytes)@.len() == N,
    ensures
        final(bytes)@ == array@,
        final(bytes)@.len() == old(bytes)@.len(),
{
    write_bytes(bytes, 0, array.as_slice());
    proof {
        assert(bytes@ =~= array@);
    }
}

/// The array whose contents fill `bytes`.
fn copy_in<const N: usize>(bytes: &[u8]) -> (array: [u8; N])
    requires
        bytes@.len() == N,
    ensures
        array@ == bytes@,
{
    let mut array = [0u8; N];
    let mut i: usize = 0;
    while i < N
        invariant
            i <= N == bytes@.len(),
            forall|j: int| 0 <= j < i ==> array@[j] == bytes@[j],
        decreases N - i,
    {
        array[i] = bytes[i];
        i += 1;
    }
    proof {
        assert(array@ =~= bytes@);
    }
    array
}

impl<const N: usize> PackedSize for [u8; N] {
    const PACKED_LEN: usize = N;
}

impl<const N: usize> EncodeLE for [u8; N] {
    /// Copies the array into `bytes`.
    fn encode_as_le_bytes(&self, bytes: &mut [u8])
        ensures
            final(bytes)@ == self@,
    {
        copy_out(self, bytes);
    }
}

impl<const N: usize> EncodeBE for [u8; N] {
    /// Copies the array into `bytes`.
    fn encode_as_be_bytes(&self, bytes: &mut [u8])
        ensures
            final(bytes)@ == self@,
    {
        copy_out(self, bytes);
    }
}

impl<const N: usize> EncodeME for [u8; N] {
    /// Copies the array into `bytes`.
    fn encode_as_me_bytes(&self, bytes: &mut [u8])
        ensures
            final(bytes)@ == self@,
    {
        copy_out(self, bytes);
    }
}

impl<const N: usize> DecodeLE for [u8; N] {
    /// Copies `bytes` into an array.
    fn decode_from_le_bytes(bytes: &[u8]) -> (value: Self)
        ensures
            value@ == bytes@,
    {
        copy_in(bytes)
    }
}

impl<const N: usize> DecodeBE for [u8; N] {
    /// Copies `bytes` into an array.
    fn decode_from_be_bytes(bytes: &[u8]) -> (value: Self)
        ensures
            value@ == bytes@,
    {
        copy_in(bytes)
    }
}

impl<const N: usize> DecodeME for [u8; N] {
    /// Copies `bytes` into an array.
    fn decode_from_me_bytes(bytes: &[u8]) -> (value: Self)
        ensures
            value@ == bytes@,
    {
        copy_in(bytes)
    }
}

} // verus!
