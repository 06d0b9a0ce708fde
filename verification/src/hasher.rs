//! The deterministic byte normalizer.

use crate::encoding::le_bytes_of;
use crate::encoding::le_bytes_vec;
use crate::sink::Sink;
use vstd::prelude::*;

verus! {

/// Wrapper around any [`Sink`] that makes the bytes it receives
/// architecture-independent.
///
/// Every multi-byte primitive is re-encoded as little-endian bytes of its
/// exact width before being forwarded; platform-width integers are first
/// widened to 64 bits (zero-extension of the unsigned reinterpretation), and
/// signed values are reinterpreted bit-for-bit as unsigned values of the same
/// width. Raw byte sequences pass through unchanged. The normalizer holds no
/// state of its own: it owns the inner sink and forwards to it.
pub struct DeterministicHasher<T: Sink>(T);

impl<T: Sink> DeterministicHasher<T> {
    /// The wrapped inner sink.
    pub closed spec fn inner(&self) -> T {
        self.0
    }

    /// The normalizer is well-formed exactly when its inner sink is.
    pub open spec fn wf(&self) -> bool {
        self.inner().wf()
    }

    /// The bytes accumulated so far, all of them forwarded canonical bytes.
    pub open spec fn bytes(&self) -> Seq<u8> {
        self.inner().bytes()
    }

    /// Wraps `inner`, taking ownership; no bytes are consumed by wrapping.
    pub fn new(inner: T) -> (hasher: Self)
        ensures
            hasher.inner() == inner,
    {
        Self(inner)
    }

    /// Read-only access to the inner sink; its state is not affected.
    pub fn as_inner(&self) -> (inner: &T)
        ensures
            *inner == self.inner(),
    {
        &self.0
    }

    /// Consumes the normalizer and hands the inner sink back to the caller.
    pub fn into_inner(self) -> (inner: T)
        ensures
            inner == self.inner(),
    {
        self.0
    }

    /// The inner sink's digest of all bytes forwarded so far. The sink is
    /// only read: calling this repeatedly with no intervening write returns
    /// the same value each time.
    pub fn finish(&self) -> (digest: u64)
        requires
            self.wf(),
        ensures
            digest == T::digest_of(self.bytes()),
    {
        self.0.finish()
    }

    /// Forwards a raw byte sequence unchanged, in order.
    pub fn write(&mut self, input: &[u8])
        requires
            old(self).wf(),
        ensures
            final(self).wf(),
            final(self).bytes() == old(self).bytes() + input@,
    {
        self.0.write(input);
    }

    /// Forwards the 1-byte encoding of `i`.
    pub fn write_u8(&mut self, i: u8)
        requires
            old(self).wf(),
        ensures
            final(self).wf(),
            final(self).bytes() == old(self).bytes() + le_bytes_of(i as nat, 1),
    {
        let encoded = le_bytes_vec(i as u128, 1);
        self.write(encoded.as_slice());
    }

    /// Forwards the 2-byte little-endian encoding of `i`.
    pub fn write_u16(&mut self, i: u16)
        requires
            old(self).wf(),
        ensures
            final(self).wf(),
            final(self).bytes() == old(self).bytes() + le_bytes_of(i as nat, 2),
    {
        let encoded = le_bytes_vec(i as u128, 2);
        self.write(encoded.as_slice());
    }

    /// Forwards the 4-byte little-endian encoding of `i`.
    pub fn write_u32(&mut self, i: u32)
        requires
            old(self).wf(),
        ensures
            final(self).wf(),
            final(self).bytes() == old(self).bytes() + le_bytes_of(i as nat, 4),
    {
        let encoded = le_bytes_vec(i as u128, 4);
        self.write(encoded.as_slice());
    }

    /// Forwards the 8-byte little-endian encoding of `i`.
    pub fn write_u64(&mut self, i: u64)
        requires
            old(self).wf(),
        ensures
            final(self).wf(),
            final(self).bytes() == old(self).bytes() + le_bytes_of(i as nat, 8),
    {
        let encoded = le_bytes_vec(i as u128, 8);
        self.write(encoded.as_slice());
    }

    /// Forwards the 16-byte little-endian encoding of `i`.
    pub fn write_u128(&mut self, i: u128)
        requires
            old(self).wf(),
        ensures
            final(self).wf(),
            final(self).bytes() == old(self).bytes() + le_bytes_of(i as nat, 16),
    {
        let encoded = le_bytes_vec(i, 16);
        self.write(encoded.as_slice());
    }

    /// Forwards the platform-width value `i` widened to the canonical 8-byte
    /// little-endian encoding: the value itself is encoded, zero-extended,
    /// whatever the native word size.
    pub fn write_usize(&mut self, i: usize)
        requires
            old(self).wf(),
        ensures
            final(self).wf(),
            final(self).bytes() == old(self).bytes() + le_bytes_of(i as nat, 8),
            final(self).bytes().len() == old(self).bytes().len() + 8,
    {
        let encoded = le_bytes_vec(i as u128, 8);
        self.write(encoded.as_slice());
    }

    /// Forwards `i` reinterpreted bit-for-bit as a `u8` (two's complement
    /// preserved), encoded as one byte.
    pub fn write_i8(&mut self, i: i8)
        requires
            old(self).wf(),
        ensures
            final(self).wf(),
            final(self).bytes() == old(self).bytes() + le_bytes_of((i as u8) as nat, 1),
    {
        self.write_u8(i as u8);
    }

    /// Forwards `i` reinterpreted bit-for-bit as a `u16`, encoded
    /// little-endian at 2 bytes.
    pub fn write_i16(&mut self, i: i16)
        requires
            old(self).wf(),
        ensures
            final(self).wf(),
            final(self).bytes() == old(self).bytes() + le_bytes_of((i as u16) as nat, 2),
    {
        self.write_u16(i as u16);
    }

    /// Forwards `i` reinterpreted bit-for-bit as a `u32`, encoded
    /// little-endian at 4 bytes.
    pub fn write_i32(&mut self, i: i32)
        requires
            old(self).wf(),
        ensures
            final(self).wf(),
            final(self).bytes() == old(self).bytes() + le_bytes_of((i as u32) as nat, 4),
    {
        self.write_u32(i as u32);
    }

    /// Forwards `i` reinterpreted bit-for-bit as a `u64`, encoded
    /// little-endian at 8 bytes.
    pub fn write_i64(&mut self, i: i64)
        requires
            old(self).wf(),
        ensures
            final(self).wf(),
            final(self).bytes() == old(self).bytes() + le_bytes_of((i as u64) as nat, 8),
    {
        self.write_u64(i as u64);
    }

    /// Forwards `i` reinterpreted bit-for-bit as a `u128`, encoded
    /// little-endian at 16 bytes.
    pub fn write_i128(&mut self, i: i128)
        requires
            old(self).wf(),
        ensures
            final(self).wf(),
            final(self).bytes() == old(self).bytes() + le_bytes_of((i as u128) as nat, 16),
    {
        self.write_u128(i as u128);
    }

    /// Forwards `i` reinterpreted bit-for-bit as a platform-width unsigned
    /// value, widened to the canonical 8-byte little-endian encoding.
    pub fn write_isize(&mut self, i: isize)
        requires
            old(self).wf(),
        ensures
            final(self).wf(),
            final(self).bytes() == old(self).bytes() + le_bytes_of((i as usize) as nat, 8),
            final(self).bytes().len() == old(self).bytes().len() + 8,
    {
        self.write_usize(i as usize);
    }
}

/// The bytes a sink holds after a run of writes, each appending one field's
/// canonical encoding, starting from the bytes `start`.
pub open spec fn accumulated_after(start: Seq<u8>, encodings: Seq<Seq<u8>>) -> Seq<u8>
    decreases encodings.len(),
{
    if encodings.len() == 0 {
        start
    } else {
        accumulated_after(start + encodings.first(), encodings.drop_first())
    }
}

/// Composability: writing a composite value field by field accumulates
/// exactly the concatenation of the fields' individual encodings. A fresh
/// sink of the same kind fed that concatenation in one raw write therefore
/// holds the same bytes, and so returns the same digest.
pub proof fn lemma_field_by_field_composes(start: Seq<u8>, encodings: Seq<Seq<u8>>)
    ensures
        accumulated_after(start, encodings) == start + encodings.flatten(),
        start.len() == 0 ==> accumulated_after(start, encodings) == encodings.flatten(),
    decreases encodings.len(),
{
    if encodings.len() == 0 {
        assert(accumulated_after(start, encodings) =~= start + encodings.flatten());
    } else {
        lemma_field_by_field_composes(start + encodings.first(), encodings.drop_first());
        assert((start + encodings.first()) + encodings.drop_first().flatten() =~= start + (
        encodings.first() + encodings.drop_first().flatten()));
    }
    if start.len() == 0 {
        assert(start + encodings.flatten() =~= encodings.flatten());
    }
}

} // verus!
