//! The inner-sink capability and a byte-recording implementation of it.

use vstd::prelude::*;

verus! {

/// The capability an inner hash sink must offer: accept raw bytes,
/// order-preserving and appending, and produce a 64-bit digest of the bytes
/// accumulated so far without consuming them.
///
/// `bytes` is the sink's model: the sequence of all bytes it has accepted.
/// `digest_of` fixes the digest as a function of that sequence alone, so a
/// digest read is repeatable: two reads with no write in between see the same
/// accumulated bytes and must return the same value. `wf` is the sink's own
/// well-formedness; every operation preserves it.
pub trait Sink: Sized {
    spec fn wf(&self) -> bool;

    spec fn bytes(&self) -> Seq<u8>;

    spec fn digest_of(accumulated: Seq<u8>) -> u64;

    /// Appends `input` to the accumulated bytes, unchanged and in order.
    fn write(&mut self, input: &[u8])
        requires
            old(self).wf(),
        ensures
            final(self).wf(),
            final(self).bytes() == old(self).bytes() + input@,
    ;

    /// The digest of the bytes accumulated so far. The sink is only read:
    /// repeated calls with no intervening write return the same value.
    fn finish(&self) -> (digest: u64)
        requires
            self.wf(),
        ensures
            digest == Self::digest_of(self.bytes()),
    ;
}

/// Idempotent digest read: a sink's digest is a function of its accumulated
/// bytes alone, and reading it leaves the sink untouched, so two reads with
/// no write in between return the same value.
pub proof fn lemma_digest_read_idempotent<T: Sink>(accumulated: Seq<u8>, first: u64, second: u64)
    requires
        first == T::digest_of(accumulated),
        second == T::digest_of(accumulated),
    ensures
        first == second,
{
}

/// A sink that stores every byte it is handed, for inspecting exactly what a
/// normalizer forwards. Its digest is the number of bytes received.
pub struct RecordingSink {
    data: Vec<u8>,
}

impl RecordingSink {
    /// A recording sink that has accepted no bytes yet.
    pub fn new() -> (sink: RecordingSink)
        ensures
            sink.wf(),
            sink.bytes() == Seq::<u8>::empty(),
    {
        RecordingSink { data: Vec::new() }
    }

    /// The bytes received so far, in order.
    pub fn data(&self) -> (received: &Vec<u8>)
        ensures
            received@ == self.bytes(),
    {
        &self.data
    }
}

impl Sink for RecordingSink {
    open spec fn wf(&self) -> bool {
        true
    }

    closed spec fn bytes(&self) -> Seq<u8> {
        self.data@
    }

    open spec fn digest_of(accumulated: Seq<u8>) -> u64 {
        accumulated.len() as u64
    }

    fn write(&mut self, input: &[u8]) {
        let mut k: usize = 0;
        while k < input.len()
            invariant
                k <= input@.len(),
                self.data@ == old(self).data@ + input@.take(k as int),
            decreases input@.len() - k,
        {
            self.data.push(input[k]);
            k = k + 1;
            proof {
                assert(old(self).data@ + input@.take(k as int) =~= (old(self).data@ + input@.take(
                    k - 1,
                )).push(input@[k - 1]));
            }
        }
        proof {
            assert(input@.take(k as int) =~= input@);
        }
    }

    fn finish(&self) -> (digest: u64) {
        self.data.len() as u64
    }
}

} // verus!
