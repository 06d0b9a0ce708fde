//! A 32-bit cyclic-redundancy-check sink.
//!
//! The configuration is the widely used reflected CRC-32 (the one of zlib and
//! of Ethernet): reflected polynomial `0xEDB88320`, initial state
//! `0xFFFFFFFF`, final state inverted. The digest of the empty input is 0,
//! and the digest of the bytes of `"123456789"` is the standard check value
//! `0xCBF43926`. The update function is the bitwise one: each input byte is
//! folded into the low bits of the state and the state is then shifted
//! through eight rounds.

use crate::sink::Sink;
use vstd::prelude::*;

verus! {

/// The reflected CRC-32 polynomial.
pub const CRC32_POLYNOMIAL: u32 = 0xEDB88320;

/// The initial CRC-32 state.
pub const CRC32_INITIAL: u32 = 0xFFFFFFFF;

/// One shift round: the state moves one bit right, and the polynomial is
/// folded in when the bit shifted out was set.
pub open spec fn crc32_round(state: u32) -> u32 {
    if state & 1 == 1 {
        (state >> 1) ^ CRC32_POLYNOMIAL
    } else {
        state >> 1
    }
}

/// `count` shift rounds applied to `state`.
pub open spec fn crc32_rounds(state: u32, count: nat) -> u32
    decreases count,
{
    if count == 0 {
        state
    } else {
        crc32_rounds(crc32_round(state), (count - 1) as nat)
    }
}

/// The state after folding one input byte in: the byte enters the low bits,
/// then eight shift rounds run.
pub open spec fn crc32_update(state: u32, byte: u8) -> u32 {
    crc32_rounds(state ^ (byte as u32), 8)
}

/// The state after folding a whole byte sequence in, first byte first.
pub open spec fn crc32_fold(state: u32, input: Seq<u8>) -> u32
    decreases input.len(),
{
    if input.len() == 0 {
        state
    } else {
        crc32_fold(crc32_update(state, input[0]), input.skip(1))
    }
}

/// The CRC-32 digest of a byte sequence: fold from the initial state, then
/// invert, widened to the sink's 64-bit digest type.
pub open spec fn crc32_digest(input: Seq<u8>) -> u64 {
    (crc32_fold(CRC32_INITIAL, input) ^ CRC32_INITIAL) as u64
}

/// Running the rounds one more time is one round applied to the result.
proof fn lemma_crc32_rounds_step(state: u32, count: nat)
    ensures
        crc32_rounds(state, count + 1) == crc32_round(crc32_rounds(state, count)),
    decreases count,
{
    reveal_with_fuel(crc32_rounds, 2);
    if count > 0 {
        lemma_crc32_rounds_step(crc32_round(state), (count - 1) as nat);
    }
}

/// Folding one more byte in is one update applied to the fold of the prefix.
proof fn lemma_crc32_fold_push(state: u32, input: Seq<u8>, byte: u8)
    ensures
        crc32_fold(state, input.push(byte)) == crc32_update(crc32_fold(state, input), byte),
    decreases input.len(),
{
    reveal_with_fuel(crc32_fold, 2);
    if input.len() == 0 {
        assert(input.push(byte)[0] == byte);
        assert(input.push(byte).skip(1) =~= Seq::<u8>::empty());
    } else {
        assert(input.push(byte)[0] == input[0]);
        assert(input.push(byte).skip(1) =~= input.skip(1).push(byte));
        lemma_crc32_fold_push(crc32_update(state, input[0]), input.skip(1), byte);
    }
}

/// A sink that accumulates a running CRC-32 over every byte it receives.
///
/// The `received` field is the model of the bytes accepted so far; the
/// machine state is the fold of exactly those bytes.
pub struct Crc32Sink {
    state: u32,
    received: Ghost<Seq<u8>>,
}

impl Crc32Sink {
    /// A CRC-32 sink in its initial state, no bytes received.
    pub fn new() -> (sink: Crc32Sink)
        ensures
            sink.wf(),
            sink.bytes() == Seq::<u8>::empty(),
    {
        Crc32Sink { state: CRC32_INITIAL, received: Ghost(Seq::empty()) }
    }
}

impl Sink for Crc32Sink {
    /// The machine state is the fold of the received bytes.
    closed spec fn wf(&self) -> bool {
        self.state == crc32_fold(CRC32_INITIAL, self.received@)
    }

    closed spec fn bytes(&self) -> Seq<u8> {
        self.received@
    }

    open spec fn digest_of(accumulated: Seq<u8>) -> u64 {
        crc32_digest(accumulated)
    }

    fn write(&mut self, input: &[u8]) {
        let mut k: usize = 0;
        while k < input.len()
            invariant
                k <= input@.len(),
                self.received@ == old(self).received@ + input@.take(k as int),
                self.state == crc32_fold(CRC32_INITIAL, self.received@),
            decreases input@.len() - k,
        {
            let byte = input[k];
            let ghost pre = self.received@;
            let folded: u32 = self.state ^ (byte as u32);
            let mut rounds: usize = 0;
            let mut state: u32 = folded;
            while rounds < 8
                invariant
                    rounds <= 8,
                    state == crc32_rounds(folded, rounds as nat),
                decreases 8 - rounds,
            {
                proof {
                    lemma_crc32_rounds_step(folded, rounds as nat);
                }
                state = if state & 1 == 1 {
                    (state >> 1) ^ CRC32_POLYNOMIAL
                } else {
                    (state >> 1)
                };
                rounds = rounds + 1;
            }
            self.state = state;
            self.received = Ghost(pre.push(byte));
            k = k + 1;
            proof {
                lemma_crc32_fold_push(CRC32_INITIAL, pre, byte);
                assert(pre.push(byte) =~= old(self).received@ + input@.take(k as int));
            }
        }
        proof {
            assert(input@.take(k as int) =~= input@);
        }
    }

    fn finish(&self) -> (digest: u64) {
        (self.state ^ CRC32_INITIAL) as u64
    }
}

} // verus!
