use deterministic_hash::DeterministicHasher;
use deterministic_hash::RecordingSink;
use deterministic_hash::Sink;

fn forwarded_bytes_of<F: Fn(&mut DeterministicHasher<RecordingSink>)>(feed: F) -> Vec<u8> {
    let mut hasher = DeterministicHasher::new(RecordingSink::new());
    feed(&mut hasher);
    hasher.into_inner().data().clone()
}

#[test]
fn it_works() {
    assert_eq!(2 + 2, 4);
}

#[test]
fn raw_bytes_pass_through_unchanged() {
    let forwarded = forwarded_bytes_of(|h| h.write(&[0xAA, 0x00, 0xFF]));
    assert_eq!(forwarded, vec![0xAA, 0x00, 0xFF]);
}

#[test]
fn unsigned_writes_forward_little_endian_bytes() {
    assert_eq!(forwarded_bytes_of(|h| h.write_u8(0xAB)), vec![0xAB]);
    assert_eq!(forwarded_bytes_of(|h| h.write_u16(0x1234)), vec![0x34, 0x12]);
    assert_eq!(
        forwarded_bytes_of(|h| h.write_u32(0xDEADBEEF)),
        vec![0xEF, 0xBE, 0xAD, 0xDE]
    );
    assert_eq!(
        forwarded_bytes_of(|h| h.write_u64(0x0123456789ABCDEF)),
        vec![0xEF, 0xCD, 0xAB, 0x89, 0x67, 0x45, 0x23, 0x01]
    );
    assert_eq!(
        forwarded_bytes_of(|h| h.write_u128(0x00112233445566778899AABBCCDDEEFF)),
        vec![
            0xFF, 0xEE, 0xDD, 0xCC, 0xBB, 0xAA, 0x99, 0x88, 0x77, 0x66, 0x55, 0x44, 0x33, 0x22,
            0x11, 0x00
        ]
    );
}

#[test]
fn platform_width_forwards_exactly_eight_bytes() {
    let forwarded = forwarded_bytes_of(|h| h.write_usize(0x1337));
    assert_eq!(forwarded.len(), 8);
    assert_eq!(forwarded, vec![0x37, 0x13, 0, 0, 0, 0, 0, 0]);

    // A value that fits 16 bits forwards its 2-byte encoding zero-extended:
    // the same bytes whether the native word is 16, 32, or 64 bits wide.
    let narrow = forwarded_bytes_of(|h| h.write_usize(0xBEEF));
    assert_eq!(narrow, vec![0xEF, 0xBE, 0, 0, 0, 0, 0, 0]);
}

#[test]
fn same_value_from_either_simulated_native_representation() {
    // The same logical value, laid out as a little-endian host holds it and
    // as a big-endian host holds it. Reading each native layout back gives
    // the one value, and the normalizer forwards identical bytes for both.
    let value: u32 = 0x11223344;
    let little_endian_native = value.to_le_bytes();
    let big_endian_native = value.to_be_bytes();
    assert_eq!(little_endian_native, [0x44, 0x33, 0x22, 0x11]);
    assert_eq!(big_endian_native, [0x11, 0x22, 0x33, 0x44]);

    let from_le_host = u32::from_le_bytes(little_endian_native);
    let from_be_host = u32::from_be_bytes(big_endian_native);
    let forwarded_le = forwarded_bytes_of(|h| h.write_u32(from_le_host));
    let forwarded_be = forwarded_bytes_of(|h| h.write_u32(from_be_host));
    assert_eq!(forwarded_le, forwarded_be);
    assert_eq!(forwarded_le, vec![0x44, 0x33, 0x22, 0x11]);
}

#[test]
fn signed_writes_forward_the_unsigned_bit_pattern() {
    assert_eq!(
        forwarded_bytes_of(|h| h.write_i8(-1)),
        forwarded_bytes_of(|h| h.write_u8(255))
    );
    assert_eq!(forwarded_bytes_of(|h| h.write_i8(-1)), vec![0xFF]);
    assert_eq!(
        forwarded_bytes_of(|h| h.write_i16(-2)),
        forwarded_bytes_of(|h| h.write_u16(0xFFFE))
    );
    assert_eq!(
        forwarded_bytes_of(|h| h.write_i32(-0x12345678)),
        forwarded_bytes_of(|h| h.write_u32(0x12345678u32.wrapping_neg()))
    );
    assert_eq!(
        forwarded_bytes_of(|h| h.write_i64(i64::MIN)),
        forwarded_bytes_of(|h| h.write_u64(0x8000000000000000))
    );
    assert_eq!(
        forwarded_bytes_of(|h| h.write_i128(-1)),
        forwarded_bytes_of(|h| h.write_u128(u128::MAX))
    );
    assert_eq!(
        forwarded_bytes_of(|h| h.write_isize(0x1337)),
        forwarded_bytes_of(|h| h.write_usize(0x1337))
    );
    assert_eq!(forwarded_bytes_of(|h| h.write_i16(258)), vec![0x02, 0x01]);
}

#[test]
fn writes_accumulate_in_order() {
    let forwarded = forwarded_bytes_of(|h| {
        h.write_u16(0x1234);
        h.write(&[0x99]);
        h.write_u8(0x42);
    });
    assert_eq!(forwarded, vec![0x34, 0x12, 0x99, 0x42]);
}

#[test]
fn recording_sink_digest_counts_bytes_and_is_idempotent() {
    let mut hasher = DeterministicHasher::new(RecordingSink::new());
    hasher.write_u32(7);
    let first = hasher.finish();
    let second = hasher.finish();
    assert_eq!(first, 4);
    assert_eq!(first, second);
}

#[test]
fn as_inner_reads_without_disturbing_state() {
    let mut hasher = DeterministicHasher::new(RecordingSink::new());
    hasher.write_u8(0x7F);
    assert_eq!(hasher.as_inner().data(), &vec![0x7F]);
    hasher.write_u8(0x80);
    assert_eq!(hasher.as_inner().data(), &vec![0x7F, 0x80]);
}

#[test]
fn into_inner_hands_back_the_accumulated_sink() {
    let mut hasher = DeterministicHasher::new(RecordingSink::new());
    hasher.write_u16(0xCAFE);
    let sink = hasher.into_inner();
    assert_eq!(sink.data(), &vec![0xFE, 0xCA]);
    assert_eq!(sink.finish(), 2);
}

#[test]
fn wrapping_consumes_no_bytes() {
    let mut sink = RecordingSink::new();
    sink.write(&[0x01, 0x02]);
    let hasher = DeterministicHasher::new(sink);
    assert_eq!(hasher.as_inner().data(), &vec![0x01, 0x02]);
}

#[test]
fn le_bytes_vec_encodes_exact_widths() {
    assert_eq!(
        deterministic_hash::le_bytes_vec(0x1337, 8),
        vec![0x37, 0x13, 0, 0, 0, 0, 0, 0]
    );
    assert_eq!(deterministic_hash::le_bytes_vec(0, 0), Vec::<u8>::new());
    assert_eq!(deterministic_hash::le_bytes_vec(0xFF, 1), vec![0xFF]);
}
