use deterministic_hash::Crc32Sink;
use deterministic_hash::DeterministicHasher;
use deterministic_hash::Sink;

#[test]
fn crc32_of_empty_input_is_zero() {
    let sink = Crc32Sink::new();
    assert_eq!(sink.finish(), 0);
}

#[test]
fn crc32_matches_the_standard_check_value() {
    let mut sink = Crc32Sink::new();
    sink.write(b"123456789");
    assert_eq!(sink.finish(), 0xCBF43926);
}

#[test]
fn crc32_digest_read_is_idempotent() {
    let mut hasher = DeterministicHasher::new(Crc32Sink::new());
    hasher.write_u64(0x0123456789ABCDEF);
    let first = hasher.finish();
    let second = hasher.finish();
    assert_eq!(first, second);
    hasher.write_u8(1);
    let third = hasher.finish();
    assert_eq!(third, hasher.finish());
}

#[test]
fn native_width_value_hashes_like_its_raw_little_endian_bytes() {
    // Hashing the platform-width value 0x1337 (4919) through the normalizer
    // equals feeding the canonical 8-byte sequence into the same sink
    // configuration directly.
    let mut through_normalizer = DeterministicHasher::new(Crc32Sink::new());
    through_normalizer.write_usize(0x1337);

    let mut direct = Crc32Sink::new();
    direct.write(&[0x37, 0x13, 0, 0, 0, 0, 0, 0]);

    assert_eq!(through_normalizer.finish(), direct.finish());
}

#[test]
fn composite_field_by_field_matches_concatenated_encodings() {
    let mut field_by_field = DeterministicHasher::new(Crc32Sink::new());
    field_by_field.write_u32(0xDEADBEEF);
    field_by_field.write_u16(0x1234);
    field_by_field.write(&[1, 2, 3]);
    field_by_field.write_i8(-1);

    let mut concatenated: Vec<u8> = Vec::new();
    concatenated.extend(deterministic_hash::le_bytes_vec(0xDEADBEEF, 4));
    concatenated.extend(deterministic_hash::le_bytes_vec(0x1234, 2));
    concatenated.extend([1, 2, 3]);
    concatenated.extend(deterministic_hash::le_bytes_vec(0xFF, 1));

    let mut fresh = Crc32Sink::new();
    fresh.write(&concatenated);

    assert_eq!(field_by_field.finish(), fresh.finish());
}

#[test]
fn crc32_digests_differ_between_value_and_swapped_bytes() {
    // The canonical order is little-endian: feeding the big-endian rendering
    // of a value is a different byte stream and yields a different digest.
    let mut little = DeterministicHasher::new(Crc32Sink::new());
    little.write_u32(0x11223344);
    let mut big = Crc32Sink::new();
    big.write(&[0x11, 0x22, 0x33, 0x44]);
    assert_ne!(little.finish(), big.finish());
}
