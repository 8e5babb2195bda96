use synx::big_endian::{push_be, read_be};
use synx::keys::{
    DecodeError, HeedMessageCreationTimeId, HeedTimestampUuid, HeedUuid, HeedUuidTuple,
};

const A: u128 = 0x0102_0304_0506_0708_090a_0b0c_0d0e_0f10;
const B: u128 = 0xf1f2_f3f4_f5f6_f7f8_f9fa_fbfc_fdfe_ff00;

fn bytes_of_a() -> Vec<u8> {
    (1u8..=16).collect()
}

fn bytes_of_b() -> Vec<u8> {
    let mut bytes: Vec<u8> = (0xf1u8..=0xff).collect();
    bytes.push(0);
    bytes
}

#[test]
fn big_endian_digits_are_most_significant_first() {
    let mut out = vec![0xaau8];
    push_be(&mut out, 0x0102_0304, 4);
    assert_eq!(out, vec![0xaa, 1, 2, 3, 4]);
    push_be(&mut out, 0x1_0000_00ff, 2);
    assert_eq!(out, vec![0xaa, 1, 2, 3, 4, 0, 0xff]);
    push_be(&mut out, 7, 0);
    assert_eq!(out.len(), 7);
}

#[test]
fn big_endian_read_takes_the_range_asked_for() {
    let bytes = [9u8, 1, 2, 3, 4, 9];
    assert_eq!(read_be(&bytes, 1, 4), 0x0102_0304);
    assert_eq!(read_be(&bytes, 0, 0), 0);
    assert_eq!(read_be(&[0xffu8; 16], 0, 16), u128::MAX);
}

#[test]
fn single_identifier_key() {
    let key = HeedUuid(A);
    assert_eq!(key.bytes_encode(), bytes_of_a());
    assert_eq!(HeedUuid::bytes_decode(&bytes_of_a()), Ok(HeedUuid(A)));
    assert_eq!(HeedUuid::bytes_decode(&HeedUuid(u128::MAX).bytes_encode()), Ok(HeedUuid(u128::MAX)));
    assert_eq!(HeedUuid(0).bytes_encode(), vec![0u8; 16]);
}

#[test]
fn single_identifier_key_rejects_other_lengths() {
    assert_eq!(
        HeedUuid::bytes_decode(&[1u8; 15]),
        Err(DecodeError { expected: 16, found: 15 })
    );
    assert_eq!(
        HeedUuid::bytes_decode(&[1u8; 17]),
        Err(DecodeError { expected: 16, found: 17 })
    );
    assert_eq!(HeedUuid::bytes_decode(&[]), Err(DecodeError { expected: 16, found: 0 }));
}

#[test]
fn identifier_pair_key() {
    let key = HeedUuidTuple((A, B));
    let mut expected = bytes_of_a();
    expected.extend(bytes_of_b());
    assert_eq!(key.bytes_encode(), expected);
    assert_eq!(key.bytes_encode().len(), 32);
    assert_eq!(HeedUuidTuple::bytes_decode(&expected), Ok(HeedUuidTuple((A, B))));
    assert_eq!(
        HeedUuidTuple::bytes_decode(&expected[..31]),
        Err(DecodeError { expected: 32, found: 31 })
    );
    assert_eq!(
        HeedUuidTuple::bytes_decode(&bytes_of_a()),
        Err(DecodeError { expected: 32, found: 16 })
    );
}

#[test]
fn timestamp_identifier_key() {
    let key = HeedTimestampUuid((0x0102_0304_0506_0708, A));
    let mut expected: Vec<u8> = (1u8..=8).collect();
    expected.extend(bytes_of_a());
    assert_eq!(key.bytes_encode(), expected);
    assert_eq!(
        HeedTimestampUuid::bytes_decode(&expected),
        Ok(HeedTimestampUuid((0x0102_0304_0506_0708, A)))
    );
    assert_eq!(
        HeedTimestampUuid::bytes_decode(&HeedTimestampUuid((u64::MAX, B)).bytes_encode()),
        Ok(HeedTimestampUuid((u64::MAX, B)))
    );
    expected.push(0);
    assert_eq!(
        HeedTimestampUuid::bytes_decode(&expected),
        Err(DecodeError { expected: 24, found: 25 })
    );
}

#[test]
fn message_creation_time_key() {
    let key = HeedMessageCreationTimeId((A, 1, B));
    let mut expected = bytes_of_a();
    expected.extend([0u8, 0, 0, 0, 0, 0, 0, 1]);
    expected.extend(bytes_of_b());
    assert_eq!(key.bytes_encode(), expected);
    assert_eq!(
        HeedMessageCreationTimeId::bytes_decode(&expected),
        Ok(HeedMessageCreationTimeId((A, 1, B)))
    );
    assert_eq!(
        HeedMessageCreationTimeId::bytes_decode(&expected[1..]),
        Err(DecodeError { expected: 40, found: 39 })
    );
}

#[test]
fn byte_order_is_field_order() {
    let earlier = HeedTimestampUuid((1, u128::MAX)).bytes_encode();
    let later = HeedTimestampUuid((2, 0)).bytes_encode();
    assert!(earlier < later);
    let low = HeedTimestampUuid((2, 5)).bytes_encode();
    let high = HeedTimestampUuid((2, 6)).bytes_encode();
    assert!(low < high);
    assert!(HeedUuid(255).bytes_encode() < HeedUuid(256).bytes_encode());
    assert!(HeedUuidTuple((1, u128::MAX)).bytes_encode() < HeedUuidTuple((2, 0)).bytes_encode());
    assert!(
        HeedMessageCreationTimeId((7, 9, 0)).bytes_encode()
            < HeedMessageCreationTimeId((7, 9, 1)).bytes_encode()
    );
    assert!(
        HeedMessageCreationTimeId((7, u64::MAX, u128::MAX)).bytes_encode()
            < HeedMessageCreationTimeId((8, 0, 0)).bytes_encode()
    );
    assert!(
        HeedMessageCreationTimeId((7, 3, u128::MAX)).bytes_encode()
            < HeedMessageCreationTimeId((7, 4, 0)).bytes_encode()
    );
}

#[test]
fn keys_are_made_from_their_fields() {
    assert_eq!(HeedUuid::from(A), HeedUuid(A));
    assert_eq!(HeedUuidTuple::from((A, B)), HeedUuidTuple((A, B)));
    assert_eq!(HeedTimestampUuid::from((3, B)), HeedTimestampUuid((3, B)));
    assert_eq!(
        HeedMessageCreationTimeId::from((A, 3, B)),
        HeedMessageCreationTimeId((A, 3, B))
    );
}

#[test]
fn identifier_bytes_are_the_bytes_of_the_uuid() {
    let uuid = uuid::Uuid::parse_str("a1a2a3a4-b1b2-c1c2-d1d2-d3d4d5d6d7d8").unwrap();
    let id = uuid.as_u128();
    assert_eq!(id, 0xa1a2a3a4b1b2c1c2d1d2d3d4d5d6d7d8);
    assert_eq!(HeedUuid(id).bytes_encode(), uuid.as_bytes().to_vec());
    assert_eq!(HeedUuid::bytes_decode(uuid.as_bytes()), Ok(HeedUuid(id)));
    let other = uuid::Uuid::from_u128(B);
    let mut pair = uuid.as_bytes().to_vec();
    pair.extend_from_slice(other.as_bytes());
    assert_eq!(HeedUuidTuple((id, B)).bytes_encode(), pair);
    let mut entry = 1_700_000_000u64.to_be_bytes().to_vec();
    entry.extend_from_slice(uuid.as_bytes());
    assert_eq!(HeedTimestampUuid((1_700_000_000, id)).bytes_encode(), entry);
    let mut long = uuid.as_bytes().to_vec();
    long.extend_from_slice(&1_700_000_000u64.to_be_bytes());
    long.extend_from_slice(other.as_bytes());
    assert_eq!(HeedMessageCreationTimeId((id, 1_700_000_000, B)).bytes_encode(), long);
}
