use collections::codec::{decode_collection, encode_collection};
use collections::errors::CollectionError;
use collections::state::CollectionData;
use collections::types::{CollectionSignature, Pubkey};

fn key(n: u8) -> Pubkey {
    Pubkey::new(vec![n; 32])
}

fn rich_record() -> CollectionData {
    CollectionData {
        name: b"gallery".to_vec(),
        description: b"a small gallery".to_vec(),
        image: b"https://example.org/g.png".to_vec(),
        creator: key(1),
        authorities: vec![key(1), key(2)],
        advanced: 7,
        max_size: 10,
        members: vec![key(3), key(4), key(5)],
        member_of: vec![
            CollectionSignature { collection: key(6), signature: vec![9; 32] },
            CollectionSignature { collection: key(7), signature: vec![8; 32] },
        ],
    }
}

fn assert_same_record(a: &CollectionData, b: &CollectionData) {
    assert_eq!(a.name, b.name);
    assert_eq!(a.description, b.description);
    assert_eq!(a.image, b.image);
    assert_eq!(a.creator.bytes, b.creator.bytes);
    assert_eq!(a.authorities.len(), b.authorities.len());
    for i in 0..a.authorities.len() {
        assert_eq!(a.authorities[i].bytes, b.authorities[i].bytes);
    }
    assert_eq!(a.advanced, b.advanced);
    assert_eq!(a.max_size, b.max_size);
    assert_eq!(a.members.len(), b.members.len());
    for i in 0..a.members.len() {
        assert_eq!(a.members[i].bytes, b.members[i].bytes);
    }
    assert_eq!(a.member_of.len(), b.member_of.len());
    for i in 0..a.member_of.len() {
        assert_eq!(a.member_of[i].collection.bytes, b.member_of[i].collection.bytes);
        assert_eq!(a.member_of[i].signature, b.member_of[i].signature);
    }
}

#[test]
fn decode_of_encode_yields_the_record() {
    let r = rich_record();
    let bytes = encode_collection(&r);
    let d = decode_collection(&bytes).expect("a fresh encoding decodes");
    assert_same_record(&r, &d);
}

#[test]
fn decode_ignores_trailing_padding() {
    let r = rich_record();
    let mut bytes = encode_collection(&r);
    for _ in 0..57 {
        bytes.push(0);
    }
    let d = decode_collection(&bytes).expect("padding after the payload is ignored");
    assert_same_record(&r, &d);
}

#[test]
fn encoding_layout_is_exact() {
    let r = CollectionData {
        name: b"ab".to_vec(),
        description: vec![],
        image: vec![],
        creator: key(1),
        authorities: vec![key(2)],
        advanced: 3,
        max_size: 9,
        members: vec![],
        member_of: vec![],
    };
    let bytes = encode_collection(&r);
    let mut expected: Vec<u8> = vec![];
    expected.extend_from_slice(&[2, 0, 0, 0, 0x61, 0x62]); // name
    expected.extend_from_slice(&[0, 0, 0, 0]); // description
    expected.extend_from_slice(&[0, 0, 0, 0]); // image
    expected.extend_from_slice(&[1; 32]); // creator
    expected.extend_from_slice(&[1, 0, 0, 0]); // one authority
    expected.extend_from_slice(&[2; 32]);
    expected.push(3); // flags
    expected.extend_from_slice(&[9, 0, 0, 0]); // max_size
    expected.extend_from_slice(&[0, 0, 0, 0]); // members
    expected.extend_from_slice(&[0, 0, 0, 0]); // member_of
    assert_eq!(bytes, expected);
}

#[test]
fn decode_rejects_truncated_payload() {
    let r = rich_record();
    let mut bytes = encode_collection(&r);
    bytes.truncate(bytes.len() - 1);
    let d = decode_collection(&bytes);
    assert!(matches!(d, Err(CollectionError::DataTypeMismatch)));
}

#[test]
fn decode_rejects_oversized_length_prefix() {
    let bytes = vec![0xff, 0xff, 0xff, 0xff, 1, 2, 3];
    let d = decode_collection(&bytes);
    assert!(matches!(d, Err(CollectionError::DataTypeMismatch)));
}

#[test]
fn from_account_info_accepts_aligned_buffers() {
    // A buffer of 82 + k * 32 bytes whose payload is a valid record.
    let r = CollectionData {
        name: b"ab".to_vec(),
        description: vec![],
        image: vec![],
        creator: key(1),
        authorities: vec![key(2)],
        advanced: 3,
        max_size: 9,
        members: vec![],
        member_of: vec![],
    };
    let mut bytes = encode_collection(&r);
    assert_eq!(bytes.len(), 95);
    while bytes.len() < 82 + 32 {
        bytes.push(0);
    }
    let d = CollectionData::from_account_info(&bytes).expect("aligned buffer decodes");
    assert_same_record(&r, &d);
}

#[test]
fn from_account_info_rejects_misaligned_length() {
    // 83 bytes: one more than the fixed header, not a whole identity slot.
    let bytes = vec![0u8; 83];
    let d = CollectionData::from_account_info(&bytes);
    assert!(matches!(d, Err(CollectionError::DataTypeMismatch)));
    // Shorter than the fixed header.
    let bytes = vec![0u8; 40];
    let d = CollectionData::from_account_info(&bytes);
    assert!(matches!(d, Err(CollectionError::DataTypeMismatch)));
}
