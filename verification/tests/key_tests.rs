use umber_dds::dds::key::KeyHash;

#[test]
fn test() {
    // The key "RED" serialized as a big-endian CDR string.
    let serialized = [0x00, 0x00, 0x00, 0x04, 0x52, 0x45, 0x44, 0x00];
    let keyhash = KeyHash::from_serialized_key(&serialized);
    assert_eq!(
        keyhash._hash,
        [
            0x00, 0x00, 0x00, 0x04, 0x52, 0x45, 0x44, 0x00, 0x00, 0x00, 0x00, 0x00, 0x00, 0x00,
            0x00, 0x00
        ]
    )
}

#[test]
fn long_key_is_hashed_with_md5() {
    let serialized: Vec<u8> = (0u8..17).collect();
    let keyhash = KeyHash::from_serialized_key(&serialized);
    let expected = md5::compute(&serialized).0;
    assert_eq!(keyhash._hash, expected);
    assert_ne!(keyhash._hash[..], serialized[..16]);
}

#[test]
fn sixteen_octet_key_is_kept() {
    let serialized: Vec<u8> = (1u8..=16).collect();
    let keyhash = KeyHash::from_serialized_key(&serialized);
    assert_eq!(keyhash._hash[..], serialized[..]);
    assert!(keyhash.same(&KeyHash::new(&serialized)));
    assert!(!keyhash.same(&KeyHash::zero()));
}
