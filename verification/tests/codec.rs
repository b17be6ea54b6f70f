use std::collections::BTreeMap;

use solar::storage::codec::{
    decode_blob_status, decode_msg_ref, encode_blob_status, encode_head, encode_msg_ref,
    encode_text, encode_texts, read_bool, read_head, read_text, read_texts, u64_to_be_bytes,
    uint_from_be_bytes, uint_to_be_bytes,
};

#[test]
fn big_endian_integers() {
    assert_eq!(u64_to_be_bytes(0x0102030405060708), vec![1, 2, 3, 4, 5, 6, 7, 8]);
    assert_eq!(u64_to_be_bytes(1), 1u64.to_be_bytes().to_vec());
    assert_eq!(u64_to_be_bytes(u64::MAX), vec![0xff; 8]);
    assert_eq!(uint_to_be_bytes(0x1234, 2), vec![0x12, 0x34]);
    assert_eq!(uint_to_be_bytes(0x1234, 1), vec![0x34]);
    assert_eq!(uint_to_be_bytes(7, 0), Vec::<u8>::new());
    assert_eq!(uint_from_be_bytes(&[1, 2, 3, 4, 5, 6, 7, 8]), 0x0102030405060708);
    assert_eq!(uint_from_be_bytes(&[0xff; 8]), u64::MAX);
    assert_eq!(uint_from_be_bytes(&[0x12, 0x34]), 0x1234);
    assert_eq!(uint_from_be_bytes(&[]), 0);
}

#[test]
fn heads_take_the_shortest_form() {
    assert_eq!(encode_head(0, 0), vec![0x00]);
    assert_eq!(encode_head(0, 23), vec![0x17]);
    assert_eq!(encode_head(0, 24), vec![0x18, 24]);
    assert_eq!(encode_head(3, 255), vec![0x78, 0xff]);
    assert_eq!(encode_head(3, 256), vec![0x79, 1, 0]);
    assert_eq!(encode_head(4, 65535), vec![0x99, 0xff, 0xff]);
    assert_eq!(encode_head(4, 65536), vec![0x9a, 0, 1, 0, 0]);
    assert_eq!(encode_head(5, 0xffff_ffff), vec![0xba, 0xff, 0xff, 0xff, 0xff]);
    assert_eq!(encode_head(5, 0x1_0000_0000), vec![0xbb, 0, 0, 0, 1, 0, 0, 0, 0]);
    for n in [0u64, 23, 24, 255, 256, 65535, 65536, 0xffff_ffff, 0x1_0000_0000, u64::MAX] {
        let mut bytes = vec![0xaa];
        bytes.extend(encode_head(5, n));
        bytes.push(0xbb);
        assert_eq!(read_head(&bytes, 1), Some((5, n, bytes.len() - 1)));
    }
}

#[test]
fn heads_of_every_width_are_read() {
    assert_eq!(read_head(&[0x18, 5], 0), Some((0, 5, 2)));
    assert_eq!(read_head(&[0x19, 0, 5], 0), Some((0, 5, 3)));
    assert_eq!(read_head(&[0x1b, 0, 0, 0, 0, 0, 0, 0, 5], 0), Some((0, 5, 9)));
    assert_eq!(read_head(&[0x19, 0], 0), None);
    assert_eq!(read_head(&[0x1c], 0), None);
    assert_eq!(read_head(&[0x5f], 0), None);
    assert_eq!(read_head(&[], 0), None);
    assert_eq!(read_head(&[0x01], 1), None);
}

#[test]
fn texts_and_truth_values() {
    assert_eq!(encode_text("u1"), vec![0x62, b'u', b'1']);
    assert_eq!(encode_text(""), vec![0x60]);
    assert_eq!(encode_text("é"), vec![0x62, 0xc3, 0xa9]);
    assert_eq!(read_text(&[0x62, b'u', b'1', 0], 0), Some(("u1".to_string(), 3)));
    assert_eq!(read_text(&[0x62, 0xc3, 0xa9], 0), Some(("é".to_string(), 3)));
    // Too short, not UTF-8, not a text.
    assert_eq!(read_text(&[0x62, b'u'], 0), None);
    assert_eq!(read_text(&[0x62, 0xc3, 0x28], 0), None);
    assert_eq!(read_text(&[0x42, b'u', b'1'], 0), None);
    assert_eq!(read_bool(&[0xf5], 0), Some((true, 1)));
    assert_eq!(read_bool(&[0xf4], 0), Some((false, 1)));
    assert_eq!(read_bool(&[0xf6], 0), None);
    assert_eq!(read_bool(&[0xf5], 1), None);

    let list = vec!["a".to_string(), "".to_string(), "bc".to_string()];
    let bytes = encode_texts(&list);
    assert_eq!(bytes, vec![0x61, b'a', 0x60, 0x62, b'b', b'c']);
    assert_eq!(read_texts(&bytes, 0, 3), Some((list.clone(), 6)));
    assert_eq!(read_texts(&bytes, 0, 2), Some((list[..2].to_vec(), 3)));
    assert_eq!(read_texts(&bytes, 0, 4), None);
    assert_eq!(read_texts(&bytes, 6, 0), Some((vec![], 6)));
}

#[test]
fn blob_status_in_binary_object_form() {
    let users = vec!["u1".to_string()];
    let bytes = encode_blob_status(true, &users);
    let mut expected = vec![0xa2, 0x69];
    expected.extend_from_slice(b"retrieved");
    expected.push(0xf5);
    expected.push(0x65);
    expected.extend_from_slice(b"users");
    expected.extend_from_slice(&[0x81, 0x62, b'u', b'1']);
    assert_eq!(bytes, expected);
    assert_eq!(decode_blob_status(&bytes), Some((true, users.clone())));

    // The same bytes as the object serialisation gives for these fields.
    let mut object: BTreeMap<String, serde_cbor::Value> = BTreeMap::new();
    object.insert("retrieved".to_string(), serde_cbor::Value::Bool(true));
    object.insert(
        "users".to_string(),
        serde_cbor::Value::Array(vec![serde_cbor::Value::Text("u1".to_string())]),
    );
    assert_eq!(bytes, serde_cbor::to_vec(&object).unwrap());
    let read: BTreeMap<String, serde_cbor::Value> = serde_cbor::from_slice(&bytes).unwrap();
    assert_eq!(read, object);

    let many: Vec<String> = (0..300).map(|i| format!("user-{}", i)).collect();
    let bytes = encode_blob_status(false, &many);
    assert_eq!(decode_blob_status(&bytes), Some((false, many)));
    assert_eq!(decode_blob_status(&encode_blob_status(false, &vec![])), Some((false, vec![])));
}

#[test]
fn blob_status_that_is_not_one() {
    let bytes = encode_blob_status(true, &vec!["u1".to_string()]);
    assert_eq!(decode_blob_status(&bytes[..bytes.len() - 1]), None);
    let mut longer = bytes.clone();
    longer.push(0);
    assert_eq!(decode_blob_status(&longer), None);
    let mut other_key = bytes.clone();
    other_key[2] = b'R';
    assert_eq!(decode_blob_status(&other_key), None);
    let mut no_map = bytes.clone();
    no_map[0] = 0x82;
    assert_eq!(decode_blob_status(&no_map), None);
    assert_eq!(decode_blob_status(&[]), None);
    assert_eq!(decode_blob_status(&encode_msg_ref("@a", 1)), None);
}

#[test]
fn message_reference_in_binary_object_form() {
    let bytes = encode_msg_ref("@a", 1000);
    let mut expected = vec![0xa2, 0x67];
    expected.extend_from_slice(b"pub_key");
    expected.extend_from_slice(&[0x62, b'@', b'a', 0x67]);
    expected.extend_from_slice(b"seq_num");
    expected.extend_from_slice(&[0x19, 0x03, 0xe8]);
    assert_eq!(bytes, expected);
    assert_eq!(decode_msg_ref(&bytes), Some(("@a".to_string(), 1000)));

    let mut object: BTreeMap<String, serde_cbor::Value> = BTreeMap::new();
    object.insert("pub_key".to_string(), serde_cbor::Value::Text("@a".to_string()));
    object.insert("seq_num".to_string(), serde_cbor::Value::Integer(1000));
    assert_eq!(bytes, serde_cbor::to_vec(&object).unwrap());

    for seq in [0u64, 1, 23, 24, 255, 256, 65536, u64::MAX] {
        assert_eq!(
            decode_msg_ref(&encode_msg_ref("@key.ed25519", seq)),
            Some(("@key.ed25519".to_string(), seq))
        );
    }
    assert_eq!(decode_msg_ref(&bytes[..bytes.len() - 1]), None);
    assert_eq!(decode_msg_ref(&encode_blob_status(true, &vec![])), None);
}
