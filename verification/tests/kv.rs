use kuska_ssb::feed::Message;
use kuska_ssb::keystore::OwnedIdentity;
use solar::feed::MessageValue;
use solar::storage::kv::{
    decode_latest_seq, next_sequence, pending_blobs, BlobStatus, KvError, KvStorage, StoKvEvent,
};

fn open_store(dir: &tempdir::TempDir) -> KvStorage {
    let mut kv = KvStorage::default();
    assert!(!kv.opened());
    let config = sled::Config::new().path(dir.path());
    kv.open(config).unwrap();
    assert!(kv.opened());
    kv
}

fn sign(prev: Option<&Message>, id: &OwnedIdentity, text: &str) -> Message {
    Message::sign(prev, id, serde_json::Value::String(text.to_string())).unwrap()
}

fn checked(msg: &Message) -> MessageValue {
    MessageValue::from_slice(msg.to_string().as_bytes()).unwrap()
}

#[test]
fn test_blobs() {
    let mut kv = KvStorage::default();
    let path = tempdir::TempDir::new("solardb").unwrap();
    let config = sled::Config::new().path(&path.path());
    kv.open(config).unwrap();

    assert_eq!(true, kv.get_blob("1").unwrap().is_none());

    kv.set_blob(
        "b1",
        &BlobStatus {
            retrieved: true,
            users: ["u1".to_string()].to_vec(),
        },
    )
    .unwrap();

    kv.set_blob(
        "b2",
        &BlobStatus {
            retrieved: false,
            users: ["u2".to_string()].to_vec(),
        },
    )
    .unwrap();

    let blob = kv.get_blob("b1").unwrap().unwrap();

    assert_eq!(blob.retrieved, true);
    assert_eq!(blob.users, ["u1".to_string()].to_vec());
    assert_eq!(kv.get_pending_blobs().unwrap(), ["b2".to_string()].to_vec());

    kv.set_blob(
        "b1",
        &BlobStatus {
            retrieved: false,
            users: ["u7".to_string()].to_vec(),
        },
    )
    .unwrap();

    let blob = kv.get_blob("b1").unwrap().unwrap();

    assert_eq!(blob.retrieved, false);
    assert_eq!(blob.users, ["u7".to_string()].to_vec());
    assert_eq!(
        kv.get_pending_blobs().unwrap(),
        ["b1".to_string(), "b2".to_string()].to_vec()
    );
}

#[test]
fn keys_are_prefix_then_big_endian_then_text() {
    assert_eq!(KvStorage::key_latest_seq("ab"), vec![0, b'a', b'b']);
    assert_eq!(
        KvStorage::key_msg_kvt("ab", 258),
        vec![1, 0, 0, 0, 0, 0, 0, 1, 2, b'a', b'b']
    );
    assert_eq!(KvStorage::key_msg_val("%x"), vec![2, b'%', b'x']);
    assert_eq!(KvStorage::key_blob("&y"), vec![3, b'&', b'y']);
    assert_eq!(KvStorage::key_peer("@z"), vec![4, b'@', b'z']);
}

#[test]
fn append_order_enforced() {
    let dir = tempdir::TempDir::new("solardb").unwrap();
    let mut kv = open_store(&dir);
    let id = OwnedIdentity::create();
    let first = sign(None, &id, "one");
    let second = sign(Some(&first), &id, "two");
    assert_eq!(second.sequence(), 2);

    let res = kv.append_feed(&checked(&second));
    assert!(matches!(res, Err(KvError::InvalidSequence)));
    assert_eq!(kv.get_latest_seq(&id.id).unwrap(), None);
    assert!(kv.get_msg_kvt(&id.id, 2).unwrap().is_none());
    assert!(kv.get_msg_val(&second.id().to_string()).unwrap().is_none());
    assert!(kv.get_latest_msg_val(&id.id).unwrap().is_none());
    assert!(kv.get_peers().unwrap().is_empty());
}

#[test]
fn append_keeps_feed_dense_and_messages_found() {
    let dir = tempdir::TempDir::new("solardb").unwrap();
    let mut kv = open_store(&dir);
    let id = OwnedIdentity::create();
    let first = sign(None, &id, "one");
    let second = sign(Some(&first), &id, "two");

    let out = kv.append_feed(&checked(&first)).unwrap();
    assert_eq!(out.seq_num, 1);
    assert!(matches!(&out.event, StoKvEvent::IdChanged(author) if *author == id.id));
    assert_eq!(kv.get_latest_seq(&id.id).unwrap(), Some(1));

    // The same message again is no longer the next of the feed.
    assert!(matches!(
        kv.append_feed(&checked(&first)),
        Err(KvError::InvalidSequence)
    ));

    let out = kv.append_feed(&checked(&second)).unwrap();
    assert_eq!(out.seq_num, 2);
    assert_eq!(kv.get_latest_seq(&id.id).unwrap(), Some(2));

    for (seq, msg) in [(1u64, &first), (2u64, &second)] {
        let kvt = kv.get_msg_kvt(&id.id, seq).unwrap().unwrap();
        assert_eq!(kvt.value.sequence(), seq);
        assert_eq!(*kvt.value.json(), msg.to_string());
        let found = kv.get_msg_val(&msg.id().to_string()).unwrap().unwrap();
        assert_eq!(*found.json(), msg.to_string());
        assert_eq!(*found.id(), msg.id().to_string());
        assert_eq!(*found.author(), id.id);
    }
    assert!(kv.get_msg_kvt(&id.id, 3).unwrap().is_none());
    assert_eq!(out.kvt.as_bytes(), &kv.get_msg_kvt(&id.id, 2).unwrap().unwrap().text[..]);

    let latest = kv.get_latest_msg_val(&id.id).unwrap().unwrap();
    assert_eq!(*latest.json(), second.to_string());

    let peers = kv.get_peers().unwrap();
    assert_eq!(peers.len(), 1);
    assert_eq!(peers[0].pub_key, id.id);
    assert_eq!(peers[0].seq_num, 3);
}

#[test]
fn peers_are_listed_in_key_order() {
    let dir = tempdir::TempDir::new("solardb").unwrap();
    let mut kv = open_store(&dir);
    kv.set_peer("@b", 7).unwrap();
    kv.set_peer("@a", 9).unwrap();
    kv.set_blob("zz", &BlobStatus { retrieved: false, users: vec![] }).unwrap();
    let peers = kv.get_peers().unwrap();
    // No feed is stored for either peer, so each starts at sequence one.
    let listed: Vec<(String, u64)> = peers.into_iter().map(|p| (p.pub_key, p.seq_num)).collect();
    assert_eq!(listed, vec![("@a".to_string(), 1), ("@b".to_string(), 1)]);
    // The peers lie behind the blobs in the key space and are no blobs.
    assert_eq!(kv.get_pending_blobs().unwrap(), vec!["zz".to_string()]);
}

#[test]
fn blob_round_trip_is_not_pending() {
    let dir = tempdir::TempDir::new("solardb").unwrap();
    let mut kv = open_store(&dir);
    let h = solar::storage::blob::blob_hash_id(b"hello");
    assert_eq!(h, "&LPJNul+wow4m6DsqxbninhsWHlwfp0JecwQzYpOLmCQ=.sha256");
    kv.set_blob(&h, &BlobStatus { retrieved: true, users: vec![] }).unwrap();
    assert!(!kv.get_pending_blobs().unwrap().contains(&h));
    let status = kv.get_blob(&h).unwrap().unwrap();
    assert!(status.retrieved);
    assert!(status.users.is_empty());
}

#[test]
fn unreadable_entries_are_errors() {
    let dir = tempdir::TempDir::new("solardb").unwrap();
    {
        let db = sled::Config::new().path(dir.path()).open().unwrap();
        // A latest sequence number of three bytes.
        db.insert(KvStorage::key_latest_seq("@short"), vec![1u8, 2, 3]).unwrap();
        // A latest sequence number without its message.
        db.insert(KvStorage::key_latest_seq("@gone"), 4u64.to_be_bytes().to_vec()).unwrap();
        // An envelope that is no envelope, and one that is no JSON.
        db.insert(KvStorage::key_msg_kvt("@bad", 1), b"{\"key\":1}".to_vec()).unwrap();
        db.insert(KvStorage::key_msg_kvt("@bad", 2), b"nonsense".to_vec()).unwrap();
        // A message reference that is no object, and one that points nowhere.
        db.insert(KvStorage::key_msg_val("%junk"), vec![0xffu8]).unwrap();
        db.insert(
            KvStorage::key_msg_val("%lost"),
            solar::storage::codec::encode_msg_ref("@nobody", 1),
        )
        .unwrap();
        // A blob status that is no object.
        db.insert(KvStorage::key_blob("&junk"), vec![0x00u8]).unwrap();
        db.flush().unwrap();
    }
    let kv = open_store(&dir);
    assert!(matches!(kv.get_latest_seq("@short"), Err(KvError::Corrupt)));
    assert!(matches!(kv.get_latest_msg_val("@short"), Err(KvError::Corrupt)));
    assert!(matches!(kv.get_latest_msg_val("@gone"), Err(KvError::Corrupt)));
    assert!(matches!(kv.get_msg_kvt("@bad", 1), Err(KvError::Feed(_))));
    assert!(matches!(kv.get_msg_kvt("@bad", 2), Err(KvError::Corrupt)));
    assert!(matches!(kv.get_msg_val("%junk"), Err(KvError::Cbor)));
    assert!(matches!(kv.get_msg_val("%lost"), Err(KvError::Corrupt)));
    assert!(matches!(kv.get_blob("&junk"), Err(KvError::Cbor)));
    assert!(matches!(kv.get_pending_blobs(), Err(KvError::Cbor)));
}

#[test]
fn open_fails_while_another_handle_holds_the_files() {
    let dir = tempdir::TempDir::new("solardb").unwrap();
    let first = open_store(&dir);
    // A second handle on the same files is refused while the first holds them.
    let mut second = KvStorage::default();
    let res = second.open(sled::Config::new().path(dir.path()));
    assert!(matches!(res, Err(KvError::Sled(_))));
    assert!(!second.opened());
    assert!(first.opened());
}

#[test]
fn pending_blobs_come_in_the_order_of_their_keys() {
    let dir = tempdir::TempDir::new("solardb").unwrap();
    let mut kv = open_store(&dir);
    for id in ["b1", "b", "a2", "c", "ab", ""] {
        kv.set_blob(id, &BlobStatus { retrieved: false, users: vec![id.to_string()] }).unwrap();
    }
    kv.set_blob("aa", &BlobStatus { retrieved: true, users: vec![] }).unwrap();
    // A prefix comes before what it is a prefix of.
    assert_eq!(
        kv.get_pending_blobs().unwrap(),
        vec!["", "a2", "ab", "b", "b1", "c"].into_iter().map(String::from).collect::<Vec<_>>()
    );
    let status = kv.get_blob("ab").unwrap().unwrap();
    assert_eq!(status.users, vec!["ab".to_string()]);
}

#[test]
fn feeds_of_two_authors_do_not_disturb_each_other() {
    let dir = tempdir::TempDir::new("solardb").unwrap();
    let mut kv = open_store(&dir);
    let alice = OwnedIdentity::create();
    let bob = OwnedIdentity::create();
    let a1 = sign(None, &alice, "a1");
    let b1 = sign(None, &bob, "b1");
    let a2 = sign(Some(&a1), &alice, "a2");

    assert_eq!(kv.append_feed(&checked(&a1)).unwrap().seq_num, 1);
    assert_eq!(kv.append_feed(&checked(&b1)).unwrap().seq_num, 1);
    assert_eq!(kv.append_feed(&checked(&a2)).unwrap().seq_num, 2);
    assert_eq!(kv.get_latest_seq(&alice.id).unwrap(), Some(2));
    assert_eq!(kv.get_latest_seq(&bob.id).unwrap(), Some(1));

    for msg in [&a1, &b1, &a2] {
        let found = kv.get_msg_val(&msg.id().to_string()).unwrap().unwrap();
        assert_eq!(*found.json(), msg.to_string());
    }
    let latest = kv.get_latest_msg_val(&bob.id).unwrap().unwrap();
    assert_eq!(*latest.json(), b1.to_string());

    let mut expected = vec![(alice.id.clone(), 3u64), (bob.id.clone(), 2u64)];
    expected.sort();
    let peers: Vec<(String, u64)> =
        kv.get_peers().unwrap().into_iter().map(|p| (p.pub_key, p.seq_num)).collect();
    assert_eq!(peers, expected);
}

#[test]
fn contents_outlive_the_handle() {
    let dir = tempdir::TempDir::new("solardb").unwrap();
    let id = OwnedIdentity::create();
    let first = sign(None, &id, "one");
    {
        let mut kv = open_store(&dir);
        kv.append_feed(&checked(&first)).unwrap();
        kv.set_blob("b", &BlobStatus { retrieved: false, users: vec![] }).unwrap();
    }
    let kv = open_store(&dir);
    assert_eq!(kv.get_latest_seq(&id.id).unwrap(), Some(1));
    assert_eq!(kv.get_pending_blobs().unwrap(), vec!["b".to_string()]);
}

#[test]
fn decisions_of_the_store_on_given_values() {
    assert_eq!(decode_latest_seq(&[0, 0, 0, 0, 0, 0, 1, 2]), Some(258));
    assert_eq!(decode_latest_seq(&[0xff; 8]), Some(u64::MAX));
    assert_eq!(decode_latest_seq(&[1, 2, 3]), None);
    assert_eq!(decode_latest_seq(&[0; 9]), None);
    assert_eq!(decode_latest_seq(&[]), None);

    assert_eq!(next_sequence(None), Some(1));
    assert_eq!(next_sequence(Some(0)), Some(1));
    assert_eq!(next_sequence(Some(41)), Some(42));
    assert_eq!(next_sequence(Some(u64::MAX - 1)), Some(u64::MAX));
    assert_eq!(next_sequence(Some(u64::MAX)), None);

    let status = |retrieved| solar::storage::codec::encode_blob_status(retrieved, &vec![]);
    let items = vec![
        (KvStorage::key_blob("a"), status(false)),
        (KvStorage::key_blob("b"), status(true)),
        (KvStorage::key_blob("c"), status(false)),
        // What is no UTF-8 is read with a replacement character.
        (vec![3u8, 0xff], status(false)),
    ];
    assert_eq!(
        pending_blobs(&items).unwrap(),
        vec!["a".to_string(), "c".to_string(), "\u{fffd}".to_string()]
    );
    assert_eq!(pending_blobs(&vec![]).unwrap(), Vec::<String>::new());
    let broken = vec![(KvStorage::key_blob("a"), status(false)), (KvStorage::key_blob("b"), vec![1u8])];
    assert!(matches!(pending_blobs(&broken), Err(KvError::Cbor)));
}

#[test]
fn blob_status_is_stored_in_binary_object_form_under_its_key() {
    let dir = tempdir::TempDir::new("solardb").unwrap();
    let users = vec!["u1".to_string(), "u2".to_string()];
    {
        let mut kv = open_store(&dir);
        kv.set_blob("&b", &BlobStatus { retrieved: false, users: users.clone() }).unwrap();
        kv.set_peer("@a", 7).unwrap();
    }
    let db = sled::Config::new().path(dir.path()).open().unwrap();
    let raw = db.get(KvStorage::key_blob("&b")).unwrap().unwrap();
    assert_eq!(raw.to_vec(), solar::storage::codec::encode_blob_status(false, &users));
    let raw = db.get(KvStorage::key_peer("@a")).unwrap().unwrap();
    assert_eq!(raw.to_vec(), 7u64.to_be_bytes().to_vec());
}
