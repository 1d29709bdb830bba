use kayak::ycsbt::{init, parse_args, table_id, transfer, Action, Event, Txn, KEY_LEN};

fn args(optype: u8, table: u64, key: &[u8]) -> Vec<u8> {
    let mut a = vec![optype];
    a.extend_from_slice(&table.to_le_bytes());
    a.extend_from_slice(key);
    a
}

fn two_keys() -> Vec<u8> {
    let mut keys = vec![b'a'; KEY_LEN as usize];
    keys.extend_from_slice(&[b'b'; 30]);
    keys
}

fn started(a: Vec<u8>) -> (Txn, Action) {
    let mut txn = init();
    let action = txn.resume(Event::Args(a));
    (txn, action)
}

fn expect_reply(action: Action, message: &[u8], code: u64) {
    match action {
        Action::Reply { message: m, code: c } => {
            assert_eq!(m, message.to_vec());
            assert_eq!(c, code);
        }
        _ => panic!("expected a reply"),
    }
}

#[test]
fn table_id_is_little_endian() {
    assert_eq!(table_id(&[1, 2, 0, 0, 0, 0, 0, 0]), 0x0201);
    assert_eq!(table_id(&[0xff; 8]), u64::MAX);
    assert_eq!(table_id(&[0, 0, 0, 0, 0, 0, 0, 0x80]), 1 << 63);
    assert_eq!(table_id(&0x0102_0304_0506_0708u64.to_le_bytes()), 0x0102_0304_0506_0708);
    assert_eq!(table_id(&[]), 0);
    assert_eq!(table_id(&[7]), 7);
}

#[test]
fn short_args_are_refused() {
    assert!(parse_args(&[1u8; 38]).is_none());
    assert!(parse_args(&[]).is_none());
    let a = args(1, 3, &[9u8; 30]);
    assert_eq!(a.len(), 39);
    let parsed = parse_args(&a).unwrap();
    assert_eq!(parsed.optype, 1);
    assert_eq!(parsed.table, 3);
    assert_eq!(parsed.key, vec![9u8; 30]);
}

#[test]
fn transfer_moves_one_unit() {
    let mut a = vec![3u8, 7];
    let mut b = vec![9u8];
    transfer(&mut a, &mut b);
    assert_eq!((a, b), (vec![2u8, 7], vec![10u8]));

    let mut a = vec![0u8];
    let mut b = vec![4u8, 1, 1];
    transfer(&mut a, &mut b);
    assert_eq!((a, b), (vec![1u8], vec![3u8, 1, 1]));

    let mut a = vec![0u8, 5];
    let mut b = vec![0u8];
    transfer(&mut a, &mut b);
    assert_eq!((a, b), (vec![0u8, 5], vec![0u8]));

    let mut a = vec![255u8];
    let mut b = vec![254u8];
    transfer(&mut a, &mut b);
    assert_eq!((a, b), (vec![254u8], vec![255u8]));
}

#[test]
fn invalid_args_are_answered() {
    let (txn, action) = started(vec![1u8; 38]);
    expect_reply(action, b"Invalid args", 1);
    assert_eq!(txn.result(), Some(1));
}

#[test]
fn read_replies_the_value() {
    let key = [b'k'; 30];
    let (mut txn, action) = started(args(1, 0x0201, &key));
    match action {
        Action::Get { table, key: k } => {
            assert_eq!(table, 0x0201);
            assert_eq!(k, key.to_vec());
        }
        _ => panic!("expected a get"),
    }
    assert_eq!(txn.result(), None);
    let action = txn.resume(Event::Object(Some(b"hello".to_vec())));
    expect_reply(action, b"hello", 0);
    assert_eq!(txn.result(), Some(0));
}

#[test]
fn read_of_missing_object_fails() {
    let (mut txn, _) = started(args(1, 1, &[b'k'; 40]));
    let action = txn.resume(Event::Object(None));
    expect_reply(action, b"Object does not exist", 1);
    assert_eq!(txn.result(), Some(1));
}

fn rmw_started() -> Txn {
    let (txn, action) = started(args(0, 5, &two_keys()));
    match action {
        Action::MultiGet { table, key_len, keys } => {
            assert_eq!(table, 5);
            assert_eq!(key_len, 30);
            assert_eq!(keys, two_keys());
        }
        _ => panic!("expected a multiget"),
    }
    txn
}

#[test]
fn read_modify_write_commits_the_transfer() {
    let mut txn = rmw_started();
    let action = txn.resume(Event::Objects(Some(vec![vec![3u8, 1, 2], vec![9u8, 4]])));
    match action {
        Action::Alloc { table, key, len } => {
            assert_eq!(table, 5);
            assert_eq!(key, vec![b'a'; 30]);
            assert_eq!(len, 3);
        }
        _ => panic!("expected an alloc"),
    }
    let action = txn.resume(Event::Allocated(true));
    match action {
        Action::Alloc { table, key, len } => {
            assert_eq!(table, 5);
            assert_eq!(key, vec![b'b'; 30]);
            assert_eq!(len, 2);
        }
        _ => panic!("expected an alloc"),
    }
    let action = txn.resume(Event::Allocated(true));
    match action {
        Action::Commit { first, second } => {
            assert_eq!(first, vec![2u8, 1, 2]);
            assert_eq!(second, vec![10u8, 4]);
            assert_eq!(first[0] + second[0], 3 + 9);
        }
        _ => panic!("expected a commit"),
    }
    assert_eq!(txn.result(), Some(0));
}

#[test]
fn read_modify_write_moves_back_when_first_is_empty() {
    let mut txn = rmw_started();
    txn.resume(Event::Objects(Some(vec![vec![0u8], vec![2u8]])));
    txn.resume(Event::Allocated(true));
    match txn.resume(Event::Allocated(true)) {
        Action::Commit { first, second } => {
            assert_eq!(first, vec![1u8]);
            assert_eq!(second, vec![1u8]);
        }
        _ => panic!("expected a commit"),
    }
}

#[test]
fn read_modify_write_with_second_key_empty() {
    let (mut txn, action) = started(args(2, 1, &[b'a'; 30]));
    assert!(matches!(action, Action::MultiGet { .. }));
    txn.resume(Event::Objects(Some(vec![vec![0u8], vec![0u8]])));
    match txn.resume(Event::Allocated(true)) {
        Action::Alloc { key, len, .. } => {
            assert!(key.is_empty());
            assert_eq!(len, 1);
        }
        _ => panic!("expected an alloc"),
    }
}

#[test]
fn read_modify_write_of_missing_objects_fails() {
    let mut txn = rmw_started();
    expect_reply(txn.resume(Event::Objects(None)), b"Object does not exist", 1);
    assert_eq!(txn.result(), Some(1));
}

#[test]
fn read_modify_write_needs_exactly_two_objects() {
    let mut txn = rmw_started();
    expect_reply(txn.resume(Event::Objects(Some(vec![vec![1u8]]))), b"Error", 1);
    let mut txn = rmw_started();
    let three = vec![vec![1u8], vec![2u8], vec![3u8]];
    expect_reply(txn.resume(Event::Objects(Some(three))), b"Error", 1);
    assert_eq!(txn.result(), Some(1));
}

#[test]
fn failed_first_alloc_fails() {
    let mut txn = rmw_started();
    txn.resume(Event::Objects(Some(vec![vec![1u8], vec![1u8]])));
    expect_reply(txn.resume(Event::Allocated(false)), b"Error", 1);
    assert_eq!(txn.result(), Some(1));
}

#[test]
fn failed_second_alloc_fails() {
    let mut txn = rmw_started();
    txn.resume(Event::Objects(Some(vec![vec![1u8], vec![1u8]])));
    txn.resume(Event::Allocated(true));
    expect_reply(txn.resume(Event::Allocated(false)), b"Error", 1);
    assert_eq!(txn.result(), Some(1));
}
