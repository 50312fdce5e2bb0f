use redis_event::rdb::object::{
    ExpireType, Field, Item, KeyValue, List, Meta, Module, Object, RdbError, Score,
    SortedSet, Stream, UnorderedSet,
};
use redis_event::rdb::{decode_header, decode_snapshot, parse};
use redis_event::reader::{ReadError, Reader};

fn plain(db: u32) -> Meta {
    Meta { db, expired_type: ExpireType::Never, expired_time: None }
}

fn dump(version: &[u8], body: &[u8], checksum: bool) -> Vec<u8> {
    let mut out = b"REDIS".to_vec();
    out.extend_from_slice(version);
    out.extend_from_slice(body);
    out.push(0xFF);
    if checksum {
        out.extend_from_slice(&[0u8; 8]);
    }
    out
}

fn run(body: &[u8]) -> Result<Vec<Object>, RdbError> {
    let data = dump(b"0009", body, true);
    let n = data.len() as u64;
    let mut r = Reader::new(data);
    parse(&mut r, n)
}

fn only(body: &[u8]) -> Object {
    let mut v = run(body).unwrap();
    assert_eq!(v.len(), 2);
    assert_eq!(v[1], Object::EOR);
    v.remove(0)
}

#[test]
fn empty_snapshot_gives_only_the_end() {
    assert_eq!(run(&[]), Ok(vec![Object::EOR]));
}

#[test]
fn header_gives_the_version() {
    let mut r = Reader::new(b"REDIS0011".to_vec());
    assert_eq!(decode_header(&mut r), Ok(11));
    let mut r = Reader::new(b"REDIS9999".to_vec());
    assert_eq!(decode_header(&mut r), Ok(9999));
}

#[test]
fn bad_magic() {
    let mut r = Reader::new(b"REDIX0006\xFF".to_vec());
    assert_eq!(decode_snapshot(&mut r), Err(RdbError::BadMagic));
    let mut r = Reader::new(b"REDIS00a6\xFF".to_vec());
    assert_eq!(decode_snapshot(&mut r), Err(RdbError::BadMagic));
    let mut r = Reader::new(b"REDIS000".to_vec());
    assert_eq!(decode_snapshot(&mut r), Err(RdbError::Read(ReadError::UnexpectedEof)));
}

#[test]
fn old_versions_have_no_checksum() {
    let data = dump(b"0004", &[0, 1, b'k', 1, b'v'], false);
    let n = data.len() as u64;
    let mut r = Reader::new(data);
    let got = parse(&mut r, n).unwrap();
    assert_eq!(got.len(), 2);
    let data = dump(b"0005", &[0, 1, b'k', 1, b'v'], false);
    let mut r = Reader::new(data);
    assert_eq!(decode_snapshot(&mut r), Err(RdbError::Read(ReadError::UnexpectedEof)));
}

#[test]
fn decoder_consumes_exactly_the_announced_length() {
    let mut data = dump(b"0006", &[0, 1, b'k', 1, b'v'], true);
    let n = data.len() as u64;
    data.extend_from_slice(b"*1\r\n$4\r\nPING\r\n");
    let mut r = Reader::new(data.clone());
    let got = parse(&mut r, n).unwrap();
    assert_eq!(got.last(), Some(&Object::EOR));
    assert_eq!(got.iter().filter(|o| **o == Object::EOR).count(), 1);
    assert_eq!(r.offset() as u64, n);
    let mut r = Reader::new(data.clone());
    assert_eq!(parse(&mut r, n + 1), Err(RdbError::Length));
    let mut r = Reader::new(data);
    assert_eq!(parse(&mut r, n - 1), Err(RdbError::Length));
}

#[test]
fn truncated_snapshot() {
    let data = dump(b"0006", &[0, 1, b'k', 5, b'v'], true);
    let n = data.len() as u64;
    let mut r = Reader::new(data);
    assert_eq!(parse(&mut r, n), Err(RdbError::Read(ReadError::UnexpectedEof)));
    let mut r = Reader::new(b"REDIS0006\x00\x01k\x01v".to_vec());
    assert_eq!(decode_snapshot(&mut r), Err(RdbError::Read(ReadError::UnexpectedEof)));
}

#[test]
fn unknown_and_refused_types() {
    assert_eq!(run(&[8, 1, b'k', 0]), Err(RdbError::UnknownType(8)));
    assert_eq!(run(&[6, 1, b'k', 0]), Err(RdbError::UnknownType(6)));
    assert_eq!(run(&[15, 1, b'k', 0]), Err(RdbError::UnknownType(15)));
    assert_eq!(run(&[246, 1, b'k', 0]), Err(RdbError::UnknownType(246)));
}

#[test]
fn malformed_records() {
    // A special encoding where a count is needed.
    assert_eq!(run(&[1, 1, b'k', 0xC0, 1]), Err(RdbError::Malformed));
    // A packed hash with an odd number of entries.
    let list = [11u8, 0, 0, 0, 10, 0, 0, 0, 1, 0, 0, 1, b'a', 255];
    let mut body = vec![13u8, 1, b'k', list.len() as u8];
    body.extend_from_slice(&list);
    assert_eq!(run(&body), Err(RdbError::Malformed));
    // A packed list that is cut short.
    assert_eq!(run(&[10, 1, b'k', 3, 1, 2, 3]), Err(RdbError::Malformed));
    // A malformed length.
    assert_eq!(run(&[0, 0x82]), Err(RdbError::Read(ReadError::InvalidData)));
}

#[test]
fn string_value() {
    assert_eq!(
        only(&[0, 3, b'k', b'e', b'y', 0xC0, 0x85]),
        Object::String(KeyValue { key: b"key".to_vec(), value: b"-123".to_vec(), meta: plain(0) })
    );
}

#[test]
fn expiry_applies_to_the_next_key_only() {
    let mut body = vec![0xFDu8];
    body.extend_from_slice(&1671963072u32.to_le_bytes());
    body.extend_from_slice(&[0, 1, b'a', 1, b'1']);
    body.extend_from_slice(&[0, 1, b'b', 1, b'2']);
    let got = run(&body).unwrap();
    assert_eq!(
        got[0],
        Object::String(KeyValue {
            key: b"a".to_vec(),
            value: b"1".to_vec(),
            meta: Meta {
                db: 0,
                expired_type: ExpireType::Seconds,
                expired_time: Some(1671963072),
            },
        })
    );
    assert_eq!(
        got[1],
        Object::String(KeyValue { key: b"b".to_vec(), value: b"2".to_vec(), meta: plain(0) })
    );
}

#[test]
fn select_db_and_advisory_records() {
    let mut body = vec![0xFAu8, 3, b'v', b'e', b'r', 1, b'7'];
    body.extend_from_slice(&[0xFE, 0x40, 0x10]);
    body.extend_from_slice(&[0xFB, 2, 1]);
    body.extend_from_slice(&[0xF8, 5, 0xF9, 200]);
    body.extend_from_slice(&[0, 1, b'k', 1, b'v']);
    assert_eq!(
        only(&body),
        Object::String(KeyValue { key: b"k".to_vec(), value: b"v".to_vec(), meta: plain(16) })
    );
}

#[test]
fn database_index_must_fit() {
    let body = [0xFEu8, 0x81, 0, 0, 0, 1, 0, 0, 0, 0];
    assert_eq!(run(&body), Err(RdbError::Malformed));
}

#[test]
fn list_set_and_hash() {
    assert_eq!(
        only(&[1, 1, b'l', 2, 1, b'a', 0xC0, 7]),
        Object::List(List {
            key: b"l".to_vec(),
            values: vec![b"a".to_vec(), b"7".to_vec()],
            meta: plain(0),
        })
    );
    assert_eq!(
        only(&[2, 1, b's', 1, 1, b'm']),
        Object::UnorderedSet(UnorderedSet {
            key: b"s".to_vec(),
            members: vec![b"m".to_vec()],
            meta: plain(0),
        })
    );
    assert_eq!(
        only(&[4, 1, b'h', 1, 1, b'n', 1, b'v']),
        Object::Hash(redis_event::rdb::object::Hash {
            key: b"h".to_vec(),
            fields: vec![Field { name: b"n".to_vec(), value: b"v".to_vec() }],
            meta: plain(0),
        })
    );
}

#[test]
fn sorted_sets_keep_their_scores_as_stored() {
    assert_eq!(
        only(&[3, 1, b'z', 3, 1, b'a', 3, b'1', b'.', b'5', 1, b'b', 255, 1, b'c', 254]),
        Object::SortedSet(SortedSet {
            key: b"z".to_vec(),
            items: vec![
                Item { member: b"a".to_vec(), score: Score::Text(b"1.5".to_vec()) },
                Item { member: b"b".to_vec(), score: Score::Text(b"-inf".to_vec()) },
                Item { member: b"c".to_vec(), score: Score::Text(b"inf".to_vec()) },
            ],
            meta: plain(0),
        })
    );
    let mut body = vec![5u8, 1, b'z', 1, 1, b'a'];
    body.extend_from_slice(&3.19f64.to_le_bytes());
    match only(&body) {
        Object::SortedSet(z) => match &z.items[0].score {
            Score::Bits(b) => assert_eq!(f64::from_bits(*b), 3.19),
            other => panic!("{:?}", other),
        },
        other => panic!("{:?}", other),
    }
}

#[test]
fn packed_sorted_set_and_set() {
    let list = [0u8, 0, 0, 0, 10, 0, 0, 0, 2, 0, 0, 1, b'm', 3, 0xF3, 255];
    let mut body = vec![12u8, 1, b'z', list.len() as u8];
    body.extend_from_slice(&list);
    assert_eq!(
        only(&body),
        Object::SortedSet(SortedSet {
            key: b"z".to_vec(),
            items: vec![Item { member: b"m".to_vec(), score: Score::Text(b"2".to_vec()) }],
            meta: plain(0),
        })
    );
    let pack = [0u8, 0, 0, 0, 2, 0, 0x81, b'x', 2, 0x05, 1, 255];
    let mut body = vec![19u8, 1, b's', pack.len() as u8];
    body.extend_from_slice(&pack);
    assert_eq!(
        only(&body),
        Object::UnorderedSet(UnorderedSet {
            key: b"s".to_vec(),
            members: vec![b"x".to_vec(), b"5".to_vec()],
            meta: plain(0),
        })
    );
    let mut body = vec![16u8, 1, b'h', pack.len() as u8];
    body.extend_from_slice(&pack);
    assert_eq!(
        only(&body),
        Object::Hash(redis_event::rdb::object::Hash {
            key: b"h".to_vec(),
            fields: vec![Field { name: b"x".to_vec(), value: b"5".to_vec() }],
            meta: plain(0),
        })
    );
    let mut body = vec![18u8, 1, b'z', pack.len() as u8];
    body.extend_from_slice(&pack);
    assert_eq!(
        only(&body),
        Object::SortedSet(SortedSet {
            key: b"z".to_vec(),
            items: vec![Item { member: b"x".to_vec(), score: Score::Text(b"5".to_vec()) }],
            meta: plain(0),
        })
    );
}

#[test]
fn quicklists_join_their_nodes() {
    let one = [0u8, 0, 0, 0, 10, 0, 0, 0, 1, 0, 0, 1, b'a', 255];
    let two = [0u8, 0, 0, 0, 10, 0, 0, 0, 2, 0, 0, 1, b'b', 3, 0xF4, 255];
    let mut body = vec![14u8, 1, b'q', 2, one.len() as u8];
    body.extend_from_slice(&one);
    body.push(two.len() as u8);
    body.extend_from_slice(&two);
    assert_eq!(
        only(&body),
        Object::List(List {
            key: b"q".to_vec(),
            values: vec![b"a".to_vec(), b"b".to_vec(), b"3".to_vec()],
            meta: plain(0),
        })
    );
    let pack = [0u8, 0, 0, 0, 2, 0, 0x81, b'x', 2, 0x05, 1, 255];
    let mut body = vec![17u8, 1, b'q', 2, 1, 5, b'p', b'l', b'a', b'i', b'n', 2, pack.len() as u8];
    body.extend_from_slice(&pack);
    assert_eq!(
        only(&body),
        Object::List(List {
            key: b"q".to_vec(),
            values: vec![b"plain".to_vec(), b"x".to_vec(), b"5".to_vec()],
            meta: plain(0),
        })
    );
    assert_eq!(run(&[17, 1, b'q', 1, 3, 1, b'x']), Err(RdbError::Malformed));
}

#[test]
fn module_value_is_kept_as_bytes() {
    let record = [2u8, 7, 5, 2, b'h', b'i', 3, 1, 2, 3, 4, 4, 1, 2, 3, 4, 5, 6, 7, 8, 1, 9, 0];
    let mut body = vec![7u8, 1, b'm', 0x41, 0x00];
    body.extend_from_slice(&record);
    assert_eq!(
        only(&body),
        Object::Module(Module {
            key: b"m".to_vec(),
            id: 256,
            payload: record.to_vec(),
            meta: plain(0),
        })
    );
    assert_eq!(run(&[7, 1, b'm', 1, 9, 0]), Err(RdbError::Malformed));
}

#[test]
fn module_preamble_is_passed_over() {
    let body = [0xF7u8, 1, 2, 1, 5, 1, b'x', 0, 0, 1, b'k', 1, b'v'];
    assert_eq!(
        only(&body),
        Object::String(KeyValue { key: b"k".to_vec(), value: b"v".to_vec(), meta: plain(0) })
    );
}

#[test]
fn function_library() {
    let got = run(&[0xF5, 3, b'l', b'i', b'b']).unwrap();
    assert_eq!(got, vec![Object::Function(b"lib".to_vec()), Object::EOR]);
}

#[test]
fn stream_is_kept_as_bytes() {
    let mut record = vec![1u8];
    record.extend_from_slice(&[16]);
    record.extend_from_slice(&[0u8; 16]);
    record.extend_from_slice(&[2, b'l', b'p']);
    record.extend_from_slice(&[1, 5, 6]);
    record.push(1);
    record.extend_from_slice(&[1, b'g', 5, 6]);
    record.push(1);
    record.extend_from_slice(&[0u8; 24]);
    record.push(3);
    record.push(1);
    record.extend_from_slice(&[1, b'c']);
    record.extend_from_slice(&[0u8; 8]);
    record.push(1);
    record.extend_from_slice(&[0u8; 16]);
    let mut body = vec![20u8, 1, b's'];
    body.extend_from_slice(&record);
    body.extend_from_slice(&[0, 1, b'k', 1, b'v']);
    let got = run(&body).unwrap();
    assert_eq!(
        got[0],
        Object::Stream(Stream { key: b"s".to_vec(), payload: record, meta: plain(0) })
    );
    assert_eq!(got.len(), 3);
}

#[test]
fn stream_cut_short() {
    let body = [20u8, 1, b's', 0, 0, 0, 0, 1, 1, b'g', 0, 0, 0, 1, 1, b'c', 0, 0, 0, 0, 0, 0, 0, 0, 2];
    assert_eq!(run(&body), Err(RdbError::Read(ReadError::UnexpectedEof)));
}
