use redis_event::intset::decode_intset;
use redis_event::listpack::decode_listpack;
use redis_event::ziplist::decode_ziplist;
use redis_event::zipmap::decode_zipmap;

fn rows(items: &[&[u8]]) -> Option<Vec<Vec<u8>>> {
    Some(items.iter().map(|b| b.to_vec()).collect())
}

fn ziplist(count: u16, body: &[u8]) -> Vec<u8> {
    let mut out = Vec::new();
    out.extend_from_slice(&((10 + body.len() + 1) as u32).to_le_bytes());
    out.extend_from_slice(&10u32.to_le_bytes());
    out.extend_from_slice(&count.to_le_bytes());
    out.extend_from_slice(body);
    out.push(255);
    out
}

fn listpack(count: u16, body: &[u8]) -> Vec<u8> {
    let mut out = Vec::new();
    out.extend_from_slice(&((6 + body.len() + 1) as u32).to_le_bytes());
    out.extend_from_slice(&count.to_le_bytes());
    out.extend_from_slice(body);
    out.push(255);
    out
}

#[test]
fn intset_of_each_width() {
    let mut data = vec![2, 0, 0, 0, 3, 0, 0, 0];
    for v in [-2i16, 0, 32766] {
        data.extend_from_slice(&v.to_le_bytes());
    }
    assert_eq!(decode_intset(&data), rows(&[b"-2", b"0", b"32766"]));
    let mut data = vec![4, 0, 0, 0, 2, 0, 0, 0];
    for v in [i32::MIN, 2147418110] {
        data.extend_from_slice(&v.to_le_bytes());
    }
    assert_eq!(decode_intset(&data), rows(&[b"-2147483648", b"2147418110"]));
    let mut data = vec![8, 0, 0, 0, 2, 0, 0, 0];
    for v in [i64::MIN, 9223090557583032318] {
        data.extend_from_slice(&v.to_le_bytes());
    }
    assert_eq!(decode_intset(&data), rows(&[b"-9223372036854775808", b"9223090557583032318"]));
}

#[test]
fn intset_empty() {
    assert_eq!(decode_intset(&[2, 0, 0, 0, 0, 0, 0, 0]), rows(&[]));
}

#[test]
fn intset_malformed() {
    assert_eq!(decode_intset(&[2, 0, 0, 0, 1, 0, 0]), None);
    assert_eq!(decode_intset(&[3, 0, 0, 0, 1, 0, 0, 0, 1, 2, 3]), None);
    assert_eq!(decode_intset(&[2, 0, 0, 0, 2, 0, 0, 0, 1, 0, 2]), None);
    assert_eq!(decode_intset(&[8, 0, 0, 0, 255, 255, 255, 255]), None);
}

#[test]
fn ziplist_text_forms() {
    let mut body = vec![0u8, 2, b'h', b'i'];
    body.extend_from_slice(&[4, 0x40, 70]);
    body.extend_from_slice(&[b'x'; 70]);
    body.extend_from_slice(&[73, 0x80, 0, 0, 0, 3, b'a', b'b', b'c']);
    let x = [b'x'; 70];
    assert_eq!(decode_ziplist(&ziplist(3, &body)), rows(&[b"hi", &x, b"abc"]));
}

#[test]
fn ziplist_integer_forms() {
    let mut body = Vec::new();
    body.extend_from_slice(&[0, 0xC0]);
    body.extend_from_slice(&(-300i16).to_le_bytes());
    body.extend_from_slice(&[4, 0xD0]);
    body.extend_from_slice(&70000i32.to_le_bytes());
    body.extend_from_slice(&[6, 0xE0]);
    body.extend_from_slice(&(-5000000000i64).to_le_bytes());
    body.extend_from_slice(&[10, 0xF0, 0xFF, 0xFF, 0x7F]);
    body.extend_from_slice(&[5, 0xF0, 0x00, 0x00, 0x80]);
    body.extend_from_slice(&[5, 0xFE, 0x9C]);
    body.extend_from_slice(&[3, 0xF1]);
    body.extend_from_slice(&[2, 0xFD]);
    assert_eq!(
        decode_ziplist(&ziplist(8, &body)),
        rows(&[b"-300", b"70000", b"-5000000000", b"8388607", b"-8388608", b"-100", b"0", b"12"])
    );
}

#[test]
fn ziplist_long_previous_length() {
    let body = vec![254u8, 1, 0, 0, 0, 1, b'a'];
    assert_eq!(decode_ziplist(&ziplist(1, &body)), rows(&[b"a"]));
}

#[test]
fn ziplist_count_must_match_unless_unrecorded() {
    let body = vec![0u8, 1, b'a', 3, 1, b'b'];
    assert_eq!(decode_ziplist(&ziplist(2, &body)), rows(&[b"a", b"b"]));
    assert_eq!(decode_ziplist(&ziplist(3, &body)), None);
    assert_eq!(decode_ziplist(&ziplist(65535, &body)), rows(&[b"a", b"b"]));
    assert_eq!(decode_ziplist(&ziplist(0, &[])), rows(&[]));
}

#[test]
fn ziplist_malformed() {
    assert_eq!(decode_ziplist(&[0u8; 10]), None);
    let mut cut = ziplist(1, &[0u8, 3, b'a', b'b', b'c']);
    cut.pop();
    assert_eq!(decode_ziplist(&cut), None);
    assert_eq!(decode_ziplist(&ziplist(1, &[0u8, 5, b'a'])), None);
    assert_eq!(decode_ziplist(&ziplist(1, &[0u8, 0xC1, 0, 0])), None);
    assert_eq!(decode_ziplist(&ziplist(1, &[0u8, 0xFF])), None);
}

#[test]
fn zipmap_pairs_with_free_bytes() {
    let data = vec![2u8, 1, b'a', 2, 3, b'x', b'y', 0, 0, 0, 2, b'b', b'c', 0, 0, 255];
    assert_eq!(decode_zipmap(&data), rows(&[b"a", b"xy", b"bc", b""]));
}

#[test]
fn zipmap_long_lengths() {
    let mut data = vec![1u8, 1, b'k', 254];
    data.extend_from_slice(&300u32.to_le_bytes());
    data.push(0);
    data.extend_from_slice(&[b'v'; 300]);
    data.push(255);
    let v = [b'v'; 300];
    assert_eq!(decode_zipmap(&data), rows(&[b"k", &v]));
    let mut data = vec![1u8, 1, b'k', 253, 0];
    data.extend_from_slice(&[b'v'; 253]);
    data.push(255);
    assert_eq!(decode_zipmap(&data), rows(&[b"k", &v[..253]]));
}

#[test]
fn zipmap_malformed() {
    assert_eq!(decode_zipmap(&[0u8]), None);
    assert_eq!(decode_zipmap(&[1u8, 1, b'a', 1, 0, b'x']), None);
    assert_eq!(decode_zipmap(&[1u8, 1, b'a', 255]), None);
    assert_eq!(decode_zipmap(&[1u8, 1, b'a', 1, 2, b'x', 0, 255]), None);
    assert_eq!(decode_zipmap(&[2u8, 1, b'a', 1, 0, b'x', 255]), None);
    assert_eq!(decode_zipmap(&[0u8, 255]), rows(&[]));
    assert_eq!(decode_zipmap(&[254u8, 1, b'a', 1, 0, b'x', 255]), rows(&[b"a", b"x"]));
}

#[test]
fn listpack_every_encoding() {
    let mut body = Vec::new();
    body.extend_from_slice(&[0x7F, 1]);
    body.extend_from_slice(&[0x83, b'a', b'b', b'c', 4]);
    body.extend_from_slice(&[0xDF, 0xFF, 2]);
    body.extend_from_slice(&[0xC1, 0x00, 2]);
    body.extend_from_slice(&[0xE0, 0x02, b'h', b'i', 4]);
    body.extend_from_slice(&[0xF0, 1, 0, 0, 0, b'z', 6]);
    body.extend_from_slice(&[0xF1, 0x00, 0x80, 3]);
    body.extend_from_slice(&[0xF2, 0xFF, 0xFF, 0xFF, 4]);
    body.extend_from_slice(&[0xF3, 0x00, 0x00, 0x00, 0x80, 5]);
    body.push(0xF4);
    body.extend_from_slice(&i64::MAX.to_le_bytes());
    body.push(9);
    assert_eq!(
        decode_listpack(&listpack(10, &body)),
        rows(&[
            b"127",
            b"abc",
            b"-1",
            b"256",
            b"hi",
            b"z",
            b"-32768",
            b"-1",
            b"-2147483648",
            b"9223372036854775807",
        ])
    );
}

#[test]
fn listpack_long_entries_record_their_length_in_more_bytes() {
    let mut body = vec![0xE0u8, 200];
    body.extend_from_slice(&[b'q'; 200]);
    body.extend_from_slice(&[0x01, 0xCA]);
    body.extend_from_slice(&[1, 1]);
    let q = [b'q'; 200];
    assert_eq!(decode_listpack(&listpack(2, &body)), rows(&[&q, b"1"]));
}

#[test]
fn listpack_malformed() {
    assert_eq!(decode_listpack(&[0u8; 6]), None);
    assert_eq!(decode_listpack(&listpack(1, &[0x83, b'a', b'b'])), None);
    assert_eq!(decode_listpack(&listpack(1, &[0xF5, 0, 1])), None);
    assert_eq!(decode_listpack(&listpack(2, &[0x01, 1])), None);
    let mut cut = listpack(1, &[0x01, 1]);
    cut.pop();
    assert_eq!(decode_listpack(&cut), None);
    assert_eq!(decode_listpack(&listpack(0, &[])), rows(&[]));
}
