use gossip_chat::order::{bytes_equal, lex_less};
use gossip_chat::wire::{
    put_bytes, put_raw, put_str, put_u64, take_bytes, take_fixed, take_len, take_str, take_u32,
    take_u64, text_from_utf8,
};

fn varint(v: u64) -> Vec<u8> {
    let mut out = Vec::new();
    put_u64(&mut out, v);
    out
}

#[test]
fn varint_bytes_are_exact() {
    assert_eq!(varint(0), vec![0x00]);
    assert_eq!(varint(1), vec![0x01]);
    assert_eq!(varint(127), vec![0x7f]);
    assert_eq!(varint(128), vec![0x80, 0x01]);
    assert_eq!(varint(300), vec![0xac, 0x02]);
    assert_eq!(varint(16_383), vec![0xff, 0x7f]);
    assert_eq!(varint(16_384), vec![0x80, 0x80, 0x01]);
    assert_eq!(
        varint(u64::MAX),
        vec![0xff, 0xff, 0xff, 0xff, 0xff, 0xff, 0xff, 0xff, 0xff, 0x01]
    );
}

#[test]
fn put_appends_to_what_is_there() {
    let mut out = vec![9u8];
    put_u64(&mut out, 128);
    put_raw(&mut out, &[7, 7]);
    put_bytes(&mut out, &[1, 2, 3]);
    put_str(&mut out, "hé");
    assert_eq!(out, vec![9, 0x80, 0x01, 7, 7, 3, 1, 2, 3, 3, b'h', 0xc3, 0xa9]);
}

#[test]
fn varint_round_trips() {
    for v in [0u64, 1, 127, 128, 255, 256, 1 << 32, (1 << 63) - 1, 1 << 63, u64::MAX] {
        let mut bytes = varint(v);
        bytes.push(0xee);
        assert_eq!(take_u64(&bytes), Some((v, &[0xee][..])));
    }
    for v in [0u32, 127, 128, u32::MAX] {
        let bytes = varint(v as u64);
        assert_eq!(take_u32(&bytes), Some((v, &[][..])));
    }
}

#[test]
fn varint_with_superfluous_groups_is_accepted() {
    assert_eq!(take_u64(&[0x80, 0x00]), Some((0, &[][..])));
    assert_eq!(take_u64(&[0x81, 0x80, 0x00, 5]), Some((1, &[5][..])));
    assert_eq!(take_u32(&[0x80, 0x80, 0x80, 0x80, 0x00]), Some((0, &[][..])));
}

#[test]
fn varint_that_is_too_long_or_too_large_is_rejected() {
    assert_eq!(take_u64(&[]), None);
    assert_eq!(take_u64(&[0x80]), None);
    assert_eq!(take_u64(&[0xff; 9]), None);
    // ten bytes, the tenth above 1
    assert_eq!(take_u64(&[0xff, 0xff, 0xff, 0xff, 0xff, 0xff, 0xff, 0xff, 0xff, 0x02]), None);
    // eleven bytes
    assert_eq!(
        take_u64(&[0x80, 0x80, 0x80, 0x80, 0x80, 0x80, 0x80, 0x80, 0x80, 0x80, 0x00]),
        None
    );
    // five bytes, the fifth above 15
    assert_eq!(take_u32(&[0xff, 0xff, 0xff, 0xff, 0x10]), None);
    assert_eq!(take_u32(&[0xff, 0xff, 0xff, 0xff, 0x0f]), Some((u32::MAX, &[][..])));
    // six bytes
    assert_eq!(take_u32(&[0x80, 0x80, 0x80, 0x80, 0x80, 0x00]), None);
}

#[test]
fn take_agrees_with_postcard() {
    let inputs: [&[u8]; 6] = [
        &[0x05, 1],
        &[0x80, 0x00],
        &[0xff, 0xff, 0xff, 0xff, 0x1f],
        &[0xff, 0xff, 0xff, 0xff, 0xff, 0xff, 0xff, 0xff, 0xff, 0x01, 9],
        &[0xff, 0xff, 0xff, 0xff, 0xff, 0xff, 0xff, 0xff, 0xff, 0x7f],
        &[],
    ];
    for input in inputs {
        assert_eq!(take_u64(input), postcard::take_from_bytes::<u64>(input).ok());
        assert_eq!(take_u32(input), postcard::take_from_bytes::<u32>(input).ok());
        assert_eq!(take_len(input), postcard::take_from_bytes::<usize>(input).ok());
    }
}

#[test]
fn bytes_and_text_round_trip() {
    let mut out = Vec::new();
    put_bytes(&mut out, &[1, 2, 3]);
    put_str(&mut out, "grüße");
    out.push(0xaa);
    assert_eq!(out, postcard::to_stdvec(&(vec![1u8, 2, 3], "grüße", 0xaau8)).unwrap());
    let (bytes, rest) = take_bytes(&out).unwrap();
    assert_eq!(bytes, &[1, 2, 3]);
    let (text, rest) = take_str(rest).unwrap();
    assert_eq!(text, "grüße");
    assert_eq!(rest, &[0xaa]);
}

#[test]
fn empty_bytes_and_text_round_trip() {
    let mut out = Vec::new();
    put_bytes(&mut out, &[]);
    put_str(&mut out, "");
    assert_eq!(out, vec![0, 0]);
    let (bytes, rest) = take_bytes(&out).unwrap();
    assert!(bytes.is_empty());
    assert_eq!(take_str(rest), Some((String::new(), &[][..])));
}

#[test]
fn cut_or_malformed_fields_are_rejected() {
    assert_eq!(take_bytes(&[3, 1, 2]), None);
    assert_eq!(take_bytes(&[]), None);
    assert_eq!(take_str(&[2, 0xc3]), None);
    assert_eq!(take_str(&[2, 0xc3, 0x28]), None);
    assert_eq!(take_fixed(&[1, 2, 3], 4), None);
    assert_eq!(take_fixed(&[1, 2, 3], 2), Some((&[1, 2][..], &[3][..])));
    assert_eq!(take_fixed(&[1, 2, 3], 0), Some((&[][..], &[1, 2, 3][..])));
}

#[test]
fn text_from_utf8_accepts_only_utf8() {
    assert_eq!(text_from_utf8(vec![b'o', b'k']), Some("ok".to_string()));
    assert_eq!(text_from_utf8(vec![0xff]), None);
}

#[test]
fn lexicographic_order_is_that_of_slices() {
    let samples: [&[u8]; 7] = [&[], &[0], &[0, 0], &[0, 1], &[1], &[1, 0], &[255]];
    for a in samples {
        for b in samples {
            assert_eq!(lex_less(a, b), a < b);
            assert_eq!(bytes_equal(a, b), a == b);
        }
    }
}
