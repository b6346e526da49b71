use existing_instance::text::recover_text;
use existing_instance::wire::{write_u64, write_u8, Msg, ReadError};

fn wire_of(msg: Msg) -> Vec<u8> {
    let mut out = Vec::new();
    msg.write(&mut out);
    out
}

fn round_trip(msg: Msg) {
    let wire = wire_of(msg.clone());
    let len = wire.len();
    assert_eq!(Msg::read(&wire), Ok((msg, len)));
}

#[test]
fn round_trip_num() {
    round_trip(Msg::Num(0));
    round_trip(Msg::Num(1));
    round_trip(Msg::Num(0x0102_0304_0506_0708));
    round_trip(Msg::Num(u64::MAX));
}

#[test]
fn round_trip_bytes() {
    round_trip(Msg::Bytes(vec![]));
    round_trip(Msg::Bytes(vec![0]));
    round_trip(Msg::Bytes(vec![1, 2, 3]));
    round_trip(Msg::Bytes(vec![0xff, 0xfe, 0x80, 0x00, 0x7f]));
    round_trip(Msg::Bytes((0..=255u8).cycle().take(1000).collect()));
}

#[test]
fn round_trip_string() {
    round_trip(Msg::String(String::new()));
    round_trip(Msg::String(String::from("hello")));
    round_trip(Msg::String(String::from("gr\u{fc}\u{df}e, \u{4e16}\u{754c} \u{1f600}")));
    round_trip(Msg::String(String::from("\u{fffd}")));
}

#[test]
fn round_trip_nudge() {
    round_trip(Msg::Nudge);
}

#[test]
fn discriminants_are_fixed() {
    assert_eq!(Msg::Num(7).discriminant(), 0);
    assert_eq!(Msg::Bytes(vec![7]).discriminant(), 1);
    assert_eq!(Msg::String(String::from("7")).discriminant(), 2);
    assert_eq!(Msg::Nudge.discriminant(), 3);
}

#[test]
fn layout_of_num() {
    assert_eq!(wire_of(Msg::Num(0)), vec![0, 0, 0, 0, 0, 0, 0, 0, 0]);
    assert_eq!(wire_of(Msg::Num(1)), vec![0, 1, 0, 0, 0, 0, 0, 0, 0]);
    assert_eq!(
        wire_of(Msg::Num(0x0102_0304_0506_0708)),
        vec![0, 8, 7, 6, 5, 4, 3, 2, 1]
    );
    assert_eq!(
        wire_of(Msg::Num(u64::MAX)),
        vec![0, 255, 255, 255, 255, 255, 255, 255, 255]
    );
}

#[test]
fn layout_of_bytes() {
    assert_eq!(
        wire_of(Msg::Bytes(vec![1, 2, 3])),
        vec![1, 3, 0, 0, 0, 0, 0, 0, 0, 1, 2, 3]
    );
    assert_eq!(wire_of(Msg::Bytes(vec![])), vec![1, 0, 0, 0, 0, 0, 0, 0, 0]);
}

#[test]
fn layout_of_long_bytes() {
    let wire = wire_of(Msg::Bytes(vec![9; 258]));
    assert_eq!(wire.len(), 1 + 8 + 258);
    assert_eq!(&wire[..9], &[1, 2, 1, 0, 0, 0, 0, 0, 0]);
    assert!(wire[9..].iter().all(|b| *b == 9));
}

#[test]
fn layout_of_string() {
    assert_eq!(
        wire_of(Msg::String(String::from("hi"))),
        vec![2, 2, 0, 0, 0, 0, 0, 0, 0, b'h', b'i']
    );
    // The length counts bytes, not characters.
    assert_eq!(
        wire_of(Msg::String(String::from("\u{e9}"))),
        vec![2, 2, 0, 0, 0, 0, 0, 0, 0, 0xc3, 0xa9]
    );
    assert_eq!(
        wire_of(Msg::String(String::new())),
        vec![2, 0, 0, 0, 0, 0, 0, 0, 0]
    );
}

#[test]
fn layout_of_nudge() {
    assert_eq!(wire_of(Msg::Nudge), vec![3]);
}

#[test]
fn write_appends() {
    let mut out = vec![0xaa, 0xbb];
    Msg::Nudge.write(&mut out);
    Msg::Num(5).write(&mut out);
    assert_eq!(out, vec![0xaa, 0xbb, 3, 0, 5, 0, 0, 0, 0, 0, 0, 0]);
}

#[test]
fn write_u8_appends_the_byte() {
    let mut out = vec![1];
    write_u8(2, &mut out);
    assert_eq!(out, vec![1, 2]);
}

#[test]
fn write_u64_is_little_endian() {
    let mut out = vec![1];
    write_u64(0x1122_3344_5566_7788, &mut out);
    assert_eq!(out, vec![1, 0x88, 0x77, 0x66, 0x55, 0x44, 0x33, 0x22, 0x11]);
}

#[test]
fn zero_tag_and_eight_zero_bytes_is_num_zero() {
    assert_eq!(
        Msg::read(&[0, 0, 0, 0, 0, 0, 0, 0, 0]),
        Ok((Msg::Num(0), 9))
    );
}

#[test]
fn tag_three_alone_is_nudge() {
    assert_eq!(Msg::read(&[3]), Ok((Msg::Nudge, 1)));
}

#[test]
fn tags_above_three_are_fatal() {
    assert_eq!(Msg::read(&[4]), Err(ReadError::UnknownTag(4)));
    assert_eq!(
        Msg::read(&[4, 0, 0, 0, 0, 0, 0, 0, 0]),
        Err(ReadError::UnknownTag(4))
    );
    assert_eq!(
        Msg::read(&[4, 3, 0, 0, 0, 0, 0, 0, 0, 1, 2, 3]),
        Err(ReadError::UnknownTag(4))
    );
    for tag in 4..=255u8 {
        assert_eq!(
            Msg::read(&[tag, 1, 2, 3]),
            Err(ReadError::UnknownTag(tag))
        );
    }
}

#[test]
fn read_bytes_and_string() {
    assert_eq!(
        Msg::read(&[1, 3, 0, 0, 0, 0, 0, 0, 0, 1, 2, 3]),
        Ok((Msg::Bytes(vec![1, 2, 3]), 12))
    );
    assert_eq!(
        Msg::read(&[2, 2, 0, 0, 0, 0, 0, 0, 0, b'o', b'k']),
        Ok((Msg::String(String::from("ok")), 11))
    );
}

#[test]
fn read_leaves_what_follows() {
    let mut wire = wire_of(Msg::Bytes(vec![1, 2, 3]));
    wire.extend_from_slice(&[3, 0xff, 0xff]);
    assert_eq!(Msg::read(&wire), Ok((Msg::Bytes(vec![1, 2, 3]), 12)));
    assert_eq!(Msg::read(&wire[12..]), Ok((Msg::Nudge, 1)));
    assert_eq!(
        Msg::read(&wire[13..]),
        Err(ReadError::UnknownTag(0xff))
    );
}

#[test]
fn short_input_is_incomplete() {
    assert_eq!(Msg::read(&[]), Err(ReadError::Incomplete));
    assert_eq!(Msg::read(&[0]), Err(ReadError::Incomplete));
    assert_eq!(
        Msg::read(&[0, 0, 0, 0, 0, 0, 0, 0]),
        Err(ReadError::Incomplete)
    );
    assert_eq!(Msg::read(&[1, 1, 0]), Err(ReadError::Incomplete));
    assert_eq!(
        Msg::read(&[1, 3, 0, 0, 0, 0, 0, 0, 0, 1, 2]),
        Err(ReadError::Incomplete)
    );
    assert_eq!(
        Msg::read(&[2, 1, 0, 0, 0, 0, 0, 0, 0]),
        Err(ReadError::Incomplete)
    );
}

#[test]
fn huge_length_is_incomplete() {
    assert_eq!(
        Msg::read(&[1, 255, 255, 255, 255, 255, 255, 255, 255, 1, 2, 3]),
        Err(ReadError::Incomplete)
    );
    assert_eq!(
        Msg::read(&[2, 0, 0, 0, 0, 0, 0, 0, 128, 1, 2, 3]),
        Err(ReadError::Incomplete)
    );
}

#[test]
fn invalid_utf8_is_replaced() {
    assert_eq!(
        Msg::read(&[2, 1, 0, 0, 0, 0, 0, 0, 0, 0xff]),
        Ok((Msg::String(String::from("\u{fffd}")), 10))
    );
    assert_eq!(
        Msg::read(&[2, 4, 0, 0, 0, 0, 0, 0, 0, b'a', 0xc3, b'b', 0x80]),
        Ok((Msg::String(String::from("a\u{fffd}b\u{fffd}")), 13))
    );
}

#[test]
fn recover_text_keeps_valid_text() {
    assert_eq!(recover_text(b""), "");
    assert_eq!(recover_text(b"plain"), "plain");
    assert_eq!(recover_text("\u{4e16}\u{754c}".as_bytes()), "\u{4e16}\u{754c}");
}

#[test]
fn recover_text_repairs_invalid_text() {
    assert_eq!(recover_text(&[0x80]), "\u{fffd}");
    assert_eq!(recover_text(&[b'x', 0xf0, 0x9f, b'y']), "x\u{fffd}y");
    assert_eq!(recover_text(&[0xed, 0xa0, 0x80]), "\u{fffd}\u{fffd}\u{fffd}");
}

#[test]
fn messages_compare_by_variant_and_contents() {
    assert_eq!(Msg::Num(5), Msg::Num(5));
    assert_ne!(Msg::Num(5), Msg::Num(6));
    assert_eq!(Msg::Bytes(vec![1, 2]), Msg::Bytes(vec![1, 2]));
    assert_ne!(Msg::Bytes(vec![1, 2]), Msg::Bytes(vec![1, 3]));
    assert_ne!(Msg::Bytes(vec![1, 2]), Msg::Bytes(vec![1, 2, 3]));
    assert_ne!(Msg::Bytes(vec![1, 2, 3]), Msg::Bytes(vec![1, 2]));
    assert_eq!(Msg::Bytes(vec![]), Msg::Bytes(vec![]));
    assert_eq!(Msg::String(String::from("a")), Msg::String(String::from("a")));
    assert_ne!(Msg::String(String::from("a")), Msg::String(String::from("b")));
    assert_eq!(Msg::Nudge, Msg::Nudge);
}

#[test]
fn messages_of_different_variants_differ() {
    assert_ne!(Msg::Num(0), Msg::Nudge);
    assert_ne!(Msg::Nudge, Msg::Num(0));
    assert_ne!(Msg::Bytes(vec![]), Msg::String(String::new()));
    assert_ne!(Msg::String(String::new()), Msg::Bytes(vec![]));
    assert_ne!(Msg::Bytes(vec![b'a']), Msg::String(String::from("a")));
    assert_ne!(Msg::Num(0), Msg::Bytes(vec![0; 8]));
    assert_ne!(Msg::Nudge, Msg::Bytes(vec![]));
}

#[test]
fn clone_is_equal() {
    let all = [
        Msg::Num(77),
        Msg::Bytes(vec![7, 7]),
        Msg::String(String::from("seventy-seven")),
        Msg::Nudge,
    ];
    for msg in all {
        assert_eq!(msg.clone(), msg);
    }
}
