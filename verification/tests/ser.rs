use crust::protocol::ser::{Serialize, VarInt, VarLong};
use crust::protocol::{Size, VarInt as SizedVarInt, VarLong as SizedVarLong};

#[test]
fn varint() {
    assert_eq!(VarInt(0).serialize(), [0x00]);
    assert_eq!(VarInt(1).serialize(), [0x01]);
    assert_eq!(VarInt(2).serialize(), [0x02]);
    assert_eq!(VarInt(127).serialize(), [0x7F]);
    assert_eq!(VarInt(128).serialize(), [0x80, 0x01]);
    assert_eq!(VarInt(255).serialize(), [0xFF, 0x01]);
    assert_eq!(VarInt(2097151).serialize(), [0xFF, 0xFF, 0x7F]);
    assert_eq!(VarInt(2147483647).serialize(), [0xFF, 0xFF, 0xFF, 0xFF, 0x07]);
    assert_eq!(VarInt(-1).serialize(), [0xFF, 0xFF, 0xFF, 0xFF, 0x0F]);
}

#[test]
fn string() {
    assert_eq!("foo".serialize(), [3, 0x66, 0x6F, 0x6F]);
    assert_eq!("bar".serialize(), [3, 0x62, 0x61, 0x72]);
}

#[test]
fn varint_stops_when_bit_seven_is_clear() {
    // The encoder looks at bit 7 of what is left only.
    assert_eq!(VarInt(256).serialize(), [0x00]);
    assert_eq!(VarInt(300).serialize(), [0x2C]);
    assert_eq!(VarInt(300).size(), 1);
}

#[test]
fn varint_size_matches_serialize() {
    for v in [0, 1, 127, 128, 255, 2097151, 2147483647, -1, 256, 16384] {
        assert_eq!(VarInt(v).size(), VarInt(v).serialize().len());
        assert_eq!(SizedVarInt(v).size(), VarInt(v).serialize().len());
    }
    assert_eq!(VarInt(-1).size(), 5);
}

#[test]
fn varlong_serialize_and_size() {
    assert_eq!(VarLong(0).serialize(), [0x00]);
    assert_eq!(VarLong(128).serialize(), [0x80, 0x01]);
    assert_eq!(
        VarLong(-1).serialize(),
        [0xFF, 0xFF, 0xFF, 0xFF, 0xFF, 0xFF, 0xFF, 0xFF, 0xFF, 0x01]
    );
    assert_eq!(VarLong(-1).size(), 10);
    assert_eq!(SizedVarLong(-1).size(), 10);
    assert_eq!(SizedVarLong(1).size(), 1);
}

#[test]
fn fixed_width_numbers() {
    assert_eq!(7u8.serialize(), [7]);
    assert_eq!((-1i8).serialize(), [0xFF]);
    assert_eq!(0x1234u16.serialize(), [0x12, 0x34]);
    assert_eq!((-2i16).serialize(), [0xFF, 0xFE]);
    assert_eq!(256i32.serialize(), [0, 0, 1, 0]);
    assert_eq!((-1i64).serialize(), [0xFF; 8]);
    assert_eq!(1u8.size(), 1);
    assert_eq!(1u16.size(), 2);
    assert_eq!(1i16.size(), 2);
    assert_eq!(1i32.size(), 4);
    assert_eq!(1i64.size(), 8);
}

#[test]
fn string_size_and_bytes() {
    assert_eq!("foo".size(), 4);
    assert_eq!("".serialize(), [0]);
    assert_eq!("".size(), 1);
    // A character beyond ASCII counts its UTF-8 bytes but writes one byte.
    assert_eq!("\u{e9}".size(), 3);
    assert_eq!("\u{e9}".serialize(), [2, 0xE9]);
}
