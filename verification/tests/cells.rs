use shn2xml::text::hex_string;
use shn2xml::types::{cell_has_type, format_cell, type_to_str, Cell, DataType};

#[test]
fn type_tokens_are_fixed() {
    assert_eq!(type_to_str(&DataType::StringFixedLen), "StringFL");
    assert_eq!(type_to_str(&DataType::StringZeroTerminated), "StringSZ");
    assert_eq!(type_to_str(&DataType::Byte), "u8");
    assert_eq!(type_to_str(&DataType::SignedByte), "i8");
    assert_eq!(type_to_str(&DataType::UnsignedShort), "u16");
    assert_eq!(type_to_str(&DataType::SignedShort), "i16");
    assert_eq!(type_to_str(&DataType::UnsignedInteger), "u32");
    assert_eq!(type_to_str(&DataType::SignedInteger), "i32");
    assert_eq!(type_to_str(&DataType::SingleFloatingPoint), "f32");
}

#[test]
fn type_tokens_are_distinct() {
    let all = [
        DataType::StringFixedLen,
        DataType::StringZeroTerminated,
        DataType::Byte,
        DataType::SignedByte,
        DataType::UnsignedShort,
        DataType::SignedShort,
        DataType::UnsignedInteger,
        DataType::SignedInteger,
        DataType::SingleFloatingPoint,
    ];
    for a in 0..all.len() {
        for b in 0..all.len() {
            if a != b {
                assert_ne!(type_to_str(&all[a]), type_to_str(&all[b]));
            }
        }
    }
}

#[test]
fn integer_cells_format_in_base_ten() {
    assert_eq!(format_cell(&Cell::Byte(0)), "0");
    assert_eq!(format_cell(&Cell::Byte(255)), "255");
    assert_eq!(format_cell(&Cell::SignedByte(-128)), "-128");
    assert_eq!(format_cell(&Cell::SignedByte(127)), "127");
    assert_eq!(format_cell(&Cell::UnsignedShort(65535)), "65535");
    assert_eq!(format_cell(&Cell::SignedShort(-32768)), "-32768");
    assert_eq!(format_cell(&Cell::UnsignedInteger(4294967295)), "4294967295");
    assert_eq!(format_cell(&Cell::UnsignedInteger(42)), "42");
    assert_eq!(format_cell(&Cell::SignedInteger(-2147483648)), "-2147483648");
    assert_eq!(format_cell(&Cell::SignedInteger(-7)), "-7");
    assert_eq!(format_cell(&Cell::SignedInteger(1000)), "1000");
}

#[test]
fn string_cells_format_verbatim() {
    assert_eq!(
        format_cell(&Cell::StringFixedLen(String::from("hello world"))),
        "hello world"
    );
    assert_eq!(format_cell(&Cell::StringZeroTerminated(String::from(""))), "");
    let rendered = format!("{}", 1.5f32);
    assert_eq!(
        format_cell(&Cell::SingleFloatingPoint(rendered.clone())),
        rendered
    );
}

#[test]
fn formatting_is_total_and_deterministic() {
    let cells = [
        Cell::StringFixedLen(String::from("a")),
        Cell::StringZeroTerminated(String::from("b")),
        Cell::Byte(1),
        Cell::SignedByte(-1),
        Cell::UnsignedShort(2),
        Cell::SignedShort(-2),
        Cell::UnsignedInteger(3),
        Cell::SignedInteger(-3),
        Cell::SingleFloatingPoint(String::from("0.5")),
    ];
    for cell in cells.iter() {
        assert_eq!(format_cell(cell), format_cell(cell));
    }
}

#[test]
fn cells_carry_their_own_type() {
    assert!(cell_has_type(&Cell::Byte(9), &DataType::Byte));
    assert!(!cell_has_type(&Cell::Byte(9), &DataType::SignedByte));
    assert!(cell_has_type(
        &Cell::SingleFloatingPoint(String::from("1")),
        &DataType::SingleFloatingPoint
    ));
}

#[test]
fn header_bytes_render_as_spaced_hex() {
    assert_eq!(hex_string(&vec![0x0a, 0xff]), "0a ff");
    assert_eq!(hex_string(&vec![0x00, 0x1a]), "00 1a");
    assert_eq!(hex_string(&vec![]), "");
    assert_eq!(hex_string(&vec![0x00]), "00");
    assert_eq!(hex_string(&vec![0x12, 0x34, 0xcd]), "12 34 cd");
}

#[test]
fn hex_rendering_length_is_three_per_byte_less_one() {
    for n in 1..20usize {
        let bytes = vec![0x5au8; n];
        assert_eq!(hex_string(&bytes).len(), 3 * n - 1);
    }
}
