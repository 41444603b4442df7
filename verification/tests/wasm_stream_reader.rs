use wasm_runtime::reader::WasmBinaryReader;

#[test]
fn test_eof() {
    let stream_data: [u8; 0] = [];
    let mut reader = WasmBinaryReader::new(&stream_data);
    assert!(reader.eof().unwrap());

    let stream_data = [0x42];
    let mut reader = WasmBinaryReader::new(&stream_data);
    assert!(!reader.eof().unwrap());
}

#[test]
fn test_read_byte() {
    let stream_data: [u8; 0] = [];
    let mut reader = WasmBinaryReader::new(&stream_data);
    assert!(reader.read_byte().is_err());

    let stream_data = [0x42, 0x43];
    let mut reader = WasmBinaryReader::new(&stream_data);

    assert_eq!(reader.read_byte().unwrap(), 0x42);
    assert_eq!(reader.read_byte().unwrap(), 0x43);
    assert!(reader.read_byte().is_err());
}

#[test]
fn test_read_u32() {
    let stream_data: [u8; 0] = [];
    let mut reader = WasmBinaryReader::new(&stream_data);
    assert!(reader.read_u32().is_err());

    let stream_data = [0x0];
    let mut reader = WasmBinaryReader::new(&stream_data);
    assert!(reader.read_u32().is_err());

    let stream_data = [0x0, 0x0];
    let mut reader = WasmBinaryReader::new(&stream_data);
    assert!(reader.read_u32().is_err());

    let stream_data = [0x0, 0x0, 0x0];
    let mut reader = WasmBinaryReader::new(&stream_data);
    assert!(reader.read_u32().is_err());

    let stream_data = [0x1, 0x2, 0x3, 0x4, 0x0, 0x42, 0x0, 0x42];
    let mut reader = WasmBinaryReader::new(&stream_data);
    assert_eq!(
        reader.read_u32().unwrap(),
        u32::from_le_bytes([0x1, 0x2, 0x3, 0x4])
    );
    assert_eq!(
        reader.read_u32().unwrap(),
        u32::from_le_bytes([0x0, 0x42, 0x0, 0x42])
    );
    assert!(reader.read_byte().is_err());
}

#[test]
fn test_read_leb128_single_signed() {
    let stream_data = [0x8e, 0x7f];
    let mut reader = WasmBinaryReader::new(&stream_data);
    assert_eq!(reader.read_leb128_i32().unwrap(), -114);
    assert!(reader.read_leb128_u32().is_err());
    assert!(reader.eof().unwrap());
}

#[test]
fn test_read_leb128_multiple_signed() {
    let stream_data = [
        /* 194751635 */ 0x93, 0xd9, 0xee, 0xdc, 0x00,
        /* -7280002181293982082 */ 0xfe, 0xfc, 0x9c, 0x9f, 0xe5, 0x92, 0x8f, 0xfc, 0x9a, 0x7f,
        /* 24909 */ 0xcd, 0xc2, 0x01,
        /* -37 */ 0x5b,
    ];
    let mut reader = WasmBinaryReader::new(&stream_data);
    assert_eq!(reader.read_leb128_i32().unwrap(), 194751635);
    assert_eq!(reader.read_leb128_i64().unwrap(), -7280002181293982082);
    assert_eq!(reader.read_leb128_i32().unwrap(), 24909);
    assert_eq!(reader.read_leb128_i64().unwrap(), -37);
    assert!(reader.read_leb128_i32().is_err());
    assert!(reader.eof().unwrap());
}

#[test]
fn test_read_leb128_single_unsigned() {
    let stream_data = [0xd9, 0x01];
    let mut reader = WasmBinaryReader::new(&stream_data);
    assert_eq!(reader.read_leb128_u32().unwrap(), 217);
    assert!(reader.read_leb128_u32().is_err());
    assert!(reader.eof().unwrap());
}

#[test]
fn test_read_leb128_multiple_unsigned() {
    let stream_data = [
        /* 64517 */ 0x85, 0xf8, 0x03,
        /* 2387606507 */ 0xeb, 0xf7, 0xbf, 0xf2, 0x08,
        /* 7074 */ 0xa2, 0x37,
        /* 10794028799708388741 */ 0x85, 0xbb, 0xd1, 0xef, 0x90, 0x80, 0x86, 0xe6, 0x95, 0x01,
    ];
    let mut reader = WasmBinaryReader::new(&stream_data);
    assert_eq!(reader.read_leb128_u32().unwrap(), 64517);
    assert_eq!(reader.read_leb128_u32().unwrap(), 2387606507);
    assert_eq!(reader.read_leb128_u32().unwrap(), 7074);
    assert_eq!(reader.read_leb128_u64().unwrap(), 10794028799708388741);
    assert!(reader.read_leb128_u32().is_err());
    assert!(reader.eof().unwrap());
}

#[test]
fn leb128_rejects_overlong_unsigned() {
    // the fifth byte of a u32 may only use its 4 low bits
    let stream_data = [0xff, 0xff, 0xff, 0xff, 0x10];
    let mut reader = WasmBinaryReader::new(&stream_data);
    assert_eq!(
        reader.read_leb128_u32(),
        Err(wasm_runtime::error::ParserError::InvalidLEB128Encoding)
    );
    let stream_data = [0xff, 0xff, 0xff, 0xff, 0x0f];
    let mut reader = WasmBinaryReader::new(&stream_data);
    assert_eq!(reader.read_leb128_u32().unwrap(), u32::MAX);
}

#[test]
fn leb128_signed_bounds() {
    let stream_data = [0x80, 0x80, 0x80, 0x80, 0x78];
    let mut reader = WasmBinaryReader::new(&stream_data);
    assert_eq!(reader.read_leb128_i32().unwrap(), i32::MIN);
    let stream_data = [0xff, 0xff, 0xff, 0xff, 0x07];
    let mut reader = WasmBinaryReader::new(&stream_data);
    assert_eq!(reader.read_leb128_i32().unwrap(), i32::MAX);
    // unused bits of the last byte must repeat the sign
    let stream_data = [0xff, 0xff, 0xff, 0xff, 0x17];
    let mut reader = WasmBinaryReader::new(&stream_data);
    assert!(reader.read_leb128_i32().is_err());
}

#[test]
fn read_f64_bits_little_endian() {
    let stream_data = [0, 0, 0, 0, 0, 0, 0xf0, 0x3f];
    let mut reader = WasmBinaryReader::new(&stream_data);
    assert_eq!(reader.read_f64_bits().unwrap(), 1.0f64.to_bits());
    assert!(reader.eof().unwrap());
}
