use bcsv::bcsv::BCSV;
use bcsv::bcsv_value::BCSVValue;
use bcsv::data_type::DataType;
use bcsv::error::BcsvError;

fn header(entry_count: u32, entry_size: i32, field_count: u16, ext: u8, unknown: u8) -> Vec<u8> {
    let mut buf = Vec::new();
    buf.extend_from_slice(&entry_count.to_le_bytes());
    buf.extend_from_slice(&entry_size.to_le_bytes());
    buf.extend_from_slice(&field_count.to_le_bytes());
    buf.push(ext);
    buf.push(unknown);
    buf
}

fn push_field(buf: &mut Vec<u8>, hash: u32, offset: i32) {
    buf.extend_from_slice(&hash.to_le_bytes());
    buf.extend_from_slice(&offset.to_le_bytes());
}

#[test]
fn minimal_empty_table() {
    let buf = header(0, 0, 0, 0, 7);
    let t = BCSV::from_bytes(&buf).unwrap();
    assert_eq!(t.entry_size, 0);
    assert_eq!(t.fields.len(), 0);
    assert_eq!(t.entries.len(), 0);
    assert_eq!(t.has_extended_header, 0);
    assert_eq!(t.unknown_field, 7);
    assert_eq!(t.header_version, 0);
}

#[test]
fn header_too_short() {
    let buf = vec![0u8; 11];
    assert_eq!(BCSV::from_bytes(&buf).unwrap_err(), BcsvError::UnexpectedEof);
}

#[test]
fn extended_header_version_round_trip() {
    let mut buf = header(0, 0, 0, 1, 0);
    buf.extend_from_slice(b"VSCB");
    buf.extend_from_slice(&7i32.to_le_bytes());
    buf.extend_from_slice(&[0u8; 8]);
    let t = BCSV::from_bytes(&buf).unwrap();
    assert_eq!(t.header_version, 7);
    assert_eq!(t.has_extended_header, 1);
}

#[test]
fn extended_header_bad_magic() {
    let mut buf = header(0, 0, 0, 1, 0);
    buf.extend_from_slice(b"VSCX");
    buf.extend_from_slice(&7i32.to_le_bytes());
    buf.extend_from_slice(&[0u8; 8]);
    assert_eq!(BCSV::from_bytes(&buf).unwrap_err(), BcsvError::BadMagic);
}

#[test]
fn extended_header_truncated_before_version() {
    let mut buf = header(0, 0, 0, 1, 0);
    buf.extend_from_slice(b"VSCB");
    buf.extend_from_slice(&[0u8; 2]);
    assert_eq!(BCSV::from_bytes(&buf).unwrap_err(), BcsvError::UnexpectedEof);
}

/// A string field's bytes are cut at the first zero byte; what follows the
/// zero inside the field is ignored.
#[test]
fn string_field_truncates_at_zero() {
    let mut buf = header(1, 4, 1, 0, 0);
    push_field(&mut buf, 0xDEAD_BEEF, 0);
    buf.extend_from_slice(&24u32.to_le_bytes()); // entry_pos
    buf.extend_from_slice(&[0x41, 0x42, 0x00, 0x43]);
    let t = BCSV::from_bytes(&buf).unwrap();
    assert_eq!(t.fields.len(), 1);
    assert_eq!(t.entries.len(), 1);
    assert_eq!(t.fields[0].hash, 0xDEAD_BEEF);
    assert_eq!(t.fields[0].offset, 0);
    assert_eq!(t.fields[0].size, 4);
    assert_eq!(t.fields[0].data_type, DataType::String);
    assert_eq!(t.entries[0].len(), t.fields.len());
    assert_eq!(t.entries[0][0], BCSVValue::String("AB".to_string()));
}

/// Removing the final byte of a valid buffer whose every byte is needed makes
/// decoding fail outright instead of yielding a shorter table.
#[test]
fn truncated_buffer_fails() {
    let mut buf = header(1, 4, 1, 0, 0);
    push_field(&mut buf, 0xDEAD_BEEF, 0);
    buf.extend_from_slice(&24u32.to_le_bytes());
    buf.extend_from_slice(&[0x41, 0x42, 0x00, 0x43]);
    assert!(BCSV::from_bytes(&buf).is_ok());
    buf.pop();
    assert_eq!(BCSV::from_bytes(&buf).unwrap_err(), BcsvError::UnexpectedEof);
}

/// Truncation only ever turns a table into an error, never into a smaller
/// table: dropping a byte no read touches leaves the same table, dropping a
/// needed one (the test above) fails the parse.
#[test]
fn truncating_slack_keeps_the_same_table() {
    let mut buf = header(0, 0, 0, 0, 0);
    buf.push(0xEE); // a trailing byte no read ever touches
    let with_slack = BCSV::from_bytes(&buf).unwrap();
    buf.pop();
    let without = BCSV::from_bytes(&buf).unwrap();
    assert_eq!(with_slack.entries.len(), without.entries.len());
    assert_eq!(with_slack.fields.len(), without.fields.len());
}

/// Two records with the same entry_size but different entry_pos pointers
/// decode their own adjacent value blocks independently.
#[test]
fn two_records_independent_blocks() {
    let mut buf = header(2, 4, 1, 0, 0);
    push_field(&mut buf, 1, 0);
    buf.extend_from_slice(&32u32.to_le_bytes()); // first entry_pos, read at 20
    buf.extend_from_slice(&[0u8; 8]); // filler: 24..32
    buf.extend_from_slice(&[0x41, 0, 0, 0]); // first value block: 32..36
    buf.extend_from_slice(&40u32.to_le_bytes()); // second entry_pos, read at 36 = 32 + 4
    buf.extend_from_slice(&[0x42, 0, 0, 0]); // second value block: 40..44
    let t = BCSV::from_bytes(&buf).unwrap();
    assert_eq!(t.entries.len(), 2);
    assert_eq!(t.fields.len(), 1);
    assert_eq!(t.entries[0][0], BCSVValue::String("A".to_string()));
    assert_eq!(t.entries[1][0], BCSVValue::String("B".to_string()));
}

/// Sizes are derived from consecutive offsets; the last field reaches to the
/// record width.
#[test]
fn field_sizes_from_offsets() {
    let mut buf = header(0, 10, 2, 0, 0);
    push_field(&mut buf, 100, 0);
    push_field(&mut buf, 200, 6);
    let t = BCSV::from_bytes(&buf).unwrap();
    assert_eq!(t.fields.len(), 2);
    assert_eq!(t.fields[0].size, 6);
    assert_eq!(t.fields[1].size, 4);
    assert_eq!(t.fields[0].hash, 100);
    assert_eq!(t.fields[1].hash, 200);
    assert_eq!(t.fields[0].data_type, DataType::String);
    assert_eq!(t.fields[1].data_type, DataType::String);
}

/// Offsets out of order make a derived size negative; decoding such a field
/// fails rather than reading garbage.
#[test]
fn non_monotonic_offsets_fail() {
    let mut buf = header(1, 8, 2, 0, 0);
    push_field(&mut buf, 1, 6);
    push_field(&mut buf, 2, 0);
    buf.extend_from_slice(&32u32.to_le_bytes());
    buf.extend_from_slice(&[0u8; 12]);
    assert_eq!(BCSV::from_bytes(&buf).unwrap_err(), BcsvError::UnexpectedEof);
}

/// A negative field offset can root a value before the buffer's start; that
/// read fails.
#[test]
fn negative_target_fails() {
    let mut buf = header(1, 0, 1, 0, 0);
    push_field(&mut buf, 1, -4);
    buf.extend_from_slice(&0u32.to_le_bytes()); // entry_pos 0, so 0 + (-4) < 0
    assert_eq!(BCSV::from_bytes(&buf).unwrap_err(), BcsvError::UnexpectedEof);
}

/// An entry_pos pointing past the buffer fails the whole parse.
#[test]
fn entry_pos_out_of_bounds_fails() {
    let mut buf = header(1, 4, 1, 0, 0);
    push_field(&mut buf, 1, 0);
    buf.extend_from_slice(&1000u32.to_le_bytes());
    assert_eq!(BCSV::from_bytes(&buf).unwrap_err(), BcsvError::UnexpectedEof);
}

/// The full path through an extended header: field table and entries then
/// start at offset 24.
#[test]
fn extended_header_with_records() {
    let mut buf = header(1, 1, 1, 1, 9);
    buf.extend_from_slice(b"VSCB");
    buf.extend_from_slice(&3i32.to_le_bytes());
    buf.extend_from_slice(&[0u8; 8]);
    push_field(&mut buf, 77, 0); // field table: 28..36
    buf.extend_from_slice(&40u32.to_le_bytes()); // entry_pos, read at 36
    buf.push(0x5A); // value block: one byte at 40
    let t = BCSV::from_bytes(&buf).unwrap();
    assert_eq!(t.header_version, 3);
    assert_eq!(t.unknown_field, 9);
    assert_eq!(t.fields[0].size, 1);
    assert_eq!(t.entries[0][0], BCSVValue::String("Z".to_string()));
}

/// A field whose derived size is zero decodes to the empty string.
#[test]
fn zero_size_field_is_empty_string() {
    let mut buf = header(1, 4, 2, 0, 0);
    push_field(&mut buf, 1, 0);
    push_field(&mut buf, 2, 0);
    buf.extend_from_slice(&32u32.to_le_bytes()); // entry_pos, read at 28
    buf.extend_from_slice(&[0x58, 0, 0, 0]); // value block: 32..36
    let t = BCSV::from_bytes(&buf).unwrap();
    assert_eq!(t.fields[0].size, 0);
    assert_eq!(t.fields[1].size, 4);
    assert_eq!(t.entries[0][0], BCSVValue::String(String::new()));
    assert_eq!(t.entries[0][1], BCSVValue::String("X".to_string()));
}

/// Bytes that are not valid text never fail the parse: they decode to
/// replacement markers.
#[test]
fn invalid_text_is_replaced() {
    let mut buf = header(1, 2, 1, 0, 0);
    push_field(&mut buf, 1, 0);
    buf.extend_from_slice(&24u32.to_le_bytes());
    buf.extend_from_slice(&[0xFF, 0x41]);
    let t = BCSV::from_bytes(&buf).unwrap();
    assert_eq!(t.entries[0][0], BCSVValue::String("\u{FFFD}A".to_string()));
}

#[test]
fn error_descriptions() {
    assert_eq!(BcsvError::BadMagic.describe(), "invalid BCSV magic");
    assert_eq!(BcsvError::UnexpectedEof.describe(), "unexpected end of input");
}
