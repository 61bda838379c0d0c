use vstd::prelude::*;

use crate::bcsv_value::{
    decode_value, lemma_value_matches_has_type, value_has_type, value_in_bounds, value_matches,
    BCSVValue,
};
use crate::bytes::{as_signed_32, le_u16_at, le_u32_at, read_i32_le, read_u16_le, read_u32_le, read_u8_at};
use crate::data_type::DataType;
use crate::error::BcsvError;
use crate::field::Field;

verus! {

/// The decoded table: header metadata, the ordered field descriptors, and the
/// ordered records, each record an ordered sequence of values positionally
/// aligned with the field descriptors.
///
/// A table is built once, in full, from a byte buffer by [`BCSV::from_bytes`];
/// no partial table is ever produced.
#[derive(Clone, Debug)]
pub struct BCSV {
    /// Byte width of one record's value block.
    pub entry_size: i32,
    /// The columns, in file order.
    pub fields: Vec<Field>,
    /// The records, in file order; `entries[k][j]` belongs to `fields[j]`.
    pub entries: Vec<Vec<BCSVValue>>,
    /// The raw extended-header flag byte.
    pub has_extended_header: u8,
    /// A reserved header byte, preserved but not interpreted.
    pub unknown_field: u8,
    /// The extended header's version word, or zero when the header is absent.
    pub header_version: i32,
}

/// Number of records the header declares.
pub open spec fn spec_entry_count(s: Seq<u8>) -> int {
    le_u32_at(s, 0)
}

/// Byte width of one record's value block, as the header declares it.
pub open spec fn spec_entry_size(s: Seq<u8>) -> int {
    as_signed_32(le_u32_at(s, 4))
}

/// Number of field descriptors the header declares.
pub open spec fn spec_field_count(s: Seq<u8>) -> int {
    le_u16_at(s, 8)
}

/// Whether the extended-header flag byte is set.
pub open spec fn ext_flag(s: Seq<u8>) -> bool {
    s[10] == 1
}

/// Whether the four magic bytes of the extended header read `VSCB`.
pub open spec fn magic_ok(s: Seq<u8>) -> bool {
    s[12] == 0x56 && s[13] == 0x53 && s[14] == 0x43 && s[15] == 0x42
}

/// The header version: the word after the magic when the extended header is
/// present, zero otherwise.
pub open spec fn spec_header_version(s: Seq<u8>) -> int {
    if ext_flag(s) {
        as_signed_32(le_u32_at(s, 16))
    } else {
        0
    }
}

/// Where the field table starts: the extended header adds a magic tag, a
/// version word and eight reserved bytes.
pub open spec fn field_table_start(s: Seq<u8>) -> int {
    if ext_flag(s) {
        28
    } else {
        12
    }
}

/// Where the first record's position pointer is read.
pub open spec fn entry_table_start(s: Seq<u8>) -> int {
    field_table_start(s) + 8 * spec_field_count(s)
}

/// The hash of field `j`, read from the field table.
pub open spec fn spec_field_hash(s: Seq<u8>, j: int) -> int {
    le_u32_at(s, field_table_start(s) + 8 * j)
}

/// The declared offset of field `j`, read from the field table.
pub open spec fn spec_field_offset(s: Seq<u8>, j: int) -> int {
    as_signed_32(le_u32_at(s, field_table_start(s) + 8 * j + 4))
}

/// Where field `j`'s value ends: the next field's declared offset, or the
/// record width for the last field.
pub open spec fn spec_field_end(s: Seq<u8>, j: int) -> int {
    if j + 1 < spec_field_count(s) {
        spec_field_offset(s, j + 1)
    } else {
        spec_entry_size(s)
    }
}

/// The two's-complement 32-bit wrap of `x`, for `x` within one wrap of the
/// `i32` range (the difference of two `i32` values always is).
pub open spec fn wrap_diff_i32(x: int) -> int {
    if x >= 0x8000_0000 {
        x - 0x1_0000_0000
    } else if x < -0x8000_0000 {
        x + 0x1_0000_0000
    } else {
        x
    }
}

/// The derived size of field `j`: the distance to the next offset, computed
/// with 32-bit wrapping subtraction. Offsets are assumed non-decreasing in
/// well-formed files; when they are not, the size comes out negative or
/// wrong-signed and decoding that field fails rather than reading garbage.
pub open spec fn spec_field_size(s: Seq<u8>, j: int) -> int {
    wrap_diff_i32(spec_field_end(s, j) - spec_field_offset(s, j))
}

/// Clamps a candidate cursor position into the buffer. Every position the
/// decoder could never read four bytes from again behaves alike, so the
/// out-of-range ones are folded to the buffer's end.
pub open spec fn clamp_pos(p: int, len: int) -> int {
    if 0 <= p <= len {
        p
    } else {
        len
    }
}

/// The position at which record `k`'s position pointer is read: right after
/// the field table for the first record, and `entry_size` bytes past the
/// previous record's value block for every later one. The pointers form a
/// chain, not a contiguous array from the field table.
pub open spec fn ptr_pos(s: Seq<u8>, k: nat) -> int
    decreases k,
{
    if k == 0 {
        entry_table_start(s)
    } else {
        clamp_pos(le_u32_at(s, ptr_pos(s, (k - 1) as nat)) + spec_entry_size(s), s.len() as int)
    }
}

/// Record `k`'s position pointer: the absolute offset of its value block,
/// which need not be adjacent to the pointer itself.
pub open spec fn spec_entry_pos(s: Seq<u8>, k: nat) -> int {
    le_u32_at(s, ptr_pos(s, k))
}

/// Whether record `k` can be decoded: its position pointer lies inside the
/// buffer, and every field's value stays inside the buffer.
pub open spec fn entry_ok(s: Seq<u8>, k: nat) -> bool {
    &&& ptr_pos(s, k) + 4 <= s.len()
    &&& forall|j: int|
        0 <= j < spec_field_count(s) ==> value_in_bounds(
            s.len() as int,
            spec_entry_pos(s, k) + spec_field_offset(s, j),
            spec_field_size(s, j),
            DataType::String,
        )
}

/// Whether the whole buffer decodes to a table.
pub open spec fn parse_ok(s: Seq<u8>) -> bool {
    &&& s.len() >= 12
    &&& (ext_flag(s) ==> s.len() >= 20 && magic_ok(s))
    &&& (spec_field_count(s) == 0 || entry_table_start(s) <= s.len())
    &&& forall|k: int| 0 <= k < spec_entry_count(s) ==> #[trigger] entry_ok(s, k as nat)
}

/// Whether decoding fails with a bad-magic error: the extended header is
/// flagged, its four magic bytes are present, and they are not `VSCB`.
pub open spec fn spec_bad_magic(s: Seq<u8>) -> bool {
    s.len() >= 16 && ext_flag(s) && !magic_ok(s)
}

/// What a decoded table says about the buffer it came from: every header
/// field, every field descriptor and every record value is pinned to the
/// bytes that encode it.
pub open spec fn table_matches(t: BCSV, s: Seq<u8>) -> bool {
    &&& t.entry_size == spec_entry_size(s)
    &&& t.has_extended_header == s[10]
    &&& t.unknown_field == s[11]
    &&& t.header_version == spec_header_version(s)
    &&& t.fields@.len() == spec_field_count(s)
    &&& forall|j: int|
        0 <= j < t.fields@.len() ==> {
            let f = #[trigger] t.fields@[j];
            &&& f.hash == spec_field_hash(s, j)
            &&& f.offset == spec_field_offset(s, j)
            &&& f.size == spec_field_size(s, j)
            &&& f.data_type == DataType::String
        }
    &&& t.entries@.len() == spec_entry_count(s)
    &&& forall|k: int|
        0 <= k < t.entries@.len() ==> {
            let rec = (#[trigger] t.entries@[k])@;
            &&& rec.len() == t.fields@.len()
            &&& forall|j: int|
                0 <= j < rec.len() ==> value_matches(
                    #[trigger] rec[j],
                    s,
                    spec_entry_pos(s, k as nat) + spec_field_offset(s, j),
                    spec_field_size(s, j),
                    DataType::String,
                )
        }
}

/// Field sizes are derived, never stored: when the difference of consecutive
/// declared offsets fits 32 signed bits (as it does whenever offsets are
/// non-decreasing), field `j`'s size is exactly the next field's offset minus
/// its own, and the last field's size is the record width minus its offset.
pub proof fn lemma_field_size_derivation(t: BCSV, s: Seq<u8>, j: int)
    requires
        table_matches(t, s),
        0 <= j < t.fields@.len(),
        i32::MIN <= spec_field_end(s, j) - spec_field_offset(s, j) <= i32::MAX,
    ensures
        j + 1 < t.fields@.len() ==> t.fields@[j].size == t.fields@[j + 1].offset
            - t.fields@[j].offset,
        j + 1 == t.fields@.len() ==> t.fields@[j].size == t.entry_size - t.fields@[j].offset,
{
}

/// Every record is positionally aligned with the field descriptors: it has
/// one value per field, and each value is of the variant its column's storage
/// kind calls for.
pub proof fn lemma_record_value_types(t: BCSV, s: Seq<u8>, k: int, j: int)
    requires
        table_matches(t, s),
        0 <= k < t.entries@.len(),
        0 <= j < t.fields@.len(),
    ensures
        t.entries@[k]@.len() == t.fields@.len(),
        value_has_type(t.entries@[k]@[j], t.fields@[j].data_type),
{
    let rec = t.entries@[k]@;
    lemma_value_matches_has_type(
        rec[j],
        s,
        spec_entry_pos(s, k as nat) + spec_field_offset(s, j),
        spec_field_size(s, j),
        DataType::String,
    );
}

/// Dropping the final byte of a buffer at least 13 bytes long leaves the
/// declared record and field counts unchanged. Together with the decoder's
/// contract, which ties a decoded table's lengths to those counts, a
/// truncated buffer can never decode to a table with fewer records than its
/// header declares: it decodes to an equally-shaped table (when the lost byte
/// was slack) or to an error.
pub proof fn lemma_truncation_keeps_declared_counts(s: Seq<u8>)
    requires
        s.len() >= 13,
    ensures
        spec_entry_count(s.drop_last()) == spec_entry_count(s),
        spec_field_count(s.drop_last()) == spec_field_count(s),
{
    let t = s.drop_last();
    assert(t[0] == s[0] && t[1] == s[1] && t[2] == s[2] && t[3] == s[3]);
    assert(t[8] == s[8] && t[9] == s[9]);
}

/// Decodes the value block of one record rooted at `entry_pos`: one value per
/// field, each read at `entry_pos + field.offset`. Succeeds exactly when
/// every field's value stays inside the buffer.
fn decode_entry(bytes: &[u8], fields: &Vec<Field>, entry_pos: u32) -> (r: Result<
    Vec<BCSVValue>,
    BcsvError,
>)
    ensures
        r is Ok <==> (forall|j: int|
            0 <= j < fields@.len() ==> value_in_bounds(
                bytes@.len() as int,
                entry_pos + (#[trigger] fields@[j]).offset,
                fields@[j].size as int,
                fields@[j].data_type,
            )),
        r matches Ok(rec) ==> rec@.len() == fields@.len() && (forall|j: int|
            0 <= j < fields@.len() ==> value_matches(
                rec@[j],
                bytes@,
                entry_pos + (#[trigger] fields@[j]).offset,
                fields@[j].size as int,
                fields@[j].data_type,
            )),
        r matches Err(e) ==> e == BcsvError::UnexpectedEof,
{
    let mut rec: Vec<BCSVValue> = Vec::new();
    let mut j: usize = 0;
    while j < fields.len()
        invariant
            j <= fields@.len(),
            rec@.len() == j,
            forall|t: int|
                0 <= t < j ==> value_in_bounds(
                    bytes@.len() as int,
                    entry_pos + (#[trigger] fields@[t]).offset,
                    fields@[t].size as int,
                    fields@[t].data_type,
                ),
            forall|t: int|
                0 <= t < j ==> value_matches(
                    #[trigger] rec@[t],
                    bytes@,
                    entry_pos + fields@[t].offset,
                    fields@[t].size as int,
                    fields@[t].data_type,
                ),
        decreases fields@.len() - j,
    {
        let f = fields[j];
        let at_i: i64 = entry_pos as i64 + f.offset as i64;
        if at_i < 0 {
            return Err(BcsvError::UnexpectedEof);
        }
        if (at_i as u64) > (bytes.len() as u64) {
            return Err(BcsvError::UnexpectedEof);
        }
        let at = at_i as usize;
        let v = match decode_value(bytes, at, f.size, f.data_type) {
            Ok(v) => v,
            Err(e) => {
                return Err(e);
            },
        };
        rec.push(v);
        j += 1;
    }
    Ok(rec)
}

impl BCSV {
    /// Decodes a whole buffer: the header (with the optional `VSCB` extended
    /// header), exactly `field_count` field descriptors with derived sizes,
    /// and exactly `entry_count` records, each rooted at its own position
    /// pointer.
    ///
    /// Every field is assigned the `String` storage kind: this decoder
    /// deliberately defers true type classification, reproducing the adopted
    /// policy rather than classifying by derived size.
    ///
    /// Fails with `BadMagic` exactly when the extended header is flagged and
    /// its magic tag is wrong, and with `UnexpectedEof` exactly when any
    /// other read would leave the buffer; no partial table is returned.
    pub fn from_bytes(bytes: &[u8]) -> (r: Result<BCSV, BcsvError>)
        ensures
            r is Ok <==> parse_ok(bytes@),
            r matches Ok(t) ==> table_matches(t, bytes@),
            spec_bad_magic(bytes@) ==> r == Err::<BCSV, BcsvError>(BcsvError::BadMagic),
            !parse_ok(bytes@) && !spec_bad_magic(bytes@) ==> r == Err::<BCSV, BcsvError>(
                BcsvError::UnexpectedEof,
            ),
    {
        let ghost s = bytes@;
        let entry_count: u32 = match read_u32_le(bytes, 0) {
            Ok(v) => v,
            Err(e) => {
                return Err(e);
            },
        };
        let entry_size: i32 = match read_i32_le(bytes, 4) {
            Ok(v) => v,
            Err(e) => {
                return Err(e);
            },
        };
        let field_count: u16 = match read_u16_le(bytes, 8) {
            Ok(v) => v,
            Err(e) => {
                return Err(e);
            },
        };
        let has_extended_header: u8 = match read_u8_at(bytes, 10) {
            Ok(v) => v,
            Err(e) => {
                return Err(e);
            },
        };
        let unknown_field: u8 = match read_u8_at(bytes, 11) {
            Ok(v) => v,
            Err(e) => {
                return Err(e);
            },
        };

        let mut header_version: i32 = 0;
        let mut pos: usize = 12;
        if has_extended_header == 1 {
            let m0 = match read_u8_at(bytes, 12) {
                Ok(v) => v,
                Err(e) => {
                    return Err(e);
                },
            };
            let m1 = match read_u8_at(bytes, 13) {
                Ok(v) => v,
                Err(e) => {
                    return Err(e);
                },
            };
            let m2 = match read_u8_at(bytes, 14) {
                Ok(v) => v,
                Err(e) => {
                    return Err(e);
                },
            };
            let m3 = match read_u8_at(bytes, 15) {
                Ok(v) => v,
                Err(e) => {
                    return Err(e);
                },
            };
            if !(m0 == 0x56 && m1 == 0x53 && m2 == 0x43 && m3 == 0x42) {
                return Err(BcsvError::BadMagic);
            }
            header_version = match read_i32_le(bytes, 16) {
                Ok(v) => v,
                Err(e) => {
                    return Err(e);
                },
            };
            // eight reserved bytes are skipped without being read
            pos = 28;
        }

        // First field pass: the declared (hash, offset) pairs, in file order.
        let mut raw_fields: Vec<(u32, i32)> = Vec::new();
        let mut j: usize = 0;
        while j < field_count as usize
            invariant
                s == bytes@,
                s.len() >= 12,
                ext_flag(s) ==> s.len() >= 20 && magic_ok(s),
                field_count == spec_field_count(s),
                j <= field_count as usize,
                pos == field_table_start(s) + 8 * j,
                raw_fields@.len() == j,
                forall|i: int|
                    0 <= i < j ==> (#[trigger] raw_fields@[i]).0 == spec_field_hash(s, i)
                        && raw_fields@[i].1 == spec_field_offset(s, i),
                j > 0 ==> pos <= s.len(),
            decreases field_count as usize - j,
        {
            let hash = match read_u32_le(bytes, pos) {
                Ok(v) => v,
                Err(e) => {
                    proof {
                        assert(entry_table_start(s) > s.len());
                    }
                    return Err(e);
                },
            };
            let off = match read_i32_le(bytes, pos + 4) {
                Ok(v) => v,
                Err(e) => {
                    proof {
                        assert(entry_table_start(s) > s.len());
                    }
                    return Err(e);
                },
            };
            raw_fields.push((hash, off));
            pos = pos + 8;
            j += 1;
        }

        // Second field pass: derive each size from the next offset (or from
        // the record width for the last field) and assign the storage kind.
        let n: usize = raw_fields.len();
        let mut fields: Vec<Field> = Vec::new();
        let mut i: usize = 0;
        while i < n
            invariant
                s == bytes@,
                n == spec_field_count(s),
                n == raw_fields@.len(),
                i <= n,
                entry_size == spec_entry_size(s),
                forall|t: int|
                    0 <= t < n ==> (#[trigger] raw_fields@[t]).0 == spec_field_hash(s, t)
                        && raw_fields@[t].1 == spec_field_offset(s, t),
                fields@.len() == i,
                forall|t: int|
                    0 <= t < i ==> {
                        let f = #[trigger] fields@[t];
                        &&& f.hash == spec_field_hash(s, t)
                        &&& f.offset == spec_field_offset(s, t)
                        &&& f.size == spec_field_size(s, t)
                        &&& f.data_type == DataType::String
                    },
            decreases n - i,
        {
            let end: i32 = if i + 1 < n {
                raw_fields[i + 1].1
            } else {
                entry_size
            };
            let off: i32 = raw_fields[i].1;
            let size: i32 = end.wrapping_sub(off);
            proof {
                assert(size == spec_field_size(s, i as int));
            }
            fields.push(
                Field { hash: raw_fields[i].0, offset: off, size, data_type: DataType::String },
            );
            i += 1;
        }

        // Entry pass: follow the pointer chain, decoding each record's value
        // block where its own pointer roots it.
        let mut entries: Vec<Vec<BCSVValue>> = Vec::new();
        let mut k: u32 = 0;
        while k < entry_count
            invariant
                s == bytes@,
                s.len() >= 12,
                ext_flag(s) ==> s.len() >= 20 && magic_ok(s),
                entry_count == spec_entry_count(s),
                entry_size == spec_entry_size(s),
                spec_field_count(s) == 0 || entry_table_start(s) <= s.len(),
                n == spec_field_count(s),
                fields@.len() == n,
                forall|t: int|
                    0 <= t < n ==> {
                        let f = #[trigger] fields@[t];
                        &&& f.hash == spec_field_hash(s, t)
                        &&& f.offset == spec_field_offset(s, t)
                        &&& f.size == spec_field_size(s, t)
                        &&& f.data_type == DataType::String
                    },
                k <= entry_count,
                pos == ptr_pos(s, k as nat),
                entries@.len() == k,
                forall|m: int| 0 <= m < k ==> #[trigger] entry_ok(s, m as nat),
                forall|m: int|
                    0 <= m < k ==> {
                        let rec = (#[trigger] entries@[m])@;
                        &&& rec.len() == n
                        &&& forall|j2: int|
                            0 <= j2 < rec.len() ==> value_matches(
                                #[trigger] rec[j2],
                                s,
                                spec_entry_pos(s, m as nat) + spec_field_offset(s, j2),
                                spec_field_size(s, j2),
                                DataType::String,
                            )
                    },
            decreases entry_count - k,
        {
            let entry_pos: u32 = match read_u32_le(bytes, pos) {
                Ok(v) => v,
                Err(e) => {
                    proof {
                        let ki: int = k as int;
                        assert(!entry_ok(s, ki as nat));
                        assert(!parse_ok(s));
                    }
                    return Err(e);
                },
            };
            let rec = match decode_entry(bytes, &fields, entry_pos) {
                Ok(v) => v,
                Err(e) => {
                    proof {
                        let ki: int = k as int;
                        assert(!entry_ok(s, ki as nat)) by {
                            if entry_ok(s, ki as nat) {
                                assert forall|j2: int| 0 <= j2 < fields@.len() implies
                                    value_in_bounds(
                                        s.len() as int,
                                        entry_pos + (#[trigger] fields@[j2]).offset,
                                        fields@[j2].size as int,
                                        fields@[j2].data_type,
                                    ) by {
                                    assert(value_in_bounds(
                                        s.len() as int,
                                        spec_entry_pos(s, k as nat) + spec_field_offset(s, j2),
                                        spec_field_size(s, j2),
                                        DataType::String,
                                    ));
                                }
                            }
                        }
                    }
                    return Err(e);
                },
            };
            proof {
                assert(entry_pos == spec_entry_pos(s, (k as int) as nat));
                assert(entry_ok(s, k as nat)) by {
                    assert forall|j2: int| 0 <= j2 < spec_field_count(s) implies value_in_bounds(
                        s.len() as int,
                        spec_entry_pos(s, k as nat) + spec_field_offset(s, j2),
                        spec_field_size(s, j2),
                        DataType::String,
                    ) by {
                        assert(value_in_bounds(
                            s.len() as int,
                            entry_pos + fields@[j2].offset,
                            fields@[j2].size as int,
                            fields@[j2].data_type,
                        ));
                    }
                }
                assert forall|j2: int| 0 <= j2 < rec@.len() implies value_matches(
                    #[trigger] rec@[j2],
                    s,
                    spec_entry_pos(s, k as nat) + spec_field_offset(s, j2),
                    spec_field_size(s, j2),
                    DataType::String,
                ) by {
                    assert(value_matches(
                        rec@[j2],
                        s,
                        entry_pos + fields@[j2].offset,
                        fields@[j2].size as int,
                        fields@[j2].data_type,
                    ));
                }
            }
            entries.push(rec);

            // Reposition to entry_pos + entry_size, where the next record's
            // pointer lives; a target outside the buffer is folded to its
            // end, where any further read fails just the same.
            let next_i: i64 = entry_pos as i64 + entry_size as i64;
            if next_i >= 0 && (next_i as u64) <= (bytes.len() as u64) {
                pos = next_i as usize;
            } else {
                pos = bytes.len();
            }
            proof {
                let kn: nat = (k + 1) as nat;
                assert((kn - 1) as nat == k as nat);
                assert(ptr_pos(s, kn) == clamp_pos(
                    le_u32_at(s, ptr_pos(s, (kn - 1) as nat)) + spec_entry_size(s),
                    s.len() as int,
                ));
                assert(pos == ptr_pos(s, kn));
            }
            k += 1;
        }

        Ok(
            BCSV {
                entry_size,
                fields,
                entries,
                has_extended_header,
                unknown_field,
                header_version,
            },
        )
    }
}

} // verus!
