use vstd::prelude::*;

use crate::bcsv_value::BCSVValue;

verus! {

/// The CRC-32 (IEEE) checksum of the UTF-8 encoding of a character sequence.
/// A pure function of the characters: the same text always hashes the same.
pub uninterp spec fn crc32_of(s: Seq<char>) -> u32;

/// Relies on crc32fast::hash: the CRC-32 (IEEE) checksum of the given bytes,
/// here the UTF-8 bytes of `s`; a pure function of its input.
#[verifier::external_body]
fn crc32_utf8(s: &str) -> (r: u32)
    ensures
        r == crc32_of(s@),
{
    crc32fast::hash(s.as_bytes())
}

/// The characters of a string value; the empty sequence for any other kind.
pub open spec fn string_chars(v: BCSVValue) -> Seq<char> {
    match v {
        BCSVValue::String(t) => t@,
        _ => Seq::empty(),
    }
}

/// The string values found in column `col`, in record order. Records that are
/// too short to have that column, and values of any other kind, are passed
/// over.
pub open spec fn column_strings(entries: Seq<Vec<BCSVValue>>, col: int) -> Seq<Seq<char>>
    decreases entries.len(),
{
    if entries.len() == 0 {
        Seq::empty()
    } else {
        let init = column_strings(entries.drop_last(), col);
        let e = entries.last()@;
        if 0 <= col < e.len() && e[col] is String {
            init.push(string_chars(e[col]))
        } else {
            init
        }
    }
}

/// Pairs each string value of column `col` with its CRC-32 hash, in record
/// order.
pub fn entry_string_hashes(entries: &Vec<Vec<BCSVValue>>, col: usize) -> (r: Vec<(String, u32)>)
    ensures
        ({
            let cs = column_strings(entries@, col as int);
            &&& r@.len() == cs.len()
            &&& forall|i: int|
                0 <= i < cs.len() ==> ((#[trigger] r@[i]).0@ == cs[i] && r@[i].1 == crc32_of(
                    cs[i],
                ))
        }),
{
    let mut r: Vec<(String, u32)> = Vec::new();
    let mut k: usize = 0;
    while k < entries.len()
        invariant
            k <= entries@.len(),
            ({
                let cs = column_strings(entries@.take(k as int), col as int);
                &&& r@.len() == cs.len()
                &&& forall|i: int|
                    0 <= i < cs.len() ==> ((#[trigger] r@[i]).0@ == cs[i] && r@[i].1 == crc32_of(
                        cs[i],
                    ))
            }),
        decreases entries@.len() - k,
    {
        let ghost cs0 = column_strings(entries@.take(k as int), col as int);
        let ghost cs1 = column_strings(entries@.take(k as int + 1), col as int);
        proof {
            assert(entries@.take(k as int + 1).drop_last() =~= entries@.take(k as int));
            assert(entries@.take(k as int + 1).last() == entries@[k as int]);
        }
        let e = &entries[k];
        if col < e.len() {
            let found: Option<(String, u32)> = match &e[col] {
                BCSVValue::String(t) => {
                    let h = crc32_utf8(t.as_str());
                    Some((t.clone(), h))
                },
                _ => None,
            };
            if let Some(pair) = found {
                proof {
                    assert(cs1 == cs0.push(string_chars(entries@[k as int]@[col as int])));
                }
                r.push(pair);
            } else {
                proof {
                    assert(cs1 == cs0);
                }
            }
        } else {
            proof {
                assert(cs1 == cs0);
            }
        }
        k += 1;
    }
    proof {
        assert(entries@.take(entries@.len() as int) =~= entries@);
    }
    r
}

/// The index of the first pair whose hash equals `target`, if any. This is
/// how a caller that knows a hash locates its column entry.
pub fn find_hash_index(pairs: &Vec<(String, u32)>, target: u32) -> (r: Option<usize>)
    ensures
        r matches Some(i) ==> 0 <= i < pairs@.len() && pairs@[i as int].1 == target && (forall|
            j: int,
        |
            0 <= j < i ==> pairs@[j].1 != target),
        r is None ==> forall|j: int| 0 <= j < pairs@.len() ==> pairs@[j].1 != target,
{
    let mut i: usize = 0;
    while i < pairs.len()
        invariant
            i <= pairs@.len(),
            forall|j: int| 0 <= j < i ==> pairs@[j].1 != target,
        decreases pairs@.len() - i,
    {
        if pairs[i].1 == target {
            return Some(i);
        }
        i += 1;
    }
    None
}

} // verus!
