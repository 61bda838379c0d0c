use vstd::prelude::*;

verus! {

/// Index of the first zero byte in `s`, or `s.len()` when no byte is zero.
pub open spec fn first_zero(s: Seq<u8>) -> int
    decreases s.len(),
{
    if s.len() == 0 {
        0
    } else if s[0] == 0 {
        0
    } else {
        1 + first_zero(s.drop_first())
    }
}

/// `first_zero` points at the first zero byte: everything before it is
/// non-zero, and it is `s.len()` only when there is no zero byte at all.
pub proof fn lemma_first_zero(s: Seq<u8>)
    ensures
        0 <= first_zero(s) <= s.len(),
        forall|i: int| 0 <= i < first_zero(s) ==> s[i] != 0,
        first_zero(s) < s.len() ==> s[first_zero(s)] == 0,
    decreases s.len(),
{
    if s.len() == 0 {
    } else if s[0] == 0 {
    } else {
        let t = s.drop_first();
        lemma_first_zero(t);
        assert forall|i: int| 0 <= i < first_zero(s) implies s[i] != 0 by {
            if i > 0 {
                assert(t[i - 1] == s[i]);
            }
        }
        if first_zero(s) < s.len() {
            assert(t[first_zero(s) - 1] == s[first_zero(s)]);
        }
    }
}

/// If everything before `i` is non-zero and `i` is the length or a zero byte,
/// then `i` is exactly `first_zero(s)`.
pub proof fn lemma_first_zero_is(s: Seq<u8>, i: int)
    requires
        0 <= i <= s.len(),
        forall|j: int| 0 <= j < i ==> s[j] != 0,
        i < s.len() ==> s[i] == 0,
    ensures
        first_zero(s) == i,
    decreases s.len(),
{
    if s.len() == 0 {
    } else if s[0] == 0 {
        assert(i == 0);
    } else {
        let t = s.drop_first();
        assert forall|j: int| 0 <= j < i - 1 implies t[j] != 0 by {
            assert(t[j] == s[j + 1]);
        }
        if i - 1 < t.len() {
            assert(t[i - 1] == s[i]);
        }
        lemma_first_zero_is(t, i - 1);
    }
}

/// Finds the index of the first zero byte, or returns the length when none
/// occurs.
pub fn find_first_zero(b: &[u8]) -> (r: usize)
    ensures
        r == first_zero(b@),
{
    let mut i: usize = 0;
    while i < b.len()
        invariant
            i <= b@.len(),
            forall|j: int| 0 <= j < i ==> b@[j] != 0,
        decreases b@.len() - i,
    {
        if b[i] == 0 {
            proof {
                lemma_first_zero_is(b@, i as int);
            }
            return i;
        }
        i += 1;
    }
    proof {
        lemma_first_zero_is(b@, i as int);
    }
    i
}

/// The character sequence that lossy UTF-8 decoding yields for `s`: valid
/// UTF-8 decodes to its characters, and each invalid sequence becomes a
/// replacement marker. A function of the bytes alone.
pub uninterp spec fn lossy_utf8_of(s: Seq<u8>) -> Seq<char>;

/// Relies on String::from_utf8_lossy: its result depends on the input bytes
/// alone, and bytes below 0x80 are one-byte UTF-8 sequences that pass through
/// unchanged, one character per byte.
#[verifier::external_body]
pub(crate) fn utf8_lossy(b: &[u8]) -> (r: String)
    ensures
        r@ == lossy_utf8_of(b@),
        (forall|i: int| 0 <= i < b@.len() ==> b@[i] < 0x80) ==> r@ == b@.map_values(
            |c: u8| c as char,
        ),
{
    String::from_utf8_lossy(b).into_owned()
}

} // verus!
