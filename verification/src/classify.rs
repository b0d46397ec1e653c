use vstd::prelude::*;

verus! {

/// A byte that disqualifies a sample from being text: a control byte below
/// 0x20 other than tab, line feed, or carriage return.
pub open spec fn is_disqualifying_byte(b: u8) -> bool {
    b < 0x20 && b != 0x09 && b != 0x0a && b != 0x0d
}

/// The text/binary heuristic over a leading sample of a file's bytes: the
/// sample is text iff no byte in it is a control byte other than tab, line
/// feed, or carriage return. An empty sample is text. High-bit bytes are
/// accepted by construction; this is not an encoding detector.
pub open spec fn is_text_bytes(s: Seq<u8>) -> bool {
    forall|i: int| 0 <= i < s.len() ==> !is_disqualifying_byte(s[i])
}

/// Classify a leading byte sample of a file as text or binary.
pub fn is_text_sample(sample: &[u8]) -> (r: bool)
    ensures
        r == is_text_bytes(sample@),
{
    let mut i: usize = 0;
    while i < sample.len()
        invariant
            0 <= i <= sample@.len(),
            forall|j: int| 0 <= j < i ==> !is_disqualifying_byte(sample@[j]),
        decreases sample@.len() - i,
    {
        let b = sample[i];
        if b < 0x20 && b != 0x09 && b != 0x0a && b != 0x0d {
            return false;
        }
        i = i + 1;
    }
    true
}

} // verus!
