//! Byte ranges handed over by the native side as a pointer and a length.
use vstd::prelude::*;

verus! {

/// A pointer and a length from the native side, held as a plain value: a
/// null pointer keeps its length, a non-null pointer the bytes it addresses.
pub enum RawBytes {
    /// A null pointer that came with the given length.
    Null { len: usize },
    /// A non-null pointer, and the bytes of its range.
    Bytes(Vec<u8>),
}

/// A null pointer is acceptable only with length zero.
pub open spec fn raw_bytes_valid(raw: RawBytes) -> bool {
    match raw {
        RawBytes::Null { len } => len == 0,
        RawBytes::Bytes(_) => true,
    }
}

/// The bytes a valid pointer and length stand for.
pub open spec fn raw_bytes_content(raw: RawBytes) -> Seq<u8> {
    match raw {
        RawBytes::Null { .. } => Seq::empty(),
        RawBytes::Bytes(v) => v@,
    }
}

/// Every pointer of every pair is acceptable.
pub open spec fn raw_pairs_valid(s: Seq<(RawBytes, RawBytes)>) -> bool {
    forall|i: int| 0 <= i < s.len() ==> raw_bytes_valid(#[trigger] s[i].0) && raw_bytes_valid(s[i].1)
}

/// The byte contents of every pair.
pub open spec fn raw_pairs_content(s: Seq<(RawBytes, RawBytes)>) -> Seq<(Seq<u8>, Seq<u8>)> {
    s.map_values(|p: (RawBytes, RawBytes)| (raw_bytes_content(p.0), raw_bytes_content(p.1)))
}

/// An independent copy of a native pointer and length.
pub fn copy_raw_bytes(raw: &RawBytes) -> (r: RawBytes)
    ensures
        raw_bytes_valid(r) == raw_bytes_valid(*raw),
        raw_bytes_content(r) == raw_bytes_content(*raw),
{
    match raw {
        RawBytes::Null { len } => RawBytes::Null { len: *len },
        RawBytes::Bytes(b) => RawBytes::Bytes(crate::property_map::copy_of_bytes(b.as_slice())),
    }
}

/// An independent copy of a list of native pairs.
pub fn copy_raw_pairs(pairs: &Vec<(RawBytes, RawBytes)>) -> (r: Vec<(RawBytes, RawBytes)>)
    ensures
        raw_pairs_valid(r@) == raw_pairs_valid(pairs@),
        raw_pairs_content(r@) == raw_pairs_content(pairs@),
{
    let mut r: Vec<(RawBytes, RawBytes)> = Vec::new();
    let mut i: usize = 0;
    while i < pairs.len()
        invariant
            i <= pairs@.len(),
            r@.len() == i,
            forall|j: int|
                0 <= j < i ==> {
                    &&& raw_bytes_valid(#[trigger] r@[j].0) == raw_bytes_valid(pairs@[j].0)
                    &&& raw_bytes_valid(r@[j].1) == raw_bytes_valid(pairs@[j].1)
                    &&& raw_bytes_content(r@[j].0) == raw_bytes_content(pairs@[j].0)
                    &&& raw_bytes_content(r@[j].1) == raw_bytes_content(pairs@[j].1)
                },
        decreases pairs@.len() - i,
    {
        let k = copy_raw_bytes(&pairs[i].0);
        let v = copy_raw_bytes(&pairs[i].1);
        r.push((k, v));
        i = i + 1;
    }
    assert(raw_pairs_content(r@) =~= raw_pairs_content(pairs@));
    assert(raw_pairs_valid(r@) == raw_pairs_valid(pairs@)) by {
        if raw_pairs_valid(pairs@) {
            assert forall|j: int| 0 <= j < r@.len() implies raw_bytes_valid(#[trigger] r@[j].0)
                && raw_bytes_valid(r@[j].1) by {
                assert(raw_bytes_valid(pairs@[j].0));
            }
        }
        if raw_pairs_valid(r@) {
            assert forall|j: int| 0 <= j < pairs@.len() implies raw_bytes_valid(
                #[trigger] pairs@[j].0,
            ) && raw_bytes_valid(pairs@[j].1) by {
                assert(raw_bytes_valid(r@[j].0));
            }
        }
    }
    r
}

/// Whether every pointer of every pair is acceptable.
pub fn raw_pairs_readable(pairs: &Vec<(RawBytes, RawBytes)>) -> (b: bool)
    ensures
        b == raw_pairs_valid(pairs@),
{
    let mut i: usize = 0;
    while i < pairs.len()
        invariant
            i <= pairs@.len(),
            forall|j: int| 0 <= j < i ==> raw_bytes_valid(#[trigger] pairs@[j].0) && raw_bytes_valid(pairs@[j].1),
        decreases pairs@.len() - i,
    {
        let ok_key = match &pairs[i].0 {
            RawBytes::Null { len } => *len == 0,
            RawBytes::Bytes(_) => true,
        };
        let ok_value = match &pairs[i].1 {
            RawBytes::Null { len } => *len == 0,
            RawBytes::Bytes(_) => true,
        };
        if !ok_key || !ok_value {
            return false;
        }
        i = i + 1;
    }
    true
}

} // verus!
