use vstd::prelude::*;

use crate::errors::AcqError;

verus! {

/// The byte pattern that introduces a telemetry assignment for `key`:
/// the key itself followed by ` = "` (space, equals, space, double quote).
pub open spec fn marker(key: Seq<u8>) -> Seq<u8> {
    key + seq![32u8, 61u8, 32u8, 34u8]
}

/// The marker for `key` occurs in `doc` at position `i`.
pub open spec fn marker_at(doc: Seq<u8>, key: Seq<u8>, i: int) -> bool {
    &&& 0 <= i
    &&& i + marker(key).len() <= doc.len()
    &&& doc.subrange(i, i + marker(key).len() as int) == marker(key)
}

/// `i` is the first position of `doc` where the marker for `key` occurs.
pub open spec fn first_marker_at(doc: Seq<u8>, key: Seq<u8>, i: int) -> bool {
    &&& marker_at(doc, key, i)
    &&& forall|k: int| 0 <= k < i ==> !marker_at(doc, key, k)
}

/// `j` is the first position at or after `start` holding the closing double
/// quote.
pub open spec fn payload_end_at(doc: Seq<u8>, start: int, j: int) -> bool {
    &&& start <= j < doc.len()
    &&& doc[j] == 34u8
    &&& forall|k: int| start <= k < j ==> doc[k] != 34u8
}

/// `(i, j)` delimit the quoted payload of the first assignment of `key` in
/// `doc`: the marker first occurs at `i` and the payload runs from the byte
/// after the opening quote up to the closing quote at `j`.
pub open spec fn extract_witness(doc: Seq<u8>, key: Seq<u8>, i: int, j: int) -> bool {
    &&& first_marker_at(doc, key, i)
    &&& payload_end_at(doc, i + marker(key).len(), j)
}

/// `doc` holds a complete assignment of `key`: marker and closing quote.
pub open spec fn has_extraction(doc: Seq<u8>, key: Seq<u8>) -> bool {
    exists|i: int, j: int| extract_witness(doc, key, i, j)
}

/// The quoted payload assigned to `key` in `doc`, if any: the bytes between
/// the first marker's opening quote and the next double quote.
pub open spec fn extraction(doc: Seq<u8>, key: Seq<u8>) -> Option<Seq<u8>> {
    if has_extraction(doc, key) {
        let (i, j) = choose|i: int, j: int| extract_witness(doc, key, i, j);
        Some(doc.subrange(i + marker(key).len() as int, j))
    } else {
        None
    }
}

/// At most one position can be the first marker occurrence.
pub proof fn lemma_first_marker_unique(doc: Seq<u8>, key: Seq<u8>, i1: int, i2: int)
    requires
        first_marker_at(doc, key, i1),
        first_marker_at(doc, key, i2),
    ensures
        i1 == i2,
{
    if i1 < i2 {
        assert(!marker_at(doc, key, i1));
    }
    if i2 < i1 {
        assert(!marker_at(doc, key, i2));
    }
}

/// The extraction witness is unique, so `extraction` names one payload.
pub proof fn lemma_extract_witness_unique(
    doc: Seq<u8>,
    key: Seq<u8>,
    i1: int,
    j1: int,
    i2: int,
    j2: int,
)
    requires
        extract_witness(doc, key, i1, j1),
        extract_witness(doc, key, i2, j2),
    ensures
        i1 == i2,
        j1 == j2,
{
    lemma_first_marker_unique(doc, key, i1, i2);
    let start = i1 + marker(key).len();
    if j1 < j2 {
        assert(doc[j1] == 34u8);
    }
    if j2 < j1 {
        assert(doc[j2] == 34u8);
    }
}

/// The byte of the marker for `key` at offset `m`.
fn marker_byte(key: &Vec<u8>, m: usize) -> (b: u8)
    requires
        m < key@.len() + 4,
    ensures
        b == marker(key@)[m as int],
{
    let klen = key.len();
    if m < klen {
        key[m]
    } else if m == klen {
        assert(marker(key@)[m as int] == seq![32u8, 61u8, 32u8, 34u8][0]);
        32
    } else if m == klen + 1 {
        assert(marker(key@)[m as int] == seq![32u8, 61u8, 32u8, 34u8][1]);
        61
    } else if m == klen + 2 {
        assert(marker(key@)[m as int] == seq![32u8, 61u8, 32u8, 34u8][2]);
        32
    } else {
        assert(marker(key@)[m as int] == seq![32u8, 61u8, 32u8, 34u8][3]);
        34
    }
}

/// Whether the marker for `key` occurs in `doc` at position `i`.
fn marker_matches(doc: &Vec<u8>, key: &Vec<u8>, i: usize) -> (b: bool)
    requires
        i + key@.len() + 4 <= doc@.len(),
        doc@.len() <= usize::MAX,
    ensures
        b == marker_at(doc@, key@, i as int),
{
    let klen = key.len();
    let mlen = klen + 4;
    let mut n: usize = 0;
    while n < mlen
        invariant
            i + mlen <= doc@.len(),
            doc@.len() <= usize::MAX,
            klen == key@.len(),
            mlen == klen + 4,
            n <= mlen,
            forall|m: int| 0 <= m < n ==> doc@[i + m] == marker(key@)[m],
        decreases mlen - n,
    {
        let expected = marker_byte(key, n);
        if doc[i + n] != expected {
            proof {
                if marker_at(doc@, key@, i as int) {
                    assert(doc@.subrange(i as int, i + mlen)[n as int] == marker(key@)[n as int]);
                }
            }
            return false;
        }
        n = n + 1;
    }
    proof {
        assert(doc@.subrange(i as int, i + mlen) =~= marker(key@));
    }
    true
}

/// Position of the first marker occurrence for `key` in `doc`, if any.
fn find_marker(doc: &Vec<u8>, key: &Vec<u8>) -> (r: Option<usize>)
    ensures
        match r {
            Some(i) => first_marker_at(doc@, key@, i as int),
            None => forall|k: int| !marker_at(doc@, key@, k),
        },
{
    let dlen = doc.len();
    let klen = key.len();
    if dlen < 4 || klen > dlen - 4 {
        assert forall|k: int| !marker_at(doc@, key@, k) by {
            assert(marker(key@).len() == klen + 4);
        }
        return None;
    }
    let last_start = dlen - (klen + 4);
    let mut i: usize = 0;
    while i <= last_start
        invariant
            dlen == doc@.len(),
            klen == key@.len(),
            klen + 4 <= dlen,
            last_start == dlen - klen - 4,
            i <= last_start + 1,
            forall|k: int| 0 <= k < i ==> !marker_at(doc@, key@, k),
        decreases last_start + 1 - i,
    {
        if marker_matches(doc, key, i) {
            return Some(i);
        }
        i = i + 1;
    }
    assert forall|k: int| !marker_at(doc@, key@, k) by {
        if k > last_start {
            assert(marker(key@).len() == klen + 4);
        }
    }
    None
}

/// Position of the first double quote of `doc` at or after `start`, if any.
fn find_quote(doc: &Vec<u8>, start: usize) -> (r: Option<usize>)
    requires
        start as int <= doc@.len(),
    ensures
        match r {
            Some(j) => payload_end_at(doc@, start as int, j as int),
            None => forall|j: int| start <= j < doc@.len() ==> doc@[j] != 34u8,
        },
{
    let dlen = doc.len();
    let mut j: usize = start;
    while j < dlen
        invariant
            start <= j <= dlen,
            dlen == doc@.len(),
            forall|k: int| start <= k < j ==> doc@[k] != 34u8,
        decreases dlen - j,
    {
        if doc[j] == 34 {
            return Some(j);
        }
        j = j + 1;
    }
    None
}

/// The bytes `doc[start..end]` as a fresh vector.
fn copy_range(doc: &Vec<u8>, start: usize, end: usize) -> (p: Vec<u8>)
    requires
        start <= end,
        end as int <= doc@.len(),
    ensures
        p@ == doc@.subrange(start as int, end as int),
{
    let mut p: Vec<u8> = Vec::new();
    let mut k: usize = start;
    while k < end
        invariant
            start <= k <= end,
            end as int <= doc@.len(),
            p@ == doc@.subrange(start as int, k as int),
        decreases end - k,
    {
        p.push(doc[k]);
        proof {
            assert(doc@.subrange(start as int, k + 1) =~= doc@.subrange(start as int, k as int).push(
                doc@[k as int],
            ));
        }
        k = k + 1;
    }
    p
}

/// Yields the quoted payload of the first `key = "..."` assignment in `doc`,
/// or `MalformedDocument` when the document holds no complete assignment of
/// that key.
pub fn extract_value(doc: &Vec<u8>, key: &Vec<u8>) -> (r: Result<Vec<u8>, AcqError>)
    ensures
        match r {
            Ok(p) => extraction(doc@, key@) == Some(p@),
            Err(e) => e == AcqError::MalformedDocument && extraction(doc@, key@) is None,
        },
{
    match find_marker(doc, key) {
        None => {
            assert(!has_extraction(doc@, key@));
            Err(AcqError::MalformedDocument)
        },
        Some(i0) => {
            let dlen = doc.len();
            assert(marker(key@).len() == key@.len() + 4);
            assert(i0 + key@.len() + 4 <= dlen);
            let start = i0 + key.len() + 4;
            assert(start == i0 + marker(key@).len());
            match find_quote(doc, start) {
                None => {
                    proof {
                        if has_extraction(doc@, key@) {
                            let (i, j) = choose|i: int, j: int|
                                extract_witness(doc@, key@, i, j);
                            lemma_first_marker_unique(doc@, key@, i, i0 as int);
                            assert(doc@[j] == 34u8);
                        }
                    }
                    Err(AcqError::MalformedDocument)
                },
                Some(j0) => {
                    let p = copy_range(doc, start, j0);
                    proof {
                        assert(extract_witness(doc@, key@, i0 as int, j0 as int));
                        assert(has_extraction(doc@, key@));
                        let (i, j) = choose|i: int, j: int| extract_witness(doc@, key@, i, j);
                        lemma_extract_witness_unique(doc@, key@, i, j, i0 as int, j0 as int);
                    }
                    Ok(p)
                },
            }
        },
    }
}

} // verus!
