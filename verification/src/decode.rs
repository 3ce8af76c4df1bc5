use vstd::prelude::*;

use crate::errors::AcqError;

verus! {

/// The comma-separated fields of a payload, in order. The empty payload is
/// one empty field; a trailing comma ends with an empty field.
pub open spec fn split_fields_spec(s: Seq<u8>) -> Seq<Seq<u8>>
    decreases s.len(),
{
    if s.len() == 0 {
        seq![Seq::<u8>::empty()]
    } else if s.last() == 44u8 {
        split_fields_spec(s.drop_last()).push(Seq::<u8>::empty())
    } else {
        let prev = split_fields_spec(s.drop_last());
        prev.update(prev.len() - 1, prev.last().push(s.last()))
    }
}

/// Splits a payload at every comma (byte 44), keeping empty fields.
pub fn split_fields(payload: &Vec<u8>) -> (fields: Vec<Vec<u8>>)
    ensures
        fields.deep_view() == split_fields_spec(payload@),
{
    let n = payload.len();
    let mut fields: Vec<Vec<u8>> = Vec::new();
    let mut cur: Vec<u8> = Vec::new();
    let mut i: usize = 0;
    proof {
        assert(fields.deep_view().push(cur@) =~~= split_fields_spec(payload@.take(0)));
    }
    while i < n
        invariant
            i <= n,
            n == payload@.len(),
            fields.deep_view().push(cur@) == split_fields_spec(payload@.take(i as int)),
        decreases n - i,
    {
        let ghost pre_fields = fields.deep_view();
        let ghost pre_cur = cur@;
        let b = payload[i];
        if b == 44 {
            fields.push(cur);
            cur = Vec::new();
        } else {
            cur.push(b);
        }
        i = i + 1;
        proof {
            let t = payload@.take(i as int);
            assert(t.drop_last() =~= payload@.take(i - 1));
            assert(t.last() == payload@[i - 1]);
            if b == 44 {
                assert(fields.deep_view() =~~= pre_fields.push(pre_cur));
                assert(fields.deep_view().push(cur@) =~~= split_fields_spec(t));
            } else {
                let prev = split_fields_spec(t.drop_last());
                assert(prev == pre_fields.push(pre_cur));
                assert(prev.last() == pre_cur);
                assert(prev.update(prev.len() - 1, prev.last().push(b)) =~~= pre_fields.push(
                    pre_cur.push(b),
                ));
                assert(fields.deep_view() =~~= pre_fields);
                assert(fields.deep_view().push(cur@) =~~= split_fields_spec(t));
            }
        }
    }
    proof {
        assert(payload@.take(n as int) =~= payload@);
    }
    fields.push(cur);
    proof {
        assert(fields.deep_view() =~~= split_fields_spec(payload@));
    }
    fields
}

/// ASCII decimal digit.
pub open spec fn is_digit(b: u8) -> bool {
    48 <= b <= 57
}

/// All bytes of `s` are decimal digits.
pub open spec fn all_digits(s: Seq<u8>) -> bool {
    forall|i: int| 0 <= i < s.len() ==> is_digit(#[trigger] s[i])
}

/// The value of a string of decimal digits, most significant first.
pub open spec fn digits_value(s: Seq<u8>) -> int
    recommends
        all_digits(s),
    decreases s.len(),
{
    if s.len() == 0 {
        0
    } else {
        digits_value(s.drop_last()) * 10 + (s.last() - 48)
    }
}

/// `s` is a decimal integer literal: an optional sign followed by at least
/// one digit.
pub open spec fn is_int_literal(s: Seq<u8>) -> bool {
    if s.len() == 0 {
        false
    } else if s[0] == 45u8 || s[0] == 43u8 {
        s.len() > 1 && all_digits(s.skip(1))
    } else {
        all_digits(s)
    }
}

/// The mathematical value of an integer literal.
pub open spec fn int_value(s: Seq<u8>) -> int
    recommends
        is_int_literal(s),
{
    if s.len() > 0 && s[0] == 45u8 {
        -digits_value(s.skip(1))
    } else if s.len() > 0 && s[0] == 43u8 {
        digits_value(s.skip(1))
    } else {
        digits_value(s)
    }
}

/// `s` parses as a 64-bit signed integer.
pub open spec fn valid_i64_field(s: Seq<u8>) -> bool {
    &&& is_int_literal(s)
    &&& i64::MIN <= int_value(s) <= i64::MAX
}

/// A digit string's value is never negative.
proof fn lemma_digits_nonneg(s: Seq<u8>)
    requires
        all_digits(s),
    ensures
        digits_value(s) >= 0,
    decreases s.len(),
{
    if s.len() > 0 {
        assert(all_digits(s.drop_last()));
        lemma_digits_nonneg(s.drop_last());
    }
}

/// Extending a digit string can only grow its value.
proof fn lemma_digits_prefix_le(s: Seq<u8>, n: int)
    requires
        all_digits(s),
        0 <= n <= s.len(),
    ensures
        digits_value(s.take(n)) <= digits_value(s),
    decreases s.len() - n,
{
    if n < s.len() {
        lemma_digits_prefix_le(s, n + 1);
        let t = s.take(n + 1);
        assert(t.drop_last() =~= s.take(n));
        assert(all_digits(t.drop_last()));
        lemma_digits_nonneg(t.drop_last());
        assert(digits_value(t) == digits_value(s.take(n)) * 10 + (t.last() - 48));
        assert(digits_value(s.take(n)) * 10 >= digits_value(s.take(n))) by (nonlinear_arith)
            requires
                digits_value(s.take(n)) >= 0,
        ;
    } else {
        assert(s.take(n) =~= s);
    }
}

/// Parses `s[from..]` as an unsigned string of decimal digits.  Yields its
/// value as long as it does not exceed `2^63`; a larger value, an empty
/// range, or a non-digit byte yields `None`.
fn parse_digits(s: &Vec<u8>, from: usize) -> (r: Option<u64>)
    requires
        from as int <= s@.len(),
    ensures
        match r {
            Some(v) => {
                &&& all_digits(s@.skip(from as int))
                &&& s@.len() > from
                &&& v as int == digits_value(s@.skip(from as int))
                &&& v <= 0x8000000000000000u64
            },
            None => !(all_digits(s@.skip(from as int)) && s@.len() > from && digits_value(
                s@.skip(from as int),
            ) <= 0x8000000000000000),
        },
{
    let n = s.len();
    if from == n {
        return None;
    }
    let ghost digits = s@.skip(from as int);
    let mut acc: u64 = 0;
    let mut i: usize = from;
    while i < n
        invariant
            from <= i <= n,
            n == s@.len(),
            digits == s@.skip(from as int),
            acc as int == digits_value(digits.take(i - from)),
            acc <= 0x8000000000000000u64,
            all_digits(digits.take(i - from)),
        decreases n - i,
    {
        let b = s[i];
        proof {
            let t = digits.take(i - from + 1);
            assert(t.drop_last() =~= digits.take(i - from));
            assert(t.last() == s@[i as int]);
        }
        if b < 48 || b > 57 {
            proof {
                if all_digits(digits) {
                    assert(is_digit(digits[i - from]));
                }
            }
            return None;
        }
        let d = (b - 48) as u64;
        if acc > 922337203685477580 || (acc == 922337203685477580 && d > 8) {
            proof {
                assert(acc as int * 10 + d > 0x8000000000000000);
                let t = digits.take(i - from + 1);
                assert(digits_value(t) > 0x8000000000000000);
                if all_digits(digits) {
                    lemma_digits_prefix_le(digits, i - from + 1);
                }
            }
            return None;
        }
        acc = acc * 10 + d;
        i = i + 1;
    }
    proof {
        assert(digits.take(n - from) =~= digits);
    }
    Some(acc)
}

/// Parses a whole field as an `i64`: optional sign, then digits.  `None`
/// when the field is not an integer literal or its value does not fit.
pub fn parse_int_field(s: &Vec<u8>) -> (r: Option<i64>)
    ensures
        match r {
            Some(v) => valid_i64_field(s@) && v as int == int_value(s@),
            None => !valid_i64_field(s@),
        },
{
    let n = s.len();
    if n == 0 {
        return None;
    }
    let b0 = s[0];
    let negative = b0 == 45;
    let from: usize = if b0 == 45 || b0 == 43 {
        1
    } else {
        0
    };
    let ghost digits = s@.skip(from as int);
    match parse_digits(s, from) {
        None => {
            proof {
                if from == 0 {
                    assert(s@.skip(0) =~= s@);
                }
                if valid_i64_field(s@) {
                    if negative {
                        lemma_digits_nonneg(digits);
                        assert(int_value(s@) == -digits_value(digits));
                        assert(digits_value(digits) <= 0x8000000000000000);
                    } else if b0 == 43 {
                        assert(digits_value(digits) <= i64::MAX < 0x8000000000000000);
                    } else {
                        assert(digits_value(digits) <= i64::MAX < 0x8000000000000000);
                    }
                }
            }
            None
        },
        Some(mag) => {
            proof {
                if from == 0 {
                    assert(s@.skip(0) =~= s@);
                }
                lemma_digits_nonneg(digits);
            }
            if negative {
                let v = (-(mag as i128)) as i64;
                Some(v)
            } else {
                if mag > 0x7fffffffffffffff {
                    proof {
                        assert(digits_value(digits) > i64::MAX);
                    }
                    return None;
                }
                Some(mag as i64)
            }
        },
    }
}

/// A cell-array field must be an integer literal in 16-bit unsigned range.
pub open spec fn valid_u16_field(s: Seq<u8>) -> bool {
    &&& is_int_literal(s)
    &&& 0 <= int_value(s) <= u16::MAX
}

/// The sample a valid cell-array field stands for.
pub open spec fn cell_value(s: Seq<u8>) -> u16
    recommends
        valid_u16_field(s),
{
    int_value(s) as u16
}

/// The cell samples of a field list after discarding the first `k` fields.
pub open spec fn cells_of(fs: Seq<Seq<u8>>, k: int) -> Seq<u16> {
    if 0 <= k <= fs.len() {
        fs.skip(k).map_values(|f: Seq<u8>| cell_value(f))
    } else {
        Seq::empty()
    }
}

/// The first decode fault of a cell array from payload position `k` on: the
/// position of the first field that is no unsigned 16-bit integer literal.
pub open spec fn cells_fault_from(fs: Seq<Seq<u8>>, k: int) -> Option<AcqError>
    decreases fs.len() - k,
{
    if k < 0 || k >= fs.len() {
        None
    } else if !valid_u16_field(fs[k]) {
        Some(AcqError::FieldUnparseable(k as usize))
    } else {
        cells_fault_from(fs, k + 1)
    }
}

/// The sample one field stands for, when the field is valid.
fn cell_field_value(f: &Vec<u8>) -> (x: Option<u16>)
    ensures
        match x {
            Some(v) => valid_u16_field(f@) && v == cell_value(f@),
            None => !valid_u16_field(f@),
        },
{
    match parse_int_field(f) {
        Some(v) => if v >= 0 && v <= 65535 {
            Some(v as u16)
        } else {
            None
        },
        None => None,
    }
}

/// Decodes a cell array: every field after the first `k` becomes a sample.
/// The first field that does not parse as an unsigned 16-bit integer fails
/// the decode with `FieldUnparseable` naming its payload position.
pub fn decode_cells(fields: &Vec<Vec<u8>>, k: usize) -> (r: Result<Vec<u16>, AcqError>)
    ensures
        match r {
            Ok(cells) => {
                &&& cells_fault_from(fields.deep_view(), k as int) is None
                &&& cells@ == cells_of(fields.deep_view(), k as int)
            },
            Err(e) => cells_fault_from(fields.deep_view(), k as int) == Some(e),
        },
{
    let ghost fs = fields.deep_view();
    let n = fields.len();
    let mut cells: Vec<u16> = Vec::new();
    if k >= n {
        proof {
            if k as int <= fs.len() {
                assert(cells@ =~= cells_of(fs, k as int));
            }
        }
        return Ok(cells);
    }
    let mut i: usize = k;
    while i < n
        invariant
            k <= i <= n,
            fs == fields.deep_view(),
            n == fs.len(),
            cells@.len() == i - k,
            forall|j: int| 0 <= j < i - k ==> cells@[j] == cell_value(#[trigger] fs[k + j]),
            forall|j: int| k <= j < i ==> valid_u16_field(#[trigger] fs[j]),
            cells_fault_from(fs, k as int) == cells_fault_from(fs, i as int),
        decreases n - i,
    {
        proof {
            assert(fs[i as int] =~= fields@[i as int]@);
        }
        let x = match cell_field_value(&fields[i]) {
            Some(x) => x,
            None => {
                proof {
                    assert(cells_fault_from(fs, i as int) == Some(
                        AcqError::FieldUnparseable(i as usize),
                    ));
                }
                return Err(AcqError::FieldUnparseable(i));
            },
        };
        cells.push(x);
        i = i + 1;
        proof {
            assert(cells_fault_from(fs, i - 1) == cells_fault_from(fs, i as int));
        }
    }
    proof {
        assert forall|j: int| 0 <= j < n - k implies cells@[j] == cells_of(fs, k as int)[j] by {
            assert(fs.skip(k as int)[j] == fs[k + j]);
            assert(cells@[j] == cell_value(fs[k + j]));
        }
        assert(cells@ =~= cells_of(fs, k as int));
    }
    Ok(cells)
}

/// A positional reader over the fields of one payload: the decode plan skips
/// unlabeled separators and reads fields at fixed offsets.  The payload
/// index consumes at most the fields there are, while the plan position
/// counts every skip and read, so a fault can name its plan position even
/// past the payload's end.
pub struct FieldCursor {
    /// The payload's fields, in wire order.
    pub fields: Vec<Vec<u8>>,
    /// The payload index of the next field to consume; stays at the field
    /// count once the payload is exhausted.
    pub index: usize,
    /// The plan position of the next field to read.
    pub pos: usize,
}

impl FieldCursor {
    /// A cursor standing at the first field.
    pub fn new(fields: Vec<Vec<u8>>) -> (c: FieldCursor)
        ensures
            c.fields == fields,
            c.index == 0,
            c.pos == 0,
    {
        FieldCursor { fields, index: 0, pos: 0 }
    }
}

/// Discards the next `n` fields of the plan: consumes at most the fields
/// that remain, and advances the plan position by exactly `n`.
pub fn skip(c: &mut FieldCursor, n: usize)
    requires
        old(c).pos + n <= usize::MAX,
    ensures
        final(c).fields == old(c).fields,
        final(c).pos == old(c).pos + n,
        final(c).index as int == if old(c).index + n <= old(c).fields.deep_view().len() {
            old(c).index + n
        } else {
            old(c).fields.deep_view().len() as int
        },
{
    c.pos = c.pos + n;
    let len = c.fields.len();
    if c.index >= len || n >= len - c.index {
        c.index = len;
    } else {
        c.index = c.index + n;
    }
}

/// Reads the field at the cursor as an integer.  A payload that ends before
/// the cursor fails with `FieldMissing` and consumes nothing; a field that
/// is not an integer literal in 64-bit range is consumed and fails with
/// `FieldUnparseable`.  Both errors carry the plan position.
pub fn parse_next(c: &mut FieldCursor) -> (r: Result<i64, AcqError>)
    requires
        old(c).pos < usize::MAX,
    ensures
        final(c).fields == old(c).fields,
        match r {
            Ok(v) => {
                &&& old(c).index < old(c).fields.deep_view().len()
                &&& valid_i64_field(old(c).fields.deep_view()[old(c).index as int])
                &&& v as int == int_value(old(c).fields.deep_view()[old(c).index as int])
                &&& final(c).index == old(c).index + 1
                &&& final(c).pos == old(c).pos + 1
            },
            Err(e) => {
                if old(c).index >= old(c).fields.deep_view().len() {
                    e == AcqError::FieldMissing(old(c).pos) && *final(c) == *old(c)
                } else {
                    &&& e == AcqError::FieldUnparseable(old(c).pos)
                    &&& !valid_i64_field(old(c).fields.deep_view()[old(c).index as int])
                    &&& final(c).index == old(c).index + 1
                    &&& final(c).pos == old(c).pos + 1
                }
            },
        },
{
    if c.index >= c.fields.len() {
        return Err(AcqError::FieldMissing(c.pos));
    }
    let field = &c.fields[c.index];
    proof {
        assert(c.fields.deep_view()[c.index as int] =~= field@);
    }
    let at = c.pos;
    let parsed = parse_int_field(field);
    c.index = c.index + 1;
    c.pos = c.pos + 1;
    match parsed {
        Some(v) => Ok(v),
        None => Err(AcqError::FieldUnparseable(at)),
    }
}

} // verus!
