use vstd::prelude::*;

use crate::error::FormatError;
use crate::schema::{
    spec_column_type_of, BlockStats, Column, ColumnType, Metadata, TypedValue,
};

verus! {

broadcast use vstd::string::axiom_spec_iter, vstd::string::next_postcondition;

/// One JSON value of the schema blob, captured as plain data: what the
/// JSON reader handed back when the value was asked for as an integer and
/// as text, and the value rendered back to JSON source.
#[derive(Debug, Clone, PartialEq, Eq)]
pub struct RawValue {
    /// The value as a signed integer, when it is a JSON integer.
    pub as_int: Option<i64>,
    /// The value's text, when it is a JSON string.
    pub as_text: Option<String>,
    /// The value rendered back to JSON source text.
    pub literal: String,
}

/// One block's statistics as found in the schema blob, before validation.
/// `None` stands for a key that is absent or not of the shape asked for.
#[derive(Debug, Clone, PartialEq, Eq)]
pub struct RawStats {
    pub num: Option<u64>,
    pub min: Option<RawValue>,
    pub max: Option<RawValue>,
    pub min_len: Option<u64>,
    pub max_len: Option<u64>,
}

/// One column as found in the schema blob, before validation.
#[derive(Debug, Clone, PartialEq, Eq)]
pub struct RawColumn {
    pub column_type: Option<String>,
    pub start_offset: Option<u64>,
    pub num_blocks: Option<u64>,
    pub block_stats: Option<Vec<(String, RawStats)>>,
}

/// The whole schema blob as found on disk, before validation.
#[derive(Debug, Clone, PartialEq, Eq)]
pub struct RawSchema {
    pub table: Option<String>,
    pub max_values_per_block: Option<u64>,
    pub columns: Option<Vec<(String, RawColumn)>>,
}

/// A present value that fits in 32 bits, converted; `None` otherwise.
pub open spec fn spec_fit_u32(v: Option<u64>) -> Option<u32> {
    match v {
        Some(n) => if n <= u32::MAX as u64 {
            Some(n as u32)
        } else {
            None
        },
        None => None,
    }
}

/// Whether a piece of JSON source text is a number: JSON numbers start
/// with a digit or a minus sign, and nothing else does.
pub open spec fn spec_is_number_literal(s: Seq<char>) -> bool {
    s.len() > 0 && ((48 <= s[0] as u32 && s[0] as u32 <= 57) || s[0] as u32 == 45)
}

/// The typed statistic value a raw value decodes to under the owning
/// column's type, if it has the required shape.
pub open spec fn spec_typed_value(v: RawValue, t: ColumnType) -> Option<TypedValue> {
    match t {
        ColumnType::Int => match v.as_int {
            Some(i) => Some(TypedValue::Int(i)),
            None => None,
        },
        ColumnType::Str => match v.as_text {
            Some(s) => Some(TypedValue::Str(s)),
            None => None,
        },
        ColumnType::Float => if spec_is_number_literal(v.literal@) {
            Some(TypedValue::Float(v.literal))
        } else {
            None
        },
    }
}

/// Whether one block's raw statistics have every field the owning
/// column's type requires, each of the required shape.
pub open spec fn spec_stats_ok(s: RawStats, t: ColumnType) -> bool {
    &&& spec_fit_u32(s.num) is Some
    &&& s.min matches Some(v) && spec_typed_value(v, t) is Some
    &&& s.max matches Some(v) && spec_typed_value(v, t) is Some
    &&& (t is Str ==> spec_fit_u32(s.min_len) is Some && spec_fit_u32(s.max_len) is Some)
}

/// The validated statistics a well-shaped raw block decodes to.
/// `min_len`/`max_len` are kept only for `str` columns.
pub open spec fn spec_block_stats(s: RawStats, t: ColumnType) -> BlockStats
    recommends
        spec_stats_ok(s, t),
{
    BlockStats {
        num: spec_fit_u32(s.num).unwrap(),
        min: spec_typed_value(s.min.unwrap(), t).unwrap(),
        max: spec_typed_value(s.max.unwrap(), t).unwrap(),
        min_len: if t is Str {
            Some(spec_fit_u32(s.min_len).unwrap())
        } else {
            None
        },
        max_len: if t is Str {
            Some(spec_fit_u32(s.max_len).unwrap())
        } else {
            None
        },
    }
}

/// Whether a raw column declares a type string outside
/// `{"float", "int", "str"}`.
pub open spec fn spec_col_unknown_type(c: RawColumn) -> bool {
    c.column_type matches Some(ts) && spec_column_type_of(ts@) is None
}

/// Whether a raw column is fully well shaped: known type, offset and
/// block count of the right shape, and every block statistic well shaped
/// for that type.
pub open spec fn spec_column_ok(c: RawColumn) -> bool {
    match c.column_type {
        Some(ts) => match spec_column_type_of(ts@) {
            Some(t) => {
                &&& c.start_offset matches Some(o) && o <= usize::MAX as u64
                &&& spec_fit_u32(c.num_blocks) is Some
                &&& c.block_stats matches Some(bs) && (forall|k: int|
                    0 <= k < bs@.len() ==> #[trigger] spec_stats_ok(bs@[k].1, t))
            },
            None => false,
        },
        None => false,
    }
}

/// How the validated column relates to the raw one it was decoded from.
pub open spec fn spec_column_matches(rc: RawColumn, col: Column) -> bool
    recommends
        spec_column_ok(rc),
{
    &&& Some(col.column_type) == spec_column_type_of(rc.column_type.unwrap()@)
    &&& col.start_offset == rc.start_offset.unwrap() as usize
    &&& Some(col.num_blocks) == spec_fit_u32(rc.num_blocks)
    &&& col.block_stats@.len() == rc.block_stats.unwrap()@.len()
    &&& forall|k: int|
        0 <= k < col.block_stats@.len() ==> (#[trigger] col.block_stats@[k]).0
            == rc.block_stats.unwrap()@[k].0
    &&& forall|k: int|
        0 <= k < col.block_stats@.len() ==> (#[trigger] col.block_stats@[k]).1
            == spec_block_stats(rc.block_stats.unwrap()@[k].1, col.column_type)
}

/// Whether the top-level keys are present and of the right shape, with at
/// least one column declared.
pub open spec fn spec_header_ok(r: RawSchema) -> bool {
    &&& r.table is Some
    &&& spec_fit_u32(r.max_values_per_block) is Some
    &&& r.columns matches Some(cs) && cs@.len() > 0
}

/// Whether the whole raw schema is well shaped.
pub open spec fn spec_raw_ok(r: RawSchema) -> bool {
    &&& spec_header_ok(r)
    &&& forall|k: int|
        0 <= k < r.columns.unwrap()@.len() ==> #[trigger] spec_column_ok(r.columns.unwrap()@[k].1)
}

/// Whether the first raw column that is not well shaped fails because its
/// declared type string is unknown (rather than a field being absent).
pub open spec fn spec_unknown_type_first(r: RawSchema) -> bool
    recommends
        spec_header_ok(r),
{
    exists|k: int|
        0 <= k < r.columns.unwrap()@.len() && (forall|j: int|
            0 <= j < k ==> #[trigger] spec_column_ok(r.columns.unwrap()@[j].1))
            && #[trigger] spec_col_unknown_type(r.columns.unwrap()@[k].1)
}

/// How the validated metadata relates to the raw schema it was decoded
/// from.
pub open spec fn spec_metadata_matches(r: RawSchema, m: Metadata) -> bool
    recommends
        spec_raw_ok(r),
{
    &&& m.table == r.table.unwrap()
    &&& Some(m.max_values_per_block) == spec_fit_u32(r.max_values_per_block)
    &&& m.columns@.len() == r.columns.unwrap()@.len()
    &&& forall|k: int|
        0 <= k < m.columns@.len() ==> (#[trigger] m.columns@[k]).0 == r.columns.unwrap()@[k].0
    &&& forall|k: int|
        0 <= k < m.columns@.len() ==> spec_column_matches(
            r.columns.unwrap()@[k].1,
            (#[trigger] m.columns@[k]).1,
        )
}

/// A well-shaped schema has no column with an unknown type string.
pub proof fn lemma_raw_ok_no_unknown(rs: RawSchema)
    requires
        spec_raw_ok(rs),
    ensures
        !spec_unknown_type_first(rs),
{
    if spec_unknown_type_first(rs) {
        let k = choose|k: int|
            0 <= k < rs.columns.unwrap()@.len() && (forall|j: int|
                0 <= j < k ==> #[trigger] spec_column_ok(rs.columns.unwrap()@[j].1))
                && #[trigger] spec_col_unknown_type(rs.columns.unwrap()@[k].1);
        assert(spec_column_ok(rs.columns.unwrap()@[k].1));
        assert(false);
    }
}

/// Converts a present value that fits in 32 bits; `None` otherwise.
fn fit_u32(v: Option<u64>) -> (r: Option<u32>)
    ensures
        r == spec_fit_u32(v),
{
    match v {
        Some(n) => if n <= 0xffff_ffffu64 {
            Some(n as u32)
        } else {
            None
        },
        None => None,
    }
}

/// Whether a piece of JSON source text is a number (starts with a digit
/// or a minus sign).
fn is_number_literal(s: &String) -> (r: bool)
    ensures
        r == spec_is_number_literal(s@),
{
    let mut it = s.as_str().chars();
    match it.next() {
        Some(c) => {
            let u = c as u32;
            (48 <= u && u <= 57) || u == 45
        },
        None => false,
    }
}

/// Decodes one raw statistic value under the owning column's type.
fn typed_value(v: &RawValue, t: ColumnType) -> (r: Option<TypedValue>)
    ensures
        r == spec_typed_value(*v, t),
{
    match t {
        ColumnType::Int => match v.as_int {
            Some(i) => Some(TypedValue::Int(i)),
            None => None,
        },
        ColumnType::Str => match &v.as_text {
            Some(s) => Some(TypedValue::Str(s.clone())),
            None => None,
        },
        ColumnType::Float => if is_number_literal(&v.literal) {
            Some(TypedValue::Float(v.literal.clone()))
        } else {
            None
        },
    }
}

/// Validates one block's raw statistics against the owning column's type.
fn block_stats_of(rs: &RawStats, t: ColumnType) -> (r: Option<BlockStats>)
    ensures
        (r is Some) <==> spec_stats_ok(*rs, t),
        r matches Some(b) ==> b == spec_block_stats(*rs, t),
{
    let num = match fit_u32(rs.num) {
        Some(n) => n,
        None => return None,
    };
    let min = match &rs.min {
        Some(v) => match typed_value(v, t) {
            Some(tv) => tv,
            None => return None,
        },
        None => return None,
    };
    let max = match &rs.max {
        Some(v) => match typed_value(v, t) {
            Some(tv) => tv,
            None => return None,
        },
        None => return None,
    };
    let (min_len, max_len) = if matches!(t, ColumnType::Str) {
        let ml = match fit_u32(rs.min_len) {
            Some(x) => x,
            None => return None,
        };
        let xl = match fit_u32(rs.max_len) {
            Some(x) => x,
            None => return None,
        };
        (Some(ml), Some(xl))
    } else {
        (None, None)
    };
    Some(BlockStats { num, min, max, min_len, max_len })
}

/// Validates one raw column. The type string is judged first, so a column
/// with an unknown type reports `UnknownColumnType` even when other
/// fields are absent too; every other violation is `MissingField`.
#[verifier::loop_isolation(false)]
pub fn column_of(rc: RawColumn) -> (r: Result<Column, FormatError>)
    ensures
        (r is Ok) <==> spec_column_ok(rc),
        r matches Ok(c) ==> spec_column_matches(rc, c),
        (r == Err::<Column, FormatError>(FormatError::UnknownColumnType)) <==> spec_col_unknown_type(rc),
        r is Err ==> (r == Err::<Column, FormatError>(FormatError::MissingField) || r == Err::<
            Column,
            FormatError,
        >(FormatError::UnknownColumnType)),
{
    let RawColumn { column_type, start_offset, num_blocks, block_stats } = rc;
    let ts = match column_type {
        Some(t) => t,
        None => return Err(FormatError::MissingField),
    };
    let t = match ColumnType::of_text(&ts) {
        Some(t) => t,
        None => return Err(FormatError::UnknownColumnType),
    };
    let off64 = match start_offset {
        Some(o) => o,
        None => return Err(FormatError::MissingField),
    };
    if off64 > usize::MAX as u64 {
        return Err(FormatError::MissingField);
    }
    let off = off64 as usize;
    let nb = match fit_u32(num_blocks) {
        Some(n) => n,
        None => return Err(FormatError::MissingField),
    };
    let mut bs = match block_stats {
        Some(b) => b,
        None => return Err(FormatError::MissingField),
    };
    let ghost orig = bs@;
    let mut out: Vec<(String, BlockStats)> = Vec::new();
    while bs.len() > 0
        invariant
            out@.len() + bs@.len() == orig.len(),
            bs@ == orig.subrange(out@.len() as int, orig.len() as int),
            forall|k: int| 0 <= k < out@.len() ==> (#[trigger] out@[k]).0 == orig[k].0,
            forall|k: int| 0 <= k < out@.len() ==> #[trigger] spec_stats_ok(orig[k].1, t),
            forall|k: int|
                0 <= k < out@.len() ==> (#[trigger] out@[k]).1 == spec_block_stats(orig[k].1, t),
        decreases bs@.len(),
    {
        let ghost i = out@.len() as int;
        let (key, rs) = bs.remove(0);
        assert(orig[i] == (key, rs));
        let b = match block_stats_of(&rs, t) {
            Some(b) => b,
            None => return Err(FormatError::MissingField),
        };
        out.push((key, b));
        proof {
            assert(bs@ =~= orig.subrange(out@.len() as int, orig.len() as int));
        }
    }
    Ok(Column { column_type: t, start_offset: off, num_blocks: nb, block_stats: out })
}

/// Validates the whole raw schema into typed metadata.
///
/// The result is `Ok` exactly when every required key is present and of
/// the required shape and every column type is known; the first column
/// whose type string is unknown yields `UnknownColumnType`, and every
/// other violation yields `MissingField`.
#[verifier::loop_isolation(false)]
pub fn metadata_from_raw(raw: RawSchema) -> (r: Result<Metadata, FormatError>)
    ensures
        (r is Ok) <==> spec_raw_ok(raw),
        r matches Ok(m) ==> spec_metadata_matches(raw, m),
        (r == Err::<Metadata, FormatError>(FormatError::UnknownColumnType)) <==> (spec_header_ok(
            raw,
        ) && spec_unknown_type_first(raw)),
        r is Err ==> (r == Err::<Metadata, FormatError>(FormatError::MissingField) || r == Err::<
            Metadata,
            FormatError,
        >(FormatError::UnknownColumnType)),
{
    let RawSchema { table, max_values_per_block, columns } = raw;
    let table = match table {
        Some(t) => t,
        None => return Err(FormatError::MissingField),
    };
    let mvpb = match fit_u32(max_values_per_block) {
        Some(m) => m,
        None => return Err(FormatError::MissingField),
    };
    let mut cs = match columns {
        Some(c) => c,
        None => return Err(FormatError::MissingField),
    };
    if cs.len() == 0 {
        return Err(FormatError::MissingField);
    }
    let ghost orig = cs@;
    let mut out: Vec<(String, Column)> = Vec::new();
    while cs.len() > 0
        invariant
            out@.len() + cs@.len() == orig.len(),
            cs@ == orig.subrange(out@.len() as int, orig.len() as int),
            forall|k: int| 0 <= k < out@.len() ==> (#[trigger] out@[k]).0 == orig[k].0,
            forall|k: int| 0 <= k < out@.len() ==> #[trigger] spec_column_ok(orig[k].1),
            forall|k: int|
                0 <= k < out@.len() ==> spec_column_matches(orig[k].1, (#[trigger] out@[k]).1),
        decreases cs@.len(),
    {
        let ghost i = out@.len() as int;
        let (name, rc) = cs.remove(0);
        assert(orig[i] == (name, rc));
        let col = match column_of(rc) {
            Ok(c) => c,
            Err(e) => {
                proof {
                    assert(raw.columns.unwrap()@ == orig);
                    if e == FormatError::MissingField {
                        if spec_unknown_type_first(raw) {
                            let k = choose|k: int|
                                0 <= k < raw.columns.unwrap()@.len() && (forall|j: int|
                                    0 <= j < k ==> #[trigger] spec_column_ok(
                                        raw.columns.unwrap()@[j].1,
                                    )) && #[trigger] spec_col_unknown_type(
                                    raw.columns.unwrap()@[k].1,
                                );
                            if k < i {
                                assert(spec_column_ok(orig[k].1));
                                assert(false);
                            } else if k == i {
                                assert(false);
                            } else {
                                assert(spec_column_ok(orig[i].1));
                                assert(false);
                            }
                        }
                    } else {
                        assert(spec_col_unknown_type(raw.columns.unwrap()@[i].1));
                        assert(spec_unknown_type_first(raw));
                    }
                }
                return Err(e);
            },
        };
        out.push((name, col));
        proof {
            assert(cs@ =~= orig.subrange(out@.len() as int, orig.len() as int));
        }
    }
    proof {
        assert(raw.columns.unwrap()@ == orig);
        if spec_unknown_type_first(raw) {
            let k = choose|k: int|
                0 <= k < raw.columns.unwrap()@.len() && (forall|j: int|
                    0 <= j < k ==> #[trigger] spec_column_ok(raw.columns.unwrap()@[j].1))
                    && #[trigger] spec_col_unknown_type(raw.columns.unwrap()@[k].1);
            assert(spec_column_ok(orig[k].1));
            assert(false);
        }
    }
    Ok(Metadata { table, columns: out, max_values_per_block: mvpb })
}

} // verus!
