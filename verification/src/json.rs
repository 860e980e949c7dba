use vstd::prelude::*;

use crate::error::FormatError;
use crate::raw::{
    metadata_from_raw, spec_header_ok, spec_metadata_matches, spec_raw_ok,
    spec_unknown_type_first, RawColumn, RawSchema, RawStats, RawValue,
};
use crate::schema::Metadata;

verus! {

/// serde_json's JSON document type, declared so that values of it can be
/// carried between the trusted readers below. The library never looks
/// inside one.
#[verifier::external_type_specification]
#[verifier::external_body]
pub struct ExJsonValue(serde_json::Value);

/// What a byte sequence decodes to as UTF-8 text, when it is valid
/// UTF-8; the result depends on the bytes alone.
pub uninterp spec fn utf8_decode(b: Seq<u8>) -> Option<Seq<char>>;

/// Relies on String::from_utf8: decodes the bytes as UTF-8 text, and
/// fails exactly on the byte sequences that are not valid UTF-8.
#[verifier::external_body]
pub(crate) fn bytes_to_string(b: &Vec<u8>) -> (r: Option<String>)
    ensures
        (r is Some) <==> (utf8_decode(b@) is Some),
        r matches Some(s) ==> utf8_decode(b@) == Some(s@),
{
    match String::from_utf8(b.clone()) {
        Ok(s) => Some(s),
        Err(_) => None,
    }
}

/// What reading a schema text through the JSON reader yields: `None`
/// when the text is not a JSON document, otherwise every schema field
/// captured as plain values. The result depends on the text alone:
/// serde_json's parse is deterministic, and its object map is backed by
/// a `BTreeMap`, so even the order entries come out in is fixed by the
/// text.
pub uninterp spec fn raw_schema_of(text: Seq<char>) -> Option<RawSchema>;

/// Relies on serde_json::from_str::<Value> to parse the text, and on
/// Value::get / as_str / as_u64 and Map iteration (through the readers
/// below) to capture the top-level fields. Succeeds exactly when the
/// text is a JSON document. Column names come from a JSON object, whose
/// map keeps one value per key, so they are pairwise distinct.
#[verifier::external_body]
pub(crate) fn extract_schema(text: &str) -> (r: Option<RawSchema>)
    ensures
        r == raw_schema_of(text@),
        r matches Some(rs) ==> (rs.columns matches Some(cs) ==> forall|i: int, j: int|
            #![trigger cs@[i], cs@[j]]
            0 <= i < j < cs@.len() ==> cs@[i].0@ != cs@[j].0@),
{
    let v: serde_json::Value = match serde_json::from_str(text) {
        Ok(v) => v,
        Err(_) => return None,
    };
    Some(RawSchema {
        table: v.get("Table").and_then(|t| t.as_str()).map(|s| s.to_string()),
        max_values_per_block: v.get("Max Values Per Block").and_then(|m| m.as_u64()),
        columns: v.get("Columns").and_then(|c| c.as_object()).map(
            |m| m.iter().map(|(k, cv)| (k.clone(), raw_column_of(cv))).collect(),
        ),
    })
}

/// Relies on serde_json::Value::get / as_str / as_u64 and Map iteration:
/// captures one column object field by field, its block statistics keyed
/// by the block index as it stands in the schema text. A conversion step
/// of `extract_schema`; what it yields is part of `raw_schema_of`.
#[verifier::external_body]
fn raw_column_of(v: &serde_json::Value) -> RawColumn {
    RawColumn {
        column_type: v.get("type").and_then(|t| t.as_str()).map(|s| s.to_string()),
        start_offset: v.get("start_offset").and_then(|x| x.as_u64()),
        num_blocks: v.get("num_blocks").and_then(|x| x.as_u64()),
        block_stats: v.get("block_stats").and_then(|b| b.as_object()).map(
            |m| m.iter().map(|(k, bv)| (k.clone(), raw_stats_of(bv))).collect(),
        ),
    }
}

/// Relies on serde_json::Value::get / as_u64: captures one block's
/// statistics object field by field. A conversion step of
/// `extract_schema`.
#[verifier::external_body]
fn raw_stats_of(v: &serde_json::Value) -> RawStats {
    RawStats {
        num: v.get("num").and_then(|x| x.as_u64()),
        min: v.get("min").map(|x| raw_value_of(x)),
        max: v.get("max").map(|x| raw_value_of(x)),
        min_len: v.get("min_len").and_then(|x| x.as_u64()),
        max_len: v.get("max_len").and_then(|x| x.as_u64()),
    }
}

/// Relies on serde_json::Value::as_i64 / as_str and serde_json::to_string:
/// captures one JSON value in every shape the schema may need it in. A
/// conversion step of `extract_schema`.
#[verifier::external_body]
fn raw_value_of(v: &serde_json::Value) -> RawValue {
    RawValue {
        as_int: v.as_i64(),
        as_text: v.as_str().map(|s| s.to_string()),
        literal: serde_json::to_string(v).unwrap_or_default(),
    }
}

/// Parses the schema text into validated metadata: reads the JSON, then
/// validates the raw shape. Text that is not a JSON document counts as
/// missing its required keys. Success comes exactly on text whose JSON
/// reading is well shaped, and the result is then pinned by the reading;
/// the first column with an unknown type string yields
/// `UnknownColumnType`, and every other violation `MissingField`.
pub fn parse_metadata(text: &str) -> (r: Result<Metadata, FormatError>)
    ensures
        (r is Ok) <==> (raw_schema_of(text@) matches Some(rs) && spec_raw_ok(rs)),
        r matches Ok(m) ==> spec_metadata_matches(raw_schema_of(text@).unwrap(), m) && m.wf(),
        (r == Err::<Metadata, FormatError>(FormatError::UnknownColumnType)) <==> (raw_schema_of(
            text@,
        ) matches Some(rs) && spec_header_ok(rs) && spec_unknown_type_first(rs)),
        r is Err ==> (r == Err::<Metadata, FormatError>(FormatError::MissingField) || r == Err::<
            Metadata,
            FormatError,
        >(FormatError::UnknownColumnType)),
{
    let rs = match extract_schema(text) {
        Some(rs) => rs,
        None => return Err(FormatError::MissingField),
    };
    let ghost rsg = rs;
    match metadata_from_raw(rs) {
        Ok(m) => {
            proof {
                assert forall|i: int, j: int|
                    0 <= i < j < m.columns@.len() implies (#[trigger] m.columns@[i]).0@ != (
                #[trigger] m.columns@[j]).0@ by {
                    assert(m.columns@[i].0 == rsg.columns.unwrap()@[i].0);
                    assert(m.columns@[j].0 == rsg.columns.unwrap()@[j].0);
                }
            }
            Ok(m)
        },
        Err(e) => Err(e),
    }
}

} // verus!
