use vstd::prelude::*;

verus! {

/// The three column types this format version knows.
#[derive(Debug, Clone, Copy, PartialEq, Eq, Structural)]
pub enum ColumnType {
    Int,
    Float,
    Str,
}

/// Which `ColumnType` a schema's `"type"` string denotes, if any.
pub open spec fn spec_column_type_of(s: Seq<char>) -> Option<ColumnType> {
    if s == "float"@ {
        Some(ColumnType::Float)
    } else if s == "int"@ {
        Some(ColumnType::Int)
    } else if s == "str"@ {
        Some(ColumnType::Str)
    } else {
        None
    }
}

/// The fixed storage width of one element of a column, in bytes: 4 for
/// `int` and `float`, 32 for `str` (strings are stored as fixed-width
/// 32-byte fields in this format version).
pub open spec fn spec_elem_size(t: ColumnType) -> u32 {
    match t {
        ColumnType::Int => 4,
        ColumnType::Float => 4,
        ColumnType::Str => 32,
    }
}

impl ColumnType {
    /// Decodes a schema `"type"` string; any string outside
    /// `{"float", "int", "str"}` has no column type.
    pub fn of_text(s: &String) -> (r: Option<ColumnType>)
        ensures
            r == spec_column_type_of(s@),
    {
        if String::eq(s, &"float".to_owned()) {
            Some(ColumnType::Float)
        } else if String::eq(s, &"int".to_owned()) {
            Some(ColumnType::Int)
        } else if String::eq(s, &"str".to_owned()) {
            Some(ColumnType::Str)
        } else {
            None
        }
    }

    /// The fixed storage width of one element, in bytes.
    pub fn elem_size(&self) -> (r: u32)
        ensures
            r == spec_elem_size(*self),
    {
        match self {
            ColumnType::Int => 4,
            ColumnType::Float => 4,
            ColumnType::Str => 32,
        }
    }
}

/// A block statistic value, tagged by the owning column's declared type.
///
/// The library stores no floating point: the `Float` variant keeps the
/// numeric literal exactly as it stands in the schema text, so a caller
/// that wants the number parses the text itself.
#[derive(Debug, Clone, PartialEq, Eq)]
pub enum TypedValue {
    Int(i64),
    Float(String),
    Str(String),
}

/// Per-block statistics of one column: how many values the block holds and
/// its minimum and maximum. `min_len` and `max_len` describe the logical
/// string lengths and are populated only for `str` columns.
#[derive(Debug, Clone, PartialEq, Eq)]
pub struct BlockStats {
    pub num: u32,
    pub min: TypedValue,
    pub max: TypedValue,
    pub min_len: Option<u32>,
    pub max_len: Option<u32>,
}

/// One column of the schema: its type, where its data starts in the raw
/// region, how many blocks it has, and per-block statistics keyed by the
/// block index as it stands in the schema text.
#[derive(Debug, Clone, PartialEq, Eq)]
pub struct Column {
    pub column_type: ColumnType,
    pub start_offset: usize,
    pub num_blocks: u32,
    pub block_stats: Vec<(String, BlockStats)>,
}

/// The decoded schema blob: table name, per-column schemas keyed by column
/// name, and the block capacity shared by all columns.
#[derive(Debug, Clone, PartialEq, Eq)]
pub struct Metadata {
    pub table: String,
    pub columns: Vec<(String, Column)>,
    pub max_values_per_block: u32,
}

impl Metadata {
    /// A decoded schema always has at least one column, and no column name
    /// appears twice.
    pub open spec fn wf(self) -> bool {
        &&& self.columns@.len() > 0
        &&& forall|i: int, j: int|
            0 <= i < j < self.columns@.len() ==> self.columns@[i].0@ != self.columns@[j].0@
    }
}

/// The decode-time summary of one column: its name, type and fixed element
/// width in bytes.
#[derive(Debug, Clone, PartialEq, Eq)]
pub struct ColumnMeta {
    pub column_name: String,
    pub column_type: ColumnType,
    pub elem_size: u32,
}

impl ColumnMeta {
    /// A summary is well formed when its element width is the one its type
    /// fixes.
    pub open spec fn wf(self) -> bool {
        self.elem_size == spec_elem_size(self.column_type)
    }

    /// Summarises one named column of the schema.
    pub fn of_column(name: &String, col: &Column) -> (r: ColumnMeta)
        ensures
            r.column_name == name,
            r.column_type == col.column_type,
            r.wf(),
    {
        ColumnMeta {
            column_name: name.clone(),
            column_type: col.column_type,
            elem_size: col.column_type.elem_size(),
        }
    }
}

} // verus!
