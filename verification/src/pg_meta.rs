//! What the check extractor knows of a PostgreSQL table, and how text
//! becomes a typed value of one of its columns.

use vstd::prelude::*;
use crate::col_value::{ColValue, ColValueView};
use crate::error::Error;
use crate::text::{parse_i64, parse_int};

verus! {

/// The type of a PostgreSQL column, as far as decoding needs it.
#[derive(Clone, Copy, Debug, PartialEq, Eq, Structural, Hash)]
pub enum PgColType {
    Bool,
    Int2,
    Int4,
    Int8,
    Float4,
    Float8,
    Numeric,
    Text,
    Date,
    Time,
    Timestamp,
    Json,
}

/// The column type that a type name of the catalogue stands for. A name
/// that decoding has no special rule for is read as text.
pub open spec fn type_of_name(name: Seq<char>) -> PgColType {
    if name == "bool"@ {
        PgColType::Bool
    } else if name == "int2"@ {
        PgColType::Int2
    } else if name == "int4"@ {
        PgColType::Int4
    } else if name == "int8"@ {
        PgColType::Int8
    } else if name == "float4"@ {
        PgColType::Float4
    } else if name == "float8"@ {
        PgColType::Float8
    } else if name == "numeric"@ {
        PgColType::Numeric
    } else if name == "date"@ {
        PgColType::Date
    } else if name == "time"@ || name == "timetz"@ {
        PgColType::Time
    } else if name == "timestamp"@ || name == "timestamptz"@ {
        PgColType::Timestamp
    } else if name == "json"@ || name == "jsonb"@ {
        PgColType::Json
    } else {
        PgColType::Text
    }
}

/// One column of a table.
#[derive(Clone, Debug, PartialEq, Eq)]
pub struct PgColMeta {
    pub name: String,
    pub col_type: PgColType,
}

/// The schema of one table: its columns in order, and the columns of the
/// key by which a row is found again.
#[derive(Clone, Debug, PartialEq, Eq)]
pub struct PgTbMeta {
    pub schema: String,
    pub tb: String,
    pub cols: Vec<PgColMeta>,
    pub key_cols: Vec<String>,
}

/// The type of the first column named `col` in `cols[from..]`, if any.
pub open spec fn col_type_from(cols: Seq<PgColMeta>, from: int, col: Seq<char>) -> Option<PgColType>
    decreases cols.len() - from,
{
    if from < 0 || from >= cols.len() {
        None
    } else if cols[from].name@ == col {
        Some(cols[from].col_type)
    } else {
        col_type_from(cols, from + 1, col)
    }
}

impl PgTbMeta {
    /// The type of column `col`, if the table has it.
    pub open spec fn col_type_spec(&self, col: Seq<char>) -> Option<PgColType> {
        col_type_from(self.cols@, 0, col)
    }

    /// The type of column `col`, if the table has it.
    pub fn col_type(&self, col: &String) -> (r: Option<PgColType>)
        ensures
            r == self.col_type_spec(col@),
    {
        let mut i: usize = 0;
        while i < self.cols.len()
            invariant
                i <= self.cols.len(),
                col_type_from(self.cols@, 0, col@) == col_type_from(self.cols@, i as int, col@),
            decreases self.cols.len() - i,
        {
            if self.cols[i].name == *col {
                return Some(self.cols[i].col_type);
            }
            i = i + 1;
        }
        None
    }
}

/// The integer that `text` stands for, if it lies between `low` and `high`.
pub open spec fn int_in_range(text: Seq<char>, low: int, high: int) -> Option<int> {
    match parse_int(text) {
        Some(v) => if low <= v <= high {
            Some(v)
        } else {
            None
        },
        None => None,
    }
}

/// The typed value that `text` stands for in a column of type `col_type`,
/// or `Error::Decode` where it stands for none.
///
/// Booleans are written `t`, `true`, `f` or `false`; integers in decimal
/// and within the range of their width; every other type keeps its text.
pub open spec fn typed_value(col_type: PgColType, text: Seq<char>) -> Result<ColValueView, Error> {
    match col_type {
        PgColType::Bool => if text == "t"@ || text == "true"@ {
            Ok(ColValueView::Bool(true))
        } else if text == "f"@ || text == "false"@ {
            Ok(ColValueView::Bool(false))
        } else {
            Err(Error::Decode)
        },
        PgColType::Int2 => match int_in_range(text, i16::MIN as int, i16::MAX as int) {
            Some(v) => Ok(ColValueView::Short(v as i16)),
            None => Err(Error::Decode),
        },
        PgColType::Int4 => match int_in_range(text, i32::MIN as int, i32::MAX as int) {
            Some(v) => Ok(ColValueView::Long(v as i32)),
            None => Err(Error::Decode),
        },
        PgColType::Int8 => match int_in_range(text, i64::MIN as int, i64::MAX as int) {
            Some(v) => Ok(ColValueView::LongLong(v as i64)),
            None => Err(Error::Decode),
        },
        PgColType::Float4 => Ok(ColValueView::Float(text)),
        PgColType::Float8 => Ok(ColValueView::Double(text)),
        PgColType::Numeric => Ok(ColValueView::Decimal(text)),
        PgColType::Text => Ok(ColValueView::String(text)),
        PgColType::Date => Ok(ColValueView::Date(text)),
        PgColType::Time => Ok(ColValueView::Time(text)),
        PgColType::Timestamp => Ok(ColValueView::Timestamp(text)),
        PgColType::Json => Ok(ColValueView::Json(text)),
    }
}

/// What the outcome of a conversion says in terms of mathematical values.
pub open spec fn value_result_view(r: Result<ColValue, Error>) -> Result<ColValueView, Error> {
    match r {
        Ok(v) => Ok(v@),
        Err(e) => Err(e),
    }
}

fn text_is(text: &String, word: &str) -> (r: bool)
    ensures
        r == (text@ == word@),
{
    let w = String::from_str(word);
    *text == w
}

impl PgColType {
    /// The column type that a type name of the catalogue stands for.
    pub fn from_type_name(name: &String) -> (r: PgColType)
        ensures
            r == type_of_name(name@),
    {
        if text_is(name, "bool") {
            PgColType::Bool
        } else if text_is(name, "int2") {
            PgColType::Int2
        } else if text_is(name, "int4") {
            PgColType::Int4
        } else if text_is(name, "int8") {
            PgColType::Int8
        } else if text_is(name, "float4") {
            PgColType::Float4
        } else if text_is(name, "float8") {
            PgColType::Float8
        } else if text_is(name, "numeric") {
            PgColType::Numeric
        } else if text_is(name, "date") {
            PgColType::Date
        } else if text_is(name, "time") || text_is(name, "timetz") {
            PgColType::Time
        } else if text_is(name, "timestamp") || text_is(name, "timestamptz") {
            PgColType::Timestamp
        } else if text_is(name, "json") || text_is(name, "jsonb") {
            PgColType::Json
        } else {
            PgColType::Text
        }
    }
}

/// The converter from text to typed PostgreSQL column values.
pub struct PgColValueConvertor {}

impl PgColValueConvertor {
    /// The typed value that `value_str` stands for in a column of type
    /// `col_type`.
    pub fn from_str(col_type: &PgColType, value_str: &String) -> (r: Result<ColValue, Error>)
        ensures
            value_result_view(r) == typed_value(*col_type, value_str@),
    {
        match col_type {
            PgColType::Bool => {
                if text_is(value_str, "t") || text_is(value_str, "true") {
                    Ok(ColValue::Bool(true))
                } else if text_is(value_str, "f") || text_is(value_str, "false") {
                    Ok(ColValue::Bool(false))
                } else {
                    Err(Error::Decode)
                }
            },
            PgColType::Int2 => match parse_i64(value_str) {
                Some(v) => if -32768 <= v && v <= 32767 {
                    Ok(ColValue::Short(v as i16))
                } else {
                    Err(Error::Decode)
                },
                None => Err(Error::Decode),
            },
            PgColType::Int4 => match parse_i64(value_str) {
                Some(v) => if -2147483648 <= v && v <= 2147483647 {
                    Ok(ColValue::Long(v as i32))
                } else {
                    Err(Error::Decode)
                },
                None => Err(Error::Decode),
            },
            PgColType::Int8 => match parse_i64(value_str) {
                Some(v) => Ok(ColValue::LongLong(v)),
                None => Err(Error::Decode),
            },
            PgColType::Float4 => Ok(ColValue::Float(value_str.clone())),
            PgColType::Float8 => Ok(ColValue::Double(value_str.clone())),
            PgColType::Numeric => Ok(ColValue::Decimal(value_str.clone())),
            PgColType::Text => Ok(ColValue::String(value_str.clone())),
            PgColType::Date => Ok(ColValue::Date(value_str.clone())),
            PgColType::Time => Ok(ColValue::Time(value_str.clone())),
            PgColType::Timestamp => Ok(ColValue::Timestamp(value_str.clone())),
            PgColType::Json => Ok(ColValue::Json(value_str.clone())),
        }
    }
}

} // verus!
