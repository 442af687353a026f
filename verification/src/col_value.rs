//! The engine-neutral column value.

use vstd::prelude::*;
use crate::text::{bytes_to_hex, hex_text, i64_to_string, int_text, nat_text, u64_to_string};

verus! {

/// One column value, as a closed tagged union over what the supported
/// engines can express.
///
/// Floating-point values are held as the decimal text the source rendered
/// them with; a value that is not a number is held as the text `NaN`.
#[derive(Clone, Debug, PartialEq, Eq, Hash)]
pub enum ColValue {
    Null,
    Bool(bool),
    Tiny(i8),
    UnsignedTiny(u8),
    Short(i16),
    UnsignedShort(u16),
    Long(i32),
    UnsignedLong(u32),
    LongLong(i64),
    UnsignedLongLong(u64),
    Year(u16),
    Float(String),
    Double(String),
    Decimal(String),
    Time(String),
    Date(String),
    DateTime(String),
    Timestamp(String),
    String(String),
    Json(String),
    Blob(Vec<u8>),
}

/// The mathematical value of a `ColValue`.
pub enum ColValueView {
    Null,
    Bool(bool),
    Tiny(i8),
    UnsignedTiny(u8),
    Short(i16),
    UnsignedShort(u16),
    Long(i32),
    UnsignedLong(u32),
    LongLong(i64),
    UnsignedLongLong(u64),
    Year(u16),
    Float(Seq<char>),
    Double(Seq<char>),
    Decimal(Seq<char>),
    Time(Seq<char>),
    Date(Seq<char>),
    DateTime(Seq<char>),
    Timestamp(Seq<char>),
    String(Seq<char>),
    Json(Seq<char>),
    Blob(Seq<u8>),
}

impl View for ColValue {
    type V = ColValueView;

    open spec fn view(&self) -> ColValueView {
        match self {
            ColValue::Null => ColValueView::Null,
            ColValue::Bool(b) => ColValueView::Bool(*b),
            ColValue::Tiny(v) => ColValueView::Tiny(*v),
            ColValue::UnsignedTiny(v) => ColValueView::UnsignedTiny(*v),
            ColValue::Short(v) => ColValueView::Short(*v),
            ColValue::UnsignedShort(v) => ColValueView::UnsignedShort(*v),
            ColValue::Long(v) => ColValueView::Long(*v),
            ColValue::UnsignedLong(v) => ColValueView::UnsignedLong(*v),
            ColValue::LongLong(v) => ColValueView::LongLong(*v),
            ColValue::UnsignedLongLong(v) => ColValueView::UnsignedLongLong(*v),
            ColValue::Year(v) => ColValueView::Year(*v),
            ColValue::Float(s) => ColValueView::Float(s@),
            ColValue::Double(s) => ColValueView::Double(s@),
            ColValue::Decimal(s) => ColValueView::Decimal(s@),
            ColValue::Time(s) => ColValueView::Time(s@),
            ColValue::Date(s) => ColValueView::Date(s@),
            ColValue::DateTime(s) => ColValueView::DateTime(s@),
            ColValue::Timestamp(s) => ColValueView::Timestamp(s@),
            ColValue::String(s) => ColValueView::String(s@),
            ColValue::Json(s) => ColValueView::Json(s@),
            ColValue::Blob(b) => ColValueView::Blob(b@),
        }
    }
}

impl ColValueView {
    /// Whether the value is a floating-point value that is not a number.
    pub open spec fn is_nan(self) -> bool {
        match self {
            ColValueView::Float(s) => s == "NaN"@,
            ColValueView::Double(s) => s == "NaN"@,
            _ => false,
        }
    }

    /// The string projection used to compare values across engines: nothing
    /// for `Null`, decimal text for integers, lower-case hexadecimal for
    /// binary, and the held text for everything else.
    pub open spec fn option_text(self) -> Option<Seq<char>> {
        match self {
            ColValueView::Null => None,
            ColValueView::Bool(b) => Some(
                if b {
                    "true"@
                } else {
                    "false"@
                },
            ),
            ColValueView::Tiny(v) => Some(int_text(v as int)),
            ColValueView::UnsignedTiny(v) => Some(nat_text(v as nat)),
            ColValueView::Short(v) => Some(int_text(v as int)),
            ColValueView::UnsignedShort(v) => Some(nat_text(v as nat)),
            ColValueView::Long(v) => Some(int_text(v as int)),
            ColValueView::UnsignedLong(v) => Some(nat_text(v as nat)),
            ColValueView::LongLong(v) => Some(int_text(v as int)),
            ColValueView::UnsignedLongLong(v) => Some(nat_text(v as nat)),
            ColValueView::Year(v) => Some(nat_text(v as nat)),
            ColValueView::Float(s) => Some(s),
            ColValueView::Double(s) => Some(s),
            ColValueView::Decimal(s) => Some(s),
            ColValueView::Time(s) => Some(s),
            ColValueView::Date(s) => Some(s),
            ColValueView::DateTime(s) => Some(s),
            ColValueView::Timestamp(s) => Some(s),
            ColValueView::String(s) => Some(s),
            ColValueView::Json(s) => Some(s),
            ColValueView::Blob(b) => Some(hex_text(b)),
        }
    }
}

fn text_is_nan(s: &String) -> (r: bool)
    ensures
        r == (s@ == "NaN"@),
{
    let nan = String::from_str("NaN");
    *s == nan
}

fn bytes_equal(a: &Vec<u8>, b: &Vec<u8>) -> (r: bool)
    ensures
        r == (a@ == b@),
{
    if a.len() != b.len() {
        return false;
    }
    let mut i: usize = 0;
    while i < a.len()
        invariant
            a.len() == b.len(),
            i <= a.len(),
            forall|j: int| 0 <= j < i ==> a@[j] == b@[j],
        decreases a.len() - i,
    {
        if a[i] != b[i] {
            return false;
        }
        i = i + 1;
    }
    assert(a@ =~= b@);
    true
}

impl ColValue {
    /// Whether the value is a floating-point value that is not a number.
    pub fn is_nan(&self) -> (r: bool)
        ensures
            r == self@.is_nan(),
    {
        match self {
            ColValue::Float(s) => text_is_nan(s),
            ColValue::Double(s) => text_is_nan(s),
            _ => false,
        }
    }

    /// The value's own equality: same tag and same payload.
    pub fn same(&self, other: &ColValue) -> (r: bool)
        ensures
            r == (self@ == other@),
    {
        match (self, other) {
            (ColValue::Null, ColValue::Null) => true,
            (ColValue::Bool(a), ColValue::Bool(b)) => *a == *b,
            (ColValue::Tiny(a), ColValue::Tiny(b)) => *a == *b,
            (ColValue::UnsignedTiny(a), ColValue::UnsignedTiny(b)) => *a == *b,
            (ColValue::Short(a), ColValue::Short(b)) => *a == *b,
            (ColValue::UnsignedShort(a), ColValue::UnsignedShort(b)) => *a == *b,
            (ColValue::Long(a), ColValue::Long(b)) => *a == *b,
            (ColValue::UnsignedLong(a), ColValue::UnsignedLong(b)) => *a == *b,
            (ColValue::LongLong(a), ColValue::LongLong(b)) => *a == *b,
            (ColValue::UnsignedLongLong(a), ColValue::UnsignedLongLong(b)) => *a == *b,
            (ColValue::Year(a), ColValue::Year(b)) => *a == *b,
            (ColValue::Float(a), ColValue::Float(b)) => *a == *b,
            (ColValue::Double(a), ColValue::Double(b)) => *a == *b,
            (ColValue::Decimal(a), ColValue::Decimal(b)) => *a == *b,
            (ColValue::Time(a), ColValue::Time(b)) => *a == *b,
            (ColValue::Date(a), ColValue::Date(b)) => *a == *b,
            (ColValue::DateTime(a), ColValue::DateTime(b)) => *a == *b,
            (ColValue::Timestamp(a), ColValue::Timestamp(b)) => *a == *b,
            (ColValue::String(a), ColValue::String(b)) => *a == *b,
            (ColValue::Json(a), ColValue::Json(b)) => *a == *b,
            (ColValue::Blob(a), ColValue::Blob(b)) => bytes_equal(a, b),
            _ => false,
        }
    }

    /// The string projection used to compare values across engines.
    pub fn to_option_string(&self) -> (r: Option<String>)
        ensures
            match r {
                Some(s) => self@.option_text() == Some(s@),
                None => self@.option_text().is_none(),
            },
    {
        match self {
            ColValue::Null => None,
            ColValue::Bool(b) => Some(
                if *b {
                    String::from_str("true")
                } else {
                    String::from_str("false")
                },
            ),
            ColValue::Tiny(v) => Some(i64_to_string(*v as i64)),
            ColValue::UnsignedTiny(v) => Some(u64_to_string(*v as u64)),
            ColValue::Short(v) => Some(i64_to_string(*v as i64)),
            ColValue::UnsignedShort(v) => Some(u64_to_string(*v as u64)),
            ColValue::Long(v) => Some(i64_to_string(*v as i64)),
            ColValue::UnsignedLong(v) => Some(u64_to_string(*v as u64)),
            ColValue::LongLong(v) => Some(i64_to_string(*v)),
            ColValue::UnsignedLongLong(v) => Some(u64_to_string(*v)),
            ColValue::Year(v) => Some(u64_to_string(*v as u64)),
            ColValue::Float(s) => Some(s.clone()),
            ColValue::Double(s) => Some(s.clone()),
            ColValue::Decimal(s) => Some(s.clone()),
            ColValue::Time(s) => Some(s.clone()),
            ColValue::Date(s) => Some(s.clone()),
            ColValue::DateTime(s) => Some(s.clone()),
            ColValue::Timestamp(s) => Some(s.clone()),
            ColValue::String(s) => Some(s.clone()),
            ColValue::Json(s) => Some(s.clone()),
            ColValue::Blob(b) => Some(bytes_to_hex(b)),
        }
    }

    /// A copy with the same value.
    pub fn duplicate(&self) -> (r: ColValue)
        ensures
            r@ == self@,
    {
        match self {
            ColValue::Null => ColValue::Null,
            ColValue::Bool(b) => ColValue::Bool(*b),
            ColValue::Tiny(v) => ColValue::Tiny(*v),
            ColValue::UnsignedTiny(v) => ColValue::UnsignedTiny(*v),
            ColValue::Short(v) => ColValue::Short(*v),
            ColValue::UnsignedShort(v) => ColValue::UnsignedShort(*v),
            ColValue::Long(v) => ColValue::Long(*v),
            ColValue::UnsignedLong(v) => ColValue::UnsignedLong(*v),
            ColValue::LongLong(v) => ColValue::LongLong(*v),
            ColValue::UnsignedLongLong(v) => ColValue::UnsignedLongLong(*v),
            ColValue::Year(v) => ColValue::Year(*v),
            ColValue::Float(s) => ColValue::Float(s.clone()),
            ColValue::Double(s) => ColValue::Double(s.clone()),
            ColValue::Decimal(s) => ColValue::Decimal(s.clone()),
            ColValue::Time(s) => ColValue::Time(s.clone()),
            ColValue::Date(s) => ColValue::Date(s.clone()),
            ColValue::DateTime(s) => ColValue::DateTime(s.clone()),
            ColValue::Timestamp(s) => ColValue::Timestamp(s.clone()),
            ColValue::String(s) => ColValue::String(s.clone()),
            ColValue::Json(s) => ColValue::Json(s.clone()),
            ColValue::Blob(b) => ColValue::Blob(b.clone()),
        }
    }
}

} // verus!
