//! What travels through the buffer: row changes, schema changes, heartbeats
//! and commit markers, each with the position it was read at.

use vstd::prelude::*;
use crate::row_data::{RowData, RowDataView};

verus! {

/// The kind of schema object a `StructModel` describes.
#[derive(Clone, Copy, Debug, PartialEq, Eq, Structural, Hash)]
pub enum StructKind {
    Table,
    Index,
    Constraint,
}

/// One schema object, as read from the source's catalogue.
#[derive(Clone, Debug, PartialEq, Eq)]
pub struct StructModel {
    pub kind: StructKind,
    pub schema: String,
    pub tb: String,
    pub name: String,
    pub definition: String,
}

/// The mathematical value of a `StructModel`.
pub struct StructModelView {
    pub kind: StructKind,
    pub schema: Seq<char>,
    pub tb: Seq<char>,
    pub name: Seq<char>,
    pub definition: Seq<char>,
}

impl View for StructModel {
    type V = StructModelView;

    open spec fn view(&self) -> StructModelView {
        StructModelView {
            kind: self.kind,
            schema: self.schema@,
            tb: self.tb@,
            name: self.name@,
            definition: self.definition@,
        }
    }
}

/// The kind of a schema change.
#[derive(Clone, Copy, Debug, PartialEq, Eq, Structural, Hash)]
pub enum DdlType {
    CreateSchema,
    DropSchema,
    CreateTable,
    AlterTable,
    DropTable,
    TruncateTable,
    RenameTable,
    Unknown,
}

/// One schema change.
#[derive(Clone, Debug, PartialEq, Eq)]
pub struct DdlData {
    pub schema: String,
    pub query: String,
    pub meta: Option<StructModel>,
    pub ddl_type: DdlType,
}

/// The mathematical value of a `DdlData`.
pub struct DdlDataView {
    pub schema: Seq<char>,
    pub query: Seq<char>,
    pub meta: Option<StructModelView>,
    pub ddl_type: DdlType,
}

impl View for DdlData {
    type V = DdlDataView;

    open spec fn view(&self) -> DdlDataView {
        DdlDataView {
            schema: self.schema@,
            query: self.query@,
            meta: match self.meta {
                Some(m) => Some(m@),
                None => None,
            },
            ddl_type: self.ddl_type,
        }
    }
}

/// Where in the source's change stream an item was read: an engine-opaque
/// token, or nothing for items that carry no progress.
#[derive(Clone, Debug, PartialEq, Eq)]
pub enum Position {
    Unset,
    Token(String),
}

impl View for Position {
    type V = Option<Seq<char>>;

    open spec fn view(&self) -> Option<Seq<char>> {
        match self {
            Position::Unset => None,
            Position::Token(t) => Some(t@),
        }
    }
}

/// The payload of a buffer element.
#[derive(Clone, Debug, PartialEq, Eq)]
pub enum DtData {
    Dml { row_data: RowData },
    Ddl { ddl_data: DdlData },
    Heartbeat,
    Commit { xid: String },
}

/// The mathematical value of a `DtData`.
pub enum DtDataView {
    Dml { row_data: RowDataView },
    Ddl { ddl_data: DdlDataView },
    Heartbeat,
    Commit { xid: Seq<char> },
}

impl View for DtData {
    type V = DtDataView;

    open spec fn view(&self) -> DtDataView {
        match self {
            DtData::Dml { row_data } => DtDataView::Dml { row_data: row_data@ },
            DtData::Ddl { ddl_data } => DtDataView::Ddl { ddl_data: ddl_data@ },
            DtData::Heartbeat => DtDataView::Heartbeat,
            DtData::Commit { xid } => DtDataView::Commit { xid: xid@ },
        }
    }
}

/// One buffer element.
#[derive(Clone, Debug, PartialEq, Eq)]
pub struct DtItem {
    pub dt_data: DtData,
    pub position: Position,
}

/// The mathematical value of a `DtItem`.
pub struct DtItemView {
    pub dt_data: DtDataView,
    pub position: Option<Seq<char>>,
}

impl View for DtItem {
    type V = DtItemView;

    open spec fn view(&self) -> DtItemView {
        DtItemView { dt_data: self.dt_data@, position: self.position@ }
    }
}

} // verus!
