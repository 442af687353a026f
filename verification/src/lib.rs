//! Extractor side of a heterogeneous data-replication pipeline: the typed row
//! model, the bounded buffer between extractor and sinker, table and column
//! routing, the check-log extractor, the struct extractor and the row
//! comparison rules, each with a machine-checked contract.

pub mod text;
pub mod error;
pub mod col_value;
pub mod row_data;
pub mod dt_data;
pub mod buffer;
pub mod router;
pub mod config;
pub mod filter;
pub mod compare;
pub mod struct_extractor;
pub mod check_log;
pub mod pg_meta;
pub mod pg_meta_manager;
pub mod rdb_query_builder;
pub mod check_extractor;
pub mod tb_name;
