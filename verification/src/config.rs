//! The parts of a task's configuration that the pipeline's rules read.

use vstd::prelude::*;

verus! {

/// The engine on one side of a task.
#[derive(Clone, Copy, Debug, PartialEq, Eq, Structural, Hash)]
pub enum DbType {
    Mysql,
    Pg,
    Starrocks,
    Doris,
    Foxlake,
}

} // verus!
