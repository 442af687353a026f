//! The check log: suspected differences between source and destination,
//! recorded by an earlier pass, one row per entry.

use vstd::prelude::*;
use crate::error::Error;

verus! {

/// What an earlier pass found wrong with a row.
#[derive(Clone, Copy, Debug, PartialEq, Eq, Structural, Hash)]
pub enum LogType {
    /// The row is missing at the destination.
    Miss,
    /// The row differs at the destination.
    Diff,
}

/// One entry of a check log: the key columns of a row and their values as
/// text. A value may be absent, which is not the same as empty text.
#[derive(Clone, Debug, PartialEq, Eq)]
pub struct CheckLog {
    pub schema: String,
    pub tb: String,
    pub log_type: LogType,
    pub cols: Vec<String>,
    pub col_values: Vec<Option<String>>,
}

/// Whether two entries belong to the same batch: same schema, same table
/// and same kind.
pub open spec fn same_group(a: CheckLog, b: CheckLog) -> bool {
    a.schema@ == b.schema@ && a.tb@ == b.tb@ && a.log_type == b.log_type
}

/// Whether `end` is where the batch that starts at `start` ends: the batch
/// holds between one and `batch_size` contiguous entries of the same group
/// as its first, and stops only at the end of the log, at `batch_size`
/// entries, or in front of an entry of another group.
pub open spec fn is_batch_end(logs: Seq<CheckLog>, start: int, batch_size: int, end: int) -> bool {
    &&& start < end <= logs.len()
    &&& end - start <= batch_size
    &&& forall|i: int| start <= i < end ==> same_group(logs[start], #[trigger] logs[i])
    &&& (end == logs.len() || end - start == batch_size || !same_group(logs[start], logs[end]))
}

/// A batch has one end only.
pub proof fn lemma_batch_end_unique(logs: Seq<CheckLog>, start: int, batch_size: int, a: int, b: int)
    requires
        is_batch_end(logs, start, batch_size, a),
        is_batch_end(logs, start, batch_size, b),
    ensures
        a == b,
{
    if a < b {
        assert(same_group(logs[start], logs[a]));
    } else if b < a {
        assert(same_group(logs[start], logs[b]));
    }
}

fn in_same_group(a: &CheckLog, b: &CheckLog) -> (r: bool)
    ensures
        r == same_group(*a, *b),
{
    a.schema == b.schema && a.tb == b.tb && a.log_type == b.log_type
}

/// Where the batch that starts at `start` ends.
///
/// Returns `Error::Config` exactly when `batch_size` is zero or `start` is
/// not the index of an entry.
pub fn next_batch_end(logs: &Vec<CheckLog>, start: usize, batch_size: usize) -> (r: Result<usize, Error>)
    ensures
        match r {
            Ok(end) => is_batch_end(logs@, start as int, batch_size as int, end as int),
            Err(e) => e == Error::Config && (batch_size == 0 || start >= logs@.len()),
        },
{
    if batch_size == 0 || start >= logs.len() {
        return Err(Error::Config);
    }
    let mut end: usize = start + 1;
    while end < logs.len() && end - start < batch_size && in_same_group(&logs[start], &logs[end])
        invariant
            start < end <= logs.len(),
            end - start <= batch_size,
            forall|i: int| start <= i < end ==> same_group(logs@[start as int], #[trigger] logs@[i]),
        decreases logs.len() - end,
    {
        end = end + 1;
    }
    Ok(end)
}

} // verus!
