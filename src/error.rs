use vstd::prelude::*;

use crate::table::Table;

verus! {

/// Every failure that the pipeline surfaces to its caller.
#[derive(Debug, Clone, PartialEq, Eq, Structural)]
pub enum DbgenError {
    /// `step` was greater than `n_steps`; detected before any side effect.
    InvalidPartition { step: usize, n_steps: usize },
    /// Creating, seeding or removing the temporary workspace failed.
    WorkspaceError,
    /// The generator returned a non-zero status.
    GenerationFailed { code: i32 },
    /// A name outside the closed table catalog.
    UnknownTable,
    /// A schema was requested for one of the two composite selectors.
    NoSchemaForCompositeTable { table: Table },
    /// A shard of `table` (its position among the table's files is `file`)
    /// could not be parsed under the table's schema; `line` is the line that
    /// the parser's message names, where it names one.
    RowParseError { table: Table, file: usize, line: Option<u64> },
}

} // verus!
