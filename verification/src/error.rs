use vstd::prelude::*;

verus! {

/// Why planning a remote scan failed.
#[derive(Debug, Clone, PartialEq, Eq)]
pub enum ExecError {
    /// Two schemas do not fit: the transform gave no schema, in which
    /// case its own words are carried, or one whose column count differs
    /// from the declared schema's, or a filter names a column that has no
    /// counterpart at its position.
    SchemaMismatch(String),
    /// A filter names a column that the schema it is written against lacks.
    ColumnNotFound(String),
    /// A projection position lies outside the schema it selects from.
    ProjectionOutOfBounds(usize),
}

/// Mathematical value of an [`ExecError`].
pub enum ExecErrorModel {
    SchemaMismatch(Seq<char>),
    ColumnNotFound(Seq<char>),
    ProjectionOutOfBounds(usize),
}

impl View for ExecError {
    type V = ExecErrorModel;

    open spec fn view(&self) -> ExecErrorModel {
        match self {
            ExecError::SchemaMismatch(reason) => ExecErrorModel::SchemaMismatch(reason@),
            ExecError::ColumnNotFound(name) => ExecErrorModel::ColumnNotFound(name@),
            ExecError::ProjectionOutOfBounds(index) => ExecErrorModel::ProjectionOutOfBounds(
                *index,
            ),
        }
    }
}

} // verus!
