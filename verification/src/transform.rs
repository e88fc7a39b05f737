use crate::error::{ExecError, ExecErrorModel};
use crate::schema::{FieldModel, Schema, schema_result_model};
use vstd::prelude::*;

verus! {

/// A mapping from the batches a remote source returns to the shape a
/// table declares. The scan itself only asks it for the schema of what
/// it produces.
pub trait Transform {
    /// The schema of the batches this transform produces for a table
    /// declared as `declared`, given the schema of the remote source
    /// where it is known; or, where it cannot produce one, the reason in
    /// its own words.
    fn transform_schema(&self, declared: &Schema, remote: Option<&Schema>) -> Result<
        Schema,
        String,
    >;
}

/// Mathematical value of an optional schema.
pub open spec fn optional_schema_model(schema: Option<Schema>) -> Option<Seq<FieldModel>> {
    match schema {
        None => None,
        Some(s) => Some(s@),
    }
}

/// Mathematical value of an optional borrowed schema.
pub open spec fn borrowed_schema_model(schema: Option<&Schema>) -> Option<Seq<FieldModel>> {
    match schema {
        None => None,
        Some(s) => Some(s@),
    }
}

/// Mathematical value of what a transform answers.
pub open spec fn answer_model(answer: Result<Schema, String>) -> Result<
    Seq<FieldModel>,
    Seq<char>,
> {
    match answer {
        Ok(s) => Ok(s@),
        Err(reason) => Err(reason@),
    }
}

/// What was learned of the transformed schema: nothing was asked where no
/// transform is configured; else `mapped` holds what the transform
/// answered when asked for a table declared with the columns `declared`
/// and a remote source known to have the columns `remote`.
pub open spec fn transform_answered<T: Transform>(
    transform: Option<&T>,
    declared: Seq<FieldModel>,
    remote: Option<Seq<FieldModel>>,
    mapped: Option<Result<Seq<FieldModel>, Seq<char>>>,
) -> bool {
    match transform {
        None => mapped is None,
        Some(t) => exists|d: &Schema, r: Option<&Schema>, answer: Result<Schema, String>|
            {
                &&& d@ == declared
                &&& borrowed_schema_model(r) == remote
                &&& #[trigger] call_ensures(T::transform_schema, (t, d, r), answer)
                &&& mapped == Some(answer_model(answer))
            },
    }
}

/// Mathematical value of what a transform was asked and answered.
pub open spec fn mapped_model(mapped: Option<Result<Schema, String>>) -> Option<
    Result<Seq<FieldModel>, Seq<char>>,
> {
    match mapped {
        None => None,
        Some(answer) => Some(answer_model(answer)),
    }
}

/// What is said of a transform whose schema has another column count
/// than the declared schema.
pub open spec fn other_count_text() -> Seq<char> {
    "the transform's schema has another column count than the table's"@
}

/// The schema that the transform stage delivers: the declared one where
/// no transform is configured, else the transform's own, which must have
/// as many columns as the declared one. Where the transform gives no
/// schema, its reason is carried in the mismatch.
pub open spec fn reconciled(
    declared: Seq<FieldModel>,
    mapped: Option<Result<Seq<FieldModel>, Seq<char>>>,
) -> Result<Seq<FieldModel>, ExecErrorModel> {
    match mapped {
        None => Ok(declared),
        Some(Err(reason)) => Err(ExecErrorModel::SchemaMismatch(reason)),
        Some(Ok(columns)) => if columns.len() == declared.len() {
            Ok(columns)
        } else {
            Err(ExecErrorModel::SchemaMismatch(other_count_text()))
        },
    }
}

/// Whatever the transform answers, a reconciled schema has as many
/// columns as the declared one, and is the declared one itself where no
/// transform is configured.
pub proof fn lemma_reconciled_count(
    declared: Seq<FieldModel>,
    mapped: Option<Result<Seq<FieldModel>, Seq<char>>>,
)
    ensures
        reconciled(declared, mapped) matches Ok(columns) ==> columns.len() == declared.len(),
        mapped is None ==> reconciled(declared, mapped) == Ok::<_, ExecErrorModel>(declared),
{
}

/// Settles the transformed schema from what the transform answered.
pub fn reconcile_schema(declared: &Schema, mapped: Option<Result<Schema, String>>) -> (r: Result<
    Schema,
    ExecError,
>)
    ensures
        schema_result_model(r) == reconciled(declared@, mapped_model(mapped)),
{
    match mapped {
        None => Ok(declared.clone()),
        Some(Err(reason)) => Err(ExecError::SchemaMismatch(reason)),
        Some(Ok(columns)) => {
            if columns.len() == declared.len() {
                Ok(columns)
            } else {
                Err(
                    ExecError::SchemaMismatch(
                        "the transform's schema has another column count than the table's".to_owned(),
                    ),
                )
            }
        },
    }
}

/// Asks the transform, if there is one, for the schema it produces.
pub fn ask_transform<T: Transform>(
    declared: &Schema,
    transform: Option<&T>,
    remote: Option<&Schema>,
) -> (mapped: Option<Result<Schema, String>>)
    ensures
        transform_answered(
            transform,
            declared@,
            borrowed_schema_model(remote),
            mapped_model(mapped),
        ),
{
    match transform {
        None => None,
        Some(t) => Some(t.transform_schema(declared, remote)),
    }
}

/// The schema of what the transform stage delivers for a table declared
/// as `declared`: the declared schema itself where no transform is
/// configured, else what the transform answers, which must have as many
/// columns as the declared schema.
pub fn transformed_schema<T: Transform>(
    declared: &Schema,
    transform: Option<&T>,
    remote: Option<&Schema>,
) -> (r: Result<Schema, ExecError>)
    ensures
        exists|mapped: Option<Result<Seq<FieldModel>, Seq<char>>>| #[trigger]
            transform_answered(transform, declared@, borrowed_schema_model(remote), mapped)
                && schema_result_model(r) == reconciled(declared@, mapped),
        transform is None ==> schema_result_model(r) == Ok::<_, ExecErrorModel>(declared@),
        r matches Ok(columns) ==> columns@.len() == declared@.len(),
{
    let mapped = ask_transform(declared, transform, remote);
    reconcile_schema(declared, mapped)
}

} // verus!
