use crate::error::{ExecError, ExecErrorModel};
use crate::predicate::{Predicate, PredicateModel, predicates_model};
use crate::pushdown::{
    Dialect,
    allow_limit_pushdown,
    forwarded_limit,
    forwarded_limit_model,
    policy_answered,
};
use crate::rewrite::{
    first_missing_in,
    lemma_failure_in_is_missing,
    rewrite_filters_column,
    rewritten_all,
};
use crate::schema::{FieldModel, Schema, held_projection_model, projection_model};
use crate::transform::{
    Transform,
    ask_transform,
    borrowed_schema_model,
    lemma_reconciled_count,
    mapped_model,
    reconcile_schema,
    reconciled,
    transform_answered,
};
use vstd::prelude::*;

verus! {

/// What is handed to the connection: the query text, the declared schema
/// of the table, the columns to materialize, the filters in the declared
/// schema's column names, and the row limit that the source may apply.
#[derive(Debug, PartialEq, Eq)]
pub struct RemoteQuery {
    pub sql: String,
    pub table_schema: Schema,
    pub projection: Option<Vec<usize>>,
    pub filters: Vec<Predicate>,
    pub limit: Option<usize>,
}

/// Mathematical value of a [`RemoteQuery`].
pub struct RemoteQueryModel {
    pub sql: Seq<char>,
    pub table_schema: Seq<FieldModel>,
    pub projection: Option<Seq<usize>>,
    pub filters: Seq<PredicateModel>,
    pub limit: Option<usize>,
}

impl View for RemoteQuery {
    type V = RemoteQueryModel;

    open spec fn view(&self) -> RemoteQueryModel {
        RemoteQueryModel {
            sql: self.sql@,
            table_schema: self.table_schema@,
            projection: held_projection_model(self.projection),
            filters: predicates_model(self.filters@),
            limit: self.limit,
        }
    }
}

/// How a stream of batches is set up: the query to issue, and whether
/// the batches that come back pass through the transform stage before
/// they are delivered.
#[derive(Debug, PartialEq, Eq)]
pub struct StreamPlan {
    pub query: RemoteQuery,
    pub transformed: bool,
}

/// Mathematical value of a [`StreamPlan`].
pub struct StreamPlanModel {
    pub query: RemoteQueryModel,
    pub transformed: bool,
}

impl View for StreamPlan {
    type V = StreamPlanModel;

    open spec fn view(&self) -> StreamPlanModel {
        StreamPlanModel { query: self.query@, transformed: self.transformed }
    }
}

/// Mathematical value of the outcome of setting up a stream.
pub open spec fn plan_result_model(r: Result<StreamPlan, ExecError>) -> Result<
    StreamPlanModel,
    ExecErrorModel,
> {
    match r {
        Ok(plan) => Ok(plan@),
        Err(e) => Err(e@),
    }
}

/// The filters as the remote source must receive them: rewritten from
/// the transformed schema's column names to the declared schema's. It
/// fails where the transformed schema cannot be settled, else on the
/// first filter column that the transformed schema lacks.
pub open spec fn prepared_filters(
    table: Seq<FieldModel>,
    filters: Seq<PredicateModel>,
    mapped: Option<Result<Seq<FieldModel>, Seq<char>>>,
) -> Result<Seq<PredicateModel>, ExecErrorModel> {
    match reconciled(table, mapped) {
        Err(e) => Err(e),
        Ok(columns) => match first_missing_in(filters, columns) {
            Some(name) => Err(ExecErrorModel::ColumnNotFound(name)),
            None => Ok(rewritten_all(filters, columns, table)),
        },
    }
}

/// The set-up of a stream, given what the transform answered for the
/// schema and what the pushdown policy answered for the query text.
pub open spec fn assembled(
    sql: Seq<char>,
    table: Seq<FieldModel>,
    projection: Option<Seq<usize>>,
    filters: Seq<PredicateModel>,
    limit: Option<usize>,
    mapped: Option<Result<Seq<FieldModel>, Seq<char>>>,
    allowed: bool,
) -> Result<StreamPlanModel, ExecErrorModel> {
    match prepared_filters(table, filters, mapped) {
        Err(e) => Err(e),
        Ok(sent) => Ok(
            StreamPlanModel {
                query: RemoteQueryModel {
                    sql,
                    table_schema: table,
                    projection,
                    filters: sent,
                    limit: forwarded_limit_model(allowed, limit),
                },
                transformed: mapped is Some,
            },
        ),
    }
}

/// Mathematical value of the outcome of preparing the filters.
pub open spec fn filters_result_model(r: Result<Vec<Predicate>, ExecError>) -> Result<
    Seq<PredicateModel>,
    ExecErrorModel,
> {
    match r {
        Ok(filters) => Ok(predicates_model(filters@)),
        Err(e) => Err(e@),
    }
}

/// Settles the transformed schema from what the transform answered and
/// rewrites the filters from it to the declared schema.
pub fn prepare_filters(
    table_schema: &Schema,
    filters: &Vec<Predicate>,
    mapped: Option<Result<Schema, String>>,
) -> (r: Result<Vec<Predicate>, ExecError>)
    ensures
        filters_result_model(r) == prepared_filters(
            table_schema@,
            predicates_model(filters@),
            mapped_model(mapped),
        ),
{
    proof {
        lemma_reconciled_count(table_schema@, mapped_model(mapped));
    }
    let transformed = match reconcile_schema(table_schema, mapped) {
        Ok(columns) => columns,
        Err(e) => {
            return Err(e);
        },
    };
    proof {
        lemma_failure_in_is_missing(predicates_model(filters@), transformed@, table_schema@);
    }
    rewrite_filters_column(filters, &transformed, table_schema)
}

/// Copies the positions of a projection.
fn copy_projection(projection: Option<&Vec<usize>>) -> (copy: Option<Vec<usize>>)
    ensures
        held_projection_model(copy) == projection_model(projection),
{
    match projection {
        None => None,
        Some(positions) => {
            let copy = positions.clone();
            assert(copy@ =~= positions@);
            Some(copy)
        },
    }
}

/// Puts the query together from its prepared parts.
fn plan_query(
    sql: &str,
    table_schema: &Schema,
    projection: Option<&Vec<usize>>,
    sent: Vec<Predicate>,
    limit: Option<usize>,
    transformed: bool,
    allowed: bool,
) -> (plan: StreamPlan)
    ensures
        plan@ == (StreamPlanModel {
            query: RemoteQueryModel {
                sql: sql@,
                table_schema: table_schema@,
                projection: projection_model(projection),
                filters: predicates_model(sent@),
                limit: forwarded_limit_model(allowed, limit),
            },
            transformed,
        }),
{
    StreamPlan {
        query: RemoteQuery {
            sql: sql.to_owned(),
            table_schema: table_schema.clone(),
            projection: copy_projection(projection),
            filters: sent,
            limit: forwarded_limit(allowed, limit),
        },
        transformed,
    }
}

/// Sets up a stream from what the transform and the pushdown policy
/// answered: the filters are rewritten to the declared schema's column
/// names, the limit is kept only where pushdown is allowed, and the
/// batches are to pass through the transform stage exactly when a
/// transform is configured.
pub fn assemble_stream_from(
    sql: &str,
    table_schema: &Schema,
    projection: Option<&Vec<usize>>,
    filters: &Vec<Predicate>,
    limit: Option<usize>,
    mapped: Option<Result<Schema, String>>,
    allowed: bool,
) -> (r: Result<StreamPlan, ExecError>)
    ensures
        plan_result_model(r) == assembled(
            sql@,
            table_schema@,
            projection_model(projection),
            predicates_model(filters@),
            limit,
            mapped_model(mapped),
            allowed,
        ),
{
    let transformed = mapped.is_some();
    match prepare_filters(table_schema, filters, mapped) {
        Ok(sent) => Ok(
            plan_query(sql, table_schema, projection, sent, limit, transformed, allowed),
        ),
        Err(e) => Err(e),
    }
}

/// Sets up a stream for one scan: asks the transform, if there is one,
/// for the schema it produces, rewrites the filters from that schema to
/// the declared one, asks the pushdown policy whether the limit may be
/// sent along, and says whether the transform stage is to be applied to
/// what comes back. The policy is asked only once the filters are
/// rewritten.
pub fn assemble_stream<O: Dialect, T: Transform>(
    conn_options: &O,
    sql: &str,
    table_schema: &Schema,
    remote_schema: Option<&Schema>,
    projection: Option<&Vec<usize>>,
    filters: &Vec<Predicate>,
    limit: Option<usize>,
    transform: Option<&T>,
) -> (r: Result<StreamPlan, ExecError>)
    ensures
        exists|mapped: Option<Result<Seq<FieldModel>, Seq<char>>>, allowed: bool|
            {
                &&& #[trigger] transform_answered(
                    transform,
                    table_schema@,
                    borrowed_schema_model(remote_schema),
                    mapped,
                )
                &&& r is Ok ==> policy_answered(conn_options, sql@, allowed)
                &&& plan_result_model(r) == #[trigger] assembled(
                    sql@,
                    table_schema@,
                    projection_model(projection),
                    predicates_model(filters@),
                    limit,
                    mapped,
                    allowed,
                )
            },
{
    let mapped = ask_transform(table_schema, transform, remote_schema);
    let ghost answer = mapped_model(mapped);
    let transformed = mapped.is_some();
    match prepare_filters(table_schema, filters, mapped) {
        Ok(sent) => {
            let allowed = allow_limit_pushdown(conn_options, sql);
            let plan = plan_query(sql, table_schema, projection, sent, limit, transformed, allowed);
            proof {
                assert(Ok::<_, ExecErrorModel>(plan@) == assembled(
                    sql@,
                    table_schema@,
                    projection_model(projection),
                    predicates_model(filters@),
                    limit,
                    answer,
                    allowed,
                ));
            }
            Ok(plan)
        },
        Err(e) => {
            proof {
                assert(Err::<StreamPlanModel, _>(e@) == assembled(
                    sql@,
                    table_schema@,
                    projection_model(projection),
                    predicates_model(filters@),
                    limit,
                    answer,
                    false,
                ));
            }
            Err(e)
        },
    }
}

} // verus!
