use crate::error::{ExecError, ExecErrorModel};
use crate::predicate::{Predicate, PredicateModel, predicates_model};
use crate::pushdown::{Dialect, allow_limit_pushdown, policy_answered};
use crate::schema::{
    FieldModel,
    Schema,
    held_projection_model,
    project_model,
    projection_model,
};
use crate::stream::{StreamPlan, StreamPlanModel, assemble_stream, assembled, plan_result_model};
use crate::text::{describe, description, texts_model};
use crate::transform::{
    Transform,
    ask_transform,
    borrowed_schema_model,
    lemma_reconciled_count,
    mapped_model,
    optional_schema_model,
    reconcile_schema,
    reconciled,
    transform_answered,
};
use std::sync::Arc;
use vstd::prelude::*;

verus! {

/// One bounded, single-partition scan of a remote table. Its fields are
/// fixed at construction; a scan with another limit is a new value.
pub struct RemoteTableExec<O: Dialect, T: Transform, C> {
    conn_options: Arc<O>,
    sql: String,
    table_schema: Schema,
    remote_schema: Option<Schema>,
    projection: Option<Vec<usize>>,
    filters: Vec<Predicate>,
    limit: Option<usize>,
    transform: Option<Arc<T>>,
    conn: Arc<C>,
    schema: Schema,
}

/// Mathematical value of a [`RemoteTableExec`].
pub struct NodeModel<O, T, C> {
    pub conn_options: O,
    pub sql: Seq<char>,
    pub table_schema: Seq<FieldModel>,
    pub remote_schema: Option<Seq<FieldModel>>,
    pub projection: Option<Seq<usize>>,
    pub filters: Seq<PredicateModel>,
    pub limit: Option<usize>,
    pub transform: Option<T>,
    pub conn: C,
    /// The schema of the batches that the scan delivers.
    pub schema: Seq<FieldModel>,
}

impl<O, T: Transform, C> NodeModel<O, T, C> {
    /// The delivered schema is the projection of the transformed schema:
    /// of the declared schema where no transform is configured, else of a
    /// schema that the transform answered for the declared and the remote
    /// schema of this scan, with the declared column count.
    pub open spec fn consistent(self) -> bool {
        exists|mapped: Option<Result<Seq<FieldModel>, Seq<char>>>| #[trigger]
            transform_answered(
                borrowed(&self.transform),
                self.table_schema,
                self.remote_schema,
                mapped,
            ) && planned_schema(self.table_schema, self.projection, mapped) == Ok::<
                _,
                ExecErrorModel,
            >(self.schema)
    }

    /// The same scan with `limit` in place of its own.
    pub open spec fn with_limit(self, limit: Option<usize>) -> Self {
        NodeModel { limit, ..self }
    }

    /// The answer to a request to take over `limit`: the scan with that
    /// limit where pushdown is allowed, nothing where it is not.
    pub open spec fn with_fetch(self, allowed: bool, limit: Option<usize>) -> Option<Self> {
        if allowed {
            Some(self.with_limit(limit))
        } else {
            None
        }
    }
}

/// The schema that a scan delivers: the projection of the transformed
/// schema.
pub open spec fn planned_schema(
    table: Seq<FieldModel>,
    projection: Option<Seq<usize>>,
    mapped: Option<Result<Seq<FieldModel>, Seq<char>>>,
) -> Result<Seq<FieldModel>, ExecErrorModel> {
    match reconciled(table, mapped) {
        Err(e) => Err(e),
        Ok(transformed) => project_model(transformed, projection),
    }
}

/// The transform behind a shared handle, if there is one.
pub open spec fn shared_transform<T>(transform: &Option<Arc<T>>) -> Option<&T> {
    match transform {
        None => None,
        Some(handle) => Some(&**handle),
    }
}

/// The value in an option, borrowed.
pub open spec fn borrowed<A>(value: &Option<A>) -> Option<&A> {
    match value {
        None => None,
        Some(a) => Some(a),
    }
}

/// `Arc::clone`: the new handle points to the very value that `handle`
/// points to, so the two are equal.
#[verifier::external_body]
fn share<A>(handle: &Arc<A>) -> (other: Arc<A>)
    ensures
        other == *handle,
{
    Arc::clone(handle)
}

impl<O: Dialect, T: Transform, C> View for RemoteTableExec<O, T, C> {
    type V = NodeModel<O, T, C>;

    closed spec fn view(&self) -> NodeModel<O, T, C> {
        NodeModel {
            conn_options: *self.conn_options,
            sql: self.sql@,
            table_schema: self.table_schema@,
            remote_schema: optional_schema_model(self.remote_schema),
            projection: held_projection_model(self.projection),
            filters: predicates_model(self.filters@),
            limit: self.limit,
            transform: match self.transform {
                None => None,
                Some(handle) => Some(*handle),
            },
            conn: *self.conn,
            schema: self.schema@,
        }
    }
}

impl<O: Dialect, T: Transform, C> RemoteTableExec<O, T, C> {
    #[verifier::type_invariant]
    spec fn delivers_projection(self) -> bool {
        self@.consistent()
    }

    /// Builds a scan. The schema it will deliver is settled here: the
    /// transform, if there is one, is asked for the schema it produces,
    /// which must have as many columns as `table_schema`, and that schema
    /// is projected.
    pub fn try_new(
        conn_options: O,
        sql: String,
        table_schema: Schema,
        remote_schema: Option<Schema>,
        projection: Option<Vec<usize>>,
        filters: Vec<Predicate>,
        limit: Option<usize>,
        transform: Option<Arc<T>>,
        conn: Arc<C>,
    ) -> (r: Result<Self, ExecError>)
        ensures
            r matches Ok(node) ==> node@.consistent(),
            exists|mapped: Option<Result<Seq<FieldModel>, Seq<char>>>|
                {
                    &&& #[trigger] transform_answered(
                        shared_transform(&transform),
                        table_schema@,
                        optional_schema_model(remote_schema),
                        mapped,
                    )
                    &&& match r {
                        Ok(node) => {
                            &&& planned_schema(
                                table_schema@,
                                held_projection_model(projection),
                                mapped,
                            ) == Ok::<_, ExecErrorModel>(node@.schema)
                            &&& node@ == (NodeModel {
                                conn_options,
                                sql: sql@,
                                table_schema: table_schema@,
                                remote_schema: optional_schema_model(remote_schema),
                                projection: held_projection_model(projection),
                                filters: predicates_model(filters@),
                                limit,
                                transform: match transform {
                                    None => None,
                                    Some(handle) => Some(*handle),
                                },
                                conn: *conn,
                                schema: node@.schema,
                            })
                        },
                        Err(e) => planned_schema(
                            table_schema@,
                            held_projection_model(projection),
                            mapped,
                        ) == Err::<Seq<FieldModel>, _>(e@),
                    }
                },
    {
        let asked: Option<&T> = match &transform {
            None => None,
            Some(handle) => Some(&**handle),
        };
        let remote = remote_schema.as_ref();
        let mapped = ask_transform(&table_schema, asked, remote);
        let ghost answer = mapped_model(mapped);
        proof {
            assert(asked == shared_transform(&transform));
            assert(borrowed_schema_model(remote) == optional_schema_model(remote_schema));
            assert(transform_answered(
                shared_transform(&transform),
                table_schema@,
                optional_schema_model(remote_schema),
                answer,
            ));
            lemma_reconciled_count(table_schema@, answer);
        }
        let transformed = match reconcile_schema(&table_schema, mapped) {
            Ok(columns) => columns,
            Err(e) => {
                return Err(e);
            },
        };
        let schema = match transformed.project(projection.as_ref()) {
            Ok(columns) => columns,
            Err(e) => {
                return Err(e);
            },
        };
        proof {
            assert(planned_schema(table_schema@, held_projection_model(projection), answer) == Ok::<
                _,
                ExecErrorModel,
            >(schema@));
            assert(borrowed(
                &match transform {
                    None => None,
                    Some(handle) => Some(*handle),
                },
            ) == shared_transform(&transform));
        }
        let node = RemoteTableExec {
            conn_options: Arc::new(conn_options),
            sql,
            table_schema,
            remote_schema,
            projection,
            filters,
            limit,
            transform,
            conn,
            schema,
        };
        proof {
            use_type_invariant(&node);
        }
        Ok(node)
    }

    /// The same scan with `limit` in place of its own limit. The
    /// receiver is left as it is.
    pub fn with_limit(&self, limit: Option<usize>) -> (node: Self)
        ensures
            node@ == self@.with_limit(limit),
    {
        proof {
            use_type_invariant(self);
        }
        let remote_schema = match &self.remote_schema {
            None => None,
            Some(s) => Some(s.clone()),
        };
        let projection = match &self.projection {
            None => None,
            Some(positions) => {
                let copy = positions.clone();
                assert(copy@ =~= positions@);
                Some(copy)
            },
        };
        let filters = self.filters.clone();
        assert(predicates_model(filters@) =~= predicates_model(self.filters@));
        let transform = match &self.transform {
            None => None,
            Some(handle) => Some(share(handle)),
        };
        let node = RemoteTableExec {
            conn_options: share(&self.conn_options),
            sql: self.sql.clone(),
            table_schema: self.table_schema.clone(),
            remote_schema,
            projection,
            filters,
            limit,
            transform,
            conn: share(&self.conn),
            schema: self.schema.clone(),
        };
        node
    }

    /// Answers a request to take over `limit`, given the pushdown
    /// policy's answer for this scan's query text: a new scan with that
    /// limit where pushdown is allowed, nothing where it is not.
    pub fn with_fetch_decided(&self, allowed: bool, limit: Option<usize>) -> (r: Option<Self>)
        ensures
            node_option_model(r) == self@.with_fetch(allowed, limit),
    {
        if allowed {
            Some(self.with_limit(limit))
        } else {
            None
        }
    }

    /// Answers a request to take over `limit`: asks the pushdown policy
    /// about this scan's query text, and returns a new scan that differs
    /// in the limit alone where pushdown is allowed, nothing where it is
    /// not. The receiver is left as it is.
    pub fn with_fetch(&self, limit: Option<usize>) -> (r: Option<Self>)
        ensures
            exists|allowed: bool| #[trigger]
                policy_answered(&self@.conn_options, self@.sql, allowed) && node_option_model(r)
                    == self@.with_fetch(allowed, limit),
            r matches Some(node) ==> node@ == self@.with_limit(limit),
    {
        let allowed = allow_limit_pushdown(&*self.conn_options, self.sql.as_str());
        self.with_fetch_decided(allowed, limit)
    }

    /// The name under which the scan appears in a plan.
    pub fn name(&self) -> (name: &'static str)
        ensures
            name@ == "RemoteTableExec"@,
    {
        "RemoteTableExec"
    }

    /// The number of partitions that the scan reports: one, which
    /// [`Self::execute`] knows as partition `0`.
    pub fn partition_count(&self) -> (count: usize)
        ensures
            count == 1,
    {
        1
    }

    /// The children of the scan in a plan: it is a leaf and has none.
    pub fn children(&self) -> (children: Vec<&Self>)
        ensures
            children@.len() == 0,
    {
        Vec::new()
    }

    /// A scan is a leaf: replacing its children, whatever is offered,
    /// gives the scan back as it is.
    pub fn with_new_children<P>(self, _children: Vec<P>) -> (node: Self)
        ensures
            node == self,
    {
        self
    }

    /// The connection options, which hold the pushdown policy.
    pub fn conn_options(&self) -> (options: &O)
        ensures
            *options == self@.conn_options,
    {
        &*self.conn_options
    }

    /// The query text.
    pub fn sql(&self) -> (sql: &str)
        ensures
            sql@ == self@.sql,
    {
        self.sql.as_str()
    }

    /// The declared schema of the table.
    pub fn table_schema(&self) -> (schema: &Schema)
        ensures
            schema@ == self@.table_schema,
    {
        &self.table_schema
    }

    /// The schema of what the remote source returns, where it is known.
    pub fn remote_schema(&self) -> (schema: Option<&Schema>)
        ensures
            borrowed_schema_model(schema) == self@.remote_schema,
    {
        self.remote_schema.as_ref()
    }

    /// The positions of the delivered columns, where not all are delivered.
    pub fn projection(&self) -> (projection: Option<&Vec<usize>>)
        ensures
            projection_model(projection) == self@.projection,
    {
        self.projection.as_ref()
    }

    /// The filters, in the column names of the transformed schema.
    pub fn filters(&self) -> (filters: &Vec<Predicate>)
        ensures
            predicates_model(filters@) == self@.filters,
    {
        &self.filters
    }

    /// The transform, if one is configured.
    pub fn transform(&self) -> (transform: Option<&Arc<T>>)
        ensures
            match transform {
                None => self@.transform is None,
                Some(handle) => self@.transform == Some(**handle),
            },
    {
        self.transform.as_ref()
    }

    /// The connection that the scan is to be run on.
    pub fn conn(&self) -> (conn: &Arc<C>)
        ensures
            **conn == self@.conn,
    {
        &self.conn
    }

    /// A one-line summary of the scan for plan listings: its limit and
    /// its filters. Each filter is shown by the text that the caller
    /// hands over for it, in its own textual form.
    pub fn describe(&self, filter_texts: &Vec<String>) -> (text: String)
        ensures
            text@ == description(self@.limit, texts_model(filter_texts@)),
    {
        describe(self.limit, filter_texts)
    }

    /// The limit of this scan.
    pub fn fetch(&self) -> (limit: Option<usize>)
        ensures
            limit == self@.limit,
    {
        self.limit
    }

    /// The schema of the batches that this scan delivers: the projection
    /// of the transformed schema.
    pub fn schema(&self) -> (schema: &Schema)
        ensures
            schema@ == self@.schema,
            self@.consistent(),
    {
        proof {
            use_type_invariant(self);
        }
        &self.schema
    }

    /// Sets up the stream of the one partition that this scan has.
    /// Nothing is sent to the remote source here: what is to be sent
    /// stands in the plan that comes back. An error that comes back is
    /// the single item of the stream.
    pub fn execute(&self, partition: usize) -> (r: Result<StreamPlan, ExecError>)
        requires
            partition == 0,
        ensures
            exists|mapped: Option<Result<Seq<FieldModel>, Seq<char>>>, allowed: bool|
                {
                    &&& #[trigger] transform_answered(
                        borrowed(&self@.transform),
                        self@.table_schema,
                        self@.remote_schema,
                        mapped,
                    )
                    &&& r is Ok ==> policy_answered(&self@.conn_options, self@.sql, allowed)
                    &&& plan_result_model(r) == #[trigger] assembled(
                        self@.sql,
                        self@.table_schema,
                        self@.projection,
                        self@.filters,
                        self@.limit,
                        mapped,
                        allowed,
                    )
                },
    {
        let transform: Option<&T> = match &self.transform {
            None => None,
            Some(handle) => Some(&**handle),
        };
        let remote = self.remote_schema.as_ref();
        let projection = self.projection.as_ref();
        let sql = self.sql.as_str();
        let r = assemble_stream(
            &*self.conn_options,
            sql,
            &self.table_schema,
            remote,
            projection,
            &self.filters,
            self.limit,
            transform,
        );
        proof {
            assert(transform == borrowed(&self@.transform));
            assert(borrowed_schema_model(remote) == self@.remote_schema);
            assert(projection_model(projection) == self@.projection);
            let (mapped, allowed) = choose|mapped: Option<Result<Seq<FieldModel>, Seq<char>>>, allowed: bool|
                {
                    &&& #[trigger] transform_answered(
                        transform,
                        self.table_schema@,
                        borrowed_schema_model(remote),
                        mapped,
                    )
                    &&& r is Ok ==> policy_answered(&*self.conn_options, sql@, allowed)
                    &&& plan_result_model(r) == #[trigger] assembled(
                        sql@,
                        self.table_schema@,
                        projection_model(projection),
                        predicates_model(self.filters@),
                        self.limit,
                        mapped,
                        allowed,
                    )
                };
            assert(transform_answered(
                borrowed(&self@.transform),
                self@.table_schema,
                self@.remote_schema,
                mapped,
            ));
            assert(plan_result_model(r) == assembled(
                self@.sql,
                self@.table_schema,
                self@.projection,
                self@.filters,
                self@.limit,
                mapped,
                allowed,
            ));
        }
        r
    }
}

/// A scan that takes over a limit differs from the one it was made from
/// in the limit alone: with the old limit put back it is that scan
/// again. It still delivers the projection it did.
pub proof fn law_with_limit<O, T: Transform, C>(node: NodeModel<O, T, C>, limit: Option<usize>)
    requires
        node.consistent(),
    ensures
        node.with_limit(limit).limit == limit,
        node.with_limit(limit).with_limit(node.limit) == node,
        node.with_limit(limit).consistent(),
{
    let other = node.with_limit(limit);
    let mapped = choose|mapped: Option<Result<Seq<FieldModel>, Seq<char>>>| #[trigger]
        transform_answered(
            borrowed(&node.transform),
            node.table_schema,
            node.remote_schema,
            mapped,
        ) && planned_schema(node.table_schema, node.projection, mapped) == Ok::<
            _,
            ExecErrorModel,
        >(node.schema);
    assert(transform_answered(
        borrowed(&other.transform),
        other.table_schema,
        other.remote_schema,
        mapped,
    ));
}

/// The schema that a scan delivers has the columns that its projection
/// lists, or as many as the declared schema where it has no projection;
/// without a transform it is the projection of the declared schema.
pub proof fn law_delivered_schema<O, T: Transform, C>(node: NodeModel<O, T, C>)
    requires
        node.consistent(),
    ensures
        node.projection matches Some(positions) ==> node.schema.len() == positions.len(),
        node.projection is None ==> node.schema.len() == node.table_schema.len(),
        node.transform is None ==> project_model(node.table_schema, node.projection) == Ok::<
            _,
            ExecErrorModel,
        >(node.schema),
{
    let mapped = choose|mapped: Option<Result<Seq<FieldModel>, Seq<char>>>| #[trigger]
        transform_answered(
            borrowed(&node.transform),
            node.table_schema,
            node.remote_schema,
            mapped,
        ) && planned_schema(node.table_schema, node.projection, mapped) == Ok::<
            _,
            ExecErrorModel,
        >(node.schema);
    lemma_reconciled_count(node.table_schema, mapped);
}

/// Where the pushdown policy denies pushdown for the query text of a
/// scan, whatever it is asked, a request to take over a limit is refused,
/// whichever limit is asked for.
pub proof fn law_denied_fetch_is_refused<O: Dialect, T: Transform, C>(
    node: NodeModel<O, T, C>,
    limit: Option<usize>,
    answer: Option<NodeModel<O, T, C>>,
)
    requires
        forall|allowed: bool| #[trigger]
            policy_answered(&node.conn_options, node.sql, allowed) ==> !allowed,
        exists|allowed: bool| #[trigger]
            policy_answered(&node.conn_options, node.sql, allowed) && answer == node.with_fetch(
                allowed,
                limit,
            ),
    ensures
        answer is None,
{
}

/// Where the pushdown policy denies pushdown for the query text of a
/// scan, whatever it is asked, the query that a stream of the scan is
/// set up with carries no limit.
pub proof fn law_denied_limit_is_not_sent<O: Dialect, T: Transform, C>(
    node: NodeModel<O, T, C>,
    outcome: Result<StreamPlanModel, ExecErrorModel>,
)
    requires
        forall|allowed: bool| #[trigger]
            policy_answered(&node.conn_options, node.sql, allowed) ==> !allowed,
        exists|mapped: Option<Result<Seq<FieldModel>, Seq<char>>>, allowed: bool|
            {
                &&& #[trigger] transform_answered(
                    borrowed(&node.transform),
                    node.table_schema,
                    node.remote_schema,
                    mapped,
                )
                &&& outcome is Ok ==> policy_answered(&node.conn_options, node.sql, allowed)
                &&& outcome == #[trigger] assembled(
                    node.sql,
                    node.table_schema,
                    node.projection,
                    node.filters,
                    node.limit,
                    mapped,
                    allowed,
                )
            },
    ensures
        outcome matches Ok(plan) ==> plan.query.limit is None,
{
}

/// Mathematical value of an optional scan.
pub open spec fn node_option_model<O: Dialect, T: Transform, C>(
    node: Option<RemoteTableExec<O, T, C>>,
) -> Option<NodeModel<O, T, C>> {
    match node {
        None => None,
        Some(n) => Some(n@),
    }
}

} // verus!
