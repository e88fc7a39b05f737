use vstd::prelude::*;

verus! {

/// The capability profile of a remote source: it decides, for a query
/// text, whether a row limit may be pushed into the source.
pub trait Dialect {
    /// Whether `sql` admits a limit appended from outside.
    fn allow_limit_pushdown(&self, sql: &str) -> bool;
}

/// `allowed` is an answer of `dialect` to the question whether `sql`
/// admits a pushed-down limit.
pub open spec fn policy_answered<D: Dialect>(dialect: &D, sql: Seq<char>, allowed: bool) -> bool {
    exists|text: &str| #[trigger]
        text@ == sql && call_ensures(D::allow_limit_pushdown, (dialect, text), allowed)
}

/// Asks `dialect` whether a limit may be pushed into `sql`.
pub fn allow_limit_pushdown<D: Dialect>(dialect: &D, sql: &str) -> (allowed: bool)
    ensures
        policy_answered(dialect, sql@, allowed),
{
    dialect.allow_limit_pushdown(sql)
}

/// The limit that is sent to the remote source: the requested one where
/// pushdown is allowed, none where it is not.
pub open spec fn forwarded_limit_model(allowed: bool, limit: Option<usize>) -> Option<usize> {
    if allowed {
        limit
    } else {
        None
    }
}

/// The limit to send to the remote source, given the policy's answer.
pub fn forwarded_limit(allowed: bool, limit: Option<usize>) -> (sent: Option<usize>)
    ensures
        sent == forwarded_limit_model(allowed, limit),
{
    if allowed {
        limit
    } else {
        None
    }
}

} // verus!
