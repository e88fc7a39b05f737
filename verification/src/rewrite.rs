use crate::error::{ExecError, ExecErrorModel};
use crate::predicate::{Column, ColumnModel, Predicate, PredicateModel, predicates_model};
use crate::schema::{FieldModel, Schema, has_column, lemma_position_of_none, position_of};
use vstd::prelude::*;

verus! {

/// The tree `p` with every column reference replaced by `f` of it, and
/// every other node, the shape and the order of operands left as they are.
pub open spec fn map_columns(
    p: PredicateModel,
    f: spec_fn(ColumnModel) -> ColumnModel,
) -> PredicateModel
    decreases p,
{
    match p {
        PredicateModel::Column(c) => PredicateModel::Column(f(c)),
        PredicateModel::Literal(l) => PredicateModel::Literal(l),
        PredicateModel::Unary { op, operand } => PredicateModel::Unary {
            op,
            operand: Box::new(map_columns(*operand, f)),
        },
        PredicateModel::Binary { left, op, right } => PredicateModel::Binary {
            left: Box::new(map_columns(*left, f)),
            op,
            right: Box::new(map_columns(*right, f)),
        },
        PredicateModel::InList { operand, list, negated } => PredicateModel::InList {
            operand: Box::new(map_columns(*operand, f)),
            list: Seq::new(
                list.len(),
                |i: int|
                    if 0 <= i < list.len() {
                        map_columns(list[i], f)
                    } else {
                        list[i]
                    },
            ),
            negated,
        },
        PredicateModel::Other { tag, children } => PredicateModel::Other {
            tag,
            children: Seq::new(
                children.len(),
                |i: int|
                    if 0 <= i < children.len() {
                        map_columns(children[i], f)
                    } else {
                        children[i]
                    },
            ),
        },
    }
}

/// Every column reference in `p` satisfies `holds`.
pub open spec fn all_columns(p: PredicateModel, holds: spec_fn(ColumnModel) -> bool) -> bool
    decreases p,
{
    match p {
        PredicateModel::Column(c) => holds(c),
        PredicateModel::Literal(_) => true,
        PredicateModel::Unary { operand, .. } => all_columns(*operand, holds),
        PredicateModel::Binary { left, right, .. } => all_columns(*left, holds) && all_columns(
            *right,
            holds,
        ),
        PredicateModel::InList { operand, list, .. } => all_columns(*operand, holds) && forall|
            i: int,
        |
            0 <= i < list.len() ==> all_columns(#[trigger] list[i], holds),
        PredicateModel::Other { children, .. } => forall|i: int|
            0 <= i < children.len() ==> all_columns(#[trigger] children[i], holds),
    }
}

/// The name of the first column reference of `p`, reading the tree from
/// the root down and operands from left to right, that `columns` lacks.
pub open spec fn first_missing(p: PredicateModel, columns: Seq<FieldModel>) -> Option<Seq<char>>
    decreases p, 0nat,
{
    match p {
        PredicateModel::Column(c) => if has_column(columns, c.name) {
            None
        } else {
            Some(c.name)
        },
        PredicateModel::Literal(_) => None,
        PredicateModel::Unary { operand, .. } => first_missing(*operand, columns),
        PredicateModel::Binary { left, right, .. } => match first_missing(*left, columns) {
            Some(name) => Some(name),
            None => first_missing(*right, columns),
        },
        PredicateModel::InList { operand, list, .. } => match first_missing(*operand, columns) {
            Some(name) => Some(name),
            None => first_missing_in(list, columns),
        },
        PredicateModel::Other { children, .. } => first_missing_in(children, columns),
    }
}

/// [`first_missing`] over a list of trees, taken in order.
pub open spec fn first_missing_in(list: Seq<PredicateModel>, columns: Seq<FieldModel>) -> Option<
    Seq<char>,
>
    decreases list, 1nat,
{
    if list.len() == 0 {
        None
    } else {
        match first_missing(list[0], columns) {
            Some(name) => Some(name),
            None => first_missing_in(list.drop_first(), columns),
        }
    }
}

/// What is said of a column reference that has no counterpart: `from`
/// has the column, at a position beyond the last column of `to`.
pub open spec fn no_counterpart_text() -> Seq<char> {
    "a filter column has no counterpart at its position"@
}

/// Why the column reference `c` cannot be moved from `from` to `to`, if
/// it cannot: `from` lacks a column of that name, or it has one at a
/// position that `to` lacks, which is reported as a mismatch of the two
/// schemas.
pub open spec fn column_failure(
    c: ColumnModel,
    from: Seq<FieldModel>,
    to: Seq<FieldModel>,
) -> Option<ExecErrorModel> {
    match position_of(from, c.name) {
        None => Some(ExecErrorModel::ColumnNotFound(c.name)),
        Some(i) => if i < to.len() {
            None
        } else {
            Some(ExecErrorModel::SchemaMismatch(no_counterpart_text()))
        },
    }
}

/// The failure of the first column reference of `p`, reading the tree
/// from the root down and operands from left to right, that cannot be
/// moved from `from` to `to`.
pub open spec fn first_failure(
    p: PredicateModel,
    from: Seq<FieldModel>,
    to: Seq<FieldModel>,
) -> Option<ExecErrorModel>
    decreases p, 0nat,
{
    match p {
        PredicateModel::Column(c) => column_failure(c, from, to),
        PredicateModel::Literal(_) => None,
        PredicateModel::Unary { operand, .. } => first_failure(*operand, from, to),
        PredicateModel::Binary { left, right, .. } => match first_failure(*left, from, to) {
            Some(e) => Some(e),
            None => first_failure(*right, from, to),
        },
        PredicateModel::InList { operand, list, .. } => match first_failure(*operand, from, to) {
            Some(e) => Some(e),
            None => first_failure_in(list, from, to),
        },
        PredicateModel::Other { children, .. } => first_failure_in(children, from, to),
    }
}

/// [`first_failure`] over a list of trees, taken in order.
pub open spec fn first_failure_in(
    list: Seq<PredicateModel>,
    from: Seq<FieldModel>,
    to: Seq<FieldModel>,
) -> Option<ExecErrorModel>
    decreases list, 1nat,
{
    if list.len() == 0 {
        None
    } else {
        match first_failure(list[0], from, to) {
            Some(e) => Some(e),
            None => first_failure_in(list.drop_first(), from, to),
        }
    }
}

/// The unqualified reference to the column of `to` that stands at the
/// position where `from` first has a column named as `c` is.
pub open spec fn counterpart(
    c: ColumnModel,
    from: Seq<FieldModel>,
    to: Seq<FieldModel>,
) -> ColumnModel {
    ColumnModel { relation: None, name: to[position_of(from, c.name).unwrap()].name }
}

/// `p` with each column reference moved from `from` to `to` by position.
pub open spec fn rewritten(
    p: PredicateModel,
    from: Seq<FieldModel>,
    to: Seq<FieldModel>,
) -> PredicateModel {
    map_columns(p, |c: ColumnModel| counterpart(c, from, to))
}

/// [`rewritten`] applied to each tree of a list.
pub open spec fn rewritten_all(
    list: Seq<PredicateModel>,
    from: Seq<FieldModel>,
    to: Seq<FieldModel>,
) -> Seq<PredicateModel> {
    Seq::new(list.len(), |i: int| rewritten(list[i], from, to))
}

/// Moves one column reference from `from` to `to`: the result names,
/// without qualifier, the column of `to` at the position where `from`
/// first has the name. It fails with `ColumnNotFound` where `from` lacks
/// the name, and with `SchemaMismatch` where `to` has no column at that
/// position.
pub fn rewrite_column(column: &Column, from: &Schema, to: &Schema) -> (r: Result<Column, ExecError>)
    ensures
        match r {
            Ok(c) => column_failure(column@, from@, to@) is None && c@ == counterpart(
                column@,
                from@,
                to@,
            ),
            Err(e) => column_failure(column@, from@, to@) == Some(e@),
        },
{
    match from.index_of(column.name.as_str()) {
        Ok(i) => {
            if i < to.len() {
                Ok(Column::new_unqualified(to.field(i).name.clone()))
            } else {
                Err(
                    ExecError::SchemaMismatch(
                        "a filter column has no counterpart at its position".to_owned(),
                    ),
                )
            }
        },
        Err(e) => Err(e),
    }
}

/// Moves every column reference of `p` from `from` to `to`, or reports
/// the first one that cannot be moved.
pub fn rewrite_predicate(p: &Predicate, from: &Schema, to: &Schema) -> (r: Result<
    Predicate,
    ExecError,
>)
    ensures
        match r {
            Ok(q) => first_failure(p@, from@, to@) is None && q@ == rewritten(p@, from@, to@),
            Err(e) => first_failure(p@, from@, to@) == Some(e@),
        },
    decreases p,
{
    match p {
        Predicate::Column(c) => {
            match rewrite_column(c, from, to) {
                Ok(c2) => Ok(Predicate::Column(c2)),
                Err(e) => Err(e),
            }
        },
        Predicate::Literal(l) => Ok(Predicate::Literal(l.clone())),
        Predicate::Unary { op, operand } => {
            match rewrite_predicate(operand, from, to) {
                Ok(q) => Ok(Predicate::Unary { op: *op, operand: Box::new(q) }),
                Err(e) => Err(e),
            }
        },
        Predicate::Binary { left, op, right } => {
            let l = match rewrite_predicate(left, from, to) {
                Ok(q) => q,
                Err(e) => { return Err(e); },
            };
            match rewrite_predicate(right, from, to) {
                Ok(q) => Ok(Predicate::Binary { left: Box::new(l), op: *op, right: Box::new(q) }),
                Err(e) => Err(e),
            }
        },
        Predicate::InList { operand, list, negated } => {
            let head = match rewrite_predicate(operand, from, to) {
                Ok(q) => q,
                Err(e) => { return Err(e); },
            };
            let ghost models = p@->InList_list;
            proof {
                assert(models.len() == list@.len());
                assert forall|j: int| 0 <= j < list@.len() implies models[j] == list@[j]@ by {}
                assert(models.skip(0) =~= models);
                assert(first_failure(p@, from@, to@) == first_failure_in(models, from@, to@));
            }
            let mut items: Vec<Predicate> = Vec::new();
            let mut i: usize = 0;
            while i < list.len()
                invariant
                    i <= list.len(),
                    items@.len() == i,
                    p matches Predicate::InList { list: l, .. } && l == list,
                    models == p@->InList_list,
                    models.len() == list@.len(),
                    forall|j: int| 0 <= j < list@.len() ==> models[j] == list@[j]@,
                    first_failure(p@, from@, to@) == first_failure_in(models, from@, to@),
                    first_failure_in(models, from@, to@) == first_failure_in(
                        models.skip(i as int),
                        from@,
                        to@,
                    ),
                    forall|j: int| 0 <= j < i ==> items@[j]@ == rewritten(models[j], from@, to@),
                decreases list.len() - i,
            {
                proof {
                    assert(models.skip(i as int).drop_first() =~= models.skip(i as int + 1));
                    assert(models.skip(i as int)[0] == models[i as int]);
                }
                match rewrite_predicate(&list[i], from, to) {
                    Ok(q) => {
                        items.push(q);
                    },
                    Err(e) => {
                        return Err(e);
                    },
                }
                i += 1;
            }
            let q = Predicate::InList { operand: Box::new(head), list: items, negated: *negated };
            proof {
                assert(models.skip(i as int) =~= Seq::empty());
                assert(q@->InList_list =~= rewritten(p@, from@, to@)->InList_list);
            }
            Ok(q)
        },
        Predicate::Other { tag, children } => {
            let ghost models = p@->Other_children;
            proof {
                assert(models.len() == children@.len());
                assert forall|j: int| 0 <= j < children@.len() implies models[j]
                    == children@[j]@ by {}
                assert(models.skip(0) =~= models);
                assert(first_failure(p@, from@, to@) == first_failure_in(models, from@, to@));
            }
            let mut items: Vec<Predicate> = Vec::new();
            let mut i: usize = 0;
            while i < children.len()
                invariant
                    i <= children.len(),
                    items@.len() == i,
                    p matches Predicate::Other { children: c, .. } && c == children,
                    models == p@->Other_children,
                    models.len() == children@.len(),
                    forall|j: int| 0 <= j < children@.len() ==> models[j] == children@[j]@,
                    first_failure(p@, from@, to@) == first_failure_in(models, from@, to@),
                    first_failure_in(models, from@, to@) == first_failure_in(
                        models.skip(i as int),
                        from@,
                        to@,
                    ),
                    forall|j: int| 0 <= j < i ==> items@[j]@ == rewritten(models[j], from@, to@),
                decreases children.len() - i,
            {
                proof {
                    assert(models.skip(i as int).drop_first() =~= models.skip(i as int + 1));
                    assert(models.skip(i as int)[0] == models[i as int]);
                }
                match rewrite_predicate(&children[i], from, to) {
                    Ok(q) => {
                        items.push(q);
                    },
                    Err(e) => {
                        return Err(e);
                    },
                }
                i += 1;
            }
            let q = Predicate::Other { tag: *tag, children: items };
            proof {
                assert(models.skip(i as int) =~= Seq::empty());
                assert(q@->Other_children =~= rewritten(p@, from@, to@)->Other_children);
            }
            Ok(q)
        },
    }
}

/// Rewrites each filter from the column names of `from_schema` to those
/// of `to_schema`: a reference to a column is replaced by an unqualified
/// reference to the column of `to_schema` at the position where
/// `from_schema` first has that name. It works on any two schemas. It
/// fails on the first reference, in reading order, that cannot be moved:
/// with `ColumnNotFound` where `from_schema` lacks the name, and with
/// `SchemaMismatch` where `to_schema` has no column at the position.
pub fn rewrite_filters_column(
    filters: &Vec<Predicate>,
    from_schema: &Schema,
    to_schema: &Schema,
) -> (r: Result<Vec<Predicate>, ExecError>)
    ensures
        match r {
            Ok(v) => {
                &&& first_failure_in(predicates_model(filters@), from_schema@, to_schema@) is None
                &&& predicates_model(v@) == rewritten_all(
                    predicates_model(filters@),
                    from_schema@,
                    to_schema@,
                )
            },
            Err(e) => first_failure_in(predicates_model(filters@), from_schema@, to_schema@)
                == Some(e@),
        },
{
    let ghost models = predicates_model(filters@);
    proof {
        assert(models.skip(0) =~= models);
    }
    let mut items: Vec<Predicate> = Vec::new();
    let mut i: usize = 0;
    while i < filters.len()
        invariant
            i <= filters.len(),
            items@.len() == i,
            models == predicates_model(filters@),
            first_failure_in(models, from_schema@, to_schema@) == first_failure_in(
                models.skip(i as int),
                from_schema@,
                to_schema@,
            ),
            forall|j: int|
                0 <= j < i ==> items@[j]@ == rewritten(models[j], from_schema@, to_schema@),
        decreases filters.len() - i,
    {
        proof {
            assert(models.skip(i as int).drop_first() =~= models.skip(i as int + 1));
            assert(models.skip(i as int)[0] == models[i as int]);
        }
        match rewrite_predicate(&filters[i], from_schema, to_schema) {
            Ok(q) => {
                items.push(q);
            },
            Err(e) => {
                return Err(e);
            },
        }
        i += 1;
    }
    proof {
        assert(models.skip(i as int) =~= Seq::empty());
        assert(predicates_model(items@) =~= rewritten_all(models, from_schema@, to_schema@));
    }
    Ok(items)
}

/// `c` without its table qualifier.
pub open spec fn without_qualifier(c: ColumnModel) -> ColumnModel {
    ColumnModel { relation: None, name: c.name }
}

/// `p` with every column reference stripped of its table qualifier.
pub open spec fn unqualified(p: PredicateModel) -> PredicateModel {
    map_columns(p, |c: ColumnModel| without_qualifier(c))
}

/// [`unqualified`] applied to each tree of a list.
pub open spec fn unqualified_all(list: Seq<PredicateModel>) -> Seq<PredicateModel> {
    Seq::new(list.len(), |i: int| unqualified(list[i]))
}

/// Every column reference of every tree of `list` satisfies `holds`.
pub open spec fn all_columns_in(
    list: Seq<PredicateModel>,
    holds: spec_fn(ColumnModel) -> bool,
) -> bool {
    forall|i: int| 0 <= i < list.len() ==> all_columns(#[trigger] list[i], holds)
}

/// The column named as `c` is found in `from`, and the column of `to` at
/// that position is the first of `to` to carry its name: looking that
/// name up in `to` leads back to the same position.
pub open spec fn returns_to_position(
    c: ColumnModel,
    from: Seq<FieldModel>,
    to: Seq<FieldModel>,
) -> bool {
    position_of(from, c.name) matches Some(i) && position_of(to, to[i].name) == Some(i)
}

/// No two columns share a name.
pub open spec fn distinct_names(columns: Seq<FieldModel>) -> bool {
    forall|i: int, j: int|
        0 <= i < j < columns.len() ==> (#[trigger] columns[i]).name != (#[trigger] columns[j]).name
}

/// Mapping columns by two functions that agree on every column of `p`
/// gives the same tree.
pub proof fn lemma_map_columns_agree(
    p: PredicateModel,
    f: spec_fn(ColumnModel) -> ColumnModel,
    g: spec_fn(ColumnModel) -> ColumnModel,
    agree: spec_fn(ColumnModel) -> bool,
)
    requires
        all_columns(p, agree),
        forall|c: ColumnModel| #[trigger] agree(c) ==> f(c) == g(c),
    ensures
        map_columns(p, f) == map_columns(p, g),
    decreases p,
{
    match p {
        PredicateModel::Column(_) => {},
        PredicateModel::Literal(_) => {},
        PredicateModel::Unary { operand, .. } => {
            lemma_map_columns_agree(*operand, f, g, agree);
        },
        PredicateModel::Binary { left, right, .. } => {
            lemma_map_columns_agree(*left, f, g, agree);
            lemma_map_columns_agree(*right, f, g, agree);
        },
        PredicateModel::InList { operand, list, .. } => {
            lemma_map_columns_agree(*operand, f, g, agree);
            assert forall|i: int| 0 <= i < list.len() implies map_columns(list[i], f)
                == map_columns(list[i], g) by {
                lemma_map_columns_agree(list[i], f, g, agree);
            }
            assert(map_columns(p, f)->InList_list =~= map_columns(p, g)->InList_list);
        },
        PredicateModel::Other { children, .. } => {
            assert forall|i: int| 0 <= i < children.len() implies map_columns(children[i], f)
                == map_columns(children[i], g) by {
                lemma_map_columns_agree(children[i], f, g, agree);
            }
            assert(map_columns(p, f)->Other_children =~= map_columns(p, g)->Other_children);
        },
    }
}

/// Mapping columns by a function that leaves every column of `p` as it
/// is gives `p` back.
pub proof fn lemma_map_columns_fixed(
    p: PredicateModel,
    f: spec_fn(ColumnModel) -> ColumnModel,
    fixed: spec_fn(ColumnModel) -> bool,
)
    requires
        all_columns(p, fixed),
        forall|c: ColumnModel| #[trigger] fixed(c) ==> f(c) == c,
    ensures
        map_columns(p, f) == p,
    decreases p,
{
    match p {
        PredicateModel::Column(_) => {},
        PredicateModel::Literal(_) => {},
        PredicateModel::Unary { operand, .. } => {
            lemma_map_columns_fixed(*operand, f, fixed);
        },
        PredicateModel::Binary { left, right, .. } => {
            lemma_map_columns_fixed(*left, f, fixed);
            lemma_map_columns_fixed(*right, f, fixed);
        },
        PredicateModel::InList { operand, list, .. } => {
            lemma_map_columns_fixed(*operand, f, fixed);
            assert forall|i: int| 0 <= i < list.len() implies map_columns(list[i], f)
                == list[i] by {
                lemma_map_columns_fixed(list[i], f, fixed);
            }
            assert(map_columns(p, f)->InList_list =~= list);
        },
        PredicateModel::Other { children, .. } => {
            assert forall|i: int| 0 <= i < children.len() implies map_columns(children[i], f)
                == children[i] by {
                lemma_map_columns_fixed(children[i], f, fixed);
            }
            assert(map_columns(p, f)->Other_children =~= children);
        },
    }
}

/// Mapping columns by `f` and then by `g` is mapping them by `g` after `f`.
pub proof fn lemma_map_columns_compose(
    p: PredicateModel,
    f: spec_fn(ColumnModel) -> ColumnModel,
    g: spec_fn(ColumnModel) -> ColumnModel,
    both: spec_fn(ColumnModel) -> ColumnModel,
)
    requires
        forall|c: ColumnModel| #[trigger] both(c) == g(f(c)),
    ensures
        map_columns(map_columns(p, f), g) == map_columns(p, both),
    decreases p,
{
    match p {
        PredicateModel::Column(_) => {},
        PredicateModel::Literal(_) => {},
        PredicateModel::Unary { operand, .. } => {
            lemma_map_columns_compose(*operand, f, g, both);
        },
        PredicateModel::Binary { left, right, .. } => {
            lemma_map_columns_compose(*left, f, g, both);
            lemma_map_columns_compose(*right, f, g, both);
        },
        PredicateModel::InList { operand, list, .. } => {
            lemma_map_columns_compose(*operand, f, g, both);
            assert forall|i: int| 0 <= i < list.len() implies map_columns(
                map_columns(list[i], f),
                g,
            ) == map_columns(list[i], both) by {
                lemma_map_columns_compose(list[i], f, g, both);
            }
            assert(map_columns(map_columns(p, f), g)->InList_list =~= map_columns(
                p,
                both,
            )->InList_list);
        },
        PredicateModel::Other { children, .. } => {
            assert forall|i: int| 0 <= i < children.len() implies map_columns(
                map_columns(children[i], f),
                g,
            ) == map_columns(children[i], both) by {
                lemma_map_columns_compose(children[i], f, g, both);
            }
            assert(map_columns(map_columns(p, f), g)->Other_children =~= map_columns(
                p,
                both,
            )->Other_children);
        },
    }
}

/// A property holds of every column of the mapped tree exactly when its
/// pull-back along `f` holds of every column of `p`.
pub proof fn lemma_all_columns_mapped(
    p: PredicateModel,
    f: spec_fn(ColumnModel) -> ColumnModel,
    holds: spec_fn(ColumnModel) -> bool,
    before: spec_fn(ColumnModel) -> bool,
)
    requires
        forall|c: ColumnModel| #[trigger] before(c) == holds(f(c)),
    ensures
        all_columns(map_columns(p, f), holds) == all_columns(p, before),
    decreases p,
{
    match p {
        PredicateModel::Column(_) => {},
        PredicateModel::Literal(_) => {},
        PredicateModel::Unary { operand, .. } => {
            lemma_all_columns_mapped(*operand, f, holds, before);
        },
        PredicateModel::Binary { left, right, .. } => {
            lemma_all_columns_mapped(*left, f, holds, before);
            lemma_all_columns_mapped(*right, f, holds, before);
        },
        PredicateModel::InList { operand, list, .. } => {
            lemma_all_columns_mapped(*operand, f, holds, before);
            let mapped = map_columns(p, f)->InList_list;
            assert forall|i: int| 0 <= i < list.len() implies all_columns(
                #[trigger] mapped[i],
                holds,
            ) == all_columns(list[i], before) by {
                lemma_all_columns_mapped(list[i], f, holds, before);
            }
            if all_columns(p, before) {
                assert forall|i: int| 0 <= i < mapped.len() implies all_columns(
                    #[trigger] mapped[i],
                    holds,
                ) by {
                    assert(all_columns(list[i], before));
                }
            }
            if all_columns(map_columns(p, f), holds) {
                assert forall|i: int| 0 <= i < list.len() implies all_columns(
                    #[trigger] list[i],
                    before,
                ) by {
                    assert(all_columns(mapped[i], holds));
                }
            }
        },
        PredicateModel::Other { children, .. } => {
            let mapped = map_columns(p, f)->Other_children;
            assert forall|i: int| 0 <= i < children.len() implies all_columns(
                #[trigger] mapped[i],
                holds,
            ) == all_columns(children[i], before) by {
                lemma_all_columns_mapped(children[i], f, holds, before);
            }
            if all_columns(p, before) {
                assert forall|i: int| 0 <= i < mapped.len() implies all_columns(
                    #[trigger] mapped[i],
                    holds,
                ) by {
                    assert(all_columns(children[i], before));
                }
            }
            if all_columns(map_columns(p, f), holds) {
                assert forall|i: int| 0 <= i < children.len() implies all_columns(
                    #[trigger] children[i],
                    before,
                ) by {
                    assert(all_columns(mapped[i], holds));
                }
            }
        },
    }
}

/// A property that follows from one holding of every column of `p`
/// holds of every column of `p` too.
pub proof fn lemma_all_columns_weaken(
    p: PredicateModel,
    strong: spec_fn(ColumnModel) -> bool,
    weak: spec_fn(ColumnModel) -> bool,
)
    requires
        all_columns(p, strong),
        forall|c: ColumnModel| #[trigger] strong(c) ==> weak(c),
    ensures
        all_columns(p, weak),
    decreases p,
{
    match p {
        PredicateModel::Column(_) => {},
        PredicateModel::Literal(_) => {},
        PredicateModel::Unary { operand, .. } => {
            lemma_all_columns_weaken(*operand, strong, weak);
        },
        PredicateModel::Binary { left, right, .. } => {
            lemma_all_columns_weaken(*left, strong, weak);
            lemma_all_columns_weaken(*right, strong, weak);
        },
        PredicateModel::InList { operand, list, .. } => {
            lemma_all_columns_weaken(*operand, strong, weak);
            assert forall|i: int| 0 <= i < list.len() implies all_columns(
                #[trigger] list[i],
                weak,
            ) by {
                lemma_all_columns_weaken(list[i], strong, weak);
            }
        },
        PredicateModel::Other { children, .. } => {
            assert forall|i: int| 0 <= i < children.len() implies all_columns(
                #[trigger] children[i],
                weak,
            ) by {
                lemma_all_columns_weaken(children[i], strong, weak);
            }
        },
    }
}

/// Every column of `p` can be moved exactly when `p` has no failure.
pub proof fn lemma_first_failure_none(
    p: PredicateModel,
    from: Seq<FieldModel>,
    to: Seq<FieldModel>,
    movable: spec_fn(ColumnModel) -> bool,
)
    requires
        forall|c: ColumnModel| #[trigger] movable(c) == (column_failure(c, from, to) is None),
    ensures
        first_failure(p, from, to) is None <==> all_columns(p, movable),
    decreases p,
{
    match p {
        PredicateModel::Column(_) => {},
        PredicateModel::Literal(_) => {},
        PredicateModel::Unary { operand, .. } => {
            lemma_first_failure_none(*operand, from, to, movable);
        },
        PredicateModel::Binary { left, right, .. } => {
            lemma_first_failure_none(*left, from, to, movable);
            lemma_first_failure_none(*right, from, to, movable);
        },
        PredicateModel::InList { operand, list, .. } => {
            lemma_first_failure_none(*operand, from, to, movable);
            lemma_first_failure_in_none(list, from, to, movable);
        },
        PredicateModel::Other { children, .. } => {
            lemma_first_failure_in_none(children, from, to, movable);
        },
    }
}

/// [`lemma_first_failure_none`] for a list of trees.
pub proof fn lemma_first_failure_in_none(
    list: Seq<PredicateModel>,
    from: Seq<FieldModel>,
    to: Seq<FieldModel>,
    movable: spec_fn(ColumnModel) -> bool,
)
    requires
        forall|c: ColumnModel| #[trigger] movable(c) == (column_failure(c, from, to) is None),
    ensures
        first_failure_in(list, from, to) is None <==> all_columns_in(list, movable),
    decreases list,
{
    if list.len() > 0 {
        let rest = list.drop_first();
        lemma_first_failure_none(list[0], from, to, movable);
        lemma_first_failure_in_none(rest, from, to, movable);
        if all_columns_in(list, movable) {
            assert forall|i: int| 0 <= i < rest.len() implies all_columns(
                #[trigger] rest[i],
                movable,
            ) by {
                assert(rest[i] == list[i + 1]);
            }
        }
        if first_failure_in(list, from, to) is None {
            assert forall|i: int| 0 <= i < list.len() implies all_columns(
                #[trigger] list[i],
                movable,
            ) by {
                if i > 0 {
                    assert(list[i] == rest[i - 1]);
                }
            }
        }
    }
}

/// The failure that stands for a missing column name.
pub open spec fn missing(name: Option<Seq<char>>) -> Option<ExecErrorModel> {
    match name {
        None => None,
        Some(n) => Some(ExecErrorModel::ColumnNotFound(n)),
    }
}

/// Where `to` has at least as many columns as `from`, a column reference
/// fails only for a name that `from` lacks: the first failure is the
/// first missing column.
pub proof fn lemma_failure_is_missing(
    p: PredicateModel,
    from: Seq<FieldModel>,
    to: Seq<FieldModel>,
)
    requires
        from.len() <= to.len(),
    ensures
        first_failure(p, from, to) == missing(first_missing(p, from)),
    decreases p,
{
    match p {
        PredicateModel::Column(c) => {
            lemma_position_of_none(from, c.name);
        },
        PredicateModel::Literal(_) => {},
        PredicateModel::Unary { operand, .. } => {
            lemma_failure_is_missing(*operand, from, to);
        },
        PredicateModel::Binary { left, right, .. } => {
            lemma_failure_is_missing(*left, from, to);
            lemma_failure_is_missing(*right, from, to);
        },
        PredicateModel::InList { operand, list, .. } => {
            lemma_failure_is_missing(*operand, from, to);
            lemma_failure_in_is_missing(list, from, to);
        },
        PredicateModel::Other { children, .. } => {
            lemma_failure_in_is_missing(children, from, to);
        },
    }
}

/// [`lemma_failure_is_missing`] for a list of trees.
pub proof fn lemma_failure_in_is_missing(
    list: Seq<PredicateModel>,
    from: Seq<FieldModel>,
    to: Seq<FieldModel>,
)
    requires
        from.len() <= to.len(),
    ensures
        first_failure_in(list, from, to) == missing(first_missing_in(list, from)),
    decreases list,
{
    if list.len() > 0 {
        lemma_failure_is_missing(list[0], from, to);
        lemma_failure_in_is_missing(list.drop_first(), from, to);
    }
}

/// Rewriting from `t` to `d` and back again restores every column
/// reference by position: the result is the tree it began with, the table
/// qualifiers gone. It holds for two schemas of the same column count and
/// a tree whose columns are all found in `t` at positions where `d` first
/// has its own name.
pub proof fn law_rewrite_round_trip(p: PredicateModel, t: Seq<FieldModel>, d: Seq<FieldModel>)
    requires
        t.len() == d.len(),
        all_columns(p, |c: ColumnModel| returns_to_position(c, t, d)),
    ensures
        first_failure(p, t, d) is None,
        first_failure(rewritten(p, t, d), d, t) is None,
        rewritten(rewritten(p, t, d), d, t) == unqualified(p),
{
    let home = |c: ColumnModel| returns_to_position(c, t, d);
    let there = |c: ColumnModel| counterpart(c, t, d);
    let back = |c: ColumnModel| counterpart(c, d, t);
    let both = |c: ColumnModel| back(there(c));
    let strip = |c: ColumnModel| without_qualifier(c);
    let goes = |c: ColumnModel| column_failure(c, t, d) is None;
    let comes_back = |c: ColumnModel| column_failure(c, d, t) is None;
    let comes_back_after = |c: ColumnModel| comes_back(there(c));

    assert forall|c: ColumnModel| #[trigger] home(c) implies goes(c) && comes_back_after(c) && both(c)
        == strip(c) by {
        lemma_position_of_none(t, c.name);
        let i = position_of(t, c.name).unwrap();
        lemma_position_of_none(d, d[i].name);
    }
    lemma_all_columns_weaken(p, home, goes);
    lemma_first_failure_none(p, t, d, goes);

    lemma_all_columns_weaken(p, home, comes_back_after);
    lemma_all_columns_mapped(p, there, comes_back, comes_back_after);
    lemma_first_failure_none(map_columns(p, there), d, t, comes_back);

    lemma_map_columns_compose(p, there, back, both);
    lemma_map_columns_agree(p, both, strip, home);
}

/// [`law_rewrite_round_trip`] for a list of filters.
pub proof fn law_rewrite_filters_round_trip(
    filters: Seq<PredicateModel>,
    t: Seq<FieldModel>,
    d: Seq<FieldModel>,
)
    requires
        t.len() == d.len(),
        all_columns_in(filters, |c: ColumnModel| returns_to_position(c, t, d)),
    ensures
        first_failure_in(filters, t, d) is None,
        first_failure_in(rewritten_all(filters, t, d), d, t) is None,
        rewritten_all(rewritten_all(filters, t, d), d, t) == unqualified_all(filters),
{
    let home = |c: ColumnModel| returns_to_position(c, t, d);
    let goes = |c: ColumnModel| column_failure(c, t, d) is None;
    let comes_back = |c: ColumnModel| column_failure(c, d, t) is None;
    let there = rewritten_all(filters, t, d);
    assert forall|i: int| 0 <= i < filters.len() implies all_columns(#[trigger] filters[i], goes)
        && rewritten(there[i], d, t) == unqualified(filters[i]) by {
        assert(all_columns(filters[i], home));
        law_rewrite_round_trip(filters[i], t, d);
        lemma_first_failure_none(filters[i], t, d, goes);
    }
    assert forall|i: int| 0 <= i < there.len() implies all_columns(
        #[trigger] there[i],
        comes_back,
    ) by {
        assert(all_columns(filters[i], home));
        law_rewrite_round_trip(filters[i], t, d);
        lemma_first_failure_none(there[i], d, t, comes_back);
    }
    lemma_first_failure_in_none(filters, t, d, goes);
    lemma_first_failure_in_none(there, d, t, comes_back);
    assert(rewritten_all(there, d, t) =~= unqualified_all(filters));
}

/// Where the columns of `to` carry pairwise distinct names and `to` has
/// a column at its position, a column of `from` that is found returns to
/// its position.
pub proof fn lemma_distinct_names_return(
    c: ColumnModel,
    from: Seq<FieldModel>,
    to: Seq<FieldModel>,
)
    requires
        distinct_names(to),
        column_failure(c, from, to) is None,
    ensures
        returns_to_position(c, from, to),
{
    lemma_position_of_none(from, c.name);
    let i = position_of(from, c.name).unwrap();
    assert(crate::schema::is_first_position(to, to[i].name, i));
    crate::schema::lemma_position_of_first(to, to[i].name, i);
}

/// Rewriting from `t` to `d` and back restores every column reference
/// wherever the two schemas have the same column count, the columns of
/// `d` carry pairwise distinct names, and the rewriting from `t` to `d`
/// succeeds.
pub proof fn law_rewrite_round_trip_distinct(
    p: PredicateModel,
    t: Seq<FieldModel>,
    d: Seq<FieldModel>,
)
    requires
        t.len() == d.len(),
        distinct_names(d),
        first_failure(p, t, d) is None,
    ensures
        first_failure(rewritten(p, t, d), d, t) is None,
        rewritten(rewritten(p, t, d), d, t) == unqualified(p),
{
    let goes = |c: ColumnModel| column_failure(c, t, d) is None;
    let home = |c: ColumnModel| returns_to_position(c, t, d);
    lemma_first_failure_none(p, t, d, goes);
    assert forall|c: ColumnModel| #[trigger] goes(c) implies home(c) by {
        lemma_distinct_names_return(c, t, d);
    }
    lemma_all_columns_weaken(p, goes, home);
    law_rewrite_round_trip(p, t, d);
}

/// Rewriting between a schema and itself changes nothing but the table
/// qualifiers, which it removes: a tree whose columns are all found in
/// `d` comes back unqualified, and unchanged where it had no qualifier.
pub proof fn law_rewrite_same_schema(p: PredicateModel, d: Seq<FieldModel>)
    requires
        first_failure(p, d, d) is None,
    ensures
        rewritten(p, d, d) == unqualified(p),
        all_columns(p, |c: ColumnModel| c.relation is None) ==> rewritten(p, d, d) == p,
{
    let found = |c: ColumnModel| column_failure(c, d, d) is None;
    let same = |c: ColumnModel| counterpart(c, d, d);
    let strip = |c: ColumnModel| without_qualifier(c);
    let bare = |c: ColumnModel| c.relation is None;
    lemma_first_failure_none(p, d, d, found);
    assert forall|c: ColumnModel| #[trigger] found(c) implies same(c) == strip(c) by {
        lemma_position_of_none(d, c.name);
    }
    lemma_map_columns_agree(p, same, strip, found);
    if all_columns(p, bare) {
        lemma_map_columns_fixed(p, strip, bare);
    }
}

/// [`law_rewrite_same_schema`] for a list of filters.
pub proof fn law_rewrite_filters_same_schema(filters: Seq<PredicateModel>, d: Seq<FieldModel>)
    requires
        first_failure_in(filters, d, d) is None,
    ensures
        rewritten_all(filters, d, d) == unqualified_all(filters),
        all_columns_in(filters, |c: ColumnModel| c.relation is None) ==> rewritten_all(
            filters,
            d,
            d,
        ) == filters,
{
    let found = |c: ColumnModel| column_failure(c, d, d) is None;
    let bare = |c: ColumnModel| c.relation is None;
    lemma_first_failure_in_none(filters, d, d, found);
    assert forall|i: int| 0 <= i < filters.len() implies rewritten(#[trigger] filters[i], d, d)
        == unqualified(filters[i]) && (all_columns(filters[i], bare) ==> rewritten(
        filters[i],
        d,
        d,
    ) == filters[i]) by {
        assert(all_columns(filters[i], found));
        lemma_first_failure_none(filters[i], d, d, found);
        law_rewrite_same_schema(filters[i], d);
    }
    assert(rewritten_all(filters, d, d) =~= unqualified_all(filters));
    if all_columns_in(filters, bare) {
        assert(rewritten_all(filters, d, d) =~= filters);
    }
}

/// A tree without column references is rewritten to itself, whatever the
/// two schemas are, and so is a list of such trees.
pub proof fn law_rewrite_without_columns(
    filters: Seq<PredicateModel>,
    from: Seq<FieldModel>,
    to: Seq<FieldModel>,
)
    requires
        all_columns_in(filters, |c: ColumnModel| false),
    ensures
        first_failure_in(filters, from, to) is None,
        rewritten_all(filters, from, to) == filters,
{
    let none = |c: ColumnModel| false;
    let movable = |c: ColumnModel| column_failure(c, from, to) is None;
    let there = |c: ColumnModel| counterpart(c, from, to);
    assert forall|i: int| 0 <= i < filters.len() implies all_columns(
        #[trigger] filters[i],
        movable,
    ) && rewritten(filters[i], from, to) == filters[i] by {
        assert(all_columns(filters[i], none));
        lemma_all_columns_weaken(filters[i], none, movable);
        lemma_map_columns_fixed(filters[i], there, none);
    }
    lemma_first_failure_in_none(filters, from, to, movable);
    assert(rewritten_all(filters, from, to) =~= filters);
}

} // verus!
