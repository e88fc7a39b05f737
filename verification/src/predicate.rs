use crate::schema::clone_data_type;
use datafusion::arrow::datatypes::DataType;
use vstd::prelude::*;

verus! {

/// A reference to a column by name, optionally qualified by a table name.
#[derive(Debug, PartialEq, Eq)]
pub struct Column {
    pub relation: Option<String>,
    pub name: String,
}

/// Mathematical value of a [`Column`].
pub struct ColumnModel {
    pub relation: Option<Seq<char>>,
    pub name: Seq<char>,
}

impl View for Column {
    type V = ColumnModel;

    open spec fn view(&self) -> ColumnModel {
        ColumnModel {
            relation: match self.relation {
                Some(r) => Some(r@),
                None => None,
            },
            name: self.name@,
        }
    }
}

/// The value of a constant.
#[derive(Debug, PartialEq, Eq)]
pub enum LiteralValue {
    Null,
    Boolean(bool),
    Int(i64),
    /// A number that is no `i64`, written in decimal notation.
    Number(String),
    Utf8(String),
}

/// Mathematical value of a [`LiteralValue`].
pub enum LiteralValueModel {
    Null,
    Boolean(bool),
    Int(i64),
    Number(Seq<char>),
    Utf8(Seq<char>),
}

impl View for LiteralValue {
    type V = LiteralValueModel;

    open spec fn view(&self) -> LiteralValueModel {
        match self {
            LiteralValue::Null => LiteralValueModel::Null,
            LiteralValue::Boolean(b) => LiteralValueModel::Boolean(*b),
            LiteralValue::Int(n) => LiteralValueModel::Int(*n),
            LiteralValue::Number(s) => LiteralValueModel::Number(s@),
            LiteralValue::Utf8(s) => LiteralValueModel::Utf8(s@),
        }
    }
}

/// A constant in a predicate: its value, and the type it is of, so that
/// a 32-bit and a 64-bit integer of the same value stay apart.
#[derive(Debug, PartialEq, Eq)]
pub struct Literal {
    pub kind: DataType,
    pub value: LiteralValue,
}

/// Mathematical value of a [`Literal`].
pub struct LiteralModel {
    pub kind: DataType,
    pub value: LiteralValueModel,
}

impl View for Literal {
    type V = LiteralModel;

    open spec fn view(&self) -> LiteralModel {
        LiteralModel { kind: self.kind, value: self.value@ }
    }
}

/// Operators that take one operand.
#[derive(Debug, Clone, Copy, PartialEq, Eq, Structural)]
pub enum UnaryOperator {
    Not,
    Negative,
    IsNull,
    IsNotNull,
}

/// Operators that take two operands.
#[derive(Debug, Clone, Copy, PartialEq, Eq, Structural)]
pub enum Operator {
    Eq,
    NotEq,
    Lt,
    LtEq,
    Gt,
    GtEq,
    And,
    Or,
    Plus,
    Minus,
    Multiply,
    Divide,
    Modulo,
    Like,
    NotLike,
}

/// A filter expression tree.
#[derive(Debug, PartialEq, Eq)]
pub enum Predicate {
    Column(Column),
    Literal(Literal),
    Unary { op: UnaryOperator, operand: Box<Predicate> },
    Binary { left: Box<Predicate>, op: Operator, right: Box<Predicate> },
    InList { operand: Box<Predicate>, list: Vec<Predicate>, negated: bool },
    /// Any other expression: a tag that says to its maker which one, and
    /// its operands in order. The tag is carried as it is.
    Other { tag: u64, children: Vec<Predicate> },
}

/// Mathematical value of a [`Predicate`].
pub enum PredicateModel {
    Column(ColumnModel),
    Literal(LiteralModel),
    Unary { op: UnaryOperator, operand: Box<PredicateModel> },
    Binary { left: Box<PredicateModel>, op: Operator, right: Box<PredicateModel> },
    InList { operand: Box<PredicateModel>, list: Seq<PredicateModel>, negated: bool },
    Other { tag: u64, children: Seq<PredicateModel> },
}

impl Predicate {
    /// The tree as a mathematical value.
    pub open spec fn model(self) -> PredicateModel
        decreases self,
    {
        match self {
            Predicate::Column(c) => PredicateModel::Column(c@),
            Predicate::Literal(l) => PredicateModel::Literal(l@),
            Predicate::Unary { op, operand } => PredicateModel::Unary {
                op,
                operand: Box::new((*operand).model()),
            },
            Predicate::Binary { left, op, right } => PredicateModel::Binary {
                left: Box::new((*left).model()),
                op,
                right: Box::new((*right).model()),
            },
            Predicate::InList { operand, list, negated } => PredicateModel::InList {
                operand: Box::new((*operand).model()),
                list: Seq::new(
                    list@.len(),
                    |i: int|
                        if 0 <= i < list@.len() {
                            list@[i].model()
                        } else {
                            PredicateModel::Other { tag: 0, children: Seq::empty() }
                        },
                ),
                negated,
            },
            Predicate::Other { tag, children } => PredicateModel::Other {
                tag,
                children: Seq::new(
                    children@.len(),
                    |i: int|
                        if 0 <= i < children@.len() {
                            children@[i].model()
                        } else {
                            PredicateModel::Other { tag: 0, children: Seq::empty() }
                        },
                ),
            },
        }
    }
}

impl View for Predicate {
    type V = PredicateModel;

    open spec fn view(&self) -> PredicateModel {
        self.model()
    }
}

/// Mathematical value of a list of predicates.
pub open spec fn predicates_model(list: Seq<Predicate>) -> Seq<PredicateModel> {
    Seq::new(list.len(), |i: int| list[i]@)
}

impl Column {
    /// A column reference without a table qualifier.
    pub fn new_unqualified(name: String) -> (column: Column)
        ensures
            column@ == (ColumnModel { relation: None, name: name@ }),
    {
        Column { relation: None, name }
    }
}

impl Clone for Column {
    fn clone(&self) -> (copy: Column)
        ensures
            copy@ == self@,
    {
        let relation = match &self.relation {
            Some(r) => Some(r.clone()),
            None => None,
        };
        Column { relation, name: self.name.clone() }
    }
}

impl Clone for LiteralValue {
    fn clone(&self) -> (copy: LiteralValue)
        ensures
            copy@ == self@,
    {
        match self {
            LiteralValue::Null => LiteralValue::Null,
            LiteralValue::Boolean(b) => LiteralValue::Boolean(*b),
            LiteralValue::Int(n) => LiteralValue::Int(*n),
            LiteralValue::Number(s) => LiteralValue::Number(s.clone()),
            LiteralValue::Utf8(s) => LiteralValue::Utf8(s.clone()),
        }
    }
}

impl Literal {
    /// A constant of this type and value.
    pub fn new(kind: DataType, value: LiteralValue) -> (literal: Literal)
        ensures
            literal@ == (LiteralModel { kind, value: value@ }),
    {
        Literal { kind, value }
    }
}

impl Clone for Literal {
    fn clone(&self) -> (copy: Literal)
        ensures
            copy@ == self@,
    {
        Literal { kind: clone_data_type(&self.kind), value: self.value.clone() }
    }
}

impl Predicate {
    /// An independent copy of the tree.
    fn duplicate(&self) -> (copy: Predicate)
        ensures
            copy@ == self@,
        decreases self,
    {
        match self {
            Predicate::Column(c) => Predicate::Column(c.clone()),
            Predicate::Literal(l) => Predicate::Literal(l.clone()),
            Predicate::Unary { op, operand } => Predicate::Unary {
                op: *op,
                operand: Box::new(operand.duplicate()),
            },
            Predicate::Binary { left, op, right } => Predicate::Binary {
                left: Box::new(left.duplicate()),
                op: *op,
                right: Box::new(right.duplicate()),
            },
            Predicate::InList { operand, list, negated } => {
                let mut copies: Vec<Predicate> = Vec::new();
                let mut i: usize = 0;
                while i < list.len()
                    invariant
                        i <= list.len(),
                        copies@.len() == i,
                        self matches Predicate::InList { list: l, .. } && l == list,
                        forall|j: int| 0 <= j < i ==> copies@[j]@ == list@[j]@,
                    decreases list.len() - i,
                {
                    copies.push(list[i].duplicate());
                    i += 1;
                }
                let copy = Predicate::InList {
                    operand: Box::new(operand.duplicate()),
                    list: copies,
                    negated: *negated,
                };
                assert(copy@->InList_list =~= self@->InList_list);
                copy
            },
            Predicate::Other { tag, children } => {
                let mut copies: Vec<Predicate> = Vec::new();
                let mut i: usize = 0;
                while i < children.len()
                    invariant
                        i <= children.len(),
                        copies@.len() == i,
                        self matches Predicate::Other { children: c, .. } && c == children,
                        forall|j: int| 0 <= j < i ==> copies@[j]@ == children@[j]@,
                    decreases children.len() - i,
                {
                    copies.push(children[i].duplicate());
                    i += 1;
                }
                let copy = Predicate::Other { tag: *tag, children: copies };
                assert(copy@->Other_children =~= self@->Other_children);
                copy
            },
        }
    }
}

impl Clone for Predicate {
    fn clone(&self) -> (copy: Predicate)
        ensures
            copy@ == self@,
    {
        self.duplicate()
    }
}

} // verus!
