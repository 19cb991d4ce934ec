use vstd::prelude::*;

use crate::columns::{boolean_column, is_boolean_column, is_ordered_column, ordered_column};
use crate::value::{swap_operator, Operator, OperatorView, ScalarValue, ScalarView};

verus! {

/// A reference to a column.
#[derive(Debug, PartialEq)]
pub struct Column {
    pub name: String,
}

/// Two expressions with an operator between them.
#[derive(Debug, PartialEq)]
pub struct BinaryExpr {
    pub left: Box<Expr>,
    pub op: Operator,
    pub right: Box<Expr>,
}

/// A filter expression, as far as pushing it down depends on its shape.
#[derive(Debug, PartialEq)]
pub enum Expr {
    BinaryExpr(BinaryExpr),
    Column(Column),
    Literal(ScalarValue),
    Not(Box<Expr>),
    /// Any other expression.
    Other,
}

impl Clone for Expr {
    fn clone(&self) -> (copy: Self)
        ensures
            copy == *self,
        decreases *self,
    {
        match self {
            Expr::BinaryExpr(BinaryExpr { left, op, right }) => Expr::BinaryExpr(
                BinaryExpr {
                    left: Box::new((&**left).clone()),
                    op: op.clone(),
                    right: Box::new((&**right).clone()),
                },
            ),
            Expr::Column(column) => Expr::Column(Column { name: column.name.clone() }),
            Expr::Literal(value) => Expr::Literal(value.clone()),
            Expr::Not(inner) => Expr::Not(Box::new((&**inner).clone())),
            Expr::Other => Expr::Other,
        }
    }
}

/// A condition on a column: its name, the comparison, and the literal on the right.
pub type Filter = (String, Operator, ScalarValue);

/// The mathematical counterpart of [`Filter`].
pub type FilterView = (Seq<char>, OperatorView, ScalarView);

/// The mathematical counterpart of an optional filter.
pub open spec fn filter_view(filter: Option<Filter>) -> Option<FilterView> {
    match filter {
        Some((column, op, literal)) => Some((column@, op@, literal@)),
        None => None,
    }
}

/// The condition that `column op literal` states, if it can be pushed down: the column is
/// one of the ordered ones and the operator is a comparison.
pub open spec fn comparison_filter(
    column: Seq<char>,
    op: OperatorView,
    literal: ScalarView,
) -> Option<FilterView> {
    if ordered_column(column) && op.is_comparison() {
        Some((column, op, literal))
    } else {
        None
    }
}

/// The condition that a boolean column equals `wanted`.
pub open spec fn flag_filter(column: Seq<char>, wanted: bool) -> Option<FilterView> {
    if boolean_column(column) {
        Some((column, OperatorView::Eq, ScalarView::Boolean(Some(wanted))))
    } else {
        None
    }
}

/// The condition that an expression states, if it can be pushed down: a comparison of a
/// column with a literal, in either order, or a boolean column, plain or negated.
pub open spec fn simple_filter(expr: Expr) -> Option<FilterView> {
    match expr {
        Expr::BinaryExpr(binary) => match (*binary.left, *binary.right) {
            (Expr::Column(column), Expr::Literal(literal)) => comparison_filter(
                column.name@,
                binary.op@,
                literal@,
            ),
            (Expr::Literal(literal), Expr::Column(column)) => comparison_filter(
                column.name@,
                binary.op@.mirrored(),
                literal@,
            ),
            _ => None,
        },
        Expr::Column(column) => flag_filter(column.name@, true),
        Expr::Not(inner) => match *inner {
            Expr::Column(column) => flag_filter(column.name@, false),
            _ => None,
        },
        _ => None,
    }
}

/// The condition that one expression states, if it can be pushed down.
pub fn extract_simple_filter(expr: &Expr) -> (filter: Option<Filter>)
    ensures
        filter_view(filter) == simple_filter(*expr),
{
    match expr {
        Expr::BinaryExpr(BinaryExpr { left, op, right }) => {
            match (&**left, &**right) {
                (Expr::Column(column), Expr::Literal(value)) => {
                    if is_ordered_column(column.name.as_str()) && op.is_comparison() {
                        Some((column.name.clone(), op.clone(), value.clone()))
                    } else {
                        None
                    }
                },
                (Expr::Literal(value), Expr::Column(column)) => {
                    if is_ordered_column(column.name.as_str()) && op.is_comparison() {
                        match swap_operator(op) {
                            Some(swapped) => Some((column.name.clone(), swapped, value.clone())),
                            None => None,
                        }
                    } else {
                        None
                    }
                },
                // Anything else is too complex.
                _ => None,
            }
        },
        Expr::Column(column) => flag(column, true),
        Expr::Not(inner) => match &**inner {
            Expr::Column(column) => flag(column, false),
            _ => None,
        },
        _ => None,
    }
}

fn flag(column: &Column, wanted: bool) -> (filter: Option<Filter>)
    ensures
        filter_view(filter) == flag_filter(column.name@, wanted),
{
    if is_boolean_column(column.name.as_str()) {
        Some((column.name.clone(), Operator::Eq, ScalarValue::Boolean(Some(wanted))))
    } else {
        None
    }
}

/// For each expression in turn, the condition that it states if it can be pushed down.
pub fn extract_simple_binary_filters(exprs: &[&Expr]) -> (filters: Vec<Option<Filter>>)
    ensures
        filters@.len() == exprs@.len(),
        forall|i: int|
            0 <= i < exprs@.len() ==> filter_view(#[trigger] filters@[i]) == simple_filter(
                *exprs@[i],
            ),
{
    let mut filters: Vec<Option<Filter>> = Vec::new();
    let mut i: usize = 0;
    while i < exprs.len()
        invariant
            i <= exprs@.len(),
            filters@.len() == i,
            forall|j: int|
                0 <= j < i ==> filter_view(#[trigger] filters@[j]) == simple_filter(*exprs@[j]),
        decreases exprs@.len() - i,
    {
        filters.push(extract_simple_filter(exprs[i]));
        i += 1;
    }
    filters
}

} // verus!
