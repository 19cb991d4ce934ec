use vstd::prelude::*;

use crate::conditions::{all_hold, conditions_on, evaluate, pushed_filters, ConditionView};
use crate::error::ErrorView;
use crate::expr::{simple_filter, Expr, FilterView};
use crate::value::{OperatorView, ScalarView};

verus! {

/// The names of the columns that are compared with literals.
pub open spec fn compared(name: Seq<char>) -> bool {
    ||| name == "uri"@
    ||| name == "namespace"@
    ||| name == "root"@
    ||| name == "parent"@
    ||| name == "path"@
    ||| name == "name"@
    ||| name == "size"@
    ||| name == "content_type"@
    ||| name == "last_modified"@
}

/// The names of the columns that are filters by themselves.
pub open spec fn flagged(name: Seq<char>) -> bool {
    name == "recursive"@ || name == "is_file"@
}

/// Whether an operator says of two sides what another says of the sides exchanged.
pub open spec fn turned(op: OperatorView, other: OperatorView) -> bool {
    match op {
        OperatorView::Eq => other is Eq,
        OperatorView::NotEq => other is NotEq,
        OperatorView::Lt => other is Gt,
        OperatorView::LtEq => other is GtEq,
        OperatorView::Gt => other is Lt,
        OperatorView::GtEq => other is LtEq,
        OperatorView::Other(_) => false,
    }
}

/// Every comparison of one of the compared columns with a literal is pushed down as it is,
/// and no other: with the column first unchanged, with the literal first turned round.
pub proof fn lemma_comparisons_are_pushed(expr: Expr)
    requires
        expr is BinaryExpr,
    ensures
        ({
            let binary = expr->BinaryExpr_0;
            match (*binary.left, *binary.right) {
                (Expr::Column(column), Expr::Literal(literal)) => if compared(column.name@) && !(
                binary.op@ is Other) {
                    simple_filter(expr) == Some((column.name@, binary.op@, literal@))
                } else {
                    simple_filter(expr) is None
                },
                (Expr::Literal(literal), Expr::Column(column)) => if compared(column.name@) && !(
                binary.op@ is Other) {
                    simple_filter(expr) matches Some((name, op, value)) && name == column.name@
                        && turned(binary.op@, op) && value == literal@
                } else {
                    simple_filter(expr) is None
                },
                _ => simple_filter(expr) is None,
            }
        }),
{
}

/// A boolean column is pushed down as the demand that it is true, its negation as the demand
/// that it is false, and no other expression that is not a comparison is.
pub proof fn lemma_flags_are_pushed(expr: Expr)
    requires
        !(expr is BinaryExpr),
    ensures
        match expr {
            Expr::Column(column) => simple_filter(expr) == if flagged(column.name@) {
                Some((column.name@, OperatorView::Eq, ScalarView::Boolean(Some(true))))
            } else {
                None
            },
            Expr::Not(inner) => match *inner {
                Expr::Column(column) => simple_filter(expr) == if flagged(column.name@) {
                    Some((column.name@, OperatorView::Eq, ScalarView::Boolean(Some(false))))
                } else {
                    None
                },
                _ => simple_filter(expr) is None,
            },
            _ => simple_filter(expr) is None,
        },
{
}

/// The filters of one expression are the one that it states, if it is pushed down.
pub proof fn lemma_filters_of_one(expr: Expr)
    ensures
        pushed_filters(seq![expr]) == match simple_filter(expr) {
            Some(filter) => seq![filter],
            None => Seq::<FilterView>::empty(),
        },
{
    let exprs = seq![expr];
    assert(exprs.drop_last() =~= Seq::<Expr>::empty());
    assert(pushed_filters(exprs.drop_last()) =~= Seq::<FilterView>::empty());
    assert(exprs.last() == expr);
    match simple_filter(expr) {
        Some(filter) => {
            assert(Seq::<FilterView>::empty().push(filter) =~= seq![filter]);
        },
        None => {},
    }
}

/// The filters of expressions follow each other as the expressions do: none is lost, added
/// or moved.
pub proof fn lemma_filters_follow_expressions(first: Seq<Expr>, second: Seq<Expr>)
    ensures
        pushed_filters(first + second) == pushed_filters(first) + pushed_filters(second),
        pushed_filters(Seq::<Expr>::empty()) == Seq::<FilterView>::empty(),
    decreases second.len(),
{
    if second.len() == 0 {
        assert(first + second =~= first);
        assert(pushed_filters(first) + pushed_filters(second) =~= pushed_filters(first));
    } else {
        let rest = second.drop_last();
        lemma_filters_follow_expressions(first, rest);
        assert((first + second).drop_last() =~= first + rest);
        assert((first + second).last() == second.last());
        match simple_filter(second.last()) {
            Some(filter) => {
                assert((pushed_filters(first) + pushed_filters(rest)).push(filter)
                    =~= pushed_filters(first) + pushed_filters(rest).push(filter));
            },
            None => {},
        }
    }
}

/// One filter puts its condition on its own column and on no other.
pub proof fn lemma_condition_of_one(filter: FilterView, column: Seq<char>)
    ensures
        conditions_on(seq![filter], column) == if filter.0 == column {
            seq![(filter.1, filter.2)]
        } else {
            Seq::<ConditionView>::empty()
        },
{
    let filters = seq![filter];
    assert(filters.drop_last() =~= Seq::<FilterView>::empty());
    assert(conditions_on(filters.drop_last(), column) =~= Seq::<ConditionView>::empty());
    assert(filters.last() == filter);
    assert(Seq::<ConditionView>::empty().push((filter.1, filter.2)) =~= seq![
        (filter.1, filter.2),
    ]);
}

/// The conditions on a column follow each other as the filters do: none is lost, added or
/// moved.
pub proof fn lemma_conditions_follow_filters(
    first: Seq<FilterView>,
    second: Seq<FilterView>,
    column: Seq<char>,
)
    ensures
        conditions_on(first + second, column) == conditions_on(first, column) + conditions_on(
            second,
            column,
        ),
        conditions_on(Seq::<FilterView>::empty(), column) == Seq::<ConditionView>::empty(),
    decreases second.len(),
{
    let before = conditions_on(first, column);
    if second.len() == 0 {
        assert(first + second =~= first);
        assert(before + conditions_on(second, column) =~= before);
    } else {
        let rest = second.drop_last();
        lemma_conditions_follow_filters(first, rest, column);
        assert((first + second).drop_last() =~= first + rest);
        assert((first + second).last() == second.last());
        let filter = second.last();
        assert((before + conditions_on(rest, column)).push((filter.1, filter.2)) =~= before
            + conditions_on(rest, column).push((filter.1, filter.2)));
    }
}

/// One condition decides as its comparison does, and of two lists the second one decides
/// where the first one holds, else the first.
pub proof fn lemma_verdicts_follow_conditions(
    value: ScalarView,
    first: Seq<ConditionView>,
    second: Seq<ConditionView>,
    condition: ConditionView,
)
    ensures
        all_hold(value, seq![condition]) == evaluate(value, condition.0, condition.1),
        all_hold(value, Seq::<ConditionView>::empty()) == Ok::<bool, ErrorView>(true),
        all_hold(value, first + second) == if all_hold(value, first) == Ok::<bool, ErrorView>(
            true,
        ) {
            all_hold(value, second)
        } else {
            all_hold(value, first)
        },
    decreases first.len(),
{
    assert(seq![condition].drop_first() =~= Seq::<ConditionView>::empty());
    assert(all_hold(value, seq![condition].drop_first()) == Ok::<bool, ErrorView>(true));
    if first.len() == 0 {
        assert(first + second =~= second);
    } else {
        lemma_verdicts_follow_conditions(value, first.drop_first(), second, condition);
        assert((first + second).drop_first() =~= first.drop_first() + second);
        assert((first + second)[0] == first[0]);
    }
}

} // verus!
