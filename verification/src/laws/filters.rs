use vstd::prelude::*;

use crate::columns::{
    boolean_column, lemma_names_differ, ordered_column, table_columns, CONTENT_TYPE_COL,
    IS_FILE_COL, LAST_MODIFIED_COL, NAMESPACE_COL, NAME_COL, PARENT_COL, PATH_COL, RECURSIVE_COL,
    ROOT_COL, SIZE_COL, URI_COL,
};
use crate::conditions::{all_hold, conditions_on, evaluate, pushed_filters, ConditionView};
use crate::error::ErrorView;
use crate::expr::{simple_filter, Expr, FilterView};
use crate::rows::{ConstantsView, RowView};
use crate::scan::row_verdict;
use crate::value::{scalar_equal, scalar_less, text_less, OperatorView, ScalarView};

verus! {

/// A comparison says the same once its sides have changed places and it is mirrored, and
/// mirroring twice changes nothing.
pub proof fn lemma_mirrored(left: ScalarView, op: OperatorView, right: ScalarView)
    requires
        op.is_comparison(),
    ensures
        evaluate(left, op, right) == evaluate(right, op.mirrored(), left),
        op.mirrored().mirrored() == op,
        op.mirrored().is_comparison(),
{
}

proof fn lemma_text_order(left: Seq<char>, right: Seq<char>)
    ensures
        left == right ==> !text_less(left, right),
        text_less(left, right) ==> !text_less(right, left),
        left == right || text_less(left, right) || text_less(right, left),
    decreases left.len(),
{
    if left.len() > 0 && right.len() > 0 {
        if left[0] == right[0] {
            lemma_text_order(left.drop_first(), right.drop_first());
            if left.drop_first() == right.drop_first() {
                assert forall|i: int| 0 <= i < left.len() implies left[i] == right[i] by {
                    if i > 0 {
                        assert(left.drop_first()[i - 1] == right.drop_first()[i - 1]);
                    }
                }
                assert(left =~= right);
            }
        }
    } else if left.len() == 0 && right.len() == 0 {
        assert(left =~= right);
    }
}

/// Of two values of one type exactly one is true: the first comes before the second, they
/// are equal, or the second comes before the first. Values of different types are neither
/// equal nor ordered.
pub proof fn lemma_trichotomy(left: ScalarView, right: ScalarView)
    requires
        !(left is Other),
    ensures
        ({
            let comparable = left is Boolean && right is Boolean || left is Utf8 && right is Utf8
                || left is UInt64 && right is UInt64 || left is TimestampNanosecond
                && right is TimestampNanosecond;
            &&& comparable ==> scalar_less(left, right) || scalar_equal(left, right) || scalar_less(
                right,
                left,
            )
            &&& !comparable ==> !scalar_less(left, right) && !scalar_equal(left, right)
                && !scalar_less(right, left)
        }),
        !(scalar_less(left, right) && scalar_equal(left, right)),
        !(scalar_less(left, right) && scalar_less(right, left)),
        !(scalar_equal(left, right) && scalar_less(right, left)),
{
    match (left, right) {
        (ScalarView::Utf8(Some(a)), ScalarView::Utf8(Some(b))) => {
            lemma_text_order(a, b);
        },
        _ => {},
    }
}

/// The value that a row has in a column.
pub open spec fn column_value(
    constants: ConstantsView,
    row: RowView,
    column: Seq<char>,
) -> ScalarView {
    if column == URI_COL@ {
        ScalarView::Utf8(Some(constants.uri))
    } else if column == NAMESPACE_COL@ {
        ScalarView::Utf8(constants.namespace)
    } else if column == ROOT_COL@ {
        ScalarView::Utf8(Some(constants.root))
    } else if column == RECURSIVE_COL@ {
        ScalarView::Boolean(Some(constants.recursive))
    } else if column == PARENT_COL@ {
        ScalarView::Utf8(Some(row.parent))
    } else if column == PATH_COL@ {
        ScalarView::Utf8(Some(row.path))
    } else if column == NAME_COL@ {
        ScalarView::Utf8(Some(row.name))
    } else if column == IS_FILE_COL@ {
        ScalarView::Boolean(Some(row.is_file))
    } else if column == SIZE_COL@ {
        ScalarView::UInt64(Some(row.size))
    } else if column == CONTENT_TYPE_COL@ {
        ScalarView::Utf8(row.content_type)
    } else {
        ScalarView::TimestampNanosecond(row.last_modified, None)
    }
}

/// The columns on which filters are checked row by row.
pub open spec fn row_column(column: Seq<char>) -> bool {
    ||| column == PATH_COL@
    ||| column == NAME_COL@
    ||| column == IS_FILE_COL@
    ||| column == SIZE_COL@
    ||| column == CONTENT_TYPE_COL@
    ||| column == LAST_MODIFIED_COL@
}

/// Whether a row satisfies a filter.
pub open spec fn satisfies(constants: ConstantsView, row: RowView, filter: FilterView) -> bool {
    evaluate(column_value(constants, row, filter.0), filter.1, filter.2) == Ok::<bool, ErrorView>(
        true,
    )
}

/// Whether an expression of a shape that is pushed down is true of a row.
pub open spec fn true_of(constants: ConstantsView, row: RowView, expr: Expr) -> bool {
    match expr {
        Expr::BinaryExpr(binary) => match (*binary.left, *binary.right) {
            (Expr::Column(column), Expr::Literal(literal)) => evaluate(
                column_value(constants, row, column.name@),
                binary.op@,
                literal@,
            ) == Ok::<bool, ErrorView>(true),
            (Expr::Literal(literal), Expr::Column(column)) => evaluate(
                literal@,
                binary.op@,
                column_value(constants, row, column.name@),
            ) == Ok::<bool, ErrorView>(true),
            _ => false,
        },
        Expr::Column(column) => column_value(constants, row, column.name@) == ScalarView::Boolean(
            Some(true),
        ),
        Expr::Not(inner) => match *inner {
            Expr::Column(column) => column_value(constants, row, column.name@)
                == ScalarView::Boolean(Some(false)),
            _ => false,
        },
        _ => false,
    }
}

/// The filter that is pushed down for an expression says of a row what the expression says.
pub proof fn lemma_filter_keeps_its_meaning(
    constants: ConstantsView,
    row: RowView,
    expr: Expr,
    filter: FilterView,
)
    requires
        simple_filter(expr) == Some(filter),
    ensures
        satisfies(constants, row, filter) == true_of(constants, row, expr),
{
    lemma_column_values(constants, row);
    match expr {
        Expr::BinaryExpr(binary) => match (*binary.left, *binary.right) {
            (Expr::Literal(literal), Expr::Column(column)) => {
                lemma_mirrored(
                    literal@,
                    binary.op@,
                    column_value(constants, row, column.name@),
                );
            },
            _ => {},
        },
        _ => {},
    }
}

/// A filter is pushed down exactly where some expression states it.
pub proof fn lemma_pushed(exprs: Seq<Expr>, filter: FilterView)
    ensures
        pushed_filters(exprs).contains(filter) <==> exists|i: int|
            0 <= i < exprs.len() && simple_filter(#[trigger] exprs[i]) == Some(filter),
    decreases exprs.len(),
{
    let filters = pushed_filters(exprs);
    if exprs.len() > 0 {
        let rest = exprs.drop_last();
        let before = pushed_filters(rest);
        lemma_pushed(rest, filter);
        if before.contains(filter) {
            let i = choose|i: int|
                0 <= i < rest.len() && simple_filter(#[trigger] rest[i]) == Some(filter);
            assert(exprs[i] == rest[i]);
            let k = choose|k: int| 0 <= k < before.len() && before[k] == filter;
            assert(filters[k] == filter);
        }
        if filters.contains(filter) && !before.contains(filter) {
            let k = choose|k: int| 0 <= k < filters.len() && filters[k] == filter;
            assert(k == before.len());
            assert(simple_filter(exprs[exprs.len() - 1]) == Some(filter));
        }
        if exists|i: int|
            0 <= i < exprs.len() && simple_filter(#[trigger] exprs[i]) == Some(filter) {
            let i = choose|i: int|
                0 <= i < exprs.len() && simple_filter(#[trigger] exprs[i]) == Some(filter);
            if i < rest.len() {
                assert(rest[i] == exprs[i]);
            } else {
                assert(filters[before.len() as int] == filter);
            }
        }
    }
}

/// Every pushed filter is a comparison of an ordered column, or asks a boolean column for a
/// truth value.
pub proof fn lemma_pushed_shape(exprs: Seq<Expr>, i: int)
    requires
        0 <= i < pushed_filters(exprs).len(),
    ensures
        ({
            let filter = pushed_filters(exprs)[i];
            ||| ordered_column(filter.0) && filter.1.is_comparison()
            ||| boolean_column(filter.0) && filter.1 is Eq && (filter.2 matches ScalarView::Boolean(
                wanted,
            ) && wanted is Some)
        }),
{
    let filter = pushed_filters(exprs)[i];
    assert(pushed_filters(exprs).contains(filter));
    lemma_pushed(exprs, filter);
}

/// A condition is put on a column exactly where some filter states it.
pub proof fn lemma_conditions_on(
    filters: Seq<FilterView>,
    column: Seq<char>,
    condition: ConditionView,
)
    ensures
        conditions_on(filters, column).contains(condition) <==> filters.contains(
            (column, condition.0, condition.1),
        ),
    decreases filters.len(),
{
    let wanted = (column, condition.0, condition.1);
    let all = conditions_on(filters, column);
    if filters.len() > 0 {
        let rest = filters.drop_last();
        let before = conditions_on(rest, column);
        lemma_conditions_on(rest, column, condition);
        if before.contains(condition) {
            let k = choose|k: int| 0 <= k < before.len() && before[k] == condition;
            assert(all[k] == condition);
            let i = choose|i: int| 0 <= i < rest.len() && rest[i] == wanted;
            assert(filters[i] == wanted);
        }
        if all.contains(condition) && !before.contains(condition) {
            let k = choose|k: int| 0 <= k < all.len() && all[k] == condition;
            assert(k == before.len());
            assert(filters[filters.len() - 1] == wanted);
        }
        if filters.contains(wanted) {
            let i = choose|i: int| 0 <= i < filters.len() && filters[i] == wanted;
            if i < rest.len() {
                assert(rest[i] == wanted);
            } else {
                assert(all[before.len() as int] == condition);
            }
        }
    }
}

/// A list of comparisons holds where each of them does, and else it does not.
pub proof fn lemma_all_hold(value: ScalarView, conditions: Seq<ConditionView>)
    requires
        forall|i: int| 0 <= i < conditions.len() ==> (#[trigger] conditions[i]).0.is_comparison(),
    ensures
        all_hold(value, conditions) == Ok::<bool, ErrorView>(
            forall|i: int|
                0 <= i < conditions.len() ==> evaluate(
                    value,
                    (#[trigger] conditions[i]).0,
                    conditions[i].1,
                ) == Ok::<bool, ErrorView>(true),
        ),
    decreases conditions.len(),
{
    if conditions.len() > 0 {
        let rest = conditions.drop_first();
        assert(conditions[0].0.is_comparison());
        assert forall|i: int| 0 <= i < rest.len() implies (
        #[trigger] rest[i]).0.is_comparison() by {
            assert(conditions[i + 1].0.is_comparison());
        }
        lemma_all_hold(value, rest);
        if evaluate(value, conditions[0].0, conditions[0].1) == Ok::<bool, ErrorView>(true) {
            if all_hold(value, rest) == Ok::<bool, ErrorView>(true) {
                assert forall|i: int| 0 <= i < conditions.len() implies evaluate(
                    value,
                    (#[trigger] conditions[i]).0,
                    conditions[i].1,
                ) == Ok::<bool, ErrorView>(true) by {
                    if i > 0 {
                        assert(rest[i - 1] == conditions[i]);
                    }
                }
            } else {
                let i = choose|i: int|
                    0 <= i < rest.len() && evaluate(value, (#[trigger] rest[i]).0, rest[i].1)
                        != Ok::<bool, ErrorView>(true);
                assert(conditions[i + 1] == rest[i]);
            }
        }
    }
}

/// Pushed filters are comparisons.
pub proof fn lemma_pushed_compare(exprs: Seq<Expr>, column: Seq<char>)
    ensures
        forall|i: int|
            0 <= i < conditions_on(pushed_filters(exprs), column).len() ==> (
            #[trigger] conditions_on(pushed_filters(exprs), column)[i]).0.is_comparison(),
{
    let filters = pushed_filters(exprs);
    let all = conditions_on(filters, column);
    assert forall|i: int| 0 <= i < all.len() implies (#[trigger] all[i]).0.is_comparison() by {
        assert(all.contains(all[i]));
        lemma_conditions_on(filters, column, all[i]);
        lemma_pushed(exprs, (column, all[i].0, all[i].1));
    }
}

/// What the conditions on one column say of a value: that every filter on the column holds.
pub proof fn lemma_column(exprs: Seq<Expr>, column: Seq<char>, value: ScalarView)
    ensures
        all_hold(value, conditions_on(pushed_filters(exprs), column)) == Ok::<bool, ErrorView>(
            forall|i: int|
                0 <= i < pushed_filters(exprs).len() && (#[trigger] pushed_filters(exprs)[i]).0
                    == column ==> evaluate(
                    value,
                    pushed_filters(exprs)[i].1,
                    pushed_filters(exprs)[i].2,
                ) == Ok::<bool, ErrorView>(true),
        ),
{
    let filters = pushed_filters(exprs);
    let all = conditions_on(filters, column);
    lemma_pushed_compare(exprs, column);
    lemma_all_hold(value, all);
    if all_hold(value, all) == Ok::<bool, ErrorView>(true) {
        assert forall|i: int| 0 <= i < filters.len() && (#[trigger] filters[i]).0
            == column implies evaluate(value, filters[i].1, filters[i].2) == Ok::<bool, ErrorView>(
            true,
        ) by {
            let condition = (filters[i].1, filters[i].2);
            assert(filters.contains((column, condition.0, condition.1)));
            lemma_conditions_on(filters, column, condition);
            let k = choose|k: int| 0 <= k < all.len() && all[k] == condition;
            assert(evaluate(value, all[k].0, all[k].1) == Ok::<bool, ErrorView>(true));
        }
    } else {
        let k = choose|k: int|
            0 <= k < all.len() && evaluate(value, (#[trigger] all[k]).0, all[k].1) != Ok::<
                bool,
                ErrorView,
            >(true);
        assert(all.contains(all[k]));
        lemma_conditions_on(filters, column, all[k]);
        let i = choose|i: int| 0 <= i < filters.len() && filters[i] == (column, all[k].0, all[k].1);
        assert(filters[i].0 == column);
    }
}

/// The value of a row in each column that filters are checked on.
pub proof fn lemma_column_values(constants: ConstantsView, row: RowView)
    ensures
        column_value(constants, row, URI_COL@) == ScalarView::Utf8(Some(constants.uri)),
        column_value(constants, row, NAMESPACE_COL@) == ScalarView::Utf8(constants.namespace),
        column_value(constants, row, ROOT_COL@) == ScalarView::Utf8(Some(constants.root)),
        column_value(constants, row, RECURSIVE_COL@) == ScalarView::Boolean(
            Some(constants.recursive),
        ),
        column_value(constants, row, PATH_COL@) == ScalarView::Utf8(Some(row.path)),
        column_value(constants, row, NAME_COL@) == ScalarView::Utf8(Some(row.name)),
        column_value(constants, row, IS_FILE_COL@) == ScalarView::Boolean(Some(row.is_file)),
        column_value(constants, row, SIZE_COL@) == ScalarView::UInt64(Some(row.size)),
        column_value(constants, row, CONTENT_TYPE_COL@) == ScalarView::Utf8(row.content_type),
        column_value(constants, row, LAST_MODIFIED_COL@) == ScalarView::TimestampNanosecond(
            row.last_modified,
            None,
        ),
{
    lemma_names_differ();
    let names = table_columns();
    assert(names[0] == URI_COL@ && names[1] == NAMESPACE_COL@ && names[2] == ROOT_COL@ && names[3]
        == RECURSIVE_COL@ && names[4] == PARENT_COL@ && names[5] == PATH_COL@ && names[6]
        == NAME_COL@ && names[8] == IS_FILE_COL@ && names[9] == SIZE_COL@ && names[10]
        == CONTENT_TYPE_COL@ && names[11] == LAST_MODIFIED_COL@);
}

/// The conditions of pushed filters refuse no row, and a row passes them exactly where it
/// satisfies every pushed filter on the columns that are checked row by row.
pub proof fn lemma_rows_are_filtered(
    exprs: Seq<Expr>,
    constants: ConstantsView,
    row: RowView,
)
    ensures
        row_verdict(pushed_filters(exprs), row) == Ok::<bool, ErrorView>(
            forall|i: int|
                0 <= i < pushed_filters(exprs).len() && row_column(
                    (#[trigger] pushed_filters(exprs)[i]).0,
                ) ==> satisfies(constants, row, pushed_filters(exprs)[i]),
        ),
{
    let filters = pushed_filters(exprs);
    lemma_column_values(constants, row);
    lemma_column(exprs, PATH_COL@, column_value(constants, row, PATH_COL@));
    lemma_column(exprs, NAME_COL@, column_value(constants, row, NAME_COL@));
    lemma_column(exprs, IS_FILE_COL@, column_value(constants, row, IS_FILE_COL@));
    lemma_column(exprs, SIZE_COL@, column_value(constants, row, SIZE_COL@));
    lemma_column(
        exprs,
        CONTENT_TYPE_COL@,
        column_value(constants, row, CONTENT_TYPE_COL@),
    );
    lemma_column(
        exprs,
        LAST_MODIFIED_COL@,
        column_value(constants, row, LAST_MODIFIED_COL@),
    );
}

} // verus!
