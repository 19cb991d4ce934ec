use vstd::prelude::*;

use super::filters::{
    column_value, lemma_all_hold, lemma_column, lemma_column_values, lemma_conditions_on,
    lemma_pushed_compare, lemma_pushed_shape, lemma_rows_are_filtered, row_column, satisfies,
};
use crate::columns::{
    lemma_names_differ, ordered_column, table_columns, CONTENT_TYPE_COL, LAST_MODIFIED_COL,
    NAMESPACE_COL, NAME_COL, PARENT_COL, PATH_COL, RECURSIVE_COL, ROOT_COL, SIZE_COL, URI_COL,
};
use crate::conditions::{conditions_on, evaluate, pushed_filters, ConditionView};
use crate::error::ErrorView;
use crate::expr::Expr;
use crate::plan::{
    admitted, chosen_flag, chosen_text, literal_text, scan_plan, Choice, PlanView, StoreView,
};
use crate::rows::RowView;
use crate::scan::{constants_of, row_verdict};
use crate::value::ScalarView;

verus! {

proof fn lemma_recursive_is_boolean()
    ensures
        !ordered_column(RECURSIVE_COL@),
{
    lemma_names_differ();
    let names = table_columns();
    assert(names[0] == URI_COL@ && names[1] == NAMESPACE_COL@ && names[2] == ROOT_COL@ && names[3]
        == RECURSIVE_COL@ && names[4] == PARENT_COL@ && names[5] == PATH_COL@ && names[6]
        == NAME_COL@ && names[9] == SIZE_COL@ && names[10] == CONTENT_TYPE_COL@ && names[11]
        == LAST_MODIFIED_COL@);
}

/// Whether a condition asks for a truth value.
pub open spec fn wants_flag(condition: ConditionView) -> bool {
    condition.0 is Eq && (condition.1 matches ScalarView::Boolean(wanted) && wanted is Some)
}

/// The conditions on `recursive` ask for truth values.
pub proof fn lemma_recursive_conditions(exprs: Seq<Expr>)
    ensures
        forall|k: int|
            0 <= k < conditions_on(pushed_filters(exprs), RECURSIVE_COL@).len() ==> wants_flag(
                #[trigger] conditions_on(pushed_filters(exprs), RECURSIVE_COL@)[k],
            ),
{
    let filters = pushed_filters(exprs);
    let all = conditions_on(filters, RECURSIVE_COL@);
    lemma_recursive_is_boolean();
    assert forall|k: int| 0 <= k < all.len() implies wants_flag(#[trigger] all[k]) by {
        assert(all.contains(all[k]));
        lemma_conditions_on(filters, RECURSIVE_COL@, all[k]);
        let i = choose|i: int|
            0 <= i < filters.len() && filters[i] == (RECURSIVE_COL@, all[k].0, all[k].1);
        lemma_pushed_shape(exprs, i);
    }
}

/// Where every condition asks for a truth value, the one that is chosen satisfies them all.
proof fn lemma_flag_agrees(
    conditions: Seq<ConditionView>,
    current: Option<bool>,
    recursive: Option<bool>,
)
    requires
        forall|i: int| 0 <= i < conditions.len() ==> wants_flag(#[trigger] conditions[i]),
        chosen_flag(conditions, current) == Ok::<Choice<bool>, ErrorView>(Choice::Value(recursive)),
    ensures
        current is Some ==> recursive == current,
        forall|i: int|
            0 <= i < conditions.len() ==> (#[trigger] conditions[i]).1 == ScalarView::Boolean(
                recursive,
            ),
    decreases conditions.len(),
{
    if conditions.len() > 0 {
        let rest = conditions.drop_first();
        assert(wants_flag(conditions[0]));
        assert forall|i: int| 0 <= i < rest.len() implies wants_flag(#[trigger] rest[i]) by {
            assert(conditions[i + 1] == rest[i]);
        }
        let next = if current is Some {
            current
        } else {
            conditions[0].1->Boolean_0
        };
        lemma_flag_agrees(rest, next, recursive);
        assert forall|i: int| 0 <= i < conditions.len() implies (#[trigger] conditions[i]).1
            == ScalarView::Boolean(recursive) by {
            if i > 0 {
                assert(rest[i - 1] == conditions[i]);
            }
        }
    }
}

proof fn lemma_recursive_filters(exprs: Seq<Expr>, recursive: Option<bool>)
    requires
        chosen_flag(conditions_on(pushed_filters(exprs), RECURSIVE_COL@), None) == Ok::<
            Choice<bool>,
            ErrorView,
        >(Choice::Value(recursive)),
    ensures
        forall|i: int|
            0 <= i < pushed_filters(exprs).len() && (#[trigger] pushed_filters(exprs)[i]).0
                == RECURSIVE_COL@ ==> pushed_filters(exprs)[i].1 is Eq && pushed_filters(exprs)[i].2
                == ScalarView::Boolean(recursive) && recursive is Some,
{
    let filters = pushed_filters(exprs);
    let all = conditions_on(filters, RECURSIVE_COL@);
    lemma_recursive_is_boolean();
    lemma_recursive_conditions(exprs);
    lemma_flag_agrees(all, None, recursive);
    assert forall|i: int| 0 <= i < filters.len() && (#[trigger] filters[i]).0
        == RECURSIVE_COL@ implies filters[i].1 is Eq && filters[i].2 == ScalarView::Boolean(
        recursive,
    ) && recursive is Some by {
        lemma_pushed_shape(exprs, i);
        let condition = (filters[i].1, filters[i].2);
        assert(filters.contains((RECURSIVE_COL@, condition.0, condition.1)));
        lemma_conditions_on(filters, RECURSIVE_COL@, condition);
        let k = choose|k: int| 0 <= k < all.len() && all[k] == condition;
        assert(all[k].1 == ScalarView::Boolean(recursive));
    }
}

/// Every row that a scan shows satisfies every filter that was pushed down, but for those
/// on `parent`: these choose the directory to list, and are not checked against its
/// entries.
pub proof fn lemma_shown_rows_satisfy_filters(
    exprs: Seq<Expr>,
    store: StoreView,
    limit: Option<usize>,
    path: Seq<char>,
    recursive: Option<bool>,
    row: RowView,
)
    requires
        scan_plan(pushed_filters(exprs), store, limit) == Ok::<PlanView, ErrorView>(
            PlanView::List { path, recursive, limit },
        ),
        row_verdict(pushed_filters(exprs), row) == Ok::<bool, ErrorView>(true),
    ensures
        forall|i: int|
            0 <= i < pushed_filters(exprs).len() && (#[trigger] pushed_filters(exprs)[i]).0
                != PARENT_COL@ ==> satisfies(
                constants_of(store, recursive),
                row,
                pushed_filters(exprs)[i],
            ),
{
    let filters = pushed_filters(exprs);
    let constants = constants_of(store, recursive);
    lemma_column_values(constants, row);
    lemma_rows_are_filtered(exprs, constants, row);
    lemma_column(exprs, URI_COL@, column_value(constants, row, URI_COL@));
    lemma_column(exprs, ROOT_COL@, column_value(constants, row, ROOT_COL@));
    lemma_column(exprs, NAMESPACE_COL@, column_value(constants, row, NAMESPACE_COL@));
    lemma_recursive_filters(exprs, recursive);
    assert forall|i: int| 0 <= i < filters.len() && (#[trigger] filters[i]).0
        != PARENT_COL@ implies satisfies(constants, row, filters[i]) by {
        lemma_pushed_shape(exprs, i);
        let filter = filters[i];
        if filter.0 == RECURSIVE_COL@ {
            assert(constants.recursive == recursive->0);
            assert(recursive == Some(constants.recursive));
            assert(satisfies(constants, row, filter));
        } else if row_column(filter.0) {
            assert(satisfies(constants, row, filter));
        } else if filter.0 == URI_COL@ {
            assert(satisfies(constants, row, filter));
        } else if filter.0 == ROOT_COL@ {
            assert(satisfies(constants, row, filter));
        } else {
            assert(filter.0 == NAMESPACE_COL@);
            assert(satisfies(constants, row, filter));
        }
    }
}

/// Of conditions on `parent` or on `path` the first gives the input text, and the others end
/// the scan exactly where they do not all hold of it: to state a filter twice changes
/// nothing.
pub proof fn lemma_agreeing_texts_are_chosen(conditions: Seq<ConditionView>)
    requires
        conditions.len() > 0,
        forall|i: int| 0 <= i < conditions.len() ==> (#[trigger] conditions[i]).0.is_comparison(),
    ensures
        chosen_text(conditions, None) == Ok::<Choice<Seq<char>>, ErrorView>(
            if forall|i: int|
                1 <= i < conditions.len() ==> evaluate(
                    ScalarView::Utf8(Some(literal_text(conditions[0].1))),
                    (#[trigger] conditions[i]).0,
                    conditions[i].1,
                ) == Ok::<bool, ErrorView>(true) {
                Choice::Value(Some(literal_text(conditions[0].1)))
            } else {
                Choice::Contradiction
            },
        ),
{
    let text = literal_text(conditions[0].1);
    let rest = conditions.drop_first();
    assert forall|i: int| 0 <= i < rest.len() implies (#[trigger] rest[i]).0.is_comparison() by {
        assert(conditions[i + 1] == rest[i]);
    }
    lemma_text_is_checked(rest, text);
    let value = ScalarView::Utf8(Some(text));
    if forall|i: int|
        0 <= i < rest.len() ==> evaluate(value, (#[trigger] rest[i]).0, rest[i].1) == Ok::<
            bool,
            ErrorView,
        >(true) {
        assert forall|i: int| 1 <= i < conditions.len() implies evaluate(
            value,
            (#[trigger] conditions[i]).0,
            conditions[i].1,
        ) == Ok::<bool, ErrorView>(true) by {
            assert(rest[i - 1] == conditions[i]);
        }
    } else {
        let i = choose|i: int|
            0 <= i < rest.len() && evaluate(value, (#[trigger] rest[i]).0, rest[i].1) != Ok::<
                bool,
                ErrorView,
            >(true);
        assert(conditions[i + 1] == rest[i]);
    }
}

proof fn lemma_text_is_checked(conditions: Seq<ConditionView>, text: Seq<char>)
    requires
        forall|i: int| 0 <= i < conditions.len() ==> (#[trigger] conditions[i]).0.is_comparison(),
    ensures
        chosen_text(conditions, Some(text)) == Ok::<Choice<Seq<char>>, ErrorView>(
            if forall|i: int|
                0 <= i < conditions.len() ==> evaluate(
                    ScalarView::Utf8(Some(text)),
                    (#[trigger] conditions[i]).0,
                    conditions[i].1,
                ) == Ok::<bool, ErrorView>(true) {
                Choice::Value(Some(text))
            } else {
                Choice::Contradiction
            },
        ),
    decreases conditions.len(),
{
    if conditions.len() > 0 {
        let value = ScalarView::Utf8(Some(text));
        let rest = conditions.drop_first();
        assert(conditions[0].0.is_comparison());
        assert forall|i: int| 0 <= i < rest.len() implies (
        #[trigger] rest[i]).0.is_comparison() by {
            assert(conditions[i + 1] == rest[i]);
        }
        lemma_text_is_checked(rest, text);
        lemma_all_hold(value, conditions);
        lemma_all_hold(value, rest);
    }
}

/// Comparisons of texts are never refused, and give a text where there are any.
pub proof fn lemma_text_is_decided(conditions: Seq<ConditionView>, current: Option<Seq<char>>)
    requires
        forall|i: int| 0 <= i < conditions.len() ==> (#[trigger] conditions[i]).0.is_comparison(),
    ensures
        chosen_text(conditions, current) is Ok,
        chosen_text(conditions, current) == Ok::<Choice<Seq<char>>, ErrorView>(
            Choice::Value(None),
        ) <==> conditions.len() == 0 && current is None,
    decreases conditions.len(),
{
    if conditions.len() > 0 {
        let rest = conditions.drop_first();
        assert(conditions[0].0.is_comparison());
        assert forall|i: int| 0 <= i < rest.len() implies (
        #[trigger] rest[i]).0.is_comparison() by {
            assert(conditions[i + 1] == rest[i]);
        }
        let next = match current {
            Some(_) => current,
            None => Some(literal_text(conditions[0].1)),
        };
        lemma_text_is_decided(rest, next);
    }
}

/// Demands of a truth value are never refused.
pub proof fn lemma_flag_is_decided(conditions: Seq<ConditionView>, current: Option<bool>)
    requires
        forall|i: int| 0 <= i < conditions.len() ==> wants_flag(#[trigger] conditions[i]),
    ensures
        chosen_flag(conditions, current) is Ok,
    decreases conditions.len(),
{
    if conditions.len() > 0 {
        let rest = conditions.drop_first();
        assert(wants_flag(conditions[0]));
        assert forall|i: int| 0 <= i < rest.len() implies wants_flag(#[trigger] rest[i]) by {
            assert(conditions[i + 1] == rest[i]);
        }
        let next = if current is Some {
            current
        } else {
            conditions[0].1->Boolean_0
        };
        lemma_flag_is_decided(rest, next);
    }
}

/// A scan of pushed filters is refused for one reason only: filters on both `parent` and
/// `path`, where all that is looked at before them is in order.
pub proof fn lemma_only_two_directories_are_refused(
    exprs: Seq<Expr>,
    store: StoreView,
    limit: Option<usize>,
)
    ensures
        ({
            let filters = pushed_filters(exprs);
            let on_parent = conditions_on(filters, PARENT_COL@);
            let on_path = conditions_on(filters, PATH_COL@);
            let plan = scan_plan(filters, store, limit);
            &&& plan is Err <==> {
                &&& admitted(filters, store) == Ok::<bool, ErrorView>(true)
                &&& chosen_flag(conditions_on(filters, RECURSIVE_COL@), None) != Ok::<
                    Choice<bool>,
                    ErrorView,
                >(Choice::Contradiction)
                &&& chosen_text(on_parent, None) != Ok::<Choice<Seq<char>>, ErrorView>(
                    Choice::Contradiction,
                )
                &&& on_parent.len() > 0
                &&& on_path.len() > 0
            }
            &&& plan is Err ==> plan->Err_0 == ErrorView::InvalidSchema(
                "Cannot filter on both `parent` and `path`, choose one"@,
            )
        }),
{
    let filters = pushed_filters(exprs);
    lemma_column(exprs, URI_COL@, ScalarView::Utf8(Some(store.uri())));
    lemma_column(exprs, ROOT_COL@, ScalarView::Utf8(Some(store.root)));
    lemma_column(exprs, NAMESPACE_COL@, ScalarView::Utf8(store.namespace()));
    lemma_pushed_compare(exprs, PARENT_COL@);
    lemma_pushed_compare(exprs, PATH_COL@);
    lemma_text_is_decided(conditions_on(filters, PARENT_COL@), None);
    lemma_text_is_decided(conditions_on(filters, PATH_COL@), None);
    lemma_recursive_conditions(exprs);
    lemma_flag_is_decided(conditions_on(filters, RECURSIVE_COL@), None);
}

} // verus!
