use vstd::prelude::*;

use super::filters::lemma_pushed_compare;
use super::plans::{
    lemma_flag_is_decided, lemma_only_two_directories_are_refused, lemma_recursive_conditions,
    lemma_text_is_decided,
};
use crate::conditions::{all_hold, conditions_on, evaluate, pushed_filters, ConditionView};
use crate::error::ErrorView;
use crate::expr::{Expr, FilterView};
use crate::plan::{
    admitted, chosen_flag, chosen_text, located, scan_plan, Choice, PlanView, StoreView,
};
use crate::text::path_parent;
use crate::value::{scalar_display, ScalarView};

verus! {

/// Whether every condition of a list holds of a value.
pub open spec fn each_holds(value: ScalarView, conditions: Seq<ConditionView>) -> bool {
    forall|i: int|
        0 <= i < conditions.len() ==> evaluate(
            value,
            (#[trigger] conditions[i]).0,
            conditions[i].1,
        ) == Ok::<bool, ErrorView>(true)
}

/// A list of conditions holds exactly where each of them does, whatever its operators are.
pub proof fn lemma_each_holds(value: ScalarView, conditions: Seq<ConditionView>)
    ensures
        all_hold(value, conditions) == Ok::<bool, ErrorView>(true) <==> each_holds(
            value,
            conditions,
        ),
    decreases conditions.len(),
{
    if conditions.len() > 0 {
        let rest = conditions.drop_first();
        lemma_each_holds(value, rest);
        if each_holds(value, conditions) {
            assert forall|i: int| 0 <= i < rest.len() implies evaluate(
                value,
                (#[trigger] rest[i]).0,
                rest[i].1,
            ) == Ok::<bool, ErrorView>(true) by {
                assert(conditions[i + 1] == rest[i]);
            }
            assert(evaluate(value, conditions[0].0, conditions[0].1) == Ok::<bool, ErrorView>(
                true,
            ));
        }
        if all_hold(value, conditions) == Ok::<bool, ErrorView>(true) {
            assert forall|i: int| 0 <= i < conditions.len() implies evaluate(
                value,
                (#[trigger] conditions[i]).0,
                conditions[i].1,
            ) == Ok::<bool, ErrorView>(true) by {
                if i > 0 {
                    assert(rest[i - 1] == conditions[i]);
                }
            }
        }
    }
}

/// The text of the first of some conditions; the root where its literal is no text.
pub open spec fn first_text(conditions: Seq<ConditionView>) -> Seq<char> {
    match conditions[0].1 {
        ScalarView::Utf8(Some(text)) => text,
        _ => "/"@,
    }
}

/// Whether conditions on a directory or a path agree: all but the first hold of its text.
pub open spec fn texts_agree(conditions: Seq<ConditionView>) -> bool {
    conditions.len() > 0 ==> each_holds(
        ScalarView::Utf8(Some(first_text(conditions))),
        conditions.drop_first(),
    )
}

proof fn lemma_text_stays(conditions: Seq<ConditionView>, text: Seq<char>)
    ensures
        each_holds(ScalarView::Utf8(Some(text)), conditions) ==> chosen_text(
            conditions,
            Some(text),
        ) == Ok::<Choice<Seq<char>>, ErrorView>(Choice::Value(Some(text))),
        !each_holds(ScalarView::Utf8(Some(text)), conditions) ==> !(chosen_text(
            conditions,
            Some(text),
        ) matches Ok(Choice::Value(_))),
    decreases conditions.len(),
{
    let value = ScalarView::Utf8(Some(text));
    if conditions.len() > 0 {
        let rest = conditions.drop_first();
        lemma_text_stays(rest, text);
        lemma_each_holds(value, conditions);
        lemma_each_holds(value, rest);
    }
}

/// The input text is that of the first condition, where the others agree with it.
proof fn lemma_first_text_is_chosen(conditions: Seq<ConditionView>)
    ensures
        texts_agree(conditions) ==> chosen_text(conditions, None) == Ok::<
            Choice<Seq<char>>,
            ErrorView,
        >(
            Choice::Value(
                if conditions.len() > 0 {
                    Some(first_text(conditions))
                } else {
                    None
                },
            ),
        ),
        !texts_agree(conditions) ==> !(chosen_text(conditions, None) matches Ok(Choice::Value(_))),
{
    if conditions.len() > 0 {
        lemma_text_stays(conditions.drop_first(), first_text(conditions));
    }
}

/// Whether the condition at a position is the first with a truth value, and all after it
/// hold of that. At the end there is none.
pub open spec fn flag_at(
    conditions: Seq<ConditionView>,
    recursive: Option<bool>,
    j: int,
) -> bool {
    &&& 0 <= j <= conditions.len()
    &&& forall|i: int| 0 <= i < j ==> (#[trigger] conditions[i]).1 == ScalarView::Boolean(None)
    &&& if j == conditions.len() {
        recursive is None
    } else {
        &&& recursive is Some
        &&& conditions[j].1 == ScalarView::Boolean(recursive)
        &&& each_holds(ScalarView::Boolean(recursive), conditions.skip(j + 1))
    }
}

proof fn lemma_flag_stays(conditions: Seq<ConditionView>, flag: bool)
    ensures
        each_holds(ScalarView::Boolean(Some(flag)), conditions) ==> chosen_flag(
            conditions,
            Some(flag),
        ) == Ok::<Choice<bool>, ErrorView>(Choice::Value(Some(flag))),
        !each_holds(ScalarView::Boolean(Some(flag)), conditions) ==> !(chosen_flag(
            conditions,
            Some(flag),
        ) matches Ok(Choice::Value(_))),
    decreases conditions.len(),
{
    let value = ScalarView::Boolean(Some(flag));
    if conditions.len() > 0 {
        let rest = conditions.drop_first();
        lemma_flag_stays(rest, flag);
        lemma_each_holds(value, conditions);
        lemma_each_holds(value, rest);
    }
}

/// The flag is that of the first condition with a truth value, where those after it agree.
proof fn lemma_first_flag_is_chosen(conditions: Seq<ConditionView>, recursive: Option<bool>)
    ensures
        chosen_flag(conditions, None) == Ok::<Choice<bool>, ErrorView>(Choice::Value(recursive))
            <==> exists|j: int| flag_at(conditions, recursive, j),
    decreases conditions.len(),
{
    if conditions.len() == 0 {
        if recursive is None {
            assert(flag_at(conditions, recursive, 0));
        }
    } else {
        let rest = conditions.drop_first();
        assert(conditions.skip(1) =~= rest);
        match conditions[0].1 {
            ScalarView::Boolean(Some(flag)) => {
                lemma_flag_stays(rest, flag);
                if chosen_flag(conditions, None) == Ok::<Choice<bool>, ErrorView>(
                    Choice::Value(recursive),
                ) {
                    assert(flag_at(conditions, recursive, 0));
                }
                if exists|j: int| flag_at(conditions, recursive, j) {
                    let j = choose|j: int| flag_at(conditions, recursive, j);
                    if j > 0 {
                        assert(conditions[0].1 == ScalarView::Boolean(None));
                    }
                }
            },
            ScalarView::Boolean(None) => {
                lemma_first_flag_is_chosen(rest, recursive);
                if exists|j: int| flag_at(rest, recursive, j) {
                    let j = choose|j: int| flag_at(rest, recursive, j);
                    assert forall|i: int| 0 <= i < j + 1 implies (#[trigger] conditions[i]).1
                        == ScalarView::Boolean(None) by {
                        if i > 0 {
                            assert(rest[i - 1] == conditions[i]);
                        }
                    }
                    if j < rest.len() {
                        assert(rest[j] == conditions[j + 1]);
                        assert(rest.skip(j + 1) =~= conditions.skip(j + 2));
                    }
                    assert(flag_at(conditions, recursive, j + 1));
                }
                if exists|j: int| flag_at(conditions, recursive, j) {
                    let j = choose|j: int| flag_at(conditions, recursive, j);
                    assert(j > 0);
                    assert forall|i: int| 0 <= i < j - 1 implies (#[trigger] rest[i]).1
                        == ScalarView::Boolean(None) by {
                        assert(rest[i] == conditions[i + 1]);
                    }
                    if j < conditions.len() {
                        assert(rest[j - 1] == conditions[j]);
                        assert(rest.skip(j) =~= conditions.skip(j + 1));
                    }
                    assert(flag_at(rest, recursive, j - 1));
                }
            },
            _ => {
                if exists|j: int| flag_at(conditions, recursive, j) {
                    let j = choose|j: int| flag_at(conditions, recursive, j);
                    if j > 0 {
                        assert(conditions[0].1 == ScalarView::Boolean(None));
                    }
                }
            },
        }
    }
}

/// Whether a store is the one that filters on `uri`, `root` and `namespace` ask for.
pub open spec fn store_fits(filters: Seq<FilterView>, store: StoreView) -> bool {
    &&& each_holds(
        ScalarView::Utf8(Some(store.scheme + "://"@)),
        conditions_on(filters, "uri"@),
    )
    &&& each_holds(ScalarView::Utf8(Some(store.root)), conditions_on(filters, "root"@))
    &&& each_holds(
        ScalarView::Utf8(
            if store.name.len() == 0 {
                None
            } else {
                Some(store.name)
            },
        ),
        conditions_on(filters, "namespace"@),
    )
}

/// The path under which the directory that conditions ask for is listed: an input parent
/// itself, or the path without its last component, with a slash behind it. Without either
/// it is the root.
pub open spec fn start(parents: Seq<ConditionView>, paths: Seq<ConditionView>) -> Seq<char> {
    if parents.len() > 0 {
        first_text(parents) + "/"@
    } else if paths.len() > 0 {
        match path_parent(first_text(paths)) {
            Some(holder) => holder + "/"@,
            None => "/"@ + "/"@,
        }
    } else {
        "/"@
    }
}

/// A scan lists a directory exactly where the store is the one asked for, the filters on
/// `recursive` agree, and so do those on `parent` or on `path`, of which only one has any.
/// What it lists depends on those two alone, whether it descends on `recursive` alone, and
/// the limit is that of the query.
pub proof fn lemma_what_is_listed(
    filters: Seq<FilterView>,
    store: StoreView,
    limit: Option<usize>,
    path: Seq<char>,
    recursive: Option<bool>,
    shown_limit: Option<usize>,
)
    ensures
        scan_plan(filters, store, limit) == Ok::<PlanView, ErrorView>(
            PlanView::List { path, recursive, limit: shown_limit },
        ) <==> {
            let parents = conditions_on(filters, "parent"@);
            let paths = conditions_on(filters, "path"@);
            &&& store_fits(filters, store)
            &&& exists|j: int| flag_at(conditions_on(filters, "recursive"@), recursive, j)
            &&& texts_agree(parents)
            &&& texts_agree(paths)
            &&& parents.len() == 0 || paths.len() == 0
            &&& path == start(parents, paths)
            &&& shown_limit == limit
        },
{
    lemma_each_holds(
        ScalarView::Utf8(Some(store.scheme + "://"@)),
        conditions_on(filters, "uri"@),
    );
    lemma_each_holds(ScalarView::Utf8(Some(store.root)), conditions_on(filters, "root"@));
    lemma_each_holds(
        ScalarView::Utf8(
            if store.name.len() == 0 {
                None
            } else {
                Some(store.name)
            },
        ),
        conditions_on(filters, "namespace"@),
    );
    lemma_first_flag_is_chosen(conditions_on(filters, "recursive"@), recursive);
    lemma_first_text_is_chosen(conditions_on(filters, "parent"@));
    lemma_first_text_is_chosen(conditions_on(filters, "path"@));
}

/// Filters that are pushed down lead to a listing, to nothing, or to the refusal of filters
/// on both `parent` and `path`. They are refused exactly where the store is the one asked
/// for, the filters on `recursive` agree, those on `parent` agree, and there are some on
/// `path`.
pub proof fn lemma_what_is_refused(exprs: Seq<Expr>, store: StoreView, limit: Option<usize>)
    ensures
        ({
            let filters = pushed_filters(exprs);
            let parents = conditions_on(filters, "parent"@);
            let paths = conditions_on(filters, "path"@);
            let plan = scan_plan(filters, store, limit);
            &&& plan is Err <==> {
                &&& store_fits(filters, store)
                &&& exists|recursive: Option<bool>, j: int|
                    flag_at(conditions_on(filters, "recursive"@), recursive, j)
                &&& parents.len() > 0
                &&& texts_agree(parents)
                &&& paths.len() > 0
            }
            &&& plan is Err ==> plan->Err_0 == ErrorView::InvalidSchema(
                "Cannot filter on both `parent` and `path`, choose one"@,
            )
        }),
{
    let filters = pushed_filters(exprs);
    let parents = conditions_on(filters, "parent"@);
    let flags = conditions_on(filters, "recursive"@);
    lemma_only_two_directories_are_refused(exprs, store, limit);
    lemma_each_holds(
        ScalarView::Utf8(Some(store.scheme + "://"@)),
        conditions_on(filters, "uri"@),
    );
    lemma_each_holds(ScalarView::Utf8(Some(store.root)), conditions_on(filters, "root"@));
    lemma_each_holds(
        ScalarView::Utf8(
            if store.name.len() == 0 {
                None
            } else {
                Some(store.name)
            },
        ),
        conditions_on(filters, "namespace"@),
    );
    lemma_first_text_is_chosen(parents);
    lemma_pushed_compare(exprs, "parent"@);
    lemma_text_is_decided(parents, None);
    lemma_recursive_conditions(exprs);
    lemma_flag_is_decided(flags, None);
    match chosen_flag(flags, None) {
        Ok(Choice::Value(recursive)) => {
            lemma_first_flag_is_chosen(flags, recursive);
            let j = choose|j: int| flag_at(flags, recursive, j);
            assert(flag_at(flags, recursive, j));
        },
        _ => {
            assert forall|recursive: Option<bool>, j: int| !flag_at(flags, recursive, j) by {
                lemma_first_flag_is_chosen(flags, recursive);
            }
        },
    }
}

/// The conditions on `recursive` are read one after the other. Without a flag yet, one with
/// a truth value gives it, one with a missing value gives none, and any other is refused.
/// With a flag, a condition must hold of it.
pub proof fn lemma_flags_are_read(
    first: Seq<ConditionView>,
    second: Seq<ConditionView>,
    condition: ConditionView,
    current: Option<bool>,
    flag: bool,
)
    ensures
        chosen_flag(Seq::<ConditionView>::empty(), current) == Ok::<Choice<bool>, ErrorView>(
            Choice::Value(current),
        ),
        chosen_flag(first + second, current) == match chosen_flag(first, current) {
            Ok(Choice::Value(next)) => chosen_flag(second, next),
            other => other,
        },
        chosen_flag(seq![condition], None) == match condition.1 {
            ScalarView::Boolean(value) => Ok::<Choice<bool>, ErrorView>(Choice::Value(value)),
            other => Err::<Choice<bool>, ErrorView>(
                ErrorView::InvalidSchema(
                    "Cannot evaluate `recursive "@ + condition.0.display() + " "@
                        + scalar_display(other) + "`"@,
                ),
            ),
        },
        chosen_flag(seq![condition], Some(flag)) == match evaluate(
            ScalarView::Boolean(Some(flag)),
            condition.0,
            condition.1,
        ) {
            Ok(true) => Ok::<Choice<bool>, ErrorView>(Choice::Value(Some(flag))),
            Ok(false) => Ok::<Choice<bool>, ErrorView>(Choice::Contradiction),
            Err(error) => Err::<Choice<bool>, ErrorView>(error),
        },
    decreases first.len(),
{
    let one = seq![condition];
    assert(one.drop_first() =~= Seq::<ConditionView>::empty());
    assert(chosen_flag(one.drop_first(), Some(flag)) == Ok::<Choice<bool>, ErrorView>(
        Choice::Value(Some(flag)),
    ));
    match condition.1 {
        ScalarView::Boolean(value) => {
            assert(chosen_flag(one.drop_first(), value) == Ok::<Choice<bool>, ErrorView>(
                Choice::Value(value),
            ));
        },
        _ => {},
    }
    if first.len() == 0 {
        assert(first + second =~= second);
    } else {
        assert((first + second).drop_first() =~= first.drop_first() + second);
        assert((first + second)[0] == first[0]);
        let next = match current {
            Some(_) => current,
            None => match first[0].1 {
                ScalarView::Boolean(value) => value,
                _ => None,
            },
        };
        lemma_flags_are_read(first.drop_first(), second, condition, next, flag);
    }
}

/// The conditions on `parent` and on `path` are read one after the other. Without a text
/// yet, one gives the text of its literal, or the root. With a text, it must hold of it.
pub proof fn lemma_texts_are_read(
    first: Seq<ConditionView>,
    second: Seq<ConditionView>,
    condition: ConditionView,
    current: Option<Seq<char>>,
    text: Seq<char>,
)
    ensures
        chosen_text(Seq::<ConditionView>::empty(), current) == Ok::<Choice<Seq<char>>, ErrorView>(
            Choice::Value(current),
        ),
        chosen_text(first + second, current) == match chosen_text(first, current) {
            Ok(Choice::Value(next)) => chosen_text(second, next),
            other => other,
        },
        chosen_text(seq![condition], None) == Ok::<Choice<Seq<char>>, ErrorView>(
            Choice::Value(
                Some(
                    match condition.1 {
                        ScalarView::Utf8(Some(given)) => given,
                        _ => "/"@,
                    },
                ),
            ),
        ),
        chosen_text(seq![condition], Some(text)) == match evaluate(
            ScalarView::Utf8(Some(text)),
            condition.0,
            condition.1,
        ) {
            Ok(true) => Ok::<Choice<Seq<char>>, ErrorView>(Choice::Value(Some(text))),
            Ok(false) => Ok::<Choice<Seq<char>>, ErrorView>(Choice::Contradiction),
            Err(error) => Err::<Choice<Seq<char>>, ErrorView>(error),
        },
    decreases first.len(),
{
    let one = seq![condition];
    assert(one.drop_first() =~= Seq::<ConditionView>::empty());
    assert(chosen_text(one.drop_first(), Some(text)) == Ok::<Choice<Seq<char>>, ErrorView>(
        Choice::Value(Some(text)),
    ));
    assert(chosen_text(one.drop_first(), Some(first_text(one))) == Ok::<
        Choice<Seq<char>>,
        ErrorView,
    >(Choice::Value(Some(first_text(one)))));
    if first.len() == 0 {
        assert(first + second =~= second);
    } else {
        assert((first + second).drop_first() =~= first.drop_first() + second);
        assert((first + second)[0] == first[0]);
        let next = match current {
            Some(_) => current,
            None => Some(first_text(first)),
        };
        lemma_texts_are_read(first.drop_first(), second, condition, next, text);
    }
}

/// The filters are looked at in an order: those on `uri`, `root` and `namespace`, then those
/// on `recursive`, then those on `parent`, then those on `path`. The first refusal among
/// them is that of the scan, unless something before it ends the scan without one.
pub proof fn lemma_filters_are_looked_at_in_order(
    filters: Seq<FilterView>,
    store: StoreView,
    limit: Option<usize>,
)
    ensures
        ({
            let yes = Ok::<bool, ErrorView>(true);
            let uri = all_hold(
                ScalarView::Utf8(Some(store.scheme + "://"@)),
                conditions_on(filters, "uri"@),
            );
            let root = all_hold(
                ScalarView::Utf8(Some(store.root)),
                conditions_on(filters, "root"@),
            );
            let namespace = all_hold(
                ScalarView::Utf8(
                    if store.name.len() == 0 {
                        None
                    } else {
                        Some(store.name)
                    },
                ),
                conditions_on(filters, "namespace"@),
            );
            let verdict = admitted(filters, store);
            let plan = scan_plan(filters, store, limit);
            let flag = chosen_flag(conditions_on(filters, "recursive"@), None);
            let place = located(filters);
            let parent = chosen_text(conditions_on(filters, "parent"@), None);
            let path = chosen_text(conditions_on(filters, "path"@), None);
            &&& uri != yes ==> verdict == uri
            &&& uri == yes && root != yes ==> verdict == root
            &&& uri == yes && root == yes ==> verdict == namespace
            &&& verdict matches Err(error) ==> plan == Err::<PlanView, ErrorView>(error)
            &&& verdict == Ok::<bool, ErrorView>(false) ==> plan == Ok::<PlanView, ErrorView>(
                PlanView::Skip,
            )
            &&& verdict == yes && flag is Err ==> plan == Err::<PlanView, ErrorView>(flag->Err_0)
            &&& verdict == yes && flag == Ok::<Choice<bool>, ErrorView>(Choice::Contradiction)
                ==> plan == Ok::<PlanView, ErrorView>(PlanView::Skip)
            &&& verdict == yes && (flag matches Ok(Choice::Value(_))) ==> {
                &&& place matches Err(error) ==> plan == Err::<PlanView, ErrorView>(error)
                &&& place == Ok::<Option<Seq<char>>, ErrorView>(None) ==> plan == Ok::<
                    PlanView,
                    ErrorView,
                >(PlanView::Skip)
                &&& place matches Ok(Some(found)) ==> plan == Ok::<PlanView, ErrorView>(
                    PlanView::List { path: found, recursive: flag->Ok_0->Value_0, limit },
                )
            }
            &&& parent matches Err(error) ==> place == Err::<Option<Seq<char>>, ErrorView>(error)
            &&& parent == Ok::<Choice<Seq<char>>, ErrorView>(Choice::Contradiction) ==> place
                == Ok::<Option<Seq<char>>, ErrorView>(None)
            &&& parent matches Ok(Choice::Value(Some(given))) ==> {
                &&& conditions_on(filters, "path"@).len() > 0 ==> place == Err::<
                    Option<Seq<char>>,
                    ErrorView,
                >(
                    ErrorView::InvalidSchema(
                        "Cannot filter on both `parent` and `path`, choose one"@,
                    ),
                )
                &&& conditions_on(filters, "path"@).len() == 0 ==> place == Ok::<
                    Option<Seq<char>>,
                    ErrorView,
                >(Some(given + "/"@))
            }
            &&& parent == Ok::<Choice<Seq<char>>, ErrorView>(Choice::Value(None)) ==> {
                &&& path matches Err(error) ==> place == Err::<Option<Seq<char>>, ErrorView>(error)
                &&& path == Ok::<Choice<Seq<char>>, ErrorView>(Choice::Contradiction) ==> place
                    == Ok::<Option<Seq<char>>, ErrorView>(None)
                &&& path == Ok::<Choice<Seq<char>>, ErrorView>(Choice::Value(None)) ==> place
                    == Ok::<Option<Seq<char>>, ErrorView>(Some("/"@))
                &&& path matches Ok(Choice::Value(Some(given))) ==> place == Ok::<
                    Option<Seq<char>>,
                    ErrorView,
                >(
                    Some(
                        match path_parent(given) {
                            Some(holder) => holder + "/"@,
                            None => "/"@ + "/"@,
                        },
                    ),
                )
            }
        }),
{
}

} // verus!
