use vstd::hash_map::StringHashMap;
use vstd::prelude::*;
use vstd::string::*;

use crate::error::{ErrorView, OpenDALExecError};
use crate::expr::{
    extract_simple_binary_filters, filter_view, simple_filter, Expr, Filter, FilterView,
};
use crate::value::{
    equal_to, greater_than, less_than, scalar_display, scalar_equal, scalar_less, scalar_text,
    ColumnValue, Operator, OperatorView, ScalarValue, ScalarView,
};

verus! {

/// What is asked of one column: a comparison and the literal on its right.
pub type Condition = (Operator, ScalarValue);

/// The mathematical counterpart of [`Condition`].
pub type ConditionView = (OperatorView, ScalarView);

/// The message for an operator that is no comparison.
pub open spec fn not_evaluated(left: ScalarView, op: OperatorView, right: ScalarView) -> Seq<char> {
    "Expr `"@ + scalar_display(left) + " "@ + op.display() + " "@ + scalar_display(right)
        + "` cannot be evaluated"@
}

/// Whether `left op right` holds; an operator that is no comparison is refused.
pub open spec fn evaluate(left: ScalarView, op: OperatorView, right: ScalarView) -> Result<
    bool,
    ErrorView,
> {
    match op {
        OperatorView::Eq => Ok(scalar_equal(left, right)),
        OperatorView::NotEq => Ok(!scalar_equal(left, right)),
        OperatorView::Gt => Ok(scalar_less(right, left)),
        OperatorView::GtEq => Ok(scalar_less(right, left) || scalar_equal(left, right)),
        OperatorView::Lt => Ok(scalar_less(left, right)),
        OperatorView::LtEq => Ok(scalar_less(left, right) || scalar_equal(left, right)),
        OperatorView::Other(_) => Err(ErrorView::InvalidSchema(not_evaluated(left, op, right))),
    }
}

/// The mathematical counterpart of a verdict on a value.
pub open spec fn verdict_view(verdict: Result<bool, OpenDALExecError>) -> Result<bool, ErrorView> {
    match verdict {
        Ok(holds) => Ok(holds),
        Err(error) => Err(error@),
    }
}

/// Whether `left op right` holds. Of what is compared, one side is of a type that some
/// column has: of literals of other types no more is known than how they are displayed.
pub fn eval_simple_expr(left: &ScalarValue, op: &Operator, right: &ScalarValue) -> (verdict: Result<
    bool,
    OpenDALExecError,
>)
    requires
        op@.is_comparison() ==> !(left is Other && right is Other),
    ensures
        verdict_view(verdict) == evaluate(left@, op@, right@),
{
    match op {
        Operator::Eq => Ok(equal_to(left, right)),
        Operator::NotEq => Ok(!equal_to(left, right)),
        Operator::Gt => Ok(greater_than(left, right)),
        Operator::GtEq => Ok(greater_than(left, right) || equal_to(left, right)),
        Operator::Lt => Ok(less_than(left, right)),
        Operator::LtEq => Ok(less_than(left, right) || equal_to(left, right)),
        Operator::Other(_) => {
            let mut message = "Expr `".to_string();
            message.append(scalar_text(left).as_str());
            message.append(" ");
            message.append(op.display().as_str());
            message.append(" ");
            message.append(scalar_text(right).as_str());
            message.append("` cannot be evaluated");
            Err(OpenDALExecError::InvalidSchema(message))
        },
    }
}

/// The mathematical counterpart of a list of conditions.
pub open spec fn conditions_view(conditions: Seq<Condition>) -> Seq<ConditionView> {
    conditions.map_values(|condition: Condition| (condition.0@, condition.1@))
}

/// Whether a value satisfies every condition of a list. The conditions are tried in order,
/// and the first one that does not hold decides, be it false or refused.
pub open spec fn all_hold(value: ScalarView, conditions: Seq<ConditionView>) -> Result<
    bool,
    ErrorView,
>
    decreases conditions.len(),
{
    if conditions.len() == 0 {
        Ok(true)
    } else {
        let first = evaluate(value, conditions[0].0, conditions[0].1);
        if first == Ok::<bool, ErrorView>(true) {
            all_hold(value, conditions.drop_first())
        } else {
            first
        }
    }
}

/// Whether a column's value satisfies every condition of a list.
pub fn check_all(value: &ColumnValue, conditions: &Vec<Condition>) -> (verdict: Result<
    bool,
    OpenDALExecError,
>)
    ensures
        verdict_view(verdict) == all_hold(value@, conditions_view(conditions@)),
{
    let ghost all = conditions_view(conditions@);
    let scalar = value.to_scalar();
    let mut i: usize = 0;
    assert(all.skip(0) =~= all);
    while i < conditions.len()
        invariant
            i <= conditions@.len(),
            all == conditions_view(conditions@),
            scalar@ == value@,
            !(scalar is Other),
            all_hold(value@, all) == all_hold(value@, all.skip(i as int)),
        decreases conditions@.len() - i,
    {
        assert(all.skip(i as int).drop_first() =~= all.skip(i + 1));
        match eval_simple_expr(&scalar, &conditions[i].0, &conditions[i].1) {
            Ok(true) => {},
            verdict => {
                return verdict;
            },
        }
        i += 1;
    }
    Ok(true)
}

/// The conditions that a list of filters puts on one column, in the order of the list.
pub open spec fn conditions_on(filters: Seq<FilterView>, column: Seq<char>) -> Seq<ConditionView>
    decreases filters.len(),
{
    if filters.len() == 0 {
        Seq::empty()
    } else {
        let before = conditions_on(filters.drop_last(), column);
        let filter = filters.last();
        if filter.0 == column {
            before.push((filter.1, filter.2))
        } else {
            before
        }
    }
}

/// The filters that can be pushed down, in the order of the expressions that state them.
pub open spec fn pushed_filters(exprs: Seq<Expr>) -> Seq<FilterView>
    decreases exprs.len(),
{
    if exprs.len() == 0 {
        Seq::empty()
    } else {
        let before = pushed_filters(exprs.drop_last());
        match simple_filter(exprs.last()) {
            Some(filter) => before.push(filter),
            None => before,
        }
    }
}

/// What a map from columns to lists of conditions says of one column.
spec fn grouped(by_column: Map<Seq<char>, Vec<Condition>>, column: Seq<char>) -> Seq<
    ConditionView,
> {
    if by_column.contains_key(column) {
        conditions_view(by_column[column]@)
    } else {
        Seq::empty()
    }
}

/// A list of filters, whose conditions are grouped by the column that they are about.
pub struct Conditions {
    by_column: StringHashMap<Vec<Condition>>,
    filters: Ghost<Seq<FilterView>>,
}

impl View for Conditions {
    type V = Seq<FilterView>;

    closed spec fn view(&self) -> Seq<FilterView> {
        self.filters@
    }
}

impl Conditions {
    #[verifier::type_invariant]
    spec fn agrees(self) -> bool {
        forall|column: Seq<char>| #[trigger]
            grouped(self.by_column@, column) == conditions_on(self.filters@, column)
    }

    /// No conditions at all.
    pub fn new() -> (conditions: Self)
        ensures
            conditions@ == Seq::<FilterView>::empty(),
    {
        Conditions { by_column: StringHashMap::new(), filters: Ghost(Seq::empty()) }
    }

    /// These conditions and the one that a filter states, after the others on its column.
    pub fn with(self, filter: Filter) -> (conditions: Self)
        ensures
            conditions@ == self@.push((filter.0@, filter.1@, filter.2@)),
    {
        proof {
            use_type_invariant(&self);
        }
        let mut added = self.copy_of(filter.0.as_str());
        let Conditions { by_column, filters } = self;
        let mut by_column = by_column;
        let (column, op, literal) = filter;
        let ghost seen = (column@, op@, literal@);
        let ghost before = by_column@;
        let ghost first = conditions_view(added@);
        added.push((op, literal));
        assert(conditions_view(added@) =~= first.push((op@, literal@)));
        by_column.insert(column, added);
        proof {
            let after = filters@.push(seen);
            assert(after.drop_last() =~= filters@);
            assert forall|name: Seq<char>| #[trigger]
                grouped(by_column@, name) == conditions_on(after, name) by {
                assert(grouped(before, name) == conditions_on(filters@, name));
            }
        }
        Conditions { by_column, filters: Ghost(filters@.push(seen)) }
    }

    /// A copy of the conditions on one column.
    pub fn copy_of(&self, column: &str) -> (conditions: Vec<Condition>)
        ensures
            conditions_view(conditions@) == conditions_on(self@, column@),
            conditions@.len() == conditions_on(self@, column@).len(),
            forall|i: int|
                0 <= i < conditions@.len() ==> ((#[trigger] conditions@[i]).0@, conditions@[i].1@)
                    == conditions_on(self@, column@)[i],
    {
        proof {
            use_type_invariant(self);
            assert(grouped(self.by_column@, column@) == conditions_on(self@, column@));
        }
        let mut copy: Vec<Condition> = Vec::new();
        match self.by_column.get(column) {
            Some(conditions) => {
                let mut i: usize = 0;
                while i < conditions.len()
                    invariant
                        i <= conditions@.len(),
                        copy@.len() == i,
                        forall|j: int| 0 <= j < i ==> copy@[j] == conditions@[j],
                    decreases conditions@.len() - i,
                {
                    copy.push((conditions[i].0.clone(), conditions[i].1.clone()));
                    i += 1;
                }
                assert(copy@ =~= conditions@);
            },
            None => {},
        }
        assert(conditions_view(copy@) =~= grouped(self.by_column@, column@));
        assert forall|i: int| 0 <= i < copy@.len() implies ((#[trigger] copy@[i]).0@, copy@[i].1@)
            == conditions_on(self@, column@)[i] by {
            assert(conditions_view(copy@)[i] == (copy@[i].0@, copy@[i].1@));
        }
        copy
    }

    /// Whether a value of a column satisfies every condition on that column.
    pub fn check(&self, column: &str, value: &ColumnValue) -> (verdict: Result<
        bool,
        OpenDALExecError,
    >)
        ensures
            verdict_view(verdict) == all_hold(value@, conditions_on(self@, column@)),
    {
        proof {
            use_type_invariant(self);
            assert(grouped(self.by_column@, column@) == conditions_on(self@, column@));
        }
        match self.by_column.get(column) {
            Some(conditions) => check_all(value, conditions),
            None => Ok(true),
        }
    }
}

/// Groups the conditions of the filters that can be pushed down.
pub fn group_conditions(exprs: &Vec<Expr>) -> (conditions: Conditions)
    ensures
        conditions@ == pushed_filters(exprs@),
{
    let mut refs: Vec<&Expr> = Vec::new();
    let mut i: usize = 0;
    while i < exprs.len()
        invariant
            i <= exprs@.len(),
            refs@.len() == i,
            forall|j: int| 0 <= j < i ==> *refs@[j] == exprs@[j],
        decreases exprs@.len() - i,
    {
        refs.push(&exprs[i]);
        i += 1;
    }
    let mut filters = extract_simple_binary_filters(refs.as_slice());
    let mut conditions = Conditions::new();
    let mut k: usize = 0;
    assert(exprs@.take(0) =~= Seq::empty());
    while k < filters.len()
        invariant
            k <= filters@.len(),
            filters@.len() == exprs@.len(),
            forall|j: int|
                k <= j < exprs@.len() ==> filter_view(#[trigger] filters@[j]) == simple_filter(
                    exprs@[j],
                ),
            conditions@ == pushed_filters(exprs@.take(k as int)),
        decreases filters@.len() - k,
    {
        assert(exprs@.take(k + 1).drop_last() =~= exprs@.take(k as int));
        let mut filter: Option<Filter> = None;
        std::mem::swap(&mut filters[k], &mut filter);
        match filter {
            Some(filter) => {
                conditions = conditions.with(filter);
            },
            None => {},
        }
        k += 1;
    }
    assert(exprs@.take(filters@.len() as int) =~= exprs@);
    conditions
}

} // verus!
