use vstd::prelude::*;
use vstd::string::*;

use crate::columns::{NAMESPACE_COL, PARENT_COL, PATH_COL, RECURSIVE_COL, ROOT_COL, URI_COL};
use crate::conditions::{
    all_hold, conditions_on, conditions_view, eval_simple_expr, evaluate, verdict_view, Condition,
    ConditionView, Conditions,
};
use crate::error::{ErrorView, OpenDALExecError};
use crate::expr::FilterView;
use crate::text::{
    directory, directory_of, lies_in, plain_directory, plain_name, text_view,
};
use crate::value::{
    clone_text, scalar_display, scalar_text, ColumnValue, OperatorView, ScalarValue, ScalarView,
};

verus! {

/// What an object store says of itself.
#[derive(Debug)]
pub struct StoreInfo {
    /// The kind of store, such as `fs` or `s3`.
    pub scheme: String,
    /// The directory below which everything lies.
    pub root: String,
    /// The bucket or container; empty where the store has no such thing.
    pub name: String,
}

/// The mathematical counterpart of [`StoreInfo`].
pub struct StoreView {
    pub scheme: Seq<char>,
    pub root: Seq<char>,
    pub name: Seq<char>,
}

impl View for StoreInfo {
    type V = StoreView;

    open spec fn view(&self) -> StoreView {
        StoreView { scheme: self.scheme@, root: self.root@, name: self.name@ }
    }
}

impl StoreView {
    /// The value of the `uri` column.
    pub open spec fn uri(self) -> Seq<char> {
        self.scheme + "://"@
    }

    /// The value of the `namespace` column.
    pub open spec fn namespace(self) -> Option<Seq<char>> {
        if self.name.len() == 0 {
            None
        } else {
            Some(self.name)
        }
    }
}

impl StoreInfo {
    /// The value of the `uri` column.
    pub fn uri(&self) -> (uri: String)
        ensures
            uri@ == self@.uri(),
            uri@ == self.scheme@ + "://"@,
    {
        let mut uri = self.scheme.clone();
        uri.append("://");
        uri
    }

    /// The value of the `namespace` column.
    pub fn namespace(&self) -> (namespace: Option<String>)
        ensures
            text_view(namespace) == self@.namespace(),
            namespace is None <==> self.name@.len() == 0,
            namespace is Some ==> namespace->0@ == self.name@,
    {
        if self.name.as_str().is_empty() {
            None
        } else {
            Some(self.name.clone())
        }
    }
}

/// What to ask of a store.
#[derive(Debug, PartialEq)]
pub struct Listing {
    /// The directory to list.
    pub path: String,
    /// Whether to descend into directories, where a filter says so.
    pub recursive: Option<bool>,
    /// How many entries the store should return at a time, where the query has a limit.
    pub limit: Option<usize>,
}

/// What a scan does, once it has seen its filters.
#[derive(Debug, PartialEq)]
pub enum ScanPlan {
    /// No entry of this store can satisfy the filters.
    Skip,
    /// List a directory.
    List(Listing),
}

/// The mathematical counterpart of [`ScanPlan`].
pub enum PlanView {
    Skip,
    List { path: Seq<char>, recursive: Option<bool>, limit: Option<usize> },
}

impl View for ScanPlan {
    type V = PlanView;

    open spec fn view(&self) -> PlanView {
        match *self {
            ScanPlan::Skip => PlanView::Skip,
            ScanPlan::List(listing) => PlanView::List {
                path: listing.path@,
                recursive: listing.recursive,
                limit: listing.limit,
            },
        }
    }
}

/// The outcome of reading an input parameter out of the conditions on its column.
pub enum Choice<A> {
    /// The conditions contradict each other.
    Contradiction,
    /// The conditions give this value, or none.
    Value(Option<A>),
}

/// The message for a condition that gives no value to the `recursive` parameter.
pub open spec fn not_recursive(op: OperatorView, literal: ScalarView) -> Seq<char> {
    "Cannot evaluate `recursive "@ + op.display() + " "@ + scalar_display(literal) + "`"@
}

/// Reads the `recursive` parameter: the first condition with a truth value gives it, and
/// every later condition must hold of it.
pub open spec fn chosen_flag(conditions: Seq<ConditionView>, current: Option<bool>) -> Result<
    Choice<bool>,
    ErrorView,
>
    decreases conditions.len(),
{
    if conditions.len() == 0 {
        Ok(Choice::Value(current))
    } else {
        let (op, literal) = conditions[0];
        match current {
            Some(flag) => match evaluate(ScalarView::Boolean(Some(flag)), op, literal) {
                Ok(true) => chosen_flag(conditions.drop_first(), current),
                Ok(false) => Ok(Choice::Contradiction),
                Err(error) => Err(error),
            },
            None => match literal {
                ScalarView::Boolean(flag) => chosen_flag(conditions.drop_first(), flag),
                _ => Err(ErrorView::InvalidSchema(not_recursive(op, literal))),
            },
        }
    }
}

/// The text that a literal on `parent` or on `path` names; without a text, the root.
pub open spec fn literal_text(literal: ScalarView) -> Seq<char> {
    match literal {
        ScalarView::Utf8(Some(text)) => text,
        _ => "/"@,
    }
}

/// Reads the input text out of the conditions on `parent` or on `path`: the first
/// condition gives it, and every later condition must hold of it.
pub open spec fn chosen_text(conditions: Seq<ConditionView>, current: Option<Seq<char>>) -> Result<
    Choice<Seq<char>>,
    ErrorView,
>
    decreases conditions.len(),
{
    if conditions.len() == 0 {
        Ok(Choice::Value(current))
    } else {
        let (op, literal) = conditions[0];
        match current {
            Some(found) => match evaluate(ScalarView::Utf8(Some(found)), op, literal) {
                Ok(true) => chosen_text(conditions.drop_first(), current),
                Ok(false) => Ok(Choice::Contradiction),
                Err(error) => Err(error),
            },
            None => chosen_text(conditions.drop_first(), Some(literal_text(literal))),
        }
    }
}

/// The path under which a directory is listed: that of an input parent, or the one that
/// holds an input path.
pub open spec fn listed_path(parent: Option<Seq<char>>, path: Option<Seq<char>>) -> Seq<char> {
    match (parent, path) {
        (Some(found), None) => found + "/"@,
        (None, Some(found)) => directory(found) + "/"@,
        _ => "/"@,
    }
}

/// Whether the conditions on `uri`, `root` and `namespace` admit a store. They are tried
/// in this order, and the first that does not hold decides.
pub open spec fn admitted(filters: Seq<FilterView>, store: StoreView) -> Result<bool, ErrorView> {
    let uri = all_hold(ScalarView::Utf8(Some(store.uri())), conditions_on(filters, URI_COL@));
    let root = all_hold(ScalarView::Utf8(Some(store.root)), conditions_on(filters, ROOT_COL@));
    let namespace = all_hold(
        ScalarView::Utf8(store.namespace()),
        conditions_on(filters, NAMESPACE_COL@),
    );
    if uri != Ok::<bool, ErrorView>(true) {
        uri
    } else if root != Ok::<bool, ErrorView>(true) {
        root
    } else {
        namespace
    }
}

/// The path of the directory to list: the conditions on `parent` give it or those on
/// `path`, not both. There is none where the conditions contradict each other.
pub open spec fn located(filters: Seq<FilterView>) -> Result<Option<Seq<char>>, ErrorView> {
    match chosen_text(conditions_on(filters, PARENT_COL@), None) {
        Err(error) => Err(error),
        Ok(Choice::Contradiction) => Ok(None),
        Ok(Choice::Value(parent)) => if parent is Some && conditions_on(filters, PATH_COL@).len()
            > 0 {
            Err(
                ErrorView::InvalidSchema("Cannot filter on both `parent` and `path`, choose one"@),
            )
        } else {
            match chosen_text(conditions_on(filters, PATH_COL@), None) {
                Err(error) => Err(error),
                Ok(Choice::Contradiction) => Ok(None),
                Ok(Choice::Value(path)) => Ok(Some(listed_path(parent, path))),
            }
        },
    }
}

/// What a scan of a store does: nothing where the store itself contradicts the filters or
/// they contradict each other, else list one directory.
pub open spec fn scan_plan(
    filters: Seq<FilterView>,
    store: StoreView,
    limit: Option<usize>,
) -> Result<PlanView, ErrorView> {
    match admitted(filters, store) {
        Err(error) => Err(error),
        Ok(false) => Ok(PlanView::Skip),
        Ok(true) => match chosen_flag(conditions_on(filters, RECURSIVE_COL@), None) {
            Err(error) => Err(error),
            Ok(Choice::Contradiction) => Ok(PlanView::Skip),
            Ok(Choice::Value(recursive)) => match located(filters) {
                Err(error) => Err(error),
                Ok(None) => Ok(PlanView::Skip),
                Ok(Some(path)) => Ok(PlanView::List { path, recursive, limit }),
            },
        },
    }
}

/// The mathematical counterpart of a choice of text.
pub open spec fn choice_view(choice: Choice<String>) -> Choice<Seq<char>> {
    match choice {
        Choice::Contradiction => Choice::Contradiction,
        Choice::Value(text) => Choice::Value(text_view(text)),
    }
}

/// The mathematical counterpart of a result, given that of its value.
pub open spec fn result_view<A, B>(
    result: Result<A, OpenDALExecError>,
    view: spec_fn(A) -> B,
) -> Result<B, ErrorView> {
    match result {
        Ok(value) => Ok(view(value)),
        Err(error) => Err(error@),
    }
}

/// Reads the `recursive` parameter out of the conditions on its column.
pub fn choose_flag(conditions: &Vec<Condition>) -> (choice: Result<Choice<bool>, OpenDALExecError>)
    ensures
        result_view(choice, |c: Choice<bool>| c) == chosen_flag(conditions_view(conditions@), None),
{
    let ghost all = conditions_view(conditions@);
    let mut current: Option<bool> = None;
    let mut i: usize = 0;
    assert(all.skip(0) =~= all);
    while i < conditions.len()
        invariant
            i <= conditions@.len(),
            all == conditions_view(conditions@),
            chosen_flag(all, None) == chosen_flag(all.skip(i as int), current),
        decreases conditions@.len() - i,
    {
        assert(all.skip(i as int).drop_first() =~= all.skip(i + 1));
        let op = &conditions[i].0;
        let literal = &conditions[i].1;
        match current {
            Some(flag) => {
                match eval_simple_expr(&ScalarValue::Boolean(Some(flag)), op, literal) {
                    Ok(true) => {},
                    Ok(false) => {
                        return Ok(Choice::Contradiction);
                    },
                    Err(error) => {
                        return Err(error);
                    },
                }
            },
            None => {
                match literal {
                    ScalarValue::Boolean(flag) => {
                        current = *flag;
                    },
                    _ => {
                        let mut message = "Cannot evaluate `recursive ".to_string();
                        message.append(op.display().as_str());
                        message.append(" ");
                        message.append(scalar_text(literal).as_str());
                        message.append("`");
                        return Err(OpenDALExecError::InvalidSchema(message));
                    },
                }
            },
        }
        i += 1;
    }
    Ok(Choice::Value(current))
}

/// The text that a literal on `parent` or on `path` names; without a text, the root.
fn text_of(literal: &ScalarValue) -> (text: String)
    ensures
        text@ == literal_text(literal@),
{
    match literal {
        ScalarValue::Utf8(Some(text)) => text.clone(),
        _ => "/".to_string(),
    }
}

/// Reads the input text out of the conditions on `parent` or on `path`.
pub fn choose_text(conditions: &Vec<Condition>) -> (choice: Result<
    Choice<String>,
    OpenDALExecError,
>)
    ensures
        result_view(choice, |c: Choice<String>| choice_view(c)) == chosen_text(
            conditions_view(conditions@),
            None,
        ),
{
    let ghost all = conditions_view(conditions@);
    let mut current: Option<String> = None;
    let mut i: usize = 0;
    assert(all.skip(0) =~= all);
    while i < conditions.len()
        invariant
            i <= conditions@.len(),
            all == conditions_view(conditions@),
            chosen_text(all, None) == chosen_text(all.skip(i as int), text_view(current)),
        decreases conditions@.len() - i,
    {
        assert(all.skip(i as int).drop_first() =~= all.skip(i + 1));
        let op = &conditions[i].0;
        let literal = &conditions[i].1;
        if current.is_some() {
            match eval_simple_expr(&ScalarValue::Utf8(clone_text(&current)), op, literal) {
                Ok(true) => {},
                Ok(false) => {
                    return Ok(Choice::Contradiction);
                },
                Err(error) => {
                    return Err(error);
                },
            }
        } else {
            current = Some(text_of(literal));
        }
        i += 1;
    }
    Ok(Choice::Value(current))
}

/// Whether the conditions on `uri`, `root` and `namespace` admit a store.
pub fn admits(conditions: &Conditions, store: &StoreInfo) -> (verdict: Result<
    bool,
    OpenDALExecError,
>)
    ensures
        verdict_view(verdict) == admitted(conditions@, store@),
{
    match conditions.check(URI_COL, &ColumnValue::Utf8(Some(store.uri()))) {
        Ok(true) => {},
        verdict => {
            return verdict;
        },
    }
    match conditions.check(ROOT_COL, &ColumnValue::Utf8(Some(store.root.clone()))) {
        Ok(true) => {},
        verdict => {
            return verdict;
        },
    }
    conditions.check(NAMESPACE_COL, &ColumnValue::Utf8(store.namespace()))
}

/// A text that was chosen is not chosen anew.
proof fn lemma_text_is_kept(conditions: Seq<ConditionView>, text: Seq<char>)
    ensures
        chosen_text(conditions, Some(text)) matches Ok(Choice::Value(found)) ==> found == Some(
            text,
        ),
    decreases conditions.len(),
{
    if conditions.len() > 0 {
        lemma_text_is_kept(conditions.drop_first(), text);
    }
}

/// The path of the directory to list, if the conditions agree on one.
pub fn locate(conditions: &Conditions) -> (path: Result<Option<String>, OpenDALExecError>)
    ensures
        result_view(path, |p: Option<String>| text_view(p)) == located(conditions@),
        // The directory of an input path is the path without its last component.
        (path is Ok && path->Ok_0 is Some && conditions_on(conditions@, PATH_COL@).len() > 0
            && conditions_on(conditions@, PATH_COL@)[0].1 is Utf8) ==> forall|
            holder: Seq<char>,
            name: Seq<char>,
        |
            conditions_on(conditions@, PATH_COL@)[0].1->Utf8_0 is Some && #[trigger] lies_in(
                conditions_on(conditions@, PATH_COL@)[0].1->Utf8_0->0,
                holder,
                name,
            ) && plain_directory(holder) && plain_name(name) ==> path->Ok_0->0@ == holder + "/"@,
{
    let parent = match choose_text(&conditions.copy_of(PARENT_COL)) {
        Ok(Choice::Value(parent)) => parent,
        Ok(Choice::Contradiction) => {
            return Ok(None);
        },
        Err(error) => {
            return Err(error);
        },
    };
    let on_path = conditions.copy_of(PATH_COL);
    assert(on_path@.len() == conditions_on(conditions@, PATH_COL@).len());
    if on_path.len() > 0 && parent.is_some() {
        return Err(
            OpenDALExecError::InvalidSchema(
                "Cannot filter on both `parent` and `path`, choose one".to_string(),
            ),
        );
    }
    let path = match choose_text(&on_path) {
        Ok(Choice::Value(path)) => path,
        Ok(Choice::Contradiction) => {
            return Ok(None);
        },
        Err(error) => {
            return Err(error);
        },
    };
    proof {
        let asked = conditions_on(conditions@, PATH_COL@);
        if asked.len() > 0 {
            lemma_text_is_kept(asked.drop_first(), literal_text(asked[0].1));
        }
    }
    let listed = match (parent, path) {
        (Some(found), None) => {
            let mut listed = found;
            listed.append("/");
            listed
        },
        (None, Some(found)) => {
            let mut listed = directory_of(found.as_str());
            listed.append("/");
            listed
        },
        _ => "/".to_string(),
    };
    Ok(Some(listed))
}

/// What a scan of a store does.
pub fn plan_scan(conditions: &Conditions, store: &StoreInfo, limit: Option<usize>) -> (plan: Result<
    ScanPlan,
    OpenDALExecError,
>)
    ensures
        result_view(plan, |p: ScanPlan| p@) == scan_plan(conditions@, store@, limit),
        // The directory of an input path is the path without its last component.
        (plan is Ok && plan->Ok_0 is List && conditions_on(conditions@, PATH_COL@).len() > 0
            && conditions_on(conditions@, PATH_COL@)[0].1 is Utf8) ==> forall|
            holder: Seq<char>,
            name: Seq<char>,
        |
            conditions_on(conditions@, PATH_COL@)[0].1->Utf8_0 is Some && #[trigger] lies_in(
                conditions_on(conditions@, PATH_COL@)[0].1->Utf8_0->0,
                holder,
                name,
            ) && plain_directory(holder) && plain_name(name) ==> plan->Ok_0->List_0.path@ == holder
                + "/"@,
{
    match admits(conditions, store) {
        Ok(true) => {},
        Ok(false) => {
            return Ok(ScanPlan::Skip);
        },
        Err(error) => {
            return Err(error);
        },
    }
    let recursive = match choose_flag(&conditions.copy_of(RECURSIVE_COL)) {
        Ok(Choice::Value(recursive)) => recursive,
        Ok(Choice::Contradiction) => {
            return Ok(ScanPlan::Skip);
        },
        Err(error) => {
            return Err(error);
        },
    };
    match locate(conditions) {
        Ok(Some(path)) => Ok(ScanPlan::List(Listing { path, recursive, limit })),
        Ok(None) => Ok(ScanPlan::Skip),
        Err(error) => Err(error),
    }
}

} // verus!
