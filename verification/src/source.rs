use datafusion::arrow::datatypes::SchemaRef;
use datafusion::error::DataFusionError;
use std::sync::Arc;
use vstd::prelude::*;

use crate::conditions::{group_conditions, pushed_filters};
use crate::error::{ErrorView, OpenDALExecError};
use crate::expr::{extract_simple_binary_filters, filter_view, simple_filter, Expr};
use crate::plan::{plan_scan, scan_plan, Listing, PlanView, ScanPlan, StoreInfo, StoreView};
use crate::scan::{constants_of, make_constants, PhaseView, Scan, ScanView};
use crate::schema::{
    collected, fields_of, project, projectable, projected, projection_view, scan_schema, share,
    table_fields, table_schema, ColumnType, FieldView,
};

verus! {

/// Hands out connections that are all made from one configuration.
#[derive(Debug)]
pub struct OpenDALManager<T> {
    pub builder: T,
}

impl<T: Clone> Clone for OpenDALManager<T> {
    fn clone(&self) -> (copy: Self)
        ensures
            cloned(self.builder, copy.builder),
    {
        OpenDALManager { builder: self.builder.clone() }
    }
}

impl<T> OpenDALManager<T> {
    /// A manager for the given configuration.
    pub fn new(bldr: T) -> (manager: Self)
        ensures
            manager.builder == bldr,
    {
        Self { builder: bldr }
    }
}

/// A store and the schema of the table that shows its entries.
#[derive(Debug)]
pub struct OpenDALDataSourceInner<T> {
    pub manager: OpenDALManager<T>,
    pub schema: SchemaRef,
}

impl<T: Clone> Clone for OpenDALDataSourceInner<T> {
    fn clone(&self) -> (copy: Self)
        ensures
            cloned(self.manager.builder, copy.manager.builder),
            copy.schema == self.schema,
    {
        OpenDALDataSourceInner { manager: self.manager.clone(), schema: share(&self.schema) }
    }
}

impl<T> OpenDALDataSourceInner<T> {
    /// The table over the store with the given configuration.
    pub fn new(bldr: T) -> (inner: Result<Self, OpenDALExecError>)
        ensures
            inner is Ok,
            inner->Ok_0.manager.builder == bldr,
            fields_of(&inner->Ok_0.schema) == table_fields(),
    {
        let manager = OpenDALManager::new(bldr);
        let schema = table_schema();
        Ok(Self { manager, schema })
    }
}

/// A table over a store. Copies of it share the store.
#[derive(Debug)]
pub struct OpenDALDataSource<T> {
    pub inner: Arc<OpenDALDataSourceInner<T>>,
}

impl<T> Clone for OpenDALDataSource<T> {
    fn clone(&self) -> (copy: Self)
        ensures
            copy == *self,
    {
        OpenDALDataSource { inner: share(&self.inner) }
    }
}

/// How far the table takes a filter off the query engine's hands.
#[derive(Debug, Clone, Copy, PartialEq, Eq, Structural)]
pub enum FilterPushDown {
    /// Not at all: the engine has to filter.
    Unsupported,
    /// Wholly: the engine need not look at it again.
    Exact,
}

impl<T> OpenDALDataSource<T> {
    /// The table over the store with the given configuration.
    pub fn new(bldr: T) -> (source: Result<Self, OpenDALExecError>)
        ensures
            source is Ok,
            source->Ok_0.inner.manager.builder == bldr,
            fields_of(&source->Ok_0.inner.schema) == table_fields(),
    {
        match OpenDALDataSourceInner::new(bldr) {
            Ok(inner) => Ok(Self { inner: Arc::new(inner) }),
            Err(error) => Err(error),
        }
    }

    /// The schema of the table.
    pub fn schema(&self) -> (schema: SchemaRef)
        ensures
            schema == self.inner.schema,
    {
        share(&self.inner.schema)
    }

    /// For each filter in turn, whether it is pushed down.
    pub fn supports_filters_pushdown(&self, filters: &[&Expr]) -> (supported: Result<
        Vec<FilterPushDown>,
        DataFusionError,
    >)
        ensures
            supported is Ok,
            supported->Ok_0@.len() == filters@.len(),
            forall|i: int|
                0 <= i < filters@.len() ==> #[trigger] supported->Ok_0@[i] == if simple_filter(
                    *filters@[i],
                ) is Some {
                    FilterPushDown::Exact
                } else {
                    FilterPushDown::Unsupported
                },
    {
        let extracted = extract_simple_binary_filters(filters);
        let mut supported: Vec<FilterPushDown> = Vec::new();
        let mut i: usize = 0;
        while i < extracted.len()
            invariant
                i <= extracted@.len(),
                extracted@.len() == filters@.len(),
                forall|j: int|
                    0 <= j < filters@.len() ==> filter_view(#[trigger] extracted@[j])
                        == simple_filter(*filters@[j]),
                supported@.len() == i,
                forall|j: int|
                    0 <= j < i ==> #[trigger] supported@[j] == if simple_filter(
                        *filters@[j],
                    ) is Some {
                        FilterPushDown::Exact
                    } else {
                        FilterPushDown::Unsupported
                    },
            decreases extracted@.len() - i,
        {
            if extracted[i].is_some() {
                supported.push(FilterPushDown::Exact);
            } else {
                supported.push(FilterPushDown::Unsupported);
            }
            i += 1;
        }
        Ok(supported)
    }
}

/// A scan that a query has asked for: the columns and the filters, and perhaps a limit.
#[derive(Debug)]
pub struct OpenDALExec<T> {
    pub db: OpenDALDataSource<T>,
    pub projected_schema: SchemaRef,
    pub limit: Option<usize>,
    pub filters: Vec<Expr>,
}

impl<T> OpenDALExec<T> {
    /// The scan of a table for the columns at the given positions, or for all. A position
    /// outside the table is refused.
    pub fn try_new(
        projections: Option<&Vec<usize>>,
        db: &OpenDALDataSource<T>,
        filters: &[Expr],
        limit: Option<usize>,
    ) -> (exec: Result<Self, DataFusionError>)
        ensures
            exec is Ok <==> projectable(fields_of(&db.inner.schema), projection_view(projections)),
            exec is Ok ==> {
                &&& exec->Ok_0.db == *db
                &&& fields_of(&exec->Ok_0.projected_schema) == projected(
                    fields_of(&db.inner.schema),
                    projection_view(projections),
                )
                &&& exec->Ok_0.filters@ == filters@
                &&& exec->Ok_0.limit == limit
            },
    {
        let projected_schema = match project(&db.inner.schema, projections) {
            Ok(projected_schema) => projected_schema,
            Err(error) => {
                return Err(error);
            },
        };
        Ok(Self { db: db.clone(), projected_schema, limit, filters: copy_exprs(filters) })
    }

    /// What the scan does with a store: the directory to list and the scan of its entries,
    /// or nothing where no entry of the store can satisfy the filters.
    pub fn begin(&self, store: &StoreInfo) -> (begun: Result<
        Option<(Listing, Scan)>,
        OpenDALExecError,
    >)
        ensures
            begun_view(begun) == beginning(
                self.filters@,
                fields_of(&self.projected_schema),
                store@,
                self.limit,
            ),
            begun matches Ok(Some((_, scan))) ==> scan.wf(),
            // Rows are checked against all filters that are pushed down, whatever is listed.
            begun matches Ok(Some((listing, scan))) ==> {
                &&& scan@.filters == pushed_filters(self.filters@)
                &&& scan@.phase is Listing
                &&& scan@.rows.len() == 0
                &&& fields_of(&self.projected_schema).len() > 0 ==> scan@.fields == fields_of(
                    &self.projected_schema,
                )
                &&& fields_of(&self.projected_schema).len() == 0 ==> scan@.fields == seq![
                    FieldView { name: "path"@, data_type: ColumnType::Utf8, nullable: false },
                ]
                &&& scan@.constants.uri == store.scheme@ + "://"@
                &&& scan@.constants.root == store.root@
                &&& scan@.constants.namespace == if store.name@.len() == 0 {
                    None
                } else {
                    Some(store.name@)
                }
                &&& scan@.constants.recursive == (listing.recursive matches Some(flag) && flag)
                &&& listing.limit == self.limit
                &&& scan_plan(pushed_filters(self.filters@), store@, self.limit) == Ok::<
                    PlanView,
                    ErrorView,
                >(
                    PlanView::List {
                        path: listing.path@,
                        recursive: listing.recursive,
                        limit: listing.limit,
                    },
                )
            },
            begun matches Ok(None) ==> scan_plan(
                pushed_filters(self.filters@),
                store@,
                self.limit,
            ) == Ok::<PlanView, ErrorView>(PlanView::Skip),
            begun matches Err(error) ==> scan_plan(
                pushed_filters(self.filters@),
                store@,
                self.limit,
            ) == Err::<PlanView, ErrorView>(error@),
    {
        let conditions = group_conditions(&self.filters);
        match plan_scan(&conditions, store, self.limit) {
            Err(error) => Err(error),
            Ok(ScanPlan::Skip) => Ok(None),
            Ok(ScanPlan::List(listing)) => {
                let constants = make_constants(store, listing.recursive);
                let scan = Scan::new(conditions, scan_schema(&self.projected_schema), constants);
                Ok(Some((listing, scan)))
            },
        }
    }
}

/// The mathematical counterpart of a scan that begins.
pub open spec fn begun_view(begun: Result<Option<(Listing, Scan)>, OpenDALExecError>) -> Result<
    Option<(PlanView, ScanView)>,
    ErrorView,
> {
    match begun {
        Ok(Some((listing, scan))) => Ok(Some((ScanPlan::List(listing)@, scan@))),
        Ok(None) => Ok(None),
        Err(error) => Err(error@),
    }
}

/// How a scan begins: with the directory that its filters choose, and without any rows.
pub open spec fn beginning(
    exprs: Seq<Expr>,
    fields: Seq<FieldView>,
    store: StoreView,
    limit: Option<usize>,
) -> Result<Option<(PlanView, ScanView)>, ErrorView> {
    let filters = pushed_filters(exprs);
    match scan_plan(filters, store, limit) {
        Err(error) => Err(error),
        Ok(PlanView::Skip) => Ok(None),
        Ok(PlanView::List { path, recursive, limit }) => Ok(
            Some(
                (
                    PlanView::List { path, recursive, limit },
                    ScanView {
                        filters,
                        fields: collected(fields),
                        constants: constants_of(store, recursive),
                        phase: PhaseView::Listing,
                        rows: Seq::empty(),
                    },
                ),
            ),
        ),
    }
}

/// A copy of a list of expressions.
fn copy_exprs(exprs: &[Expr]) -> (copy: Vec<Expr>)
    ensures
        copy@ == exprs@,
{
    let mut copy: Vec<Expr> = Vec::new();
    let mut i: usize = 0;
    while i < exprs.len()
        invariant
            i <= exprs@.len(),
            copy@.len() == i,
            forall|j: int| 0 <= j < i ==> copy@[j] == exprs@[j],
        decreases exprs@.len() - i,
    {
        copy.push(exprs[i].clone());
        i += 1;
    }
    assert(copy@ =~= exprs@);
    copy
}

} // verus!
