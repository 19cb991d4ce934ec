use vstd::prelude::*;

verus! {

pub const URI_COL: &'static str = "uri";

pub const NAMESPACE_COL: &'static str = "namespace";

pub const ROOT_COL: &'static str = "root";

pub const RECURSIVE_COL: &'static str = "recursive";

pub const PARENT_COL: &'static str = "parent";

pub const PATH_COL: &'static str = "path";

pub const NAME_COL: &'static str = "name";

pub const BLOB_COL: &'static str = "blob";

pub const IS_FILE_COL: &'static str = "is_file";

pub const SIZE_COL: &'static str = "size";

pub const CONTENT_TYPE_COL: &'static str = "content_type";

pub const LAST_MODIFIED_COL: &'static str = "last_modified";

/// The columns whose comparison with a literal can be pushed down.
pub open spec fn ordered_column(name: Seq<char>) -> bool {
    ||| name == URI_COL@
    ||| name == NAMESPACE_COL@
    ||| name == ROOT_COL@
    ||| name == PARENT_COL@
    ||| name == PATH_COL@
    ||| name == NAME_COL@
    ||| name == SIZE_COL@
    ||| name == CONTENT_TYPE_COL@
    ||| name == LAST_MODIFIED_COL@
}

/// The columns that are filters by themselves.
pub open spec fn boolean_column(name: Seq<char>) -> bool {
    name == RECURSIVE_COL@ || name == IS_FILE_COL@
}

/// Whether a comparison of the column with a literal can be pushed down.
pub fn is_ordered_column(name: &str) -> (found: bool)
    ensures
        found == ordered_column(name@),
{
    name.eq(URI_COL) || name.eq(NAMESPACE_COL) || name.eq(ROOT_COL) || name.eq(PARENT_COL)
        || name.eq(PATH_COL) || name.eq(NAME_COL) || name.eq(SIZE_COL) || name.eq(CONTENT_TYPE_COL)
        || name.eq(LAST_MODIFIED_COL)
}

/// Whether the column is a filter by itself.
pub fn is_boolean_column(name: &str) -> (found: bool)
    ensures
        found == boolean_column(name@),
{
    name.eq(RECURSIVE_COL) || name.eq(IS_FILE_COL)
}

/// No two columns share a name.
pub proof fn lemma_names_differ()
    ensures
        forall|i: int, j: int|
            #![trigger table_columns()[i], table_columns()[j]]
            0 <= i < j < table_columns().len() ==> table_columns()[i] != table_columns()[j],
{
    reveal_strlit("uri");
    reveal_strlit("namespace");
    reveal_strlit("root");
    reveal_strlit("recursive");
    reveal_strlit("parent");
    reveal_strlit("path");
    reveal_strlit("name");
    reveal_strlit("blob");
    reveal_strlit("is_file");
    reveal_strlit("size");
    reveal_strlit("content_type");
    reveal_strlit("last_modified");
    let names = table_columns();
    assert forall|i: int, j: int| 0 <= i < j < names.len() implies names[i].len() != names[j].len()
        || names[i][0] != names[j][0] by {}
    assert forall|i: int, j: int|
        #![trigger table_columns()[i], table_columns()[j]]
        0 <= i < j < table_columns().len() implies table_columns()[i] != table_columns()[j] by {
        assert(names[i].len() != names[j].len() || names[i][0] != names[j][0]);
    }
}

/// The names of the table's columns, in the order of its schema.
pub open spec fn table_columns() -> Seq<Seq<char>> {
    seq![
        URI_COL@,
        NAMESPACE_COL@,
        ROOT_COL@,
        RECURSIVE_COL@,
        PARENT_COL@,
        PATH_COL@,
        NAME_COL@,
        BLOB_COL@,
        IS_FILE_COL@,
        SIZE_COL@,
        CONTENT_TYPE_COL@,
        LAST_MODIFIED_COL@,
    ]
}

} // verus!
