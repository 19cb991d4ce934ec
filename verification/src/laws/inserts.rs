use vstd::prelude::*;

use crate::batch::ColumnView;
use crate::error::ErrorView;
use crate::schema::{first_column, has_column, ColumnType, FieldView};
use crate::sink::{
    files_of, insert_refusal, lemma_type_of, write_refusal, FileView, InsertColumns, InsertOp,
    RunPhase, RunView,
};

verus! {

/// Whether some field has a name.
pub open spec fn named(fields: Seq<FieldView>, name: Seq<char>) -> bool {
    exists|i: int| 0 <= i < fields.len() && (#[trigger] fields[i]).name == name
}

/// Whether the first field with a name has a type.
pub open spec fn typed(fields: Seq<FieldView>, name: Seq<char>, wanted: ColumnType) -> bool {
    exists|i: int| #[trigger]
        first_column(fields, name, i) && fields[i].name == name && fields[i].data_type == wanted
            && (forall|j: int| 0 <= j < i ==> (#[trigger] fields[j]).name != name)
}

proof fn lemma_first(fields: Seq<FieldView>, name: Seq<char>, i: int) -> (first: int)
    requires
        0 <= i < fields.len(),
        fields[i].name == name,
    ensures
        first_column(fields, name, first),
    decreases i,
{
    if exists|j: int| 0 <= j < i && (#[trigger] fields[j]).name == name {
        let j = choose|j: int| 0 <= j < i && (#[trigger] fields[j]).name == name;
        lemma_first(fields, name, j)
    } else {
        i
    }
}

/// Rows can be written exactly where they have a `path` of texts and a `blob` of large
/// binary values, each by its first column of that name. Else they are refused: first for
/// the want of a path, then for the want of a content, then for the types.
pub proof fn lemma_insertable(fields: Seq<FieldView>)
    ensures
        insert_refusal(fields) == if !named(fields, "path"@) {
            Some(ErrorView::InvalidSchema("Insert operations must reference `path` column"@))
        } else if !named(fields, "blob"@) {
            Some(
                ErrorView::InvalidSchema(
                    "Insert operations must reference `blob` column and provide binary data"@,
                ),
            )
        } else if !typed(fields, "path"@, ColumnType::Utf8) || !typed(
            fields,
            "blob"@,
            ColumnType::LargeBinary,
        ) {
            Some(ErrorView::InvalidSchema("Path must be of type string, and blob must be binary"@))
        } else {
            None
        },
{
    assert(named(fields, "path"@) == has_column(fields, "path"@));
    assert(named(fields, "blob"@) == has_column(fields, "blob"@));
    if named(fields, "path"@) && named(fields, "blob"@) {
        let i = choose|i: int| 0 <= i < fields.len() && (#[trigger] fields[i]).name == "path"@;
        let p = lemma_first(fields, "path"@, i);
        lemma_type_of(fields, "path"@, p);
        let j = choose|j: int| 0 <= j < fields.len() && (#[trigger] fields[j]).name == "blob"@;
        let b = lemma_first(fields, "blob"@, j);
        lemma_type_of(fields, "blob"@, b);
        assert forall|k: int| first_column(fields, "path"@, k) implies fields[k].data_type
            == fields[p].data_type by {
            lemma_type_of(fields, "path"@, k);
        }
        assert forall|k: int| first_column(fields, "blob"@, k) implies fields[k].data_type
            == fields[b].data_type by {
            lemma_type_of(fields, "blob"@, k);
        }
    }
}

/// Only overwriting and replacing let an existing file be written again.
pub proof fn lemma_replacing(op: InsertOp)
    ensures
        op.replaces() <==> !(op is Append),
{
}

/// A file is refused exactly where it exists and must not be replaced, in words that name
/// its path.
pub proof fn lemma_protected(path: Seq<char>, exists_already: bool, replace: bool)
    ensures
        exists_already && !replace ==> write_refusal(path, exists_already, replace) == Some(
            ErrorView::OverwriteError("Path "@ + path + " exists and overwrite not allowed"@),
        ),
        !exists_already || replace ==> write_refusal(path, exists_already, replace) is None,
{
}

/// The files of a batch with contents are its rows in order: there are as many, and each
/// has the path and the content of its row. A batch without contents has no files.
pub proof fn lemma_files_show_rows(
    batch: Seq<ColumnView>,
    columns: InsertColumns,
    paths: Seq<Option<Seq<char>>>,
    contents: Seq<Option<Seq<u8>>>,
    files: Seq<FileView>,
    i: int,
)
    requires
        files_of(batch, columns, files),
        batch[columns.path as int] == ColumnView::Utf8(paths),
    ensures
        batch[columns.blob as int] == ColumnView::LargeBinary(contents) ==> {
            &&& files.len() == paths.len()
            &&& 0 <= i < files.len() && paths[i] is Some ==> files[i].path == paths[i]->0
            &&& 0 <= i < files.len() && contents[i] is Some ==> files[i].blob == contents[i]->0
        },
        !(batch[columns.blob as int] is LargeBinary) ==> files.len() == 0,
{
}

/// A run takes the files of a batch, hands them out one by one and counts those written. A
/// file that must not be replaced ends it.
pub proof fn lemma_run_goes_on(run: RunView, files: Seq<FileView>, exists_already: bool)
    ensures
        ({
            let received = run.received(files);
            &&& received.pending == files
            &&& received.phase == if files.len() == 0 {
                RunPhase::Receiving
            } else {
                RunPhase::Checking
            }
            &&& received.columns == run.columns && received.replace == run.replace
                && received.count == run.count
        }),
        run.pending.len() > 0 ==> {
            let (after, decision) = run.checked(exists_already);
            &&& after.columns == run.columns && after.replace == run.replace && after.count
                == run.count
            &&& exists_already && !run.replace ==> {
                &&& after.phase == RunPhase::Failed
                &&& after.pending == run.pending
                &&& decision == Err::<FileView, ErrorView>(
                    ErrorView::OverwriteError(
                        "Path "@ + run.pending[0].path + " exists and overwrite not allowed"@,
                    ),
                )
            }
            &&& !exists_already || run.replace ==> {
                &&& after.phase == RunPhase::Writing
                &&& after.pending == run.pending.subrange(1, run.pending.len() as int)
                &&& decision == Ok::<FileView, ErrorView>(run.pending[0])
            }
        },
        ({
            let written = run.written();
            &&& written.count == run.count + 1
            &&& written.pending == run.pending
            &&& written.phase == if run.pending.len() == 0 {
                RunPhase::Receiving
            } else {
                RunPhase::Checking
            }
            &&& written.columns == run.columns && written.replace == run.replace
        }),
{
}

} // verus!
