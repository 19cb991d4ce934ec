use vstd::prelude::*;

use super::batches::{lemma_projection_assembles, lemma_table_column};
use crate::batch::chosen_columns;
use crate::columns::{lemma_names_differ, table_columns, BLOB_COL, PATH_COL};
use crate::rows::{table_of, ConstantsView, StoredRow};
use crate::schema::{first_column, table_fields};
use crate::sink::{
    files_of, insert_refusal, lemma_type_of, FileView, InsertColumns, RunPhase, RunView,
};

verus! {

/// The files of a store: contents by path.
pub type Files = Map<Seq<char>, Seq<u8>>;

/// A store after files were written to it, one after the other.
pub open spec fn stored(store: Files, files: Seq<FileView>) -> Files
    decreases files.len(),
{
    if files.len() == 0 {
        store
    } else {
        stored(store.insert(files[0].path, files[0].blob), files.drop_first())
    }
}

/// What a run makes of the files of a batch, while it is told what the store holds and each
/// file that it hands out is written.
pub open spec fn write_out(run: RunView, store: Files) -> (RunView, Files)
    decreases run.pending.len(),
{
    if run.phase != RunPhase::Checking || run.pending.len() == 0 {
        (run, store)
    } else {
        let (next, decision) = run.checked(store.contains_key(run.pending[0].path));
        match decision {
            Ok(file) => write_out(next.written(), store.insert(file.path, file.blob)),
            Err(_) => (next, store),
        }
    }
}

/// Whether files can be added to a store without touching what it holds: no path is there
/// already, and no two are the same.
pub open spec fn all_new(store: Files, files: Seq<FileView>) -> bool {
    &&& forall|i: int| 0 <= i < files.len() ==> !store.contains_key((#[trigger] files[i]).path)
    &&& forall|i: int, j: int|
        0 <= i < j < files.len() ==> (#[trigger] files[i]).path != (#[trigger] files[j]).path
}

/// Files are all written and all counted where replacing is allowed or all of them are new.
pub proof fn lemma_files_are_written(run: RunView, store: Files)
    requires
        run.valid(),
        run.phase == RunPhase::Checking || run.phase == RunPhase::Receiving,
        run.replace || all_new(store, run.pending),
    ensures
        write_out(run, store).1 == stored(store, run.pending),
        write_out(run, store).0 == (RunView {
            phase: RunPhase::Receiving,
            pending: Seq::empty(),
            count: run.count + run.pending.len(),
            ..run
        }),
    decreases run.pending.len(),
{
    if run.phase == RunPhase::Checking {
        let exists = store.contains_key(run.pending[0].path);
        let (next, _) = run.checked(exists);
        let file = run.pending[0];
        let after = store.insert(file.path, file.blob);
        let rest = run.pending.drop_first();
        if !run.replace {
            assert(!exists);
            assert forall|i: int| 0 <= i < rest.len() implies !after.contains_key(
                (#[trigger] rest[i]).path,
            ) by {
                assert(rest[i] == run.pending[i + 1]);
                assert(run.pending[0].path != run.pending[i + 1].path);
            }
            assert forall|i: int, j: int| 0 <= i < j < rest.len() implies (#[trigger] rest[i]).path
                != (#[trigger] rest[j]).path by {
                assert(rest[i] == run.pending[i + 1]);
                assert(rest[j] == run.pending[j + 1]);
            }
        }
        lemma_files_are_written(next.written(), after);
    } else {
        assert(run.pending =~= Seq::empty());
    }
}

/// Where replacing is not allowed, whatever the store held before stays as it was.
pub proof fn lemma_nothing_is_overwritten(run: RunView, store: Files, path: Seq<char>)
    requires
        !run.replace,
        store.contains_key(path),
    ensures
        write_out(run, store).1.contains_key(path),
        write_out(run, store).1[path] == store[path],
    decreases run.pending.len(),
{
    if run.phase == RunPhase::Checking && run.pending.len() > 0 {
        let exists = store.contains_key(run.pending[0].path);
        let (next, decision) = run.checked(exists);
        if !exists {
            let file = run.pending[0];
            lemma_nothing_is_overwritten(
                next.written(),
                store.insert(file.path, file.blob),
                path,
            );
        }
    }
}

/// Where replacing is not allowed, a file that is not new ends the run: the files before it
/// are written and counted, those after it are not.
pub proof fn lemma_first_existing_file_ends_the_run(run: RunView, store: Files, first: int)
    requires
        run.valid(),
        run.phase == RunPhase::Checking,
        !run.replace,
        0 <= first < run.pending.len(),
        all_new(store, run.pending.take(first)),
        stored(store, run.pending.take(first)).contains_key(run.pending[first].path),
    ensures
        write_out(run, store).1 == stored(store, run.pending.take(first)),
        write_out(run, store).0.phase == RunPhase::Failed,
        write_out(run, store).0.count == run.count + first,
        write_out(run, store).0.pending == run.pending.skip(first),
    decreases run.pending.len(),
{
    let before = run.pending.take(first);
    if first == 0 {
        assert(before.len() == 0);
        assert(run.pending.skip(0) =~= run.pending);
    } else {
        assert(before[0] == run.pending[0]);
        let (next, _) = run.checked(store.contains_key(run.pending[0].path));
        let file = run.pending[0];
        let after = store.insert(file.path, file.blob);
        let rest = run.pending.drop_first();
        assert(before.drop_first() =~= rest.take(first - 1));
        assert forall|i: int| 0 <= i < first - 1 implies !after.contains_key(
            (#[trigger] rest.take(first - 1)[i]).path,
        ) by {
            assert(rest.take(first - 1)[i] == before[i + 1]);
            assert(before[0].path != before[i + 1].path);
        }
        assert forall|i: int, j: int| 0 <= i < j < first - 1 implies (#[trigger] rest.take(
            first - 1,
        )[i]).path != (#[trigger] rest.take(first - 1)[j]).path by {
            assert(rest.take(first - 1)[i] == before[i + 1]);
            assert(rest.take(first - 1)[j] == before[j + 1]);
        }
        lemma_first_existing_file_ends_the_run(next.written(), after, first - 1);
        assert(rest.skip(first - 1) =~= run.pending.skip(first));
    }
}

/// What a run makes of one batch after the other, each given by its files. A run that has
/// failed takes no more batches.
pub open spec fn write_batches(run: RunView, store: Files, batches: Seq<Seq<FileView>>) -> (
    RunView,
    Files,
)
    decreases batches.len(),
{
    if batches.len() == 0 || run.phase != RunPhase::Receiving {
        (run, store)
    } else {
        let (after, changed) = write_out(run.received(batches[0]), store);
        write_batches(after, changed, batches.drop_first())
    }
}

/// A run leaves every path that none of its files has as it was, also where it fails.
pub proof fn lemma_run_leaves_other_paths(run: RunView, store: Files, path: Seq<char>)
    requires
        forall|i: int| 0 <= i < run.pending.len() ==> (#[trigger] run.pending[i]).path != path,
    ensures
        write_out(run, store).1.contains_key(path) == store.contains_key(path),
        store.contains_key(path) ==> write_out(run, store).1[path] == store[path],
    decreases run.pending.len(),
{
    if run.phase == RunPhase::Checking && run.pending.len() > 0 {
        let file = run.pending[0];
        let (next, decision) = run.checked(store.contains_key(file.path));
        assert(file.path != path);
        if decision is Ok {
            let rest = run.pending.drop_first();
            assert forall|i: int| 0 <= i < rest.len() implies (#[trigger] rest[i]).path != path by {
                assert(rest[i] == run.pending[i + 1]);
            }
            lemma_run_leaves_other_paths(next.written(), store.insert(file.path, file.blob), path);
        }
    }
}

/// A run over any number of batches leaves every path that none of their files has as it
/// was, also where it fails.
pub proof fn lemma_batches_leave_other_paths(
    run: RunView,
    store: Files,
    batches: Seq<Seq<FileView>>,
    path: Seq<char>,
)
    requires
        forall|b: int, i: int|
            0 <= b < batches.len() && 0 <= i < batches[b].len() ==> (
            #[trigger] batches[b][i]).path != path,
    ensures
        write_batches(run, store, batches).1.contains_key(path) == store.contains_key(path),
        store.contains_key(path) ==> write_batches(run, store, batches).1[path] == store[path],
    decreases batches.len(),
{
    if batches.len() > 0 && run.phase == RunPhase::Receiving {
        let files = batches[0];
        assert forall|i: int| 0 <= i < files.len() implies (#[trigger] files[i]).path != path by {
            assert(batches[0][i].path != path);
        }
        lemma_run_leaves_other_paths(run.received(files), store, path);
        let (after, changed) = write_out(run.received(files), store);
        let rest = batches.drop_first();
        assert forall|b: int, i: int| 0 <= b < rest.len() && 0 <= i < rest[b].len() implies (
        #[trigger] rest[b][i]).path != path by {
            assert(rest[b] == batches[b + 1]);
            assert(batches[b + 1][i].path != path);
        }
        lemma_batches_leave_other_paths(after, changed, rest, path);
    }
}

/// A run ends between two batches, or it has failed.
proof fn lemma_write_out_rests(run: RunView, store: Files)
    requires
        run.valid(),
        run.phase == RunPhase::Checking || run.phase == RunPhase::Receiving,
    ensures
        ({
            let after = write_out(run, store).0;
            &&& after.phase == RunPhase::Receiving || after.phase == RunPhase::Failed
            &&& after.phase == RunPhase::Receiving ==> after.pending == Seq::<FileView>::empty()
            &&& after.columns == run.columns
            &&& after.replace == run.replace
        }),
    decreases run.pending.len(),
{
    if run.phase == RunPhase::Checking {
        let file = run.pending[0];
        let (next, decision) = run.checked(store.contains_key(file.path));
        if decision is Ok {
            lemma_write_out_rests(next.written(), store.insert(file.path, file.blob));
        }
    } else {
        assert(run.pending =~= Seq::empty());
    }
}

/// Files that follow others are written as if they came in a batch of their own.
proof fn lemma_write_out_in_two(
    run: RunView,
    store: Files,
    first: Seq<FileView>,
    second: Seq<FileView>,
)
    requires
        run.phase == RunPhase::Receiving,
    ensures
        ({
            let whole = write_out(run.received(first + second), store);
            let (after, changed) = write_out(run.received(first), store);
            if after.phase == RunPhase::Receiving {
                whole == write_out(after.received(second), changed)
            } else {
                whole.1 == changed && whole.0.phase == after.phase && whole.0.count == after.count
            }
        }),
    decreases first.len(),
{
    if first.len() == 0 {
        assert(first + second =~= second);
        assert(run.received(first).received(second) == run.received(second));
    } else {
        let file = first[0];
        let whole = run.received(first + second);
        let part = run.received(first);
        let exists = store.contains_key(file.path);
        assert((first + second)[0] == file);
        assert((first + second).drop_first() =~= first.drop_first() + second);
        let (next, decision) = part.checked(exists);
        if decision is Ok {
            let start = RunView { count: run.count + 1, ..run };
            let changed = store.insert(file.path, file.blob);
            assert(next.written() == start.received(first.drop_first()));
            assert(whole.checked(exists).0.written() == start.received(
                first.drop_first() + second,
            ));
            lemma_write_out_in_two(start, changed, first.drop_first(), second);
        }
    }
}

/// How rows are cut into batches does not matter: the store, the number of files written
/// and whether the run fails are those of one batch with all the rows.
pub proof fn lemma_cuts_do_not_matter(run: RunView, store: Files, batches: Seq<Seq<FileView>>)
    requires
        run.valid(),
        run.phase == RunPhase::Receiving,
    ensures
        ({
            let cut = write_batches(run, store, batches);
            let whole = write_out(run.received(batches.flatten()), store);
            &&& cut.1 == whole.1
            &&& cut.0.phase == whole.0.phase
            &&& cut.0.count == whole.0.count
        }),
    decreases batches.len(),
{
    if batches.len() == 0 {
        assert(batches.flatten() =~= Seq::<FileView>::empty());
        assert(run.received(batches.flatten()).phase == RunPhase::Receiving);
    } else {
        let first = batches[0];
        let rest = batches.drop_first();
        assert(batches.flatten() == first + rest.flatten());
        lemma_write_out_in_two(run, store, first, rest.flatten());
        let (after, changed) = write_out(run.received(first), store);
        lemma_write_out_rests(run.received(first), store);
        if after.phase == RunPhase::Receiving {
            lemma_cuts_do_not_matter(after, changed, rest);
        } else {
            assert(write_batches(after, changed, rest) == (after, changed));
        }
    }
}

/// Writing files leaves every other path as it was.
pub proof fn lemma_other_paths_are_kept(store: Files, files: Seq<FileView>, path: Seq<char>)
    requires
        forall|i: int| 0 <= i < files.len() ==> (#[trigger] files[i]).path != path,
    ensures
        stored(store, files).contains_key(path) == store.contains_key(path),
        store.contains_key(path) ==> stored(store, files)[path] == store[path],
    decreases files.len(),
{
    if files.len() > 0 {
        let rest = files.drop_first();
        assert(files[0].path != path);
        assert forall|i: int| 0 <= i < rest.len() implies (#[trigger] rest[i]).path != path by {
            assert(rest[i] == files[i + 1]);
        }
        lemma_other_paths_are_kept(store.insert(files[0].path, files[0].blob), rest, path);
    }
}

/// A store holds at each path what was last written there.
pub proof fn lemma_last_write_is_kept(store: Files, files: Seq<FileView>, last: int)
    requires
        0 <= last < files.len(),
        forall|i: int| last < i < files.len() ==> (#[trigger] files[i]).path != files[last].path,
    ensures
        stored(store, files).contains_key(files[last].path),
        stored(store, files)[files[last].path] == files[last].blob,
    decreases files.len(),
{
    let rest = files.drop_first();
    let after = store.insert(files[0].path, files[0].blob);
    if last == 0 {
        assert forall|i: int| 0 <= i < rest.len() implies (#[trigger] rest[i]).path
            != files[0].path by {
            assert(rest[i] == files[i + 1]);
        }
        lemma_other_paths_are_kept(after, rest, files[0].path);
    } else {
        assert(rest[last - 1] == files[last]);
        assert forall|i: int| last - 1 < i < rest.len() implies (#[trigger] rest[i]).path
            != files[last].path by {
            assert(rest[i] == files[i + 1]);
        }
        lemma_last_write_is_kept(after, rest, last - 1);
    }
}

proof fn lemma_position(names: Seq<Seq<char>>, k: int, other: int)
    requires
        names == table_columns(),
        0 <= k < 12,
        0 <= other < 12,
        names[other] == names[k],
    ensures
        other == k,
{
    lemma_names_differ();
    if other < k {
        assert(table_columns()[other] != table_columns()[k]);
    } else if k < other {
        assert(table_columns()[k] != table_columns()[other]);
    }
}

/// Rows that were scanned with all columns can be written back: each becomes a file with
/// its path, and with its content where that was read.
pub proof fn lemma_scanned_rows_can_be_written(
    constants: ConstantsView,
    rows: Seq<StoredRow>,
    columns: InsertColumns,
    files: Seq<FileView>,
)
    requires
        first_column(table_fields(), PATH_COL@, columns.path as int),
        first_column(table_fields(), BLOB_COL@, columns.blob as int),
        files_of(chosen_columns(table_fields(), table_of(constants, rows)), columns, files),
    ensures
        insert_refusal(table_fields()) is None,
        files.len() == rows.len(),
        forall|i: int|
            0 <= i < files.len() ==> (#[trigger] files[i]).path == rows[i].row.path && (
            rows[i].blob matches Some(blob) ==> files[i].blob == blob),
{
    lemma_projection_assembles(None, constants, rows);
    lemma_names_differ();
    let fields = table_fields();
    let names = table_columns();
    assert(names[5] == PATH_COL@ && names[7] == BLOB_COL@);
    assert forall|k: int| 0 <= k < 12 implies (#[trigger] fields[k]).name == names[k] by {
        lemma_table_column(constants, rows, k);
    }
    assert(fields[5].name == PATH_COL@ && fields[7].name == BLOB_COL@);
    lemma_position(names, 5, columns.path as int);
    lemma_position(names, 7, columns.blob as int);
    lemma_type_of(fields, PATH_COL@, 5);
    lemma_type_of(fields, BLOB_COL@, 7);
    let chosen = chosen_columns(fields, table_of(constants, rows));
    assert(chosen[5] == table_of(constants, rows)[5]);
    assert(chosen[7] == table_of(constants, rows)[7]);
    assert forall|i: int| 0 <= i < files.len() implies (#[trigger] files[i]).path
        == rows[i].row.path && (rows[i].blob matches Some(blob) ==> files[i].blob == blob) by {
        assert(chosen[5]->Utf8_0[i] == Some(rows[i].row.path));
        assert(chosen[7]->LargeBinary_0[i] == rows[i].blob);
    }
}

} // verus!
