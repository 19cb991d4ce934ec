use vstd::prelude::*;

use crate::batch::{
    assembles, chosen, chosen_columns, columns_fit, lemma_chosen_agree, ColumnView,
};
use crate::columns::{lemma_names_differ, table_columns};
use crate::rows::{table_of, ConstantsView, StoredRow};
use crate::schema::{collected, has_column, projectable, projected, table_fields, FieldView};

verus! {

/// The positions in the table of the columns that a scan collects: those of the
/// projection, all without one, and the path's where the projection is empty.
pub open spec fn positions(projection: Option<Seq<usize>>) -> Seq<int> {
    match projection {
        Some(indices) => if indices.len() == 0 {
            seq![5]
        } else {
            indices.map_values(|index: usize| index as int)
        },
        None => Seq::new(12, |i: int| i),
    }
}

/// Whether the positions follow the order of the table.
pub open spec fn in_table_order(positions: Seq<int>) -> bool {
    &&& forall|i: int| 0 <= i < positions.len() ==> 0 <= #[trigger] positions[i] < 12
    &&& forall|i: int, j: int|
        0 <= i < j < positions.len() ==> #[trigger] positions[i] < #[trigger] positions[j]
}

/// Of the first `n` columns of the table, those are chosen whose positions are given.
proof fn lemma_chosen_in_order(
    fields: Seq<FieldView>,
    table: Seq<ColumnView>,
    positions: Seq<int>,
    n: nat,
) -> (count: int)
    requires
        n <= 12,
        in_table_order(positions),
        fields.len() == positions.len(),
        forall|i: int|
            0 <= i < positions.len() ==> (#[trigger] fields[i]).name
                == table_columns()[positions[i]],
    ensures
        0 <= count <= positions.len(),
        forall|i: int| 0 <= i < count ==> #[trigger] positions[i] < n,
        forall|i: int| count <= i < positions.len() ==> #[trigger] positions[i] >= n,
        chosen(fields, table, n).len() == count,
        forall|i: int|
            0 <= i < count ==> #[trigger] chosen(fields, table, n)[i] == table[positions[i]],
    decreases n,
{
    if n == 0 {
        0
    } else {
        let before = lemma_chosen_in_order(fields, table, positions, (n - 1) as nat);
        let name = table_columns()[n - 1];
        lemma_names_differ();
        if before < positions.len() && positions[before] == n - 1 {
            assert(fields[before].name == name);
            assert forall|i: int| before + 1 <= i < positions.len() implies #[trigger] positions[i]
                >= n by {
                assert(positions[before] < positions[i]);
            }
            before + 1
        } else {
            assert(!has_column(fields, name)) by {
                if has_column(fields, name) {
                    let i = choose|i: int|
                        0 <= i < fields.len() && (#[trigger] fields[i]).name == name;
                    assert(table_columns()[positions[i]] == name);
                    assert(positions[i] == n - 1) by {
                        if positions[i] < n - 1 {
                            assert(table_columns()[positions[i]] != table_columns()[n - 1]);
                        } else if positions[i] > n - 1 {
                            assert(table_columns()[n - 1] != table_columns()[positions[i]]);
                        }
                    }
                    assert(i >= before);
                    if before < i {
                        assert(positions[before] < positions[i]);
                    }
                }
            }
            assert forall|i: int| before <= i < positions.len() implies #[trigger] positions[i]
                >= n by {
                if before < i {
                    assert(positions[before] < positions[i]);
                }
            }
            before
        }
    }
}

/// Each column of the table agrees with its field.
pub proof fn lemma_table_column(constants: ConstantsView, rows: Seq<StoredRow>, k: int)
    requires
        0 <= k < 12,
    ensures
        table_fields()[k].name == table_columns()[k],
        table_of(constants, rows)[k].len() == rows.len(),
        table_of(constants, rows)[k].data_type() == table_fields()[k].data_type,
        table_fields()[k].nullable || table_of(constants, rows)[k].complete(),
{
    if k == 0 {
    } else if k == 1 {
    } else if k == 2 {
    } else if k == 3 {
    } else if k == 4 {
    } else if k == 5 {
    } else if k == 6 {
    } else if k == 7 {
    } else if k == 8 {
    } else if k == 9 {
    } else if k == 10 {
    } else {
    }
}

/// Where a projection follows the order of the table, the rows that wait make a batch, and
/// its columns are those of the table that the projection asks for.
pub proof fn lemma_projection_assembles(
    projection: Option<Seq<usize>>,
    constants: ConstantsView,
    rows: Seq<StoredRow>,
)
    requires
        projectable(table_fields(), projection),
        in_table_order(positions(projection)),
    ensures
        ({
            let fields = collected(projected(table_fields(), projection));
            let columns = chosen_columns(fields, table_of(constants, rows));
            &&& assembles(fields, columns)
            &&& columns.len() == positions(projection).len()
            &&& forall|i: int|
                0 <= i < columns.len() ==> #[trigger] columns[i] == table_of(
                    constants,
                    rows,
                )[positions(projection)[i]]
        }),
{
    let wanted = positions(projection);
    let fields = collected(projected(table_fields(), projection));
    let table = table_of(constants, rows);
    assert(table_columns().len() == 12);
    assert(fields.len() == wanted.len());
    assert forall|i: int| 0 <= i < wanted.len() implies #[trigger] fields[i]
        == table_fields()[wanted[i]] by {}
    assert forall|k: int| 0 <= k < 12 implies (#[trigger] table_fields()[k]).name
        == table_columns()[k] by {
        lemma_table_column(constants, rows, k);
    }
    assert forall|i: int| 0 <= i < wanted.len() implies (#[trigger] fields[i]).name
        == table_columns()[wanted[i]] by {
        lemma_table_column(constants, rows, wanted[i]);
    }
    let count = lemma_chosen_in_order(fields, table, wanted, 12);
    let columns = chosen_columns(fields, table);
    assert(count == wanted.len()) by {
        if count < wanted.len() {
            assert(wanted[count] >= 12);
        }
    }
    assert forall|i: int| 0 <= i < columns.len() implies (#[trigger] columns[i]).len()
        == columns[0].len() && columns[i].data_type() == fields[i].data_type && (fields[i].nullable
        || columns[i].complete()) by {
        lemma_table_column(constants, rows, wanted[i]);
        lemma_table_column(constants, rows, wanted[0]);
        assert(columns[i] == table[wanted[i]]);
        assert(columns[0] == table[wanted[0]]);
    }
}

/// Columns that a schema does not ask for do not matter, whatever they hold and however long
/// they are: the same columns are chosen without regard to them, so that they make the same
/// batch or none.
pub proof fn lemma_unasked_columns_do_not_matter(
    fields: Seq<FieldView>,
    one: Seq<ColumnView>,
    other: Seq<ColumnView>,
)
    requires
        forall|k: int|
            0 <= k < 12 && has_column(fields, #[trigger] table_columns()[k]) ==> one[k] == other[k],
    ensures
        chosen_columns(fields, one) == chosen_columns(fields, other),
        columns_fit(fields, one) == columns_fit(fields, other),
        assembles(fields, chosen_columns(fields, one)) == assembles(
            fields,
            chosen_columns(fields, other),
        ),
{
    assert(table_columns().len() == 12);
    lemma_chosen_agree(fields, one, other, 12);
}

} // verus!
