//! What holds of the table of rows: what is listed after records were written and removed.
//!
//! The table lists its rows by their identifiers and holds one row for each identifier. Writing a
//! row takes the place of the row with its identifier.
use crate::hnsw::DbErrorView;
use crate::matching::matches_of;
use crate::records::{
    is_of_type, lemma_tool_round_trip, restored_of, stored_tool, tool_stored, StorageView,
    ToolRecord, ToolView,
};
use crate::sorting::{
    lemma_text_le_antisymmetric, lemma_text_le_total, lemma_text_le_transitive, text_le,
};
use crate::sqlite_vectordb::{
    collected, indexed_rows, lemma_row_round_trip, row_record, rows_records, SqliteVectorDB,
    StorageWrite, StoredRow,
};
use crate::store_laws::{lemma_kind_is_kept, lemma_removed_is_not_found};
use vstd::prelude::*;

verus! {

// ---------------------------------------------------------------------------------------------
// Order
// ---------------------------------------------------------------------------------------------
/// `a` stands before `b`, and is not `b`.
pub open spec fn text_lt(a: Seq<char>, b: Seq<char>) -> bool {
    text_le(a, b) && a != b
}

/// Every text stands before the next ones, and none stands there twice.
pub open spec fn ascending(ids: Seq<Seq<char>>) -> bool {
    forall|i: int, j: int| 0 <= i < j < ids.len() ==> text_lt(#[trigger] ids[i], #[trigger] ids[j])
}

/// The identifiers of rows.
pub open spec fn row_ids(rows: Seq<StoredRow>) -> Seq<Seq<char>> {
    Seq::new(rows.len(), |i: int| rows[i].id@)
}

/// The identifiers of records.
pub open spec fn record_ids(records: Seq<StorageView>) -> Seq<Seq<char>> {
    Seq::new(records.len(), |i: int| records[i].id)
}

/// The identifiers of tools.
pub open spec fn tool_ids(tools: Seq<ToolView>) -> Seq<Seq<char>> {
    Seq::new(tools.len(), |i: int| tools[i].id)
}

proof fn lemma_text_lt_transitive(a: Seq<char>, b: Seq<char>, c: Seq<char>)
    requires
        text_lt(a, b),
        text_lt(b, c),
    ensures
        text_lt(a, c),
{
    lemma_text_le_transitive(a, b, c);
    if a == c {
        lemma_text_le_antisymmetric(a, b);
    }
}

// ---------------------------------------------------------------------------------------------
// The table
// ---------------------------------------------------------------------------------------------
/// The rows, by their identifiers, once a row is written: it takes the place of the row with its
/// identifier, or else its own place in the order.
pub open spec fn put_row(rows: Seq<StoredRow>, row: StoredRow) -> Seq<StoredRow>
    decreases rows.len(),
{
    if rows.len() == 0 {
        seq![row]
    } else if rows.last().id@ == row.id@ {
        rows.drop_last().push(row)
    } else if text_le(rows.last().id@, row.id@) {
        rows.push(row)
    } else {
        put_row(rows.drop_last(), row).push(rows.last())
    }
}

/// The rows that have another identifier, in order: those that are left once the record with the
/// identifier is removed.
pub open spec fn rows_without(rows: Seq<StoredRow>, id: Seq<char>) -> Seq<StoredRow>
    decreases rows.len(),
{
    if rows.len() == 0 {
        Seq::empty()
    } else {
        let before = rows_without(rows.drop_last(), id);
        if rows.last().id@ == id {
            before
        } else {
            before.push(rows.last())
        }
    }
}

/// The records that have another identifier, in order.
pub open spec fn records_without(records: Seq<StorageView>, id: Seq<char>) -> Seq<StorageView>
    decreases records.len(),
{
    if records.len() == 0 {
        Seq::empty()
    } else {
        let before = records_without(records.drop_last(), id);
        if records.last().id == id {
            before
        } else {
            before.push(records.last())
        }
    }
}

/// One of the records has the identifier.
pub open spec fn has_id(records: Seq<StorageView>, id: Seq<char>) -> bool {
    exists|i: int| 0 <= i < records.len() && (#[trigger] records[i]).id == id
}

/// How many rows are deleted when the record with the identifier is removed.
pub open spec fn deleted(rows: Seq<StoredRow>, id: Seq<char>) -> int {
    rows.len() - rows_without(rows, id).len()
}

// ---------------------------------------------------------------------------------------------
// Reading rows
// ---------------------------------------------------------------------------------------------
/// Each row keeps the record at its place.
spec fn each_read(rows: Seq<StoredRow>, records: Seq<StorageView>) -> bool {
    &&& records.len() == rows.len()
    &&& forall|i: int|
        0 <= i < rows.len() ==> row_record(#[trigger] rows[i]) == Ok::<_, DbErrorView>(records[i])
}

proof fn lemma_rows_records(rows: Seq<StoredRow>, records: Seq<StorageView>)
    ensures
        rows_records(rows) == Ok::<_, DbErrorView>(records) <==> each_read(rows, records),
    decreases rows.len(),
{
    let read = Seq::new(rows.len(), |i: int| row_record(rows[i]));
    if rows.len() == 0 {
        if each_read(rows, records) {
            assert(records =~= Seq::empty());
        }
    } else {
        let rest = rows.drop_last();
        assert(read.drop_last() =~= Seq::new(rest.len(), |i: int| row_record(rest[i])));
        if each_read(rows, records) {
            let before = records.drop_last();
            assert forall|i: int| 0 <= i < rest.len() implies row_record(#[trigger] rest[i]) == Ok::<
                _,
                DbErrorView,
            >(before[i]) by {
                assert(rest[i] == rows[i]);
            }
            lemma_rows_records(rest, before);
            assert(row_record(rows[rows.len() - 1]) == Ok::<_, DbErrorView>(records.last()));
            assert(before.push(records.last()) =~= records);
        }
        if rows_records(rows) == Ok::<_, DbErrorView>(records) {
            let before = collected(read.drop_last())->Ok_0;
            lemma_rows_records(rest, before);
            assert(read.last() == Ok::<_, DbErrorView>(records.last()));
            assert forall|i: int| 0 <= i < rows.len() implies row_record(#[trigger] rows[i]) == Ok::<
                _,
                DbErrorView,
            >(records[i]) by {
                if i < rest.len() {
                    assert(rest[i] == rows[i]);
                    assert(before[i] == records[i]);
                }
            }
        }
    }
}

/// The records in rows that can all be read.
spec fn records_in(rows: Seq<StoredRow>) -> Seq<StorageView> {
    Seq::new(rows.len(), |i: int| row_record(rows[i])->Ok_0)
}

proof fn lemma_records_in(rows: Seq<StoredRow>)
    requires
        forall|i: int| 0 <= i < rows.len() ==> row_record(#[trigger] rows[i]) is Ok,
    ensures
        rows_records(rows) == Ok::<_, DbErrorView>(records_in(rows)),
        record_ids(records_in(rows)) == row_ids(rows),
{
    assert forall|i: int| 0 <= i < rows.len() implies row_record(#[trigger] rows[i]) == Ok::<
        _,
        DbErrorView,
    >(records_in(rows)[i]) by {
        assert(row_record(rows[i]) is Ok);
    }
    lemma_rows_records(rows, records_in(rows));
    assert forall|i: int| 0 <= i < rows.len() implies records_in(rows)[i].id == (
    #[trigger] rows[i]).id@ by {
        assert(row_record(rows[i]) is Ok);
    }
    assert(record_ids(records_in(rows)) =~= row_ids(rows));
}

// ---------------------------------------------------------------------------------------------
// Writing
// ---------------------------------------------------------------------------------------------
proof fn lemma_put_row(rows: Seq<StoredRow>, row: StoredRow)
    requires
        ascending(row_ids(rows)),
    ensures
        ({
            let after = put_row(rows, row);
            &&& ascending(row_ids(after))
            &&& forall|k: int|
                0 <= k < after.len() ==> #[trigger] after[k] == row || (rows.contains(after[k])
                    && after[k].id@ != row.id@)
            &&& after.contains(row)
            &&& forall|j: int|
                0 <= j < rows.len() && (#[trigger] rows[j]).id@ != row.id@ ==> after.contains(
                    rows[j],
                )
            &&& after.len() == rows.len() + (if exists|j: int|
                0 <= j < rows.len() && (#[trigger] rows[j]).id@ == row.id@ {
                0int
            } else {
                1int
            })
        }),
    decreases rows.len(),
{
    let after = put_row(rows, row);
    let ids = row_ids(rows);
    assert forall|i: int| 0 <= i < rows.len() implies ids[i] == (#[trigger] rows[i]).id@ by {}
    if rows.len() == 0 {
        assert(after[0] == row);
    } else {
        let rest = rows.drop_last();
        let last = rows.last();
        assert forall|i: int| 0 <= i < rest.len() implies text_lt((#[trigger] rest[i]).id@, last.id@) by {
            assert(text_lt(ids[i], ids[rows.len() - 1]));
        }
        assert(ascending(row_ids(rest))) by {
            assert forall|i: int, j: int| 0 <= i < j < rest.len() implies text_lt(
                #[trigger] row_ids(rest)[i],
                #[trigger] row_ids(rest)[j],
            ) by {
                assert(text_lt(ids[i], ids[j]));
            }
        }
        if last.id@ == row.id@ {
            assert(after.last() == row && after[rows.len() - 1] == row);
            assert forall|i: int, j: int| 0 <= i < j < after.len() implies text_lt(
                #[trigger] row_ids(after)[i],
                #[trigger] row_ids(after)[j],
            ) by {
                assert(text_lt(ids[i], ids[j]));
            }
            assert forall|j: int| 0 <= j < rows.len() && (#[trigger] rows[j]).id@
                != row.id@ implies after.contains(rows[j]) by {
                assert(after[j] == rows[j]);
            }
            assert(rows[rows.len() - 1].id@ == row.id@);
            assert forall|k: int| 0 <= k < after.len() implies #[trigger] after[k] == row || (
            rows.contains(after[k]) && after[k].id@ != row.id@) by {
                if k < rest.len() {
                    assert(rest[k] == rows[k]);
                    assert(rows[k] == after[k]);
                }
            }
        } else if text_le(last.id@, row.id@) {
            assert forall|i: int| 0 <= i < rows.len() implies text_lt(
                (#[trigger] rows[i]).id@,
                row.id@,
            ) by {
                if i < rest.len() {
                    assert(rest[i] == rows[i]);
                    lemma_text_lt_transitive(rows[i].id@, last.id@, row.id@);
                }
            }
            assert forall|i: int, j: int| 0 <= i < j < after.len() implies text_lt(
                #[trigger] row_ids(after)[i],
                #[trigger] row_ids(after)[j],
            ) by {
                assert(after[i] == rows[i]);
                if j < rows.len() {
                    assert(text_lt(ids[i], ids[j]));
                }
            }
            assert(after[rows.len() as int] == row);
            assert forall|j: int| 0 <= j < rows.len() && (#[trigger] rows[j]).id@
                != row.id@ implies after.contains(rows[j]) by {
                assert(after[j] == rows[j]);
            }
            assert forall|k: int| 0 <= k < after.len() implies #[trigger] after[k] == row || (
            rows.contains(after[k]) && after[k].id@ != row.id@) by {
                if k < rows.len() {
                    assert(rows[k] == after[k]);
                }
            }
        } else {
            lemma_text_le_total(last.id@, row.id@);
            lemma_put_row(rest, row);
            let placed = put_row(rest, row);
            assert(after[after.len() - 1] == last);
            assert forall|k: int| 0 <= k < placed.len() implies text_lt(
                (#[trigger] placed[k]).id@,
                last.id@,
            ) by {
                if placed[k] != row {
                    let j = choose|j: int| 0 <= j < rest.len() && rest[j] == placed[k];
                    assert(text_lt(rest[j].id@, last.id@));
                }
            }
            assert forall|i: int, j: int| 0 <= i < j < after.len() implies text_lt(
                #[trigger] row_ids(after)[i],
                #[trigger] row_ids(after)[j],
            ) by {
                assert(after[i] == placed[i]);
                if j < placed.len() {
                    assert(after[j] == placed[j]);
                    assert(text_lt(row_ids(placed)[i], row_ids(placed)[j]));
                }
            }
            assert forall|k: int| 0 <= k < after.len() implies #[trigger] after[k] == row || (
            rows.contains(after[k]) && after[k].id@ != row.id@) by {
                if k < placed.len() {
                    assert(after[k] == placed[k]);
                    if placed[k] != row {
                        let j = choose|j: int| 0 <= j < rest.len() && rest[j] == placed[k];
                        assert(rows[j] == after[k]);
                    }
                } else {
                    assert(rows[rows.len() - 1] == after[k]);
                }
            }
            let w = choose|w: int| 0 <= w < placed.len() && placed[w] == row;
            assert(after[w] == row);
            assert forall|j: int| 0 <= j < rows.len() && (#[trigger] rows[j]).id@
                != row.id@ implies after.contains(rows[j]) by {
                if j < rest.len() {
                    assert(rest[j] == rows[j]);
                    let k = choose|k: int| 0 <= k < placed.len() && placed[k] == rest[j];
                    assert(after[k] == rows[j]);
                } else {
                    assert(after[after.len() - 1] == rows[j]);
                }
            }
            assert((exists|j: int| 0 <= j < rest.len() && (#[trigger] rest[j]).id@ == row.id@) <==> (
            exists|j: int| 0 <= j < rows.len() && (#[trigger] rows[j]).id@ == row.id@)) by {
                if exists|j: int| 0 <= j < rest.len() && (#[trigger] rest[j]).id@ == row.id@ {
                    let j = choose|j: int|
                        0 <= j < rest.len() && (#[trigger] rest[j]).id@ == row.id@;
                    assert(rows[j].id@ == row.id@);
                }
                if exists|j: int| 0 <= j < rows.len() && (#[trigger] rows[j]).id@ == row.id@ {
                    let j = choose|j: int|
                        0 <= j < rows.len() && (#[trigger] rows[j]).id@ == row.id@;
                    assert(rest[j].id@ == row.id@);
                }
            }
        }
    }
}

/// After a record was added, the list holds exactly that record, as it was given, and the records
/// that were listed before under other identifiers. It is longer by one if and only if none was
/// listed under the identifier, and no identifier stands in it twice.
pub proof fn lemma_list_after_write(
    db: SqliteVectorDB,
    rows: Seq<StoredRow>,
    records: Seq<StorageView>,
    r: StorageView,
    index_ready: bool,
    write: StorageWrite,
)
    requires
        ascending(row_ids(rows)),
        rows_records(rows) == Ok::<_, DbErrorView>(records),
        db.added(r, index_ready, Ok(write)),
    ensures
        ascending(row_ids(put_row(rows, write.row))),
        ({
            &&& rows_records(put_row(rows, write.row)) matches Ok(listed)
            &&& ascending(record_ids(listed))
            &&& forall|x: StorageView| #[trigger]
                listed.contains(x) <==> x == r || (records.contains(x) && x.id != r.id)
            &&& listed.len() == records.len() + (if has_id(records, r.id) {
                0int
            } else {
                1int
            })
        }),
{
    let row = write.row;
    let after = put_row(rows, row);
    lemma_row_round_trip(row, r);
    lemma_rows_records(rows, records);
    lemma_put_row(rows, row);
    assert forall|k: int| 0 <= k < after.len() implies row_record(#[trigger] after[k]) is Ok by {
        if after[k] != row {
            let j = choose|j: int| 0 <= j < rows.len() && rows[j] == after[k];
            assert(row_record(rows[j]) == Ok::<_, DbErrorView>(records[j]));
        }
    }
    lemma_records_in(after);
    let listed = records_in(after);
    assert forall|x: StorageView| #[trigger] listed.contains(x) <==> x == r || (records.contains(x)
        && x.id != r.id) by {
        if listed.contains(x) {
            let k = choose|k: int| 0 <= k < listed.len() && listed[k] == x;
            assert(row_record(after[k]) is Ok);
            if after[k] != row {
                let j = choose|j: int| 0 <= j < rows.len() && rows[j] == after[k];
                assert(row_record(rows[j]) == Ok::<_, DbErrorView>(records[j]));
                assert(records[j] == x);
            }
        }
        if x == r {
            let k = choose|k: int| 0 <= k < after.len() && after[k] == row;
            assert(listed[k] == r);
        }
        if records.contains(x) && x.id != r.id {
            let j = choose|j: int| 0 <= j < records.len() && records[j] == x;
            assert(row_record(rows[j]) == Ok::<_, DbErrorView>(records[j]));
            assert(rows[j].id@ != row.id@);
            let k = choose|k: int| 0 <= k < after.len() && after[k] == rows[j];
            assert(listed[k] == x);
        }
    }
    assert(has_id(records, r.id) <==> exists|j: int|
        0 <= j < rows.len() && (#[trigger] rows[j]).id@ == row.id@) by {
        if has_id(records, r.id) {
            let j = choose|j: int| 0 <= j < records.len() && (#[trigger] records[j]).id == r.id;
            assert(row_record(rows[j]) == Ok::<_, DbErrorView>(records[j]));
            assert(rows[j].id@ == row.id@);
        }
        if exists|j: int| 0 <= j < rows.len() && (#[trigger] rows[j]).id@ == row.id@ {
            let j = choose|j: int| 0 <= j < rows.len() && (#[trigger] rows[j]).id@ == row.id@;
            assert(row_record(rows[j]) == Ok::<_, DbErrorView>(records[j]));
            assert(records[j].id == r.id);
        }
    }
}

// ---------------------------------------------------------------------------------------------
// Removing
// ---------------------------------------------------------------------------------------------
proof fn lemma_rows_without(rows: Seq<StoredRow>, id: Seq<char>)
    ensures
        ({
            let rest = rows_without(rows, id);
            &&& rest.len() <= rows.len()
            &&& forall|k: int|
                0 <= k < rest.len() ==> rows.contains(#[trigger] rest[k]) && rest[k].id@ != id
            &&& forall|j: int|
                0 <= j < rows.len() && (#[trigger] rows[j]).id@ != id ==> rest.contains(rows[j])
            &&& (forall|j: int| 0 <= j < rows.len() ==> (#[trigger] rows[j]).id@ != id) ==> rest
                == rows
            &&& rest.len() == rows.len() ==> forall|j: int|
                0 <= j < rows.len() ==> (#[trigger] rows[j]).id@ != id
            &&& ascending(row_ids(rows)) ==> ascending(row_ids(rest)) && rows.len() - rest.len() <= 1
        }),
    decreases rows.len(),
{
    if rows.len() > 0 {
        let before = rows.drop_last();
        let last = rows.last();
        let kept = rows_without(before, id);
        let rest = rows_without(rows, id);
        lemma_rows_without(before, id);
        assert forall|i: int| 0 <= i < before.len() implies before[i] == #[trigger] rows[i] by {}
        assert(rows[rows.len() - 1] == last);
        assert forall|k: int| 0 <= k < rest.len() implies rows.contains(#[trigger] rest[k])
            && rest[k].id@ != id by {
            if k < kept.len() {
                assert(kept[k] == rest[k]);
                let j = choose|j: int| 0 <= j < before.len() && before[j] == kept[k];
                assert(rows[j] == rest[k]);
            }
        }
        assert forall|j: int| 0 <= j < rows.len() && (#[trigger] rows[j]).id@
            != id implies rest.contains(rows[j]) by {
            if j < before.len() {
                assert(before[j].id@ != id);
                let k = choose|k: int| 0 <= k < kept.len() && kept[k] == before[j];
                assert(rest[k] == rows[j]);
            } else {
                assert(rest[rest.len() - 1] == rows[j]);
            }
        }
        if forall|j: int| 0 <= j < rows.len() ==> (#[trigger] rows[j]).id@ != id {
            assert(forall|j: int| 0 <= j < before.len() ==> (#[trigger] before[j]).id@ != id);
            assert(rest =~= rows);
        }
        if rest.len() == rows.len() {
            assert forall|j: int| 0 <= j < rows.len() implies (#[trigger] rows[j]).id@ != id by {
                if j < before.len() {
                    assert(before[j].id@ != id);
                }
            }
        }
        if ascending(row_ids(rows)) {
            let ids = row_ids(rows);
            assert forall|i: int, j: int| 0 <= i < j < before.len() implies text_lt(
                #[trigger] row_ids(before)[i],
                #[trigger] row_ids(before)[j],
            ) by {
                assert(text_lt(ids[i], ids[j]));
            }
            assert forall|i: int, j: int| 0 <= i < j < rest.len() implies text_lt(
                #[trigger] row_ids(rest)[i],
                #[trigger] row_ids(rest)[j],
            ) by {
                assert(rest[i] == kept[i]);
                if j < kept.len() {
                    assert(rest[j] == kept[j]);
                    assert(text_lt(row_ids(kept)[i], row_ids(kept)[j]));
                } else {
                    let a = choose|a: int| 0 <= a < before.len() && before[a] == kept[i];
                    assert(text_lt(ids[a], ids[rows.len() - 1]));
                }
            }
            if last.id@ == id {
                assert forall|j: int| 0 <= j < before.len() implies (#[trigger] before[j]).id@ != id by {
                    assert(text_lt(ids[j], ids[rows.len() - 1]));
                }
            }
        }
    }
}

proof fn lemma_records_without(rows: Seq<StoredRow>, records: Seq<StorageView>, id: Seq<char>)
    requires
        each_read(rows, records),
    ensures
        each_read(rows_without(rows, id), records_without(records, id)),
    decreases rows.len(),
{
    if rows.len() > 0 {
        let before = rows.drop_last();
        let earlier = records.drop_last();
        assert forall|i: int| 0 <= i < before.len() implies row_record(#[trigger] before[i]) == Ok::<
            _,
            DbErrorView,
        >(earlier[i]) by {
            assert(before[i] == rows[i]);
        }
        lemma_records_without(before, earlier, id);
        assert(row_record(rows[rows.len() - 1]) == Ok::<_, DbErrorView>(records.last()));
        let kept = rows_without(before, id);
        let rest = rows_without(rows, id);
        assert forall|i: int| 0 <= i < rest.len() implies row_record(#[trigger] rest[i]) == Ok::<
            _,
            DbErrorView,
        >(records_without(records, id)[i]) by {
            if i < kept.len() {
                assert(kept[i] == rest[i]);
            }
        }
    }
}

/// After a record was removed, the list is what it was without that record. Rows are deleted, one
/// at most, if and only if a record was listed under the identifier; removing it again deletes
/// none.
pub proof fn lemma_list_after_removal(
    rows: Seq<StoredRow>,
    records: Seq<StorageView>,
    id: Seq<char>,
)
    requires
        ascending(row_ids(rows)),
        rows_records(rows) == Ok::<_, DbErrorView>(records),
    ensures
        ascending(row_ids(rows_without(rows, id))),
        rows_records(rows_without(rows, id)) == Ok::<_, DbErrorView>(records_without(records, id)),
        deleted(rows, id) == (if has_id(records, id) {
            1int
        } else {
            0int
        }),
        deleted(rows_without(rows, id), id) == 0,
{
    let rest = rows_without(rows, id);
    lemma_rows_without(rows, id);
    lemma_rows_without(rest, id);
    lemma_rows_records(rows, records);
    lemma_records_without(rows, records, id);
    lemma_rows_records(rest, records_without(records, id));
    if has_id(records, id) {
        let j = choose|j: int| 0 <= j < records.len() && (#[trigger] records[j]).id == id;
        assert(row_record(rows[j]) == Ok::<_, DbErrorView>(records[j]));
        assert(rows[j].id@ == id);
    } else {
        assert forall|j: int| 0 <= j < rows.len() implies (#[trigger] rows[j]).id@ != id by {
            assert(row_record(rows[j]) == Ok::<_, DbErrorView>(records[j]));
            assert(records[j].id != id);
        }
    }
}

/// What is left of a list without an identifier are the records under other identifiers.
pub proof fn lemma_records_left(records: Seq<StorageView>, id: Seq<char>)
    ensures
        forall|x: StorageView| #[trigger]
            records_without(records, id).contains(x) <==> records.contains(x) && x.id != id,
    decreases records.len(),
{
    let left = records_without(records, id);
    if records.len() > 0 {
        let before = records.drop_last();
        let kept = records_without(before, id);
        lemma_records_left(before, id);
        assert forall|x: StorageView| #[trigger] left.contains(x) <==> records.contains(x) && x.id
            != id by {
            if left.contains(x) {
                let k = choose|k: int| 0 <= k < left.len() && left[k] == x;
                if k < kept.len() {
                    assert(kept[k] == x);
                    assert(kept.contains(x));
                    let j = choose|j: int| 0 <= j < before.len() && before[j] == x;
                    assert(records[j] == x);
                } else {
                    assert(records[records.len() - 1] == x);
                }
            }
            if records.contains(x) && x.id != id {
                let j = choose|j: int| 0 <= j < records.len() && records[j] == x;
                if j < before.len() {
                    assert(before[j] == x);
                    assert(kept.contains(x));
                    let k = choose|k: int| 0 <= k < kept.len() && kept[k] == x;
                    assert(left[k] == x);
                } else {
                    assert(left[left.len() - 1] == x);
                }
            }
        }
    }
}

/// After a record was removed, no search gives a record with its identifier, whatever the index
/// still names.
pub proof fn lemma_search_after_removal(
    rows: Seq<StoredRow>,
    id: Seq<char>,
    neighbors: Seq<usize>,
    limit: usize,
    filter: Option<Map<Seq<char>, Seq<char>>>,
    max_elements: usize,
)
    ensures
        ({
            let rest = rows_without(rows, id);
            let res = matches_of(indexed_rows(rest, max_elements), neighbors, limit, filter);
            forall|k: int| 0 <= k < res.len() ==> (#[trigger] res[k]).id != id
        }),
{
    lemma_rows_without(rows, id);
    lemma_removed_is_not_found(
        rows_without(rows, id),
        id,
        neighbors,
        limit,
        filter,
        max_elements,
    );
}

// ---------------------------------------------------------------------------------------------
// Histories
// ---------------------------------------------------------------------------------------------
/// A change of the table: a record that was added with the given write, one that was removed, or
/// all of them cleared.
pub enum StoreChange {
    Add { record: StorageView, index_ready: bool, write: StorageWrite },
    Remove { id: Seq<char> },
    Clear,
}

/// The change is one that the store makes: what it writes is what adding the record comes to.
pub open spec fn made_by(db: SqliteVectorDB, change: StoreChange) -> bool {
    match change {
        StoreChange::Add { record, index_ready, write } => db.added(record, index_ready, Ok(write)),
        StoreChange::Remove { id } => true,
        StoreChange::Clear => true,
    }
}

/// The rows, by their identifiers, of a table that was new before the changes.
pub open spec fn rows_after(changes: Seq<StoreChange>) -> Seq<StoredRow>
    decreases changes.len(),
{
    if changes.len() == 0 {
        Seq::empty()
    } else {
        let before = rows_after(changes.drop_last());
        match changes.last() {
            StoreChange::Add { record, index_ready, write } => put_row(before, write.row),
            StoreChange::Remove { id } => rows_without(before, id),
            StoreChange::Clear => Seq::empty(),
        }
    }
}

/// The record that was last added under the identifier; none where it was removed or cleared
/// since, or never added.
pub open spec fn last_added(changes: Seq<StoreChange>, id: Seq<char>) -> Option<StorageView>
    decreases changes.len(),
{
    if changes.len() == 0 {
        None
    } else {
        match changes.last() {
            StoreChange::Add { record, index_ready, write } => if record.id == id {
                Some(record)
            } else {
                last_added(changes.drop_last(), id)
            },
            StoreChange::Remove { id: removed } => if removed == id {
                None
            } else {
                last_added(changes.drop_last(), id)
            },
            StoreChange::Clear => None,
        }
    }
}

/// After any changes of a new table, the list can be read. It is ascending by the identifiers, so
/// none stands in it twice, and it holds for each identifier the record that was last added under
/// it, as it was given, if it was not removed or cleared since, and no other record.
pub proof fn lemma_list_after_changes(db: SqliteVectorDB, changes: Seq<StoreChange>)
    requires
        forall|i: int| 0 <= i < changes.len() ==> made_by(db, #[trigger] changes[i]),
    ensures
        ascending(row_ids(rows_after(changes))),
        ({
            &&& rows_records(rows_after(changes)) matches Ok(listed)
            &&& ascending(record_ids(listed))
            &&& forall|r: StorageView| #[trigger]
                listed.contains(r) <==> last_added(changes, r.id) == Some(r)
        }),
    decreases changes.len(),
{
    let rows = rows_after(changes);
    if changes.len() == 0 {
        lemma_records_in(rows);
    } else {
        let earlier = changes.drop_last();
        assert forall|i: int| 0 <= i < earlier.len() implies made_by(db, #[trigger] earlier[i]) by {
            assert(earlier[i] == changes[i]);
        }
        lemma_list_after_changes(db, earlier);
        let before = rows_after(earlier);
        let records = rows_records(before)->Ok_0;
        assert(made_by(db, changes[changes.len() - 1]));
        match changes.last() {
            StoreChange::Add { record, index_ready, write } => {
                lemma_list_after_write(db, before, records, record, index_ready, write);
                let listed = rows_records(rows)->Ok_0;
                assert forall|r: StorageView| #[trigger] listed.contains(r) <==> last_added(
                    changes,
                    r.id,
                ) == Some(r) by {
                    assert(records.contains(r) <==> last_added(earlier, r.id) == Some(r));
                }
            },
            StoreChange::Remove { id } => {
                lemma_list_after_removal(before, records, id);
                lemma_records_left(records, id);
                let listed = records_without(records, id);
                lemma_ids_of(rows, listed);
                assert forall|r: StorageView| #[trigger] listed.contains(r) <==> last_added(
                    changes,
                    r.id,
                ) == Some(r) by {
                    assert(records.contains(r) <==> last_added(earlier, r.id) == Some(r));
                }
            },
            StoreChange::Clear => {
                lemma_records_in(rows);
            },
        }
    }
}

proof fn lemma_ids_of(rows: Seq<StoredRow>, records: Seq<StorageView>)
    requires
        rows_records(rows) == Ok::<_, DbErrorView>(records),
    ensures
        record_ids(records) == row_ids(rows),
{
    lemma_rows_records(rows, records);
    assert forall|i: int| 0 <= i < rows.len() implies records[i].id == (#[trigger] rows[i]).id@ by {
        assert(row_record(rows[i]) == Ok::<_, DbErrorView>(records[i]));
    }
    assert(record_ids(records) =~= row_ids(rows));
}

// ---------------------------------------------------------------------------------------------
// Tools
// ---------------------------------------------------------------------------------------------
/// The tools of a list that is ascending by the identifiers are ascending too. They are the tools
/// that the records of the type `tool` stand for, all of them and no others.
pub proof fn lemma_tools_of_list(records: Seq<StorageView>)
    requires
        ascending(record_ids(records)),
    ensures
        ({
            let tools = restored_of::<ToolRecord>(records);
            &&& ascending(tool_ids(tools))
            &&& forall|t: ToolView| #[trigger]
                tools.contains(t) <==> exists|r: StorageView| #[trigger]
                    records.contains(r) && is_of_type(r, "tool"@) && t == stored_tool(r)
        }),
    decreases records.len(),
{
    let tools = restored_of::<ToolRecord>(records);
    if records.len() == 0 {
        assert(forall|r: StorageView| !records.contains(r));
        assert(forall|t: ToolView| !tools.contains(t));
    } else {
        let before = records.drop_last();
        let last = records.last();
        let earlier = restored_of::<ToolRecord>(before);
        let ids = record_ids(records);
        assert forall|i: int, j: int| 0 <= i < j < before.len() implies text_lt(
            #[trigger] record_ids(before)[i],
            #[trigger] record_ids(before)[j],
        ) by {
            assert(text_lt(ids[i], ids[j]));
        }
        lemma_tools_of_list(before);
        assert(records[records.len() - 1] == last);
        assert forall|t: ToolView| #[trigger] tools.contains(t) <==> exists|r: StorageView|
            #[trigger]
            records.contains(r) && is_of_type(r, "tool"@) && t == stored_tool(r) by {
            if tools.contains(t) {
                let k = choose|k: int| 0 <= k < tools.len() && tools[k] == t;
                if k < earlier.len() {
                    assert(earlier[k] == t);
                    assert(earlier.contains(t));
                    let r = choose|r: StorageView| #[trigger]
                        before.contains(r) && is_of_type(r, "tool"@) && t == stored_tool(r);
                    let j = choose|j: int| 0 <= j < before.len() && before[j] == r;
                    assert(records[j] == r);
                    assert(records.contains(r));
                } else {
                    assert(records.contains(last));
                }
            }
            if exists|r: StorageView| #[trigger]
                records.contains(r) && is_of_type(r, "tool"@) && t == stored_tool(r) {
                let r = choose|r: StorageView| #[trigger]
                    records.contains(r) && is_of_type(r, "tool"@) && t == stored_tool(r);
                let j = choose|j: int| 0 <= j < records.len() && records[j] == r;
                if j < before.len() {
                    assert(before[j] == r);
                    assert(before.contains(r));
                    assert(earlier.contains(t));
                    let k = choose|k: int| 0 <= k < earlier.len() && earlier[k] == t;
                    assert(tools[k] == t);
                } else {
                    assert(tools[tools.len() - 1] == t);
                }
            }
        }
        assert forall|i: int, j: int| 0 <= i < j < tools.len() implies text_lt(
            #[trigger] tool_ids(tools)[i],
            #[trigger] tool_ids(tools)[j],
        ) by {
            assert(tools[i] == earlier[i]);
            if j < earlier.len() {
                assert(tools[j] == earlier[j]);
                assert(text_lt(tool_ids(earlier)[i], tool_ids(earlier)[j]));
            } else {
                assert(earlier.contains(earlier[i]));
                let r = choose|r: StorageView| #[trigger]
                    before.contains(r) && is_of_type(r, "tool"@) && earlier[i] == stored_tool(r);
                let a = choose|a: int| 0 <= a < before.len() && before[a] == r;
                assert(text_lt(ids[a], ids[records.len() - 1]));
            }
        }
    }
}

/// After a tool was added, the tools that are listed are ascending by their identifiers, and the
/// tool is among them as it was given. They are the tools that the listed records of the type
/// `tool` stand for, all of them and no others. Metadata under the two keys that the store uses
/// itself would not come back.
pub proof fn lemma_list_after_tool(
    db: SqliteVectorDB,
    rows: Seq<StoredRow>,
    records: Seq<StorageView>,
    tool: ToolView,
    index_ready: bool,
    write: StorageWrite,
)
    requires
        ascending(row_ids(rows)),
        rows_records(rows) == Ok::<_, DbErrorView>(records),
        db.added(tool_stored(tool), index_ready, Ok(write)),
        !tool.metadata.dom().contains("name"@),
        !tool.metadata.dom().contains("record_type"@),
    ensures
        ({
            &&& rows_records(put_row(rows, write.row)) matches Ok(listed)
            &&& ascending(tool_ids(restored_of::<ToolRecord>(listed)))
            &&& restored_of::<ToolRecord>(listed).contains(tool)
            &&& forall|t: ToolView| #[trigger]
                restored_of::<ToolRecord>(listed).contains(t) <==> exists|r: StorageView|
                    #[trigger]
                    listed.contains(r) && is_of_type(r, "tool"@) && t == stored_tool(r)
        }),
{
    lemma_list_after_write(db, rows, records, tool_stored(tool), index_ready, write);
    let listed = rows_records(put_row(rows, write.row))->Ok_0;
    assert(listed.contains(tool_stored(tool)));
    lemma_kind_is_kept::<ToolRecord>(listed, tool);
    lemma_tool_round_trip(tool);
    lemma_tools_of_list(listed);
}

} // verus!
