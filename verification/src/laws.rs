//! Cross-sync laws. Two successive syncs of an unchanged database see the
//! same catalog rows up to the volatile table statistics (row-count and
//! size estimates); the law here states that the composed trees are then
//! structurally equal modulo those volatile fields.

use vstd::prelude::*;

use crate::assemble::{
    group_columns, group_fks, group_indexes, lemma_group_fks_parallel,
    lemma_group_indexes_parallel, scan_tables, table_from_row, tables_and_views, views_from_rows,
};
use crate::compose::{
    attach_fold, lemma_sort_by_name_sorted, lemma_sort_pred, mysql_database_spec, sort_by_name,
    sorted_by_name,
};
use crate::group::{find_key, lemma_find_key, remove_key};
use crate::pg::{
    pg_database_spec, pg_schema_fold, pg_table_fold, pg_table_from_row, PgTableRowV, SchemaInfoV,
};
use crate::rows::{ColumnRowV, FkRowV, IndexRowV, RoutineRowV, TableRowV, ViewRowV};
use crate::store::{
    database_wf, fk_wf, index_wf, schema_wf, table_wf, ColumnV, DatabaseV, FkV, FunctionV, IndexV,
    ProcedureV, SchemaV, TableV, ViewV,
};

verus! {

/// Two table catalog rows agree on everything but the volatile statistics:
/// the row-count, data-size, index-size and free-space estimates.
pub open spec fn similar_table_row(a: TableRowV, b: TableRowV) -> bool {
    a == (TableRowV {
        row_count: a.row_count,
        data_size: a.data_size,
        index_size: a.index_size,
        data_free: a.data_free,
        ..b
    })
}

/// Two tables agree on everything but the volatile statistics.
pub open spec fn similar_table(a: TableV, b: TableV) -> bool {
    a == (TableV {
        row_count: a.row_count,
        data_size: a.data_size,
        index_size: a.index_size,
        data_free: a.data_free,
        ..b
    })
}

/// Two table lists agree pointwise up to volatile statistics.
pub open spec fn similar_tables(a: Seq<TableV>, b: Seq<TableV>) -> bool {
    a.len() == b.len() && forall|i: int| 0 <= i < a.len() ==> similar_table(a[i], #[trigger] b[i])
}

/// Two schemas agree on everything but their tables' volatile statistics.
pub open spec fn similar_schema(a: SchemaV, b: SchemaV) -> bool {
    similar_tables(a.tables, b.tables) && a == (SchemaV { tables: a.tables, ..b })
}

/// Two databases agree on everything but their tables' volatile statistics.
pub open spec fn similar_database(a: DatabaseV, b: DatabaseV) -> bool {
    &&& a.schemas.len() == b.schemas.len()
    &&& forall|i: int| 0 <= i < a.schemas.len() ==> similar_schema(a.schemas[i], #[trigger] b.schemas[i])
    &&& a == (DatabaseV { schemas: a.schemas, ..b })
}

/// Scanning pointwise-similar tables-and-views rows against the same view
/// list yields the same views and pointwise-similar tables.
proof fn lemma_scan_tables_similar(t1: Seq<TableRowV>, t2: Seq<TableRowV>, vs0: Seq<ViewV>)
    requires
        t1.len() == t2.len(),
        forall|i: int| 0 <= i < t1.len() ==> similar_table_row(t1[i], #[trigger] t2[i]),
        scan_tables(t1, vs0) is Ok,
    ensures
        scan_tables(t2, vs0) is Ok,
        similar_tables(scan_tables(t1, vs0)->Ok_0.0, scan_tables(t2, vs0)->Ok_0.0),
        scan_tables(t1, vs0)->Ok_0.1 == scan_tables(t2, vs0)->Ok_0.1,
    decreases t1.len(),
{
    if t1.len() > 0 {
        assert(similar_table_row(t1.last(), t2.last()));
        assert(forall|i: int|
            0 <= i < t1.len() - 1 ==> similar_table_row(
                t1.drop_last()[i],
                #[trigger] t2.drop_last()[i],
            ));
        lemma_scan_tables_similar(t1.drop_last(), t2.drop_last(), vs0);
        let p1 = scan_tables(t1.drop_last(), vs0)->Ok_0;
        let p2 = scan_tables(t2.drop_last(), vs0)->Ok_0;
        let r1 = t1.last();
        let r2 = t2.last();
        if r1.table_type == "BASE TABLE"@ {
            assert(similar_table(table_from_row(r1), table_from_row(r2)));
            assert(similar_tables(p1.0.push(table_from_row(r1)), p2.0.push(table_from_row(r2))))
                by {
                assert(forall|i: int|
                    0 <= i < p1.0.len() ==> p1.0.push(table_from_row(r1))[i] == #[trigger] p1.0[i]
                        && p2.0.push(table_from_row(r2))[i] == p2.0[i]);
            }
        }
    }
}

/// Attaching the same groups to pointwise-similar tables leaves the tables
/// pointwise similar and consumes the groups identically.
proof fn lemma_attach_fold_similar(
    t1: Seq<TableV>,
    t2: Seq<TableV>,
    idx: Seq<(Seq<char>, Seq<IndexV>)>,
    cols: Seq<(Seq<char>, Seq<ColumnV>)>,
    fks: Seq<(Seq<char>, Seq<FkV>)>,
)
    requires
        similar_tables(t1, t2),
    ensures
        similar_tables(attach_fold(t1, idx, cols, fks).0, attach_fold(t2, idx, cols, fks).0),
        attach_fold(t1, idx, cols, fks).1 == attach_fold(t2, idx, cols, fks).1,
        attach_fold(t1, idx, cols, fks).2 == attach_fold(t2, idx, cols, fks).2,
        attach_fold(t1, idx, cols, fks).3 == attach_fold(t2, idx, cols, fks).3,
    decreases t1.len(),
{
    if t1.len() > 0 {
        assert(similar_table(t1.last(), t2.last()));
        assert(forall|i: int|
            0 <= i < t1.len() - 1 ==> similar_table(t1.drop_last()[i], #[trigger] t2.drop_last()[i]));
        assert(similar_tables(t1.drop_last(), t2.drop_last()));
        lemma_attach_fold_similar(t1.drop_last(), t2.drop_last(), idx, cols, fks);
        let s1 = attach_fold(t1.drop_last(), idx, cols, fks);
        let s2 = attach_fold(t2.drop_last(), idx, cols, fks);
        assert(t1.last().name == t2.last().name);
        let a1 = attach_fold(t1, idx, cols, fks);
        let a2 = attach_fold(t2, idx, cols, fks);
        assert(similar_tables(a1.0, a2.0)) by {
            assert(forall|i: int|
                0 <= i < s1.0.len() ==> a1.0[i] == #[trigger] s1.0[i] && a2.0[i] == s2.0[i]);
            assert(similar_table(a1.0.last(), a2.0.last()));
        }
    }
}

/// Idempotence of one single-schema sync: two syncs of an unchanged
/// database — the same catalog rows, up to the volatile table statistics —
/// compose structurally equal trees modulo those volatile fields.
pub proof fn lemma_sync_database_idempotent(
    name: Seq<char>,
    character_set: Seq<char>,
    collation: Seq<char>,
    irows: Seq<IndexRowV>,
    crows: Seq<ColumnRowV>,
    frows: Seq<FkRowV>,
    vrows: Seq<ViewRowV>,
    trows1: Seq<TableRowV>,
    trows2: Seq<TableRowV>,
    rrows: Seq<RoutineRowV>,
)
    requires
        trows1.len() == trows2.len(),
        forall|i: int| 0 <= i < trows1.len() ==> similar_table_row(trows1[i], #[trigger] trows2[i]),
        group_columns(crows) is Ok,
        tables_and_views(vrows, trows1) is Ok,
    ensures
        tables_and_views(vrows, trows2) is Ok,
        similar_database(
            mysql_database_spec(
                name,
                character_set,
                collation,
                group_indexes(irows),
                group_columns(crows)->Ok_0,
                group_fks(frows),
                tables_and_views(vrows, trows1)->Ok_0.0,
                tables_and_views(vrows, trows1)->Ok_0.1,
                crate::assemble::split_routines(rrows).0,
                crate::assemble::split_routines(rrows).1,
            ),
            mysql_database_spec(
                name,
                character_set,
                collation,
                group_indexes(irows),
                group_columns(crows)->Ok_0,
                group_fks(frows),
                tables_and_views(vrows, trows2)->Ok_0.0,
                tables_and_views(vrows, trows2)->Ok_0.1,
                crate::assemble::split_routines(rrows).0,
                crate::assemble::split_routines(rrows).1,
            ),
        ),
{
    let vs0 = views_from_rows(vrows);
    lemma_scan_tables_similar(trows1, trows2, vs0);
    lemma_attach_fold_similar(
        tables_and_views(vrows, trows1)->Ok_0.0,
        tables_and_views(vrows, trows2)->Ok_0.0,
        group_indexes(irows),
        group_columns(crows)->Ok_0,
        group_fks(frows),
    );
    let d1 = mysql_database_spec(
        name,
        character_set,
        collation,
        group_indexes(irows),
        group_columns(crows)->Ok_0,
        group_fks(frows),
        tables_and_views(vrows, trows1)->Ok_0.0,
        tables_and_views(vrows, trows1)->Ok_0.1,
        crate::assemble::split_routines(rrows).0,
        crate::assemble::split_routines(rrows).1,
    );
    let d2 = mysql_database_spec(
        name,
        character_set,
        collation,
        group_indexes(irows),
        group_columns(crows)->Ok_0,
        group_fks(frows),
        tables_and_views(vrows, trows2)->Ok_0.0,
        tables_and_views(vrows, trows2)->Ok_0.1,
        crate::assemble::split_routines(rrows).0,
        crate::assemble::split_routines(rrows).1,
    );
    assert(similar_schema(d1.schemas[0], d2.schemas[0]));
}


/// Every payload element of every group satisfies `p`.
pub open spec fn groups_all<T>(gs: Seq<(Seq<char>, Seq<T>)>, p: spec_fn(T) -> bool) -> bool {
    forall|t: int, k: int| 0 <= t < gs.len() && 0 <= k < gs[t].1.len() ==> p(#[trigger] gs[t].1[k])
}

/// Detaching one group keeps every remaining payload element's property,
/// and the detached payload's elements all have it.
proof fn lemma_remove_key_all<T>(gs: Seq<(Seq<char>, Seq<T>)>, key: Seq<char>, p: spec_fn(T) -> bool)
    requires
        groups_all(gs, p),
    ensures
        groups_all(remove_key(gs, key).1, p),
        remove_key(gs, key).0 matches Some(items) ==> forall|k: int|
            0 <= k < items.len() ==> p(#[trigger] items[k]),
{
    lemma_find_key(gs, key);
    let f = find_key(gs, key);
    if f >= 0 {
        let rest = gs.remove(f);
        assert forall|t: int, k: int|
            0 <= t < rest.len() && 0 <= k < rest[t].1.len() implies p(#[trigger] rest[t].1[k]) by {
            if t < f {
                assert(rest[t] == gs[t]);
            } else {
                assert(rest[t] == gs[t + 1]);
            }
        }
    }
}

/// Attaching well-formed index and foreign-key groups to well-formed tables
/// keeps every table well formed, and the remaining groups well formed.
proof fn lemma_attach_fold_wf(
    tables: Seq<TableV>,
    idx: Seq<(Seq<char>, Seq<IndexV>)>,
    cols: Seq<(Seq<char>, Seq<ColumnV>)>,
    fks: Seq<(Seq<char>, Seq<FkV>)>,
)
    requires
        forall|i: int| 0 <= i < tables.len() ==> table_wf(#[trigger] tables[i]),
        forall|i: int|
            0 <= i < tables.len() ==> sorted_by_name((#[trigger] tables[i]).indexes),
        groups_all(idx, |v: IndexV| index_wf(v)),
        groups_all(fks, |f: FkV| fk_wf(f)),
    ensures
        forall|i: int|
            0 <= i < attach_fold(tables, idx, cols, fks).0.len() ==> table_wf(
                #[trigger] attach_fold(tables, idx, cols, fks).0[i],
            ),
        forall|i: int|
            0 <= i < attach_fold(tables, idx, cols, fks).0.len() ==> sorted_by_name(
                (#[trigger] attach_fold(tables, idx, cols, fks).0[i]).indexes,
            ),
        groups_all(attach_fold(tables, idx, cols, fks).1, |v: IndexV| index_wf(v)),
        groups_all(attach_fold(tables, idx, cols, fks).3, |f: FkV| fk_wf(f)),
    decreases tables.len(),
{
    if tables.len() > 0 {
        assert(forall|i: int|
            0 <= i < tables.len() - 1 ==> table_wf(#[trigger] tables.drop_last()[i]));
        assert(forall|i: int|
            0 <= i < tables.len() - 1 ==> sorted_by_name(
                (#[trigger] tables.drop_last()[i]).indexes,
            ));
        lemma_attach_fold_wf(tables.drop_last(), idx, cols, fks);
        let st = attach_fold(tables.drop_last(), idx, cols, fks);
        let t = tables.last();
        let ri = remove_key(st.1, t.name);
        let rc = remove_key(st.2, t.name);
        let rf = remove_key(st.3, t.name);
        lemma_remove_key_all(st.1, t.name, |v: IndexV| index_wf(v));
        lemma_remove_key_all(st.3, t.name, |f: FkV| fk_wf(f));
        let sorted_indexes = match ri.0 {
            Option::Some(items) => {
                assert(forall|k: int| 0 <= k < items.len() ==> index_wf(#[trigger] items[k]));
                lemma_sort_pred(|v: IndexV| index_wf(v), items);
                lemma_sort_by_name_sorted(items);
                sort_by_name(items)
            },
            Option::None => t.indexes,
        };
        let t2 = attach_fold(tables, idx, cols, fks).0.last();
        assert(table_wf(t2)) by {
            assert(t2.indexes == sorted_indexes);
            assert(table_wf(tables.last()));
        }
        assert(sorted_by_name(t2.indexes)) by {
            assert(t2.indexes == sorted_indexes);
            assert(sorted_by_name(tables.last().indexes));
        }
        assert forall|i: int|
            0 <= i < attach_fold(tables, idx, cols, fks).0.len() implies table_wf(
            #[trigger] attach_fold(tables, idx, cols, fks).0[i],
        ) && sorted_by_name(attach_fold(tables, idx, cols, fks).0[i].indexes) by {
            if i < st.0.len() {
                assert(attach_fold(tables, idx, cols, fks).0[i] == st.0[i]);
            }
        }
    }
}

/// The single-schema database tree composed from raw catalog rows, with the
/// per-table column groups already folded.
pub open spec fn composed_database(
    name: Seq<char>,
    character_set: Seq<char>,
    collation: Seq<char>,
    irows: Seq<IndexRowV>,
    cols: Seq<(Seq<char>, Seq<ColumnV>)>,
    frows: Seq<FkRowV>,
    vrows: Seq<ViewRowV>,
    trows: Seq<TableRowV>,
    functions: Seq<FunctionV>,
    procedures: Seq<ProcedureV>,
) -> DatabaseV {
    mysql_database_spec(
        name,
        character_set,
        collation,
        group_indexes(irows),
        cols,
        group_fks(frows),
        tables_and_views(vrows, trows)->Ok_0.0,
        tables_and_views(vrows, trows)->Ok_0.1,
        functions,
        procedures,
    )
}

/// Well-formedness of one composed single-schema tree: every index of every
/// table keeps its two key-part arrays parallel and every foreign key keeps
/// its two column arrays parallel, non-empty and index-aligned, all the way
/// into the final database; and every table's indexes come out sorted by
/// name.
pub proof fn lemma_composed_database_wf(
    name: Seq<char>,
    character_set: Seq<char>,
    collation: Seq<char>,
    irows: Seq<IndexRowV>,
    cols: Seq<(Seq<char>, Seq<ColumnV>)>,
    frows: Seq<FkRowV>,
    vrows: Seq<ViewRowV>,
    trows: Seq<TableRowV>,
    functions: Seq<FunctionV>,
    procedures: Seq<ProcedureV>,
)
    requires
        tables_and_views(vrows, trows) is Ok,
    ensures
        database_wf(
            composed_database(
                name,
                character_set,
                collation,
                irows,
                cols,
                frows,
                vrows,
                trows,
                functions,
                procedures,
            ),
        ),
        forall|t: int|
            0 <= t < composed_database(
                name,
                character_set,
                collation,
                irows,
                cols,
                frows,
                vrows,
                trows,
                functions,
                procedures,
            ).schemas[0].tables.len() ==> sorted_by_name(
                (#[trigger] composed_database(
                    name,
                    character_set,
                    collation,
                    irows,
                    cols,
                    frows,
                    vrows,
                    trows,
                    functions,
                    procedures,
                ).schemas[0].tables[t]).indexes,
            ),
{
    lemma_group_indexes_parallel(irows);
    lemma_group_fks_parallel(frows);
    let tables = tables_and_views(vrows, trows)->Ok_0.0;
    lemma_scanned_tables_wf(trows, views_from_rows(vrows));
    lemma_attach_fold_wf(tables, group_indexes(irows), cols, group_fks(frows));
    let d = mysql_database_spec(
        name,
        character_set,
        collation,
        group_indexes(irows),
        cols,
        group_fks(frows),
        tables,
        tables_and_views(vrows, trows)->Ok_0.1,
        functions,
        procedures,
    );
    assert(schema_wf(d.schemas[0]));
}

/// Every table the tag scan collects starts well formed: its collections
/// are still empty.
proof fn lemma_scanned_tables_wf(trows: Seq<TableRowV>, vs0: Seq<ViewV>)
    requires
        scan_tables(trows, vs0) is Ok,
    ensures
        forall|i: int|
            0 <= i < scan_tables(trows, vs0)->Ok_0.0.len() ==> table_wf(
                #[trigger] scan_tables(trows, vs0)->Ok_0.0[i],
            ),
        forall|i: int|
            0 <= i < scan_tables(trows, vs0)->Ok_0.0.len() ==> sorted_by_name(
                (#[trigger] scan_tables(trows, vs0)->Ok_0.0[i]).indexes,
            ),
    decreases trows.len(),
{
    if trows.len() > 0 {
        lemma_scanned_tables_wf(trows.drop_last(), vs0);
        let p = scan_tables(trows.drop_last(), vs0)->Ok_0;
        let res = scan_tables(trows, vs0)->Ok_0;
        assert forall|i: int| 0 <= i < res.0.len() implies table_wf(#[trigger] res.0[i])
            && sorted_by_name(res.0[i].indexes) by {
            if i < p.0.len() {
                assert(res.0[i] == p.0[i]);
            } else {
                assert(res.0[i] == table_from_row(trows.last()));
            }
        }
    }
}


/// Two multi-schema table catalog rows agree on everything but the volatile
/// statistics: the data-size, index-size and row-count estimates.
pub open spec fn similar_pg_table_row(a: PgTableRowV, b: PgTableRowV) -> bool {
    a == (PgTableRowV {
        data_size: a.data_size,
        index_size: a.index_size,
        row_count: a.row_count,
        ..b
    })
}

/// Two keyed table-group lists agree on their keys, with pointwise-similar
/// payload tables.
pub open spec fn similar_table_groups(
    a: Seq<(Seq<char>, Seq<TableV>)>,
    b: Seq<(Seq<char>, Seq<TableV>)>,
) -> bool {
    a.len() == b.len() && forall|t: int|
        0 <= t < a.len() ==> (#[trigger] a[t]).0 == b[t].0 && similar_tables(a[t].1, b[t].1)
}

/// Key lookup sees only the keys: two group lists with equal keys agree on
/// every lookup.
proof fn lemma_find_key_same_keys(
    a: Seq<(Seq<char>, Seq<TableV>)>,
    b: Seq<(Seq<char>, Seq<TableV>)>,
    key: Seq<char>,
)
    requires
        a.len() == b.len(),
        forall|t: int| 0 <= t < a.len() ==> (#[trigger] a[t]).0 == b[t].0,
    ensures
        find_key(a, key) == find_key(b, key),
    decreases a.len(),
{
    if a.len() > 0 {
        assert(forall|t: int|
            0 <= t < a.len() - 1 ==> (#[trigger] a.drop_first()[t]).0 == b.drop_first()[t].0) by {
            assert(forall|t: int|
                0 <= t < a.len() - 1 ==> a.drop_first()[t] == a[t + 1] && #[trigger] b.drop_first()[t]
                    == b[t + 1]);
        }
        lemma_find_key_same_keys(a.drop_first(), b.drop_first(), key);
    }
}

/// Folding pointwise-similar table rows against the same column and index
/// groups yields similar table groups and consumes the maps identically.
proof fn lemma_pg_table_fold_similar(
    t1: Seq<PgTableRowV>,
    t2: Seq<PgTableRowV>,
    cols: Seq<((Seq<char>, Seq<char>), Seq<ColumnV>)>,
    idxs: Seq<((Seq<char>, Seq<char>), Seq<IndexV>)>,
)
    requires
        t1.len() == t2.len(),
        forall|i: int| 0 <= i < t1.len() ==> similar_pg_table_row(t1[i], #[trigger] t2[i]),
    ensures
        similar_table_groups(pg_table_fold(t1, cols, idxs).0, pg_table_fold(t2, cols, idxs).0),
        pg_table_fold(t1, cols, idxs).1 == pg_table_fold(t2, cols, idxs).1,
        pg_table_fold(t1, cols, idxs).2 == pg_table_fold(t2, cols, idxs).2,
    decreases t1.len(),
{
    if t1.len() > 0 {
        assert(similar_pg_table_row(t1.last(), t2.last()));
        assert(forall|i: int|
            0 <= i < t1.len() - 1 ==> similar_pg_table_row(
                t1.drop_last()[i],
                #[trigger] t2.drop_last()[i],
            ));
        lemma_pg_table_fold_similar(t1.drop_last(), t2.drop_last(), cols, idxs);
        let s1 = pg_table_fold(t1.drop_last(), cols, idxs);
        let s2 = pg_table_fold(t2.drop_last(), cols, idxs);
        let r1 = t1.last();
        let r2 = t2.last();
        assert(r1.schema == r2.schema);
        assert(r1.table == r2.table);
        let rc = crate::pg::remove_key2(s1.1, (r1.schema, r1.table));
        let ri = crate::pg::remove_key2(s1.2, (r1.schema, r1.table));
        assert(crate::pg::remove_key2(s2.1, (r2.schema, r2.table)) == rc);
        assert(crate::pg::remove_key2(s2.2, (r2.schema, r2.table)) == ri);
        let n1 = pg_table_from_row(r1, rc.0, ri.0);
        let n2 = pg_table_from_row(r2, rc.0, ri.0);
        assert(similar_table(n1, n2));
        assert(forall|t: int| 0 <= t < s1.0.len() ==> (#[trigger] s1.0[t]).0 == s2.0[t].0);
        lemma_find_key_same_keys(s1.0, s2.0, r1.schema);
        lemma_find_key(s1.0, r1.schema);
        let k = find_key(s1.0, r1.schema);
        let a1 = pg_table_fold(t1, cols, idxs).0;
        let a2 = pg_table_fold(t2, cols, idxs).0;
        assert(a1 == crate::group::upsert_push(s1.0, r1.schema, n1));
        assert(a2 == crate::group::upsert_push(s2.0, r2.schema, n2));
        assert(find_key(s2.0, r2.schema) == k);
        if k < 0 {
            assert(a1 == s1.0.push((r1.schema, seq![n1])));
            assert(a2 == s2.0.push((r2.schema, seq![n2])));
        } else {
            assert(a1 == s1.0.update(k, (r1.schema, s1.0[k].1.push(n1))));
            assert(a2 == s2.0.update(k, (r2.schema, s2.0[k].1.push(n2))));
        }
        assert(similar_table_groups(a1, a2)) by {
            if k < 0 {
                assert(forall|t: int|
                    0 <= t < s1.0.len() ==> a1[t] == #[trigger] s1.0[t] && a2[t] == s2.0[t]);
                assert(a1.last().1 == seq![n1]);
                assert(a2.last().1 == seq![n2]);
                assert(similar_tables(seq![n1], seq![n2]));
            } else {
                assert forall|t: int|
                    0 <= t < a1.len() implies (#[trigger] a1[t]).0 == a2[t].0 && similar_tables(
                    a1[t].1,
                    a2[t].1,
                ) by {
                    if t != k {
                        assert(a1[t] == s1.0[t]);
                        assert(a2[t] == s2.0[t]);
                    } else {
                        assert(a1[t].1 == s1.0[k].1.push(n1));
                        assert(a2[t].1 == s2.0[k].1.push(n2));
                        assert(similar_tables(s1.0[k].1, s2.0[k].1));
                        assert forall|j: int|
                            0 <= j < a1[t].1.len() implies similar_table(
                            a1[t].1[j],
                            #[trigger] a2[t].1[j],
                        ) by {
                            if j < s1.0[k].1.len() {
                                assert(a1[t].1[j] == s1.0[k].1[j]);
                                assert(a2[t].1[j] == s2.0[k].1[j]);
                            }
                        }
                    }
                }
            }
        }
    }
}

/// Building schema subtrees from similar table groups yields pointwise
/// similar schemas.
proof fn lemma_pg_schema_fold_similar(
    sis: Seq<SchemaInfoV>,
    ts1: Seq<(Seq<char>, Seq<TableV>)>,
    ts2: Seq<(Seq<char>, Seq<TableV>)>,
    vs: Seq<(Seq<char>, Seq<crate::store::ViewV>)>,
    ms: Seq<(Seq<char>, Seq<crate::store::MatViewV>)>,
)
    requires
        similar_table_groups(ts1, ts2),
    ensures
        pg_schema_fold(sis, ts1, vs, ms).0.len() == pg_schema_fold(sis, ts2, vs, ms).0.len(),
        forall|i: int|
            0 <= i < pg_schema_fold(sis, ts1, vs, ms).0.len() ==> similar_schema(
                #[trigger] pg_schema_fold(sis, ts1, vs, ms).0[i],
                pg_schema_fold(sis, ts2, vs, ms).0[i],
            ),
        similar_table_groups(pg_schema_fold(sis, ts1, vs, ms).1, pg_schema_fold(sis, ts2, vs, ms).1),
        pg_schema_fold(sis, ts1, vs, ms).2 == pg_schema_fold(sis, ts2, vs, ms).2,
        pg_schema_fold(sis, ts1, vs, ms).3 == pg_schema_fold(sis, ts2, vs, ms).3,
    decreases sis.len(),
{
    if sis.len() > 0 {
        lemma_pg_schema_fold_similar(sis.drop_last(), ts1, ts2, vs, ms);
        let s1 = pg_schema_fold(sis.drop_last(), ts1, vs, ms);
        let s2 = pg_schema_fold(sis.drop_last(), ts2, vs, ms);
        let si = sis.last();
        assert(forall|t: int| 0 <= t < s1.1.len() ==> (#[trigger] s1.1[t]).0 == s2.1[t].0);
        lemma_find_key_same_keys(s1.1, s2.1, si.name);
        lemma_find_key(s1.1, si.name);
        let k = find_key(s1.1, si.name);
        let r1 = pg_schema_fold(sis, ts1, vs, ms);
        let r2 = pg_schema_fold(sis, ts2, vs, ms);
        assert(similar_schema(r1.0.last(), r2.0.last())) by {
            if k >= 0 {
                assert(similar_tables(s1.1[k].1, s2.1[k].1));
            } else {
                assert(similar_tables(Seq::<TableV>::empty(), Seq::<TableV>::empty()));
            }
        }
        assert forall|i: int|
            0 <= i < r1.0.len() implies similar_schema(#[trigger] r1.0[i], r2.0[i]) by {
            if i < s1.0.len() {
                assert(r1.0[i] == s1.0[i]);
                assert(r2.0[i] == s2.0[i]);
            }
        }
        assert(similar_table_groups(r1.1, r2.1)) by {
            if k >= 0 {
                assert forall|t: int|
                    0 <= t < r1.1.len() implies (#[trigger] r1.1[t]).0 == r2.1[t].0
                        && similar_tables(r1.1[t].1, r2.1[t].1) by {
                    if t < k {
                        assert(r1.1[t] == s1.1[t]);
                        assert(r2.1[t] == s2.1[t]);
                    } else {
                        assert(r1.1[t] == s1.1[t + 1]);
                        assert(r2.1[t] == s2.1[t + 1]);
                    }
                }
            }
        }
    }
}

/// Idempotence of one multi-schema sync: two syncs of an unchanged database
/// — the same catalog rows, up to the volatile table statistics — compose
/// structurally equal trees modulo those volatile fields.
pub proof fn lemma_pg_sync_database_idempotent(
    db: DatabaseV,
    sis: Seq<SchemaInfoV>,
    trows1: Seq<PgTableRowV>,
    trows2: Seq<PgTableRowV>,
    cols: Seq<((Seq<char>, Seq<char>), Seq<ColumnV>)>,
    idxs: Seq<((Seq<char>, Seq<char>), Seq<IndexV>)>,
    vs: Seq<(Seq<char>, Seq<crate::store::ViewV>)>,
    ms: Seq<(Seq<char>, Seq<crate::store::MatViewV>)>,
)
    requires
        trows1.len() == trows2.len(),
        forall|i: int| 0 <= i < trows1.len() ==> similar_pg_table_row(trows1[i], #[trigger] trows2[i]),
    ensures
        similar_database(
            pg_database_spec(db, sis, pg_table_fold(trows1, cols, idxs).0, vs, ms),
            pg_database_spec(db, sis, pg_table_fold(trows2, cols, idxs).0, vs, ms),
        ),
{
    lemma_pg_table_fold_similar(trows1, trows2, cols, idxs);
    lemma_pg_schema_fold_similar(
        sis,
        pg_table_fold(trows1, cols, idxs).0,
        pg_table_fold(trows2, cols, idxs).0,
        vs,
        ms,
    );
    let f1 = pg_schema_fold(sis, pg_table_fold(trows1, cols, idxs).0, vs, ms).0;
    let f2 = pg_schema_fold(sis, pg_table_fold(trows2, cols, idxs).0, vs, ms).0;
    let d1 = pg_database_spec(db, sis, pg_table_fold(trows1, cols, idxs).0, vs, ms);
    let d2 = pg_database_spec(db, sis, pg_table_fold(trows2, cols, idxs).0, vs, ms);
    assert forall|i: int|
        0 <= i < d1.schemas.len() implies similar_schema(d1.schemas[i], #[trigger] d2.schemas[i]) by {
        if i < db.schemas.len() {
            assert(d1.schemas[i] == db.schemas[i]);
            assert(d2.schemas[i] == db.schemas[i]);
            assert(similar_tables(db.schemas[i].tables, db.schemas[i].tables));
        } else {
            assert(d1.schemas[i] == f1[i - db.schemas.len()]);
            assert(d2.schemas[i] == f2[i - db.schemas.len()]);
        }
    }
}

} // verus!
