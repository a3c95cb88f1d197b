//! The row grouping / assembler: folds ordered raw catalog rows into
//! composite entities — per-table column lists, indexes reassembled from one
//! row per key part, and foreign keys reassembled from one row per
//! referencing column — preserving column and part order.

use vstd::prelude::*;

use crate::defaults::{has_on_update, normalized_default, on_update_expr, set_column_metadata_default};
use crate::error::{DBError, ErrorV};
use crate::group::{find_key, upsert_push, Grouped, push_item};
use crate::rows::{
    ColumnRow, ColumnRowV, FkRow, FkRowV, IndexRow, IndexRowV, RoutineRow, RoutineRowV, TableRow,
    TableRowV, ViewRow, ViewRowV,
};
use crate::store::{
    fk_wf, index_wf, ColumnMetadata, ColumnV, FkV, ForeignKeyMetadata, FunctionMetadata,
    FunctionV, IdentityGeneration, IndexMetadata, IndexV, ProcedureMetadata, ProcedureV,
    TableMetadata, TableV, ViewMetadata, ViewV,
};
use crate::text::{eq_ic, str_eq, str_eq_ignore_case};
use crate::util::{convert_yes_no, yes_no_spec};

verus! {

/// The column a catalog row denotes, given its decoded nullability.
pub open spec fn column_from_row(r: ColumnRowV, nullable: bool) -> ColumnV {
    ColumnV {
        name: r.column_name,
        position: r.position,
        default: normalized_default(r.default_value, nullable, r.extra),
        on_update: if has_on_update(r.extra) {
            Some(on_update_expr(r.extra))
        } else {
            None
        },
        nullable: nullable,
        column_type: r.column_type,
        character_set: r.character_set,
        collation: r.collation,
        comment: r.comment,
        identity_generation: IdentityGeneration::Unspecified,
    }
}

/// The error raised for a nullability flag outside the understood set.
pub open spec fn yes_no_error(s: Seq<char>) -> ErrorV {
    ErrorV::Unknow("unrecognized isNullable type "@ + s)
}

/// Fold column rows, in order, into per-table column lists keyed by table
/// name in first-appearance order. The first row whose nullability flag is
/// not understood fails the whole fold.
pub open spec fn group_columns(rows: Seq<ColumnRowV>) -> Result<
    Seq<(Seq<char>, Seq<ColumnV>)>,
    ErrorV,
>
    decreases rows.len(),
{
    if rows.len() == 0 {
        Ok(Seq::empty())
    } else {
        match group_columns(rows.drop_last()) {
            Err(e) => Err(e),
            Ok(gs) => {
                let r = rows.last();
                match yes_no_spec(r.is_nullable) {
                    Option::None => Err(yes_no_error(r.is_nullable)),
                    Option::Some(b) => Ok(upsert_push(gs, r.table_name, column_from_row(r, b))),
                }
            },
        }
    }
}

/// A failing prefix decides the whole fold.
proof fn lemma_group_columns_err(rows: Seq<ColumnRowV>, k: int)
    requires
        0 <= k <= rows.len(),
        group_columns(rows.take(k)) is Err,
    ensures
        group_columns(rows) == group_columns(rows.take(k)),
    decreases rows.len() - k,
{
    if k < rows.len() {
        assert(rows.take(k + 1).drop_last() =~= rows.take(k));
        lemma_group_columns_err(rows, k + 1);
    } else {
        assert(rows.take(k) =~= rows);
    }
}

/// Group column catalog rows by table name, in row order, decoding
/// nullability and normalizing each column's default on the way.
pub fn group_column_rows(rows: &Vec<ColumnRow>) -> (r: Result<
    Vec<Grouped<ColumnMetadata>>,
    DBError,
>)
    ensures
        r matches Ok(gs) ==> group_columns(rows.deep_view()) == Ok::<_, ErrorV>(gs.deep_view()),
        r matches Err(e) ==> group_columns(rows.deep_view()) == Err::<
            Seq<(Seq<char>, Seq<ColumnV>)>,
            _,
        >(e@),
{
    let ghost rv = rows.deep_view();
    let mut out: Vec<Grouped<ColumnMetadata>> = Vec::new();
    let mut i: usize = 0;
    proof {
        assert(rv.take(0) =~= Seq::<ColumnRowV>::empty());
        assert(out.deep_view() =~= Seq::<(Seq<char>, Seq<ColumnV>)>::empty());
    }
    while i < rows.len()
        invariant
            i <= rows.len(),
            rv == rows.deep_view(),
            rv.len() == rows.len(),
            group_columns(rv.take(i as int)) == Ok::<_, ErrorV>(out.deep_view()),
        decreases rows.len() - i,
    {
        let row = &rows[i];
        proof {
            assert(rv.take(i + 1).drop_last() =~= rv.take(i as int));
            assert(rv.take(i + 1).last() == rv[i as int]);
        }
        let nullable = match convert_yes_no(row.is_nullable.as_str()) {
            Ok(b) => b,
            Err(e) => {
                proof {
                    lemma_group_columns_err(rv, i + 1);
                }
                return Err(e);
            },
        };
        let default_value: Option<String> = match &row.default_value {
            Some(s) => Some(s.clone()),
            None => None,
        };
        let mut col = ColumnMetadata {
            name: row.column_name.clone(),
            position: row.position,
            default: None,
            on_update: None,
            nullable,
            column_type: row.column_type.clone(),
            character_set: row.character_set.clone(),
            collation: row.collation.clone(),
            comment: row.comment.clone(),
            identity_generation: IdentityGeneration::Unspecified,
        };
        proof {
            assert(default_value.deep_view() == rv[i as int].default_value);
        }
        set_column_metadata_default(&mut col, default_value, nullable, row.extra.as_str());
        proof {
            assert(col@ == column_from_row(rv[i as int], nullable));
        }
        push_item(&mut out, row.table_name.as_str(), col);
        i += 1;
    }
    proof {
        assert(rv.take(rows.len() as int) =~= rv);
    }
    Ok(out)
}

/// The index an index-part row starts, before any key part is appended: its
/// name, type, uniqueness, primariness (the fixed primary-key name) and
/// visibility come from the row; the part lists start empty.
pub open spec fn index_base(r: IndexRowV) -> IndexV {
    IndexV {
        name: r.index_name,
        expressions: Seq::empty(),
        key_length: Seq::empty(),
        index_type: r.index_type,
        unique: r.is_unique == 1,
        primary: r.index_name == "PRIMARY"@,
        visible: r.is_visible == 1,
        comment: r.comment,
        definition: Seq::empty(),
    }
}

/// The key-part expression an index-part row carries: a plain column
/// reference when one is present (preferred over a redundant parenthesized
/// expression), else the expression wrapped in parentheses, else empty.
pub open spec fn row_expression(r: IndexRowV) -> Seq<char> {
    match r.column_name {
        Option::Some(c) => c,
        Option::None => match r.expression {
            Option::Some(e) => seq!['('] + e + seq![')'],
            Option::None => Seq::empty(),
        },
    }
}

/// Append one key part to an index, keeping the two part arrays parallel.
pub open spec fn index_add_part(v: IndexV, r: IndexRowV) -> IndexV {
    IndexV {
        expressions: v.expressions.push(row_expression(r)),
        key_length: v.key_length.push(r.sub_part),
        ..v
    }
}

/// The first position of the index named `name`, or -1 when none has it.
pub open spec fn find_index(items: Seq<IndexV>, name: Seq<char>) -> int
    decreases items.len(),
{
    if items.len() == 0 {
        -1
    } else if items[0].name == name {
        0
    } else {
        let r = find_index(items.drop_first(), name);
        if r < 0 {
            -1
        } else {
            r + 1
        }
    }
}

/// The characterization of [`find_index`]: it yields the least position
/// whose index is named `name`, or -1 when no position is.
pub proof fn lemma_find_index(items: Seq<IndexV>, name: Seq<char>)
    ensures
        find_index(items, name) == -1 || 0 <= find_index(items, name) < items.len(),
        find_index(items, name) == -1 ==> forall|i: int|
            0 <= i < items.len() ==> (#[trigger] items[i]).name != name,
        find_index(items, name) >= 0 ==> items[find_index(items, name)].name == name
            && forall|i: int|
            0 <= i < find_index(items, name) ==> (#[trigger] items[i]).name != name,
    decreases items.len(),
{
    if items.len() > 0 && items[0].name != name {
        lemma_find_index(items.drop_first(), name);
        let r = find_index(items.drop_first(), name);
        if r >= 0 {
            assert(items[r + 1] == items.drop_first()[r]);
            assert forall|i: int| 0 <= i < r + 1 implies (#[trigger] items[i]).name != name by {
                if i >= 1 {
                    assert(items[i] == items.drop_first()[i - 1]);
                }
            }
        } else {
            assert forall|i: int| 0 <= i < items.len() implies (#[trigger] items[i]).name
                != name by {
                if i >= 1 {
                    assert(items[i] == items.drop_first()[i - 1]);
                }
            }
        }
    }
}

/// Route one index-part row: ensure its table group and its index entry
/// exist (creating them in arrival order), then append the row's key part
/// to that index.
pub open spec fn insert_index_row(
    gs: Seq<(Seq<char>, Seq<IndexV>)>,
    r: IndexRowV,
) -> Seq<(Seq<char>, Seq<IndexV>)> {
    let t = find_key(gs, r.table_name);
    if t < 0 {
        gs.push((r.table_name, seq![index_add_part(index_base(r), r)]))
    } else {
        let items = gs[t].1;
        let k = find_index(items, r.index_name);
        if k < 0 {
            gs.update(t, (r.table_name, items.push(index_add_part(index_base(r), r))))
        } else {
            gs.update(t, (r.table_name, items.update(k, index_add_part(items[k], r))))
        }
    }
}

/// Fold index-part rows, in order, into per-table index groups keyed by
/// table then index name, both in first-appearance order; key parts land in
/// arrival order, which under the catalog query's ordering guarantee is
/// key-part position order.
pub open spec fn group_indexes(rows: Seq<IndexRowV>) -> Seq<(Seq<char>, Seq<IndexV>)>
    decreases rows.len(),
{
    if rows.len() == 0 {
        Seq::empty()
    } else {
        insert_index_row(group_indexes(rows.drop_last()), rows.last())
    }
}

/// The first position of the index named `name` among the items.
fn find_index_by_name(items: &Vec<IndexMetadata>, name: &str) -> (r: Option<usize>)
    ensures
        r matches Some(i) ==> i < items.len() && find_index(items.deep_view(), name@) == i as int,
        r is None ==> find_index(items.deep_view(), name@) == -1,
{
    let ghost dv = items.deep_view();
    let mut i: usize = 0;
    while i < items.len()
        invariant
            i <= items.len(),
            dv == items.deep_view(),
            dv.len() == items.len(),
            forall|j: int| 0 <= j < i ==> (#[trigger] dv[j]).name != name@,
        decreases items.len() - i,
    {
        if str_eq(items[i].name.as_str(), name) {
            proof {
                assert(dv[i as int].name == name@);
                lemma_find_index(dv, name@);
                let f = find_index(dv, name@);
                if f == -1 {
                    assert(dv[i as int].name != name@);
                } else if f < i as int {
                    assert(dv[f].name != name@);
                } else if f > i as int {
                    assert(dv[i as int].name != name@);
                }
                assert(f == i as int);
            }
            return Some(i);
        }
        i += 1;
    }
    proof {
        lemma_find_index(dv, name@);
        let f = find_index(dv, name@);
        if f >= 0 {
            assert(dv[f].name != name@);
        }
    }
    None
}

/// The index one part row starts, with that first key part appended.
fn index_from_row(row: &IndexRow, expression: String) -> (r: IndexMetadata)
    requires
        expression@ == row_expression(row@),
    ensures
        r@ == index_add_part(index_base(row@), row@),
{
    let mut expressions: Vec<String> = Vec::new();
    expressions.push(expression);
    let mut key_length: Vec<i64> = Vec::new();
    key_length.push(row.sub_part);
    let r = IndexMetadata {
        name: row.index_name.clone(),
        expressions,
        key_length,
        index_type: row.index_type.clone(),
        unique: row.is_unique == 1,
        primary: str_eq(row.index_name.as_str(), "PRIMARY"),
        visible: row.is_visible == 1,
        comment: row.comment.clone(),
        definition: String::new(),
    };
    proof {
        assert(r.expressions.deep_view() =~= seq![row_expression(row@)]);
        assert(r.key_length@ =~= seq![row@.sub_part]);
        assert(index_base(row@).expressions.push(row_expression(row@)) =~= seq![
            row_expression(row@),
        ]);
        assert(index_base(row@).key_length.push(row@.sub_part) =~= seq![row@.sub_part]);
    }
    r
}

/// Group index-part catalog rows into per-table index lists, each index
/// reassembled from its consecutive part rows in arrival order.
pub fn group_index_rows(rows: &Vec<IndexRow>) -> (r: Vec<Grouped<IndexMetadata>>)
    ensures
        r.deep_view() == group_indexes(rows.deep_view()),
{
    let ghost rv = rows.deep_view();
    let mut out: Vec<Grouped<IndexMetadata>> = Vec::new();
    let mut i: usize = 0;
    proof {
        assert(rv.take(0) =~= Seq::<IndexRowV>::empty());
        assert(out.deep_view() =~= Seq::<(Seq<char>, Seq<IndexV>)>::empty());
    }
    while i < rows.len()
        invariant
            i <= rows.len(),
            rv == rows.deep_view(),
            rv.len() == rows.len(),
            out.deep_view() == group_indexes(rv.take(i as int)),
        decreases rows.len() - i,
    {
        let ghost dv0 = out.deep_view();
        let row = &rows[i];
        proof {
            assert(rv.take(i + 1).drop_last() =~= rv.take(i as int));
            assert(rv.take(i + 1).last() == rv[i as int]);
        }
        let expression: String = match &row.column_name {
            Some(c) => c.clone(),
            None => match &row.expression {
                Some(e) => {
                    let mut m = String::from_str("(");
                    m.append(e.as_str());
                    m.append(")");
                    proof {
                        reveal_strlit("(");
                        reveal_strlit(")");
                        assert(m@ =~= seq!['('] + e@ + seq![')']);
                    }
                    m
                },
                None => String::new(),
            },
        };
        proof {
            assert(expression@ == row_expression(rv[i as int]));
        }
        match crate::group::find_group(&out, row.table_name.as_str()) {
            None => {
                let item = index_from_row(row, expression);
                let mut items: Vec<IndexMetadata> = Vec::new();
                items.push(item);
                out.push(Grouped { key: String::from_str(row.table_name.as_str()), items });
                proof {
                    assert(out.deep_view() =~~= dv0.push(
                        (
                            rv[i as int].table_name,
                            seq![index_add_part(index_base(rv[i as int]), rv[i as int])],
                        ),
                    ));
                }
            },
            Some(t) => {
                proof {
                    crate::group::lemma_find_key(dv0, row.table_name@);
                }
                let mut g = out.remove(t);
                match find_index_by_name(&g.items, row.index_name.as_str()) {
                    None => {
                        let item = index_from_row(row, expression);
                        g.items.push(item);
                        out.insert(t, g);
                        proof {
                            assert(out.deep_view() =~~= dv0.update(
                                t as int,
                                (
                                    rv[i as int].table_name,
                                    dv0[t as int].1.push(
                                        index_add_part(index_base(rv[i as int]), rv[i as int]),
                                    ),
                                ),
                            ));
                        }
                    },
                    Some(k) => {
                        proof {
                            lemma_find_index(dv0[t as int].1, row.index_name@);
                        }
                        let mut item = g.items.remove(k);
                        item.expressions.push(expression);
                        item.key_length.push(row.sub_part);
                        g.items.insert(k, item);
                        out.insert(t, g);
                        proof {
                            assert(item@ == index_add_part(dv0[t as int].1[k as int], rv[i as int]))
                                by {
                                assert(item.expressions.deep_view() =~= dv0[t as int].1[
                                    k as int].expressions.push(row_expression(rv[i as int])));
                                assert(item.key_length@ =~= dv0[t as int].1[k as int].key_length.push(
                                    rv[i as int].sub_part,
                                ));
                            }
                            assert(g.items.deep_view() =~= dv0[t as int].1.update(
                                k as int,
                                index_add_part(dv0[t as int].1[k as int], rv[i as int]),
                            ));
                            assert(out.deep_view() =~~= dv0.update(
                                t as int,
                                (
                                    rv[i as int].table_name,
                                    dv0[t as int].1.update(
                                        k as int,
                                        index_add_part(dv0[t as int].1[k as int], rv[i as int]),
                                    ),
                                ),
                            ));
                        }
                    },
                }
            },
        }
        i += 1;
    }
    proof {
        assert(rv.take(rows.len() as int) =~= rv);
    }
    out
}

/// Every index that [`group_indexes`] assembles keeps its two key-part
/// arrays parallel: one expression and one key length per part row.
pub proof fn lemma_group_indexes_parallel(rows: Seq<IndexRowV>)
    ensures
        forall|t: int, k: int|
            0 <= t < group_indexes(rows).len() && 0 <= k < group_indexes(rows)[t].1.len()
                ==> index_wf(#[trigger] group_indexes(rows)[t].1[k]),
    decreases rows.len(),
{
    if rows.len() > 0 {
        lemma_group_indexes_parallel(rows.drop_last());
        let gs = group_indexes(rows.drop_last());
        let r = rows.last();
        let res = group_indexes(rows);
        let t0 = find_key(gs, r.table_name);
        crate::group::lemma_find_key(gs, r.table_name);
        if t0 >= 0 {
            lemma_find_index(gs[t0].1, r.index_name);
        }
        assert forall|t: int, k: int|
            0 <= t < res.len() && 0 <= k < res[t].1.len() implies index_wf(
            #[trigger] res[t].1[k],
        ) by {
            if t0 < 0 {
                if t < gs.len() {
                    assert(res[t] == gs[t]);
                } else {
                    assert(res[t].1 == seq![index_add_part(index_base(r), r)]);
                }
            } else {
                if t != t0 {
                    assert(res[t] == gs[t]);
                } else {
                    let items = gs[t0].1;
                    let k0 = find_index(items, r.index_name);
                    if k0 < 0 {
                        if k < items.len() {
                            assert(res[t].1[k] == items[k]);
                        }
                    } else {
                        if k != k0 {
                            assert(res[t].1[k] == items[k]);
                        } else {
                            assert(index_wf(items[k0]));
                        }
                    }
                }
            }
        }
    }
}

/// The one-column constraint a foreign-key row starts.
pub open spec fn fk_from_row(r: FkRowV) -> FkV {
    FkV {
        name: r.constraint_name,
        columns: seq![r.column_name],
        referenced_schema: Seq::empty(),
        referenced_table: r.referenced_table,
        referenced_columns: seq![r.referenced_column],
        on_delete: r.on_delete,
        on_update: r.on_update,
        match_type: r.match_option,
    }
}

/// Append one referencing column and its referenced column to a constraint
/// under construction, keeping the two arrays index-aligned.
pub open spec fn fk_push_col(f: FkV, r: FkRowV) -> FkV {
    FkV {
        columns: f.columns.push(r.column_name),
        referenced_columns: f.referenced_columns.push(r.referenced_column),
        ..f
    }
}

/// The streaming foreign-key fold: one constraint stays under construction;
/// when an incoming row names a different (table, constraint), the completed
/// constraint is flushed into its table's group and a new one starts. The
/// state is (flushed groups, the table owning the current constraint, the
/// current constraint).
pub open spec fn fk_fold(rows: Seq<FkRowV>) -> (Seq<(Seq<char>, Seq<FkV>)>, Seq<char>, Option<FkV>)
    decreases rows.len(),
{
    if rows.len() == 0 {
        (Seq::empty(), Seq::empty(), None)
    } else {
        let st = fk_fold(rows.drop_last());
        let r = rows.last();
        match st.2 {
            Option::None => (st.0, r.table_name, Some(fk_from_row(r))),
            Option::Some(c) => {
                if r.table_name == st.1 && c.name == r.constraint_name {
                    (st.0, st.1, Some(fk_push_col(c, r)))
                } else {
                    (upsert_push(st.0, st.1, c), r.table_name, Some(fk_from_row(r)))
                }
            },
        }
    }
}

/// Fold foreign-key rows, in order, into per-table constraint groups: the
/// streaming fold of [`fk_fold`], with the last constraint under
/// construction flushed at the end.
pub open spec fn group_fks(rows: Seq<FkRowV>) -> Seq<(Seq<char>, Seq<FkV>)> {
    let st = fk_fold(rows);
    match st.2 {
        Option::None => st.0,
        Option::Some(c) => upsert_push(st.0, st.1, c),
    }
}

/// The constraint a foreign-key row starts, as metadata.
fn fk_metadata_from_row(row: &FkRow) -> (r: ForeignKeyMetadata)
    ensures
        r@ == fk_from_row(row@),
{
    let mut columns: Vec<String> = Vec::new();
    columns.push(row.column_name.clone());
    let mut referenced_columns: Vec<String> = Vec::new();
    referenced_columns.push(row.referenced_column.clone());
    let r = ForeignKeyMetadata {
        name: row.constraint_name.clone(),
        columns,
        referenced_schema: String::new(),
        referenced_table: row.referenced_table.clone(),
        referenced_columns,
        on_delete: row.on_delete.clone(),
        on_update: row.on_update.clone(),
        match_type: row.match_option.clone(),
    };
    proof {
        assert(r.columns.deep_view() =~= seq![row@.column_name]);
        assert(r.referenced_columns.deep_view() =~= seq![row@.referenced_column]);
    }
    r
}

/// Group foreign-key catalog rows into per-table constraint lists, each
/// constraint reassembled from its consecutive per-column rows. This fold
/// relies on the catalog query's (table, constraint, ordinal) ordering.
pub fn group_foreign_key_rows(rows: &Vec<FkRow>) -> (r: Vec<Grouped<ForeignKeyMetadata>>)
    ensures
        r.deep_view() == group_fks(rows.deep_view()),
{
    let ghost rv = rows.deep_view();
    let mut out: Vec<Grouped<ForeignKeyMetadata>> = Vec::new();
    let mut build_table = String::new();
    let mut build_fk: Option<ForeignKeyMetadata> = None;
    let mut i: usize = 0;
    proof {
        assert(rv.take(0) =~= Seq::<FkRowV>::empty());
        assert(out.deep_view() =~= Seq::<(Seq<char>, Seq<FkV>)>::empty());
    }
    while i < rows.len()
        invariant
            i <= rows.len(),
            rv == rows.deep_view(),
            rv.len() == rows.len(),
            out.deep_view() == fk_fold(rv.take(i as int)).0,
            build_table@ == fk_fold(rv.take(i as int)).1,
            build_fk.deep_view() == fk_fold(rv.take(i as int)).2,
        decreases rows.len() - i,
    {
        let row = &rows[i];
        proof {
            assert(rv.take(i + 1).drop_last() =~= rv.take(i as int));
            assert(rv.take(i + 1).last() == rv[i as int]);
        }
        build_fk = match build_fk {
            None => {
                build_table = row.table_name.clone();
                Some(fk_metadata_from_row(row))
            },
            Some(mut c) => {
                if str_eq(row.table_name.as_str(), build_table.as_str()) && str_eq(
                    c.name.as_str(),
                    row.constraint_name.as_str(),
                ) {
                    let ghost cv = c@;
                    c.columns.push(row.column_name.clone());
                    c.referenced_columns.push(row.referenced_column.clone());
                    proof {
                        assert(c.columns.deep_view() =~= cv.columns.push(rv[i as int].column_name));
                        assert(c.referenced_columns.deep_view() =~= cv.referenced_columns.push(
                            rv[i as int].referenced_column,
                        ));
                        assert(c@ == fk_push_col(cv, rv[i as int]));
                    }
                    Some(c)
                } else {
                    push_item(&mut out, build_table.as_str(), c);
                    build_table = row.table_name.clone();
                    Some(fk_metadata_from_row(row))
                }
            },
        };
        i += 1;
    }
    proof {
        assert(rv.take(rows.len() as int) =~= rv);
    }
    if let Some(c) = build_fk {
        push_item(&mut out, build_table.as_str(), c);
    }
    out
}

/// Inserting a well-formed constraint into groups of well-formed constraints
/// leaves every constraint well formed.
proof fn lemma_upsert_push_fk_wf(gs: Seq<(Seq<char>, Seq<FkV>)>, key: Seq<char>, c: FkV)
    requires
        forall|t: int, k: int|
            0 <= t < gs.len() && 0 <= k < gs[t].1.len() ==> fk_wf(#[trigger] gs[t].1[k]),
        fk_wf(c),
    ensures
        forall|t: int, k: int|
            0 <= t < upsert_push(gs, key, c).len() && 0 <= k < upsert_push(gs, key, c)[t].1.len()
                ==> fk_wf(#[trigger] upsert_push(gs, key, c)[t].1[k]),
{
    crate::group::lemma_find_key(gs, key);
    let res = upsert_push(gs, key, c);
    let k0 = find_key(gs, key);
    assert forall|t: int, k: int|
        0 <= t < res.len() && 0 <= k < res[t].1.len() implies fk_wf(#[trigger] res[t].1[k]) by {
        if k0 < 0 {
            if t < gs.len() {
                assert(res[t] == gs[t]);
            } else {
                assert(res[t].1 == seq![c]);
            }
        } else {
            if t != k0 {
                assert(res[t] == gs[t]);
            } else {
                if k < gs[k0].1.len() {
                    assert(res[t].1[k] == gs[k0].1[k]);
                } else {
                    assert(res[t].1[k] == c);
                }
            }
        }
    }
}

/// Every constraint the streaming fold has flushed or holds under
/// construction keeps its column arrays parallel and non-empty.
proof fn lemma_fk_fold_wf(rows: Seq<FkRowV>)
    ensures
        forall|t: int, k: int|
            0 <= t < fk_fold(rows).0.len() && 0 <= k < fk_fold(rows).0[t].1.len() ==> fk_wf(
                #[trigger] fk_fold(rows).0[t].1[k],
            ),
        fk_fold(rows).2 matches Some(c) ==> fk_wf(c),
    decreases rows.len(),
{
    if rows.len() > 0 {
        lemma_fk_fold_wf(rows.drop_last());
        let st = fk_fold(rows.drop_last());
        let r = rows.last();
        match st.2 {
            Option::Some(c) => {
                if !(r.table_name == st.1 && c.name == r.constraint_name) {
                    lemma_upsert_push_fk_wf(st.0, st.1, c);
                }
            },
            Option::None => {},
        }
    }
}

/// Every foreign key that [`group_fks`] assembles has its referencing and
/// referenced column arrays parallel, non-empty and index-aligned.
pub proof fn lemma_group_fks_parallel(rows: Seq<FkRowV>)
    ensures
        forall|t: int, k: int|
            0 <= t < group_fks(rows).len() && 0 <= k < group_fks(rows)[t].1.len() ==> fk_wf(
                #[trigger] group_fks(rows)[t].1[k],
            ),
{
    lemma_fk_fold_wf(rows);
    let st = fk_fold(rows);
    match st.2 {
        Option::Some(c) => {
            lemma_upsert_push_fk_wf(st.0, st.1, c);
        },
        Option::None => {},
    }
}

/// The view a views-only catalog row denotes, its comment not yet known.
pub open spec fn view_from_row(r: ViewRowV) -> ViewV {
    ViewV {
        name: r.view_name,
        definition: r.definition,
        comment: Seq::empty(),
        dependent_columns: Seq::empty(),
    }
}

/// The first position of the view named `name`, or -1 when none has it.
pub open spec fn find_view(items: Seq<ViewV>, name: Seq<char>) -> int
    decreases items.len(),
{
    if items.len() == 0 {
        -1
    } else if items[0].name == name {
        0
    } else {
        let r = find_view(items.drop_first(), name);
        if r < 0 {
            -1
        } else {
            r + 1
        }
    }
}

/// The characterization of [`find_view`]: it yields the least position
/// whose view is named `name`, or -1 when no position is.
pub proof fn lemma_find_view(items: Seq<ViewV>, name: Seq<char>)
    ensures
        find_view(items, name) == -1 || 0 <= find_view(items, name) < items.len(),
        find_view(items, name) == -1 ==> forall|i: int|
            0 <= i < items.len() ==> (#[trigger] items[i]).name != name,
        find_view(items, name) >= 0 ==> items[find_view(items, name)].name == name && forall|
            i: int,
        |
            0 <= i < find_view(items, name) ==> (#[trigger] items[i]).name != name,
    decreases items.len(),
{
    if items.len() > 0 && items[0].name != name {
        lemma_find_view(items.drop_first(), name);
        let r = find_view(items.drop_first(), name);
        if r >= 0 {
            assert(items[r + 1] == items.drop_first()[r]);
            assert forall|i: int| 0 <= i < r + 1 implies (#[trigger] items[i]).name != name by {
                if i >= 1 {
                    assert(items[i] == items.drop_first()[i - 1]);
                }
            }
        } else {
            assert forall|i: int| 0 <= i < items.len() implies (#[trigger] items[i]).name
                != name by {
                if i >= 1 {
                    assert(items[i] == items.drop_first()[i - 1]);
                }
            }
        }
    }
}

/// Insert a view under its name: a later row for the same name replaces the
/// earlier view in place; a new name lands at the end.
pub open spec fn view_upsert(vs: Seq<ViewV>, v: ViewV) -> Seq<ViewV> {
    let k = find_view(vs, v.name);
    if k < 0 {
        vs.push(v)
    } else {
        vs.update(k, v)
    }
}

/// Fold views-only rows into a view list keyed by name in first-appearance
/// order.
pub open spec fn views_from_rows(rows: Seq<ViewRowV>) -> Seq<ViewV>
    decreases rows.len(),
{
    if rows.len() == 0 {
        Seq::empty()
    } else {
        view_upsert(views_from_rows(rows.drop_last()), view_from_row(rows.last()))
    }
}

/// The base table a tables-and-views row denotes, its collections not yet
/// attached.
pub open spec fn table_from_row(r: TableRowV) -> TableV {
    TableV {
        name: r.table_name,
        columns: Seq::empty(),
        indexes: Seq::empty(),
        foreign_keys: Seq::empty(),
        engine: r.engine,
        collation: r.collation,
        row_count: r.row_count,
        data_size: r.data_size,
        index_size: r.index_size,
        data_free: r.data_free,
        create_options: r.create_options,
        comment: r.comment,
        owner: Seq::empty(),
    }
}

/// The table-type tag is one of the two understood values.
pub open spec fn recognized_tag(t: Seq<char>) -> bool {
    t == "VIEW"@ || t == "BASE TABLE"@
}

/// The error raised for a table-type tag outside the understood set.
pub open spec fn tag_error(t: Seq<char>) -> ErrorV {
    ErrorV::Unknow("Unexpected table_type "@ + t)
}

/// Scan tables-and-views rows in order: a view row backfills the comment of
/// the view of that name (if collected); a base-table row appends a table;
/// any other tag fails the whole scan at the first such row.
pub open spec fn scan_tables(trows: Seq<TableRowV>, vs0: Seq<ViewV>) -> Result<
    (Seq<TableV>, Seq<ViewV>),
    ErrorV,
>
    decreases trows.len(),
{
    if trows.len() == 0 {
        Ok((Seq::empty(), vs0))
    } else {
        match scan_tables(trows.drop_last(), vs0) {
            Err(e) => Err(e),
            Ok(p) => {
                let r = trows.last();
                if r.table_type == "VIEW"@ {
                    let k = find_view(p.1, r.table_name);
                    if k < 0 {
                        Ok(p)
                    } else {
                        Ok((p.0, p.1.update(k, ViewV { comment: r.comment, ..p.1[k] })))
                    }
                } else if r.table_type == "BASE TABLE"@ {
                    Ok((p.0.push(table_from_row(r)), p.1))
                } else {
                    Err(tag_error(r.table_type))
                }
            },
        }
    }
}

/// A failing prefix decides the whole scan.
proof fn lemma_scan_tables_err(trows: Seq<TableRowV>, vs0: Seq<ViewV>, k: int)
    requires
        0 <= k <= trows.len(),
        scan_tables(trows.take(k), vs0) is Err,
    ensures
        scan_tables(trows, vs0) == scan_tables(trows.take(k), vs0),
    decreases trows.len() - k,
{
    if k < trows.len() {
        assert(trows.take(k + 1).drop_last() =~= trows.take(k));
        lemma_scan_tables_err(trows, vs0, k + 1);
    } else {
        assert(trows.take(k) =~= trows);
    }
}

/// The scan succeeds exactly when every row's tag is understood.
pub proof fn lemma_scan_tables_ok(trows: Seq<TableRowV>, vs0: Seq<ViewV>)
    ensures
        scan_tables(trows, vs0) is Ok <==> forall|i: int|
            0 <= i < trows.len() ==> recognized_tag(#[trigger] trows[i].table_type),
    decreases trows.len(),
{
    if trows.len() > 0 {
        lemma_scan_tables_ok(trows.drop_last(), vs0);
        assert(forall|i: int|
            0 <= i < trows.len() - 1 ==> trows.drop_last()[i] == #[trigger] trows[i]);
        if scan_tables(trows, vs0) is Ok {
            assert(forall|i: int|
                0 <= i < trows.len() - 1 ==> recognized_tag(#[trigger] trows[i].table_type));
            assert(recognized_tag(trows.last().table_type));
        }
    }
}

/// The combined assembly: collect the views-only rows, then route each
/// tables-and-views row by its tag.
pub open spec fn tables_and_views(vrows: Seq<ViewRowV>, trows: Seq<TableRowV>) -> Result<
    (Seq<TableV>, Seq<ViewV>),
    ErrorV,
> {
    scan_tables(trows, views_from_rows(vrows))
}

/// The base table a tables-and-views row denotes, as metadata.
fn table_metadata_from_row(row: &TableRow) -> (r: TableMetadata)
    ensures
        r@ == table_from_row(row@),
{
    let collation: Option<String> = match &row.collation {
        Some(s) => Some(s.clone()),
        None => None,
    };
    let r = TableMetadata {
        name: row.table_name.clone(),
        columns: Vec::new(),
        indexes: Vec::new(),
        foreign_keys: Vec::new(),
        engine: row.engine.clone(),
        collation,
        row_count: row.row_count,
        data_size: row.data_size,
        index_size: row.index_size,
        data_free: row.data_free,
        create_options: row.create_options.clone(),
        comment: row.comment.clone(),
        owner: String::new(),
    };
    proof {
        assert(r.columns.deep_view() =~= Seq::<ColumnV>::empty());
        assert(r.indexes.deep_view() =~= Seq::<IndexV>::empty());
        assert(r.foreign_keys.deep_view() =~= Seq::<FkV>::empty());
    }
    r
}

/// The first position of the view named `name` among the items.
fn find_view_by_name(items: &Vec<ViewMetadata>, name: &str) -> (r: Option<usize>)
    ensures
        r matches Some(i) ==> i < items.len() && find_view(items.deep_view(), name@) == i as int,
        r is None ==> find_view(items.deep_view(), name@) == -1,
{
    let ghost dv = items.deep_view();
    let mut i: usize = 0;
    while i < items.len()
        invariant
            i <= items.len(),
            dv == items.deep_view(),
            dv.len() == items.len(),
            forall|j: int| 0 <= j < i ==> (#[trigger] dv[j]).name != name@,
        decreases items.len() - i,
    {
        if str_eq(items[i].name.as_str(), name) {
            proof {
                assert(dv[i as int].name == name@);
                lemma_find_view(dv, name@);
                let f = find_view(dv, name@);
                if f == -1 {
                    assert(dv[i as int].name != name@);
                } else if f < i as int {
                    assert(dv[f].name != name@);
                } else if f > i as int {
                    assert(dv[i as int].name != name@);
                }
                assert(f == i as int);
            }
            return Some(i);
        }
        i += 1;
    }
    proof {
        lemma_find_view(dv, name@);
        let f = find_view(dv, name@);
        if f >= 0 {
            assert(dv[f].name != name@);
        }
    }
    None
}

/// Assemble the table list and the view list from the views-only rows and
/// the combined tables-and-views rows. Any row whose type tag is outside the
/// two understood values fails the whole assembly — never a dropped row.
pub fn assemble_tables_and_views(view_rows: &Vec<ViewRow>, table_rows: &Vec<TableRow>) -> (r:
    Result<(Vec<TableMetadata>, Vec<ViewMetadata>), DBError>)
    ensures
        r is Ok <==> forall|i: int|
            0 <= i < table_rows.deep_view().len() ==> recognized_tag(
                #[trigger] table_rows.deep_view()[i].table_type,
            ),
        r matches Ok(p) ==> tables_and_views(view_rows.deep_view(), table_rows.deep_view())
            == Ok::<_, ErrorV>((p.0.deep_view(), p.1.deep_view())),
        r matches Err(e) ==> tables_and_views(view_rows.deep_view(), table_rows.deep_view())
            == Err::<(Seq<TableV>, Seq<ViewV>), _>(e@),
{
    let ghost vrv = view_rows.deep_view();
    let ghost trv = table_rows.deep_view();
    let mut views: Vec<ViewMetadata> = Vec::new();
    let mut i: usize = 0;
    proof {
        assert(vrv.take(0) =~= Seq::<ViewRowV>::empty());
        assert(views.deep_view() =~= Seq::<ViewV>::empty());
    }
    while i < view_rows.len()
        invariant
            i <= view_rows.len(),
            vrv == view_rows.deep_view(),
            vrv.len() == view_rows.len(),
            views.deep_view() == views_from_rows(vrv.take(i as int)),
        decreases view_rows.len() - i,
    {
        let ghost dv0 = views.deep_view();
        let row = &view_rows[i];
        proof {
            assert(vrv.take(i + 1).drop_last() =~= vrv.take(i as int));
            assert(vrv.take(i + 1).last() == vrv[i as int]);
        }
        let v = ViewMetadata {
            name: row.view_name.clone(),
            definition: row.definition.clone(),
            comment: String::new(),
            dependent_columns: Vec::new(),
        };
        proof {
            assert(v.dependent_columns.deep_view() =~= Seq::<Seq<char>>::empty());
            assert(v@ == view_from_row(vrv[i as int]));
        }
        match find_view_by_name(&views, row.view_name.as_str()) {
            Some(k) => {
                views.remove(k);
                views.insert(k, v);
                proof {
                    assert(views.deep_view() =~= dv0.update(
                        k as int,
                        view_from_row(vrv[i as int]),
                    ));
                }
            },
            None => {
                views.push(v);
                proof {
                    assert(views.deep_view() =~= dv0.push(view_from_row(vrv[i as int])));
                }
            },
        }
        i += 1;
    }
    proof {
        assert(vrv.take(view_rows.len() as int) =~= vrv);
    }
    let ghost vs0 = views_from_rows(vrv);
    let mut tables: Vec<TableMetadata> = Vec::new();
    let mut j: usize = 0;
    proof {
        assert(trv.take(0) =~= Seq::<TableRowV>::empty());
        assert(tables.deep_view() =~= Seq::<TableV>::empty());
    }
    while j < table_rows.len()
        invariant
            j <= table_rows.len(),
            trv == table_rows.deep_view(),
            trv.len() == table_rows.len(),
            vrv == view_rows.deep_view(),
            vs0 == views_from_rows(vrv),
            scan_tables(trv.take(j as int), vs0) == Ok::<_, ErrorV>(
                (tables.deep_view(), views.deep_view()),
            ),
        decreases table_rows.len() - j,
    {
        let ghost tdv0 = tables.deep_view();
        let ghost wdv0 = views.deep_view();
        let row = &table_rows[j];
        proof {
            assert(trv.take(j + 1).drop_last() =~= trv.take(j as int));
            assert(trv.take(j + 1).last() == trv[j as int]);
        }
        if str_eq(row.table_type.as_str(), "VIEW") {
            match find_view_by_name(&views, row.table_name.as_str()) {
                Some(k) => {
                    proof {
                        lemma_find_view(wdv0, row.table_name@);
                    }
                    let mut v = views.remove(k);
                    v.comment = row.comment.clone();
                    views.insert(k, v);
                    proof {
                        assert(views.deep_view() =~= wdv0.update(
                            k as int,
                            ViewV { comment: trv[j as int].comment, ..wdv0[k as int] },
                        ));
                    }
                },
                None => {},
            }
        } else if str_eq(row.table_type.as_str(), "BASE TABLE") {
            let t = table_metadata_from_row(row);
            tables.push(t);
            proof {
                assert(tables.deep_view() =~= tdv0.push(table_from_row(trv[j as int])));
            }
        } else {
            let mut m = String::from_str("Unexpected table_type ");
            m.append(row.table_type.as_str());
            proof {
                lemma_scan_tables_err(trv, vs0, j + 1);
                lemma_scan_tables_ok(trv, vs0);
                assert(!recognized_tag(trv[j as int].table_type));
            }
            return Err(DBError::Unknow(m));
        }
        j += 1;
    }
    proof {
        assert(trv.take(table_rows.len() as int) =~= trv);
        lemma_scan_tables_ok(trv, vs0);
    }
    Ok((tables, views))
}


/// The routine-type tag names a procedure, under ASCII case folding.
pub open spec fn is_procedure_tag(t: Seq<char>) -> bool {
    eq_ic(t, "PROCEDURE"@)
}

/// Does the routine-type tag name a procedure?
pub fn routine_is_procedure(routine_type: &str) -> (r: bool)
    ensures
        r == is_procedure_tag(routine_type@),
{
    str_eq_ignore_case(routine_type, "PROCEDURE")
}

/// Split routine rows, in order, into the function list and the procedure
/// list by their type tag.
pub open spec fn split_routines(rows: Seq<RoutineRowV>) -> (Seq<FunctionV>, Seq<ProcedureV>)
    decreases rows.len(),
{
    if rows.len() == 0 {
        (Seq::empty(), Seq::empty())
    } else {
        let p = split_routines(rows.drop_last());
        let r = rows.last();
        if is_procedure_tag(r.routine_type) {
            (p.0, p.1.push(ProcedureV { name: r.name, definition: r.definition }))
        } else {
            (p.0.push(FunctionV { name: r.name, definition: r.definition }), p.1)
        }
    }
}

/// Split routines into functions and procedures by their type tag, keeping
/// each list in arrival order.
pub fn build_routines(rows: &Vec<RoutineRow>) -> (r: (
    Vec<FunctionMetadata>,
    Vec<ProcedureMetadata>,
))
    ensures
        r.0.deep_view() == split_routines(rows.deep_view()).0,
        r.1.deep_view() == split_routines(rows.deep_view()).1,
{
    let ghost rv = rows.deep_view();
    let mut functions: Vec<FunctionMetadata> = Vec::new();
    let mut procedures: Vec<ProcedureMetadata> = Vec::new();
    let mut i: usize = 0;
    proof {
        assert(rv.take(0) =~= Seq::<RoutineRowV>::empty());
        assert(functions.deep_view() =~= Seq::<FunctionV>::empty());
        assert(procedures.deep_view() =~= Seq::<ProcedureV>::empty());
    }
    while i < rows.len()
        invariant
            i <= rows.len(),
            rv == rows.deep_view(),
            rv.len() == rows.len(),
            functions.deep_view() == split_routines(rv.take(i as int)).0,
            procedures.deep_view() == split_routines(rv.take(i as int)).1,
        decreases rows.len() - i,
    {
        let ghost f0 = functions.deep_view();
        let ghost p0 = procedures.deep_view();
        let row = &rows[i];
        proof {
            assert(rv.take(i + 1).drop_last() =~= rv.take(i as int));
            assert(rv.take(i + 1).last() == rv[i as int]);
        }
        if routine_is_procedure(row.routine_type.as_str()) {
            procedures.push(
                ProcedureMetadata { name: row.name.clone(), definition: row.definition.clone() },
            );
            proof {
                assert(procedures.deep_view() =~= p0.push(
                    ProcedureV { name: rv[i as int].name, definition: rv[i as int].definition },
                ));
            }
        } else {
            functions.push(
                FunctionMetadata { name: row.name.clone(), definition: row.definition.clone() },
            );
            proof {
                assert(functions.deep_view() =~= f0.push(
                    FunctionV { name: rv[i as int].name, definition: rv[i as int].definition },
                ));
            }
        }
        i += 1;
    }
    proof {
        assert(rv.take(rows.len() as int) =~= rv);
    }
    (functions, procedures)
}

/// The least position whose name equals `t` under ASCII case folding, or -1.
pub open spec fn find_ci(names: Seq<Seq<char>>, t: Seq<char>) -> int
    decreases names.len(),
{
    if names.len() == 0 {
        -1
    } else if eq_ic(names[0], t) {
        0
    } else {
        let r = find_ci(names.drop_first(), t);
        if r < 0 {
            -1
        } else {
            r + 1
        }
    }
}

/// The characterization of [`find_ci`]: it yields the least case-folded
/// match position, or -1 when no position matches.
pub proof fn lemma_find_ci(names: Seq<Seq<char>>, t: Seq<char>)
    ensures
        find_ci(names, t) == -1 || 0 <= find_ci(names, t) < names.len(),
        find_ci(names, t) == -1 ==> forall|i: int|
            0 <= i < names.len() ==> !eq_ic(#[trigger] names[i], t),
        find_ci(names, t) >= 0 ==> eq_ic(names[find_ci(names, t)], t) && forall|i: int|
            0 <= i < find_ci(names, t) ==> !eq_ic(#[trigger] names[i], t),
    decreases names.len(),
{
    if names.len() > 0 && !eq_ic(names[0], t) {
        lemma_find_ci(names.drop_first(), t);
        let r = find_ci(names.drop_first(), t);
        if r >= 0 {
            assert(names[r + 1] == names.drop_first()[r]);
            assert forall|i: int| 0 <= i < r + 1 implies !eq_ic(#[trigger] names[i], t) by {
                if i >= 1 {
                    assert(names[i] == names.drop_first()[i - 1]);
                }
            }
        } else {
            assert forall|i: int| 0 <= i < names.len() implies !eq_ic(#[trigger] names[i], t) by {
                if i >= 1 {
                    assert(names[i] == names.drop_first()[i - 1]);
                }
            }
        }
    }
}

/// Locate a result column by name, case-insensitively: catalogs do not
/// guarantee requested-case preservation, and failing to find the column is
/// an unrecognized-data error.
pub fn find_column_index_ci(names: &Vec<String>, target: &str) -> (r: Result<usize, DBError>)
    ensures
        r is Ok <==> find_ci(names.deep_view(), target@) >= 0,
        r matches Ok(i) ==> i as int == find_ci(names.deep_view(), target@),
        r matches Err(e) ==> e@ == ErrorV::Unknow("Not Find "@ + target@ + " Failed"@),
{
    let ghost dv = names.deep_view();
    let mut i: usize = 0;
    while i < names.len()
        invariant
            i <= names.len(),
            dv == names.deep_view(),
            dv.len() == names.len(),
            forall|j: int| 0 <= j < i ==> !eq_ic(#[trigger] dv[j], target@),
        decreases names.len() - i,
    {
        if str_eq_ignore_case(names[i].as_str(), target) {
            proof {
                lemma_find_ci(dv, target@);
                let f = find_ci(dv, target@);
                if f == -1 {
                    assert(!eq_ic(dv[i as int], target@));
                } else if 0 <= f < i as int {
                    assert(!eq_ic(dv[f], target@));
                } else if f > i as int {
                    assert(!eq_ic(dv[i as int], target@));
                }
                assert(f == i as int);
            }
            return Ok(i);
        }
        i += 1;
    }
    proof {
        lemma_find_ci(dv, target@);
        let f = find_ci(dv, target@);
        if f >= 0 {
            assert(!eq_ic(dv[f], target@));
        }
    }
    let mut m = String::from_str("Not Find ");
    m.append(target);
    m.append(" Failed");
    Err(DBError::Unknow(m))
}


/// The referencing columns of the catalog rows `rows[a..b)`, in order.
pub open spec fn run_columns(rows: Seq<FkRowV>, a: int, b: int) -> Seq<Seq<char>> {
    rows.subrange(a, b).map_values(|r: FkRowV| r.column_name)
}

/// The referenced columns of the catalog rows `rows[a..b)`, in order.
pub open spec fn run_referenced(rows: Seq<FkRowV>, a: int, b: int) -> Seq<Seq<char>> {
    rows.subrange(a, b).map_values(|r: FkRowV| r.referenced_column)
}

/// The foreign key `f`, grouped under `table`, is exactly the column pairs
/// of the contiguous catalog rows `rows[a..b)`: every row of the run names
/// that table and that constraint, and element `j` of `columns` and of
/// `referenced_columns` are the referencing/referenced pair of row `a + j`.
pub open spec fn run_matches(rows: Seq<FkRowV>, a: int, b: int, table: Seq<char>, f: FkV) -> bool {
    &&& 0 <= a < b <= rows.len()
    &&& forall|j: int|
        a <= j < b ==> (#[trigger] rows[j]).table_name == table && rows[j].constraint_name
            == f.name
    &&& f.columns == run_columns(rows, a, b)
    &&& f.referenced_columns == run_referenced(rows, a, b)
}

/// The foreign key comes from one contiguous run of the catalog rows.
pub open spec fn fk_from_run(rows: Seq<FkRowV>, table: Seq<char>, f: FkV) -> bool {
    exists|a: int, b: int| run_matches(rows, a, b, table, f)
}

/// Every constraint of every group comes from one run of the rows, under
/// the table name its group is keyed by.
pub open spec fn groups_from_runs(rows: Seq<FkRowV>, gs: Seq<(Seq<char>, Seq<FkV>)>) -> bool {
    forall|t: int, k: int|
        0 <= t < gs.len() && 0 <= k < gs[t].1.len() ==> fk_from_run(
            rows,
            gs[t].0,
            #[trigger] gs[t].1[k],
        )
}

/// A run of the rows without their last row is a run of the rows.
proof fn lemma_run_transfer(rows: Seq<FkRowV>, table: Seq<char>, f: FkV)
    requires
        rows.len() > 0,
        fk_from_run(rows.drop_last(), table, f),
    ensures
        fk_from_run(rows, table, f),
{
    let (a, b) = choose|a: int, b: int| run_matches(rows.drop_last(), a, b, table, f);
    assert(run_matches(rows.drop_last(), a, b, table, f));
    assert(rows.drop_last().subrange(a, b) =~= rows.subrange(a, b));
    assert forall|j: int|
        a <= j < b implies (#[trigger] rows[j]).table_name == table && rows[j].constraint_name
            == f.name by {
        assert(rows.drop_last()[j].table_name == table);
        assert(rows[j] == rows.drop_last()[j]);
    }
    assert(run_matches(rows, a, b, table, f));
}

/// Inserting a from-run constraint into groups of from-run constraints
/// leaves every constraint from-run under its group's key.
proof fn lemma_upsert_push_from_run(
    rows: Seq<FkRowV>,
    gs: Seq<(Seq<char>, Seq<FkV>)>,
    key: Seq<char>,
    c: FkV,
)
    requires
        groups_from_runs(rows, gs),
        fk_from_run(rows, key, c),
    ensures
        groups_from_runs(rows, upsert_push(gs, key, c)),
{
    crate::group::lemma_find_key(gs, key);
    let res = upsert_push(gs, key, c);
    let k0 = find_key(gs, key);
    assert forall|t: int, k: int|
        0 <= t < res.len() && 0 <= k < res[t].1.len() implies fk_from_run(
        rows,
        res[t].0,
        #[trigger] res[t].1[k],
    ) by {
        if k0 < 0 {
            if t < gs.len() {
                assert(res[t] == gs[t]);
            } else {
                assert(res[t].0 == key);
                assert(res[t].1 == seq![c]);
            }
        } else {
            if t != k0 {
                assert(res[t] == gs[t]);
            } else {
                assert(gs[k0].0 == key);
                if k < gs[k0].1.len() {
                    assert(res[t].1[k] == gs[k0].1[k]);
                } else {
                    assert(res[t].1[k] == c);
                }
            }
        }
    }
}

/// Every constraint the streaming fold has flushed comes from one run of
/// the rows under its group's key, and the constraint under construction
/// comes from the run that ends at the last row seen.
proof fn lemma_fk_fold_from_runs(rows: Seq<FkRowV>)
    ensures
        groups_from_runs(rows, fk_fold(rows).0),
        fk_fold(rows).2 matches Some(c) ==> exists|a: int|
            run_matches(rows, a, rows.len() as int, fk_fold(rows).1, c),
    decreases rows.len(),
{
    if rows.len() > 0 {
        lemma_fk_fold_from_runs(rows.drop_last());
        let st = fk_fold(rows.drop_last());
        let r = rows.last();
        let n = rows.len() as int;
        assert forall|t: int, k: int|
            0 <= t < st.0.len() && 0 <= k < st.0[t].1.len() implies fk_from_run(
            rows,
            st.0[t].0,
            #[trigger] st.0[t].1[k],
        ) by {
            lemma_run_transfer(rows, st.0[t].0, st.0[t].1[k]);
        }
        assert(rows.subrange(n - 1, n) =~= seq![r]);
        assert(run_columns(rows, n - 1, n) =~= seq![r.column_name]);
        assert(run_referenced(rows, n - 1, n) =~= seq![r.referenced_column]);
        match st.2 {
            Option::None => {
                assert(run_matches(rows, n - 1, n, r.table_name, fk_from_row(r)));
                assert(run_matches(
                    rows,
                    n - 1,
                    rows.len() as int,
                    fk_fold(rows).1,
                    fk_fold(rows).2->Some_0,
                ));
            },
            Option::Some(c) => {
                let a = choose|a: int|
                    run_matches(rows.drop_last(), a, rows.drop_last().len() as int, st.1, c);
                assert(run_matches(rows.drop_last(), a, n - 1, st.1, c));
                assert(rows.drop_last().subrange(a, n - 1) =~= rows.subrange(a, n - 1));
                assert forall|j: int|
                    a <= j < n - 1 implies (#[trigger] rows[j]).table_name == st.1
                        && rows[j].constraint_name == c.name by {
                    assert(rows.drop_last()[j].table_name == st.1);
                    assert(rows[j] == rows.drop_last()[j]);
                }
                assert(run_matches(rows, a, n - 1, st.1, c));
                if r.table_name == st.1 && c.name == r.constraint_name {
                    let c2 = fk_push_col(c, r);
                    assert(run_columns(rows, a, n) =~= run_columns(rows, a, n - 1).push(
                        r.column_name,
                    ));
                    assert(run_referenced(rows, a, n) =~= run_referenced(rows, a, n - 1).push(
                        r.referenced_column,
                    ));
                    assert(run_matches(rows, a, n, st.1, c2));
                    assert(run_matches(
                        rows,
                        a,
                        rows.len() as int,
                        fk_fold(rows).1,
                        fk_fold(rows).2->Some_0,
                    ));
                } else {
                    assert(fk_from_run(rows, st.1, c));
                    lemma_upsert_push_from_run(rows, st.0, st.1, c);
                    assert(run_matches(rows, n - 1, n, r.table_name, fk_from_row(r)));
                    assert(run_matches(
                        rows,
                        n - 1,
                        rows.len() as int,
                        fk_fold(rows).1,
                        fk_fold(rows).2->Some_0,
                    ));
                }
            },
        }
    }
}

/// Every foreign key that [`group_fks`] assembles is exactly the column
/// pairs of one contiguous run of foreign-key catalog rows naming its table
/// and constraint: element `j` of `columns` and of `referenced_columns` are
/// the referencing/referenced pair of the same row, in arrival (ordinal)
/// order. The two arrays are therefore mutually index-aligned, of equal and
/// non-zero length.
pub proof fn lemma_group_fks_aligned(rows: Seq<FkRowV>)
    ensures
        forall|t: int, k: int|
            0 <= t < group_fks(rows).len() && 0 <= k < group_fks(rows)[t].1.len() ==> fk_from_run(
                rows,
                group_fks(rows)[t].0,
                #[trigger] group_fks(rows)[t].1[k],
            ),
{
    lemma_fk_fold_from_runs(rows);
    let st = fk_fold(rows);
    match st.2 {
        Option::Some(c) => {
            let a = choose|a: int| run_matches(rows, a, rows.len() as int, st.1, c);
            assert(run_matches(rows, a, rows.len() as int, st.1, c));
            lemma_upsert_push_from_run(rows, st.0, st.1, c);
        },
        Option::None => {},
    }
}

} // verus!
