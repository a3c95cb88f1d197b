//! The metadata tree builder for single-schema engines: joins the
//! independently collected per-table groups by table name — detaching, not
//! merely reading, each match — sorts every table's indexes by name, and
//! composes the final immutable database and instance trees.

use vstd::prelude::*;

use crate::group::{remove_key, Grouped, remove_group};
use crate::rows::{SchemataRow, SchemataRowV};
use crate::store::{
    ColumnMetadata, ColumnV, DatabaseSchemaMetadata, DatabaseV, FkV, ForeignKeyMetadata,
    FunctionMetadata, FunctionV, IndexMetadata, IndexV, InstanceMetadata, InstanceV,
    ProcedureMetadata, ProcedureV, SchemaMetadata, SchemaV, TableMetadata, TableV, ViewMetadata,
    ViewV,
};

verus! {

/// Strict lexicographic order on character sequences, by code point; a
/// proper prefix comes first. This is the order `String` comparison gives.
pub open spec fn lex_lt(a: Seq<char>, b: Seq<char>) -> bool
    decreases a.len(),
{
    if b.len() == 0 {
        false
    } else if a.len() == 0 {
        true
    } else if (a[0] as u32) < (b[0] as u32) {
        true
    } else if (a[0] as u32) > (b[0] as u32) {
        false
    } else {
        lex_lt(a.drop_first(), b.drop_first())
    }
}

/// Strict lexicographic comparison of two strings by character code point.
pub fn str_lt(a: &str, b: &str) -> (r: bool)
    ensures
        r == lex_lt(a@, b@),
{
    let al = a.unicode_len();
    let bl = b.unicode_len();
    let mut i: usize = 0;
    proof {
        assert(a@.subrange(0, al as int) =~= a@);
        assert(b@.subrange(0, bl as int) =~= b@);
    }
    while i < al && i < bl
        invariant
            al == a@.len(),
            bl == b@.len(),
            i <= al,
            i <= bl,
            lex_lt(a@, b@) == lex_lt(
                a@.subrange(i as int, al as int),
                b@.subrange(i as int, bl as int),
            ),
        decreases al - i,
    {
        let ca = a.get_char(i) as u32;
        let cb = b.get_char(i) as u32;
        let ghost ta = a@.subrange(i as int, al as int);
        let ghost tb = b@.subrange(i as int, bl as int);
        if ca < cb {
            return true;
        }
        if ca > cb {
            return false;
        }
        proof {
            assert(ta.drop_first() =~= a@.subrange(i + 1, al as int));
            assert(tb.drop_first() =~= b@.subrange(i + 1, bl as int));
        }
        i += 1;
    }
    proof {
        assert(a@.subrange(i as int, al as int).len() == al - i);
        assert(b@.subrange(i as int, bl as int).len() == bl - i);
    }
    al < bl
}

/// Insert an index into a name-sorted sequence, after every index whose name
/// is not greater: the stable insertion step of the name sort.
pub open spec fn insert_sorted(x: IndexV, s: Seq<IndexV>) -> Seq<IndexV>
    decreases s.len(),
{
    if s.len() == 0 {
        seq![x]
    } else if lex_lt(x.name, s.last().name) {
        insert_sorted(x, s.drop_last()).push(s.last())
    } else {
        s.push(x)
    }
}

/// Stable insertion sort of indexes by name, in lexicographic order.
pub open spec fn sort_by_name(s: Seq<IndexV>) -> Seq<IndexV>
    decreases s.len(),
{
    if s.len() == 0 {
        Seq::empty()
    } else {
        insert_sorted(s.last(), sort_by_name(s.drop_last()))
    }
}

/// The insertion step places the element at the first position from the
/// right whose index name is not greater.
proof fn lemma_insert_sorted_at(x: IndexV, s: Seq<IndexV>, p: int)
    requires
        0 <= p <= s.len(),
        forall|q: int| p <= q < s.len() ==> lex_lt(x.name, (#[trigger] s[q]).name),
        p > 0 ==> !lex_lt(x.name, s[p - 1].name),
    ensures
        insert_sorted(x, s) == s.subrange(0, p) + seq![x] + s.subrange(p, s.len() as int),
    decreases s.len(),
{
    if s.len() == 0 {
        assert(insert_sorted(x, s) =~= s.subrange(0, p) + seq![x] + s.subrange(p, s.len() as int));
    } else if lex_lt(x.name, s.last().name) {
        assert(p < s.len());
        assert(forall|q: int|
            p <= q < s.drop_last().len() ==> lex_lt(x.name, (#[trigger] s.drop_last()[q]).name));
        lemma_insert_sorted_at(x, s.drop_last(), p);
        assert(insert_sorted(x, s) =~= s.subrange(0, p) + seq![x] + s.subrange(p, s.len() as int));
    } else {
        assert(p == s.len()) by {
            if p < s.len() {
                assert(lex_lt(x.name, s[s.len() - 1].name));
            }
        }
        assert(insert_sorted(x, s) =~= s.subrange(0, p) + seq![x] + s.subrange(p, s.len() as int));
    }
}

/// A property holding of an inserted element and of every element of a
/// sequence holds of every element after the insertion.
pub proof fn lemma_insert_sorted_pred(p: spec_fn(IndexV) -> bool, x: IndexV, s: Seq<IndexV>)
    requires
        p(x),
        forall|i: int| 0 <= i < s.len() ==> p(#[trigger] s[i]),
    ensures
        forall|i: int| 0 <= i < insert_sorted(x, s).len() ==> p(#[trigger] insert_sorted(x, s)[i]),
    decreases s.len(),
{
    if s.len() > 0 && lex_lt(x.name, s.last().name) {
        assert(forall|i: int|
            0 <= i < s.drop_last().len() ==> p(#[trigger] s.drop_last()[i]));
        lemma_insert_sorted_pred(p, x, s.drop_last());
        let res = insert_sorted(x, s);
        let inner = insert_sorted(x, s.drop_last());
        assert forall|i: int| 0 <= i < res.len() implies p(#[trigger] res[i]) by {
            if i < inner.len() {
                assert(res[i] == inner[i]);
            } else {
                assert(res[i] == s.last());
            }
        }
    }
}

/// A property holding of every element of a sequence holds of every element
/// of its name sort.
pub proof fn lemma_sort_pred(p: spec_fn(IndexV) -> bool, s: Seq<IndexV>)
    requires
        forall|i: int| 0 <= i < s.len() ==> p(#[trigger] s[i]),
    ensures
        forall|i: int| 0 <= i < sort_by_name(s).len() ==> p(#[trigger] sort_by_name(s)[i]),
    decreases s.len(),
{
    if s.len() > 0 {
        assert(forall|i: int| 0 <= i < s.drop_last().len() ==> p(#[trigger] s.drop_last()[i]));
        lemma_sort_pred(p, s.drop_last());
        lemma_insert_sorted_pred(p, s.last(), sort_by_name(s.drop_last()));
    }
}

/// Sort a table's indexes by name, stably, in lexicographic order.
pub fn sort_indexes_by_name(items: Vec<IndexMetadata>) -> (r: Vec<IndexMetadata>)
    ensures
        r.deep_view() == sort_by_name(items.deep_view()),
{
    let ghost sv = items.deep_view();
    let mut out: Vec<IndexMetadata> = Vec::new();
    let mut items = items;
    let mut i: usize = 0;
    let n = items.len();
    proof {
        assert(sv.take(0) =~= Seq::<IndexV>::empty());
        assert(out.deep_view() =~= Seq::<IndexV>::empty());
    }
    while i < n
        invariant
            i <= n,
            n == items.len(),
            sv == items.deep_view(),
            sv.len() == n,
            out.deep_view() == sort_by_name(sv.take(i as int)),
        decreases n - i,
    {
        let ghost odv = out.deep_view();
        let ghost xv = sv[i as int];
        let mut p = out.len();
        while p > 0 && str_lt(items[i].name.as_str(), out[p - 1].name.as_str())
            invariant
                p <= out.len(),
                odv == out.deep_view(),
                odv.len() == out.len(),
                i < n,
                n == items.len(),
                sv == items.deep_view(),
                xv == sv[i as int],
                forall|q: int| p <= q < odv.len() ==> lex_lt(xv.name, (#[trigger] odv[q]).name),
            decreases p,
        {
            p -= 1;
        }
        proof {
            lemma_insert_sorted_at(xv, odv, p as int);
        }
        let item = clone_index(&items[i]);
        out.insert(p, item);
        proof {
            assert(out.deep_view() =~= odv.subrange(0, p as int) + seq![xv] + odv.subrange(
                p as int,
                odv.len() as int,
            ));
            assert(sv.take(i + 1).drop_last() =~= sv.take(i as int));
            assert(sv.take(i + 1).last() == sv[i as int]);
        }
        i += 1;
    }
    proof {
        assert(sv.take(n as int) =~= sv);
    }
    out
}

/// An exact copy of one index.
fn clone_index(x: &IndexMetadata) -> (r: IndexMetadata)
    ensures
        r@ == x@,
{
    let mut expressions: Vec<String> = Vec::new();
    let mut i: usize = 0;
    while i < x.expressions.len()
        invariant
            i <= x.expressions.len(),
            expressions.deep_view() == x.expressions.deep_view().take(i as int),
        decreases x.expressions.len() - i,
    {
        let ghost e0 = expressions.deep_view();
        expressions.push(x.expressions[i].clone());
        proof {
            assert(expressions.deep_view() =~= e0.push(x.expressions.deep_view()[i as int]));
            assert(x.expressions.deep_view().take(i + 1) =~= x.expressions.deep_view().take(
                i as int,
            ).push(x.expressions.deep_view()[i as int]));
        }
        i += 1;
    }
    let mut key_length: Vec<i64> = Vec::new();
    let mut j: usize = 0;
    while j < x.key_length.len()
        invariant
            j <= x.key_length.len(),
            key_length@ == x.key_length@.take(j as int),
        decreases x.key_length.len() - j,
    {
        key_length.push(x.key_length[j]);
        proof {
            assert(x.key_length@.take(j + 1) =~= x.key_length@.take(j as int).push(
                x.key_length@[j as int],
            ));
        }
        j += 1;
    }
    let r = IndexMetadata {
        name: x.name.clone(),
        expressions,
        key_length,
        index_type: x.index_type.clone(),
        unique: x.unique,
        primary: x.primary,
        visible: x.visible,
        comment: x.comment.clone(),
        definition: x.definition.clone(),
    };
    proof {
        assert(expressions.deep_view() =~= x.expressions.deep_view());
        assert(key_length@ =~= x.key_length@);
        assert(r@ == x@);
    }
    r
}

/// Attach to each table, in order, its detached index, column and foreign
/// key groups; a table with no matching group keeps its empty collections.
/// The state is (attached tables, remaining index groups, remaining column
/// groups, remaining foreign-key groups).
pub open spec fn attach_fold(
    tables: Seq<TableV>,
    idx: Seq<(Seq<char>, Seq<IndexV>)>,
    cols: Seq<(Seq<char>, Seq<ColumnV>)>,
    fks: Seq<(Seq<char>, Seq<FkV>)>,
) -> (
    Seq<TableV>,
    Seq<(Seq<char>, Seq<IndexV>)>,
    Seq<(Seq<char>, Seq<ColumnV>)>,
    Seq<(Seq<char>, Seq<FkV>)>,
)
    decreases tables.len(),
{
    if tables.len() == 0 {
        (Seq::empty(), idx, cols, fks)
    } else {
        let st = attach_fold(tables.drop_last(), idx, cols, fks);
        let t = tables.last();
        let ri = remove_key(st.1, t.name);
        let rc = remove_key(st.2, t.name);
        let rf = remove_key(st.3, t.name);
        let t2 = TableV {
            indexes: match ri.0 {
                Option::Some(items) => sort_by_name(items),
                Option::None => t.indexes,
            },
            columns: match rc.0 {
                Option::Some(c) => c,
                Option::None => t.columns,
            },
            foreign_keys: match rf.0 {
                Option::Some(f) => f,
                Option::None => t.foreign_keys,
            },
            ..t
        };
        (st.0.push(t2), ri.1, rc.1, rf.1)
    }
}

/// The database tree one single-schema sync composes: one anonymous schema
/// holding the attached tables, the views, and the routines.
pub open spec fn mysql_database_spec(
    name: Seq<char>,
    character_set: Seq<char>,
    collation: Seq<char>,
    idx: Seq<(Seq<char>, Seq<IndexV>)>,
    cols: Seq<(Seq<char>, Seq<ColumnV>)>,
    fks: Seq<(Seq<char>, Seq<FkV>)>,
    tables: Seq<TableV>,
    views: Seq<ViewV>,
    functions: Seq<FunctionV>,
    procedures: Seq<ProcedureV>,
) -> DatabaseV {
    DatabaseV {
        name: name,
        character_set: character_set,
        collation: collation,
        owner: Seq::empty(),
        datashare: false,
        service_name: Seq::empty(),
        extensions: Seq::empty(),
        schemas: seq![
            SchemaV {
                name: Seq::empty(),
                owner: Seq::empty(),
                comment: Seq::empty(),
                tables: attach_fold(tables, idx, cols, fks).0,
                views: views,
                materialized_views: Seq::empty(),
                functions: functions,
                procedures: procedures,
                external_tables: Seq::empty(),
            },
        ],
    }
}

/// Compose one single-schema database tree: detach each table's groups from
/// the per-table maps, sort its indexes by name, and assemble the one
/// anonymous schema.
pub fn mysql_compose_database(
    database_name: &str,
    character_set: String,
    collation: String,
    indexes: Vec<Grouped<IndexMetadata>>,
    columns: Vec<Grouped<ColumnMetadata>>,
    foreign_keys: Vec<Grouped<ForeignKeyMetadata>>,
    tables: Vec<TableMetadata>,
    views: Vec<ViewMetadata>,
    functions: Vec<FunctionMetadata>,
    procedures: Vec<ProcedureMetadata>,
) -> (r: DatabaseSchemaMetadata)
    ensures
        r@ == mysql_database_spec(
            database_name@,
            character_set@,
            collation@,
            indexes.deep_view(),
            columns.deep_view(),
            foreign_keys.deep_view(),
            tables.deep_view(),
            views.deep_view(),
            functions.deep_view(),
            procedures.deep_view(),
        ),
{
    let ghost tv = tables.deep_view();
    let ghost iv0 = indexes.deep_view();
    let ghost cv0 = columns.deep_view();
    let ghost fv0 = foreign_keys.deep_view();
    let mut indexes = indexes;
    let mut columns = columns;
    let mut foreign_keys = foreign_keys;
    let mut tables = tables;
    let mut attached: Vec<TableMetadata> = Vec::new();
    let mut i: usize = 0;
    let n = tables.len();
    proof {
        assert(tv.take(0) =~= Seq::<TableV>::empty());
        assert(attached.deep_view() =~= Seq::<TableV>::empty());
        assert(tv.skip(0) =~= tv);
    }
    while i < n
        invariant
            i <= n,
            n == tv.len(),
            tables.len() == n - i,
            tables.deep_view() == tv.skip(i as int),
            attached.deep_view() == attach_fold(tv.take(i as int), iv0, cv0, fv0).0,
            indexes.deep_view() == attach_fold(tv.take(i as int), iv0, cv0, fv0).1,
            columns.deep_view() == attach_fold(tv.take(i as int), iv0, cv0, fv0).2,
            foreign_keys.deep_view() == attach_fold(tv.take(i as int), iv0, cv0, fv0).3,
        decreases n - i,
    {
        let ghost adv = attached.deep_view();
        let ghost pre = tables@;
        let ghost predv = tables.deep_view();
        let mut t = tables.remove(0);
        proof {
            assert(tables@ =~= pre.drop_first());
            assert(t@ == predv[0]);
            assert(t@ == tv[i as int]);
            assert forall|k: int| 0 <= k < tables@.len() implies #[trigger] tables.deep_view()[k]
                == tv.skip(i + 1)[k] by {
                assert(tables@[k] == pre[k + 1]);
                assert(pre[k + 1].deep_view() == predv[k + 1]);
                assert(predv[k + 1] == tv.skip(i as int)[k + 1]);
                assert(tv.skip(i as int)[k + 1] == tv[i + 1 + k]);
            }
            assert(tables.deep_view() =~= tv.skip(i + 1));
            assert(tv.take(i + 1).drop_last() =~= tv.take(i as int));
            assert(tv.take(i + 1).last() == tv[i as int]);
        }
        match remove_group(&mut indexes, t.name.as_str()) {
            Some(items) => {
                t.indexes = sort_indexes_by_name(items);
            },
            None => {},
        }
        match remove_group(&mut columns, t.name.as_str()) {
            Some(c) => {
                t.columns = c;
            },
            None => {},
        }
        match remove_group(&mut foreign_keys, t.name.as_str()) {
            Some(f) => {
                t.foreign_keys = f;
            },
            None => {},
        }
        attached.push(t);
        proof {
            assert(attached.deep_view() =~= adv.push(t@));
        }
        i += 1;
    }
    proof {
        assert(tv.take(n as int) =~= tv);
    }
    let schema = SchemaMetadata {
        name: String::new(),
        owner: String::new(),
        comment: String::new(),
        tables: attached,
        views,
        materialized_views: Vec::new(),
        functions,
        procedures,
        external_tables: Vec::new(),
    };
    let mut schemas: Vec<SchemaMetadata> = Vec::new();
    proof {
        assert(schema.materialized_views.deep_view() =~= Seq::<
            crate::store::MatViewV,
        >::empty());
        assert(schema.external_tables.deep_view() =~= Seq::<TableV>::empty());
    }
    let ghost schema_v = schema@;
    schemas.push(schema);
    let r = DatabaseSchemaMetadata {
        name: String::from_str(database_name),
        character_set,
        collation,
        owner: String::new(),
        datashare: false,
        service_name: String::new(),
        extensions: Vec::new(),
        schemas,
    };
    proof {
        assert(r.schemas.deep_view() =~= seq![schema_v]);
        assert(r.extensions.deep_view() =~= Seq::<Seq<char>>::empty());
    }
    r
}

/// The database a schema-listing row denotes, its schemas not yet loaded.
pub open spec fn database_from_schemata(r: SchemataRowV) -> DatabaseV {
    DatabaseV {
        name: r.name,
        character_set: r.character_set,
        collation: r.collation,
        owner: Seq::empty(),
        datashare: false,
        service_name: Seq::empty(),
        extensions: Seq::empty(),
        schemas: Seq::empty(),
    }
}

/// The database list a schema-listing result denotes, row for row.
pub open spec fn databases_from_schemata(rows: Seq<SchemataRowV>) -> Seq<DatabaseV> {
    rows.map_values(|r: SchemataRowV| database_from_schemata(r))
}

/// Map schema-listing rows to shallow database entries, row for row.
pub fn databases_from_rows(rows: &Vec<SchemataRow>) -> (r: Vec<DatabaseSchemaMetadata>)
    ensures
        r.deep_view() == databases_from_schemata(rows.deep_view()),
{
    let ghost rv = rows.deep_view();
    let mut out: Vec<DatabaseSchemaMetadata> = Vec::new();
    let mut i: usize = 0;
    while i < rows.len()
        invariant
            i <= rows.len(),
            rv == rows.deep_view(),
            rv.len() == rows.len(),
            out.deep_view() =~= rv.take(i as int).map_values(
                |r: SchemataRowV| database_from_schemata(r),
            ),
        decreases rows.len() - i,
    {
        let ghost odv = out.deep_view();
        let row = &rows[i];
        let d = DatabaseSchemaMetadata {
            name: row.name.clone(),
            character_set: row.character_set.clone(),
            collation: row.collation.clone(),
            owner: String::new(),
            datashare: false,
            service_name: String::new(),
            extensions: Vec::new(),
            schemas: Vec::new(),
        };
        proof {
            assert(d.extensions.deep_view() =~= Seq::<Seq<char>>::empty());
            assert(d.schemas.deep_view() =~= Seq::<SchemaV>::empty());
            assert(d@ == database_from_schemata(rv[i as int]));
        }
        out.push(d);
        proof {
            assert(out.deep_view() =~= odv.push(database_from_schemata(rv[i as int])));
            assert(rv.take(i + 1).map_values(|r: SchemataRowV| database_from_schemata(r)) =~= rv
                .take(i as int).map_values(|r: SchemataRowV| database_from_schemata(r)).push(
                database_from_schemata(rv[i as int]),
            ));
        }
        i += 1;
    }
    proof {
        assert(rv.take(rows.len() as int) =~= rv);
    }
    out
}

/// The instance tree one instance sync composes from the server version and
/// the database list.
pub open spec fn instance_spec(version: Seq<char>, databases: Seq<DatabaseV>) -> InstanceV {
    InstanceV {
        version: version,
        instance_roles: Seq::empty(),
        databases: databases,
        last_sync: 0,
    }
}

/// Compose the instance tree from the parsed server version and the loaded
/// database list.
pub fn compose_instance(version: String, databases: Vec<DatabaseSchemaMetadata>) -> (r:
    InstanceMetadata)
    ensures
        r@ == instance_spec(version@, databases.deep_view()),
{
    let r = InstanceMetadata { version, instance_roles: Vec::new(), databases, last_sync: 0 };
    proof {
        assert(r.instance_roles.deep_view() =~= Seq::<Seq<char>>::empty());
    }
    r
}


/// The lexicographic order is irreflexive and asymmetric.
pub proof fn lemma_lex_asymmetric(a: Seq<char>, b: Seq<char>)
    requires
        lex_lt(a, b),
    ensures
        !lex_lt(b, a),
    decreases a.len(),
{
    if a.len() > 0 && b.len() > 0 && (a[0] as u32) == (b[0] as u32) {
        lemma_lex_asymmetric(a.drop_first(), b.drop_first());
    }
}

/// The lexicographic order is total: two sequences compare one way, the
/// other, or are equal.
pub proof fn lemma_lex_total(a: Seq<char>, b: Seq<char>)
    ensures
        lex_lt(a, b) || lex_lt(b, a) || a == b,
    decreases a.len(),
{
    if a.len() == 0 && b.len() == 0 {
        assert(a =~= b);
    } else if a.len() > 0 && b.len() > 0 && (a[0] as u32) == (b[0] as u32) {
        crate::text::lemma_char_injective(a[0], b[0]);
        lemma_lex_total(a.drop_first(), b.drop_first());
        if a.drop_first() == b.drop_first() {
            assert(a.len() == b.len());
            assert forall|i: int| 0 <= i < a.len() implies a[i] == b[i] by {
                if i > 0 {
                    assert(a[i] == a.drop_first()[i - 1]);
                    assert(b[i] == b.drop_first()[i - 1]);
                }
            }
            assert(a =~= b);
        }
    }
}

/// The lexicographic order is transitive.
pub proof fn lemma_lex_transitive(a: Seq<char>, b: Seq<char>, c: Seq<char>)
    requires
        lex_lt(a, b),
        lex_lt(b, c),
    ensures
        lex_lt(a, c),
    decreases a.len(),
{
    if a.len() > 0 && b.len() > 0 && c.len() > 0 && (a[0] as u32) == (b[0] as u32) && (
    b[0] as u32) == (c[0] as u32) {
        lemma_lex_transitive(a.drop_first(), b.drop_first(), c.drop_first());
    }
}

/// The indexes are in non-decreasing name order.
pub open spec fn sorted_by_name(s: Seq<IndexV>) -> bool {
    forall|i: int, j: int|
        0 <= i < j < s.len() ==> !lex_lt((#[trigger] s[j]).name, (#[trigger] s[i]).name)
}

/// Inserting into a name-sorted sequence keeps it name-sorted.
proof fn lemma_insert_sorted_keeps_sorted(x: IndexV, s: Seq<IndexV>)
    requires
        sorted_by_name(s),
    ensures
        sorted_by_name(insert_sorted(x, s)),
    decreases s.len(),
{
    if s.len() == 0 {
    } else if lex_lt(x.name, s.last().name) {
        assert(sorted_by_name(s.drop_last())) by {
            assert(forall|i: int|
                0 <= i < s.len() - 1 ==> (#[trigger] s.drop_last()[i]) == s[i]);
        }
        lemma_insert_sorted_keeps_sorted(x, s.drop_last());
        let inner = insert_sorted(x, s.drop_last());
        let last = s.last();
        assert forall|i: int| 0 <= i < inner.len() implies !lex_lt(
            last.name,
            (#[trigger] inner[i]).name,
        ) by {
            assert(!lex_lt(last.name, x.name)) by {
                lemma_lex_asymmetric(x.name, last.name);
            }
            lemma_insert_sorted_pred(
                |v: IndexV| !lex_lt(last.name, v.name),
                x,
                s.drop_last(),
            );
        }
        let res = insert_sorted(x, s);
        assert forall|i: int, j: int|
            0 <= i < j < res.len() implies !lex_lt(
            (#[trigger] res[j]).name,
            (#[trigger] res[i]).name,
        ) by {
            if j < inner.len() {
                assert(res[i] == inner[i] && res[j] == inner[j]);
            } else {
                assert(res[j] == last);
                assert(res[i] == inner[i]);
            }
        }
    } else {
        let res = s.push(x);
        assert forall|i: int, j: int|
            0 <= i < j < res.len() implies !lex_lt(
            (#[trigger] res[j]).name,
            (#[trigger] res[i]).name,
        ) by {
            if j < s.len() {
                assert(res[i] == s[i] && res[j] == s[j]);
            } else {
                assert(res[j] == x);
                assert(res[i] == s[i]);
                if lex_lt(x.name, s[i].name) {
                    assert(i < s.len() - 1 ==> !lex_lt(s.last().name, s[i].name));
                    lemma_lex_total(s[i].name, s.last().name);
                    if lex_lt(s[i].name, s.last().name) {
                        lemma_lex_transitive(x.name, s[i].name, s.last().name);
                    }
                }
            }
        }
    }
}

/// The name sort leaves the indexes in non-decreasing name order.
pub proof fn lemma_sort_by_name_sorted(s: Seq<IndexV>)
    ensures
        sorted_by_name(sort_by_name(s)),
    decreases s.len(),
{
    if s.len() > 0 {
        lemma_sort_by_name_sorted(s.drop_last());
        lemma_insert_sorted_keeps_sorted(s.last(), sort_by_name(s.drop_last()));
    }
}

} // verus!
