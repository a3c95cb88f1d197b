//! The multi-schema engine driver's logic: its raw catalog rows, numeric
//! version formatting, index-method extraction from definition text, type
//! string normalization, per-schema grouping and tree composition.

use vstd::prelude::*;

use crate::error::{DBError, ErrorV};
use crate::store::{
    ColumnDefault, ColumnMetadata, ColumnV, DatabaseSchemaMetadata, DatabaseV, DefaultV,
    IdentityGeneration, IndexMetadata, IndexV, InstanceMetadata, MatViewV,
    MaterializedViewMetadata, SchemaMetadata, SchemaV, TableMetadata, TableV, ViewMetadata, ViewV,
};
use crate::text::{
    all_digits, dec_rep, digit_run_end_exec, i64_dec, lemma_digit_run_end, match_at,
    match_at_exec, push_i64_dec, push_u64_dec, seq_num, str_eq,
};
use crate::group::{push_item, remove_group, remove_key, upsert_push, Grouped};
use crate::util::{convert_yes_no, yes_no_spec};
use crate::version::parse_u64_digits;

verus! {

/// One row of the database-listing catalog query.
#[derive(Debug)]
pub struct PgDatabaseRow {
    pub name: String,
    pub character_set: String,
    pub collation: String,
    pub owner: String,
}

/// Ghost mirror of [`PgDatabaseRow`].
pub ghost struct PgDatabaseRowV {
    pub name: Seq<char>,
    pub character_set: Seq<char>,
    pub collation: Seq<char>,
    pub owner: Seq<char>,
}

impl View for PgDatabaseRow {
    type V = PgDatabaseRowV;

    open spec fn view(&self) -> PgDatabaseRowV {
        PgDatabaseRowV {
            name: self.name@,
            character_set: self.character_set@,
            collation: self.collation@,
            owner: self.owner@,
        }
    }
}

impl DeepView for PgDatabaseRow {
    type V = PgDatabaseRowV;

    open spec fn deep_view(&self) -> PgDatabaseRowV {
        self.view()
    }
}

/// One row of the schema-listing catalog query.
#[derive(Debug)]
pub struct PgSchemaRow {
    pub name: String,
    pub owner: String,
    pub comment: Option<String>,
}

/// Ghost mirror of [`PgSchemaRow`].
pub ghost struct PgSchemaRowV {
    pub name: Seq<char>,
    pub owner: Seq<char>,
    pub comment: Option<Seq<char>>,
}

impl View for PgSchemaRow {
    type V = PgSchemaRowV;

    open spec fn view(&self) -> PgSchemaRowV {
        PgSchemaRowV { name: self.name@, owner: self.owner@, comment: self.comment.deep_view() }
    }
}

impl DeepView for PgSchemaRow {
    type V = PgSchemaRowV;

    open spec fn deep_view(&self) -> PgSchemaRowV {
        self.view()
    }
}

/// One discovered schema, its comment already defaulted.
#[derive(Debug)]
pub struct SchemaInfo {
    pub name: String,
    pub owner: String,
    pub comment: String,
}

/// Ghost mirror of [`SchemaInfo`].
pub ghost struct SchemaInfoV {
    pub name: Seq<char>,
    pub owner: Seq<char>,
    pub comment: Seq<char>,
}

impl View for SchemaInfo {
    type V = SchemaInfoV;

    open spec fn view(&self) -> SchemaInfoV {
        SchemaInfoV { name: self.name@, owner: self.owner@, comment: self.comment@ }
    }
}

impl DeepView for SchemaInfo {
    type V = SchemaInfoV;

    open spec fn deep_view(&self) -> SchemaInfoV {
        self.view()
    }
}

/// One row of the column catalog query, ordered by schema, table, position.
#[derive(Debug)]
pub struct PgColumnRow {
    pub schema: String,
    pub table: String,
    pub column_name: String,
    pub data_type: String,
    pub character_maximum_length: Option<i32>,
    /// 1-based ordinal position within the table.
    pub position: i32,
    pub default_value: Option<String>,
    /// The raw nullability flag, e.g. `YES` or `NO`.
    pub is_nullable: String,
    pub collation: Option<String>,
    pub udt_schema: Option<String>,
    pub udt_name: Option<String>,
    pub identity_generation: Option<String>,
    pub comment: Option<String>,
}

/// Ghost mirror of [`PgColumnRow`].
pub ghost struct PgColumnRowV {
    pub schema: Seq<char>,
    pub table: Seq<char>,
    pub column_name: Seq<char>,
    pub data_type: Seq<char>,
    pub character_maximum_length: Option<i32>,
    pub position: i32,
    pub default_value: Option<Seq<char>>,
    pub is_nullable: Seq<char>,
    pub collation: Option<Seq<char>>,
    pub udt_schema: Option<Seq<char>>,
    pub udt_name: Option<Seq<char>>,
    pub identity_generation: Option<Seq<char>>,
    pub comment: Option<Seq<char>>,
}

impl View for PgColumnRow {
    type V = PgColumnRowV;

    open spec fn view(&self) -> PgColumnRowV {
        PgColumnRowV {
            schema: self.schema@,
            table: self.table@,
            column_name: self.column_name@,
            data_type: self.data_type@,
            character_maximum_length: self.character_maximum_length,
            position: self.position,
            default_value: self.default_value.deep_view(),
            is_nullable: self.is_nullable@,
            collation: self.collation.deep_view(),
            udt_schema: self.udt_schema.deep_view(),
            udt_name: self.udt_name.deep_view(),
            identity_generation: self.identity_generation.deep_view(),
            comment: self.comment.deep_view(),
        }
    }
}

impl DeepView for PgColumnRow {
    type V = PgColumnRowV;

    open spec fn deep_view(&self) -> PgColumnRowV {
        self.view()
    }
}

/// One row of the index catalog query: one whole index with its definition.
#[derive(Debug)]
pub struct PgIndexRow {
    pub schema: String,
    pub table: String,
    pub index_name: String,
    pub index_def: String,
    /// 1 when the index backs the primary key; anything else means not.
    pub is_primary: Option<i32>,
    pub comment: Option<String>,
}

/// Ghost mirror of [`PgIndexRow`].
pub ghost struct PgIndexRowV {
    pub schema: Seq<char>,
    pub table: Seq<char>,
    pub index_name: Seq<char>,
    pub index_def: Seq<char>,
    pub is_primary: Option<i32>,
    pub comment: Option<Seq<char>>,
}

impl View for PgIndexRow {
    type V = PgIndexRowV;

    open spec fn view(&self) -> PgIndexRowV {
        PgIndexRowV {
            schema: self.schema@,
            table: self.table@,
            index_name: self.index_name@,
            index_def: self.index_def@,
            is_primary: self.is_primary,
            comment: self.comment.deep_view(),
        }
    }
}

impl DeepView for PgIndexRow {
    type V = PgIndexRowV;

    open spec fn deep_view(&self) -> PgIndexRowV {
        self.view()
    }
}

/// One row of the table catalog query, ordered by schema and table.
#[derive(Debug)]
pub struct PgTableRow {
    pub schema: String,
    pub table: String,
    pub data_size: i64,
    pub index_size: i64,
    pub row_count: i64,
    pub comment: Option<String>,
    pub owner: String,
}

/// Ghost mirror of [`PgTableRow`].
pub ghost struct PgTableRowV {
    pub schema: Seq<char>,
    pub table: Seq<char>,
    pub data_size: i64,
    pub index_size: i64,
    pub row_count: i64,
    pub comment: Option<Seq<char>>,
    pub owner: Seq<char>,
}

impl View for PgTableRow {
    type V = PgTableRowV;

    open spec fn view(&self) -> PgTableRowV {
        PgTableRowV {
            schema: self.schema@,
            table: self.table@,
            data_size: self.data_size,
            index_size: self.index_size,
            row_count: self.row_count,
            comment: self.comment.deep_view(),
            owner: self.owner@,
        }
    }
}

impl DeepView for PgTableRow {
    type V = PgTableRowV;

    open spec fn deep_view(&self) -> PgTableRowV {
        self.view()
    }
}

/// One row of the views catalog query.
#[derive(Debug)]
pub struct PgViewRow {
    pub schema: String,
    pub view_name: String,
    pub definition: String,
    pub comment: Option<String>,
}

/// Ghost mirror of [`PgViewRow`].
pub ghost struct PgViewRowV {
    pub schema: Seq<char>,
    pub view_name: Seq<char>,
    pub definition: Seq<char>,
    pub comment: Option<Seq<char>>,
}

impl View for PgViewRow {
    type V = PgViewRowV;

    open spec fn view(&self) -> PgViewRowV {
        PgViewRowV {
            schema: self.schema@,
            view_name: self.view_name@,
            definition: self.definition@,
            comment: self.comment.deep_view(),
        }
    }
}

impl DeepView for PgViewRow {
    type V = PgViewRowV;

    open spec fn deep_view(&self) -> PgViewRowV {
        self.view()
    }
}

/// One row of the materialized-views catalog query.
#[derive(Debug)]
pub struct PgMatViewRow {
    pub schema: String,
    pub matview_name: String,
    pub definition: String,
    pub comment: Option<String>,
}

/// Ghost mirror of [`PgMatViewRow`].
pub ghost struct PgMatViewRowV {
    pub schema: Seq<char>,
    pub matview_name: Seq<char>,
    pub definition: Seq<char>,
    pub comment: Option<Seq<char>>,
}

impl View for PgMatViewRow {
    type V = PgMatViewRowV;

    open spec fn view(&self) -> PgMatViewRowV {
        PgMatViewRowV {
            schema: self.schema@,
            matview_name: self.matview_name@,
            definition: self.definition@,
            comment: self.comment.deep_view(),
        }
    }
}

impl DeepView for PgMatViewRow {
    type V = PgMatViewRowV;

    open spec fn deep_view(&self) -> PgMatViewRowV {
        self.view()
    }
}

/// The raw numeric server version is a non-empty digit string within the
/// machine range.
pub open spec fn pg_version_num_ok(s: Seq<char>) -> bool {
    s.len() > 0 && all_digits(s) && seq_num(s) <= i64::MAX
}

/// The dotted triplet a numeric server version denotes: major, minor and
/// patch are its decimal digit groups.
pub open spec fn pg_version_string(v: nat) -> Seq<char> {
    dec_rep(v / 10000) + seq!['.'] + dec_rep((v / 100) % 100) + seq!['.'] + dec_rep(v % 100)
}

/// Format a raw numeric server version (e.g. `140005`) as the dotted
/// triplet it denotes (e.g. `14.0.5`). Anything but a digit string within
/// the machine range is an unrecognized-data error.
pub fn pg_version_from_num(raw: &str) -> (r: Result<String, DBError>)
    ensures
        r is Ok <==> pg_version_num_ok(raw@),
        r matches Ok(s) ==> s@ == pg_version_string(seq_num(raw@)),
        r matches Err(e) ==> e@ == ErrorV::Unknow("PG VERSION ERROR:"@ + raw@),
{
    let len = raw.unicode_len();
    let e = digit_run_end_exec(raw, 0);
    proof {
        lemma_digit_run_end(raw@, 0);
    }
    if len == 0 || e != len {
        let mut m = String::from_str("PG VERSION ERROR:");
        m.append(raw);
        return Err(DBError::Unknow(m));
    }
    let v = match parse_u64_digits(raw, 0, len) {
        Some(v) => v,
        None => {
            let mut m = String::from_str("PG VERSION ERROR:");
            m.append(raw);
            proof {
                assert(raw@.subrange(0, len as int) =~= raw@);
            }
            return Err(DBError::Unknow(m));
        },
    };
    proof {
        assert(raw@.subrange(0, len as int) =~= raw@);
    }
    if v > 9223372036854775807u64 {
        let mut m = String::from_str("PG VERSION ERROR:");
        m.append(raw);
        return Err(DBError::Unknow(m));
    }
    let major = v / 10000;
    let minor = (v / 100) % 100;
    let patch = v % 100;
    let mut out = String::new();
    push_u64_dec(major, &mut out);
    out.append(".");
    push_u64_dec(minor, &mut out);
    out.append(".");
    push_u64_dec(patch, &mut out);
    proof {
        reveal_strlit(".");
        assert("."@ =~= seq!['.']);
        assert(out@ =~= pg_version_string(v as nat));
    }
    Ok(out)
}

/// Is `c` an ASCII word character (letter, digit or underscore)?
pub open spec fn is_word_char(c: char) -> bool {
    ||| 97 <= c as u32 <= 122
    ||| 65 <= c as u32 <= 90
    ||| 48 <= c as u32 <= 57
    ||| c as u32 == 95
}

/// The end of the run of ASCII word characters starting at `from`.
pub open spec fn word_run_end(s: Seq<char>, from: int) -> int
    decreases s.len() - from,
    when 0 <= from <= s.len()
{
    if from >= s.len() {
        s.len() as int
    } else if !is_word_char(s[from]) {
        from
    } else {
        word_run_end(s, from + 1)
    }
}

/// The end of the run of ASCII word characters starting at `from`.
fn word_run_end_exec(s: &str, from: usize) -> (r: usize)
    requires
        from <= s@.len(),
    ensures
        r == word_run_end(s@, from as int),
{
    let len = s.unicode_len();
    let mut i = from;
    while i < len
        invariant
            from <= i <= len,
            len == s@.len(),
            word_run_end(s@, from as int) == word_run_end(s@, i as int),
        decreases len - i,
    {
        let u = s.get_char(i) as u32;
        if !((97 <= u && u <= 122) || (65 <= u && u <= 90) || (48 <= u && u <= 57) || u == 95) {
            return i;
        }
        i += 1;
    }
    i
}

/// The characterization of [`word_run_end`].
proof fn lemma_word_run_end(s: Seq<char>, from: int)
    requires
        0 <= from <= s.len(),
    ensures
        from <= word_run_end(s, from) <= s.len(),
        forall|j: int| from <= j < word_run_end(s, from) ==> is_word_char(#[trigger] s[j]),
        word_run_end(s, from) < s.len() ==> !is_word_char(s[word_run_end(s, from)]),
    decreases s.len() - from,
{
    if from < s.len() && is_word_char(s[from]) {
        lemma_word_run_end(s, from + 1);
    }
}

/// A complete `USING <word> ` clause starts at position `i` of `s`.
pub open spec fn using_match_at(s: Seq<char>, i: int) -> bool {
    let e = word_run_end(s, i + "USING "@.len());
    &&& match_at(s, "USING "@, i)
    &&& e > i + "USING "@.len()
    &&& e < s.len()
    &&& s[e] == ' '
}

/// The first position at or after `i` where a complete `USING <word> `
/// clause starts, or -1 if there is none.
pub open spec fn find_using_from(s: Seq<char>, i: int) -> int
    decreases s.len() - i,
    when 0 <= i <= s.len()
{
    if i >= s.len() {
        -1
    } else if using_match_at(s, i) {
        i
    } else {
        find_using_from(s, i + 1)
    }
}

/// The characterization of [`find_using_from`]: the least match position at
/// or after `i`, or -1 when no position matches.
proof fn lemma_find_using_from(s: Seq<char>, i: int)
    requires
        0 <= i <= s.len(),
    ensures
        find_using_from(s, i) == -1 || i <= find_using_from(s, i) < s.len(),
        find_using_from(s, i) == -1 ==> forall|j: int| i <= j < s.len() ==> !using_match_at(s, j),
        find_using_from(s, i) >= 0 ==> using_match_at(s, find_using_from(s, i)) && forall|j: int|
            i <= j < find_using_from(s, i) ==> !using_match_at(s, j),
    decreases s.len() - i,
{
    if i < s.len() && !using_match_at(s, i) {
        lemma_find_using_from(s, i + 1);
    }
}

/// The access method named by the first complete `USING <word> ` clause of
/// an index definition, if any.
pub open spec fn index_method_of(s: Seq<char>) -> Option<Seq<char>> {
    let f = find_using_from(s, 0);
    if f >= 0 {
        Some(s.subrange(f + "USING "@.len(), word_run_end(s, f + "USING "@.len())))
    } else {
        None
    }
}

/// Extract the index access method from an index definition's `USING`
/// clause, if one is present.
pub fn get_index_method_type(stmt: &str) -> (r: Option<String>)
    ensures
        r is Some <==> index_method_of(stmt@) is Some,
        r matches Some(m) ==> Some(m@) == index_method_of(stmt@),
{
    let len = stmt.unicode_len();
    let pl = "USING ".unicode_len();
    let mut i: usize = 0;
    while i < len
        invariant
            len == stmt@.len(),
            pl == "USING "@.len(),
            i <= len,
            forall|j: int| 0 <= j < i ==> !using_match_at(stmt@, j),
        decreases len - i,
    {
        if match_at_exec(stmt, "USING ", i) {
            let start = i + pl;
            let e = word_run_end_exec(stmt, start);
            proof {
                lemma_word_run_end(stmt@, start as int);
            }
            if e > start && e < len {
                let c = stmt.get_char(e);
                if c == ' ' {
                    proof {
                        assert(using_match_at(stmt@, i as int));
                        lemma_find_using_from(stmt@, 0);
                        let f = find_using_from(stmt@, 0);
                        if f == -1 {
                            assert(!using_match_at(stmt@, i as int));
                        } else if 0 <= f < i as int {
                            assert(!using_match_at(stmt@, f));
                        } else if f > i as int {
                            assert(!using_match_at(stmt@, i as int));
                        }
                        assert(f == i as int);
                    }
                    return Some(String::from_str(stmt.substring_char(start, e)));
                }
            }
            proof {
                assert(!using_match_at(stmt@, i as int));
            }
        }
        i += 1;
    }
    proof {
        lemma_find_using_from(stmt@, 0);
    }
    None
}

/// The contained sequence, or the empty sequence for `None`.
pub open spec fn or_empty(o: Option<Seq<char>>) -> Seq<char> {
    match o {
        Option::Some(s) => s,
        Option::None => Seq::empty(),
    }
}

/// The normalized column type string: user-defined types are qualified by
/// their type schema; arrays keep the element type name; length-typed
/// character and bit types carry their maximum length; anything else is the
/// raw data type.
pub open spec fn pg_type_spec(
    dt: Seq<char>,
    us: Option<Seq<char>>,
    un: Option<Seq<char>>,
    cml: Option<i32>,
) -> Seq<char> {
    if dt == "USER-DEFINED"@ {
        or_empty(us) + seq!['.'] + or_empty(un)
    } else if dt == "ARRAY"@ {
        or_empty(un)
    } else if dt == "character"@ || dt == "character varying"@ || dt == "bit"@ || dt
        == "bit varying"@ {
        match cml {
            Option::Some(l) => dt + seq!['('] + i64_dec(l as int) + seq![')'],
            Option::None => dt,
        }
    } else {
        dt
    }
}

/// Normalize one column's raw catalog type fields into its type string.
pub fn pg_type_string(
    data_type: &str,
    udt_schema: &Option<String>,
    udt_name: &Option<String>,
    character_maximum_length: Option<i32>,
) -> (r: String)
    ensures
        r@ == pg_type_spec(
            data_type@,
            udt_schema.deep_view(),
            udt_name.deep_view(),
            character_maximum_length,
        ),
{
    if str_eq(data_type, "USER-DEFINED") {
        let mut m = match udt_schema {
            Some(s) => s.clone(),
            None => String::new(),
        };
        m.append(".");
        match udt_name {
            Some(n) => m.append(n.as_str()),
            None => (),
        }
        proof {
            reveal_strlit(".");
            assert(m@ =~= or_empty(udt_schema.deep_view()) + seq!['.'] + or_empty(
                udt_name.deep_view(),
            ));
        }
        m
    } else if str_eq(data_type, "ARRAY") {
        match udt_name {
            Some(n) => n.clone(),
            None => String::new(),
        }
    } else if str_eq(data_type, "character") || str_eq(data_type, "character varying") || str_eq(
        data_type,
        "bit",
    ) || str_eq(data_type, "bit varying") {
        match character_maximum_length {
            Some(l) => {
                let mut m = String::from_str(data_type);
                m.append("(");
                push_i64_dec(l as i64, &mut m);
                m.append(")");
                proof {
                    reveal_strlit("(");
                    reveal_strlit(")");
                    assert(m@ =~= data_type@ + seq!['('] + i64_dec(l as int) + seq![')']);
                }
                m
            },
            None => String::from_str(data_type),
        }
    } else {
        String::from_str(data_type)
    }
}

/// The database the engine itself defines, which an instance sync excludes.
pub open spec fn pg_system_database(name: Seq<char>) -> bool {
    name == "template0"@ || name == "template1"@
}

/// Is this one of the engine-defined template databases?
pub fn is_pg_system_database(name: &str) -> (r: bool)
    ensures
        r == pg_system_database(name@),
{
    str_eq(name, "template0") || str_eq(name, "template1")
}

/// The engine-defined schemas that every catalog query excludes.
pub fn pg_system_schemas() -> (r: Vec<String>)
    ensures
        r.deep_view() =~= seq!["pg_catalog"@, "pg_toast"@, "information_schema"@],
{
    let mut v: Vec<String> = Vec::new();
    v.push(String::from_str("pg_catalog"));
    v.push(String::from_str("pg_toast"));
    v.push(String::from_str("information_schema"));
    proof {
        assert(v.deep_view() =~= seq!["pg_catalog"@, "pg_toast"@, "information_schema"@]);
    }
    v
}


/// One group of items keyed by (schema, table), in arrival order.
#[derive(Debug)]
pub struct KeyedGroup<T> {
    pub schema: String,
    pub table: String,
    pub items: Vec<T>,
}

impl<T: DeepView> View for KeyedGroup<T> {
    type V = ((Seq<char>, Seq<char>), Seq<<T as DeepView>::V>);

    open spec fn view(&self) -> Self::V {
        ((self.schema@, self.table@), self.items.deep_view())
    }
}

impl<T: DeepView> DeepView for KeyedGroup<T> {
    type V = ((Seq<char>, Seq<char>), Seq<<T as DeepView>::V>);

    open spec fn deep_view(&self) -> Self::V {
        self.view()
    }
}

/// The first position whose pair key equals `key`, or -1 when none has it.
pub open spec fn find_key2<T>(
    groups: Seq<((Seq<char>, Seq<char>), T)>,
    key: (Seq<char>, Seq<char>),
) -> int
    decreases groups.len(),
{
    if groups.len() == 0 {
        -1
    } else if groups[0].0 == key {
        0
    } else {
        let r = find_key2(groups.drop_first(), key);
        if r < 0 {
            -1
        } else {
            r + 1
        }
    }
}

/// The characterization of [`find_key2`]: the least position holding `key`,
/// or -1 when no position does.
pub proof fn lemma_find_key2<T>(groups: Seq<((Seq<char>, Seq<char>), T)>, key: (Seq<char>, Seq<char>))
    ensures
        find_key2(groups, key) == -1 || 0 <= find_key2(groups, key) < groups.len(),
        find_key2(groups, key) == -1 ==> forall|i: int|
            0 <= i < groups.len() ==> (#[trigger] groups[i]).0 != key,
        find_key2(groups, key) >= 0 ==> groups[find_key2(groups, key)].0 == key && forall|i: int|
            0 <= i < find_key2(groups, key) ==> (#[trigger] groups[i]).0 != key,
    decreases groups.len(),
{
    if groups.len() > 0 && groups[0].0 != key {
        lemma_find_key2(groups.drop_first(), key);
        let r = find_key2(groups.drop_first(), key);
        if r >= 0 {
            assert(groups[r + 1] == groups.drop_first()[r]);
            assert forall|i: int| 0 <= i < r + 1 implies (#[trigger] groups[i]).0 != key by {
                if i >= 1 {
                    assert(groups[i] == groups.drop_first()[i - 1]);
                }
            }
        } else {
            assert forall|i: int| 0 <= i < groups.len() implies (#[trigger] groups[i]).0 != key by {
                if i >= 1 {
                    assert(groups[i] == groups.drop_first()[i - 1]);
                }
            }
        }
    }
}

/// Append `v` to the group keyed `key`, creating the group at the end when
/// none exists yet.
pub open spec fn upsert_push2<T>(
    groups: Seq<((Seq<char>, Seq<char>), Seq<T>)>,
    key: (Seq<char>, Seq<char>),
    v: T,
) -> Seq<((Seq<char>, Seq<char>), Seq<T>)> {
    let k = find_key2(groups, key);
    if k < 0 {
        groups.push((key, seq![v]))
    } else {
        groups.update(k, (key, groups[k].1.push(v)))
    }
}

/// Detach the payload keyed `key`: the payload (if any) and the remaining
/// groups, in their order.
pub open spec fn remove_key2<T>(
    groups: Seq<((Seq<char>, Seq<char>), T)>,
    key: (Seq<char>, Seq<char>),
) -> (Option<T>, Seq<((Seq<char>, Seq<char>), T)>) {
    let k = find_key2(groups, key);
    if k < 0 {
        (None, groups)
    } else {
        (Some(groups[k].1), groups.remove(k))
    }
}

/// The position of the group keyed (`schema`, `table`), if one exists.
pub fn find_group2<T: DeepView>(groups: &Vec<KeyedGroup<T>>, schema: &str, table: &str) -> (r:
    Option<usize>)
    ensures
        r matches Some(i) ==> i < groups.len() && find_key2(groups.deep_view(), (schema@, table@))
            == i as int,
        r is None ==> find_key2(groups.deep_view(), (schema@, table@)) == -1,
{
    let ghost dv = groups.deep_view();
    let ghost key = (schema@, table@);
    let mut i: usize = 0;
    while i < groups.len()
        invariant
            i <= groups.len(),
            dv == groups.deep_view(),
            dv.len() == groups.len(),
            key == (schema@, table@),
            forall|j: int| 0 <= j < i ==> (#[trigger] dv[j]).0 != key,
        decreases groups.len() - i,
    {
        if str_eq(groups[i].schema.as_str(), schema) && str_eq(groups[i].table.as_str(), table) {
            proof {
                assert(dv[i as int].0 == key);
                lemma_find_key2(dv, key);
                let f = find_key2(dv, key);
                if f == -1 {
                    assert(dv[i as int].0 != key);
                } else if 0 <= f < i as int {
                    assert(dv[f].0 != key);
                } else if f > i as int {
                    assert(dv[i as int].0 != key);
                }
                assert(f == i as int);
            }
            return Some(i);
        }
        i += 1;
    }
    proof {
        lemma_find_key2(dv, key);
        let f = find_key2(dv, key);
        if f >= 0 {
            assert(dv[f].0 != key);
        }
    }
    None
}

/// Append `item` to the group keyed (`schema`, `table`), creating the group
/// at the end when none exists yet.
pub fn push_item2<T: DeepView>(groups: &mut Vec<KeyedGroup<T>>, schema: &str, table: &str, item: T)
    ensures
        final(groups).deep_view() == upsert_push2(
            old(groups).deep_view(),
            (schema@, table@),
            item.deep_view(),
        ),
{
    let ghost dv0 = groups.deep_view();
    let ghost iv = item.deep_view();
    let ghost key = (schema@, table@);
    match find_group2(groups, schema, table) {
        Some(i) => {
            proof {
                lemma_find_key2(dv0, key);
            }
            let mut g = groups.remove(i);
            g.items.push(item);
            groups.insert(i, g);
            proof {
                assert(g.items.deep_view() =~= dv0[i as int].1.push(iv));
                assert(groups.deep_view() =~~= dv0.update(
                    i as int,
                    (key, dv0[i as int].1.push(iv)),
                ));
            }
        },
        None => {
            let mut items: Vec<T> = Vec::new();
            items.push(item);
            groups.push(
                KeyedGroup {
                    schema: String::from_str(schema),
                    table: String::from_str(table),
                    items,
                },
            );
            proof {
                assert(items.deep_view() =~= seq![iv]);
                assert(groups.deep_view() =~~= dv0.push((key, seq![iv])));
            }
        },
    }
}

/// Detach and return the items of the group keyed (`schema`, `table`), if
/// one exists.
pub fn remove_group2<T: DeepView>(groups: &mut Vec<KeyedGroup<T>>, schema: &str, table: &str) -> (r:
    Option<Vec<T>>)
    ensures
        r.deep_view() == remove_key2(old(groups).deep_view(), (schema@, table@)).0,
        final(groups).deep_view() == remove_key2(old(groups).deep_view(), (schema@, table@)).1,
{
    let ghost dv0 = groups.deep_view();
    match find_group2(groups, schema, table) {
        Some(i) => {
            let g = groups.remove(i);
            proof {
                assert(groups.deep_view() =~~= dv0.remove(i as int));
            }
            Some(g.items)
        },
        None => None,
    }
}


/// The identity-generation kind a raw catalog tag denotes.
pub open spec fn identity_of(o: Option<Seq<char>>) -> IdentityGeneration {
    match o {
        Option::Some(s) => if s == "ALWAYS"@ {
            IdentityGeneration::Always
        } else if s == "BY DEFAULT"@ {
            IdentityGeneration::ByDefault
        } else {
            IdentityGeneration::Unspecified
        },
        Option::None => IdentityGeneration::Unspecified,
    }
}

/// The column a catalog row denotes, given its decoded nullability: the raw
/// default text, when present, is kept as a literal default descriptor.
pub open spec fn pg_column_from_row(r: PgColumnRowV, nullable: bool) -> ColumnV {
    ColumnV {
        name: r.column_name,
        position: r.position,
        default: match r.default_value {
            Option::Some(d) => Some(DefaultV::Literal(d)),
            Option::None => None,
        },
        on_update: None,
        nullable: nullable,
        column_type: pg_type_spec(
            r.data_type,
            r.udt_schema,
            r.udt_name,
            r.character_maximum_length,
        ),
        character_set: Seq::empty(),
        collation: or_empty(r.collation),
        comment: or_empty(r.comment),
        identity_generation: identity_of(r.identity_generation),
    }
}

/// Fold column rows, in order, into per-(schema, table) column lists. The
/// first row whose nullability flag is not understood fails the whole fold.
pub open spec fn group_pg_columns(rows: Seq<PgColumnRowV>) -> Result<
    Seq<((Seq<char>, Seq<char>), Seq<ColumnV>)>,
    ErrorV,
>
    decreases rows.len(),
{
    if rows.len() == 0 {
        Ok(Seq::empty())
    } else {
        match group_pg_columns(rows.drop_last()) {
            Err(e) => Err(e),
            Ok(gs) => {
                let r = rows.last();
                match yes_no_spec(r.is_nullable) {
                    Option::None => Err(
                        ErrorV::Unknow("unrecognized isNullable type "@ + r.is_nullable),
                    ),
                    Option::Some(b) => Ok(
                        upsert_push2(gs, (r.schema, r.table), pg_column_from_row(r, b)),
                    ),
                }
            },
        }
    }
}

/// A failing prefix decides the whole fold.
proof fn lemma_group_pg_columns_err(rows: Seq<PgColumnRowV>, k: int)
    requires
        0 <= k <= rows.len(),
        group_pg_columns(rows.take(k)) is Err,
    ensures
        group_pg_columns(rows) == group_pg_columns(rows.take(k)),
    decreases rows.len() - k,
{
    if k < rows.len() {
        assert(rows.take(k + 1).drop_last() =~= rows.take(k));
        lemma_group_pg_columns_err(rows, k + 1);
    } else {
        assert(rows.take(k) =~= rows);
    }
}

/// Group column catalog rows by (schema, table), in row order, decoding
/// nullability and normalizing each column's type string on the way.
pub fn group_pg_column_rows(rows: &Vec<PgColumnRow>) -> (r: Result<
    Vec<KeyedGroup<ColumnMetadata>>,
    DBError,
>)
    ensures
        r matches Ok(gs) ==> group_pg_columns(rows.deep_view()) == Ok::<_, ErrorV>(gs.deep_view()),
        r matches Err(e) ==> group_pg_columns(rows.deep_view()) == Err::<
            Seq<((Seq<char>, Seq<char>), Seq<ColumnV>)>,
            _,
        >(e@),
{
    let ghost rv = rows.deep_view();
    let mut out: Vec<KeyedGroup<ColumnMetadata>> = Vec::new();
    let mut i: usize = 0;
    proof {
        assert(rv.take(0) =~= Seq::<PgColumnRowV>::empty());
        assert(out.deep_view() =~= Seq::<((Seq<char>, Seq<char>), Seq<ColumnV>)>::empty());
    }
    while i < rows.len()
        invariant
            i <= rows.len(),
            rv == rows.deep_view(),
            rv.len() == rows.len(),
            group_pg_columns(rv.take(i as int)) == Ok::<_, ErrorV>(out.deep_view()),
        decreases rows.len() - i,
    {
        let row = &rows[i];
        proof {
            assert(rv.take(i + 1).drop_last() =~= rv.take(i as int));
            assert(rv.take(i + 1).last() == rv[i as int]);
        }
        let nullable = match convert_yes_no(row.is_nullable.as_str()) {
            Ok(b) => b,
            Err(e) => {
                proof {
                    lemma_group_pg_columns_err(rv, i + 1);
                }
                return Err(e);
            },
        };
        let column_type = pg_type_string(
            row.data_type.as_str(),
            &row.udt_schema,
            &row.udt_name,
            row.character_maximum_length,
        );
        let default: Option<ColumnDefault> = match &row.default_value {
            Some(d) => Some(ColumnDefault::Literal(d.clone())),
            None => None,
        };
        let collation = match &row.collation {
            Some(c) => c.clone(),
            None => String::new(),
        };
        let comment = match &row.comment {
            Some(c) => c.clone(),
            None => String::new(),
        };
        let identity_generation = match &row.identity_generation {
            Some(s) => {
                if str_eq(s.as_str(), "ALWAYS") {
                    IdentityGeneration::Always
                } else if str_eq(s.as_str(), "BY DEFAULT") {
                    IdentityGeneration::ByDefault
                } else {
                    IdentityGeneration::Unspecified
                }
            },
            None => IdentityGeneration::Unspecified,
        };
        let col = ColumnMetadata {
            name: row.column_name.clone(),
            position: row.position,
            default,
            on_update: None,
            nullable,
            column_type,
            character_set: String::new(),
            collation,
            comment,
            identity_generation,
        };
        proof {
            assert(col@ == pg_column_from_row(rv[i as int], nullable));
        }
        push_item2(&mut out, row.schema.as_str(), row.table.as_str(), col);
        i += 1;
    }
    proof {
        assert(rv.take(rows.len() as int) =~= rv);
    }
    Ok(out)
}

/// The index a catalog row denotes: its access method is extracted from the
/// definition text, key parts are not itemized by this engine's view of the
/// catalog, and visibility is always on.
pub open spec fn pg_index_from_row(r: PgIndexRowV) -> IndexV {
    IndexV {
        name: r.index_name,
        expressions: Seq::empty(),
        key_length: Seq::empty(),
        index_type: or_empty(index_method_of(r.index_def)),
        unique: false,
        primary: r.is_primary == Some(1i32),
        visible: true,
        comment: or_empty(r.comment),
        definition: r.index_def,
    }
}

/// Fold index rows, in order, into per-(schema, table) index lists.
pub open spec fn group_pg_indexes(rows: Seq<PgIndexRowV>) -> Seq<
    ((Seq<char>, Seq<char>), Seq<IndexV>),
>
    decreases rows.len(),
{
    if rows.len() == 0 {
        Seq::empty()
    } else {
        let gs = group_pg_indexes(rows.drop_last());
        let r = rows.last();
        upsert_push2(gs, (r.schema, r.table), pg_index_from_row(r))
    }
}

/// Group index catalog rows by (schema, table), in row order.
pub fn group_pg_index_rows(rows: &Vec<PgIndexRow>) -> (r: Vec<KeyedGroup<IndexMetadata>>)
    ensures
        r.deep_view() == group_pg_indexes(rows.deep_view()),
{
    let ghost rv = rows.deep_view();
    let mut out: Vec<KeyedGroup<IndexMetadata>> = Vec::new();
    let mut i: usize = 0;
    proof {
        assert(rv.take(0) =~= Seq::<PgIndexRowV>::empty());
        assert(out.deep_view() =~= Seq::<((Seq<char>, Seq<char>), Seq<IndexV>)>::empty());
    }
    while i < rows.len()
        invariant
            i <= rows.len(),
            rv == rows.deep_view(),
            rv.len() == rows.len(),
            out.deep_view() == group_pg_indexes(rv.take(i as int)),
        decreases rows.len() - i,
    {
        let row = &rows[i];
        proof {
            assert(rv.take(i + 1).drop_last() =~= rv.take(i as int));
            assert(rv.take(i + 1).last() == rv[i as int]);
        }
        let index_type = match get_index_method_type(row.index_def.as_str()) {
            Some(m) => m,
            None => String::new(),
        };
        let comment = match &row.comment {
            Some(c) => c.clone(),
            None => String::new(),
        };
        let primary = match row.is_primary {
            Some(v) => v == 1,
            None => false,
        };
        let idx = IndexMetadata {
            name: row.index_name.clone(),
            expressions: Vec::new(),
            key_length: Vec::new(),
            index_type,
            unique: false,
            primary,
            visible: true,
            comment,
            definition: row.index_def.clone(),
        };
        proof {
            assert(idx.expressions.deep_view() =~= Seq::<Seq<char>>::empty());
            assert(idx.key_length@ =~= Seq::<i64>::empty());
            assert(idx@ == pg_index_from_row(rv[i as int]));
        }
        push_item2(&mut out, row.schema.as_str(), row.table.as_str(), idx);
        i += 1;
    }
    proof {
        assert(rv.take(rows.len() as int) =~= rv);
    }
    out
}

/// The table a catalog row denotes, with its detached column and index
/// groups attached; a table with no matching group keeps empty collections.
pub open spec fn pg_table_from_row(
    r: PgTableRowV,
    cols: Option<Seq<ColumnV>>,
    idxs: Option<Seq<IndexV>>,
) -> TableV {
    TableV {
        name: r.table,
        columns: match cols {
            Option::Some(c) => c,
            Option::None => Seq::empty(),
        },
        indexes: match idxs {
            Option::Some(x) => x,
            Option::None => Seq::empty(),
        },
        foreign_keys: Seq::empty(),
        engine: Seq::empty(),
        collation: None,
        row_count: r.row_count,
        data_size: r.data_size,
        index_size: r.index_size,
        data_free: 0,
        create_options: Seq::empty(),
        comment: or_empty(r.comment),
        owner: r.owner,
    }
}

/// Fold table rows, in order, into per-schema table groups, detaching each
/// table's column and index groups as it is built. The state is (per-schema
/// groups, remaining column groups, remaining index groups).
pub open spec fn pg_table_fold(
    rows: Seq<PgTableRowV>,
    cols: Seq<((Seq<char>, Seq<char>), Seq<ColumnV>)>,
    idxs: Seq<((Seq<char>, Seq<char>), Seq<IndexV>)>,
) -> (
    Seq<(Seq<char>, Seq<TableV>)>,
    Seq<((Seq<char>, Seq<char>), Seq<ColumnV>)>,
    Seq<((Seq<char>, Seq<char>), Seq<IndexV>)>,
)
    decreases rows.len(),
{
    if rows.len() == 0 {
        (Seq::empty(), cols, idxs)
    } else {
        let st = pg_table_fold(rows.drop_last(), cols, idxs);
        let r = rows.last();
        let rc = remove_key2(st.1, (r.schema, r.table));
        let ri = remove_key2(st.2, (r.schema, r.table));
        (upsert_push(st.0, r.schema, pg_table_from_row(r, rc.0, ri.0)), rc.1, ri.1)
    }
}

/// Build the per-schema table groups from the table catalog rows, detaching
/// each table's column and index groups from the given maps.
pub fn build_pg_tables(
    rows: &Vec<PgTableRow>,
    columns: Vec<KeyedGroup<ColumnMetadata>>,
    indexes: Vec<KeyedGroup<IndexMetadata>>,
) -> (r: Vec<Grouped<TableMetadata>>)
    ensures
        r.deep_view() == pg_table_fold(rows.deep_view(), columns.deep_view(), indexes.deep_view()).0,
{
    let ghost rv = rows.deep_view();
    let ghost cv0 = columns.deep_view();
    let ghost iv0 = indexes.deep_view();
    let mut columns = columns;
    let mut indexes = indexes;
    let mut out: Vec<Grouped<TableMetadata>> = Vec::new();
    let mut i: usize = 0;
    proof {
        assert(rv.take(0) =~= Seq::<PgTableRowV>::empty());
        assert(out.deep_view() =~= Seq::<(Seq<char>, Seq<TableV>)>::empty());
    }
    while i < rows.len()
        invariant
            i <= rows.len(),
            rv == rows.deep_view(),
            rv.len() == rows.len(),
            out.deep_view() == pg_table_fold(rv.take(i as int), cv0, iv0).0,
            columns.deep_view() == pg_table_fold(rv.take(i as int), cv0, iv0).1,
            indexes.deep_view() == pg_table_fold(rv.take(i as int), cv0, iv0).2,
        decreases rows.len() - i,
    {
        let row = &rows[i];
        proof {
            assert(rv.take(i + 1).drop_last() =~= rv.take(i as int));
            assert(rv.take(i + 1).last() == rv[i as int]);
        }
        let cols = remove_group2(&mut columns, row.schema.as_str(), row.table.as_str());
        let idxs = remove_group2(&mut indexes, row.schema.as_str(), row.table.as_str());
        let comment = match &row.comment {
            Some(c) => c.clone(),
            None => String::new(),
        };
        let columns_v: Vec<ColumnMetadata> = match cols {
            Some(c) => c,
            None => {
                let v: Vec<ColumnMetadata> = Vec::new();
                proof {
                    assert(v.deep_view() =~= Seq::<ColumnV>::empty());
                }
                v
            },
        };
        let indexes_v: Vec<IndexMetadata> = match idxs {
            Some(x) => x,
            None => {
                let v: Vec<IndexMetadata> = Vec::new();
                proof {
                    assert(v.deep_view() =~= Seq::<IndexV>::empty());
                }
                v
            },
        };
        let t = TableMetadata {
            name: row.table.clone(),
            columns: columns_v,
            indexes: indexes_v,
            foreign_keys: Vec::new(),
            engine: String::new(),
            collation: None,
            row_count: row.row_count,
            data_size: row.data_size,
            index_size: row.index_size,
            data_free: 0,
            create_options: String::new(),
            comment,
            owner: row.owner.clone(),
        };
        proof {
            assert(t.foreign_keys.deep_view() =~= Seq::<crate::store::FkV>::empty());
            assert(t@ == pg_table_from_row(
                rv[i as int],
                remove_key2(pg_table_fold(rv.take(i as int), cv0, iv0).1, (rv[i as int].schema, rv[i as int].table)).0,
                remove_key2(pg_table_fold(rv.take(i as int), cv0, iv0).2, (rv[i as int].schema, rv[i as int].table)).0,
            ));
        }
        push_item(&mut out, row.schema.as_str(), t);
        i += 1;
    }
    proof {
        assert(rv.take(rows.len() as int) =~= rv);
    }
    out
}


/// The view a catalog row denotes.
pub open spec fn pg_view_from_row(r: PgViewRowV) -> ViewV {
    ViewV {
        name: r.view_name,
        definition: r.definition,
        comment: or_empty(r.comment),
        dependent_columns: Seq::empty(),
    }
}

/// Fold view rows, in order, into per-schema view groups.
pub open spec fn group_pg_views(rows: Seq<PgViewRowV>) -> Seq<(Seq<char>, Seq<ViewV>)>
    decreases rows.len(),
{
    if rows.len() == 0 {
        Seq::empty()
    } else {
        let gs = group_pg_views(rows.drop_last());
        let r = rows.last();
        upsert_push(gs, r.schema, pg_view_from_row(r))
    }
}

/// Group view catalog rows by schema, in row order.
pub fn group_pg_view_rows(rows: &Vec<PgViewRow>) -> (r: Vec<Grouped<ViewMetadata>>)
    ensures
        r.deep_view() == group_pg_views(rows.deep_view()),
{
    let ghost rv = rows.deep_view();
    let mut out: Vec<Grouped<ViewMetadata>> = Vec::new();
    let mut i: usize = 0;
    proof {
        assert(rv.take(0) =~= Seq::<PgViewRowV>::empty());
        assert(out.deep_view() =~= Seq::<(Seq<char>, Seq<ViewV>)>::empty());
    }
    while i < rows.len()
        invariant
            i <= rows.len(),
            rv == rows.deep_view(),
            rv.len() == rows.len(),
            out.deep_view() == group_pg_views(rv.take(i as int)),
        decreases rows.len() - i,
    {
        let row = &rows[i];
        proof {
            assert(rv.take(i + 1).drop_last() =~= rv.take(i as int));
            assert(rv.take(i + 1).last() == rv[i as int]);
        }
        let comment = match &row.comment {
            Some(c) => c.clone(),
            None => String::new(),
        };
        let v = ViewMetadata {
            name: row.view_name.clone(),
            definition: row.definition.clone(),
            comment,
            dependent_columns: Vec::new(),
        };
        proof {
            assert(v.dependent_columns.deep_view() =~= Seq::<Seq<char>>::empty());
            assert(v@ == pg_view_from_row(rv[i as int]));
        }
        push_item(&mut out, row.schema.as_str(), v);
        i += 1;
    }
    proof {
        assert(rv.take(rows.len() as int) =~= rv);
    }
    out
}

/// The materialized view a catalog row denotes.
pub open spec fn pg_matview_from_row(r: PgMatViewRowV) -> MatViewV {
    MatViewV {
        name: r.matview_name,
        definition: r.definition,
        comment: or_empty(r.comment),
        dependent_columns: Seq::empty(),
    }
}

/// Fold materialized-view rows, in order, into per-schema groups.
pub open spec fn group_pg_matviews(rows: Seq<PgMatViewRowV>) -> Seq<(Seq<char>, Seq<MatViewV>)>
    decreases rows.len(),
{
    if rows.len() == 0 {
        Seq::empty()
    } else {
        let gs = group_pg_matviews(rows.drop_last());
        let r = rows.last();
        upsert_push(gs, r.schema, pg_matview_from_row(r))
    }
}

/// Group materialized-view catalog rows by schema, in row order.
pub fn group_pg_matview_rows(rows: &Vec<PgMatViewRow>) -> (r: Vec<
    Grouped<MaterializedViewMetadata>,
>)
    ensures
        r.deep_view() == group_pg_matviews(rows.deep_view()),
{
    let ghost rv = rows.deep_view();
    let mut out: Vec<Grouped<MaterializedViewMetadata>> = Vec::new();
    let mut i: usize = 0;
    proof {
        assert(rv.take(0) =~= Seq::<PgMatViewRowV>::empty());
        assert(out.deep_view() =~= Seq::<(Seq<char>, Seq<MatViewV>)>::empty());
    }
    while i < rows.len()
        invariant
            i <= rows.len(),
            rv == rows.deep_view(),
            rv.len() == rows.len(),
            out.deep_view() == group_pg_matviews(rv.take(i as int)),
        decreases rows.len() - i,
    {
        let row = &rows[i];
        proof {
            assert(rv.take(i + 1).drop_last() =~= rv.take(i as int));
            assert(rv.take(i + 1).last() == rv[i as int]);
        }
        let comment = match &row.comment {
            Some(c) => c.clone(),
            None => String::new(),
        };
        let v = MaterializedViewMetadata {
            name: row.matview_name.clone(),
            definition: row.definition.clone(),
            comment,
            dependent_columns: Vec::new(),
        };
        proof {
            assert(v.dependent_columns.deep_view() =~= Seq::<Seq<char>>::empty());
            assert(v@ == pg_matview_from_row(rv[i as int]));
        }
        push_item(&mut out, row.schema.as_str(), v);
        i += 1;
    }
    proof {
        assert(rv.take(rows.len() as int) =~= rv);
    }
    out
}

/// The schema a schema-listing row denotes, its comment defaulted.
pub open spec fn schema_info_from_row(r: PgSchemaRowV) -> SchemaInfoV {
    SchemaInfoV { name: r.name, owner: r.owner, comment: or_empty(r.comment) }
}

/// Map schema-listing rows to schema entries, row for row.
pub fn schemas_from_rows(rows: &Vec<PgSchemaRow>) -> (r: Vec<SchemaInfo>)
    ensures
        r.deep_view() == rows.deep_view().map_values(|x: PgSchemaRowV| schema_info_from_row(x)),
{
    let ghost rv = rows.deep_view();
    let mut out: Vec<SchemaInfo> = Vec::new();
    let mut i: usize = 0;
    while i < rows.len()
        invariant
            i <= rows.len(),
            rv == rows.deep_view(),
            rv.len() == rows.len(),
            out.deep_view() =~= rv.take(i as int).map_values(
                |x: PgSchemaRowV| schema_info_from_row(x),
            ),
        decreases rows.len() - i,
    {
        let ghost odv = out.deep_view();
        let row = &rows[i];
        let comment = match &row.comment {
            Some(c) => c.clone(),
            None => String::new(),
        };
        let si = SchemaInfo { name: row.name.clone(), owner: row.owner.clone(), comment };
        proof {
            assert(si@ == schema_info_from_row(rv[i as int]));
        }
        out.push(si);
        proof {
            assert(out.deep_view() =~= odv.push(schema_info_from_row(rv[i as int])));
            assert(rv.take(i + 1).map_values(|x: PgSchemaRowV| schema_info_from_row(x)) =~= rv.take(
                i as int,
            ).map_values(|x: PgSchemaRowV| schema_info_from_row(x)).push(
                schema_info_from_row(rv[i as int]),
            ));
        }
        i += 1;
    }
    proof {
        assert(rv.take(rows.len() as int) =~= rv);
    }
    out
}

/// The database a database-listing row denotes, its schemas not yet loaded.
pub open spec fn pg_database_from_row(r: PgDatabaseRowV) -> DatabaseV {
    DatabaseV {
        name: r.name,
        character_set: r.character_set,
        collation: r.collation,
        owner: r.owner,
        datashare: false,
        service_name: Seq::empty(),
        extensions: Seq::empty(),
        schemas: Seq::empty(),
    }
}

/// Map database-listing rows to shallow database entries, row for row.
pub fn pg_databases_from_rows(rows: &Vec<PgDatabaseRow>) -> (r: Vec<DatabaseSchemaMetadata>)
    ensures
        r.deep_view() == rows.deep_view().map_values(|x: PgDatabaseRowV| pg_database_from_row(x)),
{
    let ghost rv = rows.deep_view();
    let mut out: Vec<DatabaseSchemaMetadata> = Vec::new();
    let mut i: usize = 0;
    while i < rows.len()
        invariant
            i <= rows.len(),
            rv == rows.deep_view(),
            rv.len() == rows.len(),
            out.deep_view() =~= rv.take(i as int).map_values(
                |x: PgDatabaseRowV| pg_database_from_row(x),
            ),
        decreases rows.len() - i,
    {
        let ghost odv = out.deep_view();
        let row = &rows[i];
        let d = DatabaseSchemaMetadata {
            name: row.name.clone(),
            character_set: row.character_set.clone(),
            collation: row.collation.clone(),
            owner: row.owner.clone(),
            datashare: false,
            service_name: String::new(),
            extensions: Vec::new(),
            schemas: Vec::new(),
        };
        proof {
            assert(d.extensions.deep_view() =~= Seq::<Seq<char>>::empty());
            assert(d.schemas.deep_view() =~= Seq::<SchemaV>::empty());
            assert(d@ == pg_database_from_row(rv[i as int]));
        }
        out.push(d);
        proof {
            assert(out.deep_view() =~= odv.push(pg_database_from_row(rv[i as int])));
            assert(rv.take(i + 1).map_values(|x: PgDatabaseRowV| pg_database_from_row(x)) =~= rv
                .take(i as int).map_values(|x: PgDatabaseRowV| pg_database_from_row(x)).push(
                pg_database_from_row(rv[i as int]),
            ));
        }
        i += 1;
    }
    proof {
        assert(rv.take(rows.len() as int) =~= rv);
    }
    out
}

/// The database list with the engine-defined template databases removed, in
/// its original order.
pub open spec fn keep_user_databases(dbs: Seq<DatabaseV>) -> Seq<DatabaseV>
    decreases dbs.len(),
{
    if dbs.len() == 0 {
        Seq::empty()
    } else {
        let rest = keep_user_databases(dbs.drop_last());
        if pg_system_database(dbs.last().name) {
            rest
        } else {
            rest.push(dbs.last())
        }
    }
}

/// Compose the instance tree: the engine-defined template databases are
/// excluded from the database list before it is returned.
pub fn pg_compose_instance(version: String, databases: Vec<DatabaseSchemaMetadata>) -> (r:
    InstanceMetadata)
    ensures
        r@ == crate::compose::instance_spec(
            version@,
            keep_user_databases(databases.deep_view()),
        ),
{
    let ghost dv = databases.deep_view();
    let mut databases = databases;
    let mut kept: Vec<DatabaseSchemaMetadata> = Vec::new();
    let mut i: usize = 0;
    let n = databases.len();
    proof {
        assert(dv.take(0) =~= Seq::<DatabaseV>::empty());
        assert(kept.deep_view() =~= Seq::<DatabaseV>::empty());
        assert(dv.skip(0) =~= dv);
    }
    while i < n
        invariant
            i <= n,
            n == dv.len(),
            databases.len() == n - i,
            databases.deep_view() == dv.skip(i as int),
            kept.deep_view() == keep_user_databases(dv.take(i as int)),
        decreases n - i,
    {
        let ghost kdv = kept.deep_view();
        let ghost pre = databases@;
        let ghost predv = databases.deep_view();
        let d = databases.remove(0);
        proof {
            assert(databases@ =~= pre.drop_first());
            assert(d@ == predv[0]);
            assert(d@ == dv[i as int]);
            assert forall|k: int| 0 <= k < databases@.len() implies #[trigger] databases.deep_view()[k]
                == dv.skip(i + 1)[k] by {
                assert(databases@[k] == pre[k + 1]);
                assert(pre[k + 1].deep_view() == predv[k + 1]);
                assert(predv[k + 1] == dv.skip(i as int)[k + 1]);
                assert(dv.skip(i as int)[k + 1] == dv[i + 1 + k]);
            }
            assert(databases.deep_view() =~= dv.skip(i + 1));
            assert(dv.take(i + 1).drop_last() =~= dv.take(i as int));
            assert(dv.take(i + 1).last() == dv[i as int]);
        }
        if !is_pg_system_database(d.name.as_str()) {
            kept.push(d);
            proof {
                assert(kept.deep_view() =~= kdv.push(dv[i as int]));
            }
        }
        i += 1;
    }
    proof {
        assert(dv.take(n as int) =~= dv);
    }
    crate::compose::compose_instance(version, kept)
}

/// The first position of the database named `name`, or -1 when none has it.
pub open spec fn find_database(dbs: Seq<DatabaseV>, name: Seq<char>) -> int
    decreases dbs.len(),
{
    if dbs.len() == 0 {
        -1
    } else if dbs[0].name == name {
        0
    } else {
        let r = find_database(dbs.drop_first(), name);
        if r < 0 {
            -1
        } else {
            r + 1
        }
    }
}

/// The characterization of [`find_database`]: the least position whose
/// database is named `name`, or -1 when no position is.
pub proof fn lemma_find_database(dbs: Seq<DatabaseV>, name: Seq<char>)
    ensures
        find_database(dbs, name) == -1 || 0 <= find_database(dbs, name) < dbs.len(),
        find_database(dbs, name) == -1 ==> forall|i: int|
            0 <= i < dbs.len() ==> (#[trigger] dbs[i]).name != name,
        find_database(dbs, name) >= 0 ==> dbs[find_database(dbs, name)].name == name && forall|
            i: int,
        |
            0 <= i < find_database(dbs, name) ==> (#[trigger] dbs[i]).name != name,
    decreases dbs.len(),
{
    if dbs.len() > 0 && dbs[0].name != name {
        lemma_find_database(dbs.drop_first(), name);
        let r = find_database(dbs.drop_first(), name);
        if r >= 0 {
            assert(dbs[r + 1] == dbs.drop_first()[r]);
            assert forall|i: int| 0 <= i < r + 1 implies (#[trigger] dbs[i]).name != name by {
                if i >= 1 {
                    assert(dbs[i] == dbs.drop_first()[i - 1]);
                }
            }
        } else {
            assert forall|i: int| 0 <= i < dbs.len() implies (#[trigger] dbs[i]).name != name by {
                if i >= 1 {
                    assert(dbs[i] == dbs.drop_first()[i - 1]);
                }
            }
        }
    }
}

/// Pick the requested database out of the loaded list: the first entry of
/// that name. A name absent from the catalog is an argument error.
pub fn pg_find_database(databases: Vec<DatabaseSchemaMetadata>, name: &str) -> (r: Result<
    DatabaseSchemaMetadata,
    DBError,
>)
    ensures
        r is Ok <==> find_database(databases.deep_view(), name@) >= 0,
        r matches Ok(d) ==> d@ == databases.deep_view()[find_database(databases.deep_view(), name@)],
        r matches Err(e) ==> e@ == ErrorV::Args("Database '"@ + name@ + "' not found"@),
{
    let ghost dv = databases.deep_view();
    let mut databases = databases;
    let mut i: usize = 0;
    let n = databases.len();
    let mut found: usize = n;
    while i < n && found == n
        invariant
            i <= n,
            n == databases.len(),
            dv == databases.deep_view(),
            dv.len() == n,
            found <= n,
            found == n ==> forall|j: int| 0 <= j < i ==> (#[trigger] dv[j]).name != name@,
            found < n ==> dv[found as int].name == name@ && forall|j: int|
                0 <= j < found ==> (#[trigger] dv[j]).name != name@,
        decreases n - i,
    {
        if str_eq(databases[i].name.as_str(), name) {
            found = i;
        }
        i += 1;
    }
    proof {
        lemma_find_database(dv, name@);
    }
    if found < n {
        proof {
            let f = find_database(dv, name@);
            if f == -1 {
                assert(dv[found as int].name != name@);
            } else if 0 <= f < found as int {
                assert(dv[f].name != name@);
            } else if f > found as int {
                assert(dv[found as int].name != name@);
            }
            assert(f == found as int);
        }
        let d = databases.remove(found);
        Ok(d)
    } else {
        proof {
            let f = find_database(dv, name@);
            if f >= 0 {
                assert(dv[f].name != name@);
            }
        }
        let mut m = String::from_str("Database '");
        m.append(name);
        m.append("' not found");
        Err(DBError::Args(m))
    }
}

/// Fold the discovered schemas, in order, into schema subtrees, detaching
/// each schema's table, view and materialized-view groups as it is built.
/// The state is (schemas, remaining tables, remaining views, remaining
/// materialized views).
pub open spec fn pg_schema_fold(
    sis: Seq<SchemaInfoV>,
    ts: Seq<(Seq<char>, Seq<TableV>)>,
    vs: Seq<(Seq<char>, Seq<ViewV>)>,
    ms: Seq<(Seq<char>, Seq<MatViewV>)>,
) -> (
    Seq<SchemaV>,
    Seq<(Seq<char>, Seq<TableV>)>,
    Seq<(Seq<char>, Seq<ViewV>)>,
    Seq<(Seq<char>, Seq<MatViewV>)>,
)
    decreases sis.len(),
{
    if sis.len() == 0 {
        (Seq::empty(), ts, vs, ms)
    } else {
        let st = pg_schema_fold(sis.drop_last(), ts, vs, ms);
        let si = sis.last();
        let rt = remove_key(st.1, si.name);
        let rv = remove_key(st.2, si.name);
        let rm = remove_key(st.3, si.name);
        let schema = SchemaV {
            name: si.name,
            owner: si.owner,
            comment: si.comment,
            tables: match rt.0 {
                Option::Some(t) => t,
                Option::None => Seq::empty(),
            },
            views: match rv.0 {
                Option::Some(v) => v,
                Option::None => Seq::empty(),
            },
            materialized_views: match rm.0 {
                Option::Some(m) => m,
                Option::None => Seq::empty(),
            },
            functions: Seq::empty(),
            procedures: Seq::empty(),
            external_tables: Seq::empty(),
        };
        (st.0.push(schema), rt.1, rv.1, rm.1)
    }
}

/// The database tree one multi-schema sync composes: the found database with
/// every discovered schema's subtree appended.
pub open spec fn pg_database_spec(
    db: DatabaseV,
    sis: Seq<SchemaInfoV>,
    ts: Seq<(Seq<char>, Seq<TableV>)>,
    vs: Seq<(Seq<char>, Seq<ViewV>)>,
    ms: Seq<(Seq<char>, Seq<MatViewV>)>,
) -> DatabaseV {
    DatabaseV { schemas: db.schemas + pg_schema_fold(sis, ts, vs, ms).0, ..db }
}

/// Compose one multi-schema database tree: append to the found database one
/// subtree per discovered schema, each holding its detached table, view and
/// materialized-view groups.
pub fn pg_compose_database(
    database: DatabaseSchemaMetadata,
    schemas: Vec<SchemaInfo>,
    tables: Vec<Grouped<TableMetadata>>,
    views: Vec<Grouped<ViewMetadata>>,
    matviews: Vec<Grouped<MaterializedViewMetadata>>,
) -> (r: DatabaseSchemaMetadata)
    ensures
        r@ == pg_database_spec(
            database@,
            schemas.deep_view(),
            tables.deep_view(),
            views.deep_view(),
            matviews.deep_view(),
        ),
{
    let ghost dbv = database@;
    let ghost sv = schemas.deep_view();
    let ghost tv0 = tables.deep_view();
    let ghost vv0 = views.deep_view();
    let ghost mv0 = matviews.deep_view();
    let mut database = database;
    let mut schemas = schemas;
    let mut tables = tables;
    let mut views = views;
    let mut matviews = matviews;
    let ghost schemas0 = database.schemas.deep_view();
    let mut i: usize = 0;
    let n = schemas.len();
    proof {
        assert(sv.take(0) =~= Seq::<SchemaInfoV>::empty());
        assert(schemas0 + Seq::<SchemaV>::empty() =~= schemas0);
        assert(sv.skip(0) =~= sv);
    }
    while i < n
        invariant
            i <= n,
            n == sv.len(),
            schemas.len() == n - i,
            schemas.deep_view() == sv.skip(i as int),
            database.schemas.deep_view() == schemas0 + pg_schema_fold(
                sv.take(i as int),
                tv0,
                vv0,
                mv0,
            ).0,
            tables.deep_view() == pg_schema_fold(sv.take(i as int), tv0, vv0, mv0).1,
            views.deep_view() == pg_schema_fold(sv.take(i as int), tv0, vv0, mv0).2,
            matviews.deep_view() == pg_schema_fold(sv.take(i as int), tv0, vv0, mv0).3,
            database@ == (DatabaseV { schemas: database@.schemas, ..dbv }),
            schemas0 == dbv.schemas,
        decreases n - i,
    {
        let ghost pre = schemas@;
        let ghost predv = schemas.deep_view();
        let ghost sdv = database.schemas.deep_view();
        let si = schemas.remove(0);
        proof {
            assert(schemas@ =~= pre.drop_first());
            assert(si@ == predv[0]);
            assert(si@ == sv[i as int]);
            assert forall|k: int| 0 <= k < schemas@.len() implies #[trigger] schemas.deep_view()[k]
                == sv.skip(i + 1)[k] by {
                assert(schemas@[k] == pre[k + 1]);
                assert(pre[k + 1].deep_view() == predv[k + 1]);
                assert(predv[k + 1] == sv.skip(i as int)[k + 1]);
                assert(sv.skip(i as int)[k + 1] == sv[i + 1 + k]);
            }
            assert(schemas.deep_view() =~= sv.skip(i + 1));
            assert(sv.take(i + 1).drop_last() =~= sv.take(i as int));
            assert(sv.take(i + 1).last() == sv[i as int]);
        }
        let tables_in: Vec<TableMetadata> = match remove_group(&mut tables, si.name.as_str()) {
            Some(t) => t,
            None => {
                let v: Vec<TableMetadata> = Vec::new();
                proof {
                    assert(v.deep_view() =~= Seq::<TableV>::empty());
                }
                v
            },
        };
        let views_in: Vec<ViewMetadata> = match remove_group(&mut views, si.name.as_str()) {
            Some(v) => v,
            None => {
                let v: Vec<ViewMetadata> = Vec::new();
                proof {
                    assert(v.deep_view() =~= Seq::<ViewV>::empty());
                }
                v
            },
        };
        let matviews_in: Vec<MaterializedViewMetadata> = match remove_group(
            &mut matviews,
            si.name.as_str(),
        ) {
            Some(m) => m,
            None => {
                let v: Vec<MaterializedViewMetadata> = Vec::new();
                proof {
                    assert(v.deep_view() =~= Seq::<MatViewV>::empty());
                }
                v
            },
        };
        let schema = SchemaMetadata {
            name: si.name,
            owner: si.owner,
            comment: si.comment,
            tables: tables_in,
            views: views_in,
            materialized_views: matviews_in,
            functions: Vec::new(),
            procedures: Vec::new(),
            external_tables: Vec::new(),
        };
        proof {
            assert(schema.functions.deep_view() =~= Seq::<crate::store::FunctionV>::empty());
            assert(schema.procedures.deep_view() =~= Seq::<crate::store::ProcedureV>::empty());
            assert(schema.external_tables.deep_view() =~= Seq::<TableV>::empty());
        }
        let ghost schema_v = schema@;
        database.schemas.push(schema);
        proof {
            assert(database.schemas.deep_view() =~= sdv.push(schema_v));
            assert(sdv.push(schema_v) =~= schemas0 + pg_schema_fold(
                sv.take(i + 1),
                tv0,
                vv0,
                mv0,
            ).0);
        }
        i += 1;
    }
    proof {
        assert(sv.take(n as int) =~= sv);
    }
    database
}

} // verus!
