use dbmeta::assemble::{
    assemble_tables_and_views, build_routines, find_column_index_ci, group_column_rows,
    group_foreign_key_rows, group_index_rows, routine_is_procedure,
};
use dbmeta::error::DBError;
use dbmeta::rows::{ColumnRow, FkRow, IndexRow, RoutineRow, TableRow, ViewRow};
use dbmeta::store::ColumnDefault;
use dbmeta::util::convert_yes_no;

fn index_row(table: &str, index: &str, column: &str) -> IndexRow {
    IndexRow {
        table_name: String::from(table),
        index_name: String::from(index),
        column_name: Some(String::from(column)),
        sub_part: -1,
        expression: None,
        index_type: String::from("BTREE"),
        is_unique: 0,
        is_visible: 1,
        comment: String::new(),
    }
}

#[test]
fn index_grouping_two_indexes() {
    let rows = vec![
        index_row("t", "idx_ab", "a"),
        index_row("t", "idx_ab", "b"),
        index_row("t", "idx_c", "c"),
    ];
    let groups = group_index_rows(&rows);
    assert_eq!(groups.len(), 1);
    assert_eq!(groups[0].key, "t");
    let indexes = &groups[0].items;
    assert_eq!(indexes.len(), 2);
    assert_eq!(indexes[0].name, "idx_ab");
    assert_eq!(indexes[0].expressions, vec!["a", "b"]);
    assert_eq!(indexes[1].name, "idx_c");
    assert_eq!(indexes[1].expressions, vec!["c"]);
}

#[test]
fn index_part_arrays_stay_parallel() {
    let mut rows = vec![
        index_row("t", "idx_ab", "a"),
        index_row("t", "idx_ab", "b"),
        index_row("u", "idx_c", "c"),
    ];
    rows[0].sub_part = 10;
    let groups = group_index_rows(&rows);
    for g in &groups {
        for idx in &g.items {
            assert_eq!(idx.expressions.len(), idx.key_length.len());
        }
    }
    assert_eq!(groups[0].items[0].key_length, vec![10, -1]);
}

#[test]
fn index_expression_fallbacks() {
    let mut functional = index_row("t", "f_idx", "unused");
    functional.column_name = None;
    functional.expression = Some(String::from("lower(`name`)"));
    let mut bare = index_row("t", "b_idx", "unused");
    bare.column_name = None;
    bare.expression = None;
    let rows = vec![functional, bare];
    let groups = group_index_rows(&rows);
    assert_eq!(groups[0].items[0].expressions, vec!["(lower(`name`))"]);
    assert_eq!(groups[0].items[1].expressions, vec![""]);
}

#[test]
fn index_primary_and_unique_flags() {
    let mut primary = index_row("t", "PRIMARY", "id");
    primary.is_unique = 1;
    let rows = vec![primary, index_row("t", "idx", "a")];
    let groups = group_index_rows(&rows);
    assert!(groups[0].items[0].primary);
    assert!(groups[0].items[0].unique);
    assert!(!groups[0].items[1].primary);
    assert!(!groups[0].items[1].unique);
}

fn fk_row(table: &str, fk: &str, col: &str, ref_col: &str) -> FkRow {
    FkRow {
        table_name: String::from(table),
        constraint_name: String::from(fk),
        column_name: String::from(col),
        referenced_table: String::from("r"),
        referenced_column: String::from(ref_col),
        on_delete: String::from("CASCADE"),
        on_update: String::from("NO ACTION"),
        match_option: String::from("NONE"),
    }
}

#[test]
fn foreign_key_grouping_two_constraints() {
    let rows = vec![
        fk_row("t1", "fk1", "col1", "r1"),
        fk_row("t1", "fk1", "col2", "r2"),
        fk_row("t2", "fk2", "col3", "r3"),
    ];
    let groups = group_foreign_key_rows(&rows);
    assert_eq!(groups.len(), 2);
    assert_eq!(groups[0].key, "t1");
    assert_eq!(groups[0].items.len(), 1);
    assert_eq!(groups[0].items[0].name, "fk1");
    assert_eq!(groups[0].items[0].columns, vec!["col1", "col2"]);
    assert_eq!(groups[0].items[0].referenced_columns, vec!["r1", "r2"]);
    assert_eq!(groups[1].key, "t2");
    assert_eq!(groups[1].items[0].name, "fk2");
    assert_eq!(groups[1].items[0].columns, vec!["col3"]);
    assert_eq!(groups[1].items[0].referenced_columns, vec!["r3"]);
}

#[test]
fn foreign_key_columns_stay_aligned() {
    let rows = vec![
        fk_row("t", "fk", "a", "x"),
        fk_row("t", "fk", "b", "y"),
        fk_row("t", "fk2", "c", "z"),
    ];
    let groups = group_foreign_key_rows(&rows);
    for g in &groups {
        for fk in &g.items {
            assert_eq!(fk.columns.len(), fk.referenced_columns.len());
            assert!(fk.columns.len() >= 1);
        }
    }
}

#[test]
fn foreign_key_same_name_on_other_table_starts_anew() {
    let rows = vec![fk_row("t1", "fk", "a", "x"), fk_row("t2", "fk", "b", "y")];
    let groups = group_foreign_key_rows(&rows);
    assert_eq!(groups.len(), 2);
    assert_eq!(groups[0].items[0].columns, vec!["a"]);
    assert_eq!(groups[1].items[0].columns, vec!["b"]);
}

fn column_row(table: &str, name: &str, position: i32, nullable: &str) -> ColumnRow {
    ColumnRow {
        table_name: String::from(table),
        column_name: String::from(name),
        position,
        default_value: None,
        is_nullable: String::from(nullable),
        column_type: String::from("int"),
        character_set: String::new(),
        collation: String::new(),
        comment: String::new(),
        extra: String::new(),
    }
}

#[test]
fn column_grouping_by_table() {
    let rows = vec![
        column_row("a", "id", 1, "NO"),
        column_row("a", "name", 2, "YES"),
        column_row("b", "id", 1, "NO"),
    ];
    let groups = group_column_rows(&rows).unwrap();
    assert_eq!(groups.len(), 2);
    assert_eq!(groups[0].key, "a");
    assert_eq!(groups[0].items.len(), 2);
    assert_eq!(groups[0].items[0].name, "id");
    assert!(!groups[0].items[0].nullable);
    assert!(groups[0].items[0].default.is_none());
    assert_eq!(groups[0].items[1].name, "name");
    assert!(groups[0].items[1].nullable);
    assert!(matches!(groups[0].items[1].default, Some(ColumnDefault::Null)));
    assert_eq!(groups[1].key, "b");
}

#[test]
fn column_grouping_rejects_bad_nullability() {
    let rows = vec![column_row("a", "id", 1, "maybe")];
    let err = group_column_rows(&rows).unwrap_err();
    match err {
        DBError::Unknow(m) => assert_eq!(m, "unrecognized isNullable type maybe"),
        _ => panic!("expected an unrecognized-data error"),
    }
}

#[test]
fn yes_no_conversions() {
    assert!(convert_yes_no("YES").unwrap());
    assert!(convert_yes_no("Y").unwrap());
    assert!(convert_yes_no("1").unwrap());
    assert!(!convert_yes_no("NO").unwrap());
    assert!(!convert_yes_no("N").unwrap());
    assert!(!convert_yes_no("0").unwrap());
    assert!(convert_yes_no("yes").is_err());
}

fn table_row(name: &str, table_type: &str, comment: &str) -> TableRow {
    TableRow {
        table_name: String::from(name),
        table_type: String::from(table_type),
        engine: String::from("InnoDB"),
        collation: None,
        row_count: 0,
        data_size: 0,
        index_size: 0,
        data_free: 0,
        create_options: String::new(),
        comment: String::from(comment),
    }
}

#[test]
fn tables_and_views_are_routed_by_tag() {
    let view_rows = vec![ViewRow {
        view_name: String::from("v1"),
        definition: String::from("select 1"),
    }];
    let table_rows = vec![
        table_row("t1", "BASE TABLE", "a table"),
        table_row("v1", "VIEW", "a view"),
    ];
    let (tables, views) = assemble_tables_and_views(&view_rows, &table_rows).unwrap();
    assert_eq!(tables.len(), 1);
    assert_eq!(tables[0].name, "t1");
    assert_eq!(tables[0].comment, "a table");
    assert_eq!(views.len(), 1);
    assert_eq!(views[0].name, "v1");
    assert_eq!(views[0].definition, "select 1");
    assert_eq!(views[0].comment, "a view");
}

#[test]
fn unknown_table_type_fails_whole_sync() {
    let table_rows = vec![
        table_row("t1", "BASE TABLE", ""),
        table_row("x", "SYSTEM VERSIONED", ""),
        table_row("t2", "BASE TABLE", ""),
    ];
    let err = assemble_tables_and_views(&Vec::new(), &table_rows).unwrap_err();
    match err {
        DBError::Unknow(m) => assert_eq!(m, "Unexpected table_type SYSTEM VERSIONED"),
        _ => panic!("expected an unrecognized-data error"),
    }
}

#[test]
fn view_without_tables_row_keeps_empty_comment() {
    let view_rows = vec![ViewRow {
        view_name: String::from("v"),
        definition: String::from("select 2"),
    }];
    let (tables, views) = assemble_tables_and_views(&view_rows, &Vec::new()).unwrap();
    assert!(tables.is_empty());
    assert_eq!(views[0].comment, "");
}

#[test]
fn routine_split_keeps_order() {
    let rows = vec![
        RoutineRow {
            name: String::from("f1"),
            routine_type: String::from("FUNCTION"),
            definition: String::from("create function f1"),
        },
        RoutineRow {
            name: String::from("p1"),
            routine_type: String::from("procedure"),
            definition: String::from("create procedure p1"),
        },
        RoutineRow {
            name: String::from("f2"),
            routine_type: String::from("FUNCTION"),
            definition: String::from("create function f2"),
        },
    ];
    let (functions, procedures) = build_routines(&rows);
    assert_eq!(functions.len(), 2);
    assert_eq!(functions[0].name, "f1");
    assert_eq!(functions[1].name, "f2");
    assert_eq!(procedures.len(), 1);
    assert_eq!(procedures[0].name, "p1");
    assert_eq!(procedures[0].definition, "create procedure p1");
}

#[test]
fn routine_tag_is_case_insensitive() {
    assert!(routine_is_procedure("PROCEDURE"));
    assert!(routine_is_procedure("Procedure"));
    assert!(!routine_is_procedure("FUNCTION"));
}

#[test]
fn result_column_lookup_is_case_insensitive() {
    let names = vec![String::from("Db"), String::from("Create Function")];
    assert_eq!(find_column_index_ci(&names, "create function").unwrap(), 1);
    let err = find_column_index_ci(&names, "Create Procedure").unwrap_err();
    match err {
        DBError::Unknow(m) => assert_eq!(m, "Not Find Create Procedure Failed"),
        _ => panic!("expected an unrecognized-data error"),
    }
}
