use dbmeta::assemble::{assemble_tables_and_views, group_column_rows, group_index_rows};
use dbmeta::compose::{compose_instance, databases_from_rows, mysql_compose_database};
use dbmeta::rows::{ColumnRow, IndexRow, SchemataRow, TableRow};
use dbmeta::store::{DatabaseSchemaMetadata, TableMetadata};

fn index_row(table: &str, index: &str, column: &str) -> IndexRow {
    IndexRow {
        table_name: String::from(table),
        index_name: String::from(index),
        column_name: Some(String::from(column)),
        sub_part: -1,
        expression: None,
        index_type: String::from("BTREE"),
        is_unique: 0,
        is_visible: 1,
        comment: String::new(),
    }
}

fn column_row(table: &str, name: &str, position: i32) -> ColumnRow {
    ColumnRow {
        table_name: String::from(table),
        column_name: String::from(name),
        position,
        default_value: None,
        is_nullable: String::from("NO"),
        column_type: String::from("int"),
        character_set: String::new(),
        collation: String::new(),
        comment: String::new(),
        extra: String::new(),
    }
}

fn table_row(name: &str, row_count: i64) -> TableRow {
    TableRow {
        table_name: String::from(name),
        table_type: String::from("BASE TABLE"),
        engine: String::from("InnoDB"),
        collation: Some(String::from("utf8mb4_bin")),
        row_count,
        data_size: 1024,
        index_size: 2048,
        data_free: 0,
        create_options: String::new(),
        comment: String::new(),
    }
}

fn compose_small(row_count: i64) -> DatabaseSchemaMetadata {
    let index_rows = vec![
        index_row("t", "zz_idx", "b"),
        index_row("t", "aa_idx", "a"),
    ];
    let column_rows = vec![column_row("t", "id", 1), column_row("t", "name", 2)];
    let table_rows = vec![table_row("t", row_count), table_row("empty", 0)];
    let indexes = group_index_rows(&index_rows);
    let columns = group_column_rows(&column_rows).unwrap();
    let (tables, views) = assemble_tables_and_views(&Vec::new(), &table_rows).unwrap();
    mysql_compose_database(
        "exp",
        String::from("utf8mb4"),
        String::from("utf8mb4_bin"),
        indexes,
        columns,
        Vec::new(),
        tables,
        views,
        Vec::new(),
        Vec::new(),
    )
}

#[test]
fn composed_database_shape() {
    let db = compose_small(7);
    assert_eq!(db.name, "exp");
    assert_eq!(db.character_set, "utf8mb4");
    assert_eq!(db.collation, "utf8mb4_bin");
    assert_eq!(db.schemas.len(), 1);
    let schema = &db.schemas[0];
    assert_eq!(schema.name, "");
    assert_eq!(schema.tables.len(), 2);
    let t = &schema.tables[1];
    assert_eq!(t.name, "empty");
    assert!(t.columns.is_empty());
    assert!(t.indexes.is_empty());
    assert!(t.foreign_keys.is_empty());
    let t = &schema.tables[0];
    assert_eq!(t.name, "t");
    assert_eq!(t.row_count, 7);
    assert_eq!(t.columns.len(), 2);
    assert_eq!(t.columns[0].name, "id");
    assert_eq!(t.columns[1].name, "name");
}

#[test]
fn composed_indexes_are_sorted_by_name() {
    let db = compose_small(0);
    let tables = &db.schemas[0].tables;
    let t: &TableMetadata = tables.iter().find(|t| t.name == "t").unwrap();
    assert_eq!(t.indexes.len(), 2);
    assert_eq!(t.indexes[0].name, "aa_idx");
    assert_eq!(t.indexes[1].name, "zz_idx");
}

#[test]
fn two_syncs_of_unchanged_rows_agree_modulo_volatile_fields() {
    let first = compose_small(100);
    let second = compose_small(250);
    assert_eq!(first.name, second.name);
    assert_eq!(first.schemas.len(), second.schemas.len());
    let (a, b) = (&first.schemas[0], &second.schemas[0]);
    assert_eq!(a.tables.len(), b.tables.len());
    for (ta, tb) in a.tables.iter().zip(b.tables.iter()) {
        assert_eq!(ta.name, tb.name);
        assert_eq!(ta.engine, tb.engine);
        assert_eq!(ta.collation, tb.collation);
        assert_eq!(ta.comment, tb.comment);
        assert_eq!(ta.columns.len(), tb.columns.len());
        for (ca, cb) in ta.columns.iter().zip(tb.columns.iter()) {
            assert_eq!(ca.name, cb.name);
            assert_eq!(ca.position, cb.position);
            assert_eq!(ca.column_type, cb.column_type);
        }
        assert_eq!(ta.indexes.len(), tb.indexes.len());
        for (ia, ib) in ta.indexes.iter().zip(tb.indexes.iter()) {
            assert_eq!(ia.name, ib.name);
            assert_eq!(ia.expressions, ib.expressions);
            assert_eq!(ia.key_length, ib.key_length);
        }
    }
    let t1 = first.schemas[0].tables.iter().find(|t| t.name == "t").unwrap().row_count;
    let t2 = second.schemas[0].tables.iter().find(|t| t.name == "t").unwrap().row_count;
    assert_eq!(t1, 100);
    assert_eq!(t2, 250);
}

#[test]
fn instance_composition() {
    let rows = vec![SchemataRow {
        name: String::from("exp"),
        character_set: String::from("utf8mb4"),
        collation: String::from("utf8mb4_bin"),
    }];
    let databases = databases_from_rows(&rows);
    assert_eq!(databases.len(), 1);
    assert_eq!(databases[0].name, "exp");
    assert_eq!(databases[0].character_set, "utf8mb4");
    let instance = compose_instance(String::from("8.0.32"), databases);
    assert_eq!(instance.version, "8.0.32");
    assert_eq!(instance.databases.len(), 1);
    assert!(instance.instance_roles.is_empty());
    assert_eq!(instance.last_sync, 0);
}
