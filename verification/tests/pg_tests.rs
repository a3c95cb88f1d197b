use dbmeta::error::DBError;
use dbmeta::pg::{
    build_pg_tables, get_index_method_type, group_pg_column_rows, group_pg_index_rows,
    group_pg_matview_rows, group_pg_view_rows, is_pg_system_database, pg_compose_database,
    pg_compose_instance, pg_databases_from_rows, pg_find_database, pg_system_schemas,
    pg_type_string, pg_version_from_num, schemas_from_rows, PgColumnRow, PgDatabaseRow,
    PgIndexRow, PgMatViewRow, PgSchemaRow, PgTableRow, PgViewRow,
};
use dbmeta::store::{ColumnDefault, IdentityGeneration};

#[test]
fn version_number_formatting() {
    assert_eq!(pg_version_from_num("140005").unwrap(), "14.0.5");
    assert_eq!(pg_version_from_num("90624").unwrap(), "9.6.24");
    assert_eq!(pg_version_from_num("160000").unwrap(), "16.0.0");
}

#[test]
fn version_number_rejects_non_digits() {
    let err = pg_version_from_num("fourteen").unwrap_err();
    match err {
        DBError::Unknow(m) => assert_eq!(m, "PG VERSION ERROR:fourteen"),
        _ => panic!("expected an unrecognized-data error"),
    }
    assert!(pg_version_from_num("").is_err());
    assert!(pg_version_from_num("14.5").is_err());
}

#[test]
fn index_method_extraction() {
    assert_eq!(
        get_index_method_type("CREATE INDEX i ON t USING btree (c)").unwrap(),
        "btree"
    );
    assert_eq!(
        get_index_method_type("CREATE UNIQUE INDEX u ON s.t USING gin (doc)").unwrap(),
        "gin"
    );
    assert!(get_index_method_type("CREATE INDEX plain ON t (c)").is_none());
}

#[test]
fn type_string_normalization() {
    assert_eq!(
        pg_type_string(
            "USER-DEFINED",
            &Some(String::from("public")),
            &Some(String::from("mood")),
            None
        ),
        "public.mood"
    );
    assert_eq!(pg_type_string("ARRAY", &None, &Some(String::from("_int4")), None), "_int4");
    assert_eq!(
        pg_type_string("character varying", &None, &None, Some(255)),
        "character varying(255)"
    );
    assert_eq!(pg_type_string("character", &None, &None, None), "character");
    assert_eq!(pg_type_string("integer", &None, &None, Some(4)), "integer");
}

fn pg_column_row(schema: &str, table: &str, name: &str, position: i32) -> PgColumnRow {
    PgColumnRow {
        schema: String::from(schema),
        table: String::from(table),
        column_name: String::from(name),
        data_type: String::from("integer"),
        character_maximum_length: None,
        position,
        default_value: None,
        is_nullable: String::from("YES"),
        collation: None,
        udt_schema: None,
        udt_name: None,
        identity_generation: None,
        comment: None,
    }
}

#[test]
fn pg_column_grouping_by_schema_and_table() {
    let mut r1 = pg_column_row("public", "t", "id", 1);
    r1.identity_generation = Some(String::from("ALWAYS"));
    r1.is_nullable = String::from("NO");
    let mut r2 = pg_column_row("public", "t", "v", 2);
    r2.default_value = Some(String::from("0"));
    let r3 = pg_column_row("audit", "t", "id", 1);
    let groups = group_pg_column_rows(&vec![r1, r2, r3]).unwrap();
    assert_eq!(groups.len(), 2);
    assert_eq!(groups[0].schema, "public");
    assert_eq!(groups[0].table, "t");
    assert_eq!(groups[0].items.len(), 2);
    assert_eq!(groups[0].items[0].identity_generation, IdentityGeneration::Always);
    assert!(!groups[0].items[0].nullable);
    assert!(matches!(&groups[0].items[1].default, Some(ColumnDefault::Literal(d)) if d == "0"));
    assert_eq!(groups[1].schema, "audit");
}

#[test]
fn pg_column_grouping_rejects_bad_nullability() {
    let mut r = pg_column_row("public", "t", "id", 1);
    r.is_nullable = String::from("perhaps");
    let err = group_pg_column_rows(&vec![r]).unwrap_err();
    match err {
        DBError::Unknow(m) => assert_eq!(m, "unrecognized isNullable type perhaps"),
        _ => panic!("expected an unrecognized-data error"),
    }
}

fn pg_index_row(schema: &str, table: &str, name: &str, primary: bool) -> PgIndexRow {
    PgIndexRow {
        schema: String::from(schema),
        table: String::from(table),
        index_name: String::from(name),
        index_def: format!("CREATE INDEX {name} ON {schema}.{table} USING btree (c)"),
        is_primary: if primary { Some(1) } else { None },
        comment: None,
    }
}

#[test]
fn pg_index_grouping() {
    let rows = vec![
        pg_index_row("public", "t", "t_pkey", true),
        pg_index_row("public", "t", "t_c_idx", false),
    ];
    let groups = group_pg_index_rows(&rows);
    assert_eq!(groups.len(), 1);
    assert_eq!(groups[0].items.len(), 2);
    assert!(groups[0].items[0].primary);
    assert!(!groups[0].items[1].primary);
    assert_eq!(groups[0].items[0].index_type, "btree");
    assert!(groups[0].items[0].visible);
}

fn pg_table_row(schema: &str, table: &str, row_count: i64) -> PgTableRow {
    PgTableRow {
        schema: String::from(schema),
        table: String::from(table),
        data_size: 8192,
        index_size: 16384,
        row_count,
        comment: Some(String::from("a table")),
        owner: String::from("postgres"),
    }
}

#[test]
fn pg_tables_join_columns_and_indexes() {
    let columns = group_pg_column_rows(&vec![pg_column_row("public", "t", "id", 1)]).unwrap();
    let indexes = group_pg_index_rows(&vec![pg_index_row("public", "t", "t_pkey", true)]);
    let rows = vec![pg_table_row("public", "t", 3), pg_table_row("public", "bare", 0)];
    let groups = build_pg_tables(&rows, columns, indexes);
    assert_eq!(groups.len(), 1);
    assert_eq!(groups[0].key, "public");
    let tables = &groups[0].items;
    assert_eq!(tables.len(), 2);
    assert_eq!(tables[0].name, "t");
    assert_eq!(tables[0].columns.len(), 1);
    assert_eq!(tables[0].indexes.len(), 1);
    assert_eq!(tables[0].row_count, 3);
    assert_eq!(tables[0].comment, "a table");
    assert_eq!(tables[0].owner, "postgres");
    assert_eq!(tables[1].name, "bare");
    assert!(tables[1].columns.is_empty());
    assert!(tables[1].indexes.is_empty());
}

#[test]
fn pg_database_composition() {
    let databases = pg_databases_from_rows(&vec![PgDatabaseRow {
        name: String::from("app"),
        character_set: String::from("UTF8"),
        collation: String::from("C"),
        owner: String::from("postgres"),
    }]);
    let database = pg_find_database(databases, "app").unwrap();
    let schemas = schemas_from_rows(&vec![
        PgSchemaRow {
            name: String::from("public"),
            owner: String::from("postgres"),
            comment: Some(String::from("standard public schema")),
        },
        PgSchemaRow { name: String::from("audit"), owner: String::from("postgres"), comment: None },
    ]);
    let columns = group_pg_column_rows(&vec![pg_column_row("public", "t", "id", 1)]).unwrap();
    let indexes = group_pg_index_rows(&Vec::new());
    let tables = build_pg_tables(&vec![pg_table_row("public", "t", 1)], columns, indexes);
    let views = group_pg_view_rows(&vec![PgViewRow {
        schema: String::from("public"),
        view_name: String::from("v"),
        definition: String::from("SELECT 1"),
        comment: None,
    }]);
    let matviews = group_pg_matview_rows(&vec![PgMatViewRow {
        schema: String::from("audit"),
        matview_name: String::from("mv"),
        definition: String::from("SELECT 2"),
        comment: Some(String::from("cached")),
    }]);
    let db = pg_compose_database(database, schemas, tables, views, matviews);
    assert_eq!(db.name, "app");
    assert_eq!(db.owner, "postgres");
    assert_eq!(db.schemas.len(), 2);
    let public = &db.schemas[0];
    assert_eq!(public.name, "public");
    assert_eq!(public.comment, "standard public schema");
    assert_eq!(public.tables.len(), 1);
    assert_eq!(public.views.len(), 1);
    assert!(public.materialized_views.is_empty());
    let audit = &db.schemas[1];
    assert_eq!(audit.name, "audit");
    assert!(audit.tables.is_empty());
    assert_eq!(audit.materialized_views.len(), 1);
    assert_eq!(audit.materialized_views[0].name, "mv");
    assert_eq!(audit.materialized_views[0].comment, "cached");
}

#[test]
fn pg_missing_database_is_an_argument_error() {
    let databases = pg_databases_from_rows(&Vec::new());
    let err = pg_find_database(databases, "ghost").unwrap_err();
    match err {
        DBError::Args(m) => assert_eq!(m, "Database 'ghost' not found"),
        _ => panic!("expected an argument error"),
    }
}

#[test]
fn pg_instance_excludes_template_databases() {
    let rows = vec![
        PgDatabaseRow {
            name: String::from("template0"),
            character_set: String::from("UTF8"),
            collation: String::from("C"),
            owner: String::from("postgres"),
        },
        PgDatabaseRow {
            name: String::from("app"),
            character_set: String::from("UTF8"),
            collation: String::from("C"),
            owner: String::from("postgres"),
        },
        PgDatabaseRow {
            name: String::from("template1"),
            character_set: String::from("UTF8"),
            collation: String::from("C"),
            owner: String::from("postgres"),
        },
    ];
    let databases = pg_databases_from_rows(&rows);
    let instance = pg_compose_instance(String::from("14.0.5"), databases);
    assert_eq!(instance.version, "14.0.5");
    assert_eq!(instance.databases.len(), 1);
    assert_eq!(instance.databases[0].name, "app");
}

#[test]
fn pg_system_objects() {
    assert!(is_pg_system_database("template0"));
    assert!(is_pg_system_database("template1"));
    assert!(!is_pg_system_database("postgres_data"));
    let schemas = pg_system_schemas();
    assert_eq!(schemas, vec!["pg_catalog", "pg_toast", "information_schema"]);
}
