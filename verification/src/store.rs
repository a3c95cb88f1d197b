//! The normalized, engine-independent metadata tree: one immutable snapshot
//! per synchronization pass, from instance down to columns and key parts.
//!
//! Each executable type has a ghost mirror (its `View`) over `Seq<char>`
//! values, so that contracts can speak of whole trees structurally.

use vstd::prelude::*;

verus! {

/// Whether a column's value is always engine-generated, or generated only
/// when an insert supplies no explicit value.
#[derive(Clone, Copy, PartialEq, Eq, Structural, Debug)]
pub enum IdentityGeneration {
    Unspecified,
    Always,
    ByDefault,
}

/// The canonical default descriptor of a column: an expression default
/// (emitted verbatim or wrapped), a literal default string, the fixed
/// auto-increment marker, or an explicit NULL default.
#[derive(Debug)]
pub enum ColumnDefault {
    Expression(String),
    Literal(String),
    AutoIncrement,
    Null,
}

/// Ghost mirror of [`ColumnDefault`].
pub ghost enum DefaultV {
    Expression(Seq<char>),
    Literal(Seq<char>),
    AutoIncrement,
    Null,
}

impl View for ColumnDefault {
    type V = DefaultV;

    open spec fn view(&self) -> DefaultV {
        match self {
            ColumnDefault::Expression(s) => DefaultV::Expression(s@),
            ColumnDefault::Literal(s) => DefaultV::Literal(s@),
            ColumnDefault::AutoIncrement => DefaultV::AutoIncrement,
            ColumnDefault::Null => DefaultV::Null,
        }
    }
}

impl DeepView for ColumnDefault {
    type V = DefaultV;

    open spec fn deep_view(&self) -> DefaultV {
        self.view()
    }
}

/// One column of a table.
#[derive(Debug)]
pub struct ColumnMetadata {
    pub name: String,
    /// 1-based ordinal position within the table.
    pub position: i32,
    /// The canonical default descriptor, if the column has any default.
    pub default: Option<ColumnDefault>,
    /// An on-update expression captured from the engine's extra flags.
    pub on_update: Option<String>,
    pub nullable: bool,
    pub column_type: String,
    pub character_set: String,
    pub collation: String,
    pub comment: String,
    pub identity_generation: IdentityGeneration,
}

/// Ghost mirror of [`ColumnMetadata`].
pub ghost struct ColumnV {
    pub name: Seq<char>,
    pub position: i32,
    pub default: Option<DefaultV>,
    pub on_update: Option<Seq<char>>,
    pub nullable: bool,
    pub column_type: Seq<char>,
    pub character_set: Seq<char>,
    pub collation: Seq<char>,
    pub comment: Seq<char>,
    pub identity_generation: IdentityGeneration,
}

impl View for ColumnMetadata {
    type V = ColumnV;

    open spec fn view(&self) -> ColumnV {
        ColumnV {
            name: self.name@,
            position: self.position,
            default: self.default.deep_view(),
            on_update: self.on_update.deep_view(),
            nullable: self.nullable,
            column_type: self.column_type@,
            character_set: self.character_set@,
            collation: self.collation@,
            comment: self.comment@,
            identity_generation: self.identity_generation,
        }
    }
}

impl DeepView for ColumnMetadata {
    type V = ColumnV;

    open spec fn deep_view(&self) -> ColumnV {
        self.view()
    }
}

/// One index of a table, reassembled from one catalog row per key part.
#[derive(Debug)]
pub struct IndexMetadata {
    pub name: String,
    /// One entry per key part, in key-part position order: a plain column
    /// reference, or a parenthesized expression for functional parts.
    pub expressions: Vec<String>,
    /// Prefix length per key part, parallel to `expressions`; -1 when the
    /// engine reports none.
    pub key_length: Vec<i64>,
    pub index_type: String,
    pub unique: bool,
    pub primary: bool,
    pub visible: bool,
    pub comment: String,
    /// Full definition text, for engines that expose one.
    pub definition: String,
}

/// Ghost mirror of [`IndexMetadata`].
pub ghost struct IndexV {
    pub name: Seq<char>,
    pub expressions: Seq<Seq<char>>,
    pub key_length: Seq<i64>,
    pub index_type: Seq<char>,
    pub unique: bool,
    pub primary: bool,
    pub visible: bool,
    pub comment: Seq<char>,
    pub definition: Seq<char>,
}

impl View for IndexMetadata {
    type V = IndexV;

    open spec fn view(&self) -> IndexV {
        IndexV {
            name: self.name@,
            expressions: self.expressions.deep_view(),
            key_length: self.key_length@,
            index_type: self.index_type@,
            unique: self.unique,
            primary: self.primary,
            visible: self.visible,
            comment: self.comment@,
            definition: self.definition@,
        }
    }
}

impl DeepView for IndexMetadata {
    type V = IndexV;

    open spec fn deep_view(&self) -> IndexV {
        self.view()
    }
}

/// The key-part arrays of an index are parallel.
pub open spec fn index_wf(i: IndexV) -> bool {
    i.expressions.len() == i.key_length.len()
}

/// One foreign-key constraint, reassembled from one catalog row per
/// referencing column.
#[derive(Debug)]
pub struct ForeignKeyMetadata {
    pub name: String,
    /// Referencing columns, in constraint ordinal order.
    pub columns: Vec<String>,
    pub referenced_schema: String,
    pub referenced_table: String,
    /// Referenced columns, index-aligned with `columns`.
    pub referenced_columns: Vec<String>,
    pub on_delete: String,
    pub on_update: String,
    pub match_type: String,
}

/// Ghost mirror of [`ForeignKeyMetadata`].
pub ghost struct FkV {
    pub name: Seq<char>,
    pub columns: Seq<Seq<char>>,
    pub referenced_schema: Seq<char>,
    pub referenced_table: Seq<char>,
    pub referenced_columns: Seq<Seq<char>>,
    pub on_delete: Seq<char>,
    pub on_update: Seq<char>,
    pub match_type: Seq<char>,
}

impl View for ForeignKeyMetadata {
    type V = FkV;

    open spec fn view(&self) -> FkV {
        FkV {
            name: self.name@,
            columns: self.columns.deep_view(),
            referenced_schema: self.referenced_schema@,
            referenced_table: self.referenced_table@,
            referenced_columns: self.referenced_columns.deep_view(),
            on_delete: self.on_delete@,
            on_update: self.on_update@,
            match_type: self.match_type@,
        }
    }
}

impl DeepView for ForeignKeyMetadata {
    type V = FkV;

    open spec fn deep_view(&self) -> FkV {
        self.view()
    }
}

/// The column arrays of a foreign key are parallel and non-empty.
pub open spec fn fk_wf(f: FkV) -> bool {
    f.columns.len() == f.referenced_columns.len() && f.columns.len() >= 1
}

/// One view, with its definition captured as opaque text.
#[derive(Debug)]
pub struct ViewMetadata {
    pub name: String,
    pub definition: String,
    pub comment: String,
    pub dependent_columns: Vec<String>,
}

/// Ghost mirror of [`ViewMetadata`].
pub ghost struct ViewV {
    pub name: Seq<char>,
    pub definition: Seq<char>,
    pub comment: Seq<char>,
    pub dependent_columns: Seq<Seq<char>>,
}

impl View for ViewMetadata {
    type V = ViewV;

    open spec fn view(&self) -> ViewV {
        ViewV {
            name: self.name@,
            definition: self.definition@,
            comment: self.comment@,
            dependent_columns: self.dependent_columns.deep_view(),
        }
    }
}

impl DeepView for ViewMetadata {
    type V = ViewV;

    open spec fn deep_view(&self) -> ViewV {
        self.view()
    }
}

/// One materialized view, with its definition captured as opaque text.
#[derive(Debug)]
pub struct MaterializedViewMetadata {
    pub name: String,
    pub definition: String,
    pub comment: String,
    pub dependent_columns: Vec<String>,
}

/// Ghost mirror of [`MaterializedViewMetadata`].
pub ghost struct MatViewV {
    pub name: Seq<char>,
    pub definition: Seq<char>,
    pub comment: Seq<char>,
    pub dependent_columns: Seq<Seq<char>>,
}

impl View for MaterializedViewMetadata {
    type V = MatViewV;

    open spec fn view(&self) -> MatViewV {
        MatViewV {
            name: self.name@,
            definition: self.definition@,
            comment: self.comment@,
            dependent_columns: self.dependent_columns.deep_view(),
        }
    }
}

impl DeepView for MaterializedViewMetadata {
    type V = MatViewV;

    open spec fn deep_view(&self) -> MatViewV {
        self.view()
    }
}

/// One stored function, with its definition captured as opaque text.
#[derive(Debug)]
pub struct FunctionMetadata {
    pub name: String,
    pub definition: String,
}

/// Ghost mirror of [`FunctionMetadata`].
pub ghost struct FunctionV {
    pub name: Seq<char>,
    pub definition: Seq<char>,
}

impl View for FunctionMetadata {
    type V = FunctionV;

    open spec fn view(&self) -> FunctionV {
        FunctionV { name: self.name@, definition: self.definition@ }
    }
}

impl DeepView for FunctionMetadata {
    type V = FunctionV;

    open spec fn deep_view(&self) -> FunctionV {
        self.view()
    }
}

/// One stored procedure, with its definition captured as opaque text.
#[derive(Debug)]
pub struct ProcedureMetadata {
    pub name: String,
    pub definition: String,
}

/// Ghost mirror of [`ProcedureMetadata`].
pub ghost struct ProcedureV {
    pub name: Seq<char>,
    pub definition: Seq<char>,
}

impl View for ProcedureMetadata {
    type V = ProcedureV;

    open spec fn view(&self) -> ProcedureV {
        ProcedureV { name: self.name@, definition: self.definition@ }
    }
}

impl DeepView for ProcedureMetadata {
    type V = ProcedureV;

    open spec fn deep_view(&self) -> ProcedureV {
        self.view()
    }
}

/// One base table with its attached columns, indexes and foreign keys.
#[derive(Debug)]
pub struct TableMetadata {
    pub name: String,
    pub columns: Vec<ColumnMetadata>,
    pub indexes: Vec<IndexMetadata>,
    pub foreign_keys: Vec<ForeignKeyMetadata>,
    pub engine: String,
    pub collation: Option<String>,
    /// Row-count estimate; volatile between syncs.
    pub row_count: i64,
    /// Data size estimate in bytes; volatile between syncs.
    pub data_size: i64,
    /// Index size estimate in bytes; volatile between syncs.
    pub index_size: i64,
    /// Free-space estimate in bytes; volatile between syncs.
    pub data_free: i64,
    pub create_options: String,
    pub comment: String,
    pub owner: String,
}

/// Ghost mirror of [`TableMetadata`].
pub ghost struct TableV {
    pub name: Seq<char>,
    pub columns: Seq<ColumnV>,
    pub indexes: Seq<IndexV>,
    pub foreign_keys: Seq<FkV>,
    pub engine: Seq<char>,
    pub collation: Option<Seq<char>>,
    pub row_count: i64,
    pub data_size: i64,
    pub index_size: i64,
    pub data_free: i64,
    pub create_options: Seq<char>,
    pub comment: Seq<char>,
    pub owner: Seq<char>,
}

impl View for TableMetadata {
    type V = TableV;

    open spec fn view(&self) -> TableV {
        TableV {
            name: self.name@,
            columns: self.columns.deep_view(),
            indexes: self.indexes.deep_view(),
            foreign_keys: self.foreign_keys.deep_view(),
            engine: self.engine@,
            collation: self.collation.deep_view(),
            row_count: self.row_count,
            data_size: self.data_size,
            index_size: self.index_size,
            data_free: self.data_free,
            create_options: self.create_options@,
            comment: self.comment@,
            owner: self.owner@,
        }
    }
}

impl DeepView for TableMetadata {
    type V = TableV;

    open spec fn deep_view(&self) -> TableV {
        self.view()
    }
}

/// Every index and foreign key of the table is well formed.
pub open spec fn table_wf(t: TableV) -> bool {
    &&& forall|i: int| 0 <= i < t.indexes.len() ==> index_wf(#[trigger] t.indexes[i])
    &&& forall|i: int| 0 <= i < t.foreign_keys.len() ==> fk_wf(#[trigger] t.foreign_keys[i])
}

/// One schema: its tables, views and routines.
#[derive(Debug)]
pub struct SchemaMetadata {
    pub name: String,
    pub owner: String,
    pub comment: String,
    pub tables: Vec<TableMetadata>,
    pub views: Vec<ViewMetadata>,
    pub materialized_views: Vec<MaterializedViewMetadata>,
    pub functions: Vec<FunctionMetadata>,
    pub procedures: Vec<ProcedureMetadata>,
    pub external_tables: Vec<TableMetadata>,
}

/// Ghost mirror of [`SchemaMetadata`].
pub ghost struct SchemaV {
    pub name: Seq<char>,
    pub owner: Seq<char>,
    pub comment: Seq<char>,
    pub tables: Seq<TableV>,
    pub views: Seq<ViewV>,
    pub materialized_views: Seq<MatViewV>,
    pub functions: Seq<FunctionV>,
    pub procedures: Seq<ProcedureV>,
    pub external_tables: Seq<TableV>,
}

impl View for SchemaMetadata {
    type V = SchemaV;

    open spec fn view(&self) -> SchemaV {
        SchemaV {
            name: self.name@,
            owner: self.owner@,
            comment: self.comment@,
            tables: self.tables.deep_view(),
            views: self.views.deep_view(),
            materialized_views: self.materialized_views.deep_view(),
            functions: self.functions.deep_view(),
            procedures: self.procedures.deep_view(),
            external_tables: self.external_tables.deep_view(),
        }
    }
}

impl DeepView for SchemaMetadata {
    type V = SchemaV;

    open spec fn deep_view(&self) -> SchemaV {
        self.view()
    }
}

/// Every table of the schema is well formed.
pub open spec fn schema_wf(s: SchemaV) -> bool {
    &&& forall|i: int| 0 <= i < s.tables.len() ==> table_wf(#[trigger] s.tables[i])
    &&& forall|i: int| 0 <= i < s.external_tables.len() ==> table_wf(#[trigger] s.external_tables[i])
}

/// One database with its schemas.
#[derive(Debug)]
pub struct DatabaseSchemaMetadata {
    pub name: String,
    pub character_set: String,
    pub collation: String,
    pub owner: String,
    pub datashare: bool,
    pub service_name: String,
    pub extensions: Vec<String>,
    pub schemas: Vec<SchemaMetadata>,
}

/// Ghost mirror of [`DatabaseSchemaMetadata`].
pub ghost struct DatabaseV {
    pub name: Seq<char>,
    pub character_set: Seq<char>,
    pub collation: Seq<char>,
    pub owner: Seq<char>,
    pub datashare: bool,
    pub service_name: Seq<char>,
    pub extensions: Seq<Seq<char>>,
    pub schemas: Seq<SchemaV>,
}

impl View for DatabaseSchemaMetadata {
    type V = DatabaseV;

    open spec fn view(&self) -> DatabaseV {
        DatabaseV {
            name: self.name@,
            character_set: self.character_set@,
            collation: self.collation@,
            owner: self.owner@,
            datashare: self.datashare,
            service_name: self.service_name@,
            extensions: self.extensions.deep_view(),
            schemas: self.schemas.deep_view(),
        }
    }
}

impl DeepView for DatabaseSchemaMetadata {
    type V = DatabaseV;

    open spec fn deep_view(&self) -> DatabaseV {
        self.view()
    }
}

/// Every schema of the database is well formed.
pub open spec fn database_wf(d: DatabaseV) -> bool {
    forall|i: int| 0 <= i < d.schemas.len() ==> schema_wf(#[trigger] d.schemas[i])
}

/// One whole instance: its version and its databases.
#[derive(Debug)]
pub struct InstanceMetadata {
    pub version: String,
    pub instance_roles: Vec<String>,
    pub databases: Vec<DatabaseSchemaMetadata>,
    pub last_sync: i64,
}

/// Ghost mirror of [`InstanceMetadata`].
pub ghost struct InstanceV {
    pub version: Seq<char>,
    pub instance_roles: Seq<Seq<char>>,
    pub databases: Seq<DatabaseV>,
    pub last_sync: i64,
}

impl View for InstanceMetadata {
    type V = InstanceV;

    open spec fn view(&self) -> InstanceV {
        InstanceV {
            version: self.version@,
            instance_roles: self.instance_roles.deep_view(),
            databases: self.databases.deep_view(),
            last_sync: self.last_sync,
        }
    }
}

impl DeepView for InstanceMetadata {
    type V = InstanceV;

    open spec fn deep_view(&self) -> InstanceV {
        self.view()
    }
}

} // verus!
