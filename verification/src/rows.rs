//! The raw typed rows that the per-engine catalog queries yield. The query
//! transport fetches them; the assemblers here consume them as plain values.

use vstd::prelude::*;

verus! {

/// One row of the schema-listing catalog query.
#[derive(Debug)]
pub struct SchemataRow {
    pub name: String,
    pub character_set: String,
    pub collation: String,
}

/// Ghost mirror of [`SchemataRow`].
pub ghost struct SchemataRowV {
    pub name: Seq<char>,
    pub character_set: Seq<char>,
    pub collation: Seq<char>,
}

impl View for SchemataRow {
    type V = SchemataRowV;

    open spec fn view(&self) -> SchemataRowV {
        SchemataRowV {
            name: self.name@,
            character_set: self.character_set@,
            collation: self.collation@,
        }
    }
}

impl DeepView for SchemataRow {
    type V = SchemataRowV;

    open spec fn deep_view(&self) -> SchemataRowV {
        self.view()
    }
}

/// One row of the column catalog query, ordered by table and position.
#[derive(Debug)]
pub struct ColumnRow {
    pub table_name: String,
    pub column_name: String,
    /// 1-based ordinal position within the table.
    pub position: i32,
    pub default_value: Option<String>,
    /// The raw nullability flag, e.g. `YES` or `NO`.
    pub is_nullable: String,
    pub column_type: String,
    pub character_set: String,
    pub collation: String,
    pub comment: String,
    /// The engine's extra flag text (auto-increment, generated, on-update).
    pub extra: String,
}

/// Ghost mirror of [`ColumnRow`].
pub ghost struct ColumnRowV {
    pub table_name: Seq<char>,
    pub column_name: Seq<char>,
    pub position: i32,
    pub default_value: Option<Seq<char>>,
    pub is_nullable: Seq<char>,
    pub column_type: Seq<char>,
    pub character_set: Seq<char>,
    pub collation: Seq<char>,
    pub comment: Seq<char>,
    pub extra: Seq<char>,
}

impl View for ColumnRow {
    type V = ColumnRowV;

    open spec fn view(&self) -> ColumnRowV {
        ColumnRowV {
            table_name: self.table_name@,
            column_name: self.column_name@,
            position: self.position,
            default_value: self.default_value.deep_view(),
            is_nullable: self.is_nullable@,
            column_type: self.column_type@,
            character_set: self.character_set@,
            collation: self.collation@,
            comment: self.comment@,
            extra: self.extra@,
        }
    }
}

impl DeepView for ColumnRow {
    type V = ColumnRowV;

    open spec fn deep_view(&self) -> ColumnRowV {
        self.view()
    }
}

/// One row of the index-parts catalog query: one key part of one index,
/// ordered by table, index and key sequence.
#[derive(Debug)]
pub struct IndexRow {
    pub table_name: String,
    pub index_name: String,
    /// The key part as a plain column reference, when it is one.
    pub column_name: Option<String>,
    /// Prefix length of the key part; -1 when the engine reports none.
    pub sub_part: i64,
    /// The key part as an expression, for functional parts.
    pub expression: Option<String>,
    pub index_type: String,
    /// 1 when the index is unique, 0 otherwise.
    pub is_unique: i16,
    /// 1 when the index is visible, 0 otherwise.
    pub is_visible: i16,
    pub comment: String,
}

/// Ghost mirror of [`IndexRow`].
pub ghost struct IndexRowV {
    pub table_name: Seq<char>,
    pub index_name: Seq<char>,
    pub column_name: Option<Seq<char>>,
    pub sub_part: i64,
    pub expression: Option<Seq<char>>,
    pub index_type: Seq<char>,
    pub is_unique: i16,
    pub is_visible: i16,
    pub comment: Seq<char>,
}

impl View for IndexRow {
    type V = IndexRowV;

    open spec fn view(&self) -> IndexRowV {
        IndexRowV {
            table_name: self.table_name@,
            index_name: self.index_name@,
            column_name: self.column_name.deep_view(),
            sub_part: self.sub_part,
            expression: self.expression.deep_view(),
            index_type: self.index_type@,
            is_unique: self.is_unique,
            is_visible: self.is_visible,
            comment: self.comment@,
        }
    }
}

impl DeepView for IndexRow {
    type V = IndexRowV;

    open spec fn deep_view(&self) -> IndexRowV {
        self.view()
    }
}

/// One row of the foreign-key catalog query: one referencing column of one
/// constraint, ordered by table, constraint and ordinal.
#[derive(Debug)]
pub struct FkRow {
    pub table_name: String,
    pub constraint_name: String,
    pub column_name: String,
    pub referenced_table: String,
    pub referenced_column: String,
    pub on_delete: String,
    pub on_update: String,
    pub match_option: String,
}

/// Ghost mirror of [`FkRow`].
pub ghost struct FkRowV {
    pub table_name: Seq<char>,
    pub constraint_name: Seq<char>,
    pub column_name: Seq<char>,
    pub referenced_table: Seq<char>,
    pub referenced_column: Seq<char>,
    pub on_delete: Seq<char>,
    pub on_update: Seq<char>,
    pub match_option: Seq<char>,
}

impl View for FkRow {
    type V = FkRowV;

    open spec fn view(&self) -> FkRowV {
        FkRowV {
            table_name: self.table_name@,
            constraint_name: self.constraint_name@,
            column_name: self.column_name@,
            referenced_table: self.referenced_table@,
            referenced_column: self.referenced_column@,
            on_delete: self.on_delete@,
            on_update: self.on_update@,
            match_option: self.match_option@,
        }
    }
}

impl DeepView for FkRow {
    type V = FkRowV;

    open spec fn deep_view(&self) -> FkRowV {
        self.view()
    }
}

/// One row of the combined tables-and-views catalog query, tagged by a
/// table-type discriminator.
#[derive(Debug)]
pub struct TableRow {
    pub table_name: String,
    /// The type tag: a base table, a view, or (fatally) anything else.
    pub table_type: String,
    pub engine: String,
    pub collation: Option<String>,
    pub row_count: i64,
    pub data_size: i64,
    pub index_size: i64,
    pub data_free: i64,
    pub create_options: String,
    pub comment: String,
}

/// Ghost mirror of [`TableRow`].
pub ghost struct TableRowV {
    pub table_name: Seq<char>,
    pub table_type: Seq<char>,
    pub engine: Seq<char>,
    pub collation: Option<Seq<char>>,
    pub row_count: i64,
    pub data_size: i64,
    pub index_size: i64,
    pub data_free: i64,
    pub create_options: Seq<char>,
    pub comment: Seq<char>,
}

impl View for TableRow {
    type V = TableRowV;

    open spec fn view(&self) -> TableRowV {
        TableRowV {
            table_name: self.table_name@,
            table_type: self.table_type@,
            engine: self.engine@,
            collation: self.collation.deep_view(),
            row_count: self.row_count,
            data_size: self.data_size,
            index_size: self.index_size,
            data_free: self.data_free,
            create_options: self.create_options@,
            comment: self.comment@,
        }
    }
}

impl DeepView for TableRow {
    type V = TableRowV;

    open spec fn deep_view(&self) -> TableRowV {
        self.view()
    }
}

/// One row of the views-only catalog query.
#[derive(Debug)]
pub struct ViewRow {
    pub view_name: String,
    pub definition: String,
}

/// Ghost mirror of [`ViewRow`].
pub ghost struct ViewRowV {
    pub view_name: Seq<char>,
    pub definition: Seq<char>,
}

impl View for ViewRow {
    type V = ViewRowV;

    open spec fn view(&self) -> ViewRowV {
        ViewRowV { view_name: self.view_name@, definition: self.definition@ }
    }
}

impl DeepView for ViewRow {
    type V = ViewRowV;

    open spec fn deep_view(&self) -> ViewRowV {
        self.view()
    }
}

/// One routine with its type tag and the definition text fetched for it.
#[derive(Debug)]
pub struct RoutineRow {
    pub name: String,
    /// The routine-type tag: a procedure under ASCII case folding, else a
    /// function.
    pub routine_type: String,
    pub definition: String,
}

/// Ghost mirror of [`RoutineRow`].
pub ghost struct RoutineRowV {
    pub name: Seq<char>,
    pub routine_type: Seq<char>,
    pub definition: Seq<char>,
}

impl View for RoutineRow {
    type V = RoutineRowV;

    open spec fn view(&self) -> RoutineRowV {
        RoutineRowV {
            name: self.name@,
            routine_type: self.routine_type@,
            definition: self.definition@,
        }
    }
}

impl DeepView for RoutineRow {
    type V = RoutineRowV;

    open spec fn deep_view(&self) -> RoutineRowV {
        self.view()
    }
}

} // verus!
