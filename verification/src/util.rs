//! The statements of a model's table, from what the model tells of it.
use vstd::prelude::*;
use crate::model::BaseModel;
use crate::statement::{
    create_table_statement, create_table_text, drop_table_statement, drop_table_text,
    insert_one_statement, insert_one_text, insert_statement, insert_text, select_statement,
    select_text,
};
use crate::text::str_views;

verus! {

/// The statement that creates `M`'s table from the column definitions and
/// constraints in `data`.
pub fn create_table_sql<M: BaseModel>(data: &str) -> (sql: String)
    ensures
        sql@ == create_table_text(M::TABLE_NAME@, data@),
{
    create_table_statement(M::table_name(), data)
}

/// The statement that inserts rows into `M`'s table, up to its `values` clause.
pub fn insert_sql<M: BaseModel>() -> (sql: String)
    ensures
        sql@ == insert_text(M::TABLE_NAME@, str_views(M::COLUMNS@)),
{
    insert_statement(M::table_name(), M::COLUMNS)
}

/// The statement that inserts one row into `M`'s table, with one `?` per column.
pub fn insert_one_sql<M: BaseModel>() -> (sql: String)
    ensures
        sql@ == insert_one_text(M::TABLE_NAME@, str_views(M::COLUMNS@)),
{
    insert_one_statement(M::table_name(), M::COLUMNS)
}

/// The statement that reads every column of `M`'s table.
pub fn select_sql<M: BaseModel>() -> (sql: String)
    ensures
        sql@ == select_text(M::TABLE_NAME@, str_views(M::COLUMNS@)),
{
    select_statement(M::table_name(), M::COLUMNS)
}

/// The statement that removes `M`'s table, if it exists.
pub fn drop_table_sql<M: BaseModel>() -> (sql: String)
    ensures
        sql@ == drop_table_text(M::TABLE_NAME@),
{
    drop_table_statement(M::table_name())
}

} // verus!
