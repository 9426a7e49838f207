//! The statements of a row codec, written from the name of a table and the
//! names of its columns. The key of a row stands in the column `id`.

use crate::text::{join, joined, views};
use vstd::prelude::*;
use vstd::string::StringExecFns;

verus! {

/// The statements that a codec runs.
pub struct Statements {
    /// Reads the row of a key.
    pub selection_query: String,
    /// Changes the row of a key.
    pub update_query: String,
    /// Adds a row under a key. A marker has none: it is set by its update.
    pub insert_query: Option<String>,
    /// Reads every row.
    pub load_all_query: String,
}

/// The name of the column that holds the key.
pub open spec fn main_key() -> Seq<char> {
    "id"@
}

/// The columns of a component but for the key, in their order.
pub open spec fn columns_of(field_names: Seq<Seq<char>>) -> Seq<Seq<char>> {
    field_names.filter(|name: Seq<char>| name != main_key())
}

/// As many question marks as there are columns.
pub open spec fn marks_for(columns: Seq<Seq<char>>) -> Seq<Seq<char>> {
    Seq::new(columns.len(), |i: int| "?"@)
}

pub open spec fn full_selection(table: Seq<char>, columns: Seq<Seq<char>>) -> Seq<char> {
    "SELECT "@ + main_key() + ", "@ + joined(columns, ", "@) + " FROM "@ + table + " WHERE "@
        + main_key() + " = ?"@
}

pub open spec fn full_update(table: Seq<char>, columns: Seq<Seq<char>>) -> Seq<char> {
    "UPDATE "@ + table + " SET "@ + joined(columns, " = ?, "@) + " = ? WHERE "@ + main_key()
        + " = ?"@
}

pub open spec fn full_load_all(table: Seq<char>, columns: Seq<Seq<char>>) -> Seq<char> {
    "SELECT "@ + main_key() + ", "@ + joined(columns, ", "@) + " FROM "@ + table
}

pub open spec fn full_insert(table: Seq<char>, columns: Seq<Seq<char>>) -> Seq<char> {
    "INSERT INTO "@ + table + " ("@ + main_key() + ", "@ + joined(columns, ", "@) + ") VALUES (?,"@
        + joined(marks_for(columns), ", "@) + ")"@
}

pub open spec fn marker_selection(marker: Seq<char>, table: Seq<char>) -> Seq<char> {
    "SELECT "@ + marker + " FROM "@ + table + " WHERE "@ + main_key() + " = ?"@
}

pub open spec fn marker_update(marker: Seq<char>, table: Seq<char>) -> Seq<char> {
    "UPDATE "@ + table + " SET "@ + marker + " = ? WHERE "@ + main_key() + " = ?"@
}

pub open spec fn marker_load_all(marker: Seq<char>, table: Seq<char>) -> Seq<char> {
    "SELECT "@ + main_key() + " FROM "@ + table + " WHERE "@ + marker + " = ?"@
}

/// True of the statements of a component with columns.
pub open spec fn full_statements(
    statements: Statements,
    table: Seq<char>,
    columns: Seq<Seq<char>>,
) -> bool {
    &&& statements.selection_query@ == full_selection(table, columns)
    &&& statements.update_query@ == full_update(table, columns)
    &&& statements.load_all_query@ == full_load_all(table, columns)
    &&& statements.insert_query is Some
    &&& statements.insert_query->0@ == full_insert(table, columns)
}

/// True of the statements of a marker.
pub open spec fn marker_statements(
    statements: Statements,
    marker: Seq<char>,
    table: Seq<char>,
) -> bool {
    &&& statements.selection_query@ == marker_selection(marker, table)
    &&& statements.update_query@ == marker_update(marker, table)
    &&& statements.load_all_query@ == marker_load_all(marker, table)
    &&& statements.insert_query is None
}

/// The name of the column that holds the key: `id`.
pub fn get_main_key() -> (key: String)
    ensures
        key@ == main_key(),
{
    "id".to_owned()
}

/// The columns of a component but for the key.
pub fn columns(field_names: &Vec<String>) -> (names: Vec<String>)
    ensures
        views(names@) == columns_of(views(field_names@)),
{
    let key = get_main_key();
    let ghost pred = |name: Seq<char>| name != main_key();
    let mut names: Vec<String> = Vec::new();
    let mut i: usize = 0;
    proof {
        assert(views(field_names@).take(0) =~= Seq::<Seq<char>>::empty());
        assert(views(names@) =~= Seq::<Seq<char>>::empty());
    }
    while i < field_names.len()
        invariant
            i <= field_names@.len(),
            key@ == main_key(),
            pred == |name: Seq<char>| name != main_key(),
            views(names@) == views(field_names@).take(i as int).filter(pred),
        decreases field_names@.len() - i,
    {
        let ghost before = views(field_names@).take(i as int);
        let ghost kept = views(names@);
        proof {
            assert(views(field_names@).take(i + 1) =~= before.push(field_names@[i as int]@));
            before.lemma_filter_push(field_names@[i as int]@, pred);
        }
        if field_names[i] != key {
            names.push(field_names[i].clone());
            proof {
                assert(views(names@) =~= kept.push(field_names@[i as int]@));
            }
        }
        i = i + 1;
    }
    proof {
        assert(views(field_names@).take(field_names@.len() as int) =~= views(field_names@));
    }
    names
}

/// One question mark for each column.
pub fn marks(columns: &Vec<String>) -> (marks: Vec<String>)
    ensures
        views(marks@) == marks_for(views(columns@)),
{
    let mut marks: Vec<String> = Vec::new();
    let mut i: usize = 0;
    while i < columns.len()
        invariant
            i <= columns@.len(),
            marks@.len() == i,
            forall|k: int| 0 <= k < i ==> (#[trigger] marks@[k])@ == "?"@,
        decreases columns@.len() - i,
    {
        marks.push("?".to_owned());
        i = i + 1;
    }
    proof {
        assert(views(marks@) =~= marks_for(views(columns@)));
    }
    marks
}

/// The statements of a component with columns: the row of a key is selected,
/// updated and inserted with every column but the key, in the order of the
/// columns.
pub fn full_component(table_name: &str, field_names: &Vec<String>) -> (statements: Statements)
    ensures
        full_statements(statements, table_name@, columns_of(views(field_names@))),
{
    let main_key_field = get_main_key();
    let field_names = columns(field_names);

    let selection_terms = join(&field_names, ", ");
    let mut selection_query = "SELECT ".to_owned();
    selection_query.append(main_key_field.as_str());
    selection_query.append(", ");
    selection_query.append(selection_terms.as_str());
    selection_query.append(" FROM ");
    selection_query.append(table_name);
    selection_query.append(" WHERE ");
    selection_query.append(main_key_field.as_str());
    selection_query.append(" = ?");

    let update_terms = join(&field_names, " = ?, ");
    let mut update_query = "UPDATE ".to_owned();
    update_query.append(table_name);
    update_query.append(" SET ");
    update_query.append(update_terms.as_str());
    update_query.append(" = ? WHERE ");
    update_query.append(main_key_field.as_str());
    update_query.append(" = ?");

    let mut load_all_query = "SELECT ".to_owned();
    load_all_query.append(main_key_field.as_str());
    load_all_query.append(", ");
    load_all_query.append(selection_terms.as_str());
    load_all_query.append(" FROM ");
    load_all_query.append(table_name);

    let insert_terms = join(&field_names, ", ");
    let question_marks = join(&marks(&field_names), ", ");
    let mut insert_query = "INSERT INTO ".to_owned();
    insert_query.append(table_name);
    insert_query.append(" (");
    insert_query.append(main_key_field.as_str());
    insert_query.append(", ");
    insert_query.append(insert_terms.as_str());
    insert_query.append(") VALUES (?,");
    insert_query.append(question_marks.as_str());
    insert_query.append(")");

    Statements { selection_query, update_query, insert_query: Some(insert_query), load_all_query }
}

/// The statements of a marker, a component without columns of its own: its
/// presence stands in a column of the table that is named after it.
pub fn marker_component(ident: &str, table_name: &str) -> (statements: Statements)
    ensures
        marker_statements(statements, ident@, table_name@),
{
    let marker_col = ident;
    let main_key_field = get_main_key();

    let mut selection_query = "SELECT ".to_owned();
    selection_query.append(marker_col);
    selection_query.append(" FROM ");
    selection_query.append(table_name);
    selection_query.append(" WHERE ");
    selection_query.append(main_key_field.as_str());
    selection_query.append(" = ?");

    let mut update_query = "UPDATE ".to_owned();
    update_query.append(table_name);
    update_query.append(" SET ");
    update_query.append(marker_col);
    update_query.append(" = ? WHERE ");
    update_query.append(main_key_field.as_str());
    update_query.append(" = ?");

    let mut load_all_query = "SELECT ".to_owned();
    load_all_query.append(main_key_field.as_str());
    load_all_query.append(" FROM ");
    load_all_query.append(table_name);
    load_all_query.append(" WHERE ");
    load_all_query.append(marker_col);
    load_all_query.append(" = ?");

    Statements { selection_query, update_query, insert_query: None, load_all_query }
}

/// The statements of a component: those of a marker if it has no field, and
/// those of a component with columns otherwise.
pub fn query_derive(ident: &str, table_name: &str, field_names: &Vec<String>) -> (statements:
    Statements)
    ensures
        field_names@.len() == 0 ==> marker_statements(statements, ident@, table_name@),
        field_names@.len() > 0 ==> full_statements(
            statements,
            table_name@,
            columns_of(views(field_names@)),
        ),
{
    if field_names.len() == 0 {
        marker_component(ident, table_name)
    } else {
        full_component(table_name, field_names)
    }
}

} // verus!
