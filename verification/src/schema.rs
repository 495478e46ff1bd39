//! What the derive of a model reads off the struct: which fields may be
//! absent, the column definitions, and the `unique` constraints.
use vstd::prelude::*;
use vstd::string::*;
use crate::text::{join, join_strings, quote_name, quoted, string_views};

verus! {

/// A field's type as the derive sees it: a path, by its segments' names,
/// or any other form of type.
pub enum FieldType {
    Path(Vec<String>),
    Other,
}

/// The field may be absent: its type is a path whose last segment is `Option`.
pub open spec fn optional_type(ty: FieldType) -> bool {
    match ty {
        FieldType::Path(segments) => segments@.len() > 0 && segments@.last()@ == "Option"@,
        FieldType::Other => false,
    }
}

/// Whether a field of this type may be absent, that is, stored as `NULL`.
pub fn is_optional(ty: &FieldType) -> (optional: bool)
    ensures
        optional == optional_type(*ty),
{
    match ty {
        FieldType::Path(segments) => {
            if segments.len() == 0 {
                false
            } else {
                let option = String::from_str("Option");
                segments[segments.len() - 1] == option
            }
        },
        FieldType::Other => false,
    }
}

/// A field may be absent exactly when its type is a path whose last segment
/// is `Option`: any other last segment, and any other form of type, gives a
/// column that may not be NULL.
pub proof fn lemma_optional_only_for_option(ty: FieldType)
    ensures
        optional_type(ty) ==> (ty matches FieldType::Path(segments) && segments@.len() > 0
            && segments@.last()@ == "Option"@),
        (ty matches FieldType::Path(segments) && segments@.len() > 0 && segments@.last()@
            == "Option"@) ==> optional_type(ty),
{
}

/// `"<name>" <type> NULL` for a field that may be absent, else `... NOT NULL`.
pub open spec fn column_definition_text(name: Seq<char>, sql_type: Seq<char>, optional: bool) -> Seq<
    char,
> {
    quoted(name) + " "@ + sql_type + " "@ + (if optional {
        "NULL"@
    } else {
        "NOT NULL"@
    })
}

/// A column definition is the quoted name, a space, the type, a space, and
/// then `NULL` when the field may be absent and `NOT NULL` when it may not.
pub proof fn lemma_column_definition_nullability(name: Seq<char>, sql_type: Seq<char>, optional: bool)
    ensures
        column_definition_text(name, sql_type, optional).subrange(0, (name.len() + sql_type.len() + 4) as int)
            == quoted(name) + " "@ + sql_type + " "@,
        optional ==> column_definition_text(name, sql_type, optional).subrange(
            (name.len() + sql_type.len() + 4) as int,
            column_definition_text(name, sql_type, optional).len() as int,
        ) == "NULL"@,
        !optional ==> column_definition_text(name, sql_type, optional).subrange(
            (name.len() + sql_type.len() + 4) as int,
            column_definition_text(name, sql_type, optional).len() as int,
        ) == "NOT NULL"@,
{
    reveal_strlit("\"");
    reveal_strlit(" ");
    let head = quoted(name) + " "@ + sql_type + " "@;
    let tail = if optional { "NULL"@ } else { "NOT NULL"@ };
    assert(head.len() == name.len() + sql_type.len() + 4);
    assert(column_definition_text(name, sql_type, optional) == head + tail);
    assert((head + tail).subrange(0, head.len() as int) =~= head);
    assert((head + tail).subrange(head.len() as int, (head + tail).len() as int) =~= tail);
}

/// The definition of one column in a `create table` statement.
pub fn column_definition(name: &str, sql_type: &str, optional: bool) -> (definition: String)
    ensures
        definition@ == column_definition_text(name@, sql_type@, optional),
{
    let mut definition = quote_name(name);
    definition.append(" ");
    definition.append(sql_type);
    definition.append(" ");
    if optional {
        definition.append("NULL");
    } else {
        definition.append("NOT NULL");
    }
    definition
}

/// A table constraint: the listed columns hold no two rows alike.
#[derive(Debug, PartialEq)]
pub enum Constraint {
    Unique(Vec<String>),
}

/// The column names of a constraint.
pub open spec fn constraint_columns(c: Constraint) -> Seq<Seq<char>> {
    match c {
        Constraint::Unique(columns) => string_views(columns@),
    }
}

/// `unique (<c1>,<c2>,...)`
pub open spec fn unique_text(columns: Seq<Seq<char>>) -> Seq<char> {
    "unique ("@ + join(columns, ","@) + ")"@
}

impl Constraint {
    /// The constraint as it stands in a `create table` statement.
    pub fn to_sql(&self) -> (sql: String)
        ensures
            sql@ == unique_text(constraint_columns(*self)),
    {
        match self {
            Constraint::Unique(columns) => {
                let mut sql = String::new();
                sql.append("unique (");
                let list = join_strings(columns, ",");
                sql.append(list.as_str());
                sql.append(")");
                assert(Seq::<char>::empty() + "unique ("@ =~= "unique ("@);
                sql
            },
        }
    }
}

/// The constraints' texts, in order.
pub open spec fn constraint_texts(constraints: Seq<Constraint>) -> Seq<Seq<char>> {
    constraints.map_values(|c: Constraint| unique_text(constraint_columns(c)))
}

/// Nothing when there are no constraints, else a comma and the constraints
/// separated by commas.
pub open spec fn constraints_text(constraints: Seq<Constraint>) -> Seq<char> {
    if constraints.len() == 0 {
        Seq::empty()
    } else {
        ","@ + join(constraint_texts(constraints), ","@)
    }
}

/// The text that follows the column definitions in a `create table` statement.
pub fn constraints_sql(constraints: &Vec<Constraint>) -> (sql: String)
    ensures
        sql@ == constraints_text(constraints@),
{
    if constraints.len() == 0 {
        return String::new();
    }
    let mut pieces: Vec<String> = Vec::new();
    let mut i: usize = 0;
    while i < constraints.len()
        invariant
            i <= constraints.len(),
            pieces@.len() == i,
            forall|j: int|
                0 <= j < i ==> #[trigger] pieces@[j]@ == unique_text(
                    constraint_columns(constraints@[j]),
                ),
        decreases constraints.len() - i,
    {
        let piece = constraints[i].to_sql();
        pieces.push(piece);
        i = i + 1;
    }
    assert(string_views(pieces@) =~= constraint_texts(constraints@));
    let mut sql = String::new();
    sql.append(",");
    let list = join_strings(&pieces, ",");
    sql.append(list.as_str());
    assert(Seq::<char>::empty() + ","@ =~= ","@);
    sql
}

/// The column definitions separated by `, `, then the constraints' text.
pub open spec fn table_definition_text(columns: Seq<Seq<char>>, constraints: Seq<char>) -> Seq<char> {
    join(columns, ", "@) + constraints
}

/// What stands between the brackets of a `create table` statement.
pub fn table_definition(column_definitions: &Vec<String>, constraints: &str) -> (definition: String)
    ensures
        definition@ == table_definition_text(string_views(column_definitions@), constraints@),
{
    let mut definition = join_strings(column_definitions, ", ");
    definition.append(constraints);
    definition
}

/// A field of the model as its column: name, SQL type, and whether it may
/// be absent.
pub struct ColumnSpec {
    pub name: String,
    pub sql_type: String,
    pub optional: bool,
}

/// The column definitions of the fields, in order.
pub open spec fn column_definition_texts(columns: Seq<ColumnSpec>) -> Seq<Seq<char>> {
    columns.map_values(
        |c: ColumnSpec| column_definition_text(c.name@, c.sql_type@, c.optional),
    )
}

/// Each field's column is defined from that field alone: the k-th
/// definition is the column definition of the k-th field's name, type and
/// optionality, whatever the other fields are.
pub proof fn lemma_each_column_defined_alone(columns: Seq<ColumnSpec>, k: int)
    requires
        0 <= k < columns.len(),
    ensures
        column_definition_texts(columns).len() == columns.len(),
        column_definition_texts(columns)[k] == column_definition_text(
            columns[k].name@,
            columns[k].sql_type@,
            columns[k].optional,
        ),
        column_definition_texts(columns)[k] == column_definition_texts(seq![columns[k]])[0],
{
}

/// The definition of each field's column, in the order of the fields.
pub fn column_definitions(columns: &Vec<ColumnSpec>) -> (definitions: Vec<String>)
    ensures
        string_views(definitions@) == column_definition_texts(columns@),
{
    let mut definitions: Vec<String> = Vec::new();
    let mut i: usize = 0;
    while i < columns.len()
        invariant
            i <= columns.len(),
            definitions@.len() == i,
            forall|j: int|
                0 <= j < i ==> #[trigger] definitions@[j]@ == column_definition_texts(
                    columns@,
                )[j],
        decreases columns.len() - i,
    {
        let column = &columns[i];
        let definition = column_definition(
            column.name.as_str(),
            column.sql_type.as_str(),
            column.optional,
        );
        definitions.push(definition);
        i = i + 1;
    }
    assert(string_views(definitions@) =~= column_definition_texts(columns@));
    definitions
}

/// One attribute of the struct, as the derive reads it.
pub struct AttributeInput {
    /// The attribute's path, when it is a single identifier.
    pub ident: Option<String>,
    /// The items of its bracketed list, when it has one that reads as a list
    /// of paths: each item's identifier, or `None` for a path that is not a
    /// single identifier.
    pub arguments: Option<Vec<Option<String>>>,
}

/// Why a `unique` attribute could not be read.
#[derive(Debug, Clone, Copy, PartialEq, Eq)]
pub enum AttributeError {
    /// An item of the list is not a single identifier.
    ExpectedIdentifier,
    /// The attribute has no list of paths.
    Malformed,
}

/// The attribute is `#[unique(...)]`.
pub open spec fn names_unique(a: AttributeInput) -> bool {
    a.ident matches Some(id) && id@ == "unique"@
}

/// Every item of the list is a single identifier.
pub open spec fn all_identifiers(args: Seq<Option<String>>) -> bool {
    forall|i: int| 0 <= i < args.len() ==> (#[trigger] args[i]) is Some
}

/// The identifiers of the items.
pub open spec fn identifier_texts(args: Seq<Option<String>>) -> Seq<Seq<char>> {
    args.map_values(
        |o: Option<String>|
            match o {
                Some(s) => s@,
                None => Seq::empty(),
            },
    )
}

/// The column names that a `unique` list names, or why it cannot be read.
pub open spec fn fields_result(args: Seq<Option<String>>) -> Result<Seq<Seq<char>>, AttributeError> {
    if all_identifiers(args) {
        Ok(identifier_texts(args))
    } else {
        Err(AttributeError::ExpectedIdentifier)
    }
}

/// The column lists of the `unique` attributes, in order, or the error of
/// the first one that cannot be read; other attributes are passed over.
pub open spec fn constraints_result(attrs: Seq<AttributeInput>) -> Result<
    Seq<Seq<Seq<char>>>,
    AttributeError,
>
    decreases attrs.len(),
{
    if attrs.len() == 0 {
        Ok(Seq::empty())
    } else {
        match constraints_result(attrs.drop_last()) {
            Err(e) => Err(e),
            Ok(found) => {
                let a = attrs.last();
                if !names_unique(a) {
                    Ok(found)
                } else {
                    match a.arguments {
                        None => Err(AttributeError::Malformed),
                        Some(args) => match fields_result(args@) {
                            Err(e) => Err(e),
                            Ok(columns) => Ok(found.push(columns)),
                        },
                    }
                }
            },
        }
    }
}

/// The texts of a list of strings, inside a result.
pub open spec fn fields_view(r: Result<Vec<String>, AttributeError>) -> Result<
    Seq<Seq<char>>,
    AttributeError,
> {
    match r {
        Ok(v) => Ok(string_views(v@)),
        Err(e) => Err(e),
    }
}

/// The column lists of constraints, inside a result.
pub open spec fn constraints_view(r: Result<Vec<Constraint>, AttributeError>) -> Result<
    Seq<Seq<Seq<char>>>,
    AttributeError,
> {
    match r {
        Ok(v) => Ok(v@.map_values(|c: Constraint| constraint_columns(c))),
        Err(e) => Err(e),
    }
}

/// An attribute whose name is not `unique` changes nothing, wherever it
/// stands; a readable `unique` attribute adds its column list as the last
/// constraint; an unreadable one makes the whole reading fail; once reading
/// has failed, later attributes do not change the error.
pub proof fn lemma_constraints_from_unique_only(attrs: Seq<AttributeInput>, a: AttributeInput)
    ensures
        !(a.ident matches Some(id) && id@ == "unique"@) ==> constraints_result(attrs.push(a))
            == constraints_result(attrs),
        (a.ident matches Some(id) && id@ == "unique"@) ==> match constraints_result(attrs) {
            Err(e) => constraints_result(attrs.push(a)) == Err::<
                Seq<Seq<Seq<char>>>,
                AttributeError,
            >(e),
            Ok(found) => match a.arguments {
                None => constraints_result(attrs.push(a)) == Err::<
                    Seq<Seq<Seq<char>>>,
                    AttributeError,
                >(AttributeError::Malformed),
                Some(args) => if forall|i: int| 0 <= i < args@.len() ==> (#[trigger] args@[i]) is Some {
                    constraints_result(attrs.push(a)) == Ok::<
                        Seq<Seq<Seq<char>>>,
                        AttributeError,
                    >(
                        found.push(
                            args@.map_values(
                                |o: Option<String>|
                                    match o {
                                        Some(s) => s@,
                                        None => Seq::empty(),
                                    },
                            ),
                        ),
                    )
                } else {
                    constraints_result(attrs.push(a)) == Err::<
                        Seq<Seq<Seq<char>>>,
                        AttributeError,
                    >(AttributeError::ExpectedIdentifier)
                },
            },
        },
        !(a.ident matches Some(id) && id@ == "unique"@) && constraints_result(attrs) is Err
            ==> constraints_result(attrs.push(a)) == constraints_result(attrs),
{
    assert(attrs.push(a).drop_last() =~= attrs);
    assert(attrs.push(a).last() == a);
}

/// The column names of a `unique` attribute's list.
pub fn parse_attr_fields(arguments: &Vec<Option<String>>) -> (fields: Result<
    Vec<String>,
    AttributeError,
>)
    ensures
        fields_view(fields) == fields_result(arguments@),
{
    let mut fields: Vec<String> = Vec::new();
    let mut i: usize = 0;
    while i < arguments.len()
        invariant
            i <= arguments.len(),
            fields@.len() == i,
            forall|j: int| 0 <= j < i ==> (#[trigger] arguments@[j]) is Some,
            forall|j: int|
                0 <= j < i ==> #[trigger] fields@[j]@ == identifier_texts(arguments@)[j],
        decreases arguments.len() - i,
    {
        match &arguments[i] {
            Some(ident) => {
                fields.push(ident.clone());
            },
            None => {
                return Err(AttributeError::ExpectedIdentifier);
            },
        }
        i = i + 1;
    }
    assert(string_views(fields@) =~= identifier_texts(arguments@));
    Ok(fields)
}

proof fn lemma_constraints_error_stays(attrs: Seq<AttributeInput>, k: int, e: AttributeError)
    requires
        0 <= k <= attrs.len(),
        constraints_result(attrs.take(k)) == Err::<Seq<Seq<Seq<char>>>, AttributeError>(e),
    ensures
        constraints_result(attrs) == Err::<Seq<Seq<Seq<char>>>, AttributeError>(e),
    decreases attrs.len(),
{
    if k == attrs.len() {
        assert(attrs.take(k) =~= attrs);
    } else {
        assert(attrs.drop_last().take(k) =~= attrs.take(k));
        lemma_constraints_error_stays(attrs.drop_last(), k, e);
    }
}

/// The constraints that the struct's `unique` attributes ask for.
pub fn parse_attrs(attrs: &Vec<AttributeInput>) -> (constraints: Result<
    Vec<Constraint>,
    AttributeError,
>)
    ensures
        constraints_view(constraints) == constraints_result(attrs@),
{
    let unique = String::from_str("unique");
    let mut constraints: Vec<Constraint> = Vec::new();
    let mut i: usize = 0;
    assert(attrs@.take(0) =~= Seq::<AttributeInput>::empty());
    assert(constraints@.map_values(|c: Constraint| constraint_columns(c)) =~= Seq::empty());
    while i < attrs.len()
        invariant
            i <= attrs.len(),
            unique@ == "unique"@,
            constraints_result(attrs@.take(i as int)) == Ok::<
                Seq<Seq<Seq<char>>>,
                AttributeError,
            >(constraints@.map_values(|c: Constraint| constraint_columns(c))),
        decreases attrs.len() - i,
    {
        let attr = &attrs[i];
        assert(attrs@.take(i + 1).drop_last() =~= attrs@.take(i as int));
        let is_unique = match &attr.ident {
            Some(ident) => *ident == unique,
            None => false,
        };
        if is_unique {
            match &attr.arguments {
                None => {
                    proof {
                        lemma_constraints_error_stays(attrs@, i + 1, AttributeError::Malformed);
                    }
                    return Err(AttributeError::Malformed);
                },
                Some(arguments) => {
                    match parse_attr_fields(arguments) {
                        Ok(fields) => {
                            let ghost before = constraints@;
                            constraints.push(Constraint::Unique(fields));
                            assert(constraints@.map_values(|c: Constraint| constraint_columns(c))
                                =~= before.map_values(|c: Constraint| constraint_columns(c)).push(
                                string_views(fields@),
                            ));
                        },
                        Err(e) => {
                            proof {
                                lemma_constraints_error_stays(attrs@, i + 1, e);
                            }
                            return Err(e);
                        },
                    }
                },
            }
        }
        i = i + 1;
    }
    assert(attrs@.take(attrs.len() as int) =~= attrs@);
    Ok(constraints)
}

} // verus!
