use modelite::schema::{
    column_definition, column_definitions, ColumnSpec, constraints_sql, is_optional, parse_attr_fields, parse_attrs,
    table_definition, AttributeError, AttributeInput, Constraint, FieldType,
};

fn strings(items: &[&str]) -> Vec<String> {
    items.iter().map(|s| s.to_string()).collect()
}

#[test]
fn optional_fields() {
    assert!(is_optional(&FieldType::Path(strings(&["Option"]))));
    assert!(is_optional(&FieldType::Path(strings(&["std", "option", "Option"]))));
    assert!(!is_optional(&FieldType::Path(strings(&["String"]))));
    assert!(!is_optional(&FieldType::Path(strings(&["Option", "Inner"]))));
    assert!(!is_optional(&FieldType::Path(vec![])));
    assert!(!is_optional(&FieldType::Other));
}

#[test]
fn column_definition_texts_by_hand() {
    assert_eq!(column_definition("name", "TEXT", false), "\"name\" TEXT NOT NULL");
    assert_eq!(column_definition("age", "INTEGER", true), "\"age\" INTEGER NULL");
    let defs = vec![column_definition("a", "TEXT", false), column_definition("b", "BLOB", true)];
    assert_eq!(table_definition(&defs, ""), "\"a\" TEXT NOT NULL, \"b\" BLOB NULL");
    assert_eq!(table_definition(&vec![], ""), "");
}

#[test]
fn constraint_text() {
    let c = Constraint::Unique(strings(&["a", "b"]));
    assert_eq!(c.to_sql(), "unique (a,b)");
    assert_eq!(Constraint::Unique(vec![]).to_sql(), "unique ()");
    assert_eq!(constraints_sql(&vec![]), "");
    assert_eq!(constraints_sql(&vec![c]), ",unique (a,b)");
    let two = vec![Constraint::Unique(strings(&["a"])), Constraint::Unique(strings(&["b", "c"]))];
    assert_eq!(constraints_sql(&two), ",unique (a),unique (b,c)");
    let defs = vec![column_definition("a", "TEXT", false)];
    assert_eq!(table_definition(&defs, &constraints_sql(&two)), "\"a\" TEXT NOT NULL,unique (a),unique (b,c)");
}

fn attr(ident: Option<&str>, arguments: Option<Vec<Option<&str>>>) -> AttributeInput {
    AttributeInput {
        ident: ident.map(|s| s.to_string()),
        arguments: arguments.map(|args| args.into_iter().map(|a| a.map(|s| s.to_string())).collect()),
    }
}

#[test]
fn attribute_fields() {
    let args = vec![Some("a".to_string()), Some("b".to_string())];
    assert_eq!(parse_attr_fields(&args), Ok(strings(&["a", "b"])));
    assert_eq!(parse_attr_fields(&vec![]), Ok(vec![]));
    let bad = vec![Some("a".to_string()), None];
    assert_eq!(parse_attr_fields(&bad), Err(AttributeError::ExpectedIdentifier));
}

#[test]
fn attributes_to_constraints() {
    let attrs = vec![
        attr(Some("doc"), None),
        attr(Some("unique"), Some(vec![Some("country"), Some("place")])),
        attr(None, Some(vec![None])),
        attr(Some("unique"), Some(vec![Some("street")])),
    ];
    assert_eq!(
        parse_attrs(&attrs),
        Ok(vec![
            Constraint::Unique(strings(&["country", "place"])),
            Constraint::Unique(strings(&["street"])),
        ])
    );
    assert_eq!(parse_attrs(&vec![]), Ok(vec![]));
}

#[test]
fn attribute_errors() {
    let not_ident = vec![attr(Some("unique"), Some(vec![Some("a"), None]))];
    assert_eq!(parse_attrs(&not_ident), Err(AttributeError::ExpectedIdentifier));
    let no_list = vec![attr(Some("unique"), None)];
    assert_eq!(parse_attrs(&no_list), Err(AttributeError::Malformed));
    let first_error_wins = vec![attr(Some("unique"), None), attr(Some("unique"), Some(vec![None]))];
    assert_eq!(parse_attrs(&first_error_wins), Err(AttributeError::Malformed));
    let other_ignored = vec![attr(Some("serde"), Some(vec![None]))];
    assert_eq!(parse_attrs(&other_ignored), Ok(vec![]));
}

#[test]
fn definitions_of_fields() {
    let columns = vec![
        ColumnSpec { name: "name".to_string(), sql_type: "TEXT".to_string(), optional: false },
        ColumnSpec { name: "age".to_string(), sql_type: "INTEGER".to_string(), optional: true },
    ];
    let definitions = column_definitions(&columns);
    assert_eq!(definitions, vec!["\"name\" TEXT NOT NULL".to_string(), "\"age\" INTEGER NULL".to_string()]);
    assert_eq!(
        table_definition(&definitions, ""),
        r#""name" TEXT NOT NULL, "age" INTEGER NULL"#
    );
    assert!(column_definitions(&vec![]).is_empty());
}
