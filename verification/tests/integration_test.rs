use modelite::schema::{column_definition, constraints_sql, is_optional, table_definition, Constraint, FieldType};
use modelite::{util, BaseModel};

fn keep(s: String) -> &'static str {
    Box::leak(s.into_boxed_str())
}

fn path(segments: &[&str]) -> FieldType {
    FieldType::Path(segments.iter().map(|s| s.to_string()).collect())
}

/// What the derive of `BaseModel` writes for a struct, given its name, its
/// fields (name, SQL type, field type) and its constraints.
fn create_table_for<M: BaseModel>(fields: &[(&str, &str, FieldType)], constraints: Vec<Constraint>) -> String {
    let definitions: Vec<String> = fields
        .iter()
        .map(|(name, sql_type, ty)| column_definition(name, sql_type, is_optional(ty)))
        .collect();
    let constraints = constraints_sql(&constraints);
    util::create_table_sql::<M>(&table_definition(&definitions, &constraints))
}

#[allow(unused)]
struct Student {
    pub name: String,
    pub age: Option<u32>,
}

impl BaseModel for Student {
    const TABLE_NAME: &'static str = "Student";
    const COLUMNS: &'static [&'static str] = &["name", "age"];

    fn create_table_sql() -> &'static str {
        keep(create_table_for::<Self>(
            &[("name", "TEXT", path(&["String"])), ("age", "INTEGER", path(&["Option"]))],
            vec![],
        ))
    }

    fn insert_sql() -> &'static str {
        keep(util::insert_sql::<Self>())
    }

    fn insert_one_sql() -> &'static str {
        keep(util::insert_one_sql::<Self>())
    }

    fn select_sql() -> &'static str {
        keep(util::select_sql::<Self>())
    }

    fn drop_table_sql() -> &'static str {
        keep(util::drop_table_sql::<Self>())
    }
}

#[test]
fn test_basemodel() {
    assert_eq!(Student::table_name(), "Student");
    assert_eq!(Student::COLUMNS, ["name", "age"]);

    assert_eq!(Student::create_table_sql(), r#"create table if not exists "Student" ("name" TEXT NOT NULL, "age" INTEGER NULL)"#);
}

#[test]
fn student_statements() {
    assert_eq!(Student::insert_sql(), r#"insert into "Student" ("name","age")"#);
    assert_eq!(Student::insert_one_sql(), r#"insert into "Student" ("name","age") values (?,?)"#);
    assert_eq!(Student::select_sql(), r#"select "Student"."name","Student"."age" from "Student""#);
    assert_eq!(Student::drop_table_sql(), r#"drop table if exists "Student""#);
    assert!(Student::insert_one_sql().starts_with(Student::insert_sql()));
    assert_eq!(Student::insert_one_sql().matches('?').count(), Student::COLUMNS.len());
}

#[allow(unused)]
struct House {
    country: String,
    place: String,
    street: String,
    house_number: String,
}

impl BaseModel for House {
    const TABLE_NAME: &'static str = "House";
    const COLUMNS: &'static [&'static str] = &["country", "place", "street", "house_number"];

    fn create_table_sql() -> &'static str {
        let unique = Constraint::Unique(
            ["country", "place", "street", "house_number"].iter().map(|s| s.to_string()).collect(),
        );
        keep(create_table_for::<Self>(
            &[
                ("country", "TEXT", path(&["String"])),
                ("place", "TEXT", path(&["String"])),
                ("street", "TEXT", path(&["String"])),
                ("house_number", "TEXT", path(&["String"])),
            ],
            vec![unique],
        ))
    }

    fn insert_sql() -> &'static str {
        keep(util::insert_sql::<Self>())
    }

    fn insert_one_sql() -> &'static str {
        keep(util::insert_one_sql::<Self>())
    }

    fn select_sql() -> &'static str {
        keep(util::select_sql::<Self>())
    }

    fn drop_table_sql() -> &'static str {
        keep(util::drop_table_sql::<Self>())
    }
}

#[test]
fn unique_constraint_in_create_table() {
    assert_eq!(
        House::create_table_sql(),
        r#"create table if not exists "House" ("country" TEXT NOT NULL, "place" TEXT NOT NULL, "street" TEXT NOT NULL, "house_number" TEXT NOT NULL,unique (country,place,street,house_number))"#
    );
    assert_eq!(
        House::insert_one_sql(),
        r#"insert into "House" ("country","place","street","house_number") values (?,?,?,?)"#
    );
}
