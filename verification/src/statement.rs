//! The SQL statements of a table, built from its name and its column names.
use vstd::prelude::*;
use vstd::string::*;
use crate::text::{join, quoted, str_views, string_views, join_strings, quote_name};

verus! {

/// `create table if not exists "<table>" (<definition>)`
pub open spec fn create_table_text(table: Seq<char>, definition: Seq<char>) -> Seq<char> {
    "create table if not exists "@ + quoted(table) + " ("@ + definition + ")"@
}

/// The quoted column names, separated by commas.
pub open spec fn column_list_text(columns: Seq<Seq<char>>) -> Seq<char> {
    join(columns.map_values(|c: Seq<char>| quoted(c)), ","@)
}

/// `insert into "<table>" ("<c1>","<c2>",...)`
pub open spec fn insert_text(table: Seq<char>, columns: Seq<Seq<char>>) -> Seq<char> {
    "insert into "@ + quoted(table) + " ("@ + column_list_text(columns) + ")"@
}

/// `n` question marks, separated by commas.
pub open spec fn placeholders_text(n: nat) -> Seq<char> {
    join(Seq::new(n, |i: int| "?"@), ","@)
}

/// `insert into "<table>" (<columns>) values (?,?,...)`, one `?` per column.
pub open spec fn insert_one_text(table: Seq<char>, columns: Seq<Seq<char>>) -> Seq<char> {
    insert_text(table, columns) + " values ("@ + placeholders_text(columns.len()) + ")"@
}

/// Each column written as `"<table>"."<column>"`, separated by commas.
pub open spec fn qualified_column_list_text(table: Seq<char>, columns: Seq<Seq<char>>) -> Seq<char> {
    join(columns.map_values(|c: Seq<char>| quoted(table) + "."@ + quoted(c)), ","@)
}

/// `select "<table>"."<c1>",... from "<table>"`
pub open spec fn select_text(table: Seq<char>, columns: Seq<Seq<char>>) -> Seq<char> {
    "select "@ + qualified_column_list_text(table, columns) + " from "@ + quoted(table)
}

/// `drop table if exists "<table>"`
pub open spec fn drop_table_text(table: Seq<char>) -> Seq<char> {
    "drop table if exists "@ + quoted(table)
}

/// The placeholders of a one-row insert are `?,?,...,?` with exactly one
/// `?` per column: question marks at the even positions, commas between them.
pub proof fn lemma_placeholders_text(n: nat)
    ensures
        placeholders_text(n).len() == if n == 0 {
            0
        } else {
            2 * n - 1
        },
        forall|i: int|
            0 <= i < placeholders_text(n).len() ==> #[trigger] placeholders_text(n)[i] == if i % 2
                == 0 {
                '?'
            } else {
                ','
            },
    decreases n,
{
    reveal_strlit("?");
    reveal_strlit(",");
    let parts = Seq::new(n, |i: int| "?"@);
    if n == 0 {
    } else if n == 1 {
        assert(placeholders_text(1) == parts[0]);
    } else {
        lemma_placeholders_text((n - 1) as nat);
        assert(parts.drop_last() =~= Seq::new((n - 1) as nat, |i: int| "?"@));
        let prev = placeholders_text((n - 1) as nat);
        assert(placeholders_text(n) == prev + ","@ + "?"@);
        assert forall|i: int|
            0 <= i < placeholders_text(n).len() implies #[trigger] placeholders_text(n)[i] == if i
            % 2 == 0 {
            '?'
        } else {
            ','
        } by {
            if i < prev.len() {
                assert(placeholders_text(n)[i] == prev[i]);
            }
        }
    }
}

/// How many times `c` stands in `s`.
pub open spec fn count_char(s: Seq<char>, c: char) -> nat
    decreases s.len(),
{
    if s.len() == 0 {
        0
    } else {
        count_char(s.drop_last(), c) + if s.last() == c {
            1nat
        } else {
            0nat
        }
    }
}

proof fn lemma_count_concat(a: Seq<char>, b: Seq<char>, c: char)
    ensures
        count_char(a + b, c) == count_char(a, c) + count_char(b, c),
    decreases b.len(),
{
    if b.len() == 0 {
        assert(a + b =~= a);
    } else {
        assert((a + b).drop_last() =~= a + b.drop_last());
        lemma_count_concat(a, b.drop_last(), c);
    }
}

proof fn lemma_count_absent(s: Seq<char>, c: char)
    requires
        forall|i: int| 0 <= i < s.len() ==> s[i] != c,
    ensures
        count_char(s, c) == 0,
    decreases s.len(),
{
    if s.len() > 0 {
        lemma_count_absent(s.drop_last(), c);
    }
}

proof fn lemma_count_join(parts: Seq<Seq<char>>, sep: Seq<char>, c: char)
    requires
        count_char(sep, c) == 0,
        forall|i: int| 0 <= i < parts.len() ==> count_char(#[trigger] parts[i], c) == 0,
    ensures
        count_char(join(parts, sep), c) == 0,
    decreases parts.len(),
{
    if parts.len() > 1 {
        lemma_count_join(parts.drop_last(), sep, c);
        lemma_count_concat(join(parts.drop_last(), sep), sep, c);
        lemma_count_concat(join(parts.drop_last(), sep) + sep, parts.last(), c);
    }
}

proof fn lemma_placeholders_count(n: nat)
    ensures
        count_char(placeholders_text(n), '?') == n,
    decreases n,
{
    reveal_strlit("?");
    reveal_strlit(",");
    let parts = Seq::new(n, |i: int| "?"@);
    assert("?"@.drop_last() =~= Seq::<char>::empty());
    assert(count_char(Seq::<char>::empty(), '?') == 0);
    assert(count_char("?"@, '?') == 1);
    lemma_count_absent(","@, '?');
    if n == 0 {
        assert(placeholders_text(0) == Seq::<char>::empty());
    } else if n == 1 {
        assert(placeholders_text(1) == parts[0]);
    } else {
        lemma_placeholders_count((n - 1) as nat);
        assert(parts.drop_last() =~= Seq::new((n - 1) as nat, |i: int| "?"@));
        let prev = placeholders_text((n - 1) as nat);
        assert(placeholders_text(n) == prev + ","@ + "?"@);
        lemma_count_concat(prev, ","@, '?');
        lemma_count_concat(prev + ","@, "?"@, '?');
    }
}

/// A one-row insert holds exactly one `?` per column, when neither the
/// table name nor a column name holds a `?`.
pub proof fn lemma_one_placeholder_per_column(table: Seq<char>, columns: Seq<Seq<char>>)
    requires
        count_char(table, '?') == 0,
        forall|i: int| 0 <= i < columns.len() ==> count_char(#[trigger] columns[i], '?') == 0,
    ensures
        count_char(insert_one_text(table, columns), '?') == columns.len(),
{
    reveal_strlit("\"");
    reveal_strlit(",");
    reveal_strlit("insert into ");
    reveal_strlit(" (");
    reveal_strlit(")");
    reveal_strlit(" values (");
    lemma_count_absent("\""@, '?');
    lemma_count_absent(","@, '?');
    lemma_count_absent("insert into "@, '?');
    lemma_count_absent(" ("@, '?');
    lemma_count_absent(")"@, '?');
    lemma_count_absent(" values ("@, '?');
    let quoted_columns = columns.map_values(|c: Seq<char>| quoted(c));
    assert forall|i: int| 0 <= i < quoted_columns.len() implies count_char(
        #[trigger] quoted_columns[i],
        '?',
    ) == 0 by {
        lemma_count_concat("\""@, columns[i], '?');
        lemma_count_concat("\""@ + columns[i], "\""@, '?');
    }
    lemma_count_join(quoted_columns, ","@, '?');
    lemma_count_concat("\""@, table, '?');
    lemma_count_concat("\""@ + table, "\""@, '?');
    let list = column_list_text(columns);
    lemma_count_concat("insert into "@, quoted(table), '?');
    lemma_count_concat("insert into "@ + quoted(table), " ("@, '?');
    lemma_count_concat("insert into "@ + quoted(table) + " ("@, list, '?');
    lemma_count_concat("insert into "@ + quoted(table) + " ("@ + list, ")"@, '?');
    let insert = insert_text(table, columns);
    lemma_placeholders_count(columns.len());
    lemma_count_concat(insert, " values ("@, '?');
    lemma_count_concat(insert + " values ("@, placeholders_text(columns.len()), '?');
    lemma_count_concat(
        insert + " values ("@ + placeholders_text(columns.len()),
        ")"@,
        '?',
    );
}

/// The one-row insert of a table begins with its insert statement, and
/// goes on with the `values` clause.
pub proof fn lemma_insert_one_extends_insert(table: Seq<char>, columns: Seq<Seq<char>>)
    ensures
        insert_one_text(table, columns).len() >= insert_text(table, columns).len(),
        insert_one_text(table, columns).subrange(0, insert_text(table, columns).len() as int)
            == insert_text(table, columns),
{
    let insert = insert_text(table, columns);
    let rest = " values ("@ + placeholders_text(columns.len()) + ")"@;
    assert(insert_one_text(table, columns) =~= insert + rest);
    assert((insert + rest).subrange(0, insert.len() as int) =~= insert);
}

/// The column list of an insert names every column, in order: no column
/// gives the empty list, one column gives that column quoted, and one
/// more column adds a comma and that column quoted at the end.
pub proof fn lemma_column_list_names_every_column(columns: Seq<Seq<char>>, c: Seq<char>)
    ensures
        column_list_text(Seq::empty()) == Seq::<char>::empty(),
        column_list_text(seq![c]) == quoted(c),
        columns.len() > 0 ==> column_list_text(columns.push(c)) == column_list_text(columns)
            + ","@ + quoted(c),
{
    let f = |x: Seq<char>| quoted(x);
    assert(Seq::<Seq<char>>::empty().map_values(f) =~= Seq::<Seq<char>>::empty());
    assert(seq![c].map_values(f) =~= seq![quoted(c)]);
    if columns.len() > 0 {
        let pushed = columns.push(c).map_values(f);
        assert(pushed.drop_last() =~= columns.map_values(f));
        assert(pushed.last() == quoted(c));
    }
}

/// The column list of a select reads every column of the table, in order:
/// no column gives the empty list, one column gives `"table"."column"`, and
/// one more column adds a comma and `"table"."column"` at the end.
pub proof fn lemma_select_reads_every_column(
    table: Seq<char>,
    columns: Seq<Seq<char>>,
    c: Seq<char>,
)
    ensures
        qualified_column_list_text(table, Seq::empty()) == Seq::<char>::empty(),
        qualified_column_list_text(table, seq![c]) == quoted(table) + "."@ + quoted(c),
        columns.len() > 0 ==> qualified_column_list_text(table, columns.push(c))
            == qualified_column_list_text(table, columns) + ","@ + (quoted(table) + "."@ + quoted(
            c,
        )),
{
    let f = |x: Seq<char>| quoted(table) + "."@ + quoted(x);
    assert(Seq::<Seq<char>>::empty().map_values(f) =~= Seq::<Seq<char>>::empty());
    assert(seq![c].map_values(f) =~= seq![quoted(table) + "."@ + quoted(c)]);
    if columns.len() > 0 {
        let pushed = columns.push(c).map_values(f);
        assert(pushed.drop_last() =~= columns.map_values(f));
        assert(pushed.last() == quoted(table) + "."@ + quoted(c));
    }
}

/// The statement that creates the table with the given column definitions
/// and constraints, unless it exists.
pub fn create_table_statement(table: &str, definition: &str) -> (sql: String)
    ensures
        sql@ == create_table_text(table@, definition@),
{
    let mut sql = String::new();
    sql.append("create table if not exists ");
    let q = quote_name(table);
    sql.append(q.as_str());
    sql.append(" (");
    sql.append(definition);
    sql.append(")");
    assert(Seq::<char>::empty() + "create table if not exists "@ =~= "create table if not exists "@);
    sql
}

/// The quoted column names, separated by commas.
pub fn column_list(columns: &[&str]) -> (list: String)
    ensures
        list@ == column_list_text(str_views(columns@)),
{
    let ghost names = str_views(columns@);
    let mut pieces: Vec<String> = Vec::new();
    let mut i: usize = 0;
    while i < columns.len()
        invariant
            i <= columns.len(),
            names == str_views(columns@),
            pieces@.len() == i,
            forall|j: int| 0 <= j < i ==> #[trigger] pieces@[j]@ == quoted(names[j]),
        decreases columns.len() - i,
    {
        let q = quote_name(columns[i]);
        pieces.push(q);
        i = i + 1;
    }
    assert(string_views(pieces@) =~= names.map_values(|c: Seq<char>| quoted(c)));
    join_strings(&pieces, ",")
}

/// The statement that inserts rows into the table, up to (not including)
/// its `values` clause.
pub fn insert_statement(table: &str, columns: &[&str]) -> (sql: String)
    ensures
        sql@ == insert_text(table@, str_views(columns@)),
{
    let mut sql = String::new();
    sql.append("insert into ");
    let q = quote_name(table);
    sql.append(q.as_str());
    sql.append(" (");
    let list = column_list(columns);
    sql.append(list.as_str());
    sql.append(")");
    assert(Seq::<char>::empty() + "insert into "@ =~= "insert into "@);
    sql
}

/// `n` question marks, separated by commas.
pub fn placeholders(n: usize) -> (list: String)
    ensures
        list@ == placeholders_text(n as nat),
{
    let mut pieces: Vec<String> = Vec::new();
    let mut i: usize = 0;
    while i < n
        invariant
            i <= n,
            pieces@.len() == i,
            forall|j: int| 0 <= j < i ==> #[trigger] pieces@[j]@ == "?"@,
        decreases n - i,
    {
        pieces.push(String::from_str("?"));
        i = i + 1;
    }
    assert(string_views(pieces@) =~= Seq::new(n as nat, |j: int| "?"@));
    join_strings(&pieces, ",")
}

/// The statement that inserts one row, with one `?` placeholder per column.
pub fn insert_one_statement(table: &str, columns: &[&str]) -> (sql: String)
    ensures
        sql@ == insert_one_text(table@, str_views(columns@)),
{
    let mut sql = insert_statement(table, columns);
    sql.append(" values (");
    let marks = placeholders(columns.len());
    sql.append(marks.as_str());
    sql.append(")");
    sql
}

/// Each column written as `"<table>"."<column>"`, separated by commas.
pub fn qualified_column_list(table: &str, columns: &[&str]) -> (list: String)
    ensures
        list@ == qualified_column_list_text(table@, str_views(columns@)),
{
    let ghost names = str_views(columns@);
    let qt = quote_name(table);
    let mut pieces: Vec<String> = Vec::new();
    let mut i: usize = 0;
    while i < columns.len()
        invariant
            i <= columns.len(),
            names == str_views(columns@),
            qt@ == quoted(table@),
            pieces@.len() == i,
            forall|j: int|
                0 <= j < i ==> #[trigger] pieces@[j]@ == quoted(table@) + "."@ + quoted(names[j]),
        decreases columns.len() - i,
    {
        let mut piece = qt.clone();
        piece.append(".");
        let qc = quote_name(columns[i]);
        piece.append(qc.as_str());
        pieces.push(piece);
        i = i + 1;
    }
    assert(string_views(pieces@) =~= names.map_values(
        |c: Seq<char>| quoted(table@) + "."@ + quoted(c),
    ));
    join_strings(&pieces, ",")
}

/// The statement that reads every column of every row of the table.
pub fn select_statement(table: &str, columns: &[&str]) -> (sql: String)
    ensures
        sql@ == select_text(table@, str_views(columns@)),
{
    let mut sql = String::new();
    sql.append("select ");
    let list = qualified_column_list(table, columns);
    sql.append(list.as_str());
    sql.append(" from ");
    let q = quote_name(table);
    sql.append(q.as_str());
    assert(Seq::<char>::empty() + "select "@ =~= "select "@);
    sql
}

/// The statement that removes the table, if it exists.
pub fn drop_table_statement(table: &str) -> (sql: String)
    ensures
        sql@ == drop_table_text(table@),
{
    let mut sql = String::new();
    sql.append("drop table if exists ");
    let q = quote_name(table);
    sql.append(q.as_str());
    assert(Seq::<char>::empty() + "drop table if exists "@ =~= "drop table if exists "@);
    sql
}

} // verus!
