# modelite

Builds the SQL statements of a table for a model type (create, insert,
insert one row, select, drop), decides what a model's derive makes of the
struct (which fields may be absent, the column definitions, the `unique`
constraints), and splits the rows of a bulk insert into chunks that stay
within SQLite's limit on bound variables. All of that is verified in
`src/`; reading the struct's syntax into the library's plain values is
done in `app/`.

`app/` holds what talks to SQLite through sqlx (running the statements,
reading the variable limit off a raw connection) and the derives of
`BaseModel` and `Model`, written over `proc_macro2`, `syn` and `quote`.
