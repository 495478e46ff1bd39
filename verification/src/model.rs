//! The description a model type gives of its table, and the last piece of
//! a type's path, which names a model's table.
use vstd::prelude::*;
use vstd::string::*;

verus! {

/// Whether the text holds the path separator `::` at position `j`.
pub open spec fn separator_at(s: Seq<char>, j: int) -> bool {
    0 <= j && j + 1 < s.len() && s[j] == ':' && s[j + 1] == ':'
}

/// Where the last piece of `s` starts when `s` is split on `::` from left
/// to right, the scan standing at `i` and the current piece starting at `start`.
pub open spec fn last_piece_start(s: Seq<char>, i: int, start: int) -> int
    decreases s.len() - i,
{
    if i + 1 >= s.len() {
        start
    } else if separator_at(s, i) {
        last_piece_start(s, i + 2, i + 2)
    } else {
        last_piece_start(s, i + 1, start)
    }
}

/// The last of the pieces that `s` splits into on `::` (the whole of `s`
/// when it holds no `::`).
pub open spec fn last_path_piece(s: Seq<char>) -> Seq<char> {
    s.skip(last_piece_start(s, 0, 0))
}

proof fn lemma_last_piece_start(s: Seq<char>, i: int, start: int)
    requires
        0 <= start <= i <= s.len(),
        forall|j: int| start <= j < i ==> !#[trigger] separator_at(s, j),
    ensures
        0 <= last_piece_start(s, i, start) <= s.len(),
        forall|j: int|
            last_piece_start(s, i, start) <= j ==> !#[trigger] separator_at(s, j),
        (forall|j: int| i <= j ==> !#[trigger] separator_at(s, j)) ==> last_piece_start(
            s,
            i,
            start,
        ) == start,
    decreases s.len() - i,
{
    if i + 1 >= s.len() {
    } else if separator_at(s, i) {
        lemma_last_piece_start(s, i + 2, i + 2);
    } else {
        lemma_last_piece_start(s, i + 1, start);
    }
}

/// The last piece of a path is a suffix of the path that holds no `::`;
/// a path without `::` is its own last piece.
pub proof fn lemma_last_path_piece(path: Seq<char>)
    ensures
        path.len() >= last_path_piece(path).len(),
        path.skip(path.len() - last_path_piece(path).len()) == last_path_piece(path),
        forall|j: int| !#[trigger] separator_at(last_path_piece(path), j),
        (forall|j: int| !#[trigger] separator_at(path, j)) ==> last_path_piece(path) == path,
{
    lemma_last_piece_start(path, 0, 0);
    let k = last_piece_start(path, 0, 0);
    let piece = last_path_piece(path);
    assert forall|j: int| !#[trigger] separator_at(piece, j) by {
        if separator_at(piece, j) {
            assert(separator_at(path, k + j));
        }
    }
    if forall|j: int| !#[trigger] separator_at(path, j) {
        assert(path.skip(0) =~= path);
    }
}

/// The last piece of a `::`-separated path: `a::b::C` gives `C`.
pub fn last_path_segment(path: &str) -> (name: &str)
    ensures
        name@ == last_path_piece(path@),
{
    let n = path.unicode_len();
    let mut i: usize = 0;
    let mut start: usize = 0;
    while i < n && i + 1 < n
        invariant
            n == path@.len(),
            start <= i <= n,
            last_piece_start(path@, i as int, start as int) == last_piece_start(path@, 0, 0),
        decreases n - i,
    {
        if path.get_char(i) == ':' && path.get_char(i + 1) == ':' {
            i = i + 2;
            start = i;
        } else {
            i = i + 1;
        }
    }
    proof {
        lemma_last_piece_start(path@, 0, 0);
    }
    path.substring_char(start, n)
}

/// What a model type tells of its table. The derive of a model writes it;
/// each statement is built once and kept.
pub trait BaseModel: Sized {
    /// The name of the model's table.
    const TABLE_NAME: &'static str;

    /// The column names, in the order of the fields.
    const COLUMNS: &'static [&'static str];

    /// The table's name, `TABLE_NAME`. An impl that overrides it must
    /// give the same name: the statements of `util` are stated over
    /// `TABLE_NAME`.
    fn table_name() -> (name: &'static str)
        ensures
            name@ == Self::TABLE_NAME@,
    {
        Self::TABLE_NAME
    }

    fn create_table_sql() -> &'static str;

    fn insert_sql() -> &'static str;

    fn insert_one_sql() -> &'static str;

    fn select_sql() -> &'static str;

    fn drop_table_sql() -> &'static str;
}

} // verus!
