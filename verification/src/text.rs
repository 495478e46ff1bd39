//! Text building blocks: joining pieces with a separator and quoting names.
use vstd::prelude::*;
use vstd::string::*;

verus! {

/// The pieces written one after another with `sep` between each two of them.
pub open spec fn join(parts: Seq<Seq<char>>, sep: Seq<char>) -> Seq<char>
    decreases parts.len(),
{
    if parts.len() == 0 {
        Seq::empty()
    } else if parts.len() == 1 {
        parts[0]
    } else {
        join(parts.drop_last(), sep) + sep + parts.last()
    }
}

/// The texts of a list of strings.
pub open spec fn string_views(parts: Seq<String>) -> Seq<Seq<char>> {
    parts.map_values(|s: String| s@)
}

/// The texts of a list of string slices.
pub open spec fn str_views(parts: Seq<&str>) -> Seq<Seq<char>> {
    parts.map_values(|s: &str| s@)
}

/// A name between double quotes, the way SQL quotes an identifier.
pub open spec fn quoted(name: Seq<char>) -> Seq<char> {
    "\""@ + name + "\""@
}

/// A quoted name is the name with one double quote before it and one after.
pub proof fn lemma_quoted_shape(name: Seq<char>)
    ensures
        quoted(name).len() == name.len() + 2,
        quoted(name)[0] == '"',
        quoted(name)[quoted(name).len() - 1] == '"',
        quoted(name).subrange(1, quoted(name).len() - 1) == name,
{
    reveal_strlit("\"");
    assert(quoted(name).subrange(1, quoted(name).len() - 1) =~= name);
}

/// Joining one more piece adds the separator and that piece at the end.
pub proof fn lemma_join_push(parts: Seq<Seq<char>>, sep: Seq<char>, piece: Seq<char>)
    ensures
        parts.len() == 0 ==> join(parts.push(piece), sep) == piece,
        parts.len() > 0 ==> join(parts.push(piece), sep) == join(parts, sep) + sep + piece,
{
    assert(parts.push(piece).drop_last() =~= parts);
    if parts.len() == 0 {
        assert(parts.push(piece)[0] == piece);
    }
}

/// Joins the strings with `sep` between each two of them.
pub fn join_strings(parts: &Vec<String>, sep: &str) -> (joined: String)
    ensures
        joined@ == join(string_views(parts@), sep@),
{
    let ghost views = string_views(parts@);
    let mut joined = String::new();
    let mut i: usize = 0;
    while i < parts.len()
        invariant
            i <= parts.len(),
            views == string_views(parts@),
            joined@ == join(views.take(i as int), sep@),
        decreases parts.len() - i,
    {
        if i > 0 {
            joined.append(sep);
        } else {
            assert(joined@ =~= Seq::<char>::empty());
        }
        joined.append(parts[i].as_str());
        assert(views.take(i + 1).drop_last() =~= views.take(i as int));
        proof {
            if i == 0 {
                assert(Seq::<char>::empty() + views[0] =~= views[0]);
            }
        }
        i = i + 1;
    }
    assert(views.take(parts.len() as int) =~= views);
    joined
}

/// The name between double quotes.
pub fn quote_name(name: &str) -> (q: String)
    ensures
        q@ == quoted(name@),
{
    let mut q = String::new();
    q.append("\"");
    q.append(name);
    q.append("\"");
    proof {
        assert(Seq::<char>::empty() + "\""@ =~= "\""@);
    }
    q
}

} // verus!
