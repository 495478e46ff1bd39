//! Splitting rows over several insert statements, so that no statement
//! binds more variables than the database allows.
use vstd::prelude::*;
use vstd::arithmetic::div_mod::{lemma_fundamental_div_mod, lemma_fundamental_div_mod_converse_div};

verus! {

/// How many rows one insert statement may hold when each row binds
/// `variables_per_row` variables and a statement may bind at most
/// `max_variables`: the largest count whose variables fit.
pub fn bulk_chunk_size(max_variables: usize, variables_per_row: usize) -> (rows: usize)
    requires
        variables_per_row > 0,
    ensures
        rows == max_variables / variables_per_row,
        rows * variables_per_row <= max_variables,
        max_variables < (rows + 1) * variables_per_row,
{
    let ghost m = max_variables as int;
    let ghost c = variables_per_row as int;
    let ghost q = m / c;
    proof {
        lemma_fundamental_div_mod(m, c);
        assert(c * q >= 0) by (nonlinear_arith)
            requires
                c > 0,
                m >= 0,
                q == m / c,
        ;
        assert(c * q == q * c) by (nonlinear_arith);
        assert((q + 1) * c == q * c + c) by (nonlinear_arith);
    }
    let usable = max_variables - max_variables % variables_per_row;
    proof {
        lemma_fundamental_div_mod_converse_div(usable as int, c, q, 0);
    }
    usable / variables_per_row
}

/// A chunk of no more rows than the chunk size worked out for a variable
/// limit binds no more variables than the limit allows.
pub proof fn lemma_chunk_within_variable_limit(
    chunk_len: nat,
    max_variables: nat,
    variables_per_row: nat,
)
    requires
        variables_per_row > 0,
        chunk_len <= max_variables / variables_per_row,
    ensures
        chunk_len * variables_per_row <= max_variables,
{
    let m = max_variables as int;
    let c = variables_per_row as int;
    lemma_fundamental_div_mod(m, c);
    assert(chunk_len * c <= (m / c) * c) by (nonlinear_arith)
        requires
            chunk_len <= m / c,
            c > 0,
    ;
    assert((m / c) * c == c * (m / c)) by (nonlinear_arith);
}

/// The rows of a bulk insert, handed out a chunk at a time: each chunk
/// becomes one insert statement.
pub struct BulkQueryIterator<T> {
    rows: Vec<T>,
    next_row: usize,
    chunk_size: usize,
}

impl<T> BulkQueryIterator<T> {
    #[verifier::type_invariant]
    spec fn well_formed(self) -> bool {
        &&& self.next_row <= self.rows.len()
        &&& self.chunk_size > 0
    }

    /// All the rows, those handed out included.
    pub closed spec fn rows(self) -> Seq<T> {
        self.rows@
    }

    /// How many rows have been handed out.
    pub closed spec fn position(self) -> nat {
        self.next_row as nat
    }

    /// The most rows in one chunk.
    pub closed spec fn chunk_size(self) -> nat {
        self.chunk_size as nat
    }

    /// The rows not yet handed out.
    pub open spec fn remaining(self) -> Seq<T> {
        self.rows().skip(self.position() as int)
    }

    /// Hands out the rows in chunks of `chunk_size`, which is at least 1.
    pub fn new(rows: Vec<T>, chunk_size: usize) -> (it: Self)
        requires
            chunk_size > 0,
        ensures
            it.rows() == rows@,
            it.position() == 0,
            it.chunk_size() == chunk_size,
    {
        BulkQueryIterator { rows, next_row: 0, chunk_size }
    }

    /// Hands out the rows in chunks that bind at most `max_variables`
    /// variables when each row binds `variables_per_row`, as many rows per
    /// chunk as fit; `None` when not even one row fits.
    pub fn for_variable_limit(rows: Vec<T>, max_variables: usize, variables_per_row: usize) -> (it:
        Option<Self>)
        requires
            variables_per_row > 0,
        ensures
            it is None <==> max_variables < variables_per_row,
            it matches Some(it) ==> {
                &&& it.rows() == rows@
                &&& it.position() == 0
                &&& it.chunk_size() == max_variables / variables_per_row
                &&& it.chunk_size() >= 1
                &&& it.chunk_size() * variables_per_row <= max_variables
            },
    {
        let chunk_size = bulk_chunk_size(max_variables, variables_per_row);
        assert(chunk_size >= 1 ==> chunk_size * variables_per_row >= variables_per_row) by (
        nonlinear_arith);
        assert(chunk_size == 0 ==> (chunk_size + 1) * variables_per_row == variables_per_row) by (
        nonlinear_arith);
        if chunk_size == 0 {
            None
        } else {
            Some(BulkQueryIterator { rows, next_row: 0, chunk_size })
        }
    }
}

impl<T: Copy> BulkQueryIterator<T> {
    /// The next chunk: the next `chunk_size` rows, or fewer at the end;
    /// `None` once every row has been handed out.
    pub fn next_chunk(&mut self) -> (chunk: Option<Vec<T>>)
        ensures
            final(self).rows() == old(self).rows(),
            final(self).chunk_size() == old(self).chunk_size(),
            old(self).chunk_size() > 0,
            old(self).position() <= final(self).position() <= old(self).rows().len(),
            old(self).position() == old(self).rows().len() ==> chunk is None && final(self).position()
                == old(self).position(),
            old(self).position() < old(self).rows().len() ==> {
                &&& chunk is Some
                &&& final(self).position() == if old(self).position() + old(self).chunk_size()
                    <= old(self).rows().len() {
                    old(self).position() + old(self).chunk_size()
                } else {
                    old(self).rows().len()
                }
                &&& chunk->0@ == old(self).rows().subrange(
                    old(self).position() as int,
                    final(self).position() as int,
                )
            },
    {
        proof {
            use_type_invariant(&*self);
        }
        if self.next_row == self.rows.len() {
            return None;
        }
        let start = self.next_row;
        let end = if self.rows.len() - start >= self.chunk_size {
            start + self.chunk_size
        } else {
            self.rows.len()
        };
        let mut chunk: Vec<T> = Vec::new();
        let mut i: usize = start;
        while i < end
            invariant
                start <= i <= end <= self.rows.len(),
                chunk@ == self.rows@.subrange(start as int, i as int),
            decreases end - i,
        {
            chunk.push(self.rows[i]);
            i = i + 1;
        }
        self.next_row = end;
        Some(chunk)
    }
}

/// The rows of each chunk.
pub open spec fn chunk_rows<T>(chunks: Seq<Vec<T>>) -> Seq<Seq<T>> {
    chunks.map_values(|c: Vec<T>| c@)
}

impl<T: Copy> BulkQueryIterator<T> {
    /// Every chunk still to come, in order: put back together, they are the
    /// remaining rows; each holds at least one row and at most the chunk
    /// size, and all but the last hold exactly the chunk size.
    pub fn into_chunks(self) -> (chunks: Vec<Vec<T>>)
        ensures
            chunk_rows(chunks@).flatten() == self.remaining(),
            forall|k: int|
                0 <= k < chunks@.len() ==> 0 < (#[trigger] chunks@[k])@.len() <= self.chunk_size(),
            forall|k: int|
                0 <= k < chunks@.len() - 1 ==> (#[trigger] chunks@[k])@.len() == self.chunk_size(),
    {
        let ghost start = self;
        let mut it = self;
        let mut chunks: Vec<Vec<T>> = Vec::new();
        proof {
            use_type_invariant(&it);
            assert(chunk_rows(chunks@) =~= Seq::empty());
            assert(start.rows().subrange(start.position() as int, start.position() as int)
                =~= Seq::<T>::empty());
        }
        loop
            invariant_except_break
                it.rows() == start.rows(),
                it.chunk_size() == start.chunk_size(),
                start.position() <= it.position() <= start.rows().len(),
                chunk_rows(chunks@).flatten() == start.rows().subrange(
                    start.position() as int,
                    it.position() as int,
                ),
                forall|k: int|
                    0 <= k < chunks@.len() ==> 0 < (#[trigger] chunks@[k])@.len()
                        <= start.chunk_size(),
                forall|k: int|
                    0 <= k < chunks@.len() ==> (#[trigger] chunks@[k])@.len() == start.chunk_size()
                        || (k == chunks@.len() - 1 && it.position() == start.rows().len()),
            ensures
                chunk_rows(chunks@).flatten() == start.remaining(),
                forall|k: int|
                    0 <= k < chunks@.len() ==> 0 < (#[trigger] chunks@[k])@.len()
                        <= start.chunk_size(),
                forall|k: int|
                    0 <= k < chunks@.len() - 1 ==> (#[trigger] chunks@[k])@.len()
                        == start.chunk_size(),
            decreases it.rows().len() - it.position(),
        {
            let ghost before = it;
            match it.next_chunk() {
                Some(chunk) => {
                    let ghost old_chunks = chunks@;
                    chunks.push(chunk);
                    proof {
                        assert(chunk_rows(chunks@) =~= chunk_rows(old_chunks).push(chunk@));
                        chunk_rows(old_chunks).lemma_flatten_push(chunk@);
                        assert(start.rows().subrange(start.position() as int, it.position() as int)
                            =~= start.rows().subrange(
                            start.position() as int,
                            before.position() as int,
                        ) + chunk@);
                    }
                },
                None => {
                    assert(start.rows().subrange(start.position() as int, start.rows().len() as int)
                        =~= start.remaining());
                    break;
                },
            }
        }
        chunks
    }
}

} // verus!
