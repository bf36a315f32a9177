//! Corpus-sliced workloads: a byte corpus cut into non-overlapping consecutive
//! chunks of a fixed size. The final chunk is kept even when it is shorter
//! than the chunk size; that undersized record is a deliberate part of the
//! workload, not an error.

use vstd::prelude::*;

verus! {

/// Ceiling division: the least `q` with `q * size >= len`, for `size >= 1`.
pub open spec fn ceil_div(len: int, size: int) -> int {
    (len + size - 1) / size
}

/// The corpus `s` cut into consecutive chunks of `size` bytes; the final
/// chunk holds whatever remains and may be shorter.
pub open spec fn chunks_of(s: Seq<u8>, size: int) -> Seq<Seq<u8>>
    decreases s.len(),
{
    if size <= 0 || s.len() == 0 {
        seq![]
    } else if s.len() <= size {
        seq![s]
    } else {
        seq![s.subrange(0, size)] + chunks_of(s.skip(size), size)
    }
}

/// The concatenation of a sequence of byte chunks.
pub open spec fn concat_all(cs: Seq<Seq<u8>>) -> Seq<u8>
    decreases cs.len(),
{
    if cs.len() == 0 {
        seq![]
    } else {
        cs.first() + concat_all(cs.drop_first())
    }
}

/// The length of chunk `i` of a corpus of `len` bytes cut at `size`: every
/// chunk but the last holds `size` bytes, the last holds the remainder.
pub open spec fn chunk_len_at(len: int, size: int, i: int) -> int {
    if (i + 1) * size <= len {
        size
    } else {
        len - i * size
    }
}

/// A corpus of `len` bytes cut at `size` yields exactly ceil(len / size)
/// chunks.
pub proof fn lemma_chunks_count(s: Seq<u8>, size: int)
    requires
        size >= 1,
    ensures
        chunks_of(s, size).len() == ceil_div(s.len() as int, size),
    decreases s.len(),
{
    let len = s.len() as int;
    if s.len() == 0 {
        assert(ceil_div(0, size) == 0) by (nonlinear_arith)
            requires size >= 1;
    } else if s.len() <= size {
        assert(ceil_div(len, size) == 1) by (nonlinear_arith)
            requires size >= 1 && 1 <= len <= size;
    } else {
        lemma_chunks_count(s.skip(size), size);
        assert(s.skip(size).len() == len - size);
        assert(ceil_div(len - size, size) + 1 == ceil_div(len, size)) by (nonlinear_arith)
            requires size >= 1 && len > size;
    }
}

/// Concatenating all chunks reproduces the corpus exactly (the round-trip
/// law of corpus slicing).
pub proof fn lemma_chunks_concat(s: Seq<u8>, size: int)
    requires
        size >= 1,
    ensures
        concat_all(chunks_of(s, size)) == s,
    decreases s.len(),
{
    if s.len() == 0 {
        assert(concat_all(chunks_of(s, size)) =~= s);
    } else if s.len() <= size {
        let cs = chunks_of(s, size);
        assert(cs == seq![s]);
        assert(cs.first() == s);
        assert(cs.drop_first() =~= Seq::<Seq<u8>>::empty());
        assert(concat_all(cs.drop_first()) =~= Seq::<u8>::empty());
        assert(concat_all(cs) == s + concat_all(cs.drop_first()));
        assert(s + concat_all(cs.drop_first()) =~= s);
    } else {
        let head = s.subrange(0, size);
        let tail = s.skip(size);
        lemma_chunks_concat(tail, size);
        let cs = chunks_of(s, size);
        assert(cs == seq![head] + chunks_of(tail, size));
        assert(cs.first() == head);
        assert(cs.drop_first() =~= chunks_of(tail, size));
        assert(head + tail =~= s);
    }
}

/// Chunk `i` of a corpus of `len` bytes cut at `size` holds exactly
/// `chunk_len_at(len, size, i)` bytes: `size` for every chunk but the last,
/// the remainder for the last.
pub proof fn lemma_chunks_lens(s: Seq<u8>, size: int)
    requires
        size >= 1,
    ensures
        forall|i: int| 0 <= i < chunks_of(s, size).len()
            ==> #[trigger] chunks_of(s, size)[i].len() == chunk_len_at(s.len() as int, size, i),
    decreases s.len(),
{
    let len = s.len() as int;
    let cs = chunks_of(s, size);
    if s.len() == 0 {
    } else if s.len() <= size {
        assert(cs == seq![s]);
        assert(chunk_len_at(len, size, 0) == len) by (nonlinear_arith)
            requires size >= 1 && 1 <= len <= size;
    } else {
        let tail = s.skip(size);
        lemma_chunks_lens(tail, size);
        assert forall|i: int| 0 <= i < cs.len()
            implies #[trigger] cs[i].len() == chunk_len_at(len, size, i) by {
            if i == 0 {
                assert((0 + 1) * size == size) by (nonlinear_arith);
            } else {
                assert(cs[i] == chunks_of(tail, size)[i - 1]);
                assert(chunks_of(tail, size)[i - 1].len()
                    == chunk_len_at(len - size, size, i - 1));
                assert(chunk_len_at(len - size, size, i - 1) == chunk_len_at(len, size, i))
                    by (nonlinear_arith)
                    requires size >= 1 && len > size && i >= 1;
            }
        }
    }
}

/// Chunk `i` exists exactly when `i * size` lies inside the corpus, and is
/// the corpus slice starting at byte `i * size`.
pub proof fn lemma_chunk_at(s: Seq<u8>, size: int, i: int)
    requires
        size >= 1,
        0 <= i,
        i * size < s.len(),
    ensures
        i < chunks_of(s, size).len(),
        chunks_of(s, size)[i]
            == s.subrange(i * size, i * size + chunk_len_at(s.len() as int, size, i)),
    decreases s.len(),
{
    let len = s.len() as int;
    lemma_chunks_count(s, size);
    assert(i < ceil_div(len, size)) by (nonlinear_arith)
        requires size >= 1 && 0 <= i && i * size < len;
    if i == 0 {
        if len <= size {
            assert(chunk_len_at(len, size, 0) == len) by (nonlinear_arith)
                requires size >= 1 && 1 <= len <= size;
            assert(chunks_of(s, size)[0] == s);
            assert(s.subrange(0, len) =~= s);
        } else {
            assert(chunk_len_at(len, size, 0) == size) by (nonlinear_arith)
                requires size >= 1 && len > size;
            assert(chunks_of(s, size)[0] == s.subrange(0, size));
        }
        assert(0 * size == 0) by (nonlinear_arith);
    } else {
        assert(len > size) by (nonlinear_arith)
            requires size >= 1 && i >= 1 && i * size < len;
        let tail = s.skip(size);
        assert((i - 1) * size < tail.len()) by (nonlinear_arith)
            requires size >= 1 && i >= 1 && i * size < len && tail.len() == len - size;
        lemma_chunk_at(tail, size, i - 1);
        assert(chunks_of(s, size)[i] == chunks_of(tail, size)[i - 1]);
        assert(chunk_len_at(len - size, size, i - 1) == chunk_len_at(len, size, i))
            by (nonlinear_arith)
            requires size >= 1 && len > size && i >= 1;
        assert((i - 1) * size == i * size - size) by (nonlinear_arith);
        assert(tail.subrange(i * size - size, i * size - size + chunk_len_at(len, size, i))
            =~= s.subrange(i * size, i * size + chunk_len_at(len, size, i)));
    }
}

/// The last chunk's length in terms of the remainder `len % size`: it is
/// `len % size` bytes, or a full `size` bytes when `size` divides `len`.
pub proof fn lemma_last_chunk_len(s: Seq<u8>, size: int)
    requires
        size >= 1,
        s.len() >= 1,
    ensures
        chunks_of(s, size).last().len()
            == if s.len() as int % size == 0 { size } else { s.len() as int % size },
{
    let len = s.len() as int;
    lemma_chunks_count(s, size);
    lemma_chunks_lens(s, size);
    let count = ceil_div(len, size);
    assert(chunks_of(s, size).last().len() == chunk_len_at(len, size, count - 1));
    assert(chunk_len_at(len, size, count - 1)
        == if len % size == 0 { size } else { len % size }) by (nonlinear_arith)
        requires size >= 1 && len >= 1 && count == (len + size - 1) / size;
}

/// Copies `v[start..end]` into a fresh vector.
pub fn sub_vec(v: &Vec<u8>, start: usize, end: usize) -> (r: Vec<u8>)
    requires
        start <= end <= v@.len(),
    ensures
        r@ == v@.subrange(start as int, end as int),
{
    let mut r: Vec<u8> = Vec::new();
    let mut i: usize = start;
    while i < end
        invariant
            start <= i <= end <= v@.len(),
            r@ == v@.subrange(start as int, i as int),
        decreases end - i,
    {
        r.push(v[i]);
        assert(r@ =~= v@.subrange(start as int, i + 1 as int));
        i = i + 1;
    }
    r
}

/// The number of chunks a corpus of `len` bytes yields at chunk size `size`.
pub fn chunk_count(len: usize, size: usize) -> (count: usize)
    requires
        size >= 1,
    ensures
        count == ceil_div(len as int, size as int),
{
    proof {
        assert(len as int + size as int - 1 >= 0);
        assert((len as int + size as int - 1) / size as int <= len as int) by (nonlinear_arith)
            requires size as int >= 1 && len as int >= 0;
    }
    if len == 0 {
        proof {
            assert(ceil_div(0, size as int) == 0) by (nonlinear_arith)
                requires size as int >= 1;
        }
        0
    } else {
        let q = (len - 1) / size;
        proof {
            assert(((len - 1) as int) / (size as int) + 1 == ceil_div(len as int, size as int))
                by (nonlinear_arith)
                requires size as int >= 1 && len as int >= 1;
            assert(((len - 1) as int) / (size as int) < (len as int)) by (nonlinear_arith)
                requires size as int >= 1 && len as int >= 1;
        }
        q + 1
    }
}

/// Cuts the corpus into consecutive chunks of `size` bytes; the final chunk
/// holds the remainder and is kept even when it is shorter than `size`.
pub fn slice_chunks(corpus: &Vec<u8>, size: usize) -> (chunks: Vec<Vec<u8>>)
    requires
        size >= 1,
    ensures
        chunks@.map_values(|c: Vec<u8>| c@) == chunks_of(corpus@, size as int),
{
    let mut chunks: Vec<Vec<u8>> = Vec::new();
    let mut offset: usize = 0;
    let len = corpus.len();
    proof {
        assert(corpus@.skip(0) =~= corpus@);
        assert(chunks@.map_values(|c: Vec<u8>| c@) =~= Seq::<Seq<u8>>::empty());
        assert(chunks@.map_values(|c: Vec<u8>| c@) + chunks_of(corpus@, size as int)
            =~= chunks_of(corpus@, size as int));
    }
    while offset < len
        invariant
            size >= 1,
            offset <= len,
            len == corpus@.len(),
            chunks_of(corpus@, size as int)
                =~= chunks@.map_values(|c: Vec<u8>| c@) + chunks_of(corpus@.skip(offset as int), size as int),
        decreases len - offset,
    {
        let remaining = len - offset;
        let end = if remaining < size { len } else { offset + size };
        let chunk = sub_vec(corpus, offset, end);
        let ghost pre = chunks@.map_values(|c: Vec<u8>| c@);
        let ghost rest = corpus@.skip(offset as int);
        chunks.push(chunk);
        proof {
            assert(chunks@.map_values(|c: Vec<u8>| c@) =~= pre.push(chunk@));
            if remaining <= size {
                // the final (possibly undersized) chunk
                assert(rest =~= corpus@.subrange(offset as int, len as int));
                assert(chunk@ == rest);
                assert(chunks_of(rest, size as int) == seq![rest]);
                assert(pre + chunks_of(rest, size as int) =~= pre.push(chunk@));
                assert(chunks_of(corpus@.skip(len as int), size as int) =~= Seq::<Seq<u8>>::empty());
                assert(pre.push(chunk@) + chunks_of(corpus@.skip(len as int), size as int)
                    =~= pre.push(chunk@));
            } else {
                assert(rest.len() > size);
                assert(chunks_of(rest, size as int)
                    == seq![rest.subrange(0, size as int)] + chunks_of(rest.skip(size as int), size as int));
                assert(rest.subrange(0, size as int) =~= corpus@.subrange(offset as int, (offset + size) as int));
                assert(chunk@ == rest.subrange(0, size as int));
                assert(rest.skip(size as int) =~= corpus@.skip((offset + size) as int));
                assert(pre + chunks_of(rest, size as int)
                    =~= pre.push(chunk@) + chunks_of(corpus@.skip((offset + size) as int), size as int));
            }
        }
        offset = end;
    }
    proof {
        assert(corpus@.skip(len as int) =~= Seq::<u8>::empty());
        assert(chunks_of(corpus@.skip(len as int), size as int) =~= Seq::<Seq<u8>>::empty());
        assert(chunks@.map_values(|c: Vec<u8>| c@) =~= chunks_of(corpus@, size as int));
    }
    chunks
}

} // verus!
