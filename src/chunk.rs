//! Splitting large documents into overlapping word windows.

use vstd::arithmetic::div_mod::{lemma_fundamental_div_mod, lemma_mod_bound};
use vstd::prelude::*;

use crate::storage::FileStorage;
use crate::text::{decimal, decimal_string, join, join_range, split_words, views, words};

verus! {

/// Number of words in one window.
pub const CHUNK_SIZE: usize = 1500;

/// Number of words that consecutive windows share.
pub const OVERLAP_SIZE: usize = 200;

/// How far a window's start moves from one chunk to the next.
pub open spec fn stride() -> nat {
    (CHUNK_SIZE - OVERLAP_SIZE) as nat
}

/// How many chunks a document of `n` words is cut into.
pub open spec fn chunk_count(n: nat) -> nat {
    if n <= CHUNK_SIZE {
        1
    } else {
        ((n - OVERLAP_SIZE - 1) as nat / stride() + 1) as nat
    }
}

/// The total announced in each part's title: `ceil(n / stride)`.
pub open spec fn part_total(n: nat) -> nat {
    (n + stride() - 1) as nat / stride()
}

/// One past the last word of chunk `k` of a document of `n` words.
pub open spec fn chunk_end(n: nat, k: nat) -> nat {
    if k * stride() + CHUNK_SIZE <= n {
        (k * stride() + CHUNK_SIZE) as nat
    } else {
        n
    }
}

/// The words of chunk `k`.
pub open spec fn chunk_words(ws: Seq<Seq<char>>, k: nat) -> Seq<Seq<char>> {
    ws.subrange((k * stride()) as int, chunk_end(ws.len(), k) as int)
}

/// The block for a document that is not split.
pub open spec fn whole_block(name: Seq<char>, content: Seq<char>) -> Seq<char> {
    "Document: "@ + name + "\nContent:\n"@ + content
}

/// The block for part `k` of `total` of a split document.
pub open spec fn part_block(name: Seq<char>, k: nat, total: nat, body: Seq<char>) -> Seq<char> {
    "Document: "@ + name + " (Part "@ + decimal(k) + "/"@ + decimal(total) + ")\nContent:\n"@
        + body
}

/// The blocks that a document is cut into.
pub open spec fn chunks_of(name: Seq<char>, content: Seq<char>) -> Seq<Seq<char>> {
    let ws = words(content);
    let n = ws.len();
    if n <= CHUNK_SIZE {
        seq![whole_block(name, content)]
    } else {
        Seq::new(
            chunk_count(n),
            |k: int|
                part_block(
                    name,
                    (k + 1) as nat,
                    part_total(n),
                    join(chunk_words(ws, k as nat), " "@),
                ),
        )
    }
}

/// The words that chunk `k` adds to those of the chunks before it.
pub open spec fn fresh_words(ws: Seq<Seq<char>>, k: nat) -> Seq<Seq<char>> {
    if k == 0 {
        chunk_words(ws, 0)
    } else {
        chunk_words(ws, k).skip(OVERLAP_SIZE as int)
    }
}

/// The fresh words of the first `k` chunks, in order.
pub open spec fn fresh_prefix(ws: Seq<Seq<char>>, k: nat) -> Seq<Seq<char>>
    decreases k,
{
    if k == 0 {
        seq![]
    } else {
        fresh_prefix(ws, (k - 1) as nat) + fresh_words(ws, (k - 1) as nat)
    }
}

/// A chunk before the last one ends before the text does; the last one ends with it.
proof fn lemma_chunk_ends(n: nat, k: nat)
    requires
        n > CHUNK_SIZE,
        k < chunk_count(n),
    ensures
        k + 1 < chunk_count(n) ==> k * stride() + CHUNK_SIZE < n,
        k + 1 == chunk_count(n) ==> k * stride() + CHUNK_SIZE >= n,
        k * stride() + OVERLAP_SIZE < n,
{
    let x = (n - OVERLAP_SIZE - 1) as int;
    let q = x / 1300;
    lemma_fundamental_div_mod(x, 1300);
    lemma_mod_bound(x, 1300);
    assert(q * 1300 <= n - 201 < q * 1300 + 1300);
    assert(k <= q);
}

proof fn lemma_fresh_prefix(ws: Seq<Seq<char>>, k: nat)
    requires
        ws.len() > CHUNK_SIZE,
        1 <= k <= chunk_count(ws.len()),
    ensures
        fresh_prefix(ws, k) == ws.take(chunk_end(ws.len(), (k - 1) as nat) as int),
    decreases k,
{
    let n = ws.len();
    lemma_chunk_ends(n, (k - 1) as nat);
    if k == 1 {
        assert(fresh_prefix(ws, 0) =~= seq![]);
        assert(fresh_prefix(ws, 1) =~= ws.take(chunk_end(n, 0) as int));
    } else {
        lemma_fresh_prefix(ws, (k - 1) as nat);
        lemma_chunk_ends(n, (k - 2) as nat);
        assert(fresh_prefix(ws, k) =~= ws.take(chunk_end(n, (k - 1) as nat) as int));
    }
}

/// For a document of more than one window of words: joining each chunk's
/// words, leaving out the words it shares with the chunk before, gives back
/// every word in order; every chunk but the last holds exactly a window of
/// words; and consecutive chunks share exactly the overlap.
pub proof fn lemma_chunk_coverage(ws: Seq<Seq<char>>)
    requires
        ws.len() > CHUNK_SIZE,
    ensures
        fresh_prefix(ws, chunk_count(ws.len())) == ws,
        forall|k: nat|
            k + 1 < chunk_count(ws.len()) ==> #[trigger] chunk_words(ws, k).len() == CHUNK_SIZE,
        forall|k: nat|
            k + 1 < chunk_count(ws.len()) ==> #[trigger] chunk_words(ws, k).skip(
                stride() as int,
            ) == chunk_words(ws, k + 1).take(OVERLAP_SIZE as int),
{
    let n = ws.len();
    let m = chunk_count(n);
    lemma_fresh_prefix(ws, m);
    lemma_chunk_ends(n, (m - 1) as nat);
    assert(ws.take(n as int) =~= ws);
    assert forall|k: nat| k + 1 < chunk_count(ws.len()) implies #[trigger] chunk_words(
        ws,
        k,
    ).len() == CHUNK_SIZE by {
        lemma_chunk_ends(n, k);
    }
    assert forall|k: nat| k + 1 < chunk_count(ws.len()) implies #[trigger] chunk_words(
        ws,
        k,
    ).skip(stride() as int) == chunk_words(ws, k + 1).take(OVERLAP_SIZE as int) by {
        lemma_chunk_ends(n, k);
        lemma_chunk_ends(n, k + 1);
        assert(chunk_words(ws, k).skip(stride() as int) =~= chunk_words(ws, k + 1).take(
            OVERLAP_SIZE as int,
        ));
    }
}

fn whole_block_string(filename: &str, content: &str) -> (r: String)
    ensures
        r@ == whole_block(filename@, content@),
{
    let mut r = String::from_str("Document: ");
    r.append(filename);
    r.append("\nContent:\n");
    r.append(content);
    r
}

fn part_block_string(filename: &str, k: u64, total: u64, body: &str) -> (r: String)
    ensures
        r@ == part_block(filename@, k as nat, total as nat, body@),
{
    let mut r = String::from_str("Document: ");
    r.append(filename);
    r.append(" (Part ");
    let ks = decimal_string(k);
    r.append(ks.as_str());
    r.append("/");
    let ts = decimal_string(total);
    r.append(ts.as_str());
    r.append(")\nContent:\n");
    r.append(body);
    r
}

impl FileStorage {
    /// Cuts a document into blocks of at most a window of words each, where
    /// consecutive blocks share the overlap; a document of at most one window
    /// of words stays whole.
    pub fn create_smart_chunks(filename: &str, content: &str) -> (r: Vec<String>)
        ensures
            views(r@) == chunks_of(filename@, content@),
    {
        let words_vec = split_words(content);
        let n = words_vec.len();
        let mut chunks: Vec<String> = Vec::new();
        if n <= CHUNK_SIZE {
            chunks.push(whole_block_string(filename, content));
            assert(views(chunks@) =~= chunks_of(filename@, content@));
            return chunks;
        }
        let ghost ws = words(content@);
        let total: usize = (n - 1) / (CHUNK_SIZE - OVERLAP_SIZE) + 1;
        proof {
            let x = (n - 1) as int;
            lemma_fundamental_div_mod(x, 1300);
            lemma_mod_bound(x, 1300);
            lemma_fundamental_div_mod(x + 1300, 1300);
            lemma_mod_bound(x + 1300, 1300);
        }
        let mut start: usize = 0;
        let mut k: usize = 0;
        loop
            invariant
                views(words_vec@) == ws,
                ws == words(content@),
                ws.len() == n > CHUNK_SIZE,
                total == part_total(n as nat),
                k < chunk_count(n as nat),
                start == k * stride(),
                chunks@.len() == k,
                forall|i: int|
                    0 <= i < k ==> #[trigger] views(chunks@)[i] == chunks_of(filename@, content@)[i],
            decreases n - start,
        {
            proof {
                lemma_chunk_ends(n as nat, k as nat);
            }
            let end: usize = if n - start >= CHUNK_SIZE {
                start + CHUNK_SIZE
            } else {
                n
            };
            let body = join_range(&words_vec, start, end, " ");
            let block = part_block_string(filename, (k + 1) as u64, total as u64, body.as_str());
            let ghost prev = views(chunks@);
            chunks.push(block);
            assert(views(chunks@) =~= prev.push(block@));
            assert(views(words_vec@).subrange(start as int, end as int) == chunk_words(ws, k as nat));
            assert(views(chunks@)[k as int] == chunks_of(filename@, content@)[k as int]);
            if end == n {
                assert(views(chunks@) =~= chunks_of(filename@, content@));
                return chunks;
            }
            assert((k + 1) * stride() == k * stride() + stride()) by (nonlinear_arith);
            start = end - OVERLAP_SIZE;
            k = k + 1;
        }
    }
}

} // verus!
