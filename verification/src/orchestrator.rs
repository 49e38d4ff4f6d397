use vstd::prelude::*;

verus! {

/// How many batches a symbol list of length `n` yields at batch size
/// `b`: full batches plus one partial batch for any remainder.
pub open spec fn batch_count(n: int, b: int) -> int
    recommends
        b > 0,
    decreases n,
{
    if n <= 0 || b <= 0 {
        0
    } else if n <= b {
        1
    } else {
        1 + batch_count(n - b, b)
    }
}

/// Partitions the symbol list into connection batches, in order: every
/// batch is non-empty and at most `batch` symbols, their concatenation
/// is exactly the input, and their number is the input's length divided
/// by `batch`, rounded up. Each batch becomes one session.
#[verifier::loop_isolation(false)]
pub fn partition_symbols(symbols: &Vec<String>, batch: usize) -> (r: Vec<Vec<String>>)
    requires
        batch > 0,
    ensures
        r.deep_view().flatten() == symbols.deep_view(),
        forall|i: int| 0 <= i < r@.len() ==> 0 < (#[trigger] r.deep_view()[i]).len() <= batch,
        r@.len() == batch_count(symbols@.len() as int, batch as int),
{
    let mut out: Vec<Vec<String>> = Vec::new();
    let mut i: usize = 0;
    proof {
        assert(out.deep_view() =~= Seq::<Seq<Seq<char>>>::empty());
        assert(out.deep_view().flatten() =~= symbols.deep_view().take(0));
    }
    while i < symbols.len()
        invariant
            i <= symbols.len(),
            out.deep_view().flatten() == symbols.deep_view().take(i as int),
            forall|j: int|
                0 <= j < out@.len() ==> 0 < (#[trigger] out.deep_view()[j]).len() <= batch,
            out@.len() + batch_count(symbols@.len() - i, batch as int) == batch_count(
                symbols@.len() as int,
                batch as int,
            ),
        decreases symbols.len() - i,
    {
        let ghost out0 = out.deep_view();
        let mut chunk: Vec<String> = Vec::new();
        let mut j: usize = i;
        proof {
            assert(chunk.deep_view() =~= symbols.deep_view().subrange(i as int, i as int));
        }
        while j < symbols.len() && j - i < batch
            invariant
                i <= j <= symbols.len(),
                j - i <= batch,
                chunk.deep_view() == symbols.deep_view().subrange(i as int, j as int),
            decreases symbols.len() - j,
        {
            chunk.push(symbols[j].clone());
            proof {
                assert(chunk.deep_view() =~= symbols.deep_view().subrange(i as int, j + 1));
            }
            j += 1;
        }
        assert(j > i);
        out.push(chunk);
        proof {
            let ghost sv = symbols.deep_view();
            assert(out.deep_view() =~= out0.push(sv.subrange(i as int, j as int)));
            out0.lemma_flatten_push(sv.subrange(i as int, j as int));
            assert(sv.take(i as int) + sv.subrange(i as int, j as int) =~= sv.take(j as int));
            assert(out.deep_view().flatten() == sv.take(j as int));
            if j == symbols.len() {
                assert(batch_count(sv.len() - i, batch as int) == 1);
            } else {
                assert(j - i == batch);
                assert(batch_count(sv.len() - i, batch as int) == 1 + batch_count(
                    sv.len() - j,
                    batch as int,
                ));
            }
        }
        i = j;
    }
    proof {
        assert(symbols.deep_view().take(symbols@.len() as int) =~= symbols.deep_view());
    }
    out
}

} // verus!
