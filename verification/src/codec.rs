use crate::error::Error;
use vstd::prelude::*;

verus! {

/// `ct` consecutive occurrences of the value `v`.
#[derive(Clone, Copy, Debug, PartialEq, Eq, Structural)]
pub struct Run {
    pub v: usize,
    pub ct: usize,
}

/// The value `v`, `ct` times.
pub open spec fn repeated(v: usize, ct: nat) -> Seq<usize> {
    Seq::new(ct, |i: int| v)
}

/// The sequence that a run sequence stands for: each run written out in full,
/// in order.
pub open spec fn expansion(runs: Seq<Run>) -> Seq<usize>
    decreases runs.len(),
{
    if runs.len() == 0 {
        Seq::empty()
    } else {
        expansion(runs.drop_last()) + repeated(runs.last().v, runs.last().ct as nat)
    }
}

/// Every run counts at least one occurrence, and neighbouring runs differ in
/// value: no run could be merged with the next.
pub open spec fn maximal(runs: Seq<Run>) -> bool {
    &&& forall|i: int| 0 <= i < runs.len() ==> (#[trigger] runs[i]).ct >= 1
    &&& forall|i: int, j: int|
        0 <= i && j == i + 1 && j < runs.len() ==> (#[trigger] runs[i]).v != (#[trigger] runs[j]).v
}

/// The run sequence after one more value `x` has been read: the last run grows
/// if it holds `x`, otherwise a new run of one begins.
pub open spec fn extended(runs: Seq<Run>, x: usize) -> Seq<Run> {
    if runs.len() > 0 && runs.last().v == x {
        runs.drop_last().push(Run { v: x, ct: (runs.last().ct + 1) as usize })
    } else {
        runs.push(Run { v: x, ct: 1 })
    }
}

/// The run-length encoding of `values`, read left to right.
///
/// Counts are machine integers: the encoding is faithful for sequences of at
/// most `usize::MAX` values, which is every sequence a `Vec` can hold.
pub open spec fn encoding(values: Seq<usize>) -> Seq<Run>
    decreases values.len(),
{
    if values.len() == 0 {
        Seq::empty()
    } else {
        extended(encoding(values.drop_last()), values.last())
    }
}

proof fn lemma_expansion_push(runs: Seq<Run>, r: Run)
    ensures
        expansion(runs.push(r)) == expansion(runs) + repeated(r.v, r.ct as nat),
{
    assert(runs.push(r).drop_last() == runs);
}

proof fn lemma_encoding_facts(values: Seq<usize>)
    requires
        values.len() <= usize::MAX,
    ensures
        maximal(encoding(values)),
        expansion(encoding(values)) == values,
        values.len() > 0 ==> encoding(values).len() > 0 && encoding(values).last().v
            == values.last() && encoding(values).last().ct <= values.len(),
    decreases values.len(),
{
    if values.len() > 0 {
        let front = values.drop_last();
        let x = values.last();
        let runs = encoding(front);
        lemma_encoding_facts(front);
        assert(front.push(x) == values);
        if runs.len() > 0 && runs.last().v == x {
            let grown = Run { v: x, ct: (runs.last().ct + 1) as usize };
            lemma_expansion_push(runs.drop_last(), grown);
            lemma_expansion_push(runs.drop_last(), runs.last());
        } else {
            lemma_expansion_push(runs, Run { v: x, ct: 1 });
        }
    }
}

/// Decoding undoes encoding: the runs of a sequence expand to that sequence.
pub proof fn lemma_decode_encode(values: Seq<usize>)
    requires
        values.len() <= usize::MAX,
    ensures
        expansion(encoding(values)) == values,
{
    lemma_encoding_facts(values);
}

/// Every run of an encoding counts at least one occurrence, and no two
/// neighbouring runs hold the same value.
pub proof fn lemma_encoding_maximal(values: Seq<usize>)
    requires
        values.len() <= usize::MAX,
    ensures
        maximal(encoding(values)),
{
    lemma_encoding_facts(values);
}

proof fn lemma_encoding_of_block(runs: Seq<Run>, v: usize, n: nat)
    requires
        encoding(expansion(runs)) == runs,
        runs.len() == 0 || runs.last().v != v,
        1 <= n <= usize::MAX,
    ensures
        encoding(expansion(runs) + repeated(v, n)) == runs.push(Run { v, ct: n as usize }),
    decreases n,
{
    let values = expansion(runs) + repeated(v, n);
    if n == 1 {
        assert(values.drop_last() == expansion(runs));
    } else {
        assert(values.drop_last() == expansion(runs) + repeated(v, (n - 1) as nat));
        lemma_encoding_of_block(runs, v, (n - 1) as nat);
    }
}

/// Encoding undoes decoding of maximal runs: a maximal run sequence is the
/// encoding of its own expansion, and so the only maximal run sequence that
/// expands to it.
pub proof fn lemma_encode_decode(runs: Seq<Run>)
    requires
        maximal(runs),
    ensures
        encoding(expansion(runs)) == runs,
    decreases runs.len(),
{
    if runs.len() > 0 {
        let front = runs.drop_last();
        let last = runs.last();
        assert(maximal(front));
        lemma_encode_decode(front);
        lemma_encoding_of_block(front, last.v, last.ct as nat);
    }
}

/// Run-length encodes `input`, merging equal neighbours into one run.
///
/// An empty input has no first value to seed a run with and is refused.
pub fn rle(input: Vec<usize>) -> (r: Result<Vec<Run>, Error>)
    ensures
        input@.len() == 0 ==> r is Err && r->Err_0 == Error::EmptyInput,
        input@.len() > 0 ==> r is Ok && r->Ok_0@ == encoding(input@),
        r is Ok ==> maximal(r->Ok_0@) && expansion(r->Ok_0@) == input@,
{
    if input.len() == 0 {
        return Err(Error::EmptyInput);
    }
    let mut out: Vec<Run> = Vec::new();
    out.push(Run { v: input[0], ct: 1 });
    assert(input@.take(1).drop_last() == Seq::<usize>::empty());
    assert(encoding(Seq::<usize>::empty()) == Seq::<Run>::empty());
    let mut i: usize = 1;
    while i < input.len()
        invariant
            1 <= i <= input.len(),
            out@ == encoding(input@.take(i as int)),
            out@.len() > 0,
            out@.last().ct <= i,
        decreases input.len() - i,
    {
        let x = input[i];
        let last = out.len() - 1;
        let tail = out[last];
        if tail.v == x {
            out.set(last, Run { v: x, ct: tail.ct + 1 });
        } else {
            out.push(Run { v: x, ct: 1 });
        }
        proof {
            assert(input@.take(i + 1).drop_last() == input@.take(i as int));
        }
        i += 1;
    }
    proof {
        assert(input@.take(i as int) == input@);
        lemma_encoding_facts(input@);
    }
    Ok(out)
}

/// Expands `runs` into the sequence they stand for: each run's value, as many
/// times as the run counts, in order.
pub fn rld(runs: Vec<Run>) -> (r: Vec<usize>)
    ensures
        r@ == expansion(runs@),
{
    let mut out: Vec<usize> = Vec::new();
    let mut i: usize = 0;
    while i < runs.len()
        invariant
            i <= runs.len(),
            out@ == expansion(runs@.take(i as int)),
        decreases runs.len() - i,
    {
        let run = runs[i];
        let mut k: usize = 0;
        while k < run.ct
            invariant
                i < runs.len(),
                run == runs@[i as int],
                k <= run.ct,
                out@ == expansion(runs@.take(i as int)) + repeated(run.v, k as nat),
            decreases run.ct - k,
        {
            out.push(run.v);
            k += 1;
        }
        proof {
            assert(runs@.take(i + 1).drop_last() == runs@.take(i as int));
        }
        i += 1;
    }
    proof {
        assert(runs@.take(i as int) == runs@);
    }
    out
}

} // verus!
