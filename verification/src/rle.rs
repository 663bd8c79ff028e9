//! Run-length encoding of categorical columns.
//!
//! An encoded column is a pair of parallel vectors: the run values and the
//! run counts. Its meaning is given by `expand_runs`: each value repeated its
//! count, in order. Encoding is canonical — every count is at least one and
//! adjacent run values differ — and expanding the encoding reproduces the
//! input column exactly.

use vstd::prelude::*;

use crate::codec::Seqnames;
use crate::codec::Strand;

verus! {

/// The column a run-length encoding denotes: each run's value repeated its
/// count, runs in order.
pub open spec fn expand_runs<T>(elems: Seq<T>, freqs: Seq<u32>) -> Seq<T>
    recommends
        elems.len() == freqs.len(),
    decreases elems.len(),
{
    if elems.len() == 0 {
        Seq::empty()
    } else {
        Seq::new(freqs[0] as nat, |i: int| elems[0]) + expand_runs(
            elems.drop_first(),
            freqs.drop_first(),
        )
    }
}

/// The total of a column's run counts.
pub open spec fn sum_freqs(freqs: Seq<u32>) -> nat
    decreases freqs.len(),
{
    if freqs.len() == 0 {
        0
    } else {
        (freqs[0] as nat) + sum_freqs(freqs.drop_first())
    }
}

/// A well-formed (canonical) run-length column: parallel vectors, every
/// count at least one, and no two adjacent runs with the same value.
pub open spec fn runs_wf<T>(elems: Seq<T>, freqs: Seq<u32>) -> bool {
    &&& elems.len() == freqs.len()
    &&& forall|i: int| 0 <= i < freqs.len() ==> #[trigger] freqs[i] >= 1
    &&& forall|i: int| 0 <= i && i + 1 < elems.len() ==> #[trigger] elems[i] != elems[i + 1]
}

/// Appending a run to an encoding appends its repetitions to the expansion.
pub proof fn lemma_expand_push<T>(elems: Seq<T>, freqs: Seq<u32>, v: T, c: u32)
    requires
        elems.len() == freqs.len(),
    ensures
        expand_runs(elems.push(v), freqs.push(c)) == expand_runs(elems, freqs) + Seq::new(
            c as nat,
            |i: int| v,
        ),
    decreases elems.len(),
{
    if elems.len() == 0 {
        assert(elems.push(v)[0] == v);
        assert(freqs.push(c)[0] == c);
        assert(elems.push(v).drop_first() =~= Seq::<T>::empty());
        assert(freqs.push(c).drop_first() =~= Seq::<u32>::empty());
        assert(expand_runs(Seq::<T>::empty(), Seq::<u32>::empty()) =~= Seq::<T>::empty());
        assert(expand_runs(elems.push(v), freqs.push(c)) =~= expand_runs(elems, freqs) + Seq::new(
            c as nat,
            |i: int| v,
        ));
    } else {
        assert(elems.push(v)[0] == elems[0]);
        assert(freqs.push(c)[0] == freqs[0]);
        assert(elems.push(v).drop_first() =~= elems.drop_first().push(v));
        assert(freqs.push(c).drop_first() =~= freqs.drop_first().push(c));
        lemma_expand_push(elems.drop_first(), freqs.drop_first(), v, c);
        assert(expand_runs(elems.push(v), freqs.push(c)) =~= expand_runs(elems, freqs) + Seq::new(
            c as nat,
            |i: int| v,
        ));
    }
}

/// Appending a run adds its count to the total of the counts.
pub proof fn lemma_sum_push(freqs: Seq<u32>, c: u32)
    ensures
        sum_freqs(freqs.push(c)) == sum_freqs(freqs) + c,
    decreases freqs.len(),
{
    if freqs.len() == 0 {
        assert(freqs.push(c)[0] == c);
        assert(freqs.push(c).drop_first() =~= Seq::<u32>::empty());
        assert(sum_freqs(Seq::<u32>::empty()) == 0);
    } else {
        assert(freqs.push(c)[0] == freqs[0]);
        assert(freqs.push(c).drop_first() =~= freqs.drop_first().push(c));
        lemma_sum_push(freqs.drop_first(), c);
        assert(sum_freqs(freqs.push(c)) == (freqs.push(c)[0] as nat) + sum_freqs(
            freqs.push(c).drop_first(),
        ));
    }
}

/// Run-count invariant: the total of a column's run counts equals the length
/// of the column's expansion, that is, the number of records it encodes.
pub proof fn lemma_expand_len<T>(elems: Seq<T>, freqs: Seq<u32>)
    requires
        elems.len() == freqs.len(),
    ensures
        expand_runs(elems, freqs).len() == sum_freqs(freqs),
    decreases elems.len(),
{
    if elems.len() == 0 {
    } else {
        lemma_expand_len(elems.drop_first(), freqs.drop_first());
    }
}

/// A run-length-encoded categorical column: run values beside run counts.
#[allow(non_camel_case_types)]
#[derive(Debug)]
pub struct rle<T> {
    pub element: Vec<T>,
    pub freq: Vec<u32>,
}

impl<T> rle<T> {
    /// Canonical-form well-formedness of this encoded column.
    pub open spec fn wf(self) -> bool {
        runs_wf(self.element@, self.freq@)
    }

    /// The column this encoding denotes.
    pub open spec fn expanded(self) -> Seq<T> {
        expand_runs(self.element@, self.freq@)
    }
}

// The encoder and decoder are implemented once per categorical tag type:
// executable `==` on a generic parameter has no spec meaning without extra
// trait plumbing, while these `Structural` enums compare structurally, which
// lets the scan's equality tests feed the proof directly.
impl rle<Seqnames> {
    /// An empty encoded column.
    pub fn new() -> (r: Self)
        ensures
            r.element@.len() == 0,
            r.freq@.len() == 0,
    {
        rle { element: Vec::new(), freq: Vec::new() }
    }

    /// Encodes a non-empty column of chromosome tags: after the call this
    /// holds the canonical run-length form whose expansion is exactly `var`,
    /// and whose counts total `var`'s length.
    pub fn encode_rle(&mut self, var: Vec<Seqnames>)
        requires
            old(self).element@.len() == 0,
            old(self).freq@.len() == 0,
            var@.len() >= 1,
            var@.len() <= u32::MAX,
        ensures
            final(self).wf(),
            final(self).expanded() == var@,
            sum_freqs(final(self).freq@) == var@.len(),
    {
        let ghost vs = var@;
        let mut iter: u32 = 1;
        let mut prev_char: Seqnames = var[0];
        let mut k: usize = 1;
        while k < var.len()
            invariant
                1 <= k <= vs.len(),
                var@ == vs,
                vs.len() <= u32::MAX,
                1 <= iter,
                iter as int <= k as int,
                prev_char == vs[k - 1],
                runs_wf(self.element@, self.freq@),
                self.element@.len() > 0 ==> self.element@.last() != prev_char,
                expand_runs(self.element@, self.freq@) + Seq::new(iter as nat, |i: int| prev_char)
                    == vs.subrange(0, k as int),
                sum_freqs(self.freq@) + iter == k,
            decreases vs.len() - k,
        {
            let ch = var[k];
            proof {
                assert(vs.subrange(0, k as int).push(vs[k as int]) =~= vs.subrange(0, k + 1));
            }
            if ch != prev_char {
                proof {
                    lemma_expand_push(self.element@, self.freq@, prev_char, iter);
                    lemma_sum_push(self.freq@, iter);
                    assert(Seq::new(1 as nat, |i: int| ch) =~= Seq::empty().push(ch));
                    assert(vs.subrange(0, k as int) + Seq::new(1 as nat, |i: int| ch)
                        =~= vs.subrange(0, k + 1));
                }
                self.element.push(prev_char);
                self.freq.push(iter);
                iter = 1;
            } else {
                proof {
                    assert(Seq::new((iter + 1) as nat, |i: int| prev_char) =~= Seq::new(
                        iter as nat,
                        |i: int| prev_char,
                    ).push(prev_char));
                    assert(expand_runs(self.element@, self.freq@) + Seq::new(
                        iter as nat,
                        |i: int| prev_char,
                    ).push(prev_char) =~= (expand_runs(self.element@, self.freq@) + Seq::new(
                        iter as nat,
                        |i: int| prev_char,
                    )).push(prev_char));
                }
                iter = iter + 1;
            }
            prev_char = ch;
            k = k + 1;
        }
        proof {
            lemma_expand_push(self.element@, self.freq@, prev_char, iter);
            lemma_sum_push(self.freq@, iter);
            assert(vs.subrange(0, vs.len() as int) =~= vs);
        }
        self.element.push(prev_char);
        self.freq.push(iter);
    }

    /// Expands this encoded column back into the plain column it denotes.
    pub fn decode(&self) -> (r: Vec<Seqnames>)
        requires
            self.element@.len() == self.freq@.len(),
        ensures
            r@ == self.expanded(),
    {
        let ghost es = self.element@;
        let ghost fs = self.freq@;
        let mut r: Vec<Seqnames> = Vec::new();
        let mut j: usize = 0;
        while j < self.element.len()
            invariant
                0 <= j <= es.len(),
                es.len() == fs.len(),
                self.element@ == es,
                self.freq@ == fs,
                r@ == expand_runs(es.subrange(0, j as int), fs.subrange(0, j as int)),
            decreases es.len() - j,
        {
            let v = self.element[j];
            let f = self.freq[j];
            let ghost base = r@;
            let mut c: u32 = 0;
            while c < f
                invariant
                    0 <= c <= f,
                    r@ == base + Seq::new(c as nat, |i: int| v),
                decreases f - c,
            {
                proof {
                    assert(Seq::new((c + 1) as nat, |i: int| v) =~= Seq::new(
                        c as nat,
                        |i: int| v,
                    ).push(v));
                    assert(base + Seq::new(c as nat, |i: int| v).push(v) =~= (base + Seq::new(
                        c as nat,
                        |i: int| v,
                    )).push(v));
                }
                r.push(v);
                c = c + 1;
            }
            proof {
                lemma_expand_push(es.subrange(0, j as int), fs.subrange(0, j as int), v, f);
                assert(es.subrange(0, j as int).push(es[j as int]) =~= es.subrange(0, j + 1));
                assert(fs.subrange(0, j as int).push(fs[j as int]) =~= fs.subrange(0, j + 1));
            }
            j = j + 1;
        }
        proof {
            assert(es.subrange(0, es.len() as int) =~= es);
            assert(fs.subrange(0, fs.len() as int) =~= fs);
        }
        r
    }
}

impl rle<Strand> {
    /// An empty encoded column.
    pub fn new() -> (r: Self)
        ensures
            r.element@.len() == 0,
            r.freq@.len() == 0,
    {
        rle { element: Vec::new(), freq: Vec::new() }
    }

    /// Encodes a non-empty column of strand tags: after the call this holds
    /// the canonical run-length form whose expansion is exactly `var`, and
    /// whose counts total `var`'s length.
    pub fn encode_rle(&mut self, var: Vec<Strand>)
        requires
            old(self).element@.len() == 0,
            old(self).freq@.len() == 0,
            var@.len() >= 1,
            var@.len() <= u32::MAX,
        ensures
            final(self).wf(),
            final(self).expanded() == var@,
            sum_freqs(final(self).freq@) == var@.len(),
    {
        let ghost vs = var@;
        let mut iter: u32 = 1;
        let mut prev_char: Strand = var[0];
        let mut k: usize = 1;
        while k < var.len()
            invariant
                1 <= k <= vs.len(),
                var@ == vs,
                vs.len() <= u32::MAX,
                1 <= iter,
                iter as int <= k as int,
                prev_char == vs[k - 1],
                runs_wf(self.element@, self.freq@),
                self.element@.len() > 0 ==> self.element@.last() != prev_char,
                expand_runs(self.element@, self.freq@) + Seq::new(iter as nat, |i: int| prev_char)
                    == vs.subrange(0, k as int),
                sum_freqs(self.freq@) + iter == k,
            decreases vs.len() - k,
        {
            let ch = var[k];
            proof {
                assert(vs.subrange(0, k as int).push(vs[k as int]) =~= vs.subrange(0, k + 1));
            }
            if ch != prev_char {
                proof {
                    lemma_expand_push(self.element@, self.freq@, prev_char, iter);
                    lemma_sum_push(self.freq@, iter);
                    assert(Seq::new(1 as nat, |i: int| ch) =~= Seq::empty().push(ch));
                    assert(vs.subrange(0, k as int) + Seq::new(1 as nat, |i: int| ch)
                        =~= vs.subrange(0, k + 1));
                }
                self.element.push(prev_char);
                self.freq.push(iter);
                iter = 1;
            } else {
                proof {
                    assert(Seq::new((iter + 1) as nat, |i: int| prev_char) =~= Seq::new(
                        iter as nat,
                        |i: int| prev_char,
                    ).push(prev_char));
                    assert(expand_runs(self.element@, self.freq@) + Seq::new(
                        iter as nat,
                        |i: int| prev_char,
                    ).push(prev_char) =~= (expand_runs(self.element@, self.freq@) + Seq::new(
                        iter as nat,
                        |i: int| prev_char,
                    )).push(prev_char));
                }
                iter = iter + 1;
            }
            prev_char = ch;
            k = k + 1;
        }
        proof {
            lemma_expand_push(self.element@, self.freq@, prev_char, iter);
            lemma_sum_push(self.freq@, iter);
            assert(vs.subrange(0, vs.len() as int) =~= vs);
        }
        self.element.push(prev_char);
        self.freq.push(iter);
    }

    /// Expands this encoded column back into the plain column it denotes.
    pub fn decode(&self) -> (r: Vec<Strand>)
        requires
            self.element@.len() == self.freq@.len(),
        ensures
            r@ == self.expanded(),
    {
        let ghost es = self.element@;
        let ghost fs = self.freq@;
        let mut r: Vec<Strand> = Vec::new();
        let mut j: usize = 0;
        while j < self.element.len()
            invariant
                0 <= j <= es.len(),
                es.len() == fs.len(),
                self.element@ == es,
                self.freq@ == fs,
                r@ == expand_runs(es.subrange(0, j as int), fs.subrange(0, j as int)),
            decreases es.len() - j,
        {
            let v = self.element[j];
            let f = self.freq[j];
            let ghost base = r@;
            let mut c: u32 = 0;
            while c < f
                invariant
                    0 <= c <= f,
                    r@ == base + Seq::new(c as nat, |i: int| v),
                decreases f - c,
            {
                proof {
                    assert(Seq::new((c + 1) as nat, |i: int| v) =~= Seq::new(
                        c as nat,
                        |i: int| v,
                    ).push(v));
                    assert(base + Seq::new(c as nat, |i: int| v).push(v) =~= (base + Seq::new(
                        c as nat,
                        |i: int| v,
                    )).push(v));
                }
                r.push(v);
                c = c + 1;
            }
            proof {
                lemma_expand_push(es.subrange(0, j as int), fs.subrange(0, j as int), v, f);
                assert(es.subrange(0, j as int).push(es[j as int]) =~= es.subrange(0, j + 1));
                assert(fs.subrange(0, j as int).push(fs[j as int]) =~= fs.subrange(0, j + 1));
            }
            j = j + 1;
        }
        proof {
            assert(es.subrange(0, es.len() as int) =~= es);
            assert(fs.subrange(0, fs.len() as int) =~= fs);
        }
        r
    }
}

} // verus!
