//! Incremental detokenization: each step re-decodes the whole token sequence
//! and hands on only the text beyond what was emitted before.
use vstd::prelude::*;

verus! {

/// How much decoded text has been emitted once the successive full decodes
/// `texts` were observed, starting from `base` characters.
pub open spec fn emitted_after(base: nat, texts: Seq<Seq<char>>) -> nat
    decreases texts.len(),
{
    if texts.len() == 0 {
        base
    } else {
        let prev = emitted_after(base, texts.drop_last());
        if texts.last().len() > prev {
            texts.last().len()
        } else {
            prev
        }
    }
}

/// The delta emitted for the full decode `text` after `prev` characters.
pub open spec fn delta_of(prev: nat, text: Seq<char>) -> Seq<char> {
    if text.len() > prev {
        text.subrange(prev as int, text.len() as int)
    } else {
        Seq::empty()
    }
}

/// The concatenation of the deltas emitted while observing `texts`.
pub open spec fn delta_text(base: nat, texts: Seq<Seq<char>>) -> Seq<char>
    decreases texts.len(),
{
    if texts.len() == 0 {
        Seq::empty()
    } else {
        delta_text(base, texts.drop_last()) + delta_of(
            emitted_after(base, texts.drop_last()),
            texts.last(),
        )
    }
}

/// Whether `b` begins with `a`.
pub open spec fn extends(a: Seq<char>, b: Seq<char>) -> bool {
    a.len() <= b.len() && b.subrange(0, a.len() as int) == a
}

/// The text that decode `k` of `texts` follows: the baseline for the first.
pub open spec fn previous(baseline: Seq<char>, texts: Seq<Seq<char>>, k: int) -> Seq<char> {
    if k == 0 {
        baseline
    } else {
        texts[k - 1]
    }
}

/// Each decode extends the previous one, and the first extends `baseline`.
pub open spec fn extends_each(baseline: Seq<char>, texts: Seq<Seq<char>>) -> bool {
    forall|k: int| 0 <= k < texts.len() ==> #[trigger] extends(previous(baseline, texts, k), texts[k])
}

/// Where every decode extends the one before it, the deltas put together are
/// exactly the final decode beyond the baseline: nothing is skipped and
/// nothing is emitted twice.
pub proof fn lemma_stream_complete(baseline: Seq<char>, texts: Seq<Seq<char>>)
    requires
        texts.len() > 0,
        extends_each(baseline, texts),
    ensures
        delta_text(baseline.len(), texts) == texts.last().subrange(
            baseline.len() as int,
            texts.last().len() as int,
        ),
        emitted_after(baseline.len(), texts) == texts.last().len(),
        baseline.len() <= texts.last().len(),
    decreases texts.len(),
{
    let init = texts.drop_last();
    let t = texts.last();
    assert(extends(previous(baseline, texts, texts.len() - 1), texts[texts.len() - 1]));
    if texts.len() == 1 {
        assert(init.len() == 0);
        assert(delta_text(baseline.len(), init) == Seq::<char>::empty());
        assert(emitted_after(baseline.len(), init) == baseline.len());
        assert(delta_text(baseline.len(), texts) =~= t.subrange(
            baseline.len() as int,
            t.len() as int,
        ));
    } else {
        assert forall|k: int| 0 <= k < init.len() implies #[trigger] extends(
            previous(baseline, init, k),
            init[k],
        ) by {
            assert(extends(previous(baseline, texts, k), texts[k]));
            assert(previous(baseline, init, k) == previous(baseline, texts, k));
        }
        lemma_stream_complete(baseline, init);
        let prev = init.last();
        assert(previous(baseline, texts, texts.len() - 1) == prev);
        assert(t.subrange(0, prev.len() as int) == prev);
        assert(delta_text(baseline.len(), texts) =~= t.subrange(
            baseline.len() as int,
            t.len() as int,
        )) by {
            assert forall|q: int| baseline.len() <= q < prev.len() implies prev[q] == t[q] by {
                assert(t.subrange(0, prev.len() as int)[q] == t[q]);
            }
        }
    }
}

/// Remembers how much of the decoded text has been emitted.
pub struct DeltaTracker {
    emitted: usize,
}

impl DeltaTracker {
    /// The number of characters emitted so far, the baseline included.
    pub closed spec fn emitted(&self) -> nat {
        self.emitted as nat
    }

    /// A tracker whose baseline is the decoded prompt, which is never emitted.
    pub fn new(baseline: &str) -> (r: Self)
        ensures
            r.emitted() == baseline@.len(),
    {
        DeltaTracker { emitted: baseline.unicode_len() }
    }

    /// The characters emitted so far, the baseline included.
    pub fn emitted_len(&self) -> (r: usize)
        ensures
            r == self.emitted(),
    {
        self.emitted
    }

    /// Observes the full decode of the running sequence and returns the text
    /// beyond what was emitted, if there is any.
    pub fn observe(&mut self, full: &str) -> (r: Option<String>)
        ensures
            final(self).emitted() == emitted_after(old(self).emitted(), seq![full@]),
            match r {
                Some(d) => full@.len() > old(self).emitted() && d@ == delta_of(
                    old(self).emitted(),
                    full@,
                ),
                None => full@.len() <= old(self).emitted(),
            },
    {
        proof {
            assert(seq![full@].drop_last() =~= Seq::<Seq<char>>::empty());
            assert(seq![full@].last() == full@);
            assert(emitted_after(self.emitted(), Seq::<Seq<char>>::empty()) == self.emitted());
        }
        let n = full.unicode_len();
        if n > self.emitted {
            let d = full.substring_char(self.emitted, n);
            self.emitted = n;
            Some(d.to_owned())
        } else {
            None
        }
    }
}

} // verus!
