//! The bounded, recency-ordered buffer of comparison keys.
//!
//! [`Fzq`] keeps the most recently recorded keys, newest first, never more
//! than its capacity.  Scoring a candidate key against the buffered ones is
//! the caller's business: the caller evaluates its chosen metric and
//! threshold for each buffered key and hands the boolean verdicts in, and
//! [`Fzq::is_similar`] performs the scan, the consumption of the first
//! matching key, the insertion at the front, and the truncation.

use vstd::prelude::*;

use crate::metric::Metric;

verus! {

/// True when at least one verdict in `sims` is positive.
pub open spec fn has_match(sims: Seq<bool>) -> bool {
    exists|i: int| 0 <= i < sims.len() && sims[i]
}

/// The index of the first positive verdict, scanning from the most-recent
/// end (index 0).
pub open spec fn first_match(sims: Seq<bool>) -> int
    decreases sims.len(),
{
    if sims.len() == 0 {
        0
    } else if sims[0] {
        0
    } else {
        1 + first_match(sims.drop_first())
    }
}

/// The buffer right after recording `key`, before the capacity bound is
/// enforced: the first matching entry, if any, is consumed, and `key` takes
/// the most-recent position.
pub open spec fn recorded(buf: Seq<Seq<char>>, sims: Seq<bool>, key: Seq<char>) -> Seq<Seq<char>> {
    if has_match(sims) {
        seq![key] + buf.remove(first_match(sims))
    } else {
        seq![key] + buf
    }
}

/// `s` cut down to at most `cap` entries, keeping the most recent ones.
pub open spec fn clipped(s: Seq<Seq<char>>, cap: nat) -> Seq<Seq<char>> {
    if s.len() <= cap {
        s
    } else {
        s.take(cap as int)
    }
}

/// The buffer after a full [`Fzq::is_similar`] call.
pub open spec fn buffer_after(
    buf: Seq<Seq<char>>,
    sims: Seq<bool>,
    key: Seq<char>,
    cap: nat,
) -> Seq<Seq<char>> {
    clipped(recorded(buf, sims, key), cap)
}

/// `first_match` really is the least index holding a positive verdict.
pub proof fn lemma_first_match(sims: Seq<bool>)
    requires
        has_match(sims),
    ensures
        0 <= first_match(sims) < sims.len(),
        sims[first_match(sims)],
        forall|j: int| 0 <= j < first_match(sims) ==> !sims[j],
    decreases sims.len(),
{
    if !sims[0] {
        let i = choose|i: int| 0 <= i < sims.len() && sims[i];
        assert(sims.drop_first()[i - 1] == sims[i]);
        lemma_first_match(sims.drop_first());
        assert forall|j: int| 0 <= j < first_match(sims) implies !sims[j] by {
            if j > 0 {
                assert(sims.drop_first()[j - 1] == sims[j]);
            }
        }
    }
}

/// A filter that records comparison keys and reports near-duplicates among
/// the most recent ones.
pub struct Fzq {
    buffer: Vec<String>,
    buffer_size: usize,
    metric: Metric,
}

impl Fzq {
    /// The recency-ordered keys, most recent first, as code-point sequences.
    pub closed spec fn keys(self) -> Seq<Seq<char>> {
        Seq::new(self.buffer@.len(), |i: int| self.buffer@[i]@)
    }

    /// The configured capacity.
    pub closed spec fn capacity(self) -> nat {
        self.buffer_size as nat
    }

    /// The configured metric selector.
    pub closed spec fn chosen_metric(self) -> Metric {
        self.metric
    }

    /// Capacity invariant: the buffer never holds more keys than its
    /// capacity allows.
    pub open spec fn wf(self) -> bool {
        self.keys().len() <= self.capacity()
    }

    /// A filter with the default configuration: capacity 100, Jaro metric,
    /// and an empty buffer.
    pub fn new() -> (r: Fzq)
        ensures
            r.keys() == Seq::<Seq<char>>::empty(),
            r.capacity() == 100,
            r.chosen_metric() == Metric::Jaro,
            r.wf(),
    {
        let r = Fzq { buffer: Vec::new(), buffer_size: 100, metric: Metric::Jaro };
        proof {
            assert(r.keys() =~= Seq::<Seq<char>>::empty());
        }
        r
    }

    /// Set the capacity.  A buffer already holding more keys is truncated at
    /// once, keeping the most recent ones.
    pub fn buffer_size(&mut self, size: usize)
        ensures
            final(self).capacity() == size,
            final(self).chosen_metric() == old(self).chosen_metric(),
            final(self).keys() == clipped(old(self).keys(), size as nat),
            final(self).wf(),
    {
        let ghost k0 = self.keys();
        self.buffer_size = size;
        self.buffer.truncate(size);
        proof {
            assert(self.keys() =~= clipped(k0, size as nat));
        }
    }

    /// Select the metric the caller is to evaluate for this filter.
    pub fn metric(&mut self, metric: Metric)
        ensures
            final(self).chosen_metric() == metric,
            final(self).capacity() == old(self).capacity(),
            final(self).keys() == old(self).keys(),
    {
        self.metric = metric;
    }

    /// The metric the caller is to evaluate.
    pub fn current_metric(&self) -> (r: Metric)
        ensures
            r == self.chosen_metric(),
    {
        self.metric
    }

    /// The buffered keys, most recent first, for the caller to score.
    pub fn buffered(&self) -> (r: &Vec<String>)
        ensures
            r@.len() == self.keys().len(),
            forall|i: int| 0 <= i < r@.len() ==> (#[trigger] r@[i])@ == self.keys()[i],
    {
        &self.buffer
    }

    /// Record `s` and report whether a buffered key matched it.
    ///
    /// `sims[i]` is the caller's verdict for the pair of `s` and the `i`-th
    /// buffered key: whether the chosen metric scores it at or above the
    /// threshold.  The first matching key, most recent first, is consumed;
    /// `s` becomes the most-recent entry; entries beyond the capacity are
    /// discarded from the least-recent end.
    pub fn is_similar(&mut self, s: &str, sims: &Vec<bool>) -> (r: bool)
        requires
            sims@.len() == old(self).keys().len(),
        ensures
            r == has_match(sims@),
            final(self).keys() == buffer_after(
                old(self).keys(),
                sims@,
                s@,
                old(self).capacity(),
            ),
            final(self).capacity() == old(self).capacity(),
            final(self).chosen_metric() == old(self).chosen_metric(),
            final(self).wf(),
    {
        let ghost buf0 = self.keys();
        let ghost size0 = self.buffer_size;
        let ghost metric0 = self.metric;
        let mut i: usize = 0;
        let mut matched: bool = false;
        while i < sims.len() && !matched
            invariant
                sims@.len() == buf0.len(),
                i <= sims@.len(),
                self.buffer_size == size0,
                self.metric == metric0,
                !matched ==> self.keys() == buf0,
                !matched ==> forall|j: int| 0 <= j < i ==> !sims@[j],
                matched ==> has_match(sims@) && i == first_match(sims@) && i < sims@.len(),
                matched ==> self.keys() == buf0.remove(i as int),
            decreases sims@.len() - i + (if matched { 0int } else { 1 }),
        {
            if sims[i] {
                proof {
                    lemma_first_match(sims@);
                    assert(first_match(sims@) == i as int) by {
                        if first_match(sims@) < i as int {
                            assert(!sims@[first_match(sims@)]);
                        }
                    }
                }
                let _ = self.buffer.remove(i);
                matched = true;
                proof {
                    assert(self.keys() =~= buf0.remove(i as int));
                }
            } else {
                i = i + 1;
            }
        }
        proof {
            if !matched {
                assert(!has_match(sims@));
            }
        }
        let key = String::from_str(s);
        self.buffer.insert(0, key);
        proof {
            assert(self.keys() =~= recorded(buf0, sims@, s@));
        }
        self.buffer.truncate(self.buffer_size);
        proof {
            assert(self.keys() =~= buffer_after(buf0, sims@, s@, size0 as nat));
        }
        matched
    }
}

/// Capacity invariant: however a call turns out, the buffer it leaves
/// behind never exceeds the capacity.
pub proof fn lemma_capacity_invariant(buf: Seq<Seq<char>>, sims: Seq<bool>, key: Seq<char>, cap: nat)
    ensures
        buffer_after(buf, sims, key, cap).len() <= cap,
{
}

/// At most one buffered key is consumed per call: before the capacity bound
/// is enforced, the buffer has gained the new key at the front and lost at
/// most the first matching entry, with every other key keeping its order.
pub proof fn lemma_at_most_one_consumption(buf: Seq<Seq<char>>, sims: Seq<bool>, key: Seq<char>)
    requires
        sims.len() == buf.len(),
    ensures
        recorded(buf, sims, key).len() + (if has_match(sims) { 1int } else { 0 }) == buf.len() + 1,
        recorded(buf, sims, key)[0] == key,
        !has_match(sims) ==> forall|j: int|
            0 <= j < buf.len() ==> recorded(buf, sims, key)[j + 1] == buf[j],
        has_match(sims) ==> forall|j: int|
            0 <= j < first_match(sims) ==> recorded(buf, sims, key)[j + 1] == buf[j],
        has_match(sims) ==> forall|j: int|
            first_match(sims) < j < buf.len() ==> recorded(buf, sims, key)[j] == buf[j],
{
    if has_match(sims) {
        lemma_first_match(sims);
    }
}

/// Recency: as long as the capacity is not zero, the key just recorded is
/// the most-recent entry afterwards.  (With capacity zero the buffer is
/// always empty and nothing is retained.)
pub proof fn lemma_recency(buf: Seq<Seq<char>>, sims: Seq<bool>, key: Seq<char>, cap: nat)
    requires
        cap >= 1,
    ensures
        buffer_after(buf, sims, key, cap).len() >= 1,
        buffer_after(buf, sims, key, cap)[0] == key,
{
    if has_match(sims) {
        lemma_first_match(sims);
    }
}

/// Monotonicity in the threshold: raising the threshold can only turn
/// positive verdicts negative, so it can only turn a match into a
/// non-match, never the reverse.
pub proof fn lemma_threshold_monotonicity(strict: Seq<bool>, loose: Seq<bool>)
    requires
        strict.len() == loose.len(),
        forall|i: int| 0 <= i < strict.len() ==> (strict[i] ==> loose[i]),
    ensures
        has_match(strict) ==> has_match(loose),
{
    if has_match(strict) {
        let i = choose|i: int| 0 <= i < strict.len() && strict[i];
        assert(loose[i]);
    }
}

} // verus!
