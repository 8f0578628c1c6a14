//! Reassembling the full answer from the ordered fragment sequence.

use vstd::prelude::*;

verus! {

/// The concatenation of a fragment sequence, in order.
pub open spec fn concat_frags(frags: Seq<Seq<char>>) -> Seq<char>
    decreases frags.len(),
{
    if frags.len() == 0 {
        Seq::empty()
    } else {
        concat_frags(frags.drop_last()) + frags.last()
    }
}

/// Concatenation distributes over appending fragment sequences: what two
/// feeds yield, joined, is what one feed of everything yields.
pub proof fn lemma_concat_frags_app(a: Seq<Seq<char>>, b: Seq<Seq<char>>)
    ensures
        concat_frags(a + b) == concat_frags(a) + concat_frags(b),
    decreases b.len(),
{
    if b.len() == 0 {
        assert(a + b =~= a);
        assert(concat_frags(a) + concat_frags(b) =~= concat_frags(a));
    } else {
        assert((a + b).drop_last() =~= a + b.drop_last());
        assert((a + b).last() == b.last());
        lemma_concat_frags_app(a, b.drop_last());
        assert((concat_frags(a) + concat_frags(b.drop_last())) + b.last() =~= concat_frags(a) + (
        concat_frags(b.drop_last()) + b.last()));
    }
}

/// Accumulates fragments as they arrive; the caller may also emit each to
/// the terminal, which is no concern of the accumulator.
pub struct StreamAggregator {
    pub answer: String,
}

impl StreamAggregator {
    pub fn new() -> (r: StreamAggregator)
        ensures
            r.answer@.len() == 0,
    {
        StreamAggregator { answer: String::new() }
    }

    /// Appends one fragment; nothing is dropped or reordered.
    pub fn push_fragment(&mut self, frag: &str)
        ensures
            final(self).answer@ == old(self).answer@ + frag@,
    {
        self.answer.append(frag);
    }

    /// The assembled answer so far.
    pub fn take_answer(self) -> (r: String)
        ensures
            r@ == self.answer@,
    {
        self.answer
    }
}

/// Concatenates a fragment sequence in arrival order. Zero fragments
/// yield the empty answer, not an error.
pub fn aggregate(frags: &Vec<String>) -> (r: String)
    ensures
        r@ == concat_frags(frags@.map_values(|s: String| s@)),
        frags@.len() == 0 ==> r@ == Seq::<char>::empty(),
{
    let n = frags.len();
    let mut r = String::new();
    let mut i: usize = 0;
    while i < n
        invariant
            n == frags@.len(),
            i <= n,
            r@ == concat_frags(frags@.map_values(|s: String| s@).take(i as int)),
        decreases n - i,
    {
        r.append(frags[i].as_str());
        proof {
            let m = frags@.map_values(|s: String| s@);
            let t = m.take(i + 1);
            assert(t.drop_last() =~= m.take(i as int));
            assert(t.last() == m[i as int]);
            assert(m[i as int] == frags@[i as int]@);
        }
        i += 1;
    }
    proof {
        let m = frags@.map_values(|s: String| s@);
        assert(m.take(n as int) =~= m);
    }
    r
}

} // verus!
