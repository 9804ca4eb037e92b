use vstd::prelude::*;
use std::collections::VecDeque;

use crate::model::Event;

verus! {

/// Timestamps never increase from front to back.
pub open spec fn sorted_desc(s: Seq<Event>) -> bool {
    forall|i: int, j: int| 0 <= i < j < s.len() ==> s[i].timestamp >= s[j].timestamp
}

/// Stable merge of two sequences by descending timestamp; on equal
/// timestamps the element of `a` comes first.
pub open spec fn merge_desc(a: Seq<Event>, b: Seq<Event>) -> Seq<Event>
    decreases a.len() + b.len(),
{
    if a.len() == 0 {
        b
    } else if b.len() == 0 {
        a
    } else if a[0].timestamp >= b[0].timestamp {
        seq![a[0]] + merge_desc(a.drop_first(), b)
    } else {
        seq![b[0]] + merge_desc(a, b.drop_first())
    }
}

/// `s` put in descending timestamp order, keeping the order of arrival
/// among equal timestamps.
pub open spec fn sort_desc(s: Seq<Event>) -> Seq<Event>
    decreases s.len(),
{
    if s.len() == 0 {
        s
    } else {
        merge_desc(sort_desc(s.drop_last()), seq![s.last()])
    }
}

/// Every element of `s` is stamped no later than `t`.
pub open spec fn all_at_most(s: Seq<Event>, t: int) -> bool {
    forall|i: int| 0 <= i < s.len() ==> s[i].timestamp <= t
}

/// Merging keeps a common upper bound of both inputs.
pub proof fn lemma_merge_bound(a: Seq<Event>, b: Seq<Event>, t: int)
    requires
        all_at_most(a, t),
        all_at_most(b, t),
    ensures
        all_at_most(merge_desc(a, b), t),
        merge_desc(a, b).len() == a.len() + b.len(),
    decreases a.len() + b.len(),
{
    if a.len() > 0 && b.len() > 0 {
        if a[0].timestamp >= b[0].timestamp {
            lemma_merge_bound(a.drop_first(), b, t);
        } else {
            lemma_merge_bound(a, b.drop_first(), t);
        }
    }
}

/// Merging two sorted sequences gives a sorted sequence holding exactly
/// the elements of both.
pub proof fn lemma_merge_sorted(a: Seq<Event>, b: Seq<Event>)
    requires
        sorted_desc(a),
        sorted_desc(b),
    ensures
        sorted_desc(merge_desc(a, b)),
        merge_desc(a, b).len() == a.len() + b.len(),
        merge_desc(a, b).to_multiset() == a.to_multiset().add(b.to_multiset()),
    decreases a.len() + b.len(),
{
    if a.len() == 0 {
        assert(a + b =~= b);
        vstd::seq_lib::lemma_multiset_commutative(a, b);
    } else if b.len() == 0 {
        assert(a + b =~= a);
        vstd::seq_lib::lemma_multiset_commutative(a, b);
    } else if a[0].timestamp >= b[0].timestamp {
        let rest = merge_desc(a.drop_first(), b);
        lemma_merge_sorted(a.drop_first(), b);
        lemma_merge_bound(a.drop_first(), b, a[0].timestamp as int);
        assert(sorted_desc(seq![a[0]] + rest));
        assert(a =~= seq![a[0]] + a.drop_first());
        vstd::seq_lib::lemma_multiset_commutative(seq![a[0]], a.drop_first());
        vstd::seq_lib::lemma_multiset_commutative(seq![a[0]], rest);
        assert(merge_desc(a, b).to_multiset() =~= a.to_multiset().add(b.to_multiset()));
    } else {
        let rest = merge_desc(a, b.drop_first());
        lemma_merge_sorted(a, b.drop_first());
        lemma_merge_bound(a, b.drop_first(), b[0].timestamp as int);
        assert(sorted_desc(seq![b[0]] + rest));
        assert(b =~= seq![b[0]] + b.drop_first());
        vstd::seq_lib::lemma_multiset_commutative(seq![b[0]], b.drop_first());
        vstd::seq_lib::lemma_multiset_commutative(seq![b[0]], rest);
        assert(merge_desc(a, b).to_multiset() =~= a.to_multiset().add(b.to_multiset()));
    }
}

/// Sorting gives a sorted sequence holding exactly the elements of its input.
pub proof fn lemma_sort_sorted(s: Seq<Event>)
    ensures
        sorted_desc(sort_desc(s)),
        sort_desc(s).len() == s.len(),
        sort_desc(s).to_multiset() == s.to_multiset(),
    decreases s.len(),
{
    if s.len() > 0 {
        let init = s.drop_last();
        lemma_sort_sorted(init);
        lemma_merge_sorted(sort_desc(init), seq![s.last()]);
        assert(s =~= init + seq![s.last()]);
        vstd::seq_lib::lemma_multiset_commutative(init, seq![s.last()]);
    }
}

/// Inserting one element into a sorted sequence lands it after every
/// element stamped at or after it.
proof fn lemma_merge_single(s: Seq<Event>, e: Event, p: int)
    requires
        0 <= p <= s.len(),
        forall|i: int| 0 <= i < p ==> s[i].timestamp >= e.timestamp,
        p < s.len() ==> s[p].timestamp < e.timestamp,
    ensures
        merge_desc(s, seq![e]) == s.take(p) + seq![e] + s.skip(p),
    decreases p,
{
    if p == 0 {
        if s.len() == 0 {
            assert(s.take(0) + seq![e] + s.skip(0) =~= seq![e]);
        } else {
            assert(seq![e].drop_first() =~= Seq::<Event>::empty());
            assert(merge_desc(s, Seq::<Event>::empty()) == s);
            assert(s.take(0) + seq![e] + s.skip(0) =~= seq![e] + s);
        }
    } else {
        let t = s.drop_first();
        lemma_merge_single(t, e, p - 1);
        assert(merge_desc(s, seq![e]) == seq![s[0]] + merge_desc(t, seq![e]));
        assert(s.take(p) + seq![e] + s.skip(p) =~= seq![s[0]] + (t.take(p - 1) + seq![e] + t.skip(p - 1)));
    }
}

/// A filter that keeps every element keeps the whole sequence.
proof fn lemma_filter_all(s: Seq<Event>, pred: spec_fn(Event) -> bool)
    requires
        forall|i: int| 0 <= i < s.len() ==> pred(s[i]),
    ensures
        s.filter(pred) == s,
    decreases s.len(),
{
    reveal(Seq::filter);
    if s.len() > 0 {
        lemma_filter_all(s.drop_last(), pred);
        assert(s.drop_last().push(s.last()) =~= s);
    }
}

/// A filter that keeps no element leaves nothing.
proof fn lemma_filter_none(s: Seq<Event>, pred: spec_fn(Event) -> bool)
    requires
        forall|i: int| 0 <= i < s.len() ==> !pred(s[i]),
    ensures
        s.filter(pred) == Seq::<Event>::empty(),
    decreases s.len(),
{
    reveal(Seq::filter);
    if s.len() > 0 {
        lemma_filter_none(s.drop_last(), pred);
    }
}

/// The buffer after adding each of `batches` in turn to a buffer holding `start`.
pub open spec fn after_batches(start: Seq<Event>, batches: Seq<Seq<Event>>) -> Seq<Event>
    decreases batches.len(),
{
    if batches.len() == 0 {
        start
    } else {
        merge_desc(after_batches(start, batches.drop_last()), sort_desc(batches.last()))
    }
}

/// However each batch is ordered and however batches overlap in time,
/// adding them one after another to a sorted buffer leaves it in descending
/// timestamp order after every call, holding exactly the events added.
pub proof fn lemma_merge_invariant(start: Seq<Event>, batches: Seq<Seq<Event>>)
    requires
        sorted_desc(start),
    ensures
        forall|k: int|
            0 <= k <= batches.len() ==> #[trigger] sorted_desc(
                after_batches(start, batches.take(k)),
            ),
        sorted_desc(after_batches(start, batches)),
    decreases batches.len(),
{
    if batches.len() > 0 {
        let init = batches.drop_last();
        lemma_merge_invariant(start, init);
        lemma_sort_sorted(batches.last());
        lemma_merge_sorted(after_batches(start, init), sort_desc(batches.last()));
        assert forall|k: int| 0 <= k <= batches.len() implies #[trigger] sorted_desc(
            after_batches(start, batches.take(k)),
        ) by {
            if k < batches.len() {
                assert(batches.take(k) =~= init.take(k));
            } else {
                assert(batches.take(k) =~= batches);
            }
        }
    }
}

/// The event is no older than `w` milliseconds at time `now`.
pub open spec fn within(now: i64, w: i64, e: Event) -> bool {
    now as int - e.timestamp as int <= w as int
}

/// The events of `s` no older than `w` milliseconds at time `now`, in the order of `s`.
pub open spec fn window_at(s: Seq<Event>, now: i64, w: i64) -> Seq<Event> {
    s.filter(|e: Event| within(now, w, e))
}

/// Time-ordered buffer of the events of one stream, newest at the front.
pub struct InMemory {
    buffer: VecDeque<Event>,
}

impl View for InMemory {
    type V = Seq<Event>;

    closed spec fn view(&self) -> Seq<Event> {
        self.buffer@
    }
}

/// Relies on chrono::Utc::now and DateTime::timestamp_millis: the current
/// time in milliseconds since the Unix epoch. Nothing is promised of it.
#[verifier::external_body]
fn now_millis() -> (r: i64) {
    chrono::Utc::now().timestamp_millis()
}

impl InMemory {
    #[verifier::type_invariant]
    spec fn inv(&self) -> bool {
        sorted_desc(self.buffer@)
    }

    pub fn new() -> (r: InMemory)
        ensures
            r@ == Seq::<Event>::empty(),
    {
        InMemory { buffer: VecDeque::new() }
    }

    /// The batch in descending timestamp order, ties in order of arrival.
    fn sort_batch(events: Vec<Event>) -> (r: Vec<Event>)
        ensures
            r@ == sort_desc(events@),
    {
        let mut out: Vec<Event> = Vec::new();
        let n = events.len();
        let mut i: usize = 0;
        while i < n
            invariant
                n == events@.len(),
                i <= n,
                out@ == sort_desc(events@.take(i as int)),
            decreases n - i,
        {
            let e = events[i];
            proof {
                lemma_sort_sorted(events@.take(i as int));
            }
            let mut p: usize = 0;
            while p < out.len() && out[p].timestamp >= e.timestamp
                invariant
                    p <= out@.len(),
                    forall|k: int| 0 <= k < p ==> out@[k].timestamp >= e.timestamp,
                decreases out@.len() - p,
            {
                p += 1;
            }
            proof {
                lemma_merge_single(out@, e, p as int);
                assert(events@.take(i + 1).drop_last() =~= events@.take(i as int));
            }
            let ghost before = out@;
            out.insert(p, e);
            proof {
                assert(out@ =~= before.take(p as int) + seq![e] + before.skip(p as int));
            }
            i += 1;
        }
        proof {
            assert(events@.take(n as int) =~= events@);
        }
        out
    }

    /// Fills an empty buffer with an already sorted batch.
    fn insert(&mut self, events: Vec<Event>)
        requires
            old(self)@.len() == 0,
            sorted_desc(events@),
        ensures
            final(self)@ == events@,
    {
        let mut buffer: VecDeque<Event> = VecDeque::new();
        let n = events.len();
        let mut i: usize = 0;
        while i < n
            invariant
                n == events@.len(),
                i <= n,
                buffer@ == events@.take(i as int),
            decreases n - i,
        {
            buffer.push_back(events[i]);
            proof {
                assert(events@.take(i + 1) =~= events@.take(i as int).push(events@[i as int]));
            }
            i += 1;
        }
        proof {
            assert(events@.take(n as int) =~= events@);
        }
        self.buffer = buffer;
    }

    /// Two-pointer merge of a sorted batch into the buffer.
    fn insert_interleaved(&mut self, events: Vec<Event>)
        requires
            sorted_desc(events@),
        ensures
            final(self)@ == merge_desc(old(self)@, events@),
    {
        proof {
            use_type_invariant(&*self);
            lemma_merge_sorted(self.buffer@, events@);
        }
        let ghost a = self.buffer@;
        let ghost b = events@;
        let mut merged: VecDeque<Event> = VecDeque::new();
        let n = self.buffer.len();
        let m = events.len();
        let mut i: usize = 0;
        let mut j: usize = 0;
        proof {
            assert(a.skip(0) =~= a);
            assert(b.skip(0) =~= b);
            assert(merged@ + merge_desc(a, b) =~= merge_desc(a, b));
        }
        while i < n || j < m
            invariant
                a == self.buffer@,
                b == events@,
                n == a.len(),
                m == b.len(),
                i <= n,
                j <= m,
                merged@ + merge_desc(a.skip(i as int), b.skip(j as int)) == merge_desc(a, b),
            decreases (n - i) + (m - j),
        {
            let ghost rest = merge_desc(a.skip(i as int), b.skip(j as int));
            if i < n && (j >= m || self.buffer[i].timestamp >= events[j].timestamp) {
                proof {
                    assert(a.skip(i as int).drop_first() =~= a.skip(i + 1));
                    if j >= m {
                        assert(b.skip(j as int).len() == 0);
                        assert(merge_desc(a.skip(i + 1), b.skip(j as int)) == a.skip(i + 1));
                        assert(rest == a.skip(i as int));
                        assert(a.skip(i as int) =~= seq![a[i as int]] + a.skip(i + 1));
                    }
                    assert(rest == seq![a[i as int]] + merge_desc(a.skip(i + 1), b.skip(j as int)));
                }
                merged.push_back(self.buffer[i]);
                proof {
                    assert(merged@ + merge_desc(a.skip(i + 1), b.skip(j as int)) =~= merge_desc(a, b));
                }
                i += 1;
            } else {
                proof {
                    assert(b.skip(j as int).drop_first() =~= b.skip(j + 1));
                    if i >= n {
                        assert(a.skip(i as int).len() == 0);
                        assert(rest == b.skip(j as int));
                        assert(b.skip(j as int) =~= seq![b[j as int]] + b.skip(j + 1));
                        assert(merge_desc(a.skip(i as int), b.skip(j + 1)) == b.skip(j + 1));
                    }
                    assert(rest == seq![b[j as int]] + merge_desc(a.skip(i as int), b.skip(j + 1)));
                }
                merged.push_back(events[j]);
                proof {
                    assert(merged@ + merge_desc(a.skip(i as int), b.skip(j + 1)) =~= merge_desc(a, b));
                }
                j += 1;
            }
        }
        proof {
            assert(a.skip(n as int).len() == 0);
            assert(b.skip(m as int).len() == 0);
            assert(merge_desc(a.skip(n as int), b.skip(m as int)) == b.skip(m as int));
            assert(merged@ =~= merge_desc(a, b));
        }
        self.buffer = merged;
    }

    /// The events no older than `win_len_ms` milliseconds at time `now`
    /// (milliseconds since the Unix epoch), newest first.
    pub fn get_window_at(&self, now: i64, win_len_ms: i64) -> (r: Vec<Event>)
        ensures
            r@ == window_at(self@, now, win_len_ms),
            sorted_desc(r@),
    {
        proof {
            use_type_invariant(self);
        }
        let ghost pred = |e: Event| within(now, win_len_ms, e);
        let mut window: Vec<Event> = Vec::new();
        let n = self.buffer.len();
        let mut i: usize = 0;
        while i < n && (now as i128) - (self.buffer[i].timestamp as i128) <= (win_len_ms as i128)
            invariant
                n == self@.len(),
                i <= n,
                window@ == self@.take(i as int),
                forall|k: int| 0 <= k < i ==> within(now, win_len_ms, #[trigger] self@[k]),
            decreases n - i,
        {
            window.push(self.buffer[i]);
            proof {
                assert(self@.take(i + 1) =~= self@.take(i as int).push(self@[i as int]));
            }
            i += 1;
        }
        proof {
            let s = self@;
            assert(s =~= s.take(i as int) + s.skip(i as int));
            Seq::filter_distributes_over_add(s.take(i as int), s.skip(i as int), pred);
            lemma_filter_all(s.take(i as int), pred);
            assert forall|k: int| 0 <= k < s.skip(i as int).len() implies !pred(s.skip(i as int)[k]) by {
                assert(s.skip(i as int)[k] == s[i + k]);
                assert(s[i + k].timestamp <= s[i as int].timestamp);
            }
            lemma_filter_none(s.skip(i as int), pred);
            assert(window@ =~= s.filter(pred));
            assert(pred == (|e: Event| within(now, win_len_ms, e)));
        }
        window
    }

}

/// A time-ordered store of the events of one stream.
pub trait Store: Sized {
    /// The stored events, newest first.
    spec fn events(&self) -> Seq<Event>;

    /// Adds a batch, in any order. The events stay in descending timestamp
    /// order; among equal timestamps the events already stored come first,
    /// then the batch's in their order of arrival.
    fn add_events(&mut self, events: Vec<Event>)
        ensures
            final(self).events() == merge_desc(old(self).events(), sort_desc(events@)),
            sorted_desc(final(self).events()),
            final(self).events().len() == old(self).events().len() + events@.len(),
            final(self).events().to_multiset() == old(self).events().to_multiset().add(
                events@.to_multiset(),
            ),
    ;

    /// The events no older than `win_len_ms` milliseconds now, newest first.
    fn get_window(&self, win_len_ms: i64) -> (r: Vec<Event>)
        ensures
            exists|now: i64| r@ == #[trigger] window_at(self.events(), now, win_len_ms),
    ;

    /// The `min(n, len)` most recent events, newest first.
    fn get_window_of_n(&self, n: u64) -> (r: Vec<Event>)
        ensures
            r@ == self.events().take(
                if n < self.events().len() {
                    n as int
                } else {
                    self.events().len() as int
                },
            ),
    ;
}

impl Store for InMemory {
    open spec fn events(&self) -> Seq<Event> {
        self@
    }

    fn add_events(&mut self, events: Vec<Event>) {
        proof {
            use_type_invariant(&*self);
            lemma_sort_sorted(events@);
            lemma_merge_sorted(self@, sort_desc(events@));
        }
        if events.len() == 0 {
            proof {
                assert(sort_desc(events@) == events@);
                assert(events@ =~= Seq::<Event>::empty());
                assert(merge_desc(self@, events@) == self@);
            }
            return;
        }
        let sorted = InMemory::sort_batch(events);
        if self.buffer.len() == 0 {
            self.insert(sorted);
        } else {
            self.insert_interleaved(sorted);
        }
    }

    fn get_window(&self, win_len_ms: i64) -> (r: Vec<Event>) {
        let now = now_millis();
        let r = self.get_window_at(now, win_len_ms);
        proof {
            assert(r@ == window_at(self.events(), now, win_len_ms));
        }
        r
    }

    fn get_window_of_n(&self, n: u64) -> (r: Vec<Event>) {
        let len = self.buffer.len();
        let k: usize = if (n as u128) < (len as u128) { n as usize } else { len };
        let mut window: Vec<Event> = Vec::new();
        let mut i: usize = 0;
        while i < k
            invariant
                k <= len == self@.len(),
                i <= k,
                window@ == self@.take(i as int),
            decreases k - i,
        {
            window.push(self.buffer[i]);
            proof {
                assert(self@.take(i + 1) =~= self@.take(i as int).push(self@[i as int]));
            }
            i += 1;
        }
        window
    }
}

} // verus!
