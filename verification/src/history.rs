//! Per-identity history of composite samples.
//!
//! Each inventory item, keyed by its stable identity string, gets its own
//! bounded FIFO of composite samples: once `HISTORY_CAPACITY` samples are
//! held, recording another discards the oldest. Identities that disappear
//! from the inventory keep their history for the life of the session — the
//! map grows only with the number of distinct identities seen, never with
//! samples.

use vstd::prelude::*;

verus! {

/// How many samples one identity retains.
pub const HISTORY_CAPACITY: usize = 60;

/// The composite figures recorded for one item on one tick. Percentages and
/// kibibyte counts are held in hundredths.
#[derive(Clone, Copy, PartialEq, Eq, Structural, Debug)]
pub struct StatsSample {
    pub cpu_centi_percent: u64,
    pub mem_centi_percent: u64,
    pub net_rx_centi_kb: u64,
    pub net_tx_centi_kb: u64,
}

/// A history extended by one sample, discarding the oldest sample once the
/// capacity is reached.
pub open spec fn capped_push(h: Seq<StatsSample>, sample: StatsSample) -> Seq<StatsSample> {
    let h2 = h.push(sample);
    if h2.len() > HISTORY_CAPACITY as nat {
        h2.subrange(1, h2.len() as int)
    } else {
        h2
    }
}

/// The history a map holds for `id`: empty until a sample is recorded.
pub open spec fn spec_history_of(
    m: Map<Seq<char>, Seq<StatsSample>>,
    id: Seq<char>,
) -> Seq<StatsSample> {
    if m.contains_key(id) {
        m[id]
    } else {
        Seq::empty()
    }
}

/// The map described by an association list, later entries taking
/// precedence.
pub open spec fn entries_map(s: Seq<(Seq<char>, Seq<StatsSample>)>) -> Map<
    Seq<char>,
    Seq<StatsSample>,
>
    decreases s.len(),
{
    if s.len() == 0 {
        Map::empty()
    } else {
        entries_map(s.drop_last()).insert(s.last().0, s.last().1)
    }
}

/// A key occurs in the map exactly when some entry holds it.
proof fn lemma_entries_map_contains(s: Seq<(Seq<char>, Seq<StatsSample>)>, key: Seq<char>)
    ensures
        entries_map(s).contains_key(key) <==> exists|i: int| 0 <= i < s.len() && s[i].0 == key,
    decreases s.len(),
{
    if s.len() > 0 {
        lemma_entries_map_contains(s.drop_last(), key);
        if s.last().0 == key {
            assert(s[s.len() - 1].0 == key);
        } else if entries_map(s).contains_key(key) {
            let i = choose|i: int| 0 <= i < s.drop_last().len() && s.drop_last()[i].0 == key;
            assert(s[i].0 == key);
        } else {
            assert forall|i: int| 0 <= i < s.len() implies s[i].0 != key by {
                if i < s.len() - 1 {
                    assert(s.drop_last()[i].0 != key);
                }
            }
        }
    }
}

/// With distinct keys, the map sends each entry's key to that entry's
/// history.
proof fn lemma_entries_map_index(s: Seq<(Seq<char>, Seq<StatsSample>)>, k: int)
    requires
        0 <= k < s.len(),
        forall|i: int, j: int| 0 <= i < j < s.len() ==> s[i].0 != s[j].0,
    ensures
        entries_map(s).contains_key(s[k].0),
        entries_map(s)[s[k].0] == s[k].1,
    decreases s.len(),
{
    if k == s.len() - 1 {
    } else {
        lemma_entries_map_index(s.drop_last(), k);
        assert(s.drop_last()[k] == s[k]);
        assert(s[k].0 != s.last().0);
    }
}

/// Replacing the history of the entry at `k` updates exactly that key.
proof fn lemma_entries_map_update(
    s: Seq<(Seq<char>, Seq<StatsSample>)>,
    k: int,
    v: Seq<StatsSample>,
)
    requires
        0 <= k < s.len(),
        forall|i: int, j: int| 0 <= i < j < s.len() ==> s[i].0 != s[j].0,
    ensures
        entries_map(s.update(k, (s[k].0, v))) == entries_map(s).insert(s[k].0, v),
    decreases s.len(),
{
    let s2 = s.update(k, (s[k].0, v));
    if k == s.len() - 1 {
        assert(s2.drop_last() =~= s.drop_last());
        assert(entries_map(s2) =~= entries_map(s).insert(s[k].0, v));
    } else {
        lemma_entries_map_update(s.drop_last(), k, v);
        assert(s2.drop_last() =~= s.drop_last().update(k, (s[k].0, v)));
        assert(s.drop_last()[k] == s[k]);
        assert(s2.last() == s.last());
        assert(s[k].0 != s.last().0);
        assert(entries_map(s2) =~= entries_map(s).insert(s[k].0, v));
    }
}

/// The bounded histories of every identity seen so far.
pub struct HistoryAggregator {
    entries: Vec<(String, Vec<StatsSample>)>,
}

impl View for HistoryAggregator {
    type V = Map<Seq<char>, Seq<StatsSample>>;

    closed spec fn view(&self) -> Map<Seq<char>, Seq<StatsSample>> {
        entries_map(self.entries_seq())
    }
}

impl HistoryAggregator {
    /// The stored entries as ghost pairs, in insertion order.
    pub closed spec fn entries_seq(&self) -> Seq<(Seq<char>, Seq<StatsSample>)> {
        Seq::new(self.entries@.len(), |i: int| (self.entries@[i].0@, self.entries@[i].1@))
    }

    /// Identities are distinct and every history respects the capacity.
    pub closed spec fn wf(&self) -> bool {
        &&& forall|i: int, j: int|
            0 <= i < j < self.entries_seq().len() ==> self.entries_seq()[i].0
                != self.entries_seq()[j].0
        &&& forall|i: int|
            0 <= i < self.entries_seq().len() ==> self.entries_seq()[i].1.len()
                <= HISTORY_CAPACITY as nat
    }

    /// An aggregator that has seen no identity yet.
    pub fn new() -> (r: Self)
        ensures
            r.wf(),
            r@ == Map::<Seq<char>, Seq<StatsSample>>::empty(),
    {
        let r = HistoryAggregator { entries: Vec::new() };
        proof {
            assert(r.entries_seq() =~= Seq::<(Seq<char>, Seq<StatsSample>)>::empty());
        }
        r
    }

    /// Looks up or lazily creates the history for `identity` and appends
    /// `sample` to it, discarding that identity's oldest sample at capacity.
    /// Never fails.
    pub fn record(&mut self, identity: &str, sample: StatsSample)
        requires
            old(self).wf(),
        ensures
            final(self).wf(),
            final(self)@ == old(self)@.insert(
                identity@,
                capped_push(spec_history_of(old(self)@, identity@), sample),
            ),
    {
        let n = self.entries.len();
        let mut k: usize = 0;
        while k < n
            invariant
                k <= n,
                *self == *old(self),
                old(self).wf(),
                n == self.entries@.len(),
                forall|j: int| 0 <= j < k ==> self.entries_seq()[j].0 != identity@,
            decreases n - k,
        {
            if crate::text::str_eq(self.entries[k].0.as_str(), identity) {
                proof {
                    assert(self.entries_seq()[k as int].0 == identity@);
                    lemma_entries_map_index(self.entries_seq(), k as int);
                }
                let (key, mut hist) = self.entries.remove(k);
                hist.push(sample);
                if hist.len() > HISTORY_CAPACITY {
                    hist.remove(0);
                }
                let ghost old_seq = old(self).entries_seq();
                let ghost new_hist = hist@;
                self.entries.insert(k, (key, hist));
                proof {
                    assert(new_hist =~= capped_push(old_seq[k as int].1, sample));
                    assert(self.entries_seq() =~= old_seq.update(
                        k as int,
                        (old_seq[k as int].0, new_hist),
                    ));
                    lemma_entries_map_update(old_seq, k as int, new_hist);
                    assert(spec_history_of(old(self)@, identity@) == old_seq[k as int].1);
                }
                return ;
            }
            k = k + 1;
        }
        proof {
            lemma_entries_map_contains(self.entries_seq(), identity@);
            assert(!old(self)@.contains_key(identity@));
        }
        let mut hist: Vec<StatsSample> = Vec::new();
        hist.push(sample);
        let ghost old_seq = old(self).entries_seq();
        let ghost new_hist = hist@;
        self.entries.push((identity.to_owned(), hist));
        proof {
            assert(new_hist =~= capped_push(Seq::empty(), sample));
            assert(self.entries_seq() =~= old_seq.push((identity@, new_hist)));
            assert(self.entries_seq().drop_last() =~= old_seq);
            assert(self@ =~= old(self)@.insert(identity@, new_hist));
        }
    }

    /// The history recorded for `identity`, or nothing when that identity
    /// has not been seen yet — a legitimate state, not an error.
    pub fn get(&self, identity: &str) -> (r: Option<&Vec<StatsSample>>)
        requires
            self.wf(),
        ensures
            match r {
                Some(h) => self@.contains_key(identity@) && h@ == self@[identity@],
                None => !self@.contains_key(identity@),
            },
    {
        let n = self.entries.len();
        let mut k: usize = 0;
        while k < n
            invariant
                k <= n,
                n == self.entries@.len(),
                self.wf(),
                forall|j: int| 0 <= j < k ==> self.entries_seq()[j].0 != identity@,
            decreases n - k,
        {
            if crate::text::str_eq(self.entries[k].0.as_str(), identity) {
                proof {
                    assert(self.entries_seq()[k as int].0 == identity@);
                    lemma_entries_map_index(self.entries_seq(), k as int);
                }
                return Some(&self.entries[k].1);
            }
            k = k + 1;
        }
        proof {
            lemma_entries_map_contains(self.entries_seq(), identity@);
        }
        None
    }

    /// How many distinct identities have a history.
    pub fn len(&self) -> (n: usize)
        ensures
            n == self.entries_seq().len(),
    {
        self.entries.len()
    }
}

/// A history after recording each sample of `samples` in order.
pub open spec fn recorded_all(h: Seq<StatsSample>, samples: Seq<StatsSample>) -> Seq<StatsSample>
    decreases samples.len(),
{
    if samples.len() == 0 {
        h
    } else {
        recorded_all(capped_push(h, samples[0]), samples.subrange(1, samples.len() as int))
    }
}

/// Recording a run of samples slides a capacity-wide window along the
/// concatenation of the starting history and the samples.
proof fn lemma_recorded_all_window(h: Seq<StatsSample>, samples: Seq<StatsSample>)
    requires
        h.len() <= HISTORY_CAPACITY as nat,
    ensures
        ({
            let total = h.len() + samples.len();
            let keep: int = if total > HISTORY_CAPACITY as nat {
                HISTORY_CAPACITY as int
            } else {
                total as int
            };
            recorded_all(h, samples) == (h + samples).subrange(total - keep, total as int)
        }),
    decreases samples.len(),
{
    let total = h.len() + samples.len();
    let keep: int = if total > HISTORY_CAPACITY as nat {
        HISTORY_CAPACITY as int
    } else {
        total as int
    };
    if samples.len() == 0 {
        assert(recorded_all(h, samples) =~= (h + samples).subrange(total - keep, total as int));
    } else {
        let h2 = capped_push(h, samples[0]);
        let rest = samples.subrange(1, samples.len() as int);
        lemma_recorded_all_window(h2, rest);
        let total2 = h2.len() + rest.len();
        let keep2: int = if total2 > HISTORY_CAPACITY as nat {
            HISTORY_CAPACITY as int
        } else {
            total2 as int
        };
        if h.len() < HISTORY_CAPACITY as nat {
            assert(h2 + rest =~= h + samples);
            assert(recorded_all(h, samples) == (h2 + rest).subrange(total2 - keep2, total2 as int));
            assert((h2 + rest).subrange(total2 - keep2, total2 as int) =~= (h + samples).subrange(
                total - keep,
                total as int,
            ));
        } else {
            assert(h2 + rest =~= (h + samples).subrange(1, total as int));
            assert(recorded_all(h, samples) == (h2 + rest).subrange(total2 - keep2, total2 as int));
            assert((h2 + rest).subrange(total2 - keep2, total2 as int) =~= (h + samples).subrange(
                total - keep,
                total as int,
            ));
        }
    }
}

/// Law: starting from no history, recording at least `HISTORY_CAPACITY`
/// samples for one identity retains exactly the last `HISTORY_CAPACITY` of
/// them, in recording order; the earlier ones are discarded.
pub proof fn lemma_history_keeps_last_samples(samples: Seq<StatsSample>)
    requires
        samples.len() >= HISTORY_CAPACITY as nat,
    ensures
        recorded_all(Seq::empty(), samples).len() == HISTORY_CAPACITY as nat,
        recorded_all(Seq::empty(), samples) == samples.subrange(
            samples.len() - HISTORY_CAPACITY as nat,
            samples.len() as int,
        ),
{
    lemma_recorded_all_window(Seq::empty(), samples);
    assert((Seq::<StatsSample>::empty() + samples) =~= samples);
    assert(recorded_all(Seq::empty(), samples) =~= samples.subrange(
        samples.len() - HISTORY_CAPACITY as nat,
        samples.len() as int,
    ));
}

} // verus!
