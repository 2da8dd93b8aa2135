//! The per-turn log table: turn number to the lines a player printed for
//! that turn, as collected from its bracketed stderr blocks.
use vstd::prelude::*;

verus! {

/// The table an association list stands for; a later pair overrides an
/// earlier one with the same key.
pub open spec fn tl_assoc(s: Seq<(u64, Vec<Vec<u8>>)>) -> Map<u64, Seq<Seq<u8>>>
    decreases s.len(),
{
    if s.len() == 0 {
        Map::empty()
    } else {
        tl_assoc(s.drop_last()).insert(s.last().0, s.last().1.deep_view())
    }
}

/// Whether some pair in the list carries key `k`.
pub open spec fn tl_has_key(s: Seq<(u64, Vec<Vec<u8>>)>, k: u64) -> bool {
    exists|i: int| 0 <= i < s.len() && s[i].0 == k
}

/// Pairwise-distinct keys.
pub open spec fn tl_distinct(s: Seq<(u64, Vec<Vec<u8>>)>) -> bool {
    forall|i: int, j: int| 0 <= i < j < s.len() ==> s[i].0 != s[j].0
}

proof fn lemma_tl_dom(s: Seq<(u64, Vec<Vec<u8>>)>)
    ensures
        forall|k: u64| #[trigger] tl_assoc(s).dom().contains(k) <==> tl_has_key(s, k),
    decreases s.len(),
{
    if s.len() > 0 {
        lemma_tl_dom(s.drop_last());
        assert forall|k: u64| tl_has_key(s, k) implies #[trigger] tl_assoc(s).dom().contains(k) by {
            let i = choose|i: int| 0 <= i < s.len() && s[i].0 == k;
            if i < s.len() - 1 {
                assert(s.drop_last()[i] == s[i]);
                assert(tl_has_key(s.drop_last(), k));
                assert(tl_assoc(s.drop_last()).dom().contains(k));
            } else {
                assert(k == s.last().0);
            }
        }
        assert forall|k: u64| #[trigger] tl_assoc(s).dom().contains(k) implies tl_has_key(s, k) by {
            if k != s.last().0 {
                assert(tl_assoc(s.drop_last()).dom().contains(k));
                assert(tl_has_key(s.drop_last(), k));
                let i = choose|i: int| 0 <= i < s.drop_last().len() && s.drop_last()[i].0 == k;
                assert(s.drop_last()[i] == s[i]);
                assert(s[i].0 == k);
            } else {
                assert(s[s.len() - 1].0 == k);
            }
        }
    }
}

proof fn lemma_tl_at(s: Seq<(u64, Vec<Vec<u8>>)>, i: int)
    requires
        tl_distinct(s),
        0 <= i < s.len(),
    ensures
        tl_assoc(s).dom().contains(s[i].0),
        tl_assoc(s)[s[i].0] == s[i].1.deep_view(),
    decreases s.len(),
{
    if i == s.len() - 1 {
    } else {
        assert(tl_distinct(s.drop_last()));
        assert(s.drop_last()[i] == s[i]);
        lemma_tl_at(s.drop_last(), i);
        assert(s[i].0 != s.last().0);
    }
}

proof fn lemma_tl_remove(s: Seq<(u64, Vec<Vec<u8>>)>, i: int)
    requires
        tl_distinct(s),
        0 <= i < s.len(),
    ensures
        tl_assoc(s.remove(i)) == tl_assoc(s).remove(s[i].0),
    decreases s.len(),
{
    let k = s[i].0;
    s.remove_ensures(i);
    if i == s.len() - 1 {
        assert(s.remove(i) =~= s.drop_last());
        lemma_tl_dom(s.drop_last());
        assert(!tl_has_key(s.drop_last(), k)) by {
            if tl_has_key(s.drop_last(), k) {
                let j = choose|j: int| 0 <= j < s.drop_last().len() && s.drop_last()[j].0 == k;
                assert(s[j].0 == k);
            }
        }
        assert(tl_assoc(s.drop_last()).insert(k, s.last().1.deep_view()).remove(k) =~= tl_assoc(
            s.drop_last(),
        ));
    } else {
        let t = s.drop_last();
        assert(tl_distinct(t));
        assert(t[i] == s[i]);
        lemma_tl_remove(t, i);
        assert(s.remove(i).drop_last() =~= t.remove(i));
        assert(s.remove(i).last() == s.last());
        assert(s.last().0 != k);
        assert(tl_assoc(t).remove(k).insert(s.last().0, s.last().1.deep_view()) =~= tl_assoc(
            t,
        ).insert(s.last().0, s.last().1.deep_view()).remove(k));
    }
}

proof fn lemma_tl_remove_distinct(s: Seq<(u64, Vec<Vec<u8>>)>, i: int)
    requires
        tl_distinct(s),
        0 <= i < s.len(),
    ensures
        tl_distinct(s.remove(i)),
        !tl_has_key(s.remove(i), s[i].0),
{
    s.remove_ensures(i);
    assert forall|p: int, q: int| 0 <= p < q < s.remove(i).len() implies s.remove(i)[p].0
        != s.remove(i)[q].0 by {
        let sp = if p < i {
            p
        } else {
            p + 1
        };
        let sq = if q < i {
            q
        } else {
            q + 1
        };
        assert(s.remove(i)[p] == s[sp]);
        assert(s.remove(i)[q] == s[sq]);
    }
    assert forall|p: int| 0 <= p < s.remove(i).len() implies s.remove(i)[p].0 != s[i].0 by {
        let sp = if p < i {
            p
        } else {
            p + 1
        };
        assert(s.remove(i)[p] == s[sp]);
    }
}

/// Turn number to that turn's player log lines.
pub struct TurnLogs {
    entries: Vec<(u64, Vec<Vec<u8>>)>,
}

impl TurnLogs {
    /// The table of collected turns.
    pub closed spec fn table(&self) -> Map<u64, Seq<Seq<u8>>> {
        tl_assoc(self.entries@)
    }

    /// Distinct turn numbers.
    pub closed spec fn wf(&self) -> bool {
        tl_distinct(self.entries@)
    }

    /// An empty table.
    pub fn new() -> (r: TurnLogs)
        ensures
            r.wf(),
            r.table() == Map::<u64, Seq<Seq<u8>>>::empty(),
    {
        TurnLogs { entries: Vec::new() }
    }

    fn find(&self, turn: u64) -> (r: Option<usize>)
        ensures
            match r {
                Some(i) => i < self.entries@.len() && self.entries@[i as int].0 == turn,
                None => !tl_has_key(self.entries@, turn),
            },
    {
        let mut i: usize = 0;
        while i < self.entries.len()
            invariant
                0 <= i <= self.entries@.len(),
                forall|j: int| 0 <= j < i ==> self.entries@[j].0 != turn,
            decreases self.entries@.len() - i,
        {
            if self.entries[i].0 == turn {
                return Some(i);
            }
            i = i + 1;
        }
        None
    }

    /// Sets the logs of a turn, replacing what an earlier block left there.
    pub fn insert(&mut self, turn: u64, logs: Vec<Vec<u8>>)
        requires
            old(self).wf(),
        ensures
            final(self).wf(),
            final(self).table() == old(self).table().insert(turn, logs.deep_view()),
    {
        proof {
            lemma_tl_dom(self.entries@);
        }
        match self.find(turn) {
            None => {
                let ghost prev = self.entries@;
                self.entries.push((turn, logs));
                proof {
                    assert(self.entries@.drop_last() =~= prev);
                    assert forall|p: int, q: int|
                        0 <= p < q < self.entries@.len() implies self.entries@[p].0
                        != self.entries@[q].0 by {
                        if q == self.entries@.len() - 1 {
                            assert(self.entries@[p] == prev[p]);
                        }
                    }
                }
            },
            Some(i) => {
                proof {
                    lemma_tl_at(self.entries@, i as int);
                    lemma_tl_remove(self.entries@, i as int);
                    lemma_tl_remove_distinct(self.entries@, i as int);
                }
                self.entries.remove(i);
                let ghost removed = self.entries@;
                self.entries.push((turn, logs));
                proof {
                    assert(self.entries@.drop_last() =~= removed);
                    assert forall|p: int, q: int|
                        0 <= p < q < self.entries@.len() implies self.entries@[p].0
                        != self.entries@[q].0 by {
                        if q == self.entries@.len() - 1 {
                            assert(self.entries@[p] == removed[p]);
                        }
                    }
                    assert(old(self).table().remove(turn).insert(turn, logs.deep_view()) =~= old(
                        self,
                    ).table().insert(turn, logs.deep_view()));
                }
            },
        }
    }

    /// The logs of a turn, if any block closed for it.
    pub fn lookup(&self, turn: u64) -> (r: Option<&Vec<Vec<u8>>>)
        requires
            self.wf(),
        ensures
            match r {
                Some(v) => self.table().dom().contains(turn) && v.deep_view() == self.table()[turn],
                None => !self.table().dom().contains(turn),
            },
    {
        proof {
            lemma_tl_dom(self.entries@);
        }
        match self.find(turn) {
            None => None,
            Some(i) => {
                proof {
                    lemma_tl_at(self.entries@, i as int);
                }
                Some(&self.entries[i].1)
            },
        }
    }

    /// Hands the collected pairs over, consuming the table.
    pub fn into_entries(self) -> (r: Vec<(u64, Vec<Vec<u8>>)>)
        requires
            self.wf(),
        ensures
            forall|i: int, j: int| 0 <= i < j < r@.len() ==> r@[i].0 != r@[j].0,
            forall|i: int|
                0 <= i < r@.len() ==> self.table().dom().contains(#[trigger] r@[i].0)
                    && r@[i].1.deep_view() == self.table()[r@[i].0],
            forall|k: u64|
                self.table().dom().contains(k) ==> exists|i: int|
                    0 <= i < r@.len() && (#[trigger] r@[i]).0 == k,
    {
        proof {
            lemma_tl_dom(self.entries@);
            assert forall|i: int|
                0 <= i < self.entries@.len() implies self.table().dom().contains(
                #[trigger] self.entries@[i].0,
            ) && self.entries@[i].1.deep_view() == self.table()[self.entries@[i].0] by {
                lemma_tl_at(self.entries@, i);
            }
        }
        self.entries
    }
}

} // verus!
