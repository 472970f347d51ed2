//! The dedup ledger: a mapping from file path to the last-seen modification
//! timestamp, guarding against reprocessing an unchanged file version.

use vstd::prelude::*;

verus! {

/// Whether no two entries share a path.
pub open spec fn keys_unique(s: Seq<(String, u64)>) -> bool {
    forall|i: int, j: int| 0 <= i < j < s.len() ==> s[i].0@ != s[j].0@
}

/// The map an entry sequence denotes; a later entry for the same path wins.
pub open spec fn entries_map(s: Seq<(String, u64)>) -> Map<Seq<char>, u64>
    decreases s.len(),
{
    if s.len() == 0 {
        Map::empty()
    } else {
        entries_map(s.drop_last()).insert(s.last().0@, s.last().1)
    }
}

proof fn lemma_map_has_key(s: Seq<(String, u64)>, k: Seq<char>)
    ensures
        entries_map(s).contains_key(k) <==> exists|i: int| 0 <= i < s.len() && s[i].0@ == k,
    decreases s.len(),
{
    if s.len() > 0 {
        lemma_map_has_key(s.drop_last(), k);
        if s.last().0@ == k {
            assert(s[s.len() - 1].0@ == k);
        } else {
            if exists|i: int| 0 <= i < s.len() && s[i].0@ == k {
                let i = choose|i: int| 0 <= i < s.len() && s[i].0@ == k;
                assert(s.drop_last()[i] == s[i]);
            }
            if exists|i: int| 0 <= i < s.len() - 1 && s.drop_last()[i].0@ == k {
                let i = choose|i: int| 0 <= i < s.len() - 1 && s.drop_last()[i].0@ == k;
                assert(s[i] == s.drop_last()[i]);
            }
        }
    }
}

proof fn lemma_map_at(s: Seq<(String, u64)>, i: int)
    requires
        keys_unique(s),
        0 <= i < s.len(),
    ensures
        entries_map(s).contains_key(s[i].0@),
        entries_map(s)[s[i].0@] == s[i].1,
    decreases s.len(),
{
    if i < s.len() - 1 {
        assert(keys_unique(s.drop_last())) by {
            assert(forall|a: int, b: int|
                0 <= a < b < s.len() - 1 ==> s.drop_last()[a] == s[a] && s.drop_last()[b] == s[b]);
        }
        lemma_map_at(s.drop_last(), i);
        assert(s.drop_last()[i] == s[i]);
        assert(s[i].0@ != s.last().0@);
    }
}

proof fn lemma_map_update(s: Seq<(String, u64)>, i: int, t: u64)
    requires
        keys_unique(s),
        0 <= i < s.len(),
    ensures
        entries_map(s.update(i, (s[i].0, t))) =~= entries_map(s).insert(s[i].0@, t),
    decreases s.len(),
{
    let s2 = s.update(i, (s[i].0, t));
    if i == s.len() - 1 {
        assert(s2.drop_last() =~= s.drop_last());
        assert(s2.last() == (s[i].0, t));
    } else {
        assert(keys_unique(s.drop_last())) by {
            assert(forall|a: int, b: int|
                0 <= a < b < s.len() - 1 ==> s.drop_last()[a] == s[a] && s.drop_last()[b] == s[b]);
        }
        lemma_map_update(s.drop_last(), i, t);
        assert(s2.drop_last() =~= s.drop_last().update(i, (s[i].0, t)));
        assert(s2.last() == s.last());
        assert(s[i].0@ != s.last().0@);
    }
}

/// Whether a ledger in state `m` lets the version `(p, t)` through: it does
/// unless that exact version was already recorded.
pub open spec fn should_process_spec(m: Map<Seq<char>, u64>, p: Seq<char>, t: u64) -> bool {
    !(m.contains_key(p) && m[p] == t)
}

/// The ledger state after a `should_process` call: the version is recorded
/// exactly when the call lets it through.
pub open spec fn ledger_after(m: Map<Seq<char>, u64>, p: Seq<char>, t: u64) -> Map<
    Seq<char>,
    u64,
> {
    if should_process_spec(m, p, t) {
        m.insert(p, t)
    } else {
        m
    }
}

/// The dedup ledger. Its model is a map from path to the timestamp last
/// recorded for that path.
pub struct DedupLedger {
    entries: Vec<(String, u64)>,
}

impl View for DedupLedger {
    type V = Map<Seq<char>, u64>;

    closed spec fn view(&self) -> Map<Seq<char>, u64> {
        entries_map(self.entries@)
    }
}

impl DedupLedger {
    #[verifier::type_invariant]
    closed spec fn wf(&self) -> bool {
        keys_unique(self.entries@)
    }

    /// An empty ledger: nothing has been processed yet.
    pub fn new() -> (r: Self)
        ensures
            r@ == Map::<Seq<char>, u64>::empty(),
    {
        DedupLedger { entries: Vec::new() }
    }

    /// Decides whether the version `(path, modified)` still needs processing,
    /// recording it when it does. Returns false only when this exact version
    /// was already handled.
    pub fn should_process(&mut self, path: &String, modified: u64) -> (r: bool)
        ensures
            r == should_process_spec(old(self)@, path@, modified),
            final(self)@ == ledger_after(old(self)@, path@, modified),
    {
        proof {
            use_type_invariant(&*self);
        }
        let ghost s0 = self.entries@;
        let mut es: Vec<(String, u64)> = Vec::new();
        core::mem::swap(&mut self.entries, &mut es);
        let result: bool;
        match find_entry(&es, path) {
            Some(i) => {
                proof {
                    lemma_map_at(s0, i as int);
                }
                if es[i].1 == modified {
                    result = false;
                } else {
                    let key = es[i].0.clone();
                    es[i] = (key, modified);
                    proof {
                        lemma_map_update(s0, i as int, modified);
                        assert(es@ == s0.update(i as int, (s0[i as int].0, modified)));
                        assert(keys_unique(es@)) by {
                            assert(forall|k: int| 0 <= k < s0.len() ==> es@[k].0@ == s0[k].0@);
                        }
                    }
                    result = true;
                }
            },
            None => {
                proof {
                    lemma_map_has_key(s0, path@);
                }
                es.push((path.clone(), modified));
                proof {
                    assert(es@.drop_last() =~= s0);
                    assert(es@.last().0@ == path@);
                    assert(entries_map(es@) == entries_map(s0).insert(path@, modified));
                    assert(keys_unique(es@)) by {
                        assert(forall|k: int| 0 <= k < s0.len() ==> es@[k] == s0[k]);
                        assert(forall|k: int| 0 <= k < s0.len() ==> es@[k].0@ != path@);
                    }
                }
                result = true;
            },
        }
        self.entries = es;
        result
    }
}

fn find_entry(es: &Vec<(String, u64)>, path: &String) -> (r: Option<usize>)
    ensures
        match r {
            Some(i) => i < es@.len() && es@[i as int].0@ == path@,
            None => forall|k: int| 0 <= k < es@.len() ==> es@[k].0@ != path@,
        },
{
    let mut idx: usize = 0;
    while idx < es.len()
        invariant
            0 <= idx <= es@.len(),
            forall|k: int| 0 <= k < idx ==> es@[k].0@ != path@,
        decreases es@.len() - idx,
    {
        if es[idx].0 == *path {
            return Some(idx);
        }
        idx = idx + 1;
    }
    None
}

/// Dedup ledger law: once a version `(p, t1)` has gone through the ledger,
/// asking again for the same version is refused, while a different timestamp
/// `t2` goes through; and a version never seen goes through the first time.
pub proof fn lemma_dedup_ledger(m: Map<Seq<char>, u64>, p: Seq<char>, t1: u64, t2: u64)
    ensures
        !should_process_spec(ledger_after(m, p, t1), p, t1),
        t2 != t1 ==> should_process_spec(ledger_after(m, p, t1), p, t2),
        !m.contains_key(p) ==> should_process_spec(m, p, t1),
{
}

} // verus!
