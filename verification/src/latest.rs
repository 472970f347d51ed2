//! The latest-file selector: among directory entries, pick the most recently
//! modified file with the notebook extension.

use vstd::prelude::*;
use crate::text::chars_of;

verus! {

/// One directory entry handed to the selector: the entry's file name and its
/// modification time in whole units since the Unix epoch, if it could be
/// read.
pub struct FileEntry {
    pub name: String,
    pub modified: Option<u64>,
}

/// An entry's effective timestamp; the Unix epoch stands in for an unreadable
/// modification time, so such entries are never preferred.
pub open spec fn entry_time(e: FileEntry) -> u64 {
    match e.modified {
        Some(t) => t,
        None => 0,
    }
}

/// The notebook file suffix: a dot followed by the extension.
pub open spec fn ipynb_suffix() -> Seq<char> {
    seq!['.', 'i', 'p', 'y', 'n', 'b']
}

/// Whether a file name has the exact extension `ipynb`: it ends with the
/// suffix and the dot is not the leading character.
pub open spec fn has_ipynb_ext(name: Seq<char>) -> bool {
    name.len() >= 7 && name.subrange(name.len() - 6, name.len() as int) == ipynb_suffix()
}

/// Whether the selector considers an entry at all.
pub open spec fn is_candidate(e: FileEntry) -> bool {
    has_ipynb_ext(e.name@)
}

/// The index of the entry the selector picks: the candidate with the
/// greatest timestamp, the later entry winning ties.
pub open spec fn latest_index(s: Seq<FileEntry>) -> Option<int>
    decreases s.len(),
{
    if s.len() == 0 {
        None
    } else {
        let rest = latest_index(s.drop_last());
        if !is_candidate(s.last()) {
            rest
        } else {
            match rest {
                None => Some(s.len() - 1),
                Some(i) => if entry_time(s.last()) >= entry_time(s[i]) {
                    Some(s.len() - 1)
                } else {
                    Some(i)
                },
            }
        }
    }
}

/// Selector law: when no entry is a candidate nothing is picked; otherwise
/// the pick is a candidate whose timestamp is greatest, and no later
/// candidate reaches it.
pub proof fn lemma_latest_index_props(s: Seq<FileEntry>)
    ensures
        match latest_index(s) {
            None => forall|k: int| 0 <= k < s.len() ==> !is_candidate(s[k]),
            Some(i) => {
                &&& 0 <= i < s.len()
                &&& is_candidate(s[i])
                &&& forall|k: int|
                    0 <= k < s.len() && is_candidate(s[k]) ==> entry_time(s[k]) <= entry_time(s[i])
                &&& forall|k: int|
                    i < k < s.len() && is_candidate(s[k]) ==> entry_time(s[k]) < entry_time(s[i])
            },
        },
    decreases s.len(),
{
    if s.len() > 0 {
        lemma_latest_index_props(s.drop_last());
        assert(forall|k: int| 0 <= k < s.len() - 1 ==> s.drop_last()[k] == s[k]);
        assert(s.last() == s[s.len() - 1]);
    }
}

/// Whether a file name ends in `.ipynb`.
pub fn has_target_extension(name: &String) -> (r: bool)
    ensures
        r == has_ipynb_ext(name@),
{
    let v = chars_of(name.as_str());
    let n = v.len();
    if n < 7 {
        return false;
    }
    let r = v[n - 6] == '.' && v[n - 5] == 'i' && v[n - 4] == 'p' && v[n - 3] == 'y' && v[n - 2]
        == 'n' && v[n - 1] == 'b';
    proof {
        let suf = v@.subrange(n - 6, n as int);
        assert(suf[0] == v@[n - 6] && suf[1] == v@[n - 5] && suf[2] == v@[n - 4] && suf[3] == v@[n
            - 3] && suf[4] == v@[n - 2] && suf[5] == v@[n - 1]);
        if r {
            assert(suf =~= ipynb_suffix());
        } else {
            assert(suf != ipynb_suffix());
        }
    }
    r
}

fn time_of(e: &FileEntry) -> (t: u64)
    ensures
        t == entry_time(*e),
{
    match e.modified {
        Some(t) => t,
        None => 0,
    }
}

/// Picks the name of the most recently modified entry whose name has the
/// notebook extension, or nothing when no entry qualifies. Among equal
/// timestamps the later entry wins.
pub fn get_latest_ipynb(entries: &Vec<FileEntry>) -> (r: Option<String>)
    ensures
        match latest_index(entries@) {
            None => r is None,
            Some(i) => r matches Some(name) && name@ == entries@[i].name@,
        },
{
    let mut best: Option<usize> = None;
    let mut best_time: u64 = 0;
    let mut i: usize = 0;
    while i < entries.len()
        invariant
            0 <= i <= entries@.len(),
            match latest_index(entries@.take(i as int)) {
                None => best is None,
                Some(j) => {
                    &&& 0 <= j < i
                    &&& best matches Some(b) && b == j
                    &&& best_time == entry_time(entries@[j])
                },
            },
        decreases entries@.len() - i,
    {
        proof {
            assert(entries@.take(i + 1).drop_last() =~= entries@.take(i as int));
            assert(entries@.take(i + 1).last() == entries@[i as int]);
        }
        if has_target_extension(&entries[i].name) {
            let t = time_of(&entries[i]);
            match best {
                None => {
                    best = Some(i);
                    best_time = t;
                },
                Some(_) => {
                    if t >= best_time {
                        best = Some(i);
                        best_time = t;
                    }
                },
            }
        }
        i = i + 1;
    }
    proof {
        assert(entries@.take(entries@.len() as int) =~= entries@);
    }
    match best {
        None => None,
        Some(b) => Some(entries[b].name.clone()),
    }
}

} // verus!
