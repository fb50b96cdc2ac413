use vstd::prelude::*;

use crate::rank::{is_top_ranking, ranks_before, top_ranked};

verus! {

/// How often `p` was launched according to `m`; never-launched paths count zero.
pub open spec fn count_of(m: Map<Seq<char>, u32>, p: Seq<char>) -> u32 {
    if m.contains_key(p) {
        m[p]
    } else {
        0
    }
}

/// `m` after one more launch of `p` (a count stays at its largest value).
pub open spec fn bumped(m: Map<Seq<char>, u32>, p: Seq<char>) -> Map<Seq<char>, u32> {
    m.insert(
        p,
        if count_of(m, p) < u32::MAX {
            (count_of(m, p) + 1) as u32
        } else {
            u32::MAX
        },
    )
}

/// One launch of `p` raises its count by exactly one (while below the
/// largest count) and leaves every other path's count as it was: no count
/// decreases and no path is forgotten.
pub proof fn lemma_launch_increments(m: Map<Seq<char>, u32>, p: Seq<char>)
    requires
        count_of(m, p) < u32::MAX,
    ensures
        count_of(bumped(m, p), p) == count_of(m, p) + 1,
        forall|q: Seq<char>| q != p ==> #[trigger] count_of(bumped(m, p), q) == count_of(m, q),
        forall|q: Seq<char>| #[trigger] count_of(bumped(m, p), q) >= count_of(m, q),
        forall|q: Seq<char>| #[trigger] m.contains_key(q) ==> bumped(m, p).contains_key(q),
{
}

/// The paths of a list of (path, count) pairs.
pub open spec fn listed_paths(r: Seq<(String, u32)>) -> Seq<Seq<char>> {
    r.map_values(|e: (String, u32)| e.0@)
}

/// Launch counts per application path, kept for the life of the process.
/// Entries are never removed and counts never decrease.
pub struct FrequencyTable {
    paths: Vec<String>,
    counts: Vec<u32>,
    table: Ghost<Map<Seq<char>, u32>>,
}

impl View for FrequencyTable {
    type V = Map<Seq<char>, u32>;

    closed spec fn view(&self) -> Map<Seq<char>, u32> {
        self.table@
    }
}

impl FrequencyTable {
    /// Paths are unique and the ghost map holds exactly the stored pairs.
    pub closed spec fn wf(&self) -> bool {
        &&& self.paths.len() == self.counts.len()
        &&& forall|i: int, j: int|
            0 <= i < j < self.paths.len() ==> #[trigger] self.paths[i]@ != #[trigger] self.paths[j]@
        &&& forall|i: int|
            0 <= i < self.paths.len() ==> self.table@.contains_key(#[trigger] self.paths[i]@)
                && self.table@[self.paths[i]@] == self.counts[i]
        &&& forall|p: Seq<char>|
            #[trigger] self.table@.contains_key(p) ==> exists|i: int|
                0 <= i < self.paths.len() && #[trigger] self.paths[i]@ == p
    }

    /// An empty table.
    pub fn new() -> (r: FrequencyTable)
        ensures
            r.wf(),
            r@ == Map::<Seq<char>, u32>::empty(),
    {
        FrequencyTable { paths: Vec::new(), counts: Vec::new(), table: Ghost(Map::empty()) }
    }

    fn position(&self, path: &String) -> (r: Option<usize>)
        requires
            self.wf(),
        ensures
            match r {
                Some(i) => i < self.paths.len() && self.paths[i as int]@ == path@,
                None => !self@.contains_key(path@),
            },
    {
        let mut i: usize = 0;
        while i < self.paths.len()
            invariant
                i <= self.paths.len(),
                forall|j: int| 0 <= j < i ==> #[trigger] self.paths[j]@ != path@,
            decreases self.paths.len() - i,
        {
            if self.paths[i] == *path {
                return Some(i);
            }
            i = i + 1;
        }
        None
    }

    /// The launch count of `path`, zero if it was never launched.
    pub fn get(&self, path: &str) -> (r: u32)
        requires
            self.wf(),
        ensures
            r == count_of(self@, path@),
    {
        let key = String::from_str(path);
        match self.position(&key) {
            Some(i) => self.counts[i],
            None => 0,
        }
    }

    /// Records one launch of `path`.
    pub fn increment(&mut self, path: &str)
        requires
            old(self).wf(),
        ensures
            final(self).wf(),
            final(self)@ == bumped(old(self)@, path@),
    {
        let key = String::from_str(path);
        match self.position(&key) {
            Some(i) => {
                let c = self.counts[i];
                let n: u32 = if c < u32::MAX {
                    c + 1
                } else {
                    u32::MAX
                };
                self.counts.set(i, n);
                self.table = Ghost(self.table@.insert(path@, n));
                assert forall|p: Seq<char>| #[trigger] self.table@.contains_key(p) implies exists|j: int|
                    0 <= j < self.paths.len() && #[trigger] self.paths[j]@ == p by {
                    if p != path@ {
                        assert(old(self).table@.contains_key(p));
                        let j = choose|j: int| 0 <= j < old(self).paths.len() && #[trigger] old(self).paths[j]@ == p;
                        assert(self.paths[j]@ == p);
                    } else {
                        assert(self.paths[i as int]@ == p);
                    }
                }
            },
            None => {
                self.paths.push(key);
                self.counts.push(1);
                self.table = Ghost(self.table@.insert(path@, 1));
                let ghost last = self.paths.len() - 1;
                assert forall|p: Seq<char>| #[trigger] self.table@.contains_key(p) implies exists|j: int|
                    0 <= j < self.paths.len() && #[trigger] self.paths[j]@ == p by {
                    if p != path@ {
                        assert(old(self).table@.contains_key(p));
                        let j = choose|j: int| 0 <= j < old(self).paths.len() && #[trigger] old(self).paths[j]@ == p;
                        assert(self.paths[j]@ == p);
                    } else {
                        assert(self.paths[last]@ == p);
                    }
                }
                assert forall|i: int| 0 <= i < self.paths.len() implies self.table@.contains_key(#[trigger] self.paths[i]@)
                    && self.table@[self.paths[i]@] == self.counts[i] by {
                    if i < last {
                        assert(self.paths[i]@ == old(self).paths[i]@);
                    }
                }
            },
        }
    }

    /// Up to `limit` launched paths with their counts, most launched first.
    pub fn most_frequent(&self, limit: usize) -> (r: Vec<(String, u32)>)
        requires
            self.wf(),
        ensures
            r.len() <= limit,
            forall|a: int|
                0 <= a < r.len() ==> self@.contains_key(#[trigger] r[a].0@) && self@[r[a].0@] == r[a].1,
            forall|a: int, b: int|
                0 <= a < b < r.len() ==> #[trigger] r[a].0@ != #[trigger] r[b].0@ && r[a].1 >= r[b].1,
            forall|p: Seq<char>|
                #[trigger] self@.contains_key(p) && !listed_paths(r@).contains(p) ==> r.len() == limit
                    && forall|a: int| 0 <= a < r.len() ==> #[trigger] r[a].1 >= self@[p],
    {
        let mut keys: Vec<Option<i128>> = Vec::new();
        let mut i: usize = 0;
        while i < self.counts.len()
            invariant
                i <= self.counts.len(),
                keys.len() == i,
                forall|j: int| 0 <= j < i ==> #[trigger] keys@[j] == Some(self.counts[j] as i128),
            decreases self.counts.len() - i,
        {
            keys.push(Some(self.counts[i] as i128));
            i = i + 1;
        }
        let idx = top_ranked(&keys, limit);
        let mut r: Vec<(String, u32)> = Vec::new();
        let mut n: usize = 0;
        while n < idx.len()
            invariant
                self.wf(),
                keys.len() == self.counts.len(),
                forall|j: int| 0 <= j < keys.len() ==> #[trigger] keys@[j] == Some(self.counts[j] as i128),
                is_top_ranking(keys@, limit as int, idx@),
                n <= idx.len(),
                r.len() == n,
                forall|b: int|
                    0 <= b < n ==> (#[trigger] r[b]).0@ == self.paths[idx[b] as int]@ && r[b].1
                        == self.counts[idx[b] as int],
            decreases idx.len() - n,
        {
            let j = idx[n];
            r.push((self.paths[j].clone(), self.counts[j]));
            n = n + 1;
        }
        assert(n == idx.len());
        assert(forall|b: int|
                    0 <= b < r.len() ==> (#[trigger] r[b]).0@ == self.paths[idx[b] as int]@ && r[b].1
                        == self.counts[idx[b] as int]);
        assert forall|a: int, b: int| 0 <= a < b < r.len() implies #[trigger] r[a].0@ != #[trigger] r[b].0@
            && r[a].1 >= r[b].1 by {
            assert(ranks_before(keys@, idx[a] as int, idx[b] as int));
            assert(idx[a] != idx[b]);
            assert(keys@[idx[a] as int] == Some(self.counts[idx[a] as int] as i128));
            assert(keys@[idx[b] as int] == Some(self.counts[idx[b] as int] as i128));
            if idx[a] < idx[b] {
                assert(self.paths[idx[a] as int]@ != self.paths[idx[b] as int]@);
            } else {
                assert(self.paths[idx[b] as int]@ != self.paths[idx[a] as int]@);
            }
        }
        assert forall|p: Seq<char>|
            #[trigger] self@.contains_key(p) && !listed_paths(r@).contains(p) implies r.len() == limit
                && forall|a: int| 0 <= a < r.len() ==> #[trigger] r[a].1 >= self@[p] by {
            let j = choose|j: int| 0 <= j < self.paths.len() && #[trigger] self.paths[j]@ == p;
            assert(keys@[j] is Some);
            if idx@.contains(j as usize) {
                let b = choose|b: int| 0 <= b < idx.len() && idx@[b] == j as usize;
                assert(listed_paths(r@)[b] == p);
            }
            assert forall|a: int| 0 <= a < r.len() implies #[trigger] r[a].1 >= self@[p] by {
                assert(ranks_before(keys@, idx[a] as int, j));
                assert(keys@[idx[a] as int] == Some(self.counts[idx[a] as int] as i128));
                assert(keys@[j] == Some(self.counts[j] as i128));
            }
        }
        r
    }
}

} // verus!
