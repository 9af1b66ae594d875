//! In-memory form of the usage journal: one record per fingerprint with the
//! instant it was last used, and the least-recently-used eviction rule.
use vstd::prelude::*;

verus! {

/// One record of the journal as seen by the proofs: a fingerprint and the
/// instant (microseconds since the epoch) it was last used.
pub type Entry = (Seq<char>, i64);

/// Record `j` ranks as more recently used than record `i`: a later instant,
/// or the same instant and a later position in the table.
pub open spec fn newer(rs: Seq<Entry>, j: int, i: int) -> bool {
    rs[j].1 > rs[i].1 || (rs[j].1 == rs[i].1 && j > i)
}

/// How many of the first `upto` records are more recently used than record `i`.
pub open spec fn count_newer(rs: Seq<Entry>, i: int, upto: int) -> nat
    decreases upto,
{
    if upto <= 0 {
        0
    } else {
        count_newer(rs, i, upto - 1) + if newer(rs, upto - 1, i) {
            1nat
        } else {
            0nat
        }
    }
}

/// Rank of record `i` by recency: 0 for the most recently used record.
pub open spec fn rank(rs: Seq<Entry>, i: int) -> nat {
    count_newer(rs, i, rs.len() as int)
}

/// Record `i` falls outside the `capacity` most recently used records.
pub open spec fn evictable(rs: Seq<Entry>, i: int, capacity: nat) -> bool {
    0 <= i < rs.len() && rank(rs, i) >= capacity
}

/// `order` lists positions of `rs`, oldest first.
pub open spec fn oldest_first(rs: Seq<Entry>, order: Seq<usize>) -> bool {
    &&& forall|p: int| 0 <= p < order.len() ==> order[p] < rs.len()
    &&& forall|p: int, q: int|
        0 <= p < q < order.len() ==> newer(rs, order[q] as int, order[p] as int)
}

/// `order` lists exactly the evictable positions of `rs`, oldest first.
pub open spec fn is_eviction_order(rs: Seq<Entry>, capacity: nat, order: Seq<usize>) -> bool {
    &&& oldest_first(rs, order)
    &&& forall|i: usize| i < rs.len() ==> (#[trigger] order.contains(i) <==> evictable(rs, i as int, capacity))
}

/// The fingerprints at the positions `order`, in that order.
pub open spec fn names_at(rs: Seq<Entry>, order: Seq<usize>) -> Seq<Seq<char>> {
    order.map_values(|p: usize| rs[p as int].0)
}

/// No fingerprint has two records.
pub open spec fn unique_keys(rs: Seq<Entry>) -> bool {
    forall|i: int, j: int| 0 <= i < rs.len() && 0 <= j < rs.len() && i != j ==> rs[i].0 != rs[j].0
}

/// Some record holds fingerprint `f`.
pub open spec fn holds(rs: Seq<Entry>, f: Seq<char>) -> bool {
    exists|i: int| 0 <= i < rs.len() && rs[i].0 == f
}

/// `rs` without the records of fingerprint `f`, order kept.
pub open spec fn without(rs: Seq<Entry>, f: Seq<char>) -> Seq<Entry>
    decreases rs.len(),
{
    if rs.len() == 0 {
        rs
    } else {
        let rest = without(rs.drop_last(), f);
        if rs.last().0 == f {
            rest
        } else {
            rest.push(rs.last())
        }
    }
}

/// The latest instant in `rs`, or `i64::MIN` for an empty table.
pub open spec fn latest(rs: Seq<Entry>) -> i64
    decreases rs.len(),
{
    if rs.len() == 0 {
        i64::MIN
    } else {
        let l = latest(rs.drop_last());
        if rs.last().1 > l {
            rs.last().1
        } else {
            l
        }
    }
}

/// The instant stamped on a use observed at clock reading `now`: the clock,
/// pushed past every instant already recorded so that stamps keep increasing
/// (saturating at `i64::MAX`).
pub open spec fn next_stamp(rs: Seq<Entry>, now: i64) -> i64 {
    if now > latest(rs) {
        now
    } else if latest(rs) < i64::MAX {
        (latest(rs) + 1) as i64
    } else {
        i64::MAX
    }
}

/// The table after a use of `f` stamped `stamp`: its record, if any, leaves
/// its place and the fresh record goes last.
pub open spec fn touch(rs: Seq<Entry>, f: Seq<char>, stamp: i64) -> Seq<Entry> {
    without(rs, f).push((f, stamp))
}

/// The table after a use of `f` observed at clock reading `now`.
pub open spec fn record(rs: Seq<Entry>, f: Seq<char>, now: i64) -> Seq<Entry> {
    touch(rs, f, next_stamp(rs, now))
}

/// A journal record.
pub struct UsageRecord {
    pub fingerprint: String,
    pub last_used: i64,
}

impl UsageRecord {
    pub open spec fn view(&self) -> Entry {
        (self.fingerprint@, self.last_used)
    }
}

/// The usage journal held in memory: records in table order.
pub struct UsageTable {
    pub records: Vec<UsageRecord>,
}

impl View for UsageTable {
    type V = Seq<Entry>;

    open spec fn view(&self) -> Seq<Entry> {
        self.records@.map_values(|r: UsageRecord| r@)
    }
}


/// Facts about `without`: it drops every record of `f`, keeps the others
/// (so a table without `f` is unchanged), and keeps keys unique.
pub proof fn lemma_without(rs: Seq<Entry>, f: Seq<char>)
    ensures
        forall|k: int| 0 <= k < without(rs, f).len() ==> without(rs, f)[k].0 != f,
        forall|k: int|
            0 <= k < without(rs, f).len() ==> exists|i: int|
                0 <= i < rs.len() && rs[i] == #[trigger] without(rs, f)[k],
        !holds(rs, f) ==> without(rs, f) == rs,
        unique_keys(rs) ==> unique_keys(without(rs, f)),
    decreases rs.len(),
{
    if rs.len() > 0 {
        let init = rs.drop_last();
        lemma_without(init, f);
        let w = without(init, f);
        assert forall|k: int| 0 <= k < without(rs, f).len() implies exists|i: int|
            0 <= i < rs.len() && rs[i] == #[trigger] without(rs, f)[k] by {
            if k < w.len() {
                let i = choose|i: int| 0 <= i < init.len() && init[i] == w[k];
                assert(rs[i] == without(rs, f)[k]);
            } else {
                assert(rs[rs.len() - 1] == without(rs, f)[k]);
            }
        }
        if !holds(rs, f) {
            assert(!holds(init, f)) by {
                if holds(init, f) {
                    let i = choose|i: int| 0 <= i < init.len() && init[i].0 == f;
                    assert(rs[i].0 == f);
                }
            }
            assert(rs.last().0 != f) by {
                assert(rs[rs.len() - 1].0 != f);
            }
            assert(init.push(rs.last()) =~= rs);
        }
        if unique_keys(rs) {
            assert(unique_keys(init));
            if rs.last().0 != f {
                let wr = without(rs, f);
                assert forall|i: int, j: int|
                    0 <= i < wr.len() && 0 <= j < wr.len() && i != j implies wr[i].0 != wr[j].0 by {
                    if i < w.len() && j == w.len() {
                        let a = choose|a: int| 0 <= a < init.len() && init[a] == w[i];
                        assert(rs[a] == init[a]);
                        assert(rs[rs.len() - 1] == rs.last());
                    } else if j < w.len() && i == w.len() {
                        let a = choose|a: int| 0 <= a < init.len() && init[a] == w[j];
                        assert(rs[a] == init[a]);
                        assert(rs[rs.len() - 1] == rs.last());
                    }
                }
            }
        }
    }
}

/// The fingerprint of `rec` is `f`.
fn same_fingerprint(rec: &UsageRecord, f: &String) -> (r: bool)
    ensures
        r == (rec@.0 == f@),
{
    rec.fingerprint == *f
}

fn copy_record(rec: &UsageRecord) -> (r: UsageRecord)
    ensures
        r@ == rec@,
{
    UsageRecord { fingerprint: rec.fingerprint.clone(), last_used: rec.last_used }
}

impl UsageTable {
    /// Well-formed: at most one record per fingerprint.
    pub open spec fn wf(&self) -> bool {
        unique_keys(self@)
    }

    /// An empty table.
    pub fn new() -> (r: UsageTable)
        ensures
            r@ == Seq::<Entry>::empty(),
            r.wf(),
    {
        let r = UsageTable { records: Vec::new() };
        assert(r@ =~= Seq::<Entry>::empty());
        r
    }

    /// Number of records.
    pub fn len(&self) -> (r: usize)
        ensures
            r == self@.len(),
    {
        self.records.len()
    }

    /// Record `j` ranks as more recently used than record `i`.
    fn is_newer(&self, j: usize, i: usize) -> (r: bool)
        requires
            j < self@.len(),
            i < self@.len(),
        ensures
            r == newer(self@, j as int, i as int),
    {
        let a = self.records[j].last_used;
        let b = self.records[i].last_used;
        a > b || (a == b && j > i)
    }

    /// Recency rank of record `i` (0 for the most recently used).
    pub fn rank_of(&self, i: usize) -> (r: usize)
        requires
            i < self@.len(),
        ensures
            r == rank(self@, i as int),
    {
        let n = self.records.len();
        let mut count: usize = 0;
        let mut j: usize = 0;
        while j < n
            invariant
                n == self@.len(),
                i < n,
                j <= n,
                count == count_newer(self@, i as int, j as int),
                count <= j,
            decreases n - j,
        {
            if self.is_newer(j, i) {
                count = count + 1;
            }
            j = j + 1;
        }
        count
    }

    /// The positions of the records that fall outside the `capacity` most
    /// recently used ones, oldest first.
    pub fn eviction_order(&self, capacity: usize) -> (r: Vec<usize>)
        ensures
            is_eviction_order(self@, capacity as nat, r@),
    {
        let n = self.records.len();
        let mut out: Vec<usize> = Vec::new();
        let mut i: usize = 0;
        while i < n
            invariant
                n == self@.len(),
                i <= n,
                oldest_first(self@, out@),
                forall|k: usize| k < n ==> (#[trigger] out@.contains(k) <==> (k < i && evictable(self@, k as int, capacity as nat))),
            decreases n - i,
        {
            let rk = self.rank_of(i);
            assert forall|q: int| 0 <= q < out@.len() implies out@[q] < i by {
                assert(out@.contains(out@[q]));
            }
            if rk >= capacity {
                let mut p: usize = 0;
                while p < out.len() && !self.is_newer(out[p], i)
                    invariant
                        n == self@.len(),
                        i < n,
                        p <= out@.len(),
                        oldest_first(self@, out@),
                        forall|q: int| 0 <= q < out@.len() ==> out@[q] < i,
                        forall|q: int| 0 <= q < p ==> newer(self@, i as int, out@[q] as int),
                    decreases out@.len() - p,
                {
                    p = p + 1;
                }
                proof {
                    if p < out@.len() {
                        assert forall|q: int| p <= q < out@.len() implies newer(self@, out@[q] as int, i as int) by {
                            if q > p {
                                assert(newer(self@, out@[q] as int, out@[p as int] as int));
                            }
                        }
                    }
                }
                let ghost before = out@;
                out.insert(p, i);
                proof {
                    assert forall|a: int, b: int| 0 <= a < b < out@.len() implies newer(self@, out@[b] as int, out@[a] as int) by {
                        if b < p {
                            assert(out@[a] == before[a] && out@[b] == before[b]);
                        } else if b == p {
                            assert(out@[a] == before[a]);
                        } else if a < p {
                            assert(out@[a] == before[a] && out@[b] == before[b - 1]);
                        } else if a == p {
                            assert(out@[b] == before[b - 1]);
                        } else {
                            assert(out@[a] == before[a - 1] && out@[b] == before[b - 1]);
                        }
                    }
                    assert forall|k: usize| k < n implies (#[trigger] out@.contains(k) <==> (k < i + 1 && evictable(self@, k as int, capacity as nat))) by {
                        if k == i {
                            assert(out@[p as int] == i);
                        } else if out@.contains(k as usize) {
                            let q = choose|q: int| 0 <= q < out@.len() && out@[q] == k;
                            if q < p {
                                assert(before[q] == k);
                            } else {
                                assert(before[q - 1] == k);
                            }
                            assert(before.contains(k));
                        } else if k < i && evictable(self@, k as int, capacity as nat) {
                            assert(before.contains(k));
                            let q = choose|q: int| 0 <= q < before.len() && before[q] == k;
                            if q < p {
                                assert(out@[q] == k);
                            } else {
                                assert(out@[q + 1] == k);
                            }
                        }
                    }
                }
            }
            i = i + 1;
        }
        out
    }

    /// The latest instant recorded, `i64::MIN` for an empty table.
    pub fn latest(&self) -> (r: i64)
        ensures
            r == latest(self@),
    {
        let n = self.records.len();
        let mut m: i64 = i64::MIN;
        let mut j: usize = 0;
        while j < n
            invariant
                n == self@.len(),
                j <= n,
                m == latest(self@.subrange(0, j as int)),
            decreases n - j,
        {
            proof {
                let sub = self@.subrange(0, j as int + 1);
                assert(sub.drop_last() =~= self@.subrange(0, j as int));
                assert(sub.last() == self@[j as int]);
            }
            let t = self.records[j].last_used;
            if t > m {
                m = t;
            }
            j = j + 1;
        }
        assert(self@.subrange(0, n as int) =~= self@);
        m
    }

    /// The instant to stamp on a use observed at clock reading `now`.
    pub fn next_stamp(&self, now: i64) -> (r: i64)
        ensures
            r == next_stamp(self@, now),
    {
        let l = self.latest();
        if now > l {
            now
        } else if l < i64::MAX {
            l + 1
        } else {
            i64::MAX
        }
    }

    /// Removes the record of `fingerprint`, if any; tells whether there was one.
    pub fn mark_deleted(&mut self, fingerprint: &str) -> (r: bool)
        requires
            old(self).wf(),
        ensures
            final(self)@ == without(old(self)@, fingerprint@),
            r == holds(old(self)@, fingerprint@),
            final(self).wf(),
    {
        let f = fingerprint.to_owned();
        let n = self.records.len();
        let mut kept: Vec<UsageRecord> = Vec::new();
        let mut found = false;
        let mut j: usize = 0;
        while j < n
            invariant
                n == self@.len(),
                j <= n,
                f@ == fingerprint@,
                kept@.map_values(|r: UsageRecord| r@) == without(self@.subrange(0, j as int), f@),
                found == holds(self@.subrange(0, j as int), f@),
            decreases n - j,
        {
            let ghost sub = self@.subrange(0, j as int + 1);
            proof {
                assert(sub.drop_last() =~= self@.subrange(0, j as int));
                assert(sub.last() == self@[j as int]);
            }
            if same_fingerprint(&self.records[j], &f) {
                found = true;
                assert(sub[j as int].0 == f@);
            } else {
                let rec = copy_record(&self.records[j]);
                kept.push(rec);
                assert(kept@.map_values(|r: UsageRecord| r@) =~= without(self@.subrange(0, j as int), f@).push(self@[j as int]));
                assert(found == holds(sub, f@)) by {
                    if holds(sub, f@) {
                        let i = choose|i: int| 0 <= i < sub.len() && sub[i].0 == f@;
                        assert(self@.subrange(0, j as int)[i].0 == f@);
                    }
                }
            }
            proof {
                if found && !holds(self@.subrange(0, j as int), f@) {
                    assert(sub[j as int].0 == f@);
                }
                if holds(self@.subrange(0, j as int), f@) {
                    let i = choose|i: int| 0 <= i < j && self@.subrange(0, j as int)[i].0 == f@;
                    assert(sub[i].0 == f@);
                }
            }
            j = j + 1;
        }
        assert(self@.subrange(0, n as int) =~= self@);
        let ghost before = self@;
        self.records = kept;
        proof {
            lemma_without(before, f@);
        }
        found
    }

    /// Stamps a use of `fingerprint` at `stamp`: its old record leaves and the
    /// fresh one goes last.
    fn put(&mut self, fingerprint: &str, stamp: i64)
        requires
            old(self).wf(),
        ensures
            final(self)@ == touch(old(self)@, fingerprint@, stamp),
            final(self).wf(),
    {
        self.mark_deleted(fingerprint);
        proof {
            lemma_without(old(self)@, fingerprint@);
        }
        let rec = UsageRecord { fingerprint: fingerprint.to_owned(), last_used: stamp };
        self.records.push(rec);
        assert(self@ =~= without(old(self)@, fingerprint@).push((fingerprint@, stamp)));
    }

    /// A table holding `rows` in order; a later row of a fingerprint replaces
    /// an earlier one.
    pub fn from_records(rows: Vec<UsageRecord>) -> (r: UsageTable)
        ensures
            r.wf(),
            unique_keys(rows@.map_values(|x: UsageRecord| x@)) ==> r@ == rows@.map_values(|x: UsageRecord| x@),
    {
        let ghost rv = rows@.map_values(|x: UsageRecord| x@);
        let mut t = UsageTable::new();
        let n = rows.len();
        let mut j: usize = 0;
        while j < n
            invariant
                n == rows@.len(),
                rv == rows@.map_values(|x: UsageRecord| x@),
                j <= n,
                t.wf(),
                unique_keys(rv) ==> t@ == rv.subrange(0, j as int),
            decreases n - j,
        {
            let ghost before = t@;
            t.put(rows[j].fingerprint.as_str(), rows[j].last_used);
            proof {
                if unique_keys(rv) {
                    let sub = rv.subrange(0, j as int);
                    assert(!holds(sub, rv[j as int].0)) by {
                        if holds(sub, rv[j as int].0) {
                            let i = choose|i: int| 0 <= i < sub.len() && sub[i].0 == rv[j as int].0;
                            assert(rv[i].0 == rv[j as int].0);
                        }
                    }
                    lemma_without(sub, rv[j as int].0);
                    assert(t@ =~= rv.subrange(0, j as int + 1));
                }
            }
            j = j + 1;
        }
        assert(rv.subrange(0, n as int) =~= rv);
        t
    }

    /// The fingerprints at the positions `order`, in that order.
    pub fn names(&self, order: &Vec<usize>) -> (r: Vec<String>)
        requires
            forall|p: int| 0 <= p < order@.len() ==> order@[p] < self@.len(),
        ensures
            r@.map_values(|s: String| s@) == names_at(self@, order@),
    {
        let mut out: Vec<String> = Vec::new();
        let mut p: usize = 0;
        while p < order.len()
            invariant
                p <= order@.len(),
                forall|q: int| 0 <= q < order@.len() ==> order@[q] < self@.len(),
                out@.map_values(|s: String| s@) == names_at(self@, order@.subrange(0, p as int)),
            decreases order@.len() - p,
        {
            let name = self.records[order[p]].fingerprint.clone();
            let ghost prev = out@.map_values(|s: String| s@);
            assert(name@ == self@[order@[p as int] as int].0);
            out.push(name);
            assert(out@.map_values(|s: String| s@) =~= prev.push(name@));
            assert(out@.map_values(|s: String| s@) =~= names_at(self@, order@.subrange(0, p as int + 1)));
            p = p + 1;
        }
        assert(order@.subrange(0, order@.len() as int) =~= order@);
        out
    }

    /// Records a use of `fingerprint` observed at clock reading `now` and
    /// returns the fingerprints that fall outside the `capacity` most recently
    /// used, oldest first.
    pub fn record_usage(&mut self, fingerprint: &str, now: i64, capacity: usize) -> (r: Vec<String>)
        requires
            old(self).wf(),
        ensures
            final(self)@ == record(old(self)@, fingerprint@, now),
            final(self).wf(),
            exists|order: Seq<usize>|
                is_eviction_order(final(self)@, capacity as nat, order)
                && r@.map_values(|s: String| s@) == names_at(final(self)@, order),
    {
        let stamp = self.next_stamp(now);
        self.put(fingerprint, stamp);
        let order = self.eviction_order(capacity);
        let r = self.names(&order);
        assert(is_eviction_order(self@, capacity as nat, order@));
        r
    }
}

/// The table after the first `m` of the uses `fs[0], fs[1], ...`, observed at
/// clock readings `nows[0], nows[1], ...`, starting from an empty table.
pub open spec fn replay(fs: Seq<Seq<char>>, nows: Seq<i64>, m: int) -> Seq<Entry>
    decreases m,
{
    if m <= 0 {
        Seq::empty()
    } else {
        record(replay(fs, nows, m - 1), fs[m - 1], nows[m - 1])
    }
}

/// Every recorded instant is at most `latest`.
proof fn lemma_latest_bounds(rs: Seq<Entry>)
    ensures
        forall|k: int| 0 <= k < rs.len() ==> rs[k].1 <= latest(rs),
    decreases rs.len(),
{
    if rs.len() > 0 {
        lemma_latest_bounds(rs.drop_last());
        assert forall|k: int| 0 <= k < rs.len() implies rs[k].1 <= latest(rs) by {
            if k < rs.len() - 1 {
                assert(rs.drop_last()[k] == rs[k]);
            }
        }
    }
}

/// Instants never decrease along the table.
pub open spec fn monotone(rs: Seq<Entry>) -> bool {
    forall|a: int, b: int| 0 <= a < b < rs.len() ==> rs[a].1 <= rs[b].1
}

/// Distinct uses replayed from an empty table leave one record per use, in
/// call order, with non-decreasing instants.
proof fn lemma_replay_shape(fs: Seq<Seq<char>>, nows: Seq<i64>, m: int)
    requires
        fs.no_duplicates(),
        nows.len() == fs.len(),
        0 <= m <= fs.len(),
    ensures
        replay(fs, nows, m).len() == m,
        forall|k: int| 0 <= k < m ==> replay(fs, nows, m)[k].0 == fs[k],
        monotone(replay(fs, nows, m)),
    decreases m,
{
    if m > 0 {
        lemma_replay_shape(fs, nows, m - 1);
        let prev = replay(fs, nows, m - 1);
        let f = fs[m - 1];
        assert(!holds(prev, f)) by {
            if holds(prev, f) {
                let i = choose|i: int| 0 <= i < prev.len() && prev[i].0 == f;
                assert(fs[i] == fs[m - 1]);
            }
        }
        lemma_without(prev, f);
        lemma_latest_bounds(prev);
        let stamp = next_stamp(prev, nows[m - 1]);
        assert(stamp >= latest(prev));
        let cur = replay(fs, nows, m);
        assert(cur == touch(prev, f, stamp));
        assert(without(prev, f) == prev);
        assert(cur == prev.push((f, stamp)));
        assert forall|k: int| 0 <= k < m implies cur[k].0 == fs[k] by {
            if k < m - 1 {
                assert(cur[k] == prev[k]);
            }
        }
        assert forall|a: int, b: int| 0 <= a < b < cur.len() implies cur[a].1 <= cur[b].1 by {
            assert(cur[a] == prev[a]);
            if b < m - 1 {
                assert(cur[b] == prev[b]);
            } else {
                assert(prev[a].1 <= latest(prev));
            }
        }
    }
}

/// In a table with non-decreasing instants, recency follows position.
proof fn lemma_monotone_newer(rs: Seq<Entry>, i: int)
    requires
        monotone(rs),
        0 <= i < rs.len(),
    ensures
        forall|j: int| 0 <= j < rs.len() ==> (#[trigger] newer(rs, j, i) <==> j > i),
{
    assert forall|j: int| 0 <= j < rs.len() implies (#[trigger] newer(rs, j, i) <==> j > i) by {
        if j > i {
            assert(rs[i].1 <= rs[j].1);
        } else if j < i {
            assert(rs[j].1 <= rs[i].1);
        }
    }
}

/// In a table with non-decreasing instants, record `i` has rank
/// `len - 1 - i`.
proof fn lemma_monotone_rank(rs: Seq<Entry>, i: int, upto: int)
    requires
        0 <= i < rs.len(),
        0 <= upto <= rs.len(),
        forall|j: int| 0 <= j < rs.len() ==> (#[trigger] newer(rs, j, i) <==> j > i),
    ensures
        count_newer(rs, i, upto) == if upto > i + 1 { upto - i - 1 } else { 0 },
    decreases upto,
{
    if upto > 0 {
        lemma_monotone_rank(rs, i, upto - 1);
        assert(newer(rs, upto - 1, i) <==> upto - 1 > i);
    }
}

/// A strictly increasing sequence of positions whose values are exactly
/// `0 .. k` is `0, 1, ..., k - 1`.
proof fn lemma_identity_order(order: Seq<usize>, k: int, p: int)
    requires
        forall|a: int, b: int| 0 <= a < b < order.len() ==> order[a] < order[b],
        forall|q: int| 0 <= q < order.len() ==> order[q] < k,
        forall|x: usize| x < k ==> #[trigger] order.contains(x),
        0 <= p <= k,
        k <= usize::MAX,
    ensures
        p <= order.len(),
        forall|q: int| 0 <= q < p ==> order[q] == q,
    decreases p,
{
    if p > 0 {
        lemma_identity_order(order, k, p - 1);
        let v = (p - 1) as usize;
        assert(order.contains(v));
        let q = choose|q: int| 0 <= q < order.len() && order[q] == v;
        if q < p - 1 {
            assert(order[q] == q);
            assert(false);
        } else if q > p - 1 {
            assert(order[p - 1] < order[q]);
            if p - 1 > 0 {
                assert(order[p - 2] == p - 2);
                assert(order[p - 2] < order[p - 1]);
            }
            assert(false);
        }
        assert(order[p - 1] == p - 1);
    }
}

/// Recording distinct fingerprints one after another, starting from an empty
/// journal: after the `m`-th call the evictable fingerprints, oldest first,
/// are exactly the first `m - capacity` of them in call order (none while
/// `m <= capacity`). So over a whole run of `N` calls the fingerprints ever
/// reported are exactly the first `N - capacity`.
pub proof fn lemma_distinct_uses_evict_oldest(
    fs: Seq<Seq<char>>,
    nows: Seq<i64>,
    capacity: nat,
    m: int,
    order: Seq<usize>,
)
    requires
        fs.no_duplicates(),
        nows.len() == fs.len(),
        0 < m <= fs.len(),
        fs.len() <= usize::MAX,
        is_eviction_order(replay(fs, nows, m), capacity, order),
    ensures
        names_at(replay(fs, nows, m), order) == fs.take(if m > capacity { m - capacity } else { 0 }),
{
    let rs = replay(fs, nows, m);
    lemma_replay_shape(fs, nows, m);
    let k = if m > capacity { m - capacity } else { 0 };
    assert forall|i: int| 0 <= i < m implies (evictable(rs, i, capacity) <==> i < k) by {
        lemma_monotone_newer(rs, i);
        lemma_monotone_rank(rs, i, m);
    }
    assert forall|a: int, b: int| 0 <= a < b < order.len() implies order[a] < order[b] by {
        lemma_monotone_newer(rs, order[a] as int);
        assert(newer(rs, order[b] as int, order[a] as int));
    }
    assert forall|q: int| 0 <= q < order.len() implies order[q] < k by {
        assert(order.contains(order[q]));
    }
    assert forall|x: usize| x < k implies #[trigger] order.contains(x) by {
        assert(evictable(rs, x as int, capacity));
    }
    lemma_identity_order(order, k, k);
    if order.len() > k {
        if k > 0 {
            assert(order[k - 1] < order[k]);
        }
        assert(order[k] < k);
    }
    assert(names_at(rs, order) =~= fs.take(k));
}

/// Marking a fingerprint deleted twice has the effect of marking it once.
pub proof fn lemma_mark_deleted_idempotent(rs: Seq<Entry>, f: Seq<char>)
    ensures
        without(without(rs, f), f) == without(rs, f),
{
    lemma_without(rs, f);
    let w = without(rs, f);
    assert(!holds(w, f));
    lemma_without(w, f);
}

/// No record ranks as newer than `i` among the first `upto`.
proof fn lemma_none_newer(rs: Seq<Entry>, i: int, upto: int)
    requires
        0 <= upto <= rs.len(),
        forall|j: int| 0 <= j < rs.len() ==> !#[trigger] newer(rs, j, i),
    ensures
        count_newer(rs, i, upto) == 0,
    decreases upto,
{
    if upto > 0 {
        lemma_none_newer(rs, i, upto - 1);
        assert(!newer(rs, upto - 1, i));
    }
}

/// A use just recorded is the most recent one: with room for at least one
/// environment it is never among those reported for eviction.
pub proof fn lemma_recorded_not_evicted(rs: Seq<Entry>, f: Seq<char>, now: i64, capacity: nat, order: Seq<usize>)
    requires
        capacity >= 1,
        is_eviction_order(record(rs, f, now), capacity, order),
    ensures
        !names_at(record(rs, f, now), order).contains(f),
{
    let t = record(rs, f, now);
    let w = without(rs, f);
    let last = t.len() - 1;
    lemma_without(rs, f);
    lemma_latest_bounds(rs);
    assert forall|j: int| 0 <= j < t.len() implies !#[trigger] newer(t, j, last) by {
        if j < last {
            assert(t[j] == w[j]);
            let i = choose|i: int| 0 <= i < rs.len() && rs[i] == #[trigger] w[j];
            assert(rs[i].1 <= latest(rs));
        }
    }
    lemma_none_newer(t, last, t.len() as int);
    if names_at(t, order).contains(f) {
        let p = choose|p: int| 0 <= p < names_at(t, order).len() && names_at(t, order)[p] == f;
        let x = order[p];
        assert(order.contains(x));
        if (x as int) < last {
            assert(t[x as int] == w[x as int]);
        } else {
            assert(x as int == last);
        }
    }
}

} // verus!
