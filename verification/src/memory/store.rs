//! The bookkeeping of the tensor store, which keeps model stages in RAM up
//! to a limit and spills the rest to disk: which stages are in RAM, in
//! least-recently-used order, their sizes, which changed since they were
//! written, which are being written or loaded, and which version of each is
//! the latest and which is on disk. The tensors themselves, the files and
//! the threads waiting on each other are the program's; it asks the index
//! what to do and tells it what happened.
//!
//! Also the order of a stage's tensors in its file: written into the file's
//! metadata as their names joined with commas, and read back from there.

use vstd::prelude::*;

use crate::code::tools::join_strings;
use crate::code::tui::join;
use crate::order::{sort_strings, sorted_strs, strs_view};
use crate::updater::{lemma_split_char_nonempty, split_char, split_on_char};

verus! {

/// Bytes moved between the tensor store and disk since it was created.
#[derive(Debug, Clone, Copy)]
pub struct IoStats {
    pub read_bytes: u64,
    pub write_bytes: u64,
}

impl Default for IoStats {
    fn default() -> (s: Self)
        ensures
            s.read_bytes == 0,
            s.write_bytes == 0,
    {
        IoStats { read_bytes: 0, write_bytes: 0 }
    }
}

impl IoStats {
    /// Counts `n` bytes read from disk (wrapping on overflow, as an atomic
    /// add does).
    pub fn record_read(&mut self, n: u64)
        ensures
            final(self).read_bytes == (old(self).read_bytes + n) % 0x1_0000_0000_0000_0000,
            final(self).write_bytes == old(self).write_bytes,
    {
        self.read_bytes = self.read_bytes.wrapping_add(n);
    }

    /// Counts `n` bytes written to disk (wrapping on overflow, as an atomic
    /// add does).
    pub fn record_write(&mut self, n: u64)
        ensures
            final(self).write_bytes == (old(self).write_bytes + n) % 0x1_0000_0000_0000_0000,
            final(self).read_bytes == old(self).read_bytes,
    {
        self.write_bytes = self.write_bytes.wrapping_add(n);
    }
}


/// A cached stage as plain values: name, then size in bytes, whether it
/// changed since it was last written, and its version.
pub type CachedV = (Seq<char>, (u64, bool, u64));

/// The first index at or after `i` whose key is `k`.
pub open spec fn pos_of<V>(v: Seq<(Seq<char>, V)>, k: Seq<char>, i: int) -> Option<int>
    decreases v.len() - i,
{
    if i < 0 || i >= v.len() {
        None
    } else if v[i].0 == k {
        Some(i)
    } else {
        pos_of(v, k, i + 1)
    }
}

/// A found index holds the key, and no earlier one from `i` on does.
pub proof fn lemma_pos_of<V>(v: Seq<(Seq<char>, V)>, k: Seq<char>, i: int)
    ensures
        pos_of(v, k, i) matches Some(j) ==> i <= j < v.len() && v[j].0 == k,
        pos_of(v, k, i) is None && 0 <= i ==> forall|t: int| i <= t < v.len() ==> v[t].0 != k,
    decreases v.len() - i,
{
    if 0 <= i < v.len() && v[i].0 != k {
        lemma_pos_of(v, k, i + 1);
    }
}

/// With distinct keys, the index holding `k` is the one found.
pub proof fn lemma_pos_of_unique<V>(v: Seq<(Seq<char>, V)>, k: Seq<char>, j: int)
    requires
        keys_distinct(v),
        0 <= j < v.len(),
        v[j].0 == k,
    ensures
        pos_of(v, k, 0) == Some(j),
{
    lemma_pos_of(v, k, 0);
    match pos_of(v, k, 0) {
        Some(t) => {
            if t != j {
                if t < j {
                    assert(v[t].0 != v[j].0);
                } else {
                    assert(v[j].0 != v[t].0);
                }
            }
        },
        None => {},
    }
}

/// No key occurs twice.
pub open spec fn keys_distinct<V>(v: Seq<(Seq<char>, V)>) -> bool {
    forall|i: int, j: int| 0 <= i < j < v.len() ==> (#[trigger] v[i]).0 != (#[trigger] v[j]).0
}

/// The value of key `k`, if any.
pub open spec fn lookup<V>(v: Seq<(Seq<char>, V)>, k: Seq<char>) -> Option<V> {
    match pos_of(v, k, 0) {
        Some(i) => Some(v[i].1),
        None => None,
    }
}

/// `k` set to `x`: in place when present, else appended.
pub open spec fn assign<V>(v: Seq<(Seq<char>, V)>, k: Seq<char>, x: V) -> Seq<(Seq<char>, V)> {
    match pos_of(v, k, 0) {
        Some(i) => v.update(i, (k, x)),
        None => v.push((k, x)),
    }
}

/// `k` dropped, if present.
pub open spec fn unassign<V>(v: Seq<(Seq<char>, V)>, k: Seq<char>) -> Seq<(Seq<char>, V)> {
    match pos_of(v, k, 0) {
        Some(i) => v.remove(i),
        None => v,
    }
}

/// Setting and dropping keep keys distinct.
pub proof fn lemma_assign_unassign_distinct<V>(v: Seq<(Seq<char>, V)>, k: Seq<char>, x: V)
    requires
        keys_distinct(v),
    ensures
        keys_distinct(assign(v, k, x)),
        keys_distinct(unassign(v, k)),
        forall|t: int| 0 <= t < unassign(v, k).len() ==> (#[trigger] unassign(v, k)[t]).0 != k,
{
    lemma_pos_of(v, k, 0);
    match pos_of(v, k, 0) {
        Some(i) => {
            let u = v.update(i, (k, x));
            assert forall|a: int, b: int| 0 <= a < b < u.len() implies (#[trigger] u[a]).0 != (#[trigger] u[b]).0 by {
                if a == i {
                    assert(v[i].0 != v[b].0);
                } else if b == i {
                    assert(v[a].0 != v[i].0);
                } else {
                    assert(v[a].0 != v[b].0);
                }
            }
            let r = v.remove(i);
            assert forall|a: int, b: int| 0 <= a < b < r.len() implies (#[trigger] r[a]).0 != (#[trigger] r[b]).0 by {
                let a2 = if a < i { a } else { a + 1 };
                let b2 = if b < i { b } else { b + 1 };
                assert(r[a] == v[a2] && r[b] == v[b2]);
                assert(v[a2].0 != v[b2].0);
            }
            assert forall|t: int| 0 <= t < r.len() implies (#[trigger] r[t]).0 != k by {
                let t2 = if t < i { t } else { t + 1 };
                assert(r[t] == v[t2]);
                if t2 < i {
                    assert(v[t2].0 != v[i].0);
                } else {
                    assert(v[i].0 != v[t2].0);
                }
            }
        },
        None => {
            let u = v.push((k, x));
            assert forall|a: int, b: int| 0 <= a < b < u.len() implies (#[trigger] u[a]).0 != (#[trigger] u[b]).0 by {
                if b == v.len() {
                    assert(u[a] == v[a]);
                } else {
                    assert(v[a].0 != v[b].0);
                }
            }
        },
    }
}

/// Total size of the cached stages.
pub open spec fn total_bytes(c: Seq<CachedV>) -> nat
    decreases c.len(),
{
    if c.len() == 0 {
        0
    } else {
        total_bytes(c.drop_last()) + c.last().1.0 as nat
    }
}

/// Dropping a stage takes its size off the total.
pub proof fn lemma_total_remove(c: Seq<CachedV>, i: int)
    requires
        0 <= i < c.len(),
    ensures
        total_bytes(c.remove(i)) + c[i].1.0 == total_bytes(c),
    decreases c.len(),
{
    if i == c.len() - 1 {
        assert(c.remove(i) =~= c.drop_last());
    } else {
        assert(c.remove(i).drop_last() =~= c.drop_last().remove(i));
        lemma_total_remove(c.drop_last(), i);
    }
}


/// Eviction from index `i` on: while the stages take more than `limit`
/// bytes, the least recently used one other than `keep` leaves RAM. Gives
/// the stages left, the bytes they take, and the evicted stages that changed
/// since they were last written, with their versions, in eviction order.
pub open spec fn evict_from(c: Seq<CachedV>, ram: nat, limit: u64, keep: Seq<char>, i: int) -> (
    Seq<CachedV>,
    nat,
    Seq<(Seq<char>, u64)>,
)
    decreases c.len() - i,
{
    if i < 0 || ram <= limit || i >= c.len() {
        (c, ram, Seq::empty())
    } else if c[i].0 == keep {
        evict_from(c, ram, limit, keep, i + 1)
    } else {
        let t = evict_from(c.remove(i), (ram - c[i].1.0) as nat, limit, keep, i);
        (t.0, t.1, if c[i].1.1 {
            seq![(c[i].0, c[i].1.2)] + t.2
        } else {
            t.2
        })
    }
}

/// What eviction keeps: the byte count stays exact, names stay distinct,
/// the stages before `i` stay, and if the stages still take more than the
/// limit, every one from `i` on is `keep`. Every stage left was there before;
/// `keep` is never evicted; and every evicted stage that changed since it
/// was last written is handed back with its version.
pub proof fn lemma_evict(c: Seq<CachedV>, ram: nat, limit: u64, keep: Seq<char>, i: int)
    requires
        0 <= i <= c.len(),
        ram == total_bytes(c),
        keys_distinct(c),
    ensures
        ({
            let t = evict_from(c, ram, limit, keep, i);
            &&& t.1 == total_bytes(t.0)
            &&& keys_distinct(t.0)
            &&& t.0.take(i) == c.take(i)
            &&& i <= t.0.len()
            &&& t.1 > limit ==> forall|j: int| i <= j < t.0.len() ==> (#[trigger] t.0[j]).0 == keep
            &&& forall|x: CachedV| #[trigger] t.0.contains(x) ==> c.contains(x)
            &&& forall|j: int| 0 <= j < c.len() && c[j].0 == keep ==> t.0.contains(c[j])
            &&& forall|j: int|
                0 <= j < c.len() && c[j].1.1 && !t.0.contains(c[j]) ==> #[trigger] t.2.contains(
                    (c[j].0, c[j].1.2),
                )
        }),
    decreases c.len() - i,
{
    let t = evict_from(c, ram, limit, keep, i);
    if ram <= limit || i >= c.len() {
        assert forall|j: int| 0 <= j < c.len() && c[j].0 == keep implies t.0.contains(c[j]) by {
            assert(t.0[j] == c[j]);
        }
    } else if c[i].0 == keep {
        lemma_evict(c, ram, limit, keep, i + 1);
        assert(t.0.take(i + 1)[i] == c[i]);
        assert(t.0.take(i) =~= t.0.take(i + 1).take(i));
        assert(c.take(i) =~= c.take(i + 1).take(i));
    } else {
        let r = c.remove(i);
        lemma_total_remove(c, i);
        lemma_assign_unassign_distinct(c, c[i].0, c[i].1);
        lemma_pos_of_unique(c, c[i].0, i);
        assert(unassign(c, c[i].0) == r);
        lemma_evict(r, (ram - c[i].1.0) as nat, limit, keep, i);
        let t2 = evict_from(r, (ram - c[i].1.0) as nat, limit, keep, i);
        assert(t.0 == t2.0);
        assert(r.take(i) =~= c.take(i));
        assert forall|x: CachedV| #[trigger] t.0.contains(x) implies c.contains(x) by {
            assert(r.contains(x));
            let k = choose|k: int| 0 <= k < r.len() && r[k] == x;
            if k < i {
                assert(c[k] == x);
            } else {
                assert(c[k + 1] == x);
            }
        }
        assert forall|j: int| 0 <= j < c.len() && c[j].0 == keep implies t.0.contains(c[j]) by {
            assert(j != i);
            if j < i {
                assert(r[j] == c[j]);
            } else {
                assert(r[j - 1] == c[j]);
            }
        }
        assert forall|j: int| 0 <= j < c.len() && c[j].1.1 && !t.0.contains(c[j]) implies #[trigger] t.2.contains(
            (c[j].0, c[j].1.2),
        ) by {
            if j == i {
                assert(t.2[0] == (c[i].0, c[i].1.2));
            } else {
                let j2 = if j < i { j } else { j - 1 };
                assert(r[j2] == c[j]);
                assert(t2.2.contains((c[j].0, c[j].1.2)));
                if c[i].1.1 {
                    let k = choose|k: int| 0 <= k < t2.2.len() && t2.2[k] == (c[j].0, c[j].1.2);
                    assert(t.2[k + 1] == t2.2[k]);
                }
            }
        }
    }
}


/// A list of `(name, number)` pairs as plain values.
pub open spec fn pairs_view(v: Seq<(String, u64)>) -> Seq<(Seq<char>, u64)> {
    v.map_values(|p: (String, u64)| (p.0@, p.1))
}

/// The index of `k` in a list of pairs.
fn pair_pos(v: &Vec<(String, u64)>, k: &str) -> (r: Option<usize>)
    ensures
        r matches Some(i) ==> i < v@.len() && v@[i as int].0@ == k@,
        match r {
            Some(i) => pos_of(pairs_view(v@), k@, 0) == Some(i as int),
            None => pos_of(pairs_view(v@), k@, 0) is None,
        },
{
    let ghost pv = pairs_view(v@);
    let mut i: usize = 0;
    while i < v.len()
        invariant
            i <= v@.len(),
            pv == pairs_view(v@),
            pos_of(pv, k@, 0) == pos_of(pv, k@, i as int),
        decreases v@.len() - i,
    {
        assert(pv[i as int].0 == v@[i as int].0@);
        if crate::text::str_eq(v[i].0.as_str(), k) {
            return Some(i);
        }
        i = i + 1;
    }
    None
}

/// The number paired with `k`, if any.
fn pair_get(v: &Vec<(String, u64)>, k: &str) -> (r: Option<u64>)
    ensures
        r == lookup(pairs_view(v@), k@),
{
    match pair_pos(v, k) {
        Some(i) => Some(v[i].1),
        None => None,
    }
}

/// Pairs `k` with `x`, in place or at the end.
fn pair_set(v: &mut Vec<(String, u64)>, k: &str, x: u64)
    ensures
        pairs_view(final(v)@) == assign(pairs_view(old(v)@), k@, x),
{
    match pair_pos(v, k) {
        Some(i) => {
            v.set(i, (k.to_owned(), x));
            assert(pairs_view(v@) =~= assign(pairs_view(old(v)@), k@, x));
        },
        None => {
            v.push((k.to_owned(), x));
            assert(pairs_view(v@) =~= assign(pairs_view(old(v)@), k@, x));
        },
    }
}

/// Drops the pair of `k`, if any.
fn pair_remove(v: &mut Vec<(String, u64)>, k: &str)
    ensures
        pairs_view(final(v)@) == unassign(pairs_view(old(v)@), k@),
{
    match pair_pos(v, k) {
        Some(i) => {
            v.remove(i);
            assert(pairs_view(v@) =~= unassign(pairs_view(old(v)@), k@));
        },
        None => {},
    }
}

/// A stage held in RAM.
#[derive(Debug)]
struct CacheEntry {
    name: String,
    bytes: u64,
    dirty: bool,
    version: u64,
}

/// Cached stages as plain values.
spec fn cache_seq(c: Seq<CacheEntry>) -> Seq<CachedV> {
    c.map_values(|e: CacheEntry| (e.name@, (e.bytes, e.dirty, e.version)))
}

/// The index of stage `k` among the cached ones.
fn cache_pos(c: &Vec<CacheEntry>, k: &str) -> (r: Option<usize>)
    ensures
        r matches Some(i) ==> i < c@.len() && c@[i as int].name@ == k@,
        match r {
            Some(i) => pos_of(cache_seq(c@), k@, 0) == Some(i as int),
            None => pos_of(cache_seq(c@), k@, 0) is None,
        },
{
    let ghost cv = cache_seq(c@);
    let mut i: usize = 0;
    while i < c.len()
        invariant
            i <= c@.len(),
            cv == cache_seq(c@),
            pos_of(cv, k@, 0) == pos_of(cv, k@, i as int),
        decreases c@.len() - i,
    {
        assert(cv[i as int].0 == c@[i as int].name@);
        if crate::text::str_eq(c[i].name.as_str(), k) {
            return Some(i);
        }
        i = i + 1;
    }
    None
}


/// `ev`'s stages recorded as being written, with their versions, in order.
pub open spec fn record_all(w: Seq<(Seq<char>, u64)>, ev: Seq<(Seq<char>, u64)>) -> Seq<(Seq<char>, u64)>
    decreases ev.len(),
{
    if ev.len() == 0 {
        w
    } else {
        assign(record_all(w, ev.drop_last()), ev.last().0, ev.last().1)
    }
}

/// The version a stage's next store gets: one past its latest, or 1.
pub open spec fn next_version(latest: Seq<(Seq<char>, u64)>, k: Seq<char>) -> u64 {
    match lookup(latest, k) {
        Some(x) => (x + 1) as u64,
        None => 1,
    }
}

/// Stage `k` moved to the most recently used end, if it is cached.
pub open spec fn moved_back(c: Seq<CachedV>, k: Seq<char>) -> Seq<CachedV> {
    match pos_of(c, k, 0) {
        Some(i) => c.remove(i).push(c[i]),
        None => c,
    }
}

/// What the first step of getting a stage found.
#[derive(Debug, Clone, Copy, PartialEq, Eq, Structural)]
pub enum GetStep {
    /// In RAM.
    Hit,
    /// Being written: serve the copy of this version.
    Pending(u64),
    /// Being loaded elsewhere: wait for that load.
    Wait,
    /// Load it here.
    Load,
}

/// How a finished load went.
#[derive(Debug)]
pub enum LoadOutcome {
    /// Reading failed.
    Failed,
    /// A copy stored meanwhile stays; the loaded one is dropped.
    Existing,
    /// The loaded copy is in RAM; these evicted stages must be written.
    Loaded(Vec<(String, u64)>),
}

/// The changed stages, with their versions, in order.
pub open spec fn dirty_list(c: Seq<CachedV>) -> Seq<(Seq<char>, u64)> {
    c.filter(|e: CachedV| e.1.1).map_values(|e: CachedV| (e.0, e.1.2))
}

/// The stages marked unchanged.
pub open spec fn cleaned(c: Seq<CachedV>) -> Seq<CachedV> {
    c.map_values(|e: CachedV| (e.0, (e.1.0, false, e.1.2)))
}

/// Marking stages unchanged keeps their total size.
proof fn lemma_total_cleaned(c: Seq<CachedV>)
    ensures
        total_bytes(cleaned(c)) == total_bytes(c),
    decreases c.len(),
{
    if c.len() > 0 {
        assert(cleaned(c).drop_last() =~= cleaned(c.drop_last()));
        lemma_total_cleaned(c.drop_last());
    }
}

/// Whether writing `version` of stage `k` is wanted, given the versions on
/// disk: not when the disk holds that version or a newer one.
pub open spec fn write_wanted(on_disk: Seq<(Seq<char>, u64)>, k: Seq<char>, version: u64) -> bool {
    match lookup(on_disk, k) {
        Some(d) => d < version,
        None => true,
    }
}

/// The tensor store's bookkeeping (see the module docs).
pub struct StoreIndex {
    /// Least recently used first.
    cache: Vec<CacheEntry>,
    ram_used: u64,
    ram_limit: u64,
    /// Stages being written to disk, with the version being written.
    writing: Vec<(String, u64)>,
    /// Stages being loaded from disk.
    loading: Vec<(String, u64)>,
    /// The latest version of each stage.
    latest: Vec<(String, u64)>,
    /// The version of each stage on disk.
    on_disk: Vec<(String, u64)>,
}

impl StoreIndex {
    /// The stages in RAM, least recently used first.
    pub closed spec fn cached(&self) -> Seq<CachedV> {
        cache_seq(self.cache@)
    }

    /// Bytes of stages in RAM.
    pub closed spec fn ram(&self) -> nat {
        self.ram_used as nat
    }

    /// The most bytes of stages kept in RAM.
    pub closed spec fn limit(&self) -> u64 {
        self.ram_limit
    }

    /// Stages being written, with the version being written.
    pub closed spec fn writes(&self) -> Seq<(Seq<char>, u64)> {
        pairs_view(self.writing@)
    }

    /// Stages being loaded (the number is unused).
    pub closed spec fn loads(&self) -> Seq<(Seq<char>, u64)> {
        pairs_view(self.loading@)
    }

    /// The latest version of each stage that has one.
    pub closed spec fn versions(&self) -> Seq<(Seq<char>, u64)> {
        pairs_view(self.latest@)
    }

    /// The version of each stage on disk.
    pub closed spec fn disk_versions(&self) -> Seq<(Seq<char>, u64)> {
        pairs_view(self.on_disk@)
    }

    /// Names are distinct in each list, and the byte count is the total size
    /// of the stages in RAM.
    pub closed spec fn wf(&self) -> bool {
        &&& keys_distinct(self.cached())
        &&& self.ram() == total_bytes(self.cached())
        &&& keys_distinct(self.writes())
        &&& keys_distinct(self.loads())
        &&& keys_distinct(self.versions())
        &&& keys_distinct(self.disk_versions())
    }

    /// An empty index keeping at most `ram_limit` bytes in RAM.
    pub fn new(ram_limit: u64) -> (r: Self)
        ensures
            r.wf(),
            r.cached() == Seq::<CachedV>::empty(),
            r.ram() == 0,
            r.limit() == ram_limit,
            r.writes() == Seq::<(Seq<char>, u64)>::empty(),
            r.loads() == Seq::<(Seq<char>, u64)>::empty(),
            r.versions() == Seq::<(Seq<char>, u64)>::empty(),
            r.disk_versions() == Seq::<(Seq<char>, u64)>::empty(),
    {
        let r = StoreIndex {
            cache: Vec::new(),
            ram_used: 0,
            ram_limit,
            writing: Vec::new(),
            loading: Vec::new(),
            latest: Vec::new(),
            on_disk: Vec::new(),
        };
        assert(r.cached() =~= Seq::<CachedV>::empty());
        assert(r.writes() =~= Seq::<(Seq<char>, u64)>::empty());
        assert(r.loads() =~= Seq::<(Seq<char>, u64)>::empty());
        assert(r.versions() =~= Seq::<(Seq<char>, u64)>::empty());
        assert(r.disk_versions() =~= Seq::<(Seq<char>, u64)>::empty());
        r
    }

    /// Bytes of stages currently in RAM.
    pub fn ram_used(&self) -> (r: u64)
        requires
            self.wf(),
        ensures
            r == total_bytes(self.cached()),
    {
        self.ram_used
    }

    /// Whether the stage is in RAM or being written (the program adds
    /// whether its file exists).
    pub fn holds(&self, stage: &str) -> (r: bool)
        ensures
            r == (pos_of(self.cached(), stage@, 0) is Some || pos_of(self.writes(), stage@, 0) is Some),
    {
        cache_pos(&self.cache, stage).is_some() || pair_pos(&self.writing, stage).is_some()
    }

    /// Marks a cached stage as just used; returns whether it is cached.
    pub fn touch(&mut self, stage: &str) -> (hit: bool)
        requires
            old(self).wf(),
        ensures
            final(self).wf(),
            hit == pos_of(old(self).cached(), stage@, 0) is Some,
            final(self).cached() == moved_back(old(self).cached(), stage@),
            hit ==> final(self).cached().len() == old(self).cached().len() && final(self).cached().last().0 == stage@
                && final(self).cached().drop_last() == others(old(self).cached(), stage@),
            final(self).writes() == old(self).writes(),
            final(self).loads() == old(self).loads(),
            final(self).versions() == old(self).versions(),
            final(self).disk_versions() == old(self).disk_versions(),
            final(self).limit() == old(self).limit(),
    {
        match cache_pos(&self.cache, stage) {
            Some(i) => {
                let ghost c = self.cached();
                let e = self.cache.remove(i);
                proof {
                    lemma_total_remove(c, i as int);
                    lemma_pos_of(c, stage@, 0);
                    lemma_assign_unassign_distinct(c, stage@, c[i as int].1);
                    assert(cache_seq(self.cache@) =~= c.remove(i as int));
                }
                self.cache.push(e);
                proof {
                    let r = c.remove(i as int);
                    assert(self.cached() =~= r.push(c[i as int]));
                    assert(self.cached().drop_last() =~= r);
                    assert forall|a: int, b: int| 0 <= a < b < self.cached().len() implies (#[trigger] self.cached()[a]).0
                        != (#[trigger] self.cached()[b]).0 by {
                        if b == r.len() {
                            assert(self.cached()[a] == r[a]);
                        } else {
                            assert(r[a].0 != r[b].0);
                        }
                    }
                }
                proof {
                    law_hit_makes_most_recent(c, stage@);
                }
                true
            },
            None => false,
        }
    }

    /// Evicts least recently used stages other than `keep` while over the
    /// limit (see `evict_from`), queues the changed ones for writing and
    /// returns them.
    fn evict_over_limit(&mut self, keep: &str) -> (ev: Vec<(String, u64)>)
        requires
            old(self).wf(),
        ensures
            final(self).wf(),
            ({
                let t = evict_from(old(self).cached(), old(self).ram(), old(self).limit(), keep@, 0);
                &&& final(self).cached() == t.0
                &&& final(self).ram() == t.1
                &&& pairs_view(ev@) == t.2
                &&& final(self).writes() == record_all(old(self).writes(), t.2)
            }),
            final(self).loads() == old(self).loads(),
            final(self).versions() == old(self).versions(),
            final(self).disk_versions() == old(self).disk_versions(),
            final(self).limit() == old(self).limit(),
    {
        let ghost goal = evict_from(old(self).cached(), old(self).ram(), old(self).limit(), keep@, 0);
        let ghost w0 = old(self).writes();
        let mut ev: Vec<(String, u64)> = Vec::new();
        let mut i: usize = 0;
        assert(pairs_view(ev@) =~= Seq::<(Seq<char>, u64)>::empty());
        assert(goal.2 =~= pairs_view(ev@) + goal.2);
        while self.ram_used > self.ram_limit && i < self.cache.len()
            invariant
                self.wf(),
                i <= self.cached().len(),
                ({
                    let t = evict_from(self.cached(), self.ram(), self.limit(), keep@, i as int);
                    goal == (t.0, t.1, pairs_view(ev@) + t.2)
                }),
                self.writes() == record_all(w0, pairs_view(ev@)),
                self.loads() == old(self).loads(),
                self.versions() == old(self).versions(),
                self.disk_versions() == old(self).disk_versions(),
                self.limit() == old(self).limit(),
            decreases self.cached().len() - i,
        {
            let ghost c = self.cached();
            let ghost r = self.ram();
            let ghost evv = pairs_view(ev@);
            assert(c[i as int].0 == self.cache@[i as int].name@);
            if crate::text::str_eq(self.cache[i].name.as_str(), keep) {
                i = i + 1;
            } else {
                let e = self.cache.remove(i);
                proof {
                    lemma_total_remove(c, i as int);
                    lemma_pos_of_unique(c, c[i as int].0, i as int);
                    lemma_assign_unassign_distinct(c, c[i as int].0, c[i as int].1);
                    assert(self.cached() =~= c.remove(i as int));
                }
                self.ram_used = self.ram_used - e.bytes;
                if e.dirty {
                    proof {
                        lemma_assign_unassign_distinct(self.writes(), e.name@, e.version);
                    }
                    pair_set(&mut self.writing, e.name.as_str(), e.version);
                    ev.push((e.name, e.version));
                    proof {
                        assert(pairs_view(ev@) =~= evv.push((c[i as int].0, c[i as int].1.2)));
                        assert(pairs_view(ev@).drop_last() =~= evv);
                        let t = evict_from(self.cached(), self.ram(), self.limit(), keep@, i as int);
                        assert(pairs_view(ev@) + t.2 =~= evv + (seq![(c[i as int].0, c[i as int].1.2)] + t.2));
                    }
                } else {
                    proof {
                        let t = evict_from(self.cached(), self.ram(), self.limit(), keep@, i as int);
                        assert(pairs_view(ev@) + t.2 =~= evv + t.2);
                    }
                }
            }
        }
        assert(pairs_view(ev@) + Seq::<(Seq<char>, u64)>::empty() =~= pairs_view(ev@));
        ev
    }

    /// Stores (or replaces) `stage`, of `bytes` bytes, as changed, with a
    /// version one past its latest; then evicts while over the limit, never
    /// `stage` itself. Returns the evicted stages that must be written, with
    /// their versions (also recorded as being written).
    pub fn put(&mut self, stage: &str, bytes: u64) -> (ev: Vec<(String, u64)>)
        requires
            old(self).wf(),
            total_bytes(old(self).cached()) + bytes <= u64::MAX,
            lookup(old(self).versions(), stage@) matches Some(v) ==> v < u64::MAX,
        ensures
            final(self).wf(),
            ({
                let v = next_version(old(self).versions(), stage@);
                let c1 = unassign(old(self).cached(), stage@).push((stage@, (bytes, true, v)));
                let t = evict_from(c1, total_bytes(c1), old(self).limit(), stage@, 0);
                &&& final(self).versions() == assign(old(self).versions(), stage@, v)
                &&& final(self).cached() == t.0
                &&& pairs_view(ev@) == t.2
                &&& final(self).writes() == record_all(old(self).writes(), t.2)
            }),
            final(self).loads() == old(self).loads(),
            final(self).disk_versions() == old(self).disk_versions(),
            final(self).limit() == old(self).limit(),
    {
        let v = match pair_get(&self.latest, stage) {
            Some(x) => x + 1,
            None => 1,
        };
        proof {
            lemma_assign_unassign_distinct(self.versions(), stage@, v);
        }
        pair_set(&mut self.latest, stage, v);
        let ghost c0 = self.cached();
        proof {
            lemma_assign_unassign_distinct(c0, stage@, (bytes, true, v));
            lemma_pos_of(c0, stage@, 0);
        }
        match cache_pos(&self.cache, stage) {
            Some(i) => {
                let e = self.cache.remove(i);
                proof {
                    lemma_total_remove(c0, i as int);
                    assert(self.cached() =~= c0.remove(i as int));
                }
                self.ram_used = self.ram_used - e.bytes;
            },
            None => {},
        }
        let ghost c_mid = self.cached();
        assert(c_mid == unassign(c0, stage@));
        self.cache.push(CacheEntry { name: stage.to_owned(), bytes, dirty: true, version: v });
        self.ram_used = self.ram_used + bytes;
        proof {
            let c1 = c_mid.push((stage@, (bytes, true, v)));
            assert(self.cached() =~= c1);
            assert(c1.drop_last() =~= c_mid);
            assert forall|a: int, b: int| 0 <= a < b < c1.len() implies (#[trigger] c1[a]).0 != (#[trigger] c1[b]).0 by {
                if b == c_mid.len() {
                    assert(c1[a] == c_mid[a]);
                } else {
                    assert(c_mid[a].0 != c_mid[b].0);
                }
            }
        }
        self.evict_over_limit(stage)
    }

    /// The first step of getting `stage`: it is in RAM (now most recently
    /// used), or being written (serve that version), or being loaded by
    /// someone else (wait for it), or it must be loaded here (now recorded as
    /// loading).
    pub fn begin_get(&mut self, stage: &str) -> (r: GetStep)
        requires
            old(self).wf(),
        ensures
            final(self).wf(),
            final(self).limit() == old(self).limit(),
            final(self).writes() == old(self).writes(),
            final(self).versions() == old(self).versions(),
            final(self).disk_versions() == old(self).disk_versions(),
            final(self).cached() == moved_back(old(self).cached(), stage@),
            pos_of(old(self).cached(), stage@, 0) is Some ==> r is Hit && final(self).loads() == old(self).loads(),
            pos_of(old(self).cached(), stage@, 0) is None ==> match lookup(old(self).writes(), stage@) {
                Some(v) => r == GetStep::Pending(v) && final(self).loads() == old(self).loads(),
                None => if pos_of(old(self).loads(), stage@, 0) is Some {
                    r is Wait && final(self).loads() == old(self).loads()
                } else {
                    r is Load && final(self).loads() == assign(old(self).loads(), stage@, 0)
                },
            },
    {
        if self.touch(stage) {
            return GetStep::Hit;
        }
        assert(moved_back(old(self).cached(), stage@) == old(self).cached());
        match pair_get(&self.writing, stage) {
            Some(v) => GetStep::Pending(v),
            None => {
                if pair_pos(&self.loading, stage).is_some() {
                    GetStep::Wait
                } else {
                    proof {
                        lemma_assign_unassign_distinct(self.loads(), stage@, 0);
                    }
                    pair_set(&mut self.loading, stage, 0);
                    GetStep::Load
                }
            },
        }
    }

    /// Whether to start loading `stage` ahead of need: not when it is in RAM,
    /// being written or loaded, or has no file (`file_exists`); when it is
    /// started, the stage is recorded as loading.
    pub fn begin_prefetch(&mut self, stage: &str, file_exists: bool) -> (start: bool)
        requires
            old(self).wf(),
        ensures
            final(self).wf(),
            start == (pos_of(old(self).cached(), stage@, 0) is None && pos_of(old(self).writes(), stage@, 0) is None
                && pos_of(old(self).loads(), stage@, 0) is None && file_exists),
            final(self).loads() == (if start {
                assign(old(self).loads(), stage@, 0)
            } else {
                old(self).loads()
            }),
            final(self).cached() == old(self).cached(),
            final(self).writes() == old(self).writes(),
            final(self).versions() == old(self).versions(),
            final(self).disk_versions() == old(self).disk_versions(),
            final(self).limit() == old(self).limit(),
    {
        if cache_pos(&self.cache, stage).is_some() || pair_pos(&self.writing, stage).is_some() || pair_pos(
            &self.loading,
            stage,
        ).is_some() || !file_exists {
            return false;
        }
        proof {
            lemma_assign_unassign_distinct(self.loads(), stage@, 0);
        }
        pair_set(&mut self.loading, stage, 0);
        true
    }

    /// Records the end of a load of `stage` (`bytes`: the size of what was
    /// read, or `None` when reading failed): it is no longer loading; if a
    /// newer copy was stored meanwhile that one stays (now most recently
    /// used); otherwise the loaded copy enters RAM unchanged, with the version
    /// on disk (0 if none is recorded), and eviction follows, never of
    /// `stage`.
    pub fn finish_load(&mut self, stage: &str, bytes: Option<u64>) -> (r: LoadOutcome)
        requires
            old(self).wf(),
            bytes is Some ==> total_bytes(old(self).cached()) + bytes->0 <= u64::MAX,
        ensures
            final(self).wf(),
            final(self).loads() == unassign(old(self).loads(), stage@),
            final(self).versions() == old(self).versions(),
            final(self).disk_versions() == old(self).disk_versions(),
            final(self).limit() == old(self).limit(),
            bytes is None ==> r is Failed && final(self).cached() == old(self).cached() && final(self).writes()
                == old(self).writes(),
            bytes is Some && pos_of(old(self).cached(), stage@, 0) is Some ==> r is Existing && final(self).cached()
                == moved_back(old(self).cached(), stage@) && final(self).writes() == old(self).writes(),
            bytes is Some && pos_of(old(self).cached(), stage@, 0) is None ==> ({
                let b = bytes->0;
                let v = match lookup(old(self).disk_versions(), stage@) {
                    Some(d) => d,
                    None => 0,
                };
                let c1 = old(self).cached().push((stage@, (b, false, v)));
                let t = evict_from(c1, total_bytes(c1), old(self).limit(), stage@, 0);
                &&& r matches LoadOutcome::Loaded(ev) && pairs_view(ev@) == t.2
                &&& final(self).cached() == t.0
                &&& final(self).writes() == record_all(old(self).writes(), t.2)
            }),
    {
        proof {
            lemma_assign_unassign_distinct(self.loads(), stage@, 0);
        }
        pair_remove(&mut self.loading, stage);
        let b = match bytes {
            None => return LoadOutcome::Failed,
            Some(b) => b,
        };
        if self.touch(stage) {
            return LoadOutcome::Existing;
        }
        let v = match pair_get(&self.on_disk, stage) {
            Some(d) => d,
            None => 0,
        };
        let ghost c0 = self.cached();
        proof {
            lemma_pos_of(c0, stage@, 0);
        }
        self.cache.push(CacheEntry { name: stage.to_owned(), bytes: b, dirty: false, version: v });
        self.ram_used = self.ram_used + b;
        proof {
            let c1 = c0.push((stage@, (b, false, v)));
            assert(self.cached() =~= c1);
            assert(c1.drop_last() =~= c0);
            assert forall|a: int, j: int| 0 <= a < j < c1.len() implies (#[trigger] c1[a]).0 != (#[trigger] c1[j]).0 by {
                if j == c0.len() {
                    assert(c1[a] == c0[a]);
                } else {
                    assert(c0[a].0 != c0[j].0);
                }
            }
        }
        let ev = self.evict_over_limit(stage);
        LoadOutcome::Loaded(ev)
    }

    /// Drops `stage` from RAM and forgets its file's version; its latest
    /// version moves on, so no older copy still in flight counts as current.
    pub fn remove(&mut self, stage: &str)
        requires
            old(self).wf(),
            lookup(old(self).versions(), stage@) matches Some(v) ==> v < u64::MAX,
        ensures
            final(self).wf(),
            final(self).cached() == unassign(old(self).cached(), stage@),
            final(self).disk_versions() == unassign(old(self).disk_versions(), stage@),
            final(self).versions() == assign(old(self).versions(), stage@, next_version(old(self).versions(), stage@)),
            final(self).writes() == old(self).writes(),
            final(self).loads() == old(self).loads(),
            final(self).limit() == old(self).limit(),
    {
        let ghost c0 = self.cached();
        proof {
            lemma_assign_unassign_distinct(c0, stage@, (0, false, 0));
        }
        match cache_pos(&self.cache, stage) {
            Some(i) => {
                let e = self.cache.remove(i);
                proof {
                    lemma_total_remove(c0, i as int);
                    assert(self.cached() =~= c0.remove(i as int));
                }
                self.ram_used = self.ram_used - e.bytes;
            },
            None => {},
        }
        proof {
            lemma_assign_unassign_distinct(self.disk_versions(), stage@, 0);
        }
        pair_remove(&mut self.on_disk, stage);
        let v = match pair_get(&self.latest, stage) {
            Some(x) => x + 1,
            None => 1,
        };
        proof {
            lemma_assign_unassign_distinct(self.versions(), stage@, v);
        }
        pair_set(&mut self.latest, stage, v);
    }

    /// Marks every changed stage unchanged and queues it for writing;
    /// returns them with their versions, least recently used first.
    pub fn take_dirty(&mut self) -> (ev: Vec<(String, u64)>)
        requires
            old(self).wf(),
        ensures
            final(self).wf(),
            pairs_view(ev@) == dirty_list(old(self).cached()),
            final(self).cached() == cleaned(old(self).cached()),
            final(self).writes() == record_all(old(self).writes(), dirty_list(old(self).cached())),
            final(self).loads() == old(self).loads(),
            final(self).versions() == old(self).versions(),
            final(self).disk_versions() == old(self).disk_versions(),
            final(self).limit() == old(self).limit(),
    {
        let ghost c0 = self.cached();
        let ghost w0 = self.writes();
        let mut ev: Vec<(String, u64)> = Vec::new();
        let mut i: usize = 0;
        assert(dirty_list(c0.take(0)) =~= Seq::<(Seq<char>, u64)>::empty()) by {
            reveal(Seq::filter);
        }
        assert(pairs_view(ev@) =~= Seq::<(Seq<char>, u64)>::empty());
        while i < self.cache.len()
            invariant
                i <= self.cache@.len() == c0.len(),
                self.cached() == cleaned(c0.take(i as int)) + c0.skip(i as int),
                pairs_view(ev@) == dirty_list(c0.take(i as int)),
                self.writes() == record_all(w0, pairs_view(ev@)),
                keys_distinct(self.writes()),
                self.ram_used == old(self).ram_used,
                self.loads() == old(self).loads(),
                self.versions() == old(self).versions(),
                self.disk_versions() == old(self).disk_versions(),
                self.limit() == old(self).limit(),
            decreases self.cache@.len() - i,
        {
            let ghost before = pairs_view(ev@);
            let ghost cur = self.cached();
            assert(cur[i as int] == c0[i as int]);
            assert(c0.take(i + 1).drop_last() =~= c0.take(i as int));
            assert(c0.take(i + 1).last() == c0[i as int]);
            if self.cache[i].dirty {
                let name = self.cache[i].name.clone();
                let version = self.cache[i].version;
                proof {
                    lemma_assign_unassign_distinct(self.writes(), name@, version);
                }
                pair_set(&mut self.writing, name.as_str(), version);
                ev.push((name, version));
                let e = CacheEntry { name: self.cache[i].name.clone(), bytes: self.cache[i].bytes, dirty: false, version };
                self.cache.set(i, e);
                proof {
                    reveal(Seq::filter);
                    assert(dirty_list(c0.take(i + 1)) =~= dirty_list(c0.take(i as int)).push((c0[i as int].0, c0[i as int].1.2)));
                    assert(pairs_view(ev@) =~= before.push((c0[i as int].0, c0[i as int].1.2)));
                    assert(pairs_view(ev@).drop_last() =~= before);
                }
            } else {
                proof {
                    reveal(Seq::filter);
                    assert(dirty_list(c0.take(i + 1)) =~= dirty_list(c0.take(i as int)));
                }
            }
            proof {
                let k = i as int;
                let cl = (c0[k].0, (c0[k].1.0, false, c0[k].1.2));
                assert(self.cached() =~= cur.update(k, cl));
                let goal = cleaned(c0.take(k + 1)) + c0.skip(k + 1);
                assert forall|j: int| 0 <= j < goal.len() implies #[trigger] goal[j] == cur.update(k, cl)[j] by {
                    if j < k {
                        assert(cur[j] == cleaned(c0.take(k))[j]);
                    } else if j > k {
                        assert(cur[j] == c0.skip(k)[j - k]);
                    }
                }
                assert(goal =~= cur.update(k, cl));
            }
            i = i + 1;
        }
        proof {
            assert(c0.take(i as int) =~= c0);
            assert(c0.skip(i as int) =~= Seq::<CachedV>::empty());
            assert(self.cached() =~= cleaned(c0));
            assert forall|a: int, b: int| 0 <= a < b < self.cached().len() implies (#[trigger] self.cached()[a]).0
                != (#[trigger] self.cached()[b]).0 by {
                assert(self.cached()[a].0 == c0[a].0 && self.cached()[b].0 == c0[b].0);
            }
            lemma_total_cleaned(c0);
        }
        ev
    }

    /// Whether a write of `stage` at `version` is still wanted: not when the
    /// disk already holds that version or a newer one.
    pub fn should_write(&self, stage: &str, version: u64) -> (r: bool)
        ensures
            r == write_wanted(self.disk_versions(), stage@, version),
    {
        match pair_get(&self.on_disk, stage) {
            Some(d) => d < version,
            None => true,
        }
    }

    /// Records that the disk now holds `version` of `stage`.
    pub fn wrote(&mut self, stage: &str, version: u64)
        requires
            old(self).wf(),
        ensures
            final(self).wf(),
            final(self).disk_versions() == assign(old(self).disk_versions(), stage@, version),
            final(self).cached() == old(self).cached(),
            final(self).writes() == old(self).writes(),
            final(self).loads() == old(self).loads(),
            final(self).versions() == old(self).versions(),
            final(self).limit() == old(self).limit(),
    {
        proof {
            lemma_assign_unassign_distinct(self.disk_versions(), stage@, version);
        }
        pair_set(&mut self.on_disk, stage, version);
    }

    /// Records that the write of `stage` at `version` is over: it is no
    /// longer pending, unless a newer version's write took its place.
    pub fn write_done(&mut self, stage: &str, version: u64)
        requires
            old(self).wf(),
        ensures
            final(self).wf(),
            final(self).writes() == (if lookup(old(self).writes(), stage@) == Some(version) {
                unassign(old(self).writes(), stage@)
            } else {
                old(self).writes()
            }),
            final(self).cached() == old(self).cached(),
            final(self).loads() == old(self).loads(),
            final(self).versions() == old(self).versions(),
            final(self).disk_versions() == old(self).disk_versions(),
            final(self).limit() == old(self).limit(),
    {
        if pair_get(&self.writing, stage) == Some(version) {
            proof {
                lemma_assign_unassign_distinct(self.writes(), stage@, version);
            }
            pair_remove(&mut self.writing, stage);
        }
    }

    /// Whether some write is still pending.
    pub fn writes_pending(&self) -> (r: bool)
        ensures
            r == (self.writes().len() > 0),
    {
        self.writing.len() > 0
    }
}


/// Looking up a key just set gives the value it was set to.
pub proof fn lemma_lookup_assign<V>(v: Seq<(Seq<char>, V)>, k: Seq<char>, x: V)
    requires
        keys_distinct(v),
    ensures
        lookup(assign(v, k, x), k) == Some(x),
{
    lemma_pos_of(v, k, 0);
    lemma_assign_unassign_distinct(v, k, x);
    let a = assign(v, k, x);
    match pos_of(v, k, 0) {
        Some(i) => {
            lemma_pos_of_unique(a, k, i);
        },
        None => {
            lemma_pos_of_unique(a, k, v.len() as int);
        },
    }
}

/// Eviction leaves the stages in RAM within the limit, or only the stage it
/// must keep: while they still take more than the limit, at most one stage
/// is left, and it is `keep`. The byte count stays the total of what is left.
pub proof fn law_eviction_fits_or_keeps_one(c: Seq<CachedV>, limit: u64, keep: Seq<char>)
    requires
        keys_distinct(c),
    ensures
        ({
            let t = evict_from(c, total_bytes(c), limit, keep, 0);
            &&& t.1 == total_bytes(t.0)
            &&& t.1 > limit ==> t.0.len() <= 1 && forall|j: int| 0 <= j < t.0.len() ==> (#[trigger] t.0[j]).0 == keep
        }),
{
    lemma_evict(c, total_bytes(c), limit, keep, 0);
    let t = evict_from(c, total_bytes(c), limit, keep, 0);
    if t.1 > limit && t.0.len() > 1 {
        assert(t.0[0].0 == keep);
        assert(t.0[1].0 == keep);
    }
}

/// After a store of `stage`: its new copy is in RAM, marked changed, with a
/// version newer than any it had; the stages in RAM fit in the limit unless
/// the new copy is alone there; and every other changed stage that left RAM
/// is handed back to be written, with its version.
pub proof fn law_put_keeps_the_new_copy(s: StoreIndex, stage: Seq<char>, bytes: u64)
    requires
        s.wf(),
        lookup(s.versions(), stage) matches Some(x) ==> x < u64::MAX,
    ensures
        ({
            let v = next_version(s.versions(), stage);
            let c1 = unassign(s.cached(), stage).push((stage, (bytes, true, v)));
            let t = evict_from(c1, total_bytes(c1), s.limit(), stage, 0);
            &&& lookup(t.0, stage) == Some((bytes, true, v))
            &&& lookup(assign(s.versions(), stage, v), stage) == Some(v)
            &&& (lookup(s.versions(), stage) matches Some(x) ==> x < v)
            &&& (total_bytes(t.0) <= s.limit() || t.0 == seq![(stage, (bytes, true, v))])
            &&& forall|j: int|
                0 <= j < s.cached().len() && s.cached()[j].0 != stage && s.cached()[j].1.1 && !t.0.contains(
                    s.cached()[j],
                ) ==> #[trigger] t.2.contains((s.cached()[j].0, s.cached()[j].1.2))
        }),
{
    let c = s.cached();
    let v = next_version(s.versions(), stage);
    let new = (stage, (bytes, true, v));
    let u = unassign(c, stage);
    let c1 = u.push(new);
    lemma_assign_unassign_distinct(c, stage, (bytes, true, v));
    lemma_pos_of(c, stage, 0);
    assert forall|a: int, b: int| 0 <= a < b < c1.len() implies (#[trigger] c1[a]).0 != (#[trigger] c1[b]).0 by {
        if b == u.len() {
            assert(c1[a] == u[a]);
        } else {
            assert(u[a].0 != u[b].0);
        }
    }
    lemma_evict(c1, total_bytes(c1), s.limit(), stage, 0);
    law_eviction_fits_or_keeps_one(c1, s.limit(), stage);
    lemma_lookup_assign(s.versions(), stage, v);
    let t = evict_from(c1, total_bytes(c1), s.limit(), stage, 0);
    assert(c1[u.len() as int] == new);
    assert(t.0.contains(new));
    let k = choose|k: int| 0 <= k < t.0.len() && t.0[k] == new;
    lemma_pos_of_unique(t.0, stage, k);
    if total_bytes(t.0) > s.limit() {
        assert(t.0 =~= seq![new]);
    }
    assert forall|j: int|
        0 <= j < c.len() && c[j].0 != stage && c[j].1.1 && !t.0.contains(c[j]) implies #[trigger] t.2.contains(
        (c[j].0, c[j].1.2),
    ) by {
        match pos_of(c, stage, 0) {
            Some(i) => {
                let j2 = if j < i { j } else { j - 1 };
                assert(j != i);
                assert(c1[j2] == c[j]);
            },
            None => {
                assert(c1[j] == c[j]);
            },
        }
    }
}

/// Only one load of a stage runs at a time: once a get has started loading
/// a stage that is neither in RAM nor being written, a second get of it
/// waits for that load.
pub proof fn law_second_get_waits(s: StoreIndex, stage: Seq<char>)
    requires
        s.wf(),
        pos_of(s.cached(), stage, 0) is None,
        lookup(s.writes(), stage) is None,
        pos_of(s.loads(), stage, 0) is None,
    ensures
        pos_of(assign(s.loads(), stage, 0), stage, 0) is Some,
{
    lemma_lookup_assign(s.loads(), stage, 0);
}

/// Once the disk holds `version` of a stage, a write of that version or an
/// older one is not wanted, and a write of a newer one is.
pub proof fn law_older_writes_refused(
    on_disk: Seq<(Seq<char>, u64)>,
    stage: Seq<char>,
    version: u64,
    other: u64,
)
    requires
        keys_distinct(on_disk),
    ensures
        write_wanted(assign(on_disk, stage, version), stage, other) == (version < other),
{
    lemma_lookup_assign(on_disk, stage, version);
}

/// After a flush, no stage in RAM is marked changed, and every stage that was
/// changed is handed back to be written, with its version.
pub proof fn law_flush_leaves_nothing_changed(c: Seq<CachedV>)
    ensures
        dirty_list(cleaned(c)).len() == 0,
        forall|j: int| 0 <= j < c.len() && c[j].1.1 ==> #[trigger] dirty_list(c).contains((c[j].0, c[j].1.2)),
{
    let pred = |e: CachedV| e.1.1;
    let f = |e: CachedV| (e.0, e.1.2);
    cleaned(c).lemma_all_neg_filter_empty(pred);
    c.filter_lemma(pred);
    assert forall|j: int| 0 <= j < c.len() && c[j].1.1 implies #[trigger] dirty_list(c).contains((c[j].0, c[j].1.2)) by {
        let fl = c.filter(pred);
        assert(fl.contains(c[j]));
        let k = choose|k: int| 0 <= k < fl.len() && fl[k] == c[j];
        assert(dirty_list(c)[k] == f(fl[k]));
    }
}

/// Names that are not empty.
pub open spec fn nonempty_names(s: Seq<Seq<char>>) -> Seq<Seq<char>> {
    s.filter(|n: Seq<char>| n.len() > 0)
}

/// The order metadata written with a stage's tensors: their names joined
/// with commas.
pub fn order_metadata(names: &Vec<String>) -> (r: String)
    ensures
        r@ == join(strs_view(names@), ","@),
{
    join_strings(names, ",")
}

/// The names among `names` that are not empty, in order.
fn drop_empty(names: Vec<Vec<char>>) -> (r: Vec<String>)
    ensures
        strs_view(r@) == nonempty_names(names@.map_values(|p: Vec<char>| p@)),
{
    let ghost all = names@.map_values(|p: Vec<char>| p@);
    let mut r: Vec<String> = Vec::new();
    let mut i: usize = 0;
    assert(nonempty_names(all.take(0)) =~= Seq::<Seq<char>>::empty()) by {
        reveal(Seq::filter);
    }
    while i < names.len()
        invariant
            i <= names@.len(),
            all == names@.map_values(|p: Vec<char>| p@),
            strs_view(r@) == nonempty_names(all.take(i as int)),
        decreases names@.len() - i,
    {
        let ghost before = strs_view(r@);
        assert(all.take(i + 1).drop_last() =~= all.take(i as int));
        assert(all.take(i + 1).last() == names@[i as int]@);
        if names[i].len() > 0 {
            let name = crate::text::string_of(&names[i]);
            r.push(name);
            proof {
                reveal(Seq::filter);
                assert(strs_view(r@) =~= before.push(all[i as int]));
                assert(nonempty_names(all.take(i + 1)) =~= nonempty_names(all.take(i as int)).push(all[i as int]));
            }
        } else {
            proof {
                reveal(Seq::filter);
                assert(nonempty_names(all.take(i + 1)) =~= nonempty_names(all.take(i as int)));
            }
        }
        i = i + 1;
    }
    assert(all.take(i as int) =~= all);
    r
}

/// The order in which a stage file's tensors are read: the one its order
/// metadata records (split at commas) when that is present and not empty,
/// else the names in the file in ascending order; empty names are dropped.
pub fn tensor_order(order: Option<&str>, names_in_file: Vec<String>) -> (r: Vec<String>)
    ensures
        match order {
            Some(o) if o@.len() > 0 => strs_view(r@) == nonempty_names(split_char(o@, ',')),
            _ => sorted_strs(strs_view(r@)) && strs_view(r@).to_multiset() == nonempty_names(
                strs_view(names_in_file@),
            ).to_multiset(),
        },
{
    match order {
        Some(o) if o.unicode_len() > 0 => {
            let pieces = split_on_char(o, ',');
            drop_empty(pieces)
        },
        _ => {
            let mut chars: Vec<Vec<char>> = Vec::new();
            let mut i: usize = 0;
            while i < names_in_file.len()
                invariant
                    i <= names_in_file@.len(),
                    chars@.map_values(|p: Vec<char>| p@) == strs_view(names_in_file@).take(i as int),
                decreases names_in_file@.len() - i,
            {
                let c = crate::text::chars_of(names_in_file[i].as_str());
                let ghost before = chars@.map_values(|p: Vec<char>| p@);
                assert(c@ == strs_view(names_in_file@)[i as int]);
                chars.push(c);
                assert(chars@.map_values(|p: Vec<char>| p@) =~= before.push(c@));
                assert(strs_view(names_in_file@).take(i + 1) =~= strs_view(names_in_file@).take(i as int).push(c@));
                i = i + 1;
            }
            assert(strs_view(names_in_file@).take(i as int) =~= strs_view(names_in_file@));
            let kept = drop_empty(chars);
            sort_strings(kept)
        },
    }
}

/// Splitting text that ends in `b`, which holds no separator, extends the
/// last piece of the rest by `b`.
proof fn lemma_split_suffix(a: Seq<char>, b: Seq<char>, sep: char)
    requires
        forall|i: int| 0 <= i < b.len() ==> b[i] != sep,
    ensures
        ({
            let r = split_char(a, sep);
            split_char(a + b, sep) == r.update(r.len() - 1, r.last() + b)
        }),
    decreases b.len(),
{
    lemma_split_char_nonempty(a, sep);
    let r = split_char(a, sep);
    if b.len() == 0 {
        assert(a + b =~= a);
        assert(r.last() + b =~= r.last());
        assert(r.update(r.len() - 1, r.last() + b) =~= r);
    } else {
        let b0 = b.drop_last();
        lemma_split_suffix(a, b0, sep);
        assert((a + b).drop_last() =~= a + b0);
        assert((a + b).last() == b.last());
        assert((r.last() + b0).push(b.last()) =~= r.last() + b);
        let rest = r.update(r.len() - 1, r.last() + b0);
        assert(rest.update(rest.len() - 1, rest.last().push(b.last())) =~= r.update(r.len() - 1, r.last() + b));
    }
}

/// Names that hold no comma, split out of their comma-joined text, come back
/// as they were.
proof fn lemma_split_join(v: Seq<Seq<char>>)
    requires
        v.len() > 0,
        forall|k: int, i: int| 0 <= k < v.len() && 0 <= i < v[k].len() ==> #[trigger] v[k][i] != ',',
    ensures
        split_char(join(v, ","@), ',') == v,
    decreases v.len(),
{
    reveal_strlit(",");
    if v.len() == 1 {
        lemma_split_suffix(Seq::empty(), v[0], ',');
        assert(Seq::<char>::empty() + v[0] =~= v[0]);
        assert(split_char(Seq::<char>::empty(), ',') =~= seq![Seq::<char>::empty()]);
        assert(Seq::<char>::empty() + v[0] =~= v[0]);
        assert(seq![Seq::<char>::empty()].update(0, Seq::<char>::empty() + v[0]) =~= v);
    } else {
        let dl = v.drop_last();
        assert forall|k: int, i: int| 0 <= k < dl.len() && 0 <= i < dl[k].len() implies #[trigger] dl[k][i] != ',' by {
            assert(dl[k] == v[k]);
        }
        lemma_split_join(dl);
        let x = join(dl, ","@) + ","@;
        assert(x.drop_last() =~= join(dl, ","@));
        assert(x.last() == ',');
        assert(split_char(x, ',') == dl.push(Seq::empty()));
        let last = v.last();
        assert forall|i: int| 0 <= i < last.len() implies last[i] != ',' by {
            assert(last[i] == v[v.len() - 1][i]);
        }
        lemma_split_suffix(x, last, ',');
        assert(join(v, ","@) == x + last);
        assert(Seq::<char>::empty() + last =~= last);
        assert(dl.push(Seq::empty()).update(dl.len() as int, Seq::<char>::empty() + last) =~= v);
    }
}

/// Names that are all non-empty survive the dropping of empty ones.
proof fn lemma_nonempty_names_keeps(v: Seq<Seq<char>>)
    requires
        forall|k: int| 0 <= k < v.len() ==> (#[trigger] v[k]).len() > 0,
    ensures
        nonempty_names(v) == v,
    decreases v.len(),
{
    reveal(Seq::filter);
    if v.len() > 0 {
        lemma_nonempty_names_keeps(v.drop_last());
        assert(v.drop_last().push(v.last()) =~= v);
    } else {
        assert(nonempty_names(v) =~= v);
    }
}

/// A stage's tensors are read back in the order they were written: when
/// their names are not empty and hold no comma, reading the order metadata
/// written for them gives the names in their order.
pub proof fn law_tensor_order_roundtrip(names: Seq<Seq<char>>)
    requires
        names.len() > 0,
        forall|k: int| 0 <= k < names.len() ==> (#[trigger] names[k]).len() > 0,
        forall|k: int, i: int| 0 <= k < names.len() && 0 <= i < names[k].len() ==> #[trigger] names[k][i] != ',',
    ensures
        join(names, ","@).len() > 0,
        nonempty_names(split_char(join(names, ","@), ',')) == names,
{
    lemma_split_join(names);
    lemma_nonempty_names_keeps(names);
    lemma_join_nonempty(names);
}

/// Joining names of which the first is not empty gives a non-empty text.
proof fn lemma_join_nonempty(v: Seq<Seq<char>>)
    requires
        v.len() > 0,
        v[0].len() > 0,
    ensures
        join(v, ","@).len() > 0,
    decreases v.len(),
{
    if v.len() > 1 {
        lemma_join_nonempty(v.drop_last());
    }
}


/// The cached stages other than `k`, in order.
pub open spec fn others(c: Seq<CachedV>, k: Seq<char>) -> Seq<CachedV> {
    c.filter(|e: CachedV| e.0 != k)
}

/// With distinct names, dropping the entry named `k` (at `i`) is keeping the
/// entries with other names.
proof fn lemma_filter_other_names(c: Seq<CachedV>, k: Seq<char>, i: int)
    requires
        keys_distinct(c),
        0 <= i < c.len(),
        c[i].0 == k,
    ensures
        others(c, k) == c.remove(i),
    decreases c.len(),
{
    reveal(Seq::filter);
    let d = c.drop_last();
    assert(others(c, k) == if c.last().0 != k { others(d, k).push(c.last()) } else { others(d, k) });
    if i == c.len() - 1 {
        assert forall|t: int| 0 <= t < d.len() implies (#[trigger] d[t]).0 != k by {
            assert(c[t].0 != c[i].0);
        }
        lemma_others_keeps_all(d, k);
        assert(c.remove(i) =~= d);
    } else {
        assert(c.last().0 != c[i].0);
        assert forall|a: int, b: int| 0 <= a < b < d.len() implies (#[trigger] d[a]).0 != (#[trigger] d[b]).0 by {
            assert(c[a].0 != c[b].0);
        }
        lemma_filter_other_names(d, k, i);
        assert(c.remove(i) =~= d.remove(i).push(c.last()));
    }
}

/// When no entry is named `k`, keeping the others keeps them all.
proof fn lemma_others_keeps_all(s: Seq<CachedV>, k: Seq<char>)
    requires
        forall|t: int| 0 <= t < s.len() ==> (#[trigger] s[t]).0 != k,
    ensures
        others(s, k) == s,
    decreases s.len(),
{
    reveal(Seq::filter);
    if s.len() > 0 {
        let d = s.drop_last();
        assert(others(s, k) == others(d, k).push(s.last()));
        lemma_others_keeps_all(d, k);
        assert(d.push(s.last()) =~= s);
    } else {
        assert(others(s, k) =~= s);
    }
}

/// A hit makes the stage the most recently used one: the cached stages keep
/// their number, the stage hit is the last of them, and the others keep
/// their relative order before it. A stage that is not cached leaves the
/// order as it was.
pub proof fn law_hit_makes_most_recent(c: Seq<CachedV>, k: Seq<char>)
    requires
        keys_distinct(c),
    ensures
        pos_of(c, k, 0) is Some ==> {
            &&& moved_back(c, k).len() == c.len()
            &&& moved_back(c, k).last().0 == k
            &&& moved_back(c, k).drop_last() == others(c, k)
        },
        pos_of(c, k, 0) is None ==> moved_back(c, k) == c,
{
    lemma_pos_of(c, k, 0);
    if let Some(i) = pos_of(c, k, 0) {
        lemma_filter_other_names(c, k, i);
        assert(c.remove(i).push(c[i]).drop_last() =~= c.remove(i));
    }
}

} // verus!