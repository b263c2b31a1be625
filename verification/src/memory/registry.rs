//! Tracks which device each model layer is on and its byte size, in
//! least-recently-used order for eviction.

use vstd::prelude::*;
use crate::text::{owned, str_eq};

verus! {

/// Where a layer's weights currently live.
#[derive(Debug, Clone)]
pub enum LayerLocation {
    Vram,
    Ram,
    Disk { path: String },
}

/// Per-layer metadata: name, location and byte size.
#[derive(Debug)]
struct LayerEntry {
    name: String,
    location: LayerLocation,
    bytes: u64,
}

/// The storage tiers a layer can be in.
pub enum Tier {
    Vram,
    Ram,
    Disk,
}

pub open spec fn tier_of(loc: LayerLocation) -> Tier {
    match loc {
        LayerLocation::Vram => Tier::Vram,
        LayerLocation::Ram => Tier::Ram,
        LayerLocation::Disk { .. } => Tier::Disk,
    }
}

/// One layer as seen from outside: `(name, location, bytes)`.
pub type LayerView = (Seq<char>, LayerLocation, u64);

/// The bytes a layer contributes to tier `t`.
pub open spec fn tier_share(e: LayerView, t: Tier) -> nat {
    if tier_of(e.1) == t { e.2 as nat } else { 0 }
}

/// Total size of the layers in tier `t`.
pub open spec fn tier_bytes(v: Seq<LayerView>, t: Tier) -> nat
    decreases v.len(),
{
    if v.len() == 0 {
        0
    } else {
        tier_bytes(v.drop_last(), t) + tier_share(v.last(), t)
    }
}

/// Index of the layer named `name`, if any.
pub open spec fn find(v: Seq<LayerView>, name: Seq<char>) -> Option<int> {
    if exists|i: int| 0 <= i < v.len() && (#[trigger] v[i]).0 == name {
        Some(choose|i: int| 0 <= i < v.len() && (#[trigger] v[i]).0 == name)
    } else {
        None
    }
}

/// Layer names are pairwise distinct.
pub open spec fn distinct_names(v: Seq<LayerView>) -> bool {
    forall|i: int, j: int| 0 <= i < j < v.len() ==> (#[trigger] v[i]).0 != (#[trigger] v[j]).0
}

/// Where the layer named `name` lives, if it is registered.
pub open spec fn location_of(v: Seq<LayerView>, name: Seq<char>) -> Option<LayerLocation> {
    match find(v, name) {
        Some(i) => Some(v[i].1),
        None => None,
    }
}

/// The layers after registering `name` at `location` with `bytes`: an
/// existing layer of that name is updated where it stands in the LRU order,
/// a new one is appended as most recently used.
pub open spec fn registered(v: Seq<LayerView>, name: Seq<char>, location: LayerLocation, bytes: u64) -> Seq<LayerView> {
    match find(v, name) {
        Some(i) => v.update(i, (name, location, bytes)),
        None => v.push((name, location, bytes)),
    }
}

/// The layers after marking `name` as just used: it moves to the back.
pub open spec fn touched(v: Seq<LayerView>, name: Seq<char>) -> Seq<LayerView> {
    match find(v, name) {
        Some(i) => v.remove(i).push(v[i]),
        None => v,
    }
}

/// `Some(n)` names the least recently used layer in tier `t`; `None` says
/// the tier holds no layer.
pub open spec fn is_lru_in(v: Seq<LayerView>, t: Tier, r: Option<Seq<char>>) -> bool {
    match r {
        Some(n) => exists|i: int|
            0 <= i < v.len() && (#[trigger] v[i]).0 == n && tier_of(v[i].1) == t && forall|j: int|
                0 <= j < i ==> tier_of((#[trigger] v[j]).1) != t,
        None => forall|i: int| 0 <= i < v.len() ==> tier_of((#[trigger] v[i]).1) != t,
    }
}

pub proof fn lemma_tier_bytes_update(v: Seq<LayerView>, i: int, x: LayerView, t: Tier)
    requires
        0 <= i < v.len(),
    ensures
        tier_bytes(v.update(i, x), t) + tier_share(v[i], t) == tier_bytes(v, t) + tier_share(x, t),
    decreases v.len(),
{
    let u = v.update(i, x);
    if i == v.len() - 1 {
        assert(u.drop_last() =~= v.drop_last());
    } else {
        assert(u.drop_last() =~= v.drop_last().update(i, x));
        lemma_tier_bytes_update(v.drop_last(), i, x, t);
    }
}

pub proof fn lemma_tier_bytes_remove(v: Seq<LayerView>, i: int, t: Tier)
    requires
        0 <= i < v.len(),
    ensures
        tier_bytes(v.remove(i), t) + tier_share(v[i], t) == tier_bytes(v, t),
    decreases v.len(),
{
    if i == v.len() - 1 {
        assert(v.remove(i) =~= v.drop_last());
    } else {
        assert(v.remove(i).drop_last() =~= v.drop_last().remove(i));
        lemma_tier_bytes_remove(v.drop_last(), i, t);
    }
}

pub proof fn lemma_find_unique(v: Seq<LayerView>, name: Seq<char>, i: int)
    requires
        distinct_names(v),
        0 <= i < v.len(),
        v[i].0 == name,
    ensures
        find(v, name) == Some(i),
{
    let j = choose|j: int| 0 <= j < v.len() && (#[trigger] v[j]).0 == name;
    if j != i {
        if j < i {
            assert(v[j].0 != v[i].0);
        } else {
            assert(v[i].0 != v[j].0);
        }
    }
}

proof fn lemma_registered_distinct(v: Seq<LayerView>, name: Seq<char>, location: LayerLocation, bytes: u64)
    requires
        distinct_names(v),
    ensures
        distinct_names(registered(v, name, location, bytes)),
        find(registered(v, name, location, bytes), name) == Some(
            match find(v, name) {
                Some(i) => i,
                None => v.len() as int,
            },
        ),
{
    let x = (name, location, bytes);
    let u = registered(v, name, location, bytes);
    match find(v, name) {
        Some(i) => {
            assert(v[i].0 == name);
            assert forall|a: int, b: int| 0 <= a < b < u.len() implies (#[trigger] u[a]).0 != (#[trigger] u[b]).0 by {
                assert(v[a].0 != v[b].0);
            }
            lemma_find_unique(u, name, i);
        },
        None => {
            assert forall|a: int, b: int| 0 <= a < b < u.len() implies (#[trigger] u[a]).0 != (#[trigger] u[b]).0 by {
                if b < v.len() {
                    assert(v[a].0 != v[b].0);
                } else {
                    assert(u[a] == v[a]);
                }
            }
            lemma_find_unique(u, name, v.len() as int);
        },
    }
}

proof fn lemma_touched_distinct(v: Seq<LayerView>, name: Seq<char>)
    requires
        distinct_names(v),
    ensures
        distinct_names(touched(v, name)),
{
    if let Some(pos) = find(v, name) {
        let w = v.remove(pos).push(v[pos]);
        assert forall|a: int, b: int| 0 <= a < b < w.len() implies (#[trigger] w[a]).0 != (#[trigger] w[b]).0 by {
            let ia = if a < pos { a } else { a + 1 };
            let ib = if b == w.len() - 1 { pos } else if b < pos { b } else { b + 1 };
            assert(w[a] == v[ia]);
            assert(w[b] == v[ib]);
            if ia < ib {
                assert(v[ia].0 != v[ib].0);
            } else {
                assert(v[ib].0 != v[ia].0);
            }
        }
    }
}

/// Law: after a layer is registered, looking it up gives the location it
/// was registered at.
pub proof fn law_register_then_locate(v: Seq<LayerView>, name: Seq<char>, location: LayerLocation, bytes: u64)
    requires
        distinct_names(v),
    ensures
        location_of(registered(v, name, location, bytes), name) == Some(location),
{
    lemma_registered_distinct(v, name, location, bytes);
}

/// Law: registering a layer leaves every other layer where it was.
pub proof fn law_register_keeps_others(
    v: Seq<LayerView>,
    name: Seq<char>,
    location: LayerLocation,
    bytes: u64,
    other: Seq<char>,
)
    requires
        distinct_names(v),
        other != name,
    ensures
        location_of(registered(v, name, location, bytes), other) == location_of(v, other),
{
    let u = registered(v, name, location, bytes);
    lemma_registered_distinct(v, name, location, bytes);
    match find(v, other) {
        Some(j) => {
            assert(v[j].0 == other);
            assert(u[j] == v[j]);
            lemma_find_unique(u, other, j);
        },
        None => {
            assert forall|k: int| 0 <= k < u.len() implies (#[trigger] u[k]).0 != other by {
                if k < v.len() && u[k] == v[k] {
                    assert(v[k].0 != other);
                }
            }
        },
    }
}

/// Law: marking a layer as used changes neither where any layer lives nor
/// how many bytes each tier holds.
pub proof fn law_touch_keeps_placement(v: Seq<LayerView>, name: Seq<char>, other: Seq<char>, t: Tier)
    requires
        distinct_names(v),
    ensures
        location_of(touched(v, name), other) == location_of(v, other),
        tier_bytes(touched(v, name), t) == tier_bytes(v, t),
{
    lemma_touched_distinct(v, name);
    if let Some(pos) = find(v, name) {
        let w = v.remove(pos).push(v[pos]);
        lemma_tier_bytes_remove(v, pos, t);
        assert(w.drop_last() =~= v.remove(pos));
        match find(v, other) {
            Some(j) => {
                assert(v[j].0 == other);
                let k = if j == pos { w.len() - 1 } else if j < pos { j } else { j - 1 };
                assert(w[k] == v[j]);
                lemma_find_unique(w, other, k);
            },
            None => {
                assert forall|k: int| 0 <= k < w.len() implies (#[trigger] w[k]).0 != other by {
                    let ik = if k == w.len() - 1 { pos } else if k < pos { k } else { k + 1 };
                    assert(w[k] == v[ik]);
                    assert(v[ik].0 != other);
                }
            },
        }
    }
}

/// Law: a layer that was just marked as used is the most recently used one.
pub proof fn law_touch_makes_most_recent(v: Seq<LayerView>, name: Seq<char>)
    requires
        find(v, name) is Some,
    ensures
        touched(v, name).last().0 == name,
{
}

/// Tracks which device each model layer is on and its byte size.
/// Maintains an LRU access order for eviction (front = oldest).
#[derive(Debug)]
pub struct LayerRegistry {
    /// LRU order: front = least-recently-used, back = most-recently-used.
    entries: Vec<LayerEntry>,
    vram_used: u64,
    ram_used: u64,
    disk_used: u64,
}

impl LayerRegistry {
    /// The registered layers `(name, location, bytes)` in LRU order.
    pub closed spec fn view(&self) -> Seq<LayerView> {
        self.entries@.map_values(|e: LayerEntry| (e.name@, e.location, e.bytes))
    }

    /// Layer names are distinct, and each usage counter is the total size of
    /// the layers in its tier.
    pub closed spec fn wf(&self) -> bool {
        &&& distinct_names(self.view())
        &&& self.vram_used as nat == tier_bytes(self.view(), Tier::Vram)
        &&& self.ram_used as nat == tier_bytes(self.view(), Tier::Ram)
        &&& self.disk_used as nat == tier_bytes(self.view(), Tier::Disk)
    }

    /// A well-formed registry holds each layer name once: every law above
    /// that asks for distinct names holds of every registry that `new`,
    /// `register` and `touch` produce.
    pub proof fn lemma_wf_names_distinct(&self)
        requires
            self.wf(),
        ensures
            distinct_names(self.view()),
    {
    }

    /// Law, for every registry: after `name` is registered at `location`,
    /// looking it up gives `location`, every other layer stays where it was,
    /// and marking any layer as used afterwards moves no layer and changes no
    /// tier's byte count.
    pub proof fn law_register_then_get(
        &self,
        name: Seq<char>,
        location: LayerLocation,
        bytes: u64,
        other: Seq<char>,
        touched_name: Seq<char>,
        t: Tier,
    )
        requires
            self.wf(),
        ensures
            location_of(registered(self.view(), name, location, bytes), name) == Some(location),
            other != name ==> location_of(registered(self.view(), name, location, bytes), other) == location_of(
                self.view(),
                other,
            ),
            location_of(touched(registered(self.view(), name, location, bytes), touched_name), name) == Some(
                location,
            ),
            tier_bytes(touched(registered(self.view(), name, location, bytes), touched_name), t) == tier_bytes(
                registered(self.view(), name, location, bytes),
                t,
            ),
    {
        let v = self.view();
        law_register_then_locate(v, name, location, bytes);
        if other != name {
            law_register_keeps_others(v, name, location, bytes, other);
        }
        lemma_registered_distinct(v, name, location, bytes);
        law_touch_keeps_placement(registered(v, name, location, bytes), touched_name, name, t);
    }

    pub fn new() -> (r: Self)
        ensures
            r.wf(),
            r.view() == Seq::<LayerView>::empty(),
            distinct_names(r.view()),
    {
        let r = LayerRegistry { entries: Vec::new(), vram_used: 0, ram_used: 0, disk_used: 0 };
        assert(r.view() =~= Seq::<LayerView>::empty());
        r
    }

    fn position(&self, name: &str) -> (r: Option<usize>)
        requires
            self.wf(),
        ensures
            match r {
                Some(i) => i < self.view().len() && find(self.view(), name@) == Some(i as int),
                None => find(self.view(), name@) is None,
            },
    {
        let mut i: usize = 0;
        while i < self.entries.len()
            invariant
                i <= self.entries@.len(),
                self.wf(),
                forall|j: int| 0 <= j < i ==> (#[trigger] self.view()[j]).0 != name@,
            decreases self.entries@.len() - i,
        {
            if str_eq(self.entries[i].name.as_str(), name) {
                proof {
                    assert(self.view()[i as int].0 == name@);
                    lemma_find_unique(self.view(), name@, i as int);
                }
                return Some(i);
            }
            assert(self.view()[i as int].0 != name@);
            i = i + 1;
        }
        None
    }

    /// Register or update a layer's location and byte size.
    pub fn register(&mut self, name: &str, location: LayerLocation, bytes: u64)
        requires
            old(self).wf(),
            tier_bytes(registered(old(self).view(), name@, location, bytes), Tier::Vram) <= u64::MAX,
            tier_bytes(registered(old(self).view(), name@, location, bytes), Tier::Ram) <= u64::MAX,
            tier_bytes(registered(old(self).view(), name@, location, bytes), Tier::Disk) <= u64::MAX,
        ensures
            final(self).wf(),
            final(self).view() == registered(old(self).view(), name@, location, bytes),
            distinct_names(final(self).view()),
    {
        let ghost v = self.view();
        let ghost x: LayerView = (name@, location, bytes);
        let ghost target = registered(v, name@, location, bytes);
        match self.position(name) {
            Some(i) => {
                let old_bytes = self.entries[i].bytes;
                proof {
                    lemma_tier_bytes_remove(v, i as int, Tier::Vram);
                    lemma_tier_bytes_remove(v, i as int, Tier::Ram);
                    lemma_tier_bytes_remove(v, i as int, Tier::Disk);
                    lemma_tier_bytes_update(v, i as int, x, Tier::Vram);
                    lemma_tier_bytes_update(v, i as int, x, Tier::Ram);
                    lemma_tier_bytes_update(v, i as int, x, Tier::Disk);
                    assert(target == v.update(i as int, x));
                }
                match &self.entries[i].location {
                    LayerLocation::Vram => self.vram_used = self.vram_used - old_bytes,
                    LayerLocation::Ram => self.ram_used = self.ram_used - old_bytes,
                    LayerLocation::Disk { .. } => self.disk_used = self.disk_used - old_bytes,
                }
                match &location {
                    LayerLocation::Vram => self.vram_used = self.vram_used + bytes,
                    LayerLocation::Ram => self.ram_used = self.ram_used + bytes,
                    LayerLocation::Disk { .. } => self.disk_used = self.disk_used + bytes,
                }
                self.entries.set(i, LayerEntry { name: owned(name), location, bytes });
                assert(self.view() =~= target);
            },
            None => {
                assert(target == v.push(x));
                assert(target.drop_last() =~= v);
                assert(target.last() == x);
                match &location {
                    LayerLocation::Vram => self.vram_used = self.vram_used + bytes,
                    LayerLocation::Ram => self.ram_used = self.ram_used + bytes,
                    LayerLocation::Disk { .. } => self.disk_used = self.disk_used + bytes,
                }
                self.entries.push(LayerEntry { name: owned(name), location, bytes });
                assert(self.view() =~= target);
                assert(target.drop_last() =~= v);
            },
        }
    }

    /// Mark a layer as recently accessed (move to back of LRU list).
    pub fn touch(&mut self, name: &str)
        requires
            old(self).wf(),
        ensures
            final(self).wf(),
            final(self).view() == touched(old(self).view(), name@),
            distinct_names(final(self).view()),
    {
        let ghost v = self.view();
        if let Some(pos) = self.position(name) {
            let e = self.entries.remove(pos);
            self.entries.push(e);
            proof {
                let w = v.remove(pos as int).push(v[pos as int]);
                assert(self.view() =~= w);
                lemma_tier_bytes_remove(v, pos as int, Tier::Vram);
                lemma_tier_bytes_remove(v, pos as int, Tier::Ram);
                lemma_tier_bytes_remove(v, pos as int, Tier::Disk);
                assert(w.drop_last() =~= v.remove(pos as int));
                lemma_touched_distinct(v, name@);
            }
        }
    }

    /// Get the location of a layer.
    pub fn get(&self, name: &str) -> (r: Option<&LayerLocation>)
        requires
            self.wf(),
        ensures
            match r {
                Some(l) => location_of(self.view(), name@) == Some(*l),
                None => location_of(self.view(), name@) is None,
            },
    {
        match self.position(name) {
            Some(i) => Some(&self.entries[i].location),
            None => None,
        }
    }

    fn lru_in(&self, t: Tier) -> (r: Option<&str>)
        ensures
            is_lru_in(self.view(), t, match r { Some(n) => Some(n@), None => None }),
    {
        let mut i: usize = 0;
        while i < self.entries.len()
            invariant
                i <= self.entries@.len(),
                forall|j: int| 0 <= j < i ==> tier_of((#[trigger] self.view()[j]).1) != t,
            decreases self.entries@.len() - i,
        {
            let here = match (&self.entries[i].location, &t) {
                (LayerLocation::Vram, Tier::Vram) => true,
                (LayerLocation::Ram, Tier::Ram) => true,
                (LayerLocation::Disk { .. }, Tier::Disk) => true,
                _ => false,
            };
            assert(here == (tier_of(self.view()[i as int].1) == t));
            if here {
                let n = self.entries[i].name.as_str();
                assert(self.view()[i as int].0 == n@);
                return Some(n);
            }
            i = i + 1;
        }
        None
    }

    /// Returns the name of the LRU layer currently in VRAM (eviction candidate).
    pub fn lru_in_vram(&self) -> (r: Option<&str>)
        ensures
            is_lru_in(self.view(), Tier::Vram, match r { Some(n) => Some(n@), None => None }),
    {
        self.lru_in(Tier::Vram)
    }

    /// Returns the name of the LRU layer currently in RAM (eviction candidate).
    pub fn lru_in_ram(&self) -> (r: Option<&str>)
        ensures
            is_lru_in(self.view(), Tier::Ram, match r { Some(n) => Some(n@), None => None }),
    {
        self.lru_in(Tier::Ram)
    }

    /// Current VRAM usage in bytes.
    pub fn vram_used_bytes(&self) -> (r: u64)
        requires
            self.wf(),
        ensures
            r == tier_bytes(self.view(), Tier::Vram),
    {
        self.vram_used
    }

    /// Current RAM usage in bytes.
    pub fn ram_used_bytes(&self) -> (r: u64)
        requires
            self.wf(),
        ensures
            r == tier_bytes(self.view(), Tier::Ram),
    {
        self.ram_used
    }

    /// Current disk usage in bytes.
    pub fn disk_used_bytes(&self) -> (r: u64)
        requires
            self.wf(),
        ensures
            r == tier_bytes(self.view(), Tier::Disk),
    {
        self.disk_used
    }

    /// Whether adding `bytes` to VRAM would exceed `limit` (the share of the
    /// device's memory the tier configuration allows).
    pub fn would_exceed_vram(&self, bytes: u64, limit: u64) -> (r: bool)
        requires
            self.wf(),
            tier_bytes(self.view(), Tier::Vram) + bytes <= u64::MAX,
        ensures
            r == (tier_bytes(self.view(), Tier::Vram) + bytes > limit),
    {
        self.vram_used + bytes > limit
    }

    /// Whether adding `bytes` to RAM would exceed `limit` (the share of the
    /// machine's memory the tier configuration allows).
    pub fn would_exceed_ram(&self, bytes: u64, limit: u64) -> (r: bool)
        requires
            self.wf(),
            tier_bytes(self.view(), Tier::Ram) + bytes <= u64::MAX,
        ensures
            r == (tier_bytes(self.view(), Tier::Ram) + bytes > limit),
    {
        self.ram_used + bytes > limit
    }
}

} // verus!
