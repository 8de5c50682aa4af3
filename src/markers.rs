//! The marker store: drawable markers under a `(namespace, id)` key, with per-marker expiry.
//!
//! Times are nanoseconds on a monotonic clock that the caller reads; a marker that carries a
//! deadline is live strictly before it.
use vstd::prelude::*;

verus! {

/// The key of a marker: its namespace and its id within that namespace.
pub type MarkerKey = (Seq<char>, i32);

/// What the store holds for one marker.
pub struct MarkerRecord<S> {
    pub lines: Seq<S>,
    pub expires_at: Option<u128>,
}

/// Whether a marker with this deadline is still shown at time `now`.
pub open spec fn live_at(expires_at: Option<u128>, now: u64) -> bool {
    match expires_at {
        None => true,
        Some(t) => now < t,
    }
}

/// The lines of the markers under `keys` that are live at `now`, marker after marker.
pub open spec fn live_lines<S>(keys: Seq<MarkerKey>, m: Map<MarkerKey, MarkerRecord<S>>, now: u64) -> Seq<S>
    decreases keys.len(),
{
    if keys.len() == 0 {
        Seq::empty()
    } else {
        let rest = live_lines(keys.drop_last(), m, now);
        let rec = m[keys.last()];
        if live_at(rec.expires_at, now) {
            rest + rec.lines
        } else {
            rest
        }
    }
}

/// The deadline of a marker created at `now` with a lifetime of `lifetime` nanoseconds: none for
/// a lifetime of zero, `now` itself for a negative one, and `now + lifetime` otherwise. Deadlines
/// are wider than the clock, so a positive lifetime always ends after `now`.
pub open spec fn deadline(now: u64, lifetime: i64) -> Option<u128> {
    if lifetime == 0 {
        None
    } else if lifetime < 0 {
        Some(now as u128)
    } else {
        Some((now + lifetime) as u128)
    }
}

struct MarkerEntry<S> {
    ns: String,
    id: i32,
    lines: Vec<S>,
    expires_at: Option<u128>,
}

impl<S> MarkerEntry<S> {
    spec fn key(&self) -> MarkerKey {
        (self.ns@, self.id)
    }

    spec fn record(&self) -> MarkerRecord<S> {
        MarkerRecord { lines: self.lines@, expires_at: self.expires_at }
    }
}

/// All markers currently known, across namespaces. Within a namespace ids are unique.
pub struct MarkerStore<S> {
    entries: Vec<MarkerEntry<S>>,
    records: Ghost<Map<MarkerKey, MarkerRecord<S>>>,
}

impl<S> View for MarkerStore<S> {
    type V = Map<MarkerKey, MarkerRecord<S>>;

    closed spec fn view(&self) -> Map<MarkerKey, MarkerRecord<S>> {
        self.records@
    }
}

impl<S: Copy> MarkerStore<S> {
    /// The keys of the stored markers, in the order in which their lines are drawn.
    pub closed spec fn keys(&self) -> Seq<MarkerKey> {
        self.entries@.map_values(|e: MarkerEntry<S>| e.key())
    }

    /// The store is consistent: each key once, and the keys are exactly those of the map.
    pub closed spec fn wf(&self) -> bool {
        &&& forall|i: int, j: int|
            0 <= i < j < self.entries@.len() ==> self.entries@[i].key() != self.entries@[j].key()
        &&& forall|i: int|
            0 <= i < self.entries@.len() ==> self.records@.contains_key(
                #[trigger] self.entries@[i].key(),
            ) && self.records@[self.entries@[i].key()] == self.entries@[i].record()
        &&& forall|k: MarkerKey|
            #[trigger] self.records@.contains_key(k) ==> exists|i: int|
                0 <= i < self.entries@.len() && self.entries@[i].key() == k
    }

    /// In a consistent store each key is drawn once, and the drawn keys are those of the map.
    pub proof fn lemma_keys_unique(&self)
        requires
            self.wf(),
        ensures
            self.keys().no_duplicates(),
            self.keys().to_set() == self@.dom(),
    {
        self.lemma_keys();
    }

    proof fn lemma_keys(&self)
        requires
            self.wf(),
        ensures
            self.keys().no_duplicates(),
            self.keys().to_set() == self@.dom(),
            self.keys().len() == self.entries@.len(),
            forall|i: int| 0 <= i < self.entries@.len() ==> #[trigger] self.keys()[i] == self.entries@[i].key(),
    {
        let ks = self.keys();
        assert forall|k: MarkerKey| ks.to_set().contains(k) <==> self@.dom().contains(k) by {
            if self@.dom().contains(k) {
                let i = choose|i: int| 0 <= i < self.entries@.len() && self.entries@[i].key() == k;
                assert(ks[i] == k);
            }
        }
        assert(ks.to_set() =~= self@.dom());
    }

    /// An empty store.
    pub fn new() -> (r: Self)
        ensures
            r.wf(),
            r@ == Map::<MarkerKey, MarkerRecord<S>>::empty(),
            r.keys() == Seq::<MarkerKey>::empty(),
    {
        let r = MarkerStore { entries: Vec::new(), records: Ghost(Map::empty()) };
        assert(r.keys() =~= Seq::<MarkerKey>::empty());
        r
    }

    fn find(&self, ns: &String, id: i32) -> (r: Option<usize>)
        requires
            self.wf(),
        ensures
            match r {
                Some(i) => i < self.entries@.len() && self.entries@[i as int].key() == (ns@, id),
                None => !self@.contains_key((ns@, id)),
            },
    {
        let mut i: usize = 0;
        while i < self.entries.len()
            invariant
                self.wf(),
                i <= self.entries@.len(),
                forall|j: int| 0 <= j < i ==> self.entries@[j].key() != (ns@, id),
            decreases self.entries@.len() - i,
        {
            if self.entries[i].id == id && self.entries[i].ns == *ns {
                return Some(i);
            }
            i += 1;
        }
        None
    }

    /// Whether the marker `(ns, id)` is stored and still live at `now`.
    pub fn is_live(&self, ns: &String, id: i32, now: u64) -> (r: bool)
        requires
            self.wf(),
        ensures
            r == (self@.contains_key((ns@, id)) && live_at(self@[(ns@, id)].expires_at, now)),
    {
        match self.find(ns, id) {
            Some(i) => match self.entries[i].expires_at {
                Some(t) => (now as u128) < t,
                None => true,
            },
            None => false,
        }
    }

    /// Stores the lines of marker `(ns, id)`, replacing whatever was stored under that key.
    /// Its deadline is reckoned from `now` and the lifetime in nanoseconds (zero: never).
    pub fn upsert(&mut self, ns: String, id: i32, lines: Vec<S>, now: u64, lifetime: i64)
        requires
            old(self).wf(),
        ensures
            final(self).wf(),
            final(self)@ == old(self)@.insert(
                (ns@, id),
                MarkerRecord { lines: lines@, expires_at: deadline(now, lifetime) },
            ),
            old(self)@.contains_key((ns@, id)) ==> final(self).keys() == old(self).keys(),
            !old(self)@.contains_key((ns@, id)) ==> final(self).keys() == old(self).keys().push(
                (ns@, id),
            ),
    {
        let expires_at: Option<u128> = if lifetime == 0 {
            None
        } else if lifetime < 0 {
            Some(now as u128)
        } else {
            Some(now as u128 + lifetime as u128)
        };
        let ghost key = (ns@, id);
        let ghost rec = MarkerRecord { lines: lines@, expires_at: expires_at };
        let ghost old_entries = self.entries@;
        let found = self.find(&ns, id);
        let entry = MarkerEntry { ns, id, lines, expires_at };
        assert(entry.key() == key && entry.record() == rec);
        let ghost old_keys = old_entries.map_values(|e: MarkerEntry<S>| e.key());
        match found {
            Some(i) => {
                self.entries.set(i, entry);
                assert(self.keys() =~= old_keys);
            },
            None => {
                self.entries.push(entry);
                assert(self.keys() =~= old_keys.push(key));
            },
        }
        self.records = Ghost(self.records@.insert(key, rec));
        assert forall|k: MarkerKey| #[trigger] self.records@.contains_key(k) implies exists|i: int|
            0 <= i < self.entries@.len() && self.entries@[i].key() == k by {
            if k != key {
                let j = choose|j: int| 0 <= j < old_entries.len() && old_entries[j].key() == k;
                assert(self.entries@[j].key() == k);
            } else {
                match found {
                    Some(i) => assert(self.entries@[i as int].key() == k),
                    None => assert(self.entries@[old_entries.len() as int].key() == k),
                }
            }
        }
    }

    fn remove_at(&mut self, i: usize)
        requires
            old(self).wf(),
            i < old(self).entries@.len(),
        ensures
            final(self).wf(),
            final(self)@ == old(self)@.remove(old(self).entries@[i as int].key()),
            final(self).entries@ == old(self).entries@.remove(i as int),
    {
        let ghost key = self.entries@[i as int].key();
        let ghost old_entries = self.entries@;
        self.entries.remove(i);
        self.records = Ghost(self.records@.remove(key));
        assert forall|k: MarkerKey| #[trigger] self.records@.contains_key(k) implies exists|j: int|
            0 <= j < self.entries@.len() && self.entries@[j].key() == k by {
            let j = choose|j: int| 0 <= j < old_entries.len() && old_entries[j].key() == k;
            if j < i {
                assert(self.entries@[j].key() == k);
            } else {
                assert(self.entries@[j - 1].key() == k);
            }
        }
    }

    /// Removes marker `(ns, id)`; nothing happens when it is not stored.
    pub fn delete(&mut self, ns: &String, id: i32)
        requires
            old(self).wf(),
        ensures
            final(self).wf(),
            final(self)@ == old(self)@.remove((ns@, id)),
            !old(self)@.contains_key((ns@, id)) ==> final(self).keys() == old(self).keys(),
            old(self)@.contains_key((ns@, id)) ==> exists|i: int|
                0 <= i < old(self).keys().len() && old(self).keys()[i] == (ns@, id)
                    && final(self).keys() == old(self).keys().remove(i),
    {
        let ghost old_keys = self.keys();
        match self.find(ns, id) {
            Some(i) => {
                self.remove_at(i);
                assert(self.keys() =~= old_keys.remove(i as int));
                assert(old_keys[i as int] == (ns@, id));
            },
            None => {
                assert(self.records@.remove((ns@, id)) =~= self.records@);
            },
        }
    }

    /// Removes every marker of every namespace.
    pub fn clear(&mut self)
        requires
            old(self).wf(),
        ensures
            final(self).wf(),
            final(self)@ == Map::<MarkerKey, MarkerRecord<S>>::empty(),
            final(self).keys() == Seq::<MarkerKey>::empty(),
    {
        self.entries = Vec::new();
        self.records = Ghost(Map::empty());
    }
}


impl<S: Copy> MarkerStore<S> {
    /// Removes every marker of namespace `ns` and returns the ids that were removed.
    pub fn clear_namespace(&mut self, ns: &String) -> (r: Vec<i32>)
        requires
            old(self).wf(),
        ensures
            final(self).wf(),
            final(self)@ == old(self)@.restrict(old(self)@.dom().filter(|k: MarkerKey| k.0 != ns@)),
            r@.no_duplicates(),
            r@.to_set() == Set::new(|id: i32| old(self)@.contains_key((ns@, id))),
    {
        let ghost start = self@;
        let mut r: Vec<i32> = Vec::new();
        let mut i: usize = 0;
        while i < self.entries.len()
            invariant
                self.wf(),
                i <= self.entries@.len(),
                forall|k: MarkerKey| #[trigger]
                    self@.contains_key(k) ==> start.contains_key(k) && self@[k] == start[k],
                forall|k: MarkerKey|
                    start.contains_key(k) && !self@.contains_key(k) ==> k.0 == ns@ && r@.contains(
                        k.1,
                    ),
                forall|id: i32|
                    #[trigger] r@.contains(id) ==> start.contains_key((ns@, id)) && !self@.contains_key(
                        (ns@, id),
                    ),
                r@.no_duplicates(),
                forall|j: int| 0 <= j < i ==> (#[trigger] self.entries@[j]).ns@ != ns@,
            decreases self.entries@.len() - i,
        {
            if self.entries[i].ns == *ns {
                let id = self.entries[i].id;
                let ghost before = self.entries@;
                assert(before[i as int].key() == (ns@, id));
                assert(self@.contains_key((ns@, id)));
                let ghost old_r = r@;
                let ghost mid = self@;
                self.remove_at(i);
                r.push(id);
                assert(r@[r@.len() - 1] == id);
                assert(!old_r.contains(id));
                assert forall|a: int, b: int| 0 <= a < r@.len() && 0 <= b < r@.len() && a != b implies r@[a]
                    != r@[b] by {
                    if a == old_r.len() {
                        assert(old_r[b] == r@[b]);
                    } else if b == old_r.len() {
                        assert(old_r[a] == r@[a]);
                    }
                }
                assert forall|k: MarkerKey|
                    start.contains_key(k) && !self@.contains_key(k) implies k.0 == ns@ && r@.contains(
                        k.1,
                    ) by {
                    if k != (ns@, id) {
                        assert(!mid.contains_key(k));
                        assert(old_r.contains(k.1));
                        let w = choose|w: int| 0 <= w < old_r.len() && old_r[w] == k.1;
                        assert(r@[w] == k.1);
                    }
                }
                assert forall|x: i32| #[trigger] r@.contains(x) implies start.contains_key((ns@, x))
                    && !self@.contains_key((ns@, x)) by {
                    if x != id {
                        let w = choose|w: int| 0 <= w < r@.len() && r@[w] == x;
                        assert(old_r[w] == x);
                        assert(old_r.contains(x));
                    }
                }
                assert forall|j: int| 0 <= j < i implies (#[trigger] self.entries@[j]).ns@ != ns@ by {
                    assert(self.entries@[j] == before[j]);
                }
            } else {
                i += 1;
            }
        }
        let ghost target = start.restrict(start.dom().filter(|k: MarkerKey| k.0 != ns@));
        assert forall|k: MarkerKey| self@.contains_key(k) <==> target.contains_key(k) by {
            if self@.contains_key(k) {
                let j = choose|j: int| 0 <= j < self.entries@.len() && self.entries@[j].key() == k;
                assert(self.entries@[j].ns@ != ns@);
            }
        }
        assert(self@ =~= target);
        assert(r@.to_set() =~= Set::new(|id: i32| start.contains_key((ns@, id))));
        r
    }
}


impl<S: Copy> MarkerStore<S> {
    /// Removes every marker whose deadline has been reached at `now`.
    pub fn expire(&mut self, now: u64)
        requires
            old(self).wf(),
        ensures
            final(self).wf(),
            final(self)@ == old(self)@.restrict(
                old(self)@.dom().filter(|k: MarkerKey| live_at(old(self)@[k].expires_at, now)),
            ),
    {
        let ghost start = self@;
        let mut i: usize = 0;
        while i < self.entries.len()
            invariant
                self.wf(),
                i <= self.entries@.len(),
                forall|k: MarkerKey| #[trigger]
                    self@.contains_key(k) ==> start.contains_key(k) && self@[k] == start[k],
                forall|k: MarkerKey|
                    start.contains_key(k) && !self@.contains_key(k) ==> !live_at(
                        start[k].expires_at,
                        now,
                    ),
                forall|j: int|
                    0 <= j < i ==> live_at((#[trigger] self.entries@[j]).expires_at, now),
            decreases self.entries@.len() - i,
        {
            let live = match self.entries[i].expires_at {
                Some(t) => (now as u128) < t,
                None => true,
            };
            if !live {
                let ghost before = self.entries@;
                assert(self@.contains_key(before[i as int].key()));
                self.remove_at(i);
                assert forall|j: int| 0 <= j < i implies live_at(
                    (#[trigger] self.entries@[j]).expires_at,
                    now,
                ) by {
                    assert(self.entries@[j] == before[j]);
                }
            } else {
                i += 1;
            }
        }
        let ghost target = start.restrict(
            start.dom().filter(|k: MarkerKey| live_at(start[k].expires_at, now)),
        );
        assert forall|k: MarkerKey| self@.contains_key(k) <==> target.contains_key(k) by {
            if self@.contains_key(k) {
                let j = choose|j: int| 0 <= j < self.entries@.len() && self.entries@[j].key() == k;
                assert(live_at(self.entries@[j].expires_at, now));
            }
        }
        assert(self@ =~= target);
    }

    /// The lines of every marker live at `now`, in the order of `keys`.
    pub fn lines(&self, now: u64) -> (r: Vec<S>)
        requires
            self.wf(),
        ensures
            r@ == live_lines(self.keys(), self@, now),
    {
        proof {
            self.lemma_keys();
        }
        let ghost keys = self.keys();
        let mut out: Vec<S> = Vec::new();
        let mut i: usize = 0;
        while i < self.entries.len()
            invariant
                self.wf(),
                keys == self.keys(),
                keys.len() == self.entries@.len(),
                forall|j: int| 0 <= j < self.entries@.len() ==> #[trigger] keys[j] == self.entries@[j].key(),
                i <= self.entries@.len(),
                out@ == live_lines(keys.take(i as int), self@, now),
            decreases self.entries@.len() - i,
        {
            let entry = &self.entries[i];
            assert(keys.take(i + 1).drop_last() =~= keys.take(i as int));
            assert(keys.take(i + 1).last() == entry.key());
            assert(self@[entry.key()] == entry.record());
            let live = match entry.expires_at {
                Some(t) => (now as u128) < t,
                None => true,
            };
            if live {
                let ghost prefix = out@;
                let mut j: usize = 0;
                while j < entry.lines.len()
                    invariant
                        j <= entry.lines@.len(),
                        out@ == prefix + entry.lines@.take(j as int),
                    decreases entry.lines@.len() - j,
                {
                    out.push(entry.lines[j]);
                    j += 1;
                    assert(out@ =~= prefix + entry.lines@.take(j as int));
                }
                assert(entry.lines@.take(j as int) =~= entry.lines@);
            }
            i += 1;
        }
        assert(keys.take(i as int) =~= keys);
        out
    }
}


/// The action code that adds or replaces a marker.
pub const ACTION_ADD: i32 = 0;

/// The action code that removes one marker.
pub const ACTION_DELETE: i32 = 2;

/// The action code that removes many markers at once.
pub const ACTION_DELETE_ALL: i32 = 3;

/// The marker shapes that are drawn.
#[derive(Clone, Copy, Debug, PartialEq, Eq, Structural)]
pub enum MarkerShape {
    Arrow,
    Cube,
    CubeList,
    Points,
    LineStrip,
    LineList,
}

/// The shape that a marker type code stands for; other shapes are not drawn.
pub fn marker_shape(type_code: i32) -> (r: Option<MarkerShape>)
    ensures
        r == (if type_code == 0 {
            Some(MarkerShape::Arrow)
        } else if type_code == 1 {
            Some(MarkerShape::Cube)
        } else if type_code == 4 {
            Some(MarkerShape::LineStrip)
        } else if type_code == 5 {
            Some(MarkerShape::LineList)
        } else if type_code == 6 {
            Some(MarkerShape::CubeList)
        } else if type_code == 8 {
            Some(MarkerShape::Points)
        } else {
            None
        }),
{
    if type_code == 0 {
        Some(MarkerShape::Arrow)
    } else if type_code == 1 {
        Some(MarkerShape::Cube)
    } else if type_code == 4 {
        Some(MarkerShape::LineStrip)
    } else if type_code == 5 {
        Some(MarkerShape::LineList)
    } else if type_code == 6 {
        Some(MarkerShape::CubeList)
    } else if type_code == 8 {
        Some(MarkerShape::Points)
    } else {
        None
    }
}

/// How an arrow marker is laid out.
#[derive(Clone, Copy, Debug, PartialEq, Eq, Structural)]
pub enum ArrowForm {
    /// Along the marker's own x axis, its length and head width taken from the scale.
    FromPose,
    /// From the first listed point to the second.
    FromPoints,
}

/// The layout of an arrow marker with `n_points` listed points: none gives the pose form, two
/// the point form; any other count is malformed and draws nothing.
pub fn arrow_form(n_points: usize) -> (r: Option<ArrowForm>)
    ensures
        r == (if n_points == 0 {
            Some(ArrowForm::FromPose)
        } else if n_points == 2 {
            Some(ArrowForm::FromPoints)
        } else {
            None
        }),
{
    if n_points == 0 {
        Some(ArrowForm::FromPose)
    } else if n_points == 2 {
        Some(ArrowForm::FromPoints)
    } else {
        None
    }
}

/// One incoming marker message, its shape already turned into lines.
pub struct MarkerUpdate<S> {
    /// One of the action codes.
    pub action: i32,
    pub ns: String,
    pub id: i32,
    /// The marker's lines in the display frame, or `None` when its frame could not be resolved.
    pub lines: Option<Vec<S>>,
    /// The lifetime: whole seconds and nanoseconds, both signed. Zero means forever.
    pub lifetime_sec: i32,
    pub lifetime_nsec: i32,
}

/// A lifetime in nanoseconds.
pub open spec fn lifetime_nanos(sec: i32, nsec: i32) -> int {
    sec as int * 1_000_000_000 + nsec as int
}

/// The markers after one update at time `now`. A removal of all markers clears every namespace
/// when `everything` holds and only the update's namespace otherwise.
pub open spec fn after_update<S>(
    m: Map<MarkerKey, MarkerRecord<S>>,
    u: MarkerUpdate<S>,
    now: u64,
    everything: bool,
) -> Map<MarkerKey, MarkerRecord<S>> {
    if u.action == ACTION_ADD {
        match u.lines {
            Some(l) => m.insert(
                (u.ns@, u.id),
                MarkerRecord {
                    lines: l@,
                    expires_at: deadline(now, lifetime_nanos(u.lifetime_sec, u.lifetime_nsec) as i64),
                },
            ),
            None => m,
        }
    } else if u.action == ACTION_DELETE {
        m.remove((u.ns@, u.id))
    } else if u.action == ACTION_DELETE_ALL {
        if everything {
            Map::empty()
        } else {
            m.restrict(m.dom().filter(|k: MarkerKey| k.0 != u.ns@))
        }
    } else {
        m
    }
}

/// The markers after a batch of updates applied in order, each clearing only its own namespace.
pub open spec fn after_updates<S>(
    m: Map<MarkerKey, MarkerRecord<S>>,
    us: Seq<MarkerUpdate<S>>,
    now: u64,
) -> Map<MarkerKey, MarkerRecord<S>>
    decreases us.len(),
{
    if us.len() == 0 {
        m
    } else {
        after_update(after_updates(m, us.drop_last(), now), us.last(), now, false)
    }
}

/// Relies on chrono's `Duration::seconds`, `Duration::nanoseconds`, `+` and
/// `num_nanoseconds`: the span of `sec` seconds and `nsec` nanoseconds, in nanoseconds.
#[verifier::external_body]
fn span_nanos(sec: i32, nsec: i32) -> (r: Option<i64>)
    ensures
        r == Some(lifetime_nanos(sec, nsec) as i64),
{
    (chrono::Duration::seconds(sec as i64) + chrono::Duration::nanoseconds(nsec as i64)).num_nanoseconds()
}

impl<S: Copy> MarkerStore<S> {
    fn apply(&mut self, u: MarkerUpdate<S>, now: u64, everything: bool)
        requires
            old(self).wf(),
        ensures
            final(self).wf(),
            final(self)@ == after_update(old(self)@, u, now, everything),
    {
        if u.action == ACTION_ADD {
            match u.lines {
                Some(lines) => {
                    let lifetime = match span_nanos(u.lifetime_sec, u.lifetime_nsec) {
                        Some(v) => v,
                        None => 0,
                    };
                    self.upsert(u.ns, u.id, lines, now, lifetime);
                },
                None => {},
            }
        } else if u.action == ACTION_DELETE {
            self.delete(&u.ns, u.id);
        } else if u.action == ACTION_DELETE_ALL {
            if everything {
                self.clear();
            } else {
                let _ = self.clear_namespace(&u.ns);
            }
        }
    }

    /// Applies a message of a single-marker topic; there a removal of all markers clears every
    /// namespace.
    pub fn apply_marker(&mut self, u: MarkerUpdate<S>, now: u64)
        requires
            old(self).wf(),
        ensures
            final(self).wf(),
            final(self)@ == after_update(old(self)@, u, now, true),
    {
        self.apply(u, now, true);
    }

    /// Applies the messages of a marker-array topic in order; there a removal of all markers
    /// clears the namespace that it names.
    pub fn apply_marker_array(&mut self, us: Vec<MarkerUpdate<S>>, now: u64)
        requires
            old(self).wf(),
        ensures
            final(self).wf(),
            final(self)@ == after_updates(old(self)@, us@, now),
    {
        let ghost all = us@;
        let ghost start = self@;
        let total = us.len();
        let mut rest = us;
        let mut k: usize = 0;
        while rest.len() > 0
            invariant
                self.wf(),
                k <= all.len(),
                all.len() == total,
                rest@ == all.skip(k as int),
                self@ == after_updates(start, all.take(k as int), now),
            decreases rest@.len(),
        {
            let u = rest.remove(0);
            assert(all.take(k + 1).drop_last() =~= all.take(k as int));
            assert(all.take(k + 1).last() == u);
            self.apply(u, now, false);
            k += 1;
            assert(rest@ =~= all.skip(k as int));
        }
        assert(all.take(k as int) =~= all);
    }
}


/// The markers that survive an expiry sweep at `now`.
pub open spec fn unexpired<S>(m: Map<MarkerKey, MarkerRecord<S>>, now: u64) -> Map<
    MarkerKey,
    MarkerRecord<S>,
> {
    m.restrict(m.dom().filter(|k: MarkerKey| live_at(m[k].expires_at, now)))
}

/// Repeated additions under one key leave one marker there, holding the lines of the last
/// addition whose frame could be resolved; markers under other keys are untouched.
pub proof fn lemma_last_upsert_wins<S>(
    m: Map<MarkerKey, MarkerRecord<S>>,
    us: Seq<MarkerUpdate<S>>,
    now: u64,
    ns: Seq<char>,
    id: i32,
    last: int,
)
    requires
        0 <= last < us.len(),
        forall|j: int|
            0 <= j < us.len() ==> (#[trigger] us[j]).action == ACTION_ADD && us[j].ns@ == ns
                && us[j].id == id,
        us[last].lines is Some,
        forall|j: int| last < j < us.len() ==> (#[trigger] us[j]).lines is None,
    ensures
        after_updates(m, us, now).contains_key((ns, id)),
        after_updates(m, us, now)[(ns, id)].lines == us[last].lines.unwrap()@,
        forall|k: MarkerKey|
            k != (ns, id) ==> (#[trigger] after_updates(m, us, now).contains_key(k)
                == m.contains_key(k)) && (m.contains_key(k) ==> after_updates(m, us, now)[k]
                == m[k]),
    decreases us.len(),
{
    let prev = us.drop_last();
    if us.len() - 1 == last {
        if prev.len() > 0 {
            lemma_only_key_changes(m, prev, now, ns, id);
        }
    } else {
        assert forall|j: int| 0 <= j < prev.len() implies (#[trigger] prev[j]).action == ACTION_ADD
            && prev[j].ns@ == ns && prev[j].id == id by {
            assert(prev[j] == us[j]);
        }
        assert forall|j: int| last < j < prev.len() implies (#[trigger] prev[j]).lines is None by {
            assert(prev[j] == us[j]);
        }
        lemma_last_upsert_wins(m, prev, now, ns, id, last);
        assert(us.last() == us[us.len() - 1]);
    }
}

proof fn lemma_only_key_changes<S>(
    m: Map<MarkerKey, MarkerRecord<S>>,
    us: Seq<MarkerUpdate<S>>,
    now: u64,
    ns: Seq<char>,
    id: i32,
)
    requires
        forall|j: int|
            0 <= j < us.len() ==> (#[trigger] us[j]).action == ACTION_ADD && us[j].ns@ == ns
                && us[j].id == id,
    ensures
        forall|k: MarkerKey|
            k != (ns, id) ==> (#[trigger] after_updates(m, us, now).contains_key(k)
                == m.contains_key(k)) && (m.contains_key(k) ==> after_updates(m, us, now)[k]
                == m[k]),
    decreases us.len(),
{
    if us.len() > 0 {
        let prev = us.drop_last();
        assert forall|j: int| 0 <= j < prev.len() implies (#[trigger] prev[j]).action == ACTION_ADD
            && prev[j].ns@ == ns && prev[j].id == id by {
            assert(prev[j] == us[j]);
        }
        lemma_only_key_changes(m, prev, now, ns, id);
        let u = us.last();
        assert(u == us[us.len() - 1]);
        let before = after_updates(m, prev, now);
        assert(after_updates(m, us, now) == after_update(before, u, now, false));
        assert forall|k: MarkerKey| k != (ns, id) implies (#[trigger] after_updates(
            m,
            us,
            now,
        ).contains_key(k) == m.contains_key(k)) && (m.contains_key(k) ==> after_updates(
            m,
            us,
            now,
        )[k] == m[k]) by {
            assert(before.contains_key(k) == m.contains_key(k));
        }
    }
}

/// A marker stored at `now` with a positive lifetime is live exactly until `now + lifetime`:
/// a sweep at any later time removes it, one before keeps it. Storing it again at another time
/// reckons the deadline afresh from that time.
pub proof fn lemma_expiry<S>(
    m: Map<MarkerKey, MarkerRecord<S>>,
    key: MarkerKey,
    lines: Seq<S>,
    now: u64,
    lifetime: i64,
    t: u64,
)
    requires
        lifetime > 0,
    ensures
        ({
            let stored = m.insert(key, MarkerRecord { lines, expires_at: deadline(now, lifetime) });
            &&& live_at(stored[key].expires_at, now)
            &&& live_at(stored[key].expires_at, t) <==> t < now + lifetime
            &&& unexpired(stored, t).contains_key(key) <==> t < now + lifetime
        }),
{
}

/// Removing a marker, or clearing a namespace, never touches a marker of another namespace,
/// whatever its id.
pub proof fn lemma_namespace_isolation<S>(
    m: Map<MarkerKey, MarkerRecord<S>>,
    ns: Seq<char>,
    id: i32,
    other: Seq<char>,
    other_id: i32,
)
    requires
        ns != other,
    ensures
        m.remove((ns, id)).contains_key((other, other_id)) == m.contains_key((other, other_id)),
        m.contains_key((other, other_id)) ==> m.remove((ns, id))[(other, other_id)] == m[(
            other,
            other_id,
        )],
        m.restrict(m.dom().filter(|k: MarkerKey| k.0 != ns)).contains_key((other, other_id))
            == m.contains_key((other, other_id)),
        m.contains_key((other, other_id)) ==> m.restrict(
            m.dom().filter(|k: MarkerKey| k.0 != ns),
        )[(other, other_id)] == m[(other, other_id)],
{
}

impl<S: Copy> MarkerStore<S> {
    /// A store emptied by a removal of all markers draws no line at all, at any time.
    pub proof fn lemma_cleared_draws_nothing(&self, now: u64)
        requires
            self.wf(),
            self@ == Map::<MarkerKey, MarkerRecord<S>>::empty(),
        ensures
            live_lines(self.keys(), self@, now) == Seq::<S>::empty(),
    {
        self.lemma_keys();
        if self.keys().len() > 0 {
            assert(self.keys().to_set().contains(self.keys()[0]));
        }
    }
}

} // verus!
