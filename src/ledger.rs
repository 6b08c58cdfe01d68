//! The resource ledger: which models are loaded, what each one costs in device
//! memory, and which one is the default generation target.
use vstd::prelude::*;

verus! {

/// Errors of the ledger's operations.
#[derive(Debug, Clone, Copy, PartialEq, Eq, Structural)]
pub enum LedgerError {
    /// The name was never registered.
    NotFound,
    /// A model of that name is registered already.
    AlreadyRegistered,
    /// The model is registered but holds no instance.
    NotLoaded,
    /// Memory for the model is reserved and its weights are being loaded.
    LoadInProgress,
    /// The model does not fit even once every loaded model is evicted.
    CapacityExceeded,
    /// No reservation is waiting for this model.
    NotReserved,
    /// No model was named and no active model is set.
    NoActiveModel,
}

/// What a registered model holds right now.
pub enum Slot<T> {
    /// Nothing; the model costs no memory.
    Empty,
    /// Its footprint is reserved while the weights are being loaded.
    Reserved,
    /// A loaded instance.
    Loaded(T),
}

/// One registered model.
pub struct Entry<T> {
    pub name: String,
    /// Estimated device memory in MB; 0 until first probed.
    pub footprint_mb: u64,
    pub slot: Slot<T>,
}

/// Whether an entry is charged against the budget.
pub open spec fn occupies<T>(e: Entry<T>) -> bool {
    !(e.slot is Empty)
}

/// What an entry costs against the budget.
pub open spec fn charge<T>(e: Entry<T>) -> int {
    if occupies(e) {
        e.footprint_mb as int
    } else {
        0
    }
}

/// What evicting an entry would give back: the footprint of a loaded one.
pub open spec fn freeable<T>(e: Entry<T>) -> int {
    if e.slot is Loaded {
        e.footprint_mb as int
    } else {
        0
    }
}

/// The memory charged by the first `p` entries of `s`.
pub open spec fn used_upto<T>(s: Seq<Entry<T>>, p: int) -> int
    decreases p,
{
    if p <= 0 {
        0
    } else {
        used_upto(s, p - 1) + charge(s[p - 1])
    }
}

/// The memory charged by all entries of `s`.
pub open spec fn used_of<T>(s: Seq<Entry<T>>) -> int {
    used_upto(s, s.len() as int)
}

/// The memory that evicting every loaded entry among the first `p` gives back.
pub open spec fn freed_upto<T>(s: Seq<Entry<T>>, p: int) -> int
    decreases p,
{
    if p <= 0 {
        0
    } else {
        freed_upto(s, p - 1) + freeable(s[p - 1])
    }
}

/// The names of the loaded entries among the first `p`, in order.
pub open spec fn loaded_names_upto<T>(s: Seq<Entry<T>>, p: int) -> Seq<Seq<char>>
    decreases p,
{
    if p <= 0 {
        Seq::empty()
    } else if s[p - 1].slot is Loaded {
        loaded_names_upto(s, p - 1).push(s[p - 1].name@)
    } else {
        loaded_names_upto(s, p - 1)
    }
}

/// The names of all loaded entries, least recently used first.
pub open spec fn loaded_names<T>(s: Seq<Entry<T>>) -> Seq<Seq<char>> {
    loaded_names_upto(s, s.len() as int)
}

/// Whether `needed` MB fit once the loaded entries among the first `p` are evicted.
pub open spec fn fits_after<T>(s: Seq<Entry<T>>, p: int, needed: int, cap: int) -> bool {
    used_of(s) - freed_upto(s, p) + needed <= cap
}

/// The shortest prefix, from `q` on, whose loaded entries must go for
/// `needed` MB to fit; `s.len()` where none is enough.
pub open spec fn cut_from<T>(s: Seq<Entry<T>>, q: int, needed: int, cap: int) -> int
    decreases s.len() - q,
{
    if q >= s.len() || fits_after(s, q, needed, cap) {
        q
    } else {
        cut_from(s, q + 1, needed, cap)
    }
}

/// How many leading entries eviction goes through to make room for `needed` MB.
pub open spec fn eviction_cut<T>(s: Seq<Entry<T>>, needed: int, cap: int) -> int {
    cut_from(s, 0, needed, cap)
}

/// The entry with its instance dropped.
pub open spec fn emptied<T>(e: Entry<T>) -> Entry<T> {
    Entry { name: e.name, footprint_mb: e.footprint_mb, slot: Slot::Empty }
}

/// `s` with every loaded entry among the first `p` evicted.
pub open spec fn evict_prefix<T>(s: Seq<Entry<T>>, p: int) -> Seq<Entry<T>> {
    Seq::new(s.len(), |j: int| if j < p && s[j].slot is Loaded { emptied(s[j]) } else { s[j] })
}

/// `s` with entry `i` moved to the back, as the most recently used.
pub open spec fn touch<T>(s: Seq<Entry<T>>, i: int) -> Seq<Entry<T>> {
    s.remove(i).push(s[i])
}

/// The active pointer kept only while it names a loaded entry.
pub open spec fn prune_active<T>(active: Option<String>, s: Seq<Entry<T>>) -> Option<String> {
    match active {
        Some(a) => if name_loaded(s, a@) {
            Some(a)
        } else {
            None
        },
        None => None,
    }
}

/// The position of the entry named `name`.
pub open spec fn index_of<T>(s: Seq<Entry<T>>, name: Seq<char>) -> int {
    choose|i: int| 0 <= i < s.len() && (#[trigger] s[i]).name@ == name
}

/// Whether `s` has an entry named `name`.
pub open spec fn has_name<T>(s: Seq<Entry<T>>, name: Seq<char>) -> bool {
    exists|i: int| 0 <= i < s.len() && (#[trigger] s[i]).name@ == name
}

/// Whether the entry named `name` holds an instance.
pub open spec fn name_loaded<T>(s: Seq<Entry<T>>, name: Seq<char>) -> bool {
    exists|i: int| 0 <= i < s.len() && (#[trigger] s[i]).name@ == name && s[i].slot is Loaded
}

/// No two entries share a name.
pub open spec fn names_unique<T>(s: Seq<Entry<T>>) -> bool {
    forall|i: int, j: int|
        0 <= i < s.len() && 0 <= j < s.len() && i != j ==> (#[trigger] s[i]).name@ != (#[trigger] s[j]).name@
}

proof fn lemma_used_monotone<T>(s: Seq<Entry<T>>, p: int, q: int)
    requires
        0 <= p <= q <= s.len(),
    ensures
        used_upto(s, p) <= used_upto(s, q),
    decreases q - p,
{
    if p < q {
        lemma_used_monotone(s, p, q - 1);
    }
}

proof fn lemma_freed_le_used<T>(s: Seq<Entry<T>>, p: int)
    requires
        0 <= p <= s.len(),
    ensures
        0 <= freed_upto(s, p) <= used_upto(s, p),
    decreases p,
{
    if p > 0 {
        lemma_freed_le_used(s, p - 1);
    }
}

proof fn lemma_charge_le_used<T>(s: Seq<Entry<T>>, j: int)
    requires
        0 <= j < s.len(),
    ensures
        charge(s[j]) <= used_of(s),
        freed_upto(s, s.len() as int) <= used_of(s),
{
    lemma_freed_le_used(s, j);
    lemma_used_monotone(s, j + 1, s.len() as int);
    lemma_freed_le_used(s, s.len() as int);
}

proof fn lemma_used_update<T>(s: Seq<Entry<T>>, j: int, e: Entry<T>, p: int)
    requires
        0 <= j < s.len(),
        0 <= p <= s.len(),
    ensures
        used_upto(s.update(j, e), p) == used_upto(s, p) + (if j < p {
            charge(e) - charge(s[j])
        } else {
            0
        }),
    decreases p,
{
    if p > 0 {
        lemma_used_update(s, j, e, p - 1);
    }
}

proof fn lemma_used_remove<T>(s: Seq<Entry<T>>, i: int, p: int)
    requires
        0 <= i < s.len(),
        0 <= p < s.len(),
    ensures
        used_upto(s.remove(i), p) == if p <= i {
            used_upto(s, p)
        } else {
            used_upto(s, p + 1) - charge(s[i])
        },
    decreases p,
{
    if p > 0 {
        lemma_used_remove(s, i, p - 1);
        assert(s.remove(i)[p - 1] == if p - 1 < i {
            s[p - 1]
        } else {
            s[p]
        });
        if p == i + 1 {
            assert(used_upto(s, p) == used_upto(s, p - 1) + charge(s[p - 1]));
            assert(used_upto(s, p + 1) == used_upto(s, p) + charge(s[p]));
        }
    }
}

proof fn lemma_used_push<T>(s: Seq<Entry<T>>, x: Entry<T>, p: int)
    requires
        0 <= p <= s.len(),
    ensures
        used_upto(s.push(x), p) == used_upto(s, p),
    decreases p,
{
    if p > 0 {
        lemma_used_push(s, x, p - 1);
    }
}

proof fn lemma_touch<T>(s: Seq<Entry<T>>, i: int)
    requires
        0 <= i < s.len(),
        names_unique(s),
    ensures
        used_of(touch(s, i)) == used_of(s),
        touch(s, i).len() == s.len(),
        names_unique(touch(s, i)),
        touch(s, i).last() == s[i],
        forall|n: Seq<char>| name_loaded(touch(s, i), n) <==> name_loaded(s, n),
        forall|n: Seq<char>| has_name(touch(s, i), n) <==> has_name(s, n),
{
    let r = s.remove(i);
    let t = touch(s, i);
    lemma_used_remove(s, i, s.len() - 1);
    lemma_used_push(r, s[i], r.len() as int);
    // each position of the result comes from one position of the input
    assert forall|k: int| 0 <= k < t.len() implies t[k] == s[if k < i {
        k
    } else if k < t.len() - 1 {
        k + 1
    } else {
        i
    }] by {}
    assert forall|k: int| 0 <= k < s.len() implies s[k] == t[if k < i {
        k
    } else if k == i {
        t.len() - 1
    } else {
        k - 1
    }] by {}
}

proof fn lemma_evict_step<T>(s: Seq<Entry<T>>, j: int)
    requires
        0 <= j < s.len(),
    ensures
        evict_prefix(s, j + 1) == if s[j].slot is Loaded {
            evict_prefix(s, j).update(j, emptied(s[j]))
        } else {
            evict_prefix(s, j)
        },
{
    if s[j].slot is Loaded {
        assert(evict_prefix(s, j + 1) =~= evict_prefix(s, j).update(j, emptied(s[j])));
    } else {
        assert(evict_prefix(s, j + 1) =~= evict_prefix(s, j));
    }
}

proof fn lemma_cut<T>(s: Seq<Entry<T>>, q: int, j: int, needed: int, cap: int)
    requires
        0 <= q <= j <= s.len(),
        forall|k: int| q <= k < j ==> !fits_after(s, k, needed, cap),
        j == s.len() || fits_after(s, j, needed, cap),
    ensures
        cut_from(s, q, needed, cap) == j,
    decreases j - q,
{
    if q < j {
        lemma_cut(s, q + 1, j, needed, cap);
    }
}

/// A load request for a model that is loaded already leaves every model's
/// membership in the loaded set as it was, and the memory charged too: it
/// only moves that model to the back of the recency order.
pub proof fn lemma_reload_keeps_loaded_set<T>(s: Seq<Entry<T>>, name: Seq<char>)
    requires
        names_unique(s),
        name_loaded(s, name),
    ensures
        0 <= index_of(s, name) < s.len(),
        forall|n: Seq<char>|
            name_loaded(touch(s, index_of(s, name)), n) <==> name_loaded(s, n),
        used_of(touch(s, index_of(s, name))) == used_of(s),
{
    let k = choose|k: int| 0 <= k < s.len() && (#[trigger] s[k]).name@ == name && s[k].slot is Loaded;
    assert(has_name(s, name));
    lemma_touch(s, index_of(s, name));
}

/// Eviction is minimal: the cut is the shortest prefix of the recency order
/// whose loaded models, once evicted, leave room for `needed` MB, and the
/// last model it evicts is one that was loaded. Fewer evictions in that order
/// would not make room; more would evict a model needlessly.
pub proof fn lemma_eviction_minimal<T>(s: Seq<Entry<T>>, needed: int, cap: int)
    requires
        fits_after(s, s.len() as int, needed, cap),
    ensures
        0 <= eviction_cut(s, needed, cap) <= s.len(),
        fits_after(s, eviction_cut(s, needed, cap), needed, cap),
        forall|q: int| 0 <= q < eviction_cut(s, needed, cap) ==> !fits_after(s, q, needed, cap),
        eviction_cut(s, needed, cap) > 0 ==> s[eviction_cut(s, needed, cap) - 1].slot is Loaded,
        used_of(evict_prefix(s, eviction_cut(s, needed, cap))) == used_of(s) - freed_upto(
            s,
            eviction_cut(s, needed, cap),
        ),
{
    lemma_cut_properties(s, 0, needed, cap);
    let c = eviction_cut(s, needed, cap);
    if c > 0 {
        // freed_upto(s, c) == freed_upto(s, c - 1) would make the shorter cut fit
        assert(!fits_after(s, c - 1, needed, cap));
        if !(s[c - 1].slot is Loaded) {
            assert(freed_upto(s, c) == freed_upto(s, c - 1));
        }
    }
    lemma_evict_used(s, c);
}

proof fn lemma_cut_properties<T>(s: Seq<Entry<T>>, q: int, needed: int, cap: int)
    requires
        0 <= q <= s.len(),
        fits_after(s, s.len() as int, needed, cap),
    ensures
        q <= cut_from(s, q, needed, cap) <= s.len(),
        fits_after(s, cut_from(s, q, needed, cap), needed, cap),
        forall|k: int| q <= k < cut_from(s, q, needed, cap) ==> !fits_after(s, k, needed, cap),
    decreases s.len() - q,
{
    if q < s.len() && !fits_after(s, q, needed, cap) {
        lemma_cut_properties(s, q + 1, needed, cap);
    }
}

proof fn lemma_evict_used<T>(s: Seq<Entry<T>>, p: int)
    requires
        0 <= p <= s.len(),
    ensures
        used_of(evict_prefix(s, p)) == used_of(s) - freed_upto(s, p),
    decreases p,
{
    if p > 0 {
        lemma_evict_used(s, p - 1);
        lemma_evict_step(s, p - 1);
        if s[p - 1].slot is Loaded {
            lemma_used_update(evict_prefix(s, p - 1), p - 1, emptied(s[p - 1]), s.len() as int);
        }
    } else {
        assert(evict_prefix(s, 0) =~= s);
    }
}

/// The entry with `fp` MB reserved for its coming load.
pub open spec fn reserved<T>(e: Entry<T>, fp: u64) -> Entry<T> {
    Entry { name: e.name, footprint_mb: fp, slot: Slot::Reserved }
}

/// The entry with its footprint probed as `fp` MB and its slot unchanged.
pub open spec fn probed<T>(e: Entry<T>, fp: u64) -> Entry<T> {
    Entry { name: e.name, footprint_mb: fp, slot: e.slot }
}

/// The entry holding a loaded instance.
pub open spec fn filled<T>(e: Entry<T>, instance: T) -> Entry<T> {
    Entry { name: e.name, footprint_mb: e.footprint_mb, slot: Slot::Loaded(instance) }
}

/// The outcome of a load request that the ledger admitted.
#[derive(Debug, PartialEq, Eq)]
pub enum Admission {
    /// The model was loaded already; it became the active model.
    AlreadyLoaded,
    /// Memory is reserved; the weights may now be loaded. Holds the names of
    /// the models evicted to make room, least recently used first.
    Reserved(Vec<String>),
}

/// Replacing an entry by one of the same name keeps names unique and changes
/// the loaded status of that name alone.
proof fn lemma_same_name_update<T>(s: Seq<Entry<T>>, j: int, e: Entry<T>)
    requires
        0 <= j < s.len(),
        names_unique(s),
        e.name@ == s[j].name@,
    ensures
        names_unique(s.update(j, e)),
        forall|n: Seq<char>| has_name(s.update(j, e), n) <==> has_name(s, n),
        forall|n: Seq<char>|
            n != s[j].name@ ==> (name_loaded(s.update(j, e), n) <==> name_loaded(s, n)),
        name_loaded(s.update(j, e), s[j].name@) <==> e.slot is Loaded,
{
    let t = s.update(j, e);
    assert forall|n: Seq<char>| has_name(s, n) implies has_name(t, n) by {
        let k = choose|k: int| 0 <= k < s.len() && (#[trigger] s[k]).name@ == n;
        assert(t[k].name@ == n);
    }
    assert forall|n: Seq<char>| n != s[j].name@ && name_loaded(s, n) implies name_loaded(t, n) by {
        let k = choose|k: int| 0 <= k < s.len() && (#[trigger] s[k]).name@ == n && s[k].slot is Loaded;
        assert(t[k] == s[k]);
    }
    assert forall|n: Seq<char>| has_name(t, n) implies has_name(s, n) by {
        let k = choose|k: int| 0 <= k < t.len() && (#[trigger] t[k]).name@ == n;
        assert(s[k].name@ == n);
    }
    assert forall|n: Seq<char>| n != s[j].name@ && name_loaded(t, n) implies name_loaded(s, n) by {
        let k = choose|k: int| 0 <= k < t.len() && (#[trigger] t[k]).name@ == n && t[k].slot is Loaded;
        assert(t[k] == s[k]);
    }
    if e.slot is Loaded {
        assert(t[j].name@ == s[j].name@);
    }
    if name_loaded(t, s[j].name@) {
        let k = choose|k: int| 0 <= k < t.len() && (#[trigger] t[k]).name@ == s[j].name@ && t[k].slot is Loaded;
        assert(k == j);
    }
}

/// Bytes in one mebibyte.
pub const BYTES_PER_MB: u64 = 1048576;

/// Runtime buffers and attention cache added to a model's weight-file size.
pub const MODEL_OVERHEAD_MB: u64 = 500;

/// The footprint of a model whose weight file holds `size_bytes` bytes:
/// whole mebibytes of the file plus [`MODEL_OVERHEAD_MB`], saturating.
pub fn footprint_from_size(size_bytes: u64) -> (r: u64)
    ensures
        r == if size_bytes as int / BYTES_PER_MB as int + MODEL_OVERHEAD_MB <= u64::MAX {
            size_bytes as int / BYTES_PER_MB as int + MODEL_OVERHEAD_MB
        } else {
            u64::MAX as int
        },
{
    let mb = size_bytes / BYTES_PER_MB;
    if mb > u64::MAX - MODEL_OVERHEAD_MB {
        u64::MAX
    } else {
        mb + MODEL_OVERHEAD_MB
    }
}

/// One line of the ledger's status snapshot.
#[derive(Debug, Clone, PartialEq, Eq)]
pub struct ModelStatus {
    pub name: String,
    pub loaded: bool,
    pub footprint_mb: u64,
}

/// Tracks loaded models against a fixed memory capacity.
///
/// Entries are kept in recency order: the least recently used comes first,
/// and every load request moves its model to the back.
pub struct ModelManager<T> {
    entries: Vec<Entry<T>>,
    capacity_mb: u64,
    used_mb: u64,
    active: Option<String>,
}

impl<T> ModelManager<T> {
    /// The registered entries, least recently used first.
    pub closed spec fn entries(&self) -> Seq<Entry<T>> {
        self.entries@
    }

    /// The memory budget in MB.
    pub closed spec fn capacity(&self) -> int {
        self.capacity_mb as int
    }

    /// The default generation target.
    pub closed spec fn active(&self) -> Option<String> {
        self.active
    }

    /// The memory charged right now: loaded and reserved models.
    pub open spec fn used(&self) -> int {
        used_of(self.entries())
    }

    /// The ledger's invariant: the budget holds, names are unique, and the
    /// active pointer names a loaded model.
    pub closed spec fn wf(&self) -> bool {
        &&& self.used_mb as int == used_of(self.entries@)
        &&& self.used_mb <= self.capacity_mb
        &&& names_unique(self.entries@)
        &&& match self.active {
            Some(a) => name_loaded(self.entries@, a@),
            None => true,
        }
    }

    /// An empty ledger with the given capacity.
    pub fn new(capacity_mb: u64) -> (r: Self)
        ensures
            r.wf(),
            r.entries() == Seq::<Entry<T>>::empty(),
            r.capacity() == capacity_mb,
            r.active() is None,
    {
        ModelManager { entries: Vec::new(), capacity_mb, used_mb: 0, active: None }
    }


    /// The position of the entry named `name`, which must exist.
    proof fn lemma_index_of(&self, name: Seq<char>)
        requires
            self.wf(),
            has_name(self.entries@, name),
        ensures
            0 <= index_of(self.entries@, name) < self.entries@.len(),
            self.entries@[index_of(self.entries@, name)].name@ == name,
            forall|k: int| 0 <= k < self.entries@.len() && (#[trigger] self.entries@[k]).name@ == name
                ==> k == index_of(self.entries@, name),
    {
    }

    /// `name` as an owned string, and the position of its entry if any.
    fn locate(&self, name: &str) -> (r: (String, Option<usize>))
        requires
            self.wf(),
        ensures
            r.0@ == name@,
            match r.1 {
                Some(i) => has_name(self.entries@, name@) && i == index_of(self.entries@, name@)
                    && i < self.entries@.len(),
                None => !has_name(self.entries@, name@),
            },
    {
        let key = name.to_owned();
        let found = self.find(&key);
        proof {
            if let Some(i) = found {
                self.lemma_index_of(name@);
            }
        }
        (key, found)
    }

    /// Registers a model with no instance and an unknown footprint.
    pub fn register(&mut self, name: &str) -> (r: Result<(), LedgerError>)
        requires
            old(self).wf(),
        ensures
            final(self).wf(),
            final(self).capacity() == old(self).capacity(),
            final(self).active() == old(self).active(),
            has_name(old(self).entries(), name@) ==> r == Err::<(), LedgerError>(
                LedgerError::AlreadyRegistered,
            ) && final(self).entries() == old(self).entries(),
            !has_name(old(self).entries(), name@) ==> r is Ok && final(self).entries().len()
                == old(self).entries().len() + 1 && final(self).entries().drop_last()
                == old(self).entries() && final(self).entries().last().name@ == name@
                && final(self).entries().last().footprint_mb == 0
                && final(self).entries().last().slot is Empty,
    {
        let (key, found) = self.locate(name);
        if found.is_some() {
            return Err(LedgerError::AlreadyRegistered);
        }
        let ghost s = self.entries@;
        let e = Entry { name: key, footprint_mb: 0, slot: Slot::Empty };
        self.entries.push(e);
        proof {
            let t = self.entries@;
            assert(t.drop_last() =~= s);
            lemma_used_push(s, e, s.len() as int);
            assert forall|n: Seq<char>| name_loaded(s, n) implies name_loaded(t, n) by {
                let k = choose|k: int| 0 <= k < s.len() && (#[trigger] s[k]).name@ == n && s[k].slot is Loaded;
                assert(t[k] == s[k]);
            }
            assert forall|i: int, j: int|
                0 <= i < t.len() && 0 <= j < t.len() && i != j implies (#[trigger] t[i]).name@
                != (#[trigger] t[j]).name@ by {
                if i < s.len() && j < s.len() {
                    assert(t[i] == s[i] && t[j] == s[j]);
                } else if i < s.len() {
                    assert(t[i] == s[i]);
                } else {
                    assert(t[j] == s[j]);
                }
            }
        }
        Ok(())
    }

    /// The memory given back by evicting every loaded model.
    fn freeable_total(&self) -> (r: u64)
        requires
            self.wf(),
        ensures
            r == freed_upto(self.entries@, self.entries@.len() as int),
            r <= self.used_mb,
    {
        let mut total: u64 = 0;
        let mut k: usize = 0;
        while k < self.entries.len()
            invariant
                self.wf(),
                k <= self.entries@.len(),
                total == freed_upto(self.entries@, k as int),
            decreases self.entries@.len() - k,
        {
            proof {
                lemma_freed_le_used(self.entries@, k as int + 1);
                lemma_used_monotone(self.entries@, k as int + 1, self.entries@.len() as int);
            }
            if let Slot::Loaded(_) = &self.entries[k].slot {
                total = total + self.entries[k].footprint_mb;
            }
            k = k + 1;
        }
        proof {
            lemma_freed_le_used(self.entries@, k as int);
        }
        total
    }

    /// Asks to load `name`, whose footprint was probed as `footprint_mb`
    /// (not looked at where the model is loaded already).
    ///
    /// A model that is loaded already stays loaded, becomes the most recently
    /// used and the active model. Otherwise the probed footprint is recorded,
    /// the least recently used loaded models are evicted, as few as make
    /// room, and the footprint is reserved so that no other admission can
    /// count the same memory; the caller then
    /// loads the weights and ends with [`Self::commit_load`] or
    /// [`Self::abort_load`]. Where the model does not fit even with every
    /// loaded model evicted, nothing is evicted and only the footprint is
    /// recorded.
    pub fn load_model(&mut self, name: &str, footprint_mb: u64) -> (r: Result<Admission, LedgerError>)
        requires
            old(self).wf(),
        ensures
            final(self).wf(),
            final(self).capacity() == old(self).capacity(),
            !has_name(old(self).entries(), name@) ==> r == Err::<Admission, LedgerError>(
                LedgerError::NotFound,
            ) && final(self).entries() == old(self).entries() && final(self).active() == old(self).active(),
            has_name(old(self).entries(), name@) ==> ({
                let s = old(self).entries();
                let i = index_of(s, name@);
                let cap = old(self).capacity();
                let cut = eviction_cut(s, footprint_mb as int, cap);
                &&& s[i].slot is Loaded ==> r == Ok::<Admission, LedgerError>(
                    Admission::AlreadyLoaded,
                ) && final(self).entries() == touch(s, i) && final(self).active() is Some
                    && final(self).active()->Some_0@ == name@
                &&& s[i].slot is Reserved ==> r == Err::<Admission, LedgerError>(
                    LedgerError::LoadInProgress,
                ) && final(self).entries() == s && final(self).active() == old(self).active()
                &&& s[i].slot is Empty && !fits_after(s, s.len() as int, footprint_mb as int, cap)
                    ==> r == Err::<Admission, LedgerError>(LedgerError::CapacityExceeded)
                    && final(self).entries() == s.update(i, probed(s[i], footprint_mb))
                    && final(self).active() == old(self).active()
                &&& s[i].slot is Empty && fits_after(s, s.len() as int, footprint_mb as int, cap)
                    ==> r is Ok && r->Ok_0 is Reserved && r->Ok_0->Reserved_0@.map_values(
                    |v: String| v@,
                ) == loaded_names_upto(s, cut) && final(self).entries() == touch(
                    evict_prefix(s, cut).update(i, reserved(s[i], footprint_mb)),
                    i,
                ) && final(self).active() == prune_active(old(self).active(), final(self).entries())
            }),
    {
        let (key, found) = self.locate(name);
        let i = match found {
            None => {
                return Err(LedgerError::NotFound);
            },
            Some(i) => i,
        };
        let ghost s0 = self.entries@;
        let ghost a0 = self.active;
        match &self.entries[i].slot {
            Slot::Loaded(_) => {
                self.move_to_back(i);
                self.active = Some(key);
                proof {
                    lemma_touch(s0, i as int);
                }
                return Ok(Admission::AlreadyLoaded);
            },
            Slot::Reserved => {
                return Err(LedgerError::LoadInProgress);
            },
            Slot::Empty => {},
        }
        let needed = footprint_mb;
        let cap = self.capacity_mb;
        let pinned = self.used_mb - self.freeable_total();
        if needed > cap - pinned {
            // the model stays unloaded, but its probed footprint is kept
            let nm = self.entries[i].name.clone();
            proof {
                lemma_same_name_update(s0, i as int, probed(s0[i as int], needed));
                lemma_used_update(s0, i as int, probed(s0[i as int], needed), s0.len() as int);
                if self.active is Some {
                    let a = self.active->Some_0;
                    let k = choose|k: int|
                        0 <= k < s0.len() && (#[trigger] s0[k]).name@ == a@ && s0[k].slot is Loaded;
                    assert(k != i);
                }
            }
            self.entries.set(i, Entry { name: nm, footprint_mb: needed, slot: Slot::Empty });
            return Err(LedgerError::CapacityExceeded);
        }
        let n = self.entries.len();
        let mut victims: Vec<String> = Vec::new();
        let mut j: usize = 0;
        proof {
            assert(evict_prefix(s0, 0) =~= s0);
        }
        while j < n && needed > cap - self.used_mb
            invariant
                n == s0.len(),
                self.entries@.len() == n,
                j <= n,
                i < n,
                s0[i as int].slot is Empty,
                names_unique(s0),
                cap == self.capacity_mb,
                self.entries@ == evict_prefix(s0, j as int),
                self.used_mb == used_of(s0) - freed_upto(s0, j as int),
                self.used_mb <= cap,
                fits_after(s0, n as int, needed as int, cap as int),
                forall|k: int| 0 <= k < j ==> !fits_after(s0, k, needed as int, cap as int),
                victims@.map_values(|v: String| v@) == loaded_names_upto(s0, j as int),
                self.active == prune_active(a0, self.entries@),
            decreases n - j,
        {
            proof {
                lemma_evict_step(s0, j as int);
                lemma_evict_used(s0, j as int + 1);
                assert(!fits_after(s0, j as int, needed as int, cap as int));
                lemma_freed_le_used(s0, j as int + 1);
                lemma_freed_le_used(s0, n as int);
                assert forall|a: int, b: int|
                    0 <= a < n && 0 <= b < n && a != b implies (#[trigger] self.entries@[a]).name@
                    != (#[trigger] self.entries@[b]).name@ by {
                    assert(self.entries@[a].name == s0[a].name);
                    assert(self.entries@[b].name == s0[b].name);
                }
            }
            if let Slot::Loaded(_) = &self.entries[j].slot {
                let victim = self.entries[j].name.clone();
                let fp = self.entries[j].footprint_mb;
                let is_active = match &self.active {
                    Some(a) => *a == victim,
                    None => false,
                };
                let ghost before = self.entries@;
                proof {
                    lemma_evict_used(s0, j as int);
                    lemma_charge_le_used(before, j as int);
                    lemma_same_name_update(before, j as int, emptied(s0[j as int]));
                    lemma_used_update(before, j as int, emptied(s0[j as int]), n as int);
                }
                self.entries.set(
                    j,
                    Entry { name: victim.clone(), footprint_mb: fp, slot: Slot::Empty },
                );
                self.used_mb = self.used_mb - fp;
                if is_active {
                    self.active = None;
                }
                victims.push(victim);
                proof {
                    assert(victims@.map_values(|v: String| v@) =~= loaded_names_upto(s0, j as int + 1));
                }
            } else {
                proof {
                    assert(loaded_names_upto(s0, j as int + 1) == loaded_names_upto(s0, j as int));
                }
            }
            j = j + 1;
        }
        proof {
            lemma_cut(s0, 0, j as int, needed as int, cap as int);
            lemma_evict_used(s0, j as int);
        }
        let ghost mid = self.entries@;
        let nm = self.entries[i].name.clone();
        proof {
            lemma_same_name_update(mid, i as int, reserved(mid[i as int], needed));
            lemma_used_update(mid, i as int, reserved(mid[i as int], needed), n as int);
            assert forall|a: int, b: int|
                0 <= a < n && 0 <= b < n && a != b implies (#[trigger] mid[a]).name@
                != (#[trigger] mid[b]).name@ by {
                assert(mid[a].name == s0[a].name);
                assert(mid[b].name == s0[b].name);
            }
        }
        self.entries.set(i, Entry { name: nm, footprint_mb: needed, slot: Slot::Reserved });
        self.used_mb = self.used_mb + needed;
        let ghost placed = self.entries@;
        self.move_to_back(i);
        proof {
            lemma_touch(placed, i as int);
            assert(placed =~= evict_prefix(s0, j as int).update(i as int, reserved(s0[i as int], needed)));
        }
        Ok(Admission::Reserved(victims))
    }

    /// Moves entry `i` to the back of the recency order.
    fn move_to_back(&mut self, i: usize)
        requires
            i < old(self).entries@.len(),
        ensures
            final(self).entries@ == touch(old(self).entries@, i as int),
            final(self).capacity_mb == old(self).capacity_mb,
            final(self).used_mb == old(self).used_mb,
            final(self).active == old(self).active,
    {
        let e = self.entries.remove(i);
        self.entries.push(e);
    }

    /// Ends a reservation with the loaded instance, which becomes the active
    /// model.
    pub fn commit_load(&mut self, name: &str, instance: T) -> (r: Result<(), LedgerError>)
        requires
            old(self).wf(),
        ensures
            final(self).wf(),
            final(self).capacity() == old(self).capacity(),
            !has_name(old(self).entries(), name@) ==> r == Err::<(), LedgerError>(
                LedgerError::NotFound,
            ) && final(self).entries() == old(self).entries() && final(self).active() == old(self).active(),
            has_name(old(self).entries(), name@) ==> ({
                let s = old(self).entries();
                let i = index_of(s, name@);
                &&& !(s[i].slot is Reserved) ==> r == Err::<(), LedgerError>(
                    LedgerError::NotReserved,
                ) && final(self).entries() == s && final(self).active() == old(self).active()
                &&& s[i].slot is Reserved ==> r is Ok && final(self).entries() == s.update(
                    i,
                    filled(s[i], instance),
                ) && final(self).active() is Some && final(self).active()->Some_0@ == name@
            }),
    {
        let (key, found) = self.locate(name);
        let i = match found {
            None => {
                return Err(LedgerError::NotFound);
            },
            Some(i) => i,
        };
        if let Slot::Reserved = &self.entries[i].slot {
        } else {
            return Err(LedgerError::NotReserved);
        }
        let ghost s = self.entries@;
        let nm = self.entries[i].name.clone();
        let fp = self.entries[i].footprint_mb;
        proof {
            lemma_same_name_update(s, i as int, filled(s[i as int], instance));
            lemma_used_update(s, i as int, filled(s[i as int], instance), s.len() as int);
        }
        self.entries.set(i, Entry { name: nm, footprint_mb: fp, slot: Slot::Loaded(instance) });
        self.active = Some(key);
        Ok(())
    }

    /// Ends a reservation whose load failed: the footprint is given back.
    pub fn abort_load(&mut self, name: &str) -> (r: Result<(), LedgerError>)
        requires
            old(self).wf(),
        ensures
            final(self).wf(),
            final(self).capacity() == old(self).capacity(),
            final(self).active() == old(self).active(),
            !has_name(old(self).entries(), name@) ==> r == Err::<(), LedgerError>(
                LedgerError::NotFound,
            ) && final(self).entries() == old(self).entries(),
            has_name(old(self).entries(), name@) ==> ({
                let s = old(self).entries();
                let i = index_of(s, name@);
                &&& !(s[i].slot is Reserved) ==> r == Err::<(), LedgerError>(
                    LedgerError::NotReserved,
                ) && final(self).entries() == s
                &&& s[i].slot is Reserved ==> r is Ok && final(self).entries() == s.update(
                    i,
                    emptied(s[i]),
                )
            }),
    {
        let (_key, found) = self.locate(name);
        let i = match found {
            None => {
                return Err(LedgerError::NotFound);
            },
            Some(i) => i,
        };
        if let Slot::Reserved = &self.entries[i].slot {
        } else {
            return Err(LedgerError::NotReserved);
        }
        let ghost s = self.entries@;
        proof {
            lemma_same_name_update(s, i as int, emptied(s[i as int]));
            if self.active is Some {
                let a = self.active->Some_0;
                let k = choose|k: int|
                    0 <= k < s.len() && (#[trigger] s[k]).name@ == a@ && s[k].slot is Loaded;
                assert(k != i);
            }
        }
        self.release(i);
        Ok(())
    }

    /// Empties entry `i`, which is loaded or reserved, and clears the active
    /// pointer if it named that entry.
    fn release(&mut self, i: usize)
        requires
            old(self).wf(),
            i < old(self).entries@.len(),
            occupies(old(self).entries@[i as int]),
        ensures
            final(self).wf(),
            final(self).capacity_mb == old(self).capacity_mb,
            final(self).entries@ == old(self).entries@.update(
                i as int,
                emptied(old(self).entries@[i as int]),
            ),
            final(self).active == prune_active(old(self).active, final(self).entries@),
    {
        let ghost s = self.entries@;
        let nm = self.entries[i].name.clone();
        let fp = self.entries[i].footprint_mb;
        let is_active = match &self.active {
            Some(a) => *a == nm,
            None => false,
        };
        proof {
            lemma_charge_le_used(s, i as int);
            lemma_same_name_update(s, i as int, emptied(s[i as int]));
            lemma_used_update(s, i as int, emptied(s[i as int]), s.len() as int);
        }
        self.entries.set(i, Entry { name: nm, footprint_mb: fp, slot: Slot::Empty });
        self.used_mb = self.used_mb - fp;
        if is_active {
            self.active = None;
        }
    }

    /// Drops the instance of `name` and frees its footprint; the active
    /// pointer is cleared if it named this model.
    pub fn unload_model(&mut self, name: &str) -> (r: Result<(), LedgerError>)
        requires
            old(self).wf(),
        ensures
            final(self).wf(),
            final(self).capacity() == old(self).capacity(),
            !name_loaded(old(self).entries(), name@) ==> r == Err::<(), LedgerError>(
                LedgerError::NotLoaded,
            ) && final(self).entries() == old(self).entries() && final(self).active() == old(self).active(),
            name_loaded(old(self).entries(), name@) ==> ({
                let s = old(self).entries();
                let i = index_of(s, name@);
                &&& r is Ok
                &&& final(self).entries() == s.update(i, emptied(s[i]))
                &&& final(self).active() == match old(self).active() {
                    Some(a) => if a@ == name@ {
                        None
                    } else {
                        Some(a)
                    },
                    None => None,
                }
            }),
    {
        let (_key, found) = self.locate(name);
        let i = match found {
            None => {
                return Err(LedgerError::NotLoaded);
            },
            Some(i) => i,
        };
        proof {
            self.lemma_index_of(name@);
        }
        if let Slot::Loaded(_) = &self.entries[i].slot {
        } else {
            return Err(LedgerError::NotLoaded);
        }
        let ghost s = self.entries@;
        self.release(i);
        proof {
            lemma_same_name_update(s, i as int, emptied(s[i as int]));
        }
        Ok(())
    }

    /// Makes the loaded model `name` the default generation target.
    pub fn set_active(&mut self, name: &str) -> (r: Result<(), LedgerError>)
        requires
            old(self).wf(),
        ensures
            final(self).wf(),
            final(self).capacity() == old(self).capacity(),
            final(self).entries() == old(self).entries(),
            !has_name(old(self).entries(), name@) ==> r == Err::<(), LedgerError>(
                LedgerError::NotFound,
            ) && final(self).active() == old(self).active(),
            has_name(old(self).entries(), name@) && !name_loaded(old(self).entries(), name@) ==> r
                == Err::<(), LedgerError>(LedgerError::NotLoaded) && final(self).active() == old(self).active(),
            name_loaded(old(self).entries(), name@) ==> r is Ok && final(self).active() is Some
                && final(self).active()->Some_0@ == name@,
    {
        let (key, found) = self.locate(name);
        let i = match found {
            None => {
                return Err(LedgerError::NotFound);
            },
            Some(i) => i,
        };
        proof {
            self.lemma_index_of(name@);
        }
        if let Slot::Loaded(_) = &self.entries[i].slot {
            self.active = Some(key);
            Ok(())
        } else {
            Err(LedgerError::NotLoaded)
        }
    }

    /// The name of the active model.
    pub fn get_active(&self) -> (r: Option<String>)
        ensures
            r == self.active(),
    {
        self.active.clone()
    }

    /// The instance of the loaded model `name`.
    pub fn get_model(&self, name: &str) -> (r: Result<&T, LedgerError>)
        requires
            self.wf(),
        ensures
            !has_name(self.entries(), name@) ==> r == Err::<&T, LedgerError>(LedgerError::NotFound),
            has_name(self.entries(), name@) && !name_loaded(self.entries(), name@) ==> r == Err::<
                &T,
                LedgerError,
            >(LedgerError::NotLoaded),
            name_loaded(self.entries(), name@) ==> r is Ok && self.entries()[index_of(
                self.entries(),
                name@,
            )].slot == Slot::Loaded(*r->Ok_0),
    {
        let (_key, found) = self.locate(name);
        let i = match found {
            None => {
                return Err(LedgerError::NotFound);
            },
            Some(i) => i,
        };
        proof {
            self.lemma_index_of(name@);
        }
        match &self.entries[i].slot {
            Slot::Loaded(t) => Ok(t),
            _ => Err(LedgerError::NotLoaded),
        }
    }

    /// Whether `name` holds a loaded instance.
    pub fn is_loaded(&self, name: &str) -> (r: bool)
        requires
            self.wf(),
        ensures
            r == name_loaded(self.entries(), name@),
    {
        match self.get_model(name) {
            Ok(_) => true,
            Err(_) => false,
        }
    }

    /// The names of the loaded models, least recently used first.
    pub fn list_loaded(&self) -> (r: Vec<String>)
        ensures
            r@.map_values(|v: String| v@) == loaded_names(self.entries()),
    {
        let mut out: Vec<String> = Vec::new();
        let mut k: usize = 0;
        while k < self.entries.len()
            invariant
                k <= self.entries@.len(),
                out@.map_values(|v: String| v@) == loaded_names_upto(self.entries@, k as int),
            decreases self.entries@.len() - k,
        {
            if let Slot::Loaded(_) = &self.entries[k].slot {
                out.push(self.entries[k].name.clone());
                proof {
                    assert(out@.map_values(|v: String| v@) =~= loaded_names_upto(
                        self.entries@,
                        k as int + 1,
                    ));
                }
            }
            k = k + 1;
        }
        out
    }

    /// A snapshot of every registered model, least recently used first.
    pub fn list(&self) -> (r: Vec<ModelStatus>)
        ensures
            r@.len() == self.entries().len(),
            forall|k: int|
                0 <= k < r@.len() ==> (#[trigger] r@[k]).name@ == self.entries()[k].name@
                    && r@[k].loaded == (self.entries()[k].slot is Loaded) && r@[k].footprint_mb
                    == self.entries()[k].footprint_mb,
    {
        let mut out: Vec<ModelStatus> = Vec::new();
        let mut k: usize = 0;
        while k < self.entries.len()
            invariant
                k <= self.entries@.len(),
                out@.len() == k,
                forall|q: int|
                    0 <= q < k ==> (#[trigger] out@[q]).name@ == self.entries@[q].name@
                        && out@[q].loaded == (self.entries@[q].slot is Loaded)
                        && out@[q].footprint_mb == self.entries@[q].footprint_mb,
            decreases self.entries@.len() - k,
        {
            let loaded = match &self.entries[k].slot {
                Slot::Loaded(_) => true,
                _ => false,
            };
            out.push(
                ModelStatus {
                    name: self.entries[k].name.clone(),
                    loaded,
                    footprint_mb: self.entries[k].footprint_mb,
                },
            );
            k = k + 1;
        }
        out
    }

    /// The memory charged right now, in MB.
    pub fn used_mb(&self) -> (r: u64)
        requires
            self.wf(),
        ensures
            r == self.used(),
    {
        self.used_mb
    }

    /// The memory budget, in MB.
    pub fn capacity_mb(&self) -> (r: u64)
        ensures
            r == self.capacity(),
    {
        self.capacity_mb
    }

    /// A well-formed ledger is within its budget and its active pointer, if
    /// set, names a loaded model. Every operation of the ledger takes a
    /// well-formed ledger to a well-formed one, so this holds after any
    /// sequence of loads, commits, aborts, evictions and unloads.
    pub proof fn lemma_budget_holds(&self)
        requires
            self.wf(),
        ensures
            self.used() <= self.capacity(),
            names_unique(self.entries()),
            match self.active() {
                Some(a) => name_loaded(self.entries(), a@),
                None => true,
            },
    {
    }

    /// The model a request runs on: the one it names, or else the active
    /// model, with its instance.
    pub fn resolve(&self, requested: Option<&str>) -> (r: Result<(String, &T), LedgerError>)
        requires
            self.wf(),
        ensures
            requested is None && self.active() is None ==> r == Err::<(String, &T), LedgerError>(
                LedgerError::NoActiveModel,
            ),
            ({
                let target = match requested {
                    Some(n) => n@,
                    None => self.active()->Some_0@,
                };
                (requested is Some || self.active() is Some) ==> {
                    &&& !has_name(self.entries(), target) ==> r == Err::<(String, &T), LedgerError>(
                        LedgerError::NotFound,
                    )
                    &&& has_name(self.entries(), target) && !name_loaded(self.entries(), target)
                        ==> r == Err::<(String, &T), LedgerError>(LedgerError::NotLoaded)
                    &&& name_loaded(self.entries(), target) ==> r is Ok && r->Ok_0.0@ == target
                        && self.entries()[index_of(self.entries(), target)].slot == Slot::Loaded(
                        *r->Ok_0.1,
                    )
                }
            }),
    {
        let target: String = match requested {
            Some(n) => n.to_owned(),
            None => match &self.active {
                Some(a) => a.clone(),
                None => {
                    return Err(LedgerError::NoActiveModel);
                },
            },
        };
        match self.get_model(target.as_str()) {
            Ok(t) => Ok((target, t)),
            Err(e) => Err(e),
        }
    }

    /// The position of the entry named `name`.
    fn find(&self, name: &String) -> (r: Option<usize>)
        ensures
            match r {
                Some(i) => i < self.entries@.len() && self.entries@[i as int].name@ == name@,
                None => !has_name(self.entries@, name@),
            },
    {
        let mut i: usize = 0;
        while i < self.entries.len()
            invariant
                i <= self.entries@.len(),
                forall|k: int| 0 <= k < i ==> (#[trigger] self.entries@[k]).name@ != name@,
            decreases self.entries@.len() - i,
        {
            if self.entries[i].name == *name {
                return Some(i);
            }
            i = i + 1;
        }
        None
    }
}

} // verus!
