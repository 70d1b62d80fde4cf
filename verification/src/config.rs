//! In-memory configuration snapshot merged from discovery watch events.
//!
//! Every key carries the revision of the update that set it, and the store
//! carries the snapshot revision, the highest accepted so far. An update is
//! accepted only when its revision strictly exceeds the snapshot revision,
//! so the snapshot revision strictly increases with every accepted update;
//! merging is thereby idempotent under duplicate delivery, monotonic per
//! key, and every accepted change is observable through `changed_since`.

use vstd::prelude::*;

verus! {

/// The mathematical content of one entry: key characters, value characters,
/// and the revision stamp that set the value.
pub type EntryView = (Seq<char>, Seq<char>, u64);

/// One configuration key with its current value and the revision that set it.
pub struct ConfigEntry {
    pub key: String,
    pub value: String,
    pub revision: u64,
}

impl ConfigEntry {
    pub open spec fn view_triple(self) -> EntryView {
        (self.key@, self.value@, self.revision)
    }
}

/// The abstract content of a list of entries.
pub open spec fn entries_view(s: Seq<ConfigEntry>) -> Seq<EntryView> {
    s.map_values(|e: ConfigEntry| e.view_triple())
}

/// Index of the first entry whose key reads `k`, or -1 when no entry does.
pub open spec fn find_index(s: Seq<EntryView>, k: Seq<char>) -> int
    decreases s.len(),
{
    if s.len() == 0 {
        -1
    } else if s[0].0 == k {
        0
    } else {
        let rest = find_index(s.drop_first(), k);
        if rest == -1 {
            -1
        } else {
            rest + 1
        }
    }
}

/// Whether some entry holds key `k`.
pub open spec fn has_key(s: Seq<EntryView>, k: Seq<char>) -> bool {
    find_index(s, k) != -1
}

/// The revision currently held for key `k`; 0 when the key is absent, so
/// any genuine update (revision >= 1) to a fresh key is accepted.
pub open spec fn held_rev(s: Seq<EntryView>, k: Seq<char>) -> u64 {
    if has_key(s, k) {
        s[find_index(s, k)].2
    } else {
        0
    }
}

/// The value currently held for key `k`, when present.
pub open spec fn held_val(s: Seq<EntryView>, k: Seq<char>) -> Option<Seq<char>> {
    if has_key(s, k) {
        Some(s[find_index(s, k)].1)
    } else {
        None
    }
}

/// Well-formed entry list: keys are unique and every revision is at least 1.
pub open spec fn wf_entries(s: Seq<EntryView>) -> bool {
    &&& forall|i: int, j: int| 0 <= i < j < s.len() ==> s[i].0 != s[j].0
    &&& forall|i: int| 0 <= i < s.len() ==> #[trigger] s[i].2 >= 1
}

/// One merge step: accept (key, value, revision) only when the revision is
/// strictly newer than the revision currently held for the key.
pub open spec fn spec_apply(s: Seq<EntryView>, k: Seq<char>, v: Seq<char>, r: u64) -> Seq<
    EntryView,
> {
    if r > held_rev(s, k) {
        let i = find_index(s, k);
        if i == -1 {
            s.push((k, v, r))
        } else {
            s.update(i, (k, v, r))
        }
    } else {
        s
    }
}

/// One store step over content and snapshot revision: an update is accepted
/// only when its revision strictly exceeds the snapshot revision, so that
/// revision strictly increases with every accepted update, and a stale or
/// duplicate delivery, for any key, is a no-op.
pub open spec fn store_apply(s: Seq<EntryView>, rev: u64, k: Seq<char>, v: Seq<char>, r: u64) -> (
    Seq<EntryView>,
    u64,
) {
    if r > rev {
        (spec_apply(s, k, v, r), r)
    } else {
        (s, rev)
    }
}

/// Folding a whole sequence of updates over the store, oldest first.
pub open spec fn store_apply_all(s: Seq<EntryView>, rev: u64, us: Seq<EntryView>) -> (
    Seq<EntryView>,
    u64,
)
    decreases us.len(),
{
    if us.len() == 0 {
        (s, rev)
    } else {
        let t = store_apply(s, rev, us[0].0, us[0].1, us[0].2);
        store_apply_all(t.0, t.1, us.drop_first())
    }
}

proof fn lemma_find_index_bounds(s: Seq<EntryView>, k: Seq<char>)
    ensures
        find_index(s, k) == -1 || (0 <= find_index(s, k) < s.len() && s[find_index(s, k)].0 == k),
        find_index(s, k) == -1 ==> forall|j: int| 0 <= j < s.len() ==> s[j].0 != k,
    decreases s.len(),
{
    if s.len() != 0 && s[0].0 != k {
        lemma_find_index_bounds(s.drop_first(), k);
        if find_index(s, k) == -1 {
            assert forall|j: int| 0 <= j < s.len() implies s[j].0 != k by {
                if j > 0 {
                    assert(s.drop_first()[j - 1] == s[j]);
                }
            }
        }
    }
}

/// `find_index` returns the first matching index: if everything before `i`
/// misses and `i` hits, the result is `i`.
proof fn lemma_find_index_first(s: Seq<EntryView>, k: Seq<char>, i: int)
    requires
        0 <= i < s.len(),
        s[i].0 == k,
        forall|j: int| 0 <= j < i ==> s[j].0 != k,
    ensures
        find_index(s, k) == i,
    decreases s.len(),
{
    if i > 0 {
        assert forall|j: int| 0 <= j < i - 1 implies s.drop_first()[j].0 != k by {
            assert(s.drop_first()[j] == s[j + 1]);
        }
        assert(s.drop_first()[i - 1] == s[i]);
        lemma_find_index_first(s.drop_first(), k, i - 1);
    }
}

proof fn lemma_find_index_none(s: Seq<EntryView>, k: Seq<char>)
    requires
        forall|j: int| 0 <= j < s.len() ==> s[j].0 != k,
    ensures
        find_index(s, k) == -1,
    decreases s.len(),
{
    if s.len() != 0 {
        assert forall|j: int| 0 <= j < s.drop_first().len() implies s.drop_first()[j].0 != k by {
            assert(s.drop_first()[j] == s[j + 1]);
        }
        lemma_find_index_none(s.drop_first(), k);
    }
}

/// Replacing the entry at `i` with one that keeps the same key leaves every
/// lookup index unchanged.
proof fn lemma_find_index_update(s: Seq<EntryView>, i: int, e: EntryView, k2: Seq<char>)
    requires
        0 <= i < s.len(),
        e.0 == s[i].0,
    ensures
        find_index(s.update(i, e), k2) == find_index(s, k2),
    decreases s.len(),
{
    let t = s.update(i, e);
    assert(t.len() == s.len());
    assert(t[0].0 == s[0].0);
    if s[0].0 != k2 {
        if i == 0 {
            assert(t.drop_first() =~= s.drop_first());
        } else {
            assert(t.drop_first() =~= s.drop_first().update(i - 1, e));
            assert(s.drop_first()[i - 1] == s[i]);
            lemma_find_index_update(s.drop_first(), i - 1, e, k2);
        }
    }
}

/// Appending an entry with a fresh key leaves old lookups unchanged and
/// makes the new key resolve to the last slot.
proof fn lemma_find_index_push(s: Seq<EntryView>, e: EntryView, k2: Seq<char>)
    ensures
        find_index(s.push(e), k2) == if has_key(s, k2) {
            find_index(s, k2)
        } else if e.0 == k2 {
            s.len() as int
        } else {
            -1
        },
    decreases s.len(),
{
    let t = s.push(e);
    if s.len() == 0 {
        assert(t[0] == e);
        assert(t.drop_first() =~= Seq::<EntryView>::empty());
        if e.0 == k2 {
            assert(find_index(t, k2) == 0);
        } else {
            assert(find_index(t.drop_first(), k2) == -1);
            assert(find_index(t, k2) == -1);
        }
        assert(find_index(s, k2) == -1);
    } else {
        assert(t[0] == s[0]);
        if s[0].0 == k2 {
            assert(find_index(t, k2) == 0);
            assert(find_index(s, k2) == 0);
        } else {
            assert(t.drop_first() =~= s.drop_first().push(e));
            lemma_find_index_push(s.drop_first(), e, k2);
            lemma_find_index_bounds(s.drop_first(), k2);
            let rest = find_index(t.drop_first(), k2);
            if has_key(s.drop_first(), k2) {
                assert(rest == find_index(s.drop_first(), k2));
                assert(rest >= 0);
                assert(find_index(t, k2) == rest + 1);
                assert(find_index(s, k2) == rest + 1);
            } else if e.0 == k2 {
                assert(rest == s.drop_first().len() as int);
                assert(find_index(t, k2) == rest + 1);
                assert(find_index(s, k2) == -1);
            } else {
                assert(rest == -1);
                assert(find_index(t, k2) == -1);
                assert(find_index(s, k2) == -1);
            }
        }
    }
}

/// One accepted update raises the key's revision to exactly `r`, sets its
/// value to `v`, and leaves every other key untouched; a rejected update
/// changes nothing.
pub proof fn lemma_apply_effect(s: Seq<EntryView>, k: Seq<char>, v: Seq<char>, r: u64)
    requires
        wf_entries(s),
    ensures
        wf_entries(spec_apply(s, k, v, r)),
        r > held_rev(s, k) ==> held_rev(spec_apply(s, k, v, r), k) == r && held_val(
            spec_apply(s, k, v, r),
            k,
        ) == Some(v),
        r <= held_rev(s, k) ==> spec_apply(s, k, v, r) == s,
        forall|k2: Seq<char>| k2 != k ==> held_rev(spec_apply(s, k, v, r), k2) == held_rev(s, k2)
            && held_val(spec_apply(s, k, v, r), k2) == held_val(s, k2),
{
    lemma_find_index_bounds(s, k);
    let i = find_index(s, k);
    if r > held_rev(s, k) {
        if i == -1 {
            let t = s.push((k, v, r));
            assert forall|k2: Seq<char>| true implies find_index(t, k2) == (if has_key(s, k2) {
                find_index(s, k2)
            } else if k2 == k {
                s.len() as int
            } else {
                -1
            }) by {
                lemma_find_index_push(s, (k, v, r), k2);
            }
            assert forall|k2: Seq<char>| has_key(s, k2) implies t[find_index(s, k2)] == s[find_index(s, k2)] by {
                lemma_find_index_bounds(s, k2);
            }
            assert(wf_entries(t)) by {
                assert forall|a: int, b: int| 0 <= a < b < t.len() implies t[a].0 != t[b].0 by {
                    if b == s.len() {
                        if t[a].0 == k {
                            lemma_find_index_first(s, k, a);
                        }
                    }
                }
                assert forall|a: int| 0 <= a < t.len() implies #[trigger] t[a].2 >= 1 by {
                    if a < s.len() {
                        assert(s[a].2 >= 1);
                    }
                }
            }
        } else {
            let t = s.update(i, (k, v, r));
            assert forall|k2: Seq<char>| true implies find_index(t, k2) == find_index(s, k2) by {
                lemma_find_index_update(s, i, (k, v, r), k2);
            }
            assert forall|k2: Seq<char>| k2 != k && has_key(s, k2) implies t[find_index(s, k2)]
                == s[find_index(s, k2)] by {
                lemma_find_index_bounds(s, k2);
            }
            assert(wf_entries(t)) by {
                assert forall|a: int, b: int| 0 <= a < b < t.len() implies t[a].0 != t[b].0 by {
                    assert(s[a].0 != s[b].0);
                }
                assert forall|a: int| 0 <= a < t.len() implies #[trigger] t[a].2 >= 1 by {
                    assert(s[a].2 >= 1);
                }
            }
        }
    }
}

/// Idempotence law: applying the very same (key, value, revision) update
/// twice yields the same store as applying it once; the second delivery's
/// revision no longer exceeds the snapshot revision and is rejected.
pub proof fn lemma_apply_idempotent(s: Seq<EntryView>, rev: u64, k: Seq<char>, v: Seq<char>, r: u64)
    ensures
        store_apply(store_apply(s, rev, k, v, r).0, store_apply(s, rev, k, v, r).1, k, v, r)
            == store_apply(s, rev, k, v, r),
{
}

/// Monotonicity of one step: no key's held revision ever decreases.
pub proof fn lemma_apply_monotonic(s: Seq<EntryView>, k: Seq<char>, v: Seq<char>, r: u64)
    requires
        wf_entries(s),
    ensures
        wf_entries(spec_apply(s, k, v, r)),
        forall|k2: Seq<char>|
            #[trigger] held_rev(spec_apply(s, k, v, r), k2) >= held_rev(s, k2),
{
    lemma_apply_effect(s, k, v, r);
}

/// Monotonicity law: across any sequence of updates, the snapshot revision
/// and the revision held for any key never decrease.
pub proof fn lemma_store_monotonic(s: Seq<EntryView>, rev: u64, us: Seq<EntryView>, k: Seq<char>)
    requires
        wf_entries(s),
    ensures
        wf_entries(store_apply_all(s, rev, us).0),
        held_rev(store_apply_all(s, rev, us).0, k) >= held_rev(s, k),
        store_apply_all(s, rev, us).1 >= rev,
    decreases us.len(),
{
    if us.len() != 0 {
        let t = store_apply(s, rev, us[0].0, us[0].1, us[0].2);
        if us[0].2 > rev {
            lemma_apply_monotonic(s, us[0].0, us[0].1, us[0].2);
        }
        lemma_store_monotonic(t.0, t.1, us.drop_first(), k);
    }
}

/// An immutable configuration snapshot: the merged entries plus the highest
/// revision accepted so far.
pub struct ConfigSnapshot {
    pub entries: Vec<ConfigEntry>,
    pub revision: u64,
}

impl View for ConfigSnapshot {
    type V = Seq<EntryView>;

    open spec fn view(&self) -> Seq<EntryView> {
        entries_view(self.entries@)
    }
}

impl ConfigSnapshot {
    /// Entries are well formed and no entry's revision exceeds the
    /// snapshot revision.
    pub open spec fn wf(self) -> bool {
        &&& wf_entries(self@)
        &&& forall|i: int| 0 <= i < self@.len() ==> #[trigger] self@[i].2 <= self.revision
    }

    /// The value held for `key` in this snapshot, if any.
    pub fn get<'a>(&'a self, key: &String) -> (r: Option<&'a String>)
        ensures
            match r {
                Some(v) => held_val(self@, key@) == Some(v@),
                None => held_val(self@, key@) is None,
            },
    {
        let idx = find_entry(&self.entries, key);
        match idx {
            Some(i) => Some(&self.entries[i].value),
            None => None,
        }
    }
}

/// The authoritative local view of configuration: a snapshot kept current by
/// merging watch events in revision order per key.
pub struct ConfigStore {
    pub entries: Vec<ConfigEntry>,
    pub revision: u64,
}

impl View for ConfigStore {
    type V = Seq<EntryView>;

    open spec fn view(&self) -> Seq<EntryView> {
        entries_view(self.entries@)
    }
}

/// Index of the first entry holding `key`, as executable search.
fn find_entry(entries: &Vec<ConfigEntry>, key: &String) -> (idx: Option<usize>)
    ensures
        match idx {
            Some(i) => i < entries@.len() && find_index(entries_view(entries@), key@) == i as int,
            None => find_index(entries_view(entries@), key@) == -1,
        },
{
    let n = entries.len();
    let mut i: usize = 0;
    while i < n
        invariant
            i <= n,
            n == entries@.len(),
            forall|j: int| 0 <= j < i ==> entries_view(entries@)[j].0 != key@,
        decreases n - i,
    {
        if entries[i].key == *key {
            proof {
                lemma_find_index_first(entries_view(entries@), key@, i as int);
            }
            return Some(i);
        }
        i += 1;
    }
    proof {
        lemma_find_index_none(entries_view(entries@), key@);
    }
    None
}

impl ConfigStore {
    /// Entries are well formed and no entry's revision exceeds the store
    /// revision.
    pub open spec fn wf(self) -> bool {
        &&& wf_entries(self@)
        &&& forall|i: int| 0 <= i < self@.len() ==> #[trigger] self@[i].2 <= self.revision
    }

    /// A fresh store: no keys, revision 0.
    pub fn new() -> (s: Self)
        ensures
            s.wf(),
            s@ == Seq::<EntryView>::empty(),
            s.revision == 0,
    {
        let s = ConfigStore { entries: Vec::new(), revision: 0 };
        proof {
            assert(s@ =~= Seq::<EntryView>::empty());
        }
        s
    }

    /// Merge one incoming (key, value, revision) change. The update is
    /// accepted exactly when its revision is strictly greater than the
    /// snapshot revision, which therefore strictly increases with every
    /// accepted update; a stale or duplicate delivery, for any key, is a
    /// no-op. The revision held for every key never decreases.
    pub fn apply(&mut self, key: String, value: String, revision: u64) -> (accepted: bool)
        requires
            old(self).wf(),
        ensures
            final(self).wf(),
            accepted == (revision > old(self).revision),
            final(self)@ == store_apply(old(self)@, old(self).revision, key@, value@, revision).0,
            final(self).revision == store_apply(
                old(self)@,
                old(self).revision,
                key@,
                value@,
                revision,
            ).1,
            accepted ==> held_rev(final(self)@, key@) == revision && held_val(final(self)@, key@)
                == Some(value@),
            forall|k2: Seq<char>| #[trigger] held_rev(final(self)@, k2) >= held_rev(old(self)@, k2),
            final(self).revision >= old(self).revision,
    {
        if revision <= self.revision {
            return false;
        }
        let ghost s0 = self@;
        proof {
            lemma_find_index_bounds(s0, key@);
            assert(revision > held_rev(s0, key@));
            lemma_apply_effect(s0, key@, value@, revision);
            lemma_apply_monotonic(s0, key@, value@, revision);
        }
        let idx = find_entry(&self.entries, &key);
        match idx {
            Some(i) => {
                self.entries[i] = ConfigEntry { key, value, revision };
            },
            None => {
                self.entries.push(ConfigEntry { key, value, revision });
            },
        }
        self.revision = revision;
        proof {
            assert(self@ =~= spec_apply(s0, key@, value@, revision));
        }
        true
    }

    /// Whether anything has been accepted after the given revision; the
    /// control loop uses this to decide whether a re-render is required.
    pub fn changed_since(&self, revision: u64) -> (b: bool)
        ensures
            b == (self.revision > revision),
    {
        self.revision > revision
    }

    /// The value currently held for `key`, if any.
    pub fn get<'a>(&'a self, key: &String) -> (r: Option<&'a String>)
        ensures
            match r {
                Some(v) => held_val(self@, key@) == Some(v@),
                None => held_val(self@, key@) is None,
            },
    {
        let idx = find_entry(&self.entries, key);
        match idx {
            Some(i) => Some(&self.entries[i].value),
            None => None,
        }
    }

    /// The latest merged snapshot; read-only.
    pub fn current(&self) -> (snap: ConfigSnapshot)
        ensures
            snap@ == self@,
            snap.revision == self.revision,
            self.wf() ==> snap.wf(),
    {
        let n = self.entries.len();
        let mut out: Vec<ConfigEntry> = Vec::new();
        let mut i: usize = 0;
        while i < n
            invariant
                i <= n,
                n == self.entries@.len(),
                out@.len() == i,
                forall|j: int| 0 <= j < i ==> out@[j] == self.entries@[j],
            decreases n - i,
        {
            let e = &self.entries[i];
            out.push(ConfigEntry { key: e.key.clone(), value: e.value.clone(), revision: e.revision });
            i += 1;
        }
        let snap = ConfigSnapshot { entries: out, revision: self.revision };
        proof {
            assert(snap@ =~= self@);
        }
        snap
    }
}

} // verus!
