//! Keyed page storage retained independently from the element tree.
//!
//! Values are JSON, addressed by an ordered chain of ancestor keys. An empty
//! chain addresses nothing: only keyed state is saved.
use vstd::prelude::*;
use serde_json::Value;
use crate::back_dispatch::copy_json;
use crate::widget::Widget;

verus! {

/// Whether two JSON values compare equal under `serde_json::Value`'s `==`.
pub uninterp spec fn json_values_equal(a: Value, b: Value) -> bool;

/// Compares two JSON values (`serde_json::Value`'s derived `==`): the answer
/// is [`json_values_equal`] of the two values, and a value compares equal to
/// itself (JSON numbers hold no NaN). Values that compare equal need not be
/// identical (a negative and a positive zero do).
#[verifier::external_body]
fn json_equal(a: &Value, b: &Value) -> (r: bool)
    ensures
        r == json_values_equal(*a, *b),
        *a == *b ==> r,
{
    a == b
}

/// One key of a page-storage identifier, by its key identity.
#[derive(Clone, Copy, Debug, PartialEq, Eq, Structural)]
pub struct PageStorageKey {
    key_id: u64,
}

impl View for PageStorageKey {
    type V = u64;

    closed spec fn view(&self) -> u64 {
        self.key_id
    }
}

impl PageStorageKey {
    /// The key with identity `key_id`.
    pub fn new(key_id: u64) -> (r: Self)
        ensures
            r@ == key_id,
    {
        PageStorageKey { key_id }
    }

    /// The key identity used by retained widget reconciliation.
    pub fn key_id(&self) -> (r: u64)
        ensures
            r == self@,
    {
        self.key_id
    }
}

/// The ancestor-key chain that addresses one page-storage value.
pub struct PageStorageIdentifier {
    keys: Vec<PageStorageKey>,
}

/// The key identities of a chain of keys.
pub open spec fn key_ids(keys: Seq<PageStorageKey>) -> Seq<u64> {
    keys.map_values(|k: PageStorageKey| k@)
}

impl View for PageStorageIdentifier {
    type V = Seq<u64>;

    closed spec fn view(&self) -> Seq<u64> {
        key_ids(self.keys@)
    }
}

impl PageStorageIdentifier {
    /// An identifier from an ordered ancestor-key chain.
    pub fn new(keys: Vec<PageStorageKey>) -> (r: Self)
        ensures
            r@ == key_ids(keys@),
    {
        PageStorageIdentifier { keys }
    }

    /// A one-key identifier.
    pub fn key(key: PageStorageKey) -> (r: Self)
        ensures
            r@ == seq![key@],
    {
        let mut keys: Vec<PageStorageKey> = Vec::new();
        keys.push(key);
        let r = PageStorageIdentifier { keys };
        assert(r@ =~= seq![key@]);
        r
    }

    /// The ordered key chain.
    pub fn keys(&self) -> (r: &[PageStorageKey])
        ensures
            key_ids(r@) == self@,
    {
        self.keys.as_slice()
    }

    /// Whether the identifier has no key and so addresses no state.
    pub fn is_empty(&self) -> (r: bool)
        ensures
            r == (self@.len() == 0),
    {
        self.keys.len() == 0
    }

    /// Appends one nested ancestor key.
    pub fn push(&mut self, key: PageStorageKey)
        ensures
            final(self)@ == old(self)@.push(key@),
    {
        self.keys.push(key);
        assert(self@ =~= old(self)@.push(key@));
    }

    /// A copy of the identifier.
    pub fn copy(&self) -> (r: Self)
        ensures
            r@ == self@,
    {
        let mut keys: Vec<PageStorageKey> = Vec::new();
        let mut i: usize = 0;
        while i < self.keys.len()
            invariant
                i <= self.keys@.len(),
                keys@ == self.keys@.take(i as int),
            decreases self.keys@.len() - i,
        {
            keys.push(self.keys[i]);
            assert(keys@ =~= self.keys@.take(i as int + 1));
            i += 1;
        }
        assert(keys@ =~= self.keys@);
        PageStorageIdentifier { keys }
    }

    /// Whether two identifiers name the same chain.
    pub fn same_as(&self, other: &PageStorageIdentifier) -> (r: bool)
        ensures
            r == (self@ == other@),
    {
        if self.keys.len() != other.keys.len() {
            assert(self@.len() != other@.len());
            return false;
        }
        let mut i: usize = 0;
        while i < self.keys.len()
            invariant
                self.keys@.len() == other.keys@.len(),
                i <= self.keys@.len(),
                forall|j: int| 0 <= j < i ==> self@[j] == other@[j],
            decreases self.keys@.len() - i,
        {
            if self.keys[i].key_id != other.keys[i].key_id {
                assert(self@[i as int] != other@[i as int]);
                return false;
            }
            i += 1;
        }
        assert(self@ =~= other@);
        true
    }
}

/// The stored values of a list of entries, keyed by identifier.
pub open spec fn entries_map(es: Seq<(Seq<u64>, Value)>) -> Map<Seq<u64>, Value>
    decreases es.len(),
{
    if es.len() == 0 {
        Map::empty()
    } else {
        entries_map(es.drop_last()).insert(es.last().0, es.last().1)
    }
}

/// No identifier occurs twice and none is empty.
pub open spec fn entries_wf(es: Seq<(Seq<u64>, Value)>) -> bool {
    &&& forall|i: int, j: int| 0 <= i < j < es.len() ==> (#[trigger] es[i]).0 != (#[trigger] es[j]).0
    &&& forall|i: int| 0 <= i < es.len() ==> (#[trigger] es[i]).0.len() > 0
}

proof fn lemma_entries_map_contains(es: Seq<(Seq<u64>, Value)>)
    requires
        entries_wf(es),
    ensures
        entries_map(es).dom().finite(),
        entries_map(es).dom().len() == es.len(),
        forall|k: Seq<u64>| #[trigger] entries_map(es).dom().contains(k)
            <==> exists|i: int| 0 <= i < es.len() && (#[trigger] es[i]).0 == k,
        forall|i: int| 0 <= i < es.len() ==> entries_map(es)[(#[trigger] es[i]).0] == es[i].1,
    decreases es.len(),
{
    if es.len() > 0 {
        let init = es.drop_last();
        assert(entries_wf(init)) by {
            assert forall|i: int, j: int| 0 <= i < j < init.len() implies (#[trigger] init[i]).0 != (#[trigger] init[j]).0 by {
                assert(init[i] == es[i] && init[j] == es[j]);
            }
            assert forall|i: int| 0 <= i < init.len() implies (#[trigger] init[i]).0.len() > 0 by {
                assert(init[i] == es[i]);
            }
        }
        lemma_entries_map_contains(init);
        let last = es.last();
        assert(!entries_map(init).dom().contains(last.0)) by {
            if entries_map(init).dom().contains(last.0) {
                let i = choose|i: int| 0 <= i < init.len() && (#[trigger] init[i]).0 == last.0;
                assert(es[i] == init[i]);
                assert(es[i].0 != es[es.len() - 1].0);
            }
        }
        assert forall|k: Seq<u64>| (exists|i: int| 0 <= i < es.len() && (#[trigger] es[i]).0 == k)
            implies #[trigger] entries_map(es).dom().contains(k) by {
            let i = choose|i: int| 0 <= i < es.len() && (#[trigger] es[i]).0 == k;
            if i < es.len() - 1 {
                assert(init[i] == es[i]);
            }
        }
        assert forall|k: Seq<u64>| #[trigger] entries_map(es).dom().contains(k)
            implies exists|i: int| 0 <= i < es.len() && (#[trigger] es[i]).0 == k by {
            if k != last.0 {
                let i = choose|i: int| 0 <= i < init.len() && (#[trigger] init[i]).0 == k;
                assert(es[i] == init[i]);
            } else {
                assert(es[es.len() - 1].0 == k);
            }
        }
        assert forall|i: int| 0 <= i < es.len() implies entries_map(es)[(#[trigger] es[i]).0] == es[i].1 by {
            if i < es.len() - 1 {
                assert(init[i] == es[i]);
                assert(es[i].0 != last.0);
            }
        }
    }
}

proof fn lemma_entries_map_update(es: Seq<(Seq<u64>, Value)>, i: int, v: Value)
    requires
        entries_wf(es),
        0 <= i < es.len(),
    ensures
        entries_map(es.update(i, (es[i].0, v))) == entries_map(es).insert(es[i].0, v),
    decreases es.len(),
{
    let es2 = es.update(i, (es[i].0, v));
    if i == es.len() - 1 {
        assert(es2.drop_last() =~= es.drop_last());
        assert(entries_map(es2) =~= entries_map(es).insert(es[i].0, v));
    } else {
        let init = es.drop_last();
        assert(entries_wf(init)) by {
            assert forall|a: int, b: int| 0 <= a < b < init.len() implies (#[trigger] init[a]).0 != (#[trigger] init[b]).0 by {
                assert(init[a] == es[a] && init[b] == es[b]);
            }
            assert forall|a: int| 0 <= a < init.len() implies (#[trigger] init[a]).0.len() > 0 by {
                assert(init[a] == es[a]);
            }
        }
        lemma_entries_map_update(init, i, v);
        assert(es2.drop_last() =~= init.update(i, (init[i].0, v)));
        assert(es[i].0 != es.last().0);
        assert(entries_map(es2) =~= entries_map(es).insert(es[i].0, v));
    }
}

proof fn lemma_entries_map_remove(es: Seq<(Seq<u64>, Value)>, i: int)
    requires
        entries_wf(es),
        0 <= i < es.len(),
    ensures
        entries_map(es.remove(i)) == entries_map(es).remove(es[i].0),
    decreases es.len(),
{
    let init = es.drop_last();
    assert(entries_wf(init)) by {
        assert forall|a: int, b: int| 0 <= a < b < init.len() implies (#[trigger] init[a]).0 != (#[trigger] init[b]).0 by {
            assert(init[a] == es[a] && init[b] == es[b]);
        }
        assert forall|a: int| 0 <= a < init.len() implies (#[trigger] init[a]).0.len() > 0 by {
            assert(init[a] == es[a]);
        }
    }
    lemma_entries_map_contains(init);
    if i == es.len() - 1 {
        assert(es.remove(i) =~= init);
        assert(!entries_map(init).dom().contains(es[i].0)) by {
            if entries_map(init).dom().contains(es[i].0) {
                let j = choose|j: int| 0 <= j < init.len() && (#[trigger] init[j]).0 == es[i].0;
                assert(es[j] == init[j]);
            }
        }
        assert(entries_map(es.remove(i)) =~= entries_map(es).remove(es[i].0));
    } else {
        lemma_entries_map_remove(init, i);
        assert(es.remove(i).drop_last() =~= init.remove(i));
        assert(es.remove(i).last() == es.last());
        assert(es[i].0 != es.last().0);
        assert(entries_map(es.remove(i)) =~= entries_map(es).remove(es[i].0));
    }
}

/// The value of a page-storage bucket.
pub struct BucketModel {
    /// The saved values by identifier.
    pub values: Map<Seq<u64>, Value>,
    /// Counts the changes; wraps at the top of `u64`.
    pub revision: u64,
}

/// `revision + 1`, wrapping.
pub open spec fn next_revision(r: u64) -> u64 {
    if r == u64::MAX { 0 } else { (r + 1) as u64 }
}

/// Whether `v` is already saved under `id`: the saved value is `v` or
/// compares equal to it.
pub open spec fn already_saved(before: BucketModel, id: Seq<u64>, v: Value) -> bool {
    before.values.dom().contains(id) && (before.values[id] == v || json_values_equal(before.values[id], v))
}

/// What a write of `v` under `id` does: an empty identifier, or a value
/// already saved there, changes nothing and leaves the bucket as it was;
/// any other write saves `v` (over a different saved value too) and
/// advances the revision.
pub open spec fn write_outcome(before: BucketModel, id: Seq<u64>, v: Value, changed: bool, after: BucketModel) -> bool {
    &&& changed == (id.len() > 0 && !already_saved(before, id, v))
    &&& id.len() == 0 ==> !changed
    &&& before.values.get(id) == Some(v) ==> !changed
    &&& changed ==> after == (BucketModel {
        values: before.values.insert(id, v),
        revision: next_revision(before.revision),
    })
    &&& !changed ==> after == before
    &&& !changed && id.len() > 0 ==> before.values.dom().contains(id)
}

/// Keyed storage for pages that leave the active retained subtree.
pub struct PageStorageBucket {
    entries: Vec<(PageStorageIdentifier, Value)>,
    revision: u64,
}

impl View for PageStorageBucket {
    type V = BucketModel;

    closed spec fn view(&self) -> BucketModel {
        BucketModel { values: entries_map(self.entry_seq()), revision: self.revision }
    }
}

impl PageStorageBucket {
    spec fn entry_seq(&self) -> Seq<(Seq<u64>, Value)> {
        self.entries@.map_values(|e: (PageStorageIdentifier, Value)| (e.0@, e.1))
    }

    /// The bucket's constraint: no identifier twice, none empty.
    pub closed spec fn wf(&self) -> bool {
        entries_wf(self.entry_seq())
    }

    /// An empty bucket at revision zero.
    pub fn new() -> (r: Self)
        ensures
            r.wf(),
            r@.values == Map::<Seq<u64>, Value>::empty(),
            r@.revision == 0,
    {
        let r = PageStorageBucket { entries: Vec::new(), revision: 0 };
        assert(r.entry_seq() =~= Seq::<(Seq<u64>, Value)>::empty());
        r
    }

    fn find(&self, identifier: &PageStorageIdentifier) -> (r: Option<usize>)
        requires
            self.wf(),
        ensures
            match r {
                Some(i) => i < self.entry_seq().len() && self.entry_seq()[i as int].0 == identifier@,
                None => !self@.values.dom().contains(identifier@),
            },
    {
        proof {
            lemma_entries_map_contains(self.entry_seq());
        }
        let mut i: usize = 0;
        while i < self.entries.len()
            invariant
                i <= self.entries@.len(),
                forall|j: int| 0 <= j < i ==> (#[trigger] self.entry_seq()[j]).0 != identifier@,
            decreases self.entries@.len() - i,
        {
            if self.entries[i].0.same_as(identifier) {
                return Some(i);
            }
            assert(self.entry_seq()[i as int].0 != identifier@);
            i += 1;
        }
        proof {
            if self@.values.dom().contains(identifier@) {
                let j = choose|j: int| 0 <= j < self.entry_seq().len() && (#[trigger] self.entry_seq()[j]).0 == identifier@;
            }
        }
        None
    }

    /// Saves `value` under `identifier`; whether the bucket changed. An
    /// empty identifier saves nothing. Writing a value that compares equal
    /// to the saved one changes nothing either.
    pub fn write_state(&mut self, identifier: PageStorageIdentifier, value: Value) -> (changed: bool)
        requires
            old(self).wf(),
        ensures
            final(self).wf(),
            write_outcome(old(self)@, identifier@, value, changed, final(self)@),
    {
        if identifier.is_empty() {
            return false;
        }
        let ghost es = self.entry_seq();
        let ghost id = identifier@;
        proof {
            lemma_entries_map_contains(es);
        }
        match self.find(&identifier) {
            Some(i) => {
                if json_equal(&self.entries[i].1, &value) {
                    return false;
                }
                proof {
                    assert(self@.values[id] == es[i as int].1);
                }
                self.entries.set(i, (identifier, value));
                self.revision = self.revision.wrapping_add(1);
                proof {
                    assert(self.entry_seq() =~= es.update(i as int, (es[i as int].0, value)));
                    lemma_entries_map_update(es, i as int, value);
                    assert forall|a: int, b: int| 0 <= a < b < self.entry_seq().len()
                        implies (#[trigger] self.entry_seq()[a]).0 != (#[trigger] self.entry_seq()[b]).0 by {
                        assert(self.entry_seq()[a].0 == es[a].0 && self.entry_seq()[b].0 == es[b].0);
                    }
                }
                true
            },
            None => {
                self.entries.push((identifier, value));
                self.revision = self.revision.wrapping_add(1);
                proof {
                    assert(self.entry_seq() =~= es.push((id, value)));
                    assert(self.entry_seq().drop_last() =~= es);
                    assert forall|a: int, b: int| 0 <= a < b < self.entry_seq().len()
                        implies (#[trigger] self.entry_seq()[a]).0 != (#[trigger] self.entry_seq()[b]).0 by {
                        if b == es.len() {
                            assert(self.entry_seq()[a] == es[a]);
                            assert(entries_map(es).dom().contains(es[a].0));
                        } else {
                            assert(self.entry_seq()[a] == es[a] && self.entry_seq()[b] == es[b]);
                        }
                    }
                    assert forall|a: int| 0 <= a < self.entry_seq().len() implies (#[trigger] self.entry_seq()[a]).0.len() > 0 by {
                        if a < es.len() {
                            assert(self.entry_seq()[a] == es[a]);
                        }
                    }
                }
                true
            },
        }
    }

    /// The value saved under `identifier`; an empty identifier reads nothing.
    pub fn read_state(&self, identifier: &PageStorageIdentifier) -> (r: Option<Value>)
        requires
            self.wf(),
        ensures
            r == self@.values.get(identifier@),
    {
        proof {
            lemma_entries_map_contains(self.entry_seq());
        }
        if identifier.is_empty() {
            proof {
                if self@.values.dom().contains(identifier@) {
                    let j = choose|j: int| 0 <= j < self.entry_seq().len() && (#[trigger] self.entry_seq()[j]).0 == identifier@;
                }
            }
            return None;
        }
        match self.find(identifier) {
            Some(i) => Some(copy_json(&self.entries[i].1)),
            None => None,
        }
    }

    /// Removes the value saved under `identifier` and returns it.
    pub fn remove_state(&mut self, identifier: &PageStorageIdentifier) -> (r: Option<Value>)
        requires
            old(self).wf(),
        ensures
            final(self).wf(),
            r == old(self)@.values.get(identifier@),
            r is Some ==> final(self)@ == (BucketModel {
                values: old(self)@.values.remove(identifier@),
                revision: next_revision(old(self)@.revision),
            }),
            r is None ==> final(self)@ == old(self)@,
    {
        let ghost es = self.entry_seq();
        proof {
            lemma_entries_map_contains(es);
        }
        if identifier.is_empty() {
            proof {
                if self@.values.dom().contains(identifier@) {
                    let j = choose|j: int| 0 <= j < es.len() && (#[trigger] es[j]).0 == identifier@;
                }
            }
            return None;
        }
        match self.find(identifier) {
            Some(i) => {
                let (_, value) = self.entries.remove(i);
                self.revision = self.revision.wrapping_add(1);
                proof {
                    assert(self.entry_seq() =~= es.remove(i as int));
                    lemma_entries_map_remove(es, i as int);
                    assert forall|a: int, b: int| 0 <= a < b < self.entry_seq().len()
                        implies (#[trigger] self.entry_seq()[a]).0 != (#[trigger] self.entry_seq()[b]).0 by {
                        let a2 = if a < i { a } else { a + 1 };
                        let b2 = if b < i { b } else { b + 1 };
                        assert(self.entry_seq()[a] == es[a2] && self.entry_seq()[b] == es[b2]);
                    }
                    assert forall|a: int| 0 <= a < self.entry_seq().len() implies (#[trigger] self.entry_seq()[a]).0.len() > 0 by {
                        let a2 = if a < i { a } else { a + 1 };
                        assert(self.entry_seq()[a] == es[a2]);
                    }
                }
                Some(value)
            },
            None => None,
        }
    }

    /// Removes every saved value; the number removed.
    pub fn clear(&mut self) -> (r: usize)
        requires
            old(self).wf(),
        ensures
            final(self).wf(),
            r == old(self)@.values.len(),
            r > 0 ==> final(self)@ == (BucketModel {
                values: Map::empty(),
                revision: next_revision(old(self)@.revision),
            }),
            r == 0 ==> final(self)@ == old(self)@,
    {
        proof {
            lemma_entries_map_contains(self.entry_seq());
        }
        let removed = self.entries.len();
        if removed != 0 {
            self.entries = Vec::new();
            self.revision = self.revision.wrapping_add(1);
            assert(self.entry_seq() =~= Seq::<(Seq<u64>, Value)>::empty());
        }
        removed
    }

    /// Whether a value is saved under `identifier`.
    pub fn contains(&self, identifier: &PageStorageIdentifier) -> (r: bool)
        requires
            self.wf(),
        ensures
            r == self@.values.dom().contains(identifier@),
    {
        proof {
            lemma_entries_map_contains(self.entry_seq());
        }
        if identifier.is_empty() {
            proof {
                if self@.values.dom().contains(identifier@) {
                    let j = choose|j: int| 0 <= j < self.entry_seq().len() && (#[trigger] self.entry_seq()[j]).0 == identifier@;
                }
            }
            return false;
        }
        self.find(identifier).is_some()
    }

    /// The number of saved values.
    pub fn len(&self) -> (r: usize)
        requires
            self.wf(),
        ensures
            r == self@.values.len(),
    {
        proof {
            lemma_entries_map_contains(self.entry_seq());
        }
        self.entries.len()
    }

    /// Whether no value is saved.
    pub fn is_empty(&self) -> (r: bool)
        requires
            self.wf(),
        ensures
            r == (self@.values.len() == 0),
    {
        self.len() == 0
    }

    /// The change counter.
    pub fn revision(&self) -> (r: u64)
        ensures
            r == self@.revision,
    {
        self.revision
    }
}

/// A page-storage scope: a bucket offered to the deferred descendants of
/// its child.
pub struct PageStorage {
    bucket: PageStorageBucket,
    child: Widget,
}

impl PageStorage {
    /// The scope's bucket.
    pub closed spec fn bucket_spec(&self) -> PageStorageBucket {
        self.bucket
    }

    /// The wrapped child.
    pub closed spec fn child_spec(&self) -> Widget {
        self.child
    }

    /// A scope with a new, empty bucket.
    pub fn new(child: Widget) -> (r: Self)
        ensures
            r.bucket_spec().wf(),
            r.bucket_spec()@.values == Map::<Seq<u64>, Value>::empty(),
            r.bucket_spec()@.revision == 0,
            r.child_spec() == child,
    {
        PageStorage { bucket: PageStorageBucket::new(), child }
    }

    /// A scope with the given bucket.
    pub fn with_bucket(bucket: PageStorageBucket, child: Widget) -> (r: Self)
        ensures
            r.bucket_spec() == bucket,
            r.child_spec() == child,
    {
        PageStorage { bucket, child }
    }

    /// The scope's bucket.
    pub fn bucket(&self) -> (r: &PageStorageBucket)
        ensures
            *r == self.bucket_spec(),
    {
        &self.bucket
    }

    /// The wrapped child.
    pub fn child(&self) -> (r: &Widget)
        ensures
            *r == self.child_spec(),
    {
        &self.child
    }
}

} // verus!
