use vstd::prelude::*;
use crate::models::error::ServiceError;

verus! {

/// A key-value entry owned by one user. Timestamps are seconds since the Unix
/// epoch.
#[derive(Clone, Debug)]
pub struct KeyValue {
    pub id: i64,
    pub key: String,
    pub value: String,
    pub user_id: i64,
    pub created_at: i64,
    pub updated_at: i64,
}

/// The mathematical value of an entry.
pub struct KeyValueModel {
    pub id: i64,
    pub key: Seq<char>,
    pub value: Seq<char>,
    pub user_id: i64,
    pub created_at: i64,
    pub updated_at: i64,
}

impl View for KeyValue {
    type V = KeyValueModel;

    open spec fn view(&self) -> KeyValueModel {
        KeyValueModel {
            id: self.id,
            key: self.key@,
            value: self.value@,
            user_id: self.user_id,
            created_at: self.created_at,
            updated_at: self.updated_at,
        }
    }
}

/// A key and the value to store under it.
#[derive(Clone, Debug)]
pub struct NewKeyValue {
    pub key: String,
    pub value: String,
}

/// The entries, in order of creation, and the identifier the next one receives.
pub struct StoreModel {
    pub entries: Seq<KeyValueModel>,
    pub next_id: i64,
}

/// The key-value store of all users.
pub struct KeyValueStore {
    pub entries: Vec<KeyValue>,
    pub next_id: i64,
}

impl View for KeyValueStore {
    type V = StoreModel;

    open spec fn view(&self) -> StoreModel {
        StoreModel { entries: self.entries@.map_values(|e: KeyValue| e@), next_id: self.next_id }
    }
}

/// Identifiers are positive, increase in order of creation and stay below the
/// next one; an owner holds at most one entry per key.
pub open spec fn store_wf(m: StoreModel) -> bool {
    &&& 1 <= m.next_id
    &&& forall|i: int| 0 <= i < m.entries.len() ==> 1 <= #[trigger] m.entries[i].id < m.next_id
    &&& forall|i: int, j: int|
        0 <= i < j < m.entries.len() ==> #[trigger] m.entries[i].id < #[trigger] m.entries[j].id
    &&& forall|i: int, j: int|
        0 <= i < m.entries.len() && 0 <= j < m.entries.len() && i != j && (
        #[trigger] m.entries[i]).user_id == (#[trigger] m.entries[j]).user_id ==> m.entries[i].key
            != m.entries[j].key
}

/// Whether `e` is the entry of `owner` under `key`.
pub open spec fn owned_at(e: KeyValueModel, owner: i64, key: Seq<char>) -> bool {
    e.user_id == owner && e.key == key
}

pub open spec fn has_entry(entries: Seq<KeyValueModel>, owner: i64, key: Seq<char>) -> bool {
    exists|i: int| 0 <= i < entries.len() && owned_at(#[trigger] entries[i], owner, key)
}

pub open spec fn entry_index(entries: Seq<KeyValueModel>, owner: i64, key: Seq<char>) -> int {
    choose|i: int| 0 <= i < entries.len() && owned_at(#[trigger] entries[i], owner, key)
}

/// Creating an entry: a key the owner already uses is a conflict, an exhausted
/// identifier space a storage error.
pub open spec fn create_spec(
    m: StoreModel,
    owner: i64,
    key: Seq<char>,
    value: Seq<char>,
    now: i64,
) -> (StoreModel, Result<KeyValueModel, ServiceError>) {
    if has_entry(m.entries, owner, key) {
        (m, Err(ServiceError::Conflict))
    } else if m.next_id == i64::MAX {
        (m, Err(ServiceError::StorageError))
    } else {
        let e = KeyValueModel {
            id: m.next_id,
            key,
            value,
            user_id: owner,
            created_at: now,
            updated_at: now,
        };
        (StoreModel { entries: m.entries.push(e), next_id: (m.next_id + 1) as i64 }, Ok(e))
    }
}

/// Reading the owner's entry under `key`.
pub open spec fn read_spec(m: StoreModel, owner: i64, key: Seq<char>) -> Result<
    KeyValueModel,
    ServiceError,
> {
    if has_entry(m.entries, owner, key) {
        Ok(m.entries[entry_index(m.entries, owner, key)])
    } else {
        Err(ServiceError::NotFound)
    }
}

/// Replacing the value of the owner's entry under `key`; no entry is created.
pub open spec fn update_spec(
    m: StoreModel,
    owner: i64,
    key: Seq<char>,
    value: Seq<char>,
    now: i64,
) -> (StoreModel, Result<KeyValueModel, ServiceError>) {
    if has_entry(m.entries, owner, key) {
        let i = entry_index(m.entries, owner, key);
        let e = KeyValueModel { value, updated_at: now, ..m.entries[i] };
        (StoreModel { entries: m.entries.update(i, e), next_id: m.next_id }, Ok(e))
    } else {
        (m, Err(ServiceError::NotFound))
    }
}

/// Removing the owner's entry under `key`.
pub open spec fn delete_spec(m: StoreModel, owner: i64, key: Seq<char>) -> (
    StoreModel,
    Result<KeyValueModel, ServiceError>,
) {
    if has_entry(m.entries, owner, key) {
        let i = entry_index(m.entries, owner, key);
        (StoreModel { entries: m.entries.remove(i), next_id: m.next_id }, Ok(m.entries[i]))
    } else {
        (m, Err(ServiceError::NotFound))
    }
}

/// The view of a result that carries an entry.
pub open spec fn entry_result(r: Result<KeyValue, ServiceError>) -> Result<
    KeyValueModel,
    ServiceError,
> {
    match r {
        Ok(e) => Ok(e@),
        Err(e) => Err(e),
    }
}

/// In a well-formed store an owner has at most one entry under a key.
pub proof fn lemma_entry_unique(m: StoreModel, owner: i64, key: Seq<char>, i: int)
    requires
        store_wf(m),
        0 <= i < m.entries.len(),
        owned_at(m.entries[i], owner, key),
    ensures
        has_entry(m.entries, owner, key),
        entry_index(m.entries, owner, key) == i,
{
    let k = entry_index(m.entries, owner, key);
    assert(owned_at(m.entries[k], owner, key));
}

/// Entries of one owner are invisible to another: whatever `read`, `update` or
/// `delete` scoped to `b` returns belongs to `b`, and neither `update` nor
/// `delete` scoped to `b` adds, removes or changes an entry of `a`, even under
/// the same key.
pub proof fn lemma_owner_isolation(
    m: StoreModel,
    a: i64,
    b: i64,
    key: Seq<char>,
    value: Seq<char>,
    now: i64,
)
    requires
        store_wf(m),
        a != b,
    ensures
        read_spec(m, b, key) is Ok ==> read_spec(m, b, key)->Ok_0.user_id == b,
        update_spec(m, b, key, value, now).1 is Ok ==> update_spec(m, b, key, value, now).1->Ok_0.user_id == b,
        delete_spec(m, b, key).1 is Ok ==> delete_spec(m, b, key).1->Ok_0.user_id == b,
        forall|e: KeyValueModel| e.user_id == a ==> (#[trigger] update_spec(m, b, key, value, now).0.entries.contains(e)
            <==> m.entries.contains(e)),
        forall|e: KeyValueModel| e.user_id == a ==> (#[trigger] delete_spec(m, b, key).0.entries.contains(e)
            <==> m.entries.contains(e)),
{
    if has_entry(m.entries, b, key) {
        let i = entry_index(m.entries, b, key);
        let up = update_spec(m, b, key, value, now).0.entries;
        let del = delete_spec(m, b, key).0.entries;
        assert forall|e: KeyValueModel| e.user_id == a implies (up.contains(e) <==> m.entries.contains(e)) by {
            if up.contains(e) {
                let j = choose|j: int| 0 <= j < up.len() && up[j] == e;
                assert(j != i);
                assert(m.entries[j] == e);
            }
            if m.entries.contains(e) {
                let j = choose|j: int| 0 <= j < m.entries.len() && m.entries[j] == e;
                assert(j != i);
                assert(up[j] == e);
            }
        }
        assert forall|e: KeyValueModel| e.user_id == a implies (del.contains(e) <==> m.entries.contains(e)) by {
            if del.contains(e) {
                let j = choose|j: int| 0 <= j < del.len() && del[j] == e;
                if j < i {
                    assert(m.entries[j] == e);
                } else {
                    assert(m.entries[j + 1] == e);
                }
            }
            if m.entries.contains(e) {
                let j = choose|j: int| 0 <= j < m.entries.len() && m.entries[j] == e;
                assert(j != i);
                if j < i {
                    assert(del[j] == e);
                } else {
                    assert(del[j - 1] == e);
                }
            }
        }
    }
}

/// Updating a key the owner does not hold fails with `NotFound` and leaves the
/// store as it was: no entry is created.
pub proof fn lemma_update_missing(
    m: StoreModel,
    owner: i64,
    key: Seq<char>,
    value: Seq<char>,
    now: i64,
)
    requires
        !has_entry(m.entries, owner, key),
    ensures
        update_spec(m, owner, key, value, now) == (m, Err::<KeyValueModel, ServiceError>(
            ServiceError::NotFound,
        )),
{
}

/// Deleting the same key twice: the second deletion finds nothing.
pub proof fn lemma_delete_twice(m: StoreModel, owner: i64, key: Seq<char>)
    requires
        store_wf(m),
    ensures
        delete_spec(delete_spec(m, owner, key).0, owner, key).1 == Err::<
            KeyValueModel,
            ServiceError,
        >(ServiceError::NotFound),
{
    if has_entry(m.entries, owner, key) {
        let i = entry_index(m.entries, owner, key);
        let del = delete_spec(m, owner, key).0.entries;
        if has_entry(del, owner, key) {
            let j = entry_index(del, owner, key);
            if j < i {
                assert(del[j] == m.entries[j]);
                lemma_entry_unique(m, owner, key, j);
            } else {
                assert(del[j] == m.entries[j + 1]);
                lemma_entry_unique(m, owner, key, j + 1);
            }
        }
    }
}

impl KeyValueStore {
    /// An empty store whose first entry receives identifier 1.
    pub fn new() -> (r: KeyValueStore)
        ensures
            r@.entries.len() == 0,
            r@.next_id == 1,
            store_wf(r@),
    {
        KeyValueStore { entries: Vec::new(), next_id: 1 }
    }

    pub open spec fn wf(&self) -> bool {
        store_wf(self@)
    }

    /// The number of entries of all owners.
    pub fn len(&self) -> (r: usize)
        ensures
            r == self@.entries.len(),
    {
        self.entries.len()
    }

    fn find(&self, owner: i64, key: &str) -> (r: Option<usize>)
        ensures
            match r {
                Some(i) => i < self@.entries.len() && owned_at(self@.entries[i as int], owner, key@),
                None => !has_entry(self@.entries, owner, key@),
            },
    {
        let wanted = key.to_owned();
        let mut i: usize = 0;
        while i < self.entries.len()
            invariant
                i <= self.entries@.len(),
                wanted@ == key@,
                self@.entries.len() == self.entries@.len(),
                forall|k: int| 0 <= k < i ==> !owned_at(#[trigger] self@.entries[k], owner, key@),
            decreases self.entries@.len() - i,
        {
            if self.entries[i].user_id == owner && self.entries[i].key == wanted {
                return Some(i);
            }
            i = i + 1;
        }
        None
    }
}

impl KeyValue {
    /// A copy of the entry.
    pub fn duplicate(&self) -> (r: KeyValue)
        ensures
            r@ == self@,
    {
        KeyValue {
            id: self.id,
            key: self.key.clone(),
            value: self.value.clone(),
            user_id: self.user_id,
            created_at: self.created_at,
            updated_at: self.updated_at,
        }
    }

    /// Stores `new` as an entry of `user_id`.
    pub fn create(store: &mut KeyValueStore, user_id: i64, new: &NewKeyValue, now: i64) -> (r:
        Result<KeyValue, ServiceError>)
        requires
            old(store).wf(),
        ensures
            final(store).wf(),
            (final(store)@, entry_result(r)) == create_spec(
                old(store)@,
                user_id,
                new.key@,
                new.value@,
                now,
            ),
    {
        if store.find(user_id, new.key.as_str()).is_some() {
            return Err(ServiceError::Conflict);
        }
        if store.next_id == i64::MAX {
            return Err(ServiceError::StorageError);
        }
        let entry = KeyValue {
            id: store.next_id,
            key: new.key.clone(),
            value: new.value.clone(),
            user_id,
            created_at: now,
            updated_at: now,
        };
        let ghost old_entries = store@.entries;
        let result = entry.duplicate();
        store.entries.push(entry);
        store.next_id = store.next_id + 1;
        assert(store@.entries =~= old_entries.push(result@));
        Ok(result)
    }

    /// The entry of `user_id` under `key`.
    pub fn read(store: &KeyValueStore, user_id: i64, key: &str) -> (r: Result<KeyValue, ServiceError>)
        requires
            store.wf(),
        ensures
            entry_result(r) == read_spec(store@, user_id, key@),
    {
        match store.find(user_id, key) {
            Some(i) => {
                proof {
                    lemma_entry_unique(store@, user_id, key@, i as int);
                }
                Ok(store.entries[i].duplicate())
            },
            None => Err(ServiceError::NotFound),
        }
    }

    /// Replaces the value of the entry of `user_id` under `new.key`.
    pub fn update(store: &mut KeyValueStore, user_id: i64, new: &NewKeyValue, now: i64) -> (r:
        Result<KeyValue, ServiceError>)
        requires
            old(store).wf(),
        ensures
            final(store).wf(),
            (final(store)@, entry_result(r)) == update_spec(
                old(store)@,
                user_id,
                new.key@,
                new.value@,
                now,
            ),
    {
        match store.find(user_id, new.key.as_str()) {
            Some(i) => {
                proof {
                    lemma_entry_unique(store@, user_id, new.key@, i as int);
                }
                let ghost old_entries = store@.entries;
                let current = &store.entries[i];
                let entry = KeyValue {
                    id: current.id,
                    key: current.key.clone(),
                    value: new.value.clone(),
                    user_id: current.user_id,
                    created_at: current.created_at,
                    updated_at: now,
                };
                let result = entry.duplicate();
                store.entries.set(i, entry);
                assert(store@.entries =~= old_entries.update(i as int, result@));
                Ok(result)
            },
            None => Err(ServiceError::NotFound),
        }
    }

    /// Removes the entry of `user_id` under `key` and returns it.
    pub fn delete(store: &mut KeyValueStore, user_id: i64, key: &str) -> (r: Result<
        KeyValue,
        ServiceError,
    >)
        requires
            old(store).wf(),
        ensures
            final(store).wf(),
            (final(store)@, entry_result(r)) == delete_spec(old(store)@, user_id, key@),
    {
        match store.find(user_id, key) {
            Some(i) => {
                proof {
                    lemma_entry_unique(store@, user_id, key@, i as int);
                }
                let ghost old_entries = store@.entries;
                let removed = store.entries.remove(i);
                assert(store@.entries =~= old_entries.remove(i as int));
                Ok(removed)
            },
            None => Err(ServiceError::NotFound),
        }
    }
}

} // verus!
