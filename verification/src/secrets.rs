//! Secret storage behind a trait so the delivery pipeline does not depend
//! on the OS keychain; an in-memory store; and how a settings field turns
//! into a store update.

use vstd::prelude::*;

use crate::error::CoreError;
use crate::text::{opt_view, trim, trimmed};

verus! {

pub const SMTP_PASSWORD: &'static str = "smtp_password";

pub const LLM_API_KEY: &'static str = "llm_api_key";

pub const TELEGRAM_BOT_TOKEN: &'static str = "telegram_bot_token";

/// Where secrets live. Implemented by the OS keychain store and by
/// `MemoryStore`.
pub trait SecretStore {
    /// This store's reads are described by `stored` and `reads_succeed`. A
    /// store that says nothing about itself keeps the default, and then the
    /// clauses below claim nothing of it.
    open spec fn models_contents(&self) -> bool {
        false
    }

    /// The value stored under `key`, if any.
    open spec fn stored(&self, key: Seq<char>) -> Option<Seq<char>> {
        None
    }

    /// Reads from this store never fail.
    open spec fn reads_succeed(&self) -> bool {
        false
    }

    /// The value stored under `key`; a read may fail unless the store says
    /// reads always succeed.
    fn get(&self, key: &str) -> (r: Result<Option<String>, CoreError>)
        ensures
            self.models_contents() ==> (r matches Ok(v) ==> opt_view(v) == self.stored(key@)),
            self.models_contents() && self.reads_succeed() ==> r is Ok,
    ;

    fn set(&mut self, key: &str, value: &str) -> Result<(), CoreError>;

    fn delete(&mut self, key: &str) -> Result<(), CoreError>;

    /// A value is stored under `key` and could be read: never reported for a
    /// key with nothing stored, and, where reads succeed, exactly when a
    /// value is stored.
    fn is_set(&self, key: &str) -> (b: bool)
        ensures
            self.models_contents() ==> (b ==> self.stored(key@) is Some),
            self.models_contents() && self.reads_succeed() ==> (b <==> self.stored(key@) is Some),
    {
        match self.get(key) {
            Ok(Some(_)) => true,
            _ => false,
        }
    }
}

/// In-memory store, for tests and for running without a keychain.
pub struct MemoryStore {
    entries: Vec<(String, String)>,
}

impl MemoryStore {
    /// One value per key, every key once.
    #[verifier::type_invariant]
    spec fn wf(self) -> bool {
        forall|i: int, j: int|
            0 <= i < j < self.entries@.len() ==> #[trigger] self.entries@[i].0@ != #[trigger] self.entries@[j].0@
    }

    spec fn has_key(self, k: Seq<char>) -> bool {
        exists|i: int| 0 <= i < self.entries@.len() && #[trigger] self.entries@[i].0@ == k
    }

    spec fn index_of(self, k: Seq<char>) -> int {
        choose|i: int| 0 <= i < self.entries@.len() && #[trigger] self.entries@[i].0@ == k
    }

    /// The stored secrets, by key.
    pub closed spec fn view(self) -> Map<Seq<char>, Seq<char>> {
        Map::new(|k: Seq<char>| self.has_key(k), |k: Seq<char>| self.entries@[self.index_of(k)].1@)
    }

    proof fn lemma_index_of(self, i: int)
        requires
            self.wf(),
            0 <= i < self.entries@.len(),
        ensures
            self.has_key(self.entries@[i].0@),
            self.index_of(self.entries@[i].0@) == i,
    {
        let k = self.entries@[i].0@;
        assert(self.has_key(k));
        let j = self.index_of(k);
        if j != i {
            if j < i {
                assert(self.entries@[j].0@ != self.entries@[i].0@);
            } else {
                assert(self.entries@[i].0@ != self.entries@[j].0@);
            }
        }
    }

    fn find(&self, key: &str) -> (r: Option<usize>)
        ensures
            r matches Some(i) ==> i < self.entries@.len() && self.entries@[i as int].0@ == key@,
            r is None ==> !self.has_key(key@),
    {
        let wanted = crate::text::owned(key);
        let mut i: usize = 0;
        while i < self.entries.len()
            invariant
                i <= self.entries@.len(),
                wanted@ == key@,
                forall|j: int| 0 <= j < i ==> self.entries@[j].0@ != key@,
            decreases self.entries.len() - i,
        {
            if self.entries[i].0 == wanted {
                return Some(i);
            }
            i += 1;
        }
        None
    }
}

impl Default for MemoryStore {
    fn default() -> (r: MemoryStore)
        ensures
            r.view() == Map::<Seq<char>, Seq<char>>::empty(),
    {
        let r = MemoryStore { entries: Vec::new() };
        assert(r.view() =~= Map::<Seq<char>, Seq<char>>::empty());
        r
    }
}

impl SecretStore for MemoryStore {
    open spec fn models_contents(&self) -> bool {
        true
    }

    open spec fn stored(&self, key: Seq<char>) -> Option<Seq<char>> {
        if self.view().contains_key(key) {
            Some(self.view()[key])
        } else {
            None
        }
    }

    open spec fn reads_succeed(&self) -> bool {
        true
    }

    fn get(&self, key: &str) -> (r: Result<Option<String>, CoreError>)
        ensures
            r matches Ok(v) && (match v {
                Some(s) => self.view().contains_key(key@) && self.view()[key@] == s@,
                None => !self.view().contains_key(key@),
            }),
    {
        proof {
            use_type_invariant(self);
        }
        match self.find(key) {
            Some(i) => {
                proof {
                    self.lemma_index_of(i as int);
                }
                Ok(Some(self.entries[i].1.clone()))
            },
            None => Ok(None),
        }
    }

    fn set(&mut self, key: &str, value: &str) -> (r: Result<(), CoreError>)
        ensures
            r is Ok,
            final(self).view() == old(self).view().insert(key@, value@),
    {
        proof {
            use_type_invariant(&*self);
        }
        let ghost before = *self;
        match self.find(key) {
            Some(i) => {
                let mut entries: Vec<(String, String)> = Vec::new();
                std::mem::swap(&mut entries, &mut self.entries);
                entries.set(i, (owned_copy(key), owned_copy(value)));
                self.entries = entries;
                proof {
                    assert forall|k: Seq<char>| #[trigger]
                        self.view().contains_key(k) == before.view().insert(
                            key@,
                            value@,
                        ).contains_key(k) by {
                        if k == key@ {
                            assert(self.entries@[i as int].0@ == k);
                        } else if self.has_key(k) {
                            let j = choose|j: int| 0 <= j < self.entries@.len() && #[trigger] self.entries@[j].0@ == k;
                            assert(before.entries@[j].0@ == k);
                        } else if before.has_key(k) {
                            let j = choose|j: int| 0 <= j < before.entries@.len() && #[trigger] before.entries@[j].0@ == k;
                            assert(self.entries@[j].0@ == k);
                        }
                    }
                    assert forall|k: Seq<char>| self.view().contains_key(k) implies #[trigger] self.view()[k]
                        == before.view().insert(key@, value@)[k] by {
                        let j = self.index_of(k);
                        self.lemma_index_of(j);
                        before.lemma_index_of(j);
                        if k == key@ {
                            before.lemma_index_of(i as int);
                            self.lemma_index_of(i as int);
                        }
                    }
                    assert(self.view() =~= before.view().insert(key@, value@));
                }
            },
            None => {
                let mut entries: Vec<(String, String)> = Vec::new();
                std::mem::swap(&mut entries, &mut self.entries);
                entries.push((owned_copy(key), owned_copy(value)));
                self.entries = entries;
                proof {
                    let n = before.entries@.len() as int;
                    assert forall|a: int, b: int|
                        0 <= a < b < self.entries@.len() implies #[trigger] self.entries@[a].0@
                        != #[trigger] self.entries@[b].0@ by {
                        if b == n {
                            assert(before.entries@[a].0@ == self.entries@[a].0@);
                        }
                    }
                    assert forall|k: Seq<char>| #[trigger]
                        self.view().contains_key(k) == before.view().insert(
                            key@,
                            value@,
                        ).contains_key(k) by {
                        if k == key@ {
                            assert(self.entries@[n].0@ == k);
                        } else if self.has_key(k) {
                            let j = choose|j: int| 0 <= j < self.entries@.len() && #[trigger] self.entries@[j].0@ == k;
                            assert(before.entries@[j].0@ == k);
                        } else if before.has_key(k) {
                            let j = choose|j: int| 0 <= j < before.entries@.len() && #[trigger] before.entries@[j].0@ == k;
                            assert(self.entries@[j].0@ == k);
                        }
                    }
                    assert forall|k: Seq<char>| self.view().contains_key(k) implies #[trigger] self.view()[k]
                        == before.view().insert(key@, value@)[k] by {
                        let j = self.index_of(k);
                        self.lemma_index_of(j);
                        if j < n {
                            before.lemma_index_of(j);
                        }
                    }
                    assert(self.view() =~= before.view().insert(key@, value@));
                }
            },
        }
        Ok(())
    }

    fn delete(&mut self, key: &str) -> (r: Result<(), CoreError>)
        ensures
            r is Ok,
            final(self).view() == old(self).view().remove(key@),
    {
        proof {
            use_type_invariant(&*self);
        }
        let ghost before = *self;
        match self.find(key) {
            Some(i) => {
                let mut entries: Vec<(String, String)> = Vec::new();
                std::mem::swap(&mut entries, &mut self.entries);
                entries.remove(i);
                self.entries = entries;
                proof {
                    let ii = i as int;
                    assert forall|a: int, b: int|
                        0 <= a < b < self.entries@.len() implies #[trigger] self.entries@[a].0@
                        != #[trigger] self.entries@[b].0@ by {
                        let a0 = if a < ii { a } else { a + 1 };
                        let b0 = if b < ii { b } else { b + 1 };
                        assert(self.entries@[a].0@ == before.entries@[a0].0@);
                        assert(self.entries@[b].0@ == before.entries@[b0].0@);
                    }
                    assert forall|k: Seq<char>| #[trigger]
                        self.view().contains_key(k) == before.view().remove(key@).contains_key(k) by {
                        if self.has_key(k) {
                            let j = choose|j: int| 0 <= j < self.entries@.len() && #[trigger] self.entries@[j].0@ == k;
                            let j0 = if j < ii { j } else { j + 1 };
                            assert(before.entries@[j0].0@ == k);
                            assert(j0 != ii);
                            if k == key@ {
                                assert(before.entries@[j0].0@ == before.entries@[ii].0@);
                                if j0 < ii {
                                    assert(before.entries@[j0].0@ != before.entries@[ii].0@);
                                } else {
                                    assert(before.entries@[ii].0@ != before.entries@[j0].0@);
                                }
                            }
                        } else if k != key@ && before.has_key(k) {
                            let j = choose|j: int| 0 <= j < before.entries@.len() && #[trigger] before.entries@[j].0@ == k;
                            assert(j != ii);
                            let j1 = if j < ii { j } else { j - 1 };
                            assert(self.entries@[j1].0@ == k);
                        }
                    }
                    assert forall|k: Seq<char>| self.view().contains_key(k) implies #[trigger] self.view()[k]
                        == before.view().remove(key@)[k] by {
                        let j = self.index_of(k);
                        self.lemma_index_of(j);
                        let j0 = if j < ii { j } else { j + 1 };
                        assert(before.entries@[j0].0@ == k);
                        before.lemma_index_of(j0);
                    }
                    assert(self.view() =~= before.view().remove(key@));
                }
            },
            None => {
                proof {
                    assert(self.view() =~= before.view().remove(key@));
                }
            },
        }
        Ok(())
    }

    fn is_set(&self, key: &str) -> (b: bool)
        ensures
            b == self.view().contains_key(key@),
    {
        match self.get(key) {
            Ok(Some(_)) => true,
            _ => false,
        }
    }
}

/// An owned copy of `s`.
fn owned_copy(s: &str) -> (r: String)
    ensures
        r@ == s@,
{
    crate::text::owned(s)
}

/// Law: on a `MemoryStore`, a read after `set` gives back the value written
/// under that key, a read after `delete` finds nothing, and writing or
/// deleting one key leaves every other key as it was. (`written` and
/// `deleted` are the store after `set` and after `delete` on `before`.)
pub proof fn lemma_read_after_write(
    before: MemoryStore,
    written: MemoryStore,
    deleted: MemoryStore,
    key: Seq<char>,
    value: Seq<char>,
    other: Seq<char>,
)
    requires
        written.view() == before.view().insert(key, value),
        deleted.view() == before.view().remove(key),
        other != key,
    ensures
        written.view().contains_key(key),
        written.view()[key] == value,
        !deleted.view().contains_key(key),
        written.view().contains_key(other) == before.view().contains_key(other),
        deleted.view().contains_key(other) == before.view().contains_key(other),
        before.view().contains_key(other) ==> written.view()[other] == before.view()[other]
            && deleted.view()[other] == before.view()[other],
{
}

/// What saving a secret field from the settings does to the store.
#[derive(Debug, Clone, PartialEq)]
pub enum SecretUpdate {
    /// The field was blank: remove the stored secret.
    Delete,
    /// Store this (trimmed) value.
    Store(String),
}

/// A blank field clears the secret; otherwise the trimmed text is stored.
pub fn secret_update(input: &str) -> (r: SecretUpdate)
    ensures
        trim(input@).len() == 0 ==> r == SecretUpdate::Delete,
        trim(input@).len() > 0 ==> (r matches SecretUpdate::Store(v) && v@ == trim(input@)),
{
    let t = trimmed(input);
    if t.as_str().is_empty() {
        SecretUpdate::Delete
    } else {
        SecretUpdate::Store(t)
    }
}

} // verus!
