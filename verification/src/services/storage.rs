//! The saved connections and tabs, as they stand in memory between a load
//! and a save. Passwords are held encrypted under the master key.

use vstd::prelude::*;
use vstd::pervasive::VecAdditionalExecFns;
use vstd::seq_lib::{to_multiset_build, to_multiset_insert};
use crate::clock::now_millis;
use crate::models::connection::{
    ConfigError, ConfigModel, ConnectionConfig, TabInfo, TabModel,
};
use crate::models::connection::clone_optional;
use crate::number::{digits_of, lemma_digits_of_value, render_u64};
use crate::text::{append, from_chars, joined, same_chars, same_text, to_chars};
use crate::utils::crypto::{
    CryptoError, CryptoFault, KEY_LEN, decrypt_password, decrypted, encrypt_password,
};

verus! {

/// Why an operation on the store was refused.
#[derive(Debug)]
pub enum StorageError {
    /// No connection is saved under the identifier.
    ConnectionNotFound,
    /// No tab is saved under the identifier.
    TabNotFound,
    /// The connection already has a tab, with this title.
    TabExists(String),
    /// A password could not be encrypted or decrypted.
    Crypto(CryptoError),
    /// A configuration to be imported is unusable.
    Invalid(ConfigError),
}

/// What a `StorageError` stands for.
pub enum StorageFault {
    ConnectionNotFound,
    TabNotFound,
    TabExists(Seq<char>),
    Crypto(CryptoFault),
    Invalid(ConfigError),
}

impl View for StorageError {
    type V = StorageFault;

    open spec fn view(&self) -> StorageFault {
        match self {
            StorageError::ConnectionNotFound => StorageFault::ConnectionNotFound,
            StorageError::TabNotFound => StorageFault::TabNotFound,
            StorageError::TabExists(title) => StorageFault::TabExists(title@),
            StorageError::Crypto(error) => StorageFault::Crypto(error.fault),
            StorageError::Invalid(defect) => StorageFault::Invalid(*defect),
        }
    }
}

impl StorageError {
    /// The text shown to the user for this error.
    pub fn message(&self) -> (msg: String)
        ensures
            match self@ {
                StorageFault::ConnectionNotFound => msg@ == "连接配置不存在"@,
                StorageFault::TabNotFound => msg@ == "标签页不存在"@,
                StorageFault::TabExists(title) => msg@ == "链接 "@ + title + " 已存在标签页"@,
                StorageFault::Crypto(fault) => msg@ == fault.prefix() + self->Crypto_0.detail@,
                StorageFault::Invalid(defect) => msg@ == defect.text(),
            },
    {
        match self {
            StorageError::ConnectionNotFound => "连接配置不存在".to_owned(),
            StorageError::TabNotFound => "标签页不存在".to_owned(),
            StorageError::TabExists(title) => {
                let head: String = joined("链接 ", title.as_str());
                joined(head.as_str(), " 已存在标签页")
            },
            StorageError::Crypto(error) => error.message(),
            StorageError::Invalid(defect) => defect.message(),
        }
    }
}

/// The models of a list of tabs.
pub open spec fn tab_models(list: Seq<TabInfo>) -> Seq<TabModel> {
    Seq::new(list.len(), |i: int| list[i]@)
}

/// The models of a list of configurations.
pub open spec fn saved_models(list: Seq<ConnectionConfig>) -> Seq<ConfigModel> {
    Seq::new(list.len(), |i: int| list[i]@)
}

/// Whether a tab is saved under `id`.
pub open spec fn has_tab(tabs: Seq<TabModel>, id: Seq<char>) -> bool {
    exists|i: int| 0 <= i < tabs.len() && (#[trigger] tabs[i]).id == id
}

/// No two tabs share an identifier.
pub open spec fn distinct_tabs(tabs: Seq<TabModel>) -> bool {
    forall|i: int, j: int|
        0 <= i < tabs.len() && 0 <= j < tabs.len() && i != j ==> (#[trigger] tabs[i]).id != (
        #[trigger] tabs[j]).id
}

/// The position of the tab saved under `id`.
pub open spec fn tab_position(tabs: Seq<TabModel>, id: Seq<char>) -> int {
    choose|i: int| 0 <= i < tabs.len() && (#[trigger] tabs[i]).id == id
}

/// `tabs` without the tab under `id`, if there is one.
pub open spec fn without_tab(tabs: Seq<TabModel>, id: Seq<char>) -> Seq<TabModel> {
    if has_tab(tabs, id) {
        tabs.remove(tab_position(tabs, id))
    } else {
        tabs
    }
}

/// `tab` once the tab under `id` is made the active one at time `now`:
/// that tab is active and changed at `now`, any other is inactive.
pub open spec fn activated_tab(tab: TabModel, id: Seq<char>, now: i64) -> TabModel {
    if tab.id == id {
        TabModel { active: true, updated_at: now, ..tab }
    } else {
        TabModel { active: false, ..tab }
    }
}

/// `tabs` once the tab under `id` is made the active one at time `now`.
pub open spec fn activated(tabs: Seq<TabModel>, id: Seq<char>, now: i64) -> Seq<TabModel> {
    tabs.map_values(|tab: TabModel| activated_tab(tab, id, now))
}

/// The tabs among `tabs` that do not refer to the connection
/// `connection_id`, in their order.
pub open spec fn without_connection(tabs: Seq<TabModel>, connection_id: Seq<char>) -> Seq<TabModel>
    decreases tabs.len(),
{
    if tabs.len() == 0 {
        Seq::empty()
    } else if tabs.last().connection_id == connection_id {
        without_connection(tabs.drop_last(), connection_id)
    } else {
        without_connection(tabs.drop_last(), connection_id).push(tabs.last())
    }
}

/// Whether a connection is saved under `id`.
pub open spec fn has_saved(saved: Seq<ConfigModel>, id: Seq<char>) -> bool {
    exists|i: int| 0 <= i < saved.len() && (#[trigger] saved[i]).id == id
}

/// No two saved connections share an identifier.
pub open spec fn distinct_saved(saved: Seq<ConfigModel>) -> bool {
    forall|i: int, j: int|
        0 <= i < saved.len() && 0 <= j < saved.len() && i != j ==> (#[trigger] saved[i]).id != (
        #[trigger] saved[j]).id
}

/// The position of the connection saved under `id`.
pub open spec fn saved_position(saved: Seq<ConfigModel>, id: Seq<char>) -> int {
    choose|i: int| 0 <= i < saved.len() && (#[trigger] saved[i]).id == id
}

/// `saved` without the connection under `id`, if there is one.
pub open spec fn without_saved(saved: Seq<ConfigModel>, id: Seq<char>) -> Seq<ConfigModel> {
    if has_saved(saved, id) {
        saved.remove(saved_position(saved, id))
    } else {
        saved
    }
}

/// What a `ConnectionStorage` stands for.
pub struct StoreModel {
    pub connections: Seq<ConfigModel>,
    pub tabs: Seq<TabModel>,
    pub master_key: Seq<u8>,
}

/// The saved connections and tabs, and the key under which passwords are
/// held.
pub struct ConnectionStorage {
    connections: Vec<ConnectionConfig>,
    tabs: Vec<TabInfo>,
    master_key: Vec<u8>,
}

impl View for ConnectionStorage {
    type V = StoreModel;

    closed spec fn view(&self) -> StoreModel {
        StoreModel {
            connections: saved_models(self.connections@),
            tabs: tab_models(self.tabs@),
            master_key: self.master_key@,
        }
    }
}

/// Taking the tab under an identifier out of a list without duplicates
/// leaves one without duplicates in which nothing stands under it.
pub proof fn lemma_without_tab(tabs: Seq<TabModel>, id: Seq<char>)
    requires
        distinct_tabs(tabs),
    ensures
        distinct_tabs(without_tab(tabs, id)),
        !has_tab(without_tab(tabs, id), id),
{
    let rest = without_tab(tabs, id);
    if has_tab(tabs, id) {
        let p = tab_position(tabs, id);
        assert forall|a: int, b: int|
            0 <= a < rest.len() && 0 <= b < rest.len() && a != b implies (#[trigger] rest[a]).id
            != (#[trigger] rest[b]).id by {
            let a0 = if a < p { a } else { a + 1 };
            let b0 = if b < p { b } else { b + 1 };
            assert(rest[a] == tabs[a0]);
            assert(rest[b] == tabs[b0]);
        }
        if has_tab(rest, id) {
            let q = tab_position(rest, id);
            let q0 = if q < p { q } else { q + 1 };
            assert(rest[q] == tabs[q0]);
            assert(tabs[p].id == tabs[q0].id);
        }
    }
}

/// The tabs that stay when those of a connection are removed are tabs of
/// the list, in their order, so none shares an identifier with another.
pub proof fn lemma_without_connection(tabs: Seq<TabModel>, connection_id: Seq<char>)
    requires
        distinct_tabs(tabs),
    ensures
        distinct_tabs(without_connection(tabs, connection_id)),
        forall|i: int|
            0 <= i < without_connection(tabs, connection_id).len() ==> has_tab(
                tabs,
                (#[trigger] without_connection(tabs, connection_id)[i]).id,
            ) && without_connection(tabs, connection_id)[i].connection_id != connection_id,
        without_connection(tabs, connection_id).len() <= tabs.len(),
    decreases tabs.len(),
{
    if tabs.len() > 0 {
        let front = tabs.drop_last();
        assert forall|a: int, b: int|
            0 <= a < front.len() && 0 <= b < front.len() && a != b implies (#[trigger] front[a]).id
            != (#[trigger] front[b]).id by {
            assert(front[a] == tabs[a]);
            assert(front[b] == tabs[b]);
        }
        lemma_without_connection(front, connection_id);
        let kept = without_connection(front, connection_id);
        let all = without_connection(tabs, connection_id);
        assert forall|i: int| 0 <= i < all.len() implies has_tab(tabs, (#[trigger] all[i]).id)
            && all[i].connection_id != connection_id by {
            if i < kept.len() {
                assert(all[i] == kept[i]);
                assert(has_tab(front, kept[i].id));
                let k = tab_position(front, kept[i].id);
                assert(front[k] == tabs[k]);
            } else {
                assert(all[i] == tabs.last());
                assert(tabs[tabs.len() - 1] == tabs.last());
            }
        }
        assert forall|a: int, b: int|
            0 <= a < all.len() && 0 <= b < all.len() && a != b implies (#[trigger] all[a]).id != (
        #[trigger] all[b]).id by {
            if a < kept.len() && b < kept.len() {
                assert(all[a] == kept[a]);
                assert(all[b] == kept[b]);
            } else {
                let inner = if a < kept.len() { a } else { b };
                assert(all[inner] == kept[inner]);
                assert(has_tab(front, kept[inner].id));
                let k = tab_position(front, kept[inner].id);
                assert(front[k] == tabs[k]);
                assert(tabs[tabs.len() - 1] == tabs.last());
            }
        }
    }
}

impl ConnectionStorage {
    /// No two saved connections share an identifier, no two tabs do, and
    /// the master key has the length that the cipher asks for.
    pub open spec fn wf(&self) -> bool {
        &&& distinct_saved(self@.connections)
        &&& distinct_tabs(self@.tabs)
        &&& self@.master_key.len() == KEY_LEN
    }

    /// An empty store under `master_key`.
    pub fn new(master_key: Vec<u8>) -> (store: Self)
        requires
            master_key.len() == KEY_LEN,
        ensures
            store.wf(),
            store@ == (StoreModel {
                connections: Seq::empty(),
                tabs: Seq::empty(),
                master_key: master_key@,
            }),
    {
        let store = ConnectionStorage { connections: Vec::new(), tabs: Vec::new(), master_key };
        proof {
            assert(store@.connections =~= Seq::<ConfigModel>::empty());
            assert(store@.tabs =~= Seq::<TabModel>::empty());
        }
        store
    }

    /// Where the tab under `tab_id` stands.
    fn find_tab(&self, tab_id: &str) -> (found: Option<usize>)
        requires
            self.wf(),
        ensures
            match found {
                Some(i) => i < self@.tabs.len() && self@.tabs[i as int].id == tab_id@ && has_tab(
                    self@.tabs,
                    tab_id@,
                ) && tab_position(self@.tabs, tab_id@) == i,
                None => !has_tab(self@.tabs, tab_id@),
            },
            self@.tabs.len() == self.tabs.len(),
    {
        let mut i: usize = 0;
        while i < self.tabs.len()
            invariant
                self.wf(),
                i <= self.tabs.len(),
                self@.tabs.len() == self.tabs.len(),
                forall|j: int| 0 <= j < i ==> (#[trigger] self@.tabs[j]).id != tab_id@,
            decreases self.tabs.len() - i,
        {
            if same_text(self.tabs[i].id.as_str(), tab_id) {
                proof {
                    let p = tab_position(self@.tabs, tab_id@);
                    assert(self@.tabs[i as int].id == tab_id@);
                }
                return Some(i);
            }
            i += 1;
        }
        None
    }

    /// The saved tabs, in the order of the store.
    pub fn load_tabs(&self) -> (tabs: Vec<TabInfo>)
        ensures
            tab_models(tabs@) == self@.tabs,
    {
        let mut tabs: Vec<TabInfo> = Vec::new();
        let mut i: usize = 0;
        while i < self.tabs.len()
            invariant
                i <= self.tabs.len(),
                self@.tabs.len() == self.tabs.len(),
                tabs.len() == i,
                forall|j: int| 0 <= j < i ==> (#[trigger] tabs@[j])@ == self@.tabs[j],
            decreases self.tabs.len() - i,
        {
            tabs.push(self.tabs[i].clone());
            i += 1;
        }
        proof {
            assert(tab_models(tabs@) =~= self@.tabs);
        }
        tabs
    }

    /// Takes the tab under `tab_id` out of the store.
    pub fn remove_tab(&mut self, tab_id: &str) -> (result: Result<(), StorageError>)
        requires
            old(self).wf(),
        ensures
            final(self).wf(),
            final(self)@ == (StoreModel { tabs: without_tab(old(self)@.tabs, tab_id@), ..old(self)@ }),
            match result {
                Ok(_) => has_tab(old(self)@.tabs, tab_id@),
                Err(error) => !has_tab(old(self)@.tabs, tab_id@) && error@
                    == StorageFault::TabNotFound,
            },
    {
        match self.find_tab(tab_id) {
            Some(i) => {
                let _ = self.tabs.remove(i);
                proof {
                    lemma_without_tab(old(self)@.tabs, tab_id@);
                    assert(self@.tabs =~= old(self)@.tabs.remove(i as int));
                }
                Ok(())
            },
            None => Err(StorageError::TabNotFound),
        }
    }

    /// Makes the tab under `tab_id` the active one, as of time `now`. All
    /// other tabs become inactive. Where no such tab is saved, nothing
    /// changes.
    pub fn set_active_tab_at(&mut self, tab_id: &str, now: i64) -> (result: Result<
        (),
        StorageError,
    >)
        requires
            old(self).wf(),
        ensures
            final(self).wf(),
            match result {
                Ok(_) => has_tab(old(self)@.tabs, tab_id@) && final(self)@ == (StoreModel {
                    tabs: activated(old(self)@.tabs, tab_id@, now),
                    ..old(self)@
                }),
                Err(error) => !has_tab(old(self)@.tabs, tab_id@) && error@
                    == StorageFault::TabNotFound && final(self)@ == old(self)@,
            },
    {
        if self.find_tab(tab_id).is_none() {
            return Err(StorageError::TabNotFound);
        }
        let mut i: usize = 0;
        while i < self.tabs.len()
            invariant
                i <= self.tabs.len(),
                self.tabs.len() == old(self).tabs.len(),
                self@.connections == old(self)@.connections,
                self@.master_key == old(self)@.master_key,
                forall|j: int|
                    0 <= j < i ==> (#[trigger] self.tabs@[j])@ == activated_tab(
                        old(self).tabs@[j]@,
                        tab_id@,
                        now,
                    ),
                forall|j: int|
                    i <= j < self.tabs.len() ==> (#[trigger] self.tabs@[j])@ == old(self).tabs@[j]@,
            decreases self.tabs.len() - i,
        {
            let chosen: bool = same_text(self.tabs[i].id.as_str(), tab_id);
            let renewed = TabInfo {
                id: self.tabs[i].id.clone(),
                connection_id: self.tabs[i].connection_id.clone(),
                title: self.tabs[i].title.clone(),
                active: chosen,
                created_at: self.tabs[i].created_at,
                updated_at: if chosen {
                    now
                } else {
                    self.tabs[i].updated_at
                },
            };
            self.tabs.set(i, renewed);
            i += 1;
        }
        proof {
            assert(self@.tabs =~= activated(old(self)@.tabs, tab_id@, now));
            assert forall|a: int, b: int|
                0 <= a < self@.tabs.len() && 0 <= b < self@.tabs.len() && a != b implies (
            #[trigger] self@.tabs[a]).id != (#[trigger] self@.tabs[b]).id by {
                assert(self@.tabs[a].id == old(self)@.tabs[a].id);
                assert(self@.tabs[b].id == old(self)@.tabs[b].id);
            }
        }
        Ok(())
    }

    /// Makes the tab under `tab_id` the active one, as of now.
    pub fn set_active_tab(&mut self, tab_id: &str) -> (result: Result<(), StorageError>)
        requires
            old(self).wf(),
        ensures
            final(self).wf(),
            match result {
                Ok(_) => has_tab(old(self)@.tabs, tab_id@) && exists|now: i64|
                    final(self)@ == (StoreModel {
                        tabs: #[trigger] activated(old(self)@.tabs, tab_id@, now),
                        ..old(self)@
                    }),
                Err(error) => !has_tab(old(self)@.tabs, tab_id@) && error@
                    == StorageFault::TabNotFound && final(self)@ == old(self)@,
            },
    {
        let now: i64 = now_millis();
        self.set_active_tab_at(tab_id, now)
    }

    /// Takes every tab out of the store.
    pub fn clear_all_tabs(&mut self) -> (result: Result<(), StorageError>)
        requires
            old(self).wf(),
        ensures
            final(self).wf(),
            result is Ok,
            final(self)@ == (StoreModel { tabs: Seq::empty(), ..old(self)@ }),
    {
        self.tabs = Vec::new();
        proof {
            assert(self@.tabs =~= Seq::<TabModel>::empty());
        }
        Ok(())
    }

    /// Takes the tabs that refer to the connection `connection_id` out of
    /// the store.
    pub fn remove_tabs_by_connection_id(&mut self, connection_id: &str) -> (result: Result<
        (),
        StorageError,
    >)
        requires
            old(self).wf(),
        ensures
            final(self).wf(),
            result is Ok,
            final(self)@ == (StoreModel {
                tabs: without_connection(old(self)@.tabs, connection_id@),
                ..old(self)@
            }),
    {
        let mut kept: Vec<TabInfo> = Vec::new();
        let mut i: usize = 0;
        proof {
            assert(self@.tabs.take(0) =~= Seq::<TabModel>::empty());
            assert(tab_models(kept@) =~= Seq::<TabModel>::empty());
        }
        while i < self.tabs.len()
            invariant
                i <= self.tabs.len(),
                *self == *old(self),
                self@.tabs.len() == self.tabs.len(),
                tab_models(kept@) == without_connection(self@.tabs.take(i as int), connection_id@),
            decreases self.tabs.len() - i,
        {
            proof {
                assert(self@.tabs.take(i + 1).drop_last() =~= self@.tabs.take(i as int));
                assert(self@.tabs.take(i + 1).last() == self.tabs@[i as int]@);
            }
            if !same_text(self.tabs[i].connection_id.as_str(), connection_id) {
                let tab: TabInfo = self.tabs[i].clone();
                proof {
                    assert(tab_models(kept@.push(tab)) =~= tab_models(kept@).push(tab@));
                }
                kept.push(tab);
            }
            i += 1;
        }
        proof {
            assert(self@.tabs.take(i as int) =~= self@.tabs);
            lemma_without_connection(old(self)@.tabs, connection_id@);
        }
        self.tabs = kept;
        Ok(())
    }
}

/// `base` itself for zero, and otherwise `base` followed by `k` in
/// brackets: the names tried for a connection, in their order.
pub open spec fn numbered(base: Seq<char>, k: nat) -> Seq<char> {
    if k == 0 {
        base
    } else {
        base + seq!['('] + digits_of(k) + seq![')']
    }
}

/// Whether a saved connection bears `name`.
pub open spec fn name_taken(saved: Seq<ConfigModel>, name: Seq<char>) -> bool {
    exists|i: int| 0 <= i < saved.len() && (#[trigger] saved[i]).name == name
}

/// The first number at or after `k` whose name no saved connection bears.
pub open spec fn first_free(saved: Seq<ConfigModel>, base: Seq<char>, k: nat) -> nat
    decreases saved.len() - k,
{
    if k >= saved.len() || !name_taken(saved, numbered(base, k)) {
        k
    } else {
        first_free(saved, base, k + 1)
    }
}

/// The name under which a connection called `base` is saved: `base`
/// itself where no saved connection bears it, else `base` with the first
/// number in brackets that gives a name not yet borne.
pub open spec fn unique_name(saved: Seq<ConfigModel>, base: Seq<char>) -> Seq<char> {
    numbered(base, first_free(saved, base, 0))
}

/// Among more candidates than names, all different, one is no name.
pub proof fn lemma_pigeonhole(names: Seq<Seq<char>>, candidates: Seq<Seq<char>>)
    requires
        candidates.len() > names.len(),
        forall|i: int, j: int|
            0 <= i < candidates.len() && 0 <= j < candidates.len() && i != j ==> candidates[i]
                != candidates[j],
    ensures
        exists|k: int| 0 <= k < candidates.len() && !names.contains(#[trigger] candidates[k]),
    decreases names.len(),
{
    if names.len() == 0 {
        assert(!names.contains(candidates[0]));
    } else {
        let x = names.last();
        let front = names.drop_last();
        assert forall|v: Seq<char>| names.contains(v) implies front.contains(v) || v == x by {
            let i = choose|i: int| 0 <= i < names.len() && names[i] == v;
            if i < front.len() {
                assert(front[i] == v);
            }
        }
        if exists|j: int| 0 <= j < candidates.len() && candidates[j] == x {
            let j = choose|j: int| 0 <= j < candidates.len() && candidates[j] == x;
            let fewer = candidates.remove(j);
            assert forall|a: int, b: int|
                0 <= a < fewer.len() && 0 <= b < fewer.len() && a != b implies fewer[a]
                != fewer[b] by {
                let a0 = if a < j { a } else { a + 1 };
                let b0 = if b < j { b } else { b + 1 };
                assert(fewer[a] == candidates[a0]);
                assert(fewer[b] == candidates[b0]);
            }
            lemma_pigeonhole(front, fewer);
            let k = choose|k: int| 0 <= k < fewer.len() && !front.contains(#[trigger] fewer[k]);
            let k0 = if k < j { k } else { k + 1 };
            assert(fewer[k] == candidates[k0]);
            assert(!names.contains(candidates[k0]));
        } else {
            lemma_pigeonhole(front, candidates);
            let k = choose|k: int|
                0 <= k < candidates.len() && !front.contains(#[trigger] candidates[k]);
            assert(!names.contains(candidates[k]));
        }
    }
}

/// Different numbers give different names.
pub proof fn lemma_numbered_differ(base: Seq<char>, j: nat, k: nat)
    requires
        j != k,
    ensures
        numbered(base, j) != numbered(base, k),
{
    lemma_digits_of_value(j);
    lemma_digits_of_value(k);
    if j == 0 || k == 0 {
        assert(numbered(base, j).len() != numbered(base, k).len());
    } else {
        let a = numbered(base, j);
        let b = numbered(base, k);
        if a == b {
            assert(a.len() == b.len());
            assert(digits_of(j).len() == digits_of(k).len());
            assert forall|i: int| 0 <= i < digits_of(j).len() implies digits_of(j)[i] == digits_of(
                k,
            )[i] by {
                assert(a[base.len() + 1 + i] == digits_of(j)[i]);
                assert(b[base.len() + 1 + i] == digits_of(k)[i]);
            }
            assert(digits_of(j) =~= digits_of(k));
        }
    }
}

/// No saved connection bears the unique name.
pub proof fn lemma_unique_name_is_free(saved: Seq<ConfigModel>, base: Seq<char>)
    ensures
        !name_taken(saved, unique_name(saved, base)),
        first_free(saved, base, 0) <= saved.len(),
{
    let names = Seq::new(saved.len(), |i: int| saved[i].name);
    let candidates = Seq::new(saved.len() + 1, |k: int| numbered(base, k as nat));
    assert forall|i: int, j: int|
        0 <= i < candidates.len() && 0 <= j < candidates.len() && i != j implies candidates[i]
        != candidates[j] by {
        lemma_numbered_differ(base, i as nat, j as nat);
    }
    lemma_pigeonhole(names, candidates);
    let free = choose|k: int| 0 <= k < candidates.len() && !names.contains(#[trigger] candidates[k]);
    assert(!name_taken(saved, numbered(base, free as nat))) by {
        if name_taken(saved, numbered(base, free as nat)) {
            let i = choose|i: int|
                0 <= i < saved.len() && (#[trigger] saved[i]).name == numbered(base, free as nat);
            assert(names[i] == candidates[free]);
        }
    }
    lemma_first_free(saved, base, 0, free as nat);
}

/// The search for a free number stops at the first one at or after its
/// start, and all numbers before it give names that are borne.
pub proof fn lemma_first_free(saved: Seq<ConfigModel>, base: Seq<char>, from: nat, free: nat)
    requires
        from <= free <= saved.len(),
        !name_taken(saved, numbered(base, free)),
    ensures
        from <= first_free(saved, base, from) <= free,
        !name_taken(saved, numbered(base, first_free(saved, base, from))),
    decreases free - from,
{
    if from < free && from < saved.len() && name_taken(saved, numbered(base, from)) {
        lemma_first_free(saved, base, from + 1, free);
    }
}

/// What is saved for `config` in a store that holds `saved`, under
/// `key`: the configuration under its unique name, its password, if it
/// has one, in a stored form that decrypts to it.
pub open spec fn stores(
    saved: Seq<ConfigModel>,
    key: Seq<u8>,
    config: ConfigModel,
    name: Seq<char>,
    stored: ConfigModel,
) -> bool {
    &&& stored == (ConfigModel { name, password: stored.password, ..config })
    &&& match config.password {
        None => stored.password is None,
        Some(password) => stored.password is Some && decrypted(stored.password->0, key) == Ok::<
            Seq<char>,
            CryptoFault,
        >(password),
    }
}

/// `saved` with `stored` in place of any connection under its identifier.
pub open spec fn with_saved(saved: Seq<ConfigModel>, stored: ConfigModel) -> Seq<ConfigModel> {
    without_saved(saved, stored.id).push(stored)
}

/// `tabs` with `tab` in place of any tab under its identifier.
pub open spec fn with_tab(tabs: Seq<TabModel>, tab: TabModel) -> Seq<TabModel> {
    without_tab(tabs, tab.id).push(tab)
}

/// `config` as it is handed out: with the password that its stored form
/// decrypts to, or the fault that decrypting gives.
pub open spec fn revealed(config: ConfigModel, key: Seq<u8>) -> Result<ConfigModel, CryptoFault> {
    match config.password {
        None => Ok(config),
        Some(text) => match decrypted(text, key) {
            Ok(password) => Ok(ConfigModel { password: Some(password), ..config }),
            Err(fault) => Err(fault),
        },
    }
}

/// The first tab at or after position `from` that refers to the
/// connection `connection_id`.
pub open spec fn tab_of_connection(tabs: Seq<TabModel>, connection_id: Seq<char>, from: int) -> Option<
    TabModel,
>
    decreases tabs.len() - from,
{
    if from < 0 || from >= tabs.len() {
        None
    } else if tabs[from].connection_id == connection_id {
        Some(tabs[from])
    } else {
        tab_of_connection(tabs, connection_id, from + 1)
    }
}

/// Taking the connection under an identifier out of a list without
/// duplicates leaves one without duplicates in which nothing stands under
/// it.
pub proof fn lemma_without_saved(saved: Seq<ConfigModel>, id: Seq<char>)
    requires
        distinct_saved(saved),
    ensures
        distinct_saved(without_saved(saved, id)),
        !has_saved(without_saved(saved, id), id),
{
    let rest = without_saved(saved, id);
    if has_saved(saved, id) {
        let p = saved_position(saved, id);
        assert forall|a: int, b: int|
            0 <= a < rest.len() && 0 <= b < rest.len() && a != b implies (#[trigger] rest[a]).id
            != (#[trigger] rest[b]).id by {
            let a0 = if a < p { a } else { a + 1 };
            let b0 = if b < p { b } else { b + 1 };
            assert(rest[a] == saved[a0]);
            assert(rest[b] == saved[b0]);
        }
        if has_saved(rest, id) {
            let q = saved_position(rest, id);
            let q0 = if q < p { q } else { q + 1 };
            assert(rest[q] == saved[q0]);
            assert(saved[p].id == saved[q0].id);
        }
    }
}

impl ConnectionStorage {
    /// Where the connection under `connection_id` stands.
    fn find_saved(&self, connection_id: &str) -> (found: Option<usize>)
        requires
            self.wf(),
        ensures
            match found {
                Some(i) => i < self@.connections.len() && self@.connections[i as int].id
                    == connection_id@ && has_saved(self@.connections, connection_id@)
                    && saved_position(self@.connections, connection_id@) == i,
                None => !has_saved(self@.connections, connection_id@),
            },
            self@.connections.len() == self.connections.len(),
    {
        let mut i: usize = 0;
        while i < self.connections.len()
            invariant
                self.wf(),
                i <= self.connections.len(),
                self@.connections.len() == self.connections.len(),
                forall|j: int| 0 <= j < i ==> (#[trigger] self@.connections[j]).id != connection_id@,
            decreases self.connections.len() - i,
        {
            if same_text(self.connections[i].id.as_str(), connection_id) {
                proof {
                    assert(self@.connections[i as int].id == connection_id@);
                }
                return Some(i);
            }
            i += 1;
        }
        None
    }

    /// Whether a saved connection bears `name`.
    fn is_name_taken(&self, name: &Vec<char>) -> (taken: bool)
        ensures
            taken == name_taken(self@.connections, name@),
    {
        let mut i: usize = 0;
        while i < self.connections.len()
            invariant
                i <= self.connections.len(),
                self@.connections.len() == self.connections.len(),
                forall|j: int| 0 <= j < i ==> (#[trigger] self@.connections[j]).name != name@,
            decreases self.connections.len() - i,
        {
            let other: Vec<char> = to_chars(self.connections[i].name.as_str());
            if same_chars(&other, name) {
                proof {
                    assert(self@.connections[i as int].name == name@);
                }
                return true;
            }
            i += 1;
        }
        false
    }

    /// The name under which a connection called `base_name` is saved.
    pub fn generate_unique_name(&self, base_name: &str) -> (name: String)
        ensures
            name@ == unique_name(self@.connections, base_name@),
            !name_taken(self@.connections, name@),
    {
        let base: Vec<char> = to_chars(base_name);
        let mut candidate: Vec<char> = to_chars(base_name);
        let mut k: usize = 0;
        proof {
            lemma_unique_name_is_free(self@.connections, base_name@);
        }
        while k < self.connections.len() && self.is_name_taken(&candidate)
            invariant
                k <= self.connections.len(),
                self@.connections.len() == self.connections.len(),
                base@ == base_name@,
                candidate@ == numbered(base_name@, k as nat),
                first_free(self@.connections, base_name@, 0) == first_free(
                    self@.connections,
                    base_name@,
                    k as nat,
                ),
            decreases self.connections.len() - k,
        {
            k += 1;
            let number: Vec<char> = render_u64(k as u64);
            let mut next: Vec<char> = to_chars(base_name);
            next.push('(');
            append(&mut next, &number);
            next.push(')');
            proof {
                assert(next@ =~= numbered(base_name@, k as nat));
            }
            candidate = next;
        }
        from_chars(&candidate)
    }

    /// The saved connections as they are held: passwords encrypted, in
    /// the order of the store.
    pub fn load_connections(&self) -> (configs: Vec<ConnectionConfig>)
        ensures
            saved_models(configs@) == self@.connections,
    {
        let mut configs: Vec<ConnectionConfig> = Vec::new();
        let mut i: usize = 0;
        while i < self.connections.len()
            invariant
                i <= self.connections.len(),
                self@.connections.len() == self.connections.len(),
                configs.len() == i,
                forall|j: int| 0 <= j < i ==> (#[trigger] configs@[j])@ == self@.connections[j],
            decreases self.connections.len() - i,
        {
            configs.push(self.connections[i].clone());
            i += 1;
        }
        proof {
            assert(saved_models(configs@) =~= self@.connections);
        }
        configs
    }

    /// Puts `stored` in place of any connection under its identifier.
    fn put_saved(&mut self, stored: ConnectionConfig)
        requires
            old(self).wf(),
        ensures
            final(self).wf(),
            final(self)@ == (StoreModel {
                connections: with_saved(old(self)@.connections, stored@),
                ..old(self)@
            }),
    {
        proof {
            lemma_without_saved(self@.connections, stored@.id);
        }
        if let Some(i) = self.find_saved(stored.id.as_str()) {
            let _ = self.connections.remove(i);
            proof {
                assert(self@.connections =~= old(self)@.connections.remove(i as int));
            }
        }
        let ghost rest = self@.connections;
        self.connections.push(stored);
        proof {
            assert(self@.connections =~= rest.push(stored@));
            assert forall|a: int, b: int|
                0 <= a < self@.connections.len() && 0 <= b < self@.connections.len() && a
                    != b implies (#[trigger] self@.connections[a]).id != (
            #[trigger] self@.connections[b]).id by {
                if a < rest.len() {
                    assert(self@.connections[a] == rest[a]);
                }
                if b < rest.len() {
                    assert(self@.connections[b] == rest[b]);
                }
            }
        }
    }

    /// Saves `config` under a name that no saved connection bears, its
    /// password encrypted, in place of any connection under its
    /// identifier. Fails, and changes nothing, only where the password
    /// cannot be encrypted.
    pub fn save_connection(&mut self, config: &ConnectionConfig) -> (result: Result<
        (),
        StorageError,
    >)
        requires
            old(self).wf(),
        ensures
            final(self).wf(),
            match result {
                Ok(_) => exists|stored: ConfigModel|
                    #[trigger] stores(
                        old(self)@.connections,
                        old(self)@.master_key,
                        config@,
                        unique_name(old(self)@.connections, config@.name),
                        stored,
                    ) && final(self)@ == (StoreModel {
                        connections: with_saved(old(self)@.connections, stored),
                        ..old(self)@
                    }),
                Err(error) => final(self)@ == old(self)@ && config@.password is Some
                    && error@ is Crypto,
            },
    {
        let name: String = self.generate_unique_name(config.name.as_str());
        let password: Option<String> = match &config.password {
            None => None,
            Some(plain) => match encrypt_password(plain.as_str(), self.master_key.as_slice()) {
                Ok(text) => Some(text),
                Err(error) => {
                    return Err(StorageError::Crypto(error));
                },
            },
        };
        let stored = ConnectionConfig {
            id: config.id.clone(),
            name,
            host: config.host.clone(),
            port: config.port,
            username: config.username.clone(),
            password,
            private_key_path: clone_optional(&config.private_key_path),
            auth_method: config.auth_method,
            connected: config.connected,
            active: config.active,
            prompt_config: config.prompt_config.clone(),
            created_at: config.created_at,
            updated_at: config.updated_at,
        };
        proof {
            assert(stores(
                self@.connections,
                self@.master_key,
                config@,
                unique_name(self@.connections, config@.name),
                stored@,
            ));
        }
        self.put_saved(stored);
        Ok(())
    }

    /// The connection saved under `connection_id`, its password
    /// decrypted.
    pub fn load_connection(&self, connection_id: &str) -> (result: Result<
        ConnectionConfig,
        StorageError,
    >)
        requires
            self.wf(),
        ensures
            match result {
                Ok(config) => has_saved(self@.connections, connection_id@) && revealed(
                    self@.connections[saved_position(self@.connections, connection_id@)],
                    self@.master_key,
                ) == Ok::<ConfigModel, CryptoFault>(config@),
                Err(error) => if has_saved(self@.connections, connection_id@) {
                    error@ is Crypto && revealed(
                        self@.connections[saved_position(self@.connections, connection_id@)],
                        self@.master_key,
                    ) == Err::<ConfigModel, CryptoFault>(error@->Crypto_0)
                } else {
                    error@ == StorageFault::ConnectionNotFound
                },
            },
    {
        match self.find_saved(connection_id) {
            None => Err(StorageError::ConnectionNotFound),
            Some(i) => self.reveal_at(i),
        }
    }

    /// The connection at position `i`, its password decrypted.
    fn reveal_at(&self, i: usize) -> (result: Result<ConnectionConfig, StorageError>)
        requires
            self.wf(),
            i < self@.connections.len(),
        ensures
            match result {
                Ok(config) => revealed(self@.connections[i as int], self@.master_key) == Ok::<
                    ConfigModel,
                    CryptoFault,
                >(config@),
                Err(error) => error@ is Crypto && revealed(
                    self@.connections[i as int],
                    self@.master_key,
                ) == Err::<ConfigModel, CryptoFault>(error@->Crypto_0),
            },
    {
        assert(self@.connections.len() == self.connections.len());
        let mut config: ConnectionConfig = self.connections[i].clone();
        match &self.connections[i].password {
            None => Ok(config),
            Some(text) => match decrypt_password(text.as_str(), self.master_key.as_slice()) {
                Ok(password) => {
                    config.password = Some(password);
                    Ok(config)
                },
                Err(error) => Err(StorageError::Crypto(error)),
            },
        }
    }

    /// Puts `config`, its password encrypted, in place of the connection
    /// saved under its identifier; the name stays as `config` has it.
    /// Fails, and changes nothing, where no such connection is saved or
    /// the password cannot be encrypted.
    pub fn update_connection(&mut self, config: &ConnectionConfig) -> (result: Result<
        (),
        StorageError,
    >)
        requires
            old(self).wf(),
        ensures
            final(self).wf(),
            match result {
                Ok(_) => has_saved(old(self)@.connections, config@.id) && exists|
                    stored: ConfigModel,
                |
                    #[trigger] stores(
                        old(self)@.connections,
                        old(self)@.master_key,
                        config@,
                        config@.name,
                        stored,
                    ) && final(self)@ == (StoreModel {
                        connections: with_saved(old(self)@.connections, stored),
                        ..old(self)@
                    }),
                Err(error) => final(self)@ == old(self)@ && if has_saved(
                    old(self)@.connections,
                    config@.id,
                ) {
                    config@.password is Some && error@ is Crypto
                } else {
                    error@ == StorageFault::ConnectionNotFound
                },
            },
    {
        if self.find_saved(config.id.as_str()).is_none() {
            return Err(StorageError::ConnectionNotFound);
        }
        let password: Option<String> = match &config.password {
            None => None,
            Some(plain) => match encrypt_password(plain.as_str(), self.master_key.as_slice()) {
                Ok(text) => Some(text),
                Err(error) => {
                    return Err(StorageError::Crypto(error));
                },
            },
        };
        let mut stored: ConnectionConfig = config.clone();
        stored.password = password;
        proof {
            assert(stores(
                self@.connections,
                self@.master_key,
                config@,
                config@.name,
                stored@,
            ));
        }
        self.put_saved(stored);
        Ok(())
    }

    /// Takes the connection under `connection_id` out of the store, if
    /// one is saved there.
    pub fn delete_connection(&mut self, connection_id: &str) -> (result: Result<(), StorageError>)
        requires
            old(self).wf(),
        ensures
            final(self).wf(),
            result is Ok,
            final(self)@ == (StoreModel {
                connections: without_saved(old(self)@.connections, connection_id@),
                ..old(self)@
            }),
    {
        proof {
            lemma_without_saved(self@.connections, connection_id@);
        }
        if let Some(i) = self.find_saved(connection_id) {
            let _ = self.connections.remove(i);
            proof {
                assert(self@.connections =~= old(self)@.connections.remove(i as int));
            }
        }
        Ok(())
    }

    /// Takes every connection out of the store.
    pub fn delete_all(&mut self) -> (result: Result<(), StorageError>)
        requires
            old(self).wf(),
        ensures
            final(self).wf(),
            result is Ok,
            final(self)@ == (StoreModel { connections: Seq::empty(), ..old(self)@ }),
    {
        self.connections = Vec::new();
        proof {
            assert(self@.connections =~= Seq::<ConfigModel>::empty());
        }
        Ok(())
    }

    /// The saved connections without their passwords, in the order of the
    /// store: what an export holds.
    pub fn export_connections(&self) -> (configs: Vec<ConnectionConfig>)
        ensures
            saved_models(configs@) == self@.connections.map_values(
                |config: ConfigModel| ConfigModel { password: None, ..config },
            ),
    {
        let mut configs: Vec<ConnectionConfig> = Vec::new();
        let mut i: usize = 0;
        while i < self.connections.len()
            invariant
                i <= self.connections.len(),
                self@.connections.len() == self.connections.len(),
                configs.len() == i,
                forall|j: int|
                    0 <= j < i ==> (#[trigger] configs@[j])@ == (ConfigModel {
                        password: None,
                        ..self@.connections[j]
                    }),
            decreases self.connections.len() - i,
        {
            let mut config: ConnectionConfig = self.connections[i].clone();
            config.password = None;
            configs.push(config);
            i += 1;
        }
        proof {
            assert(saved_models(configs@) =~= self@.connections.map_values(
                |config: ConfigModel| ConfigModel { password: None, ..config },
            ));
        }
        configs
    }
}

/// The tabs that a store holds once the tabs of `list` are put into an
/// empty one, one after the other: of several under one identifier the
/// last stays.
pub open spec fn tabs_from(list: Seq<TabModel>) -> Seq<TabModel>
    decreases list.len(),
{
    if list.len() == 0 {
        Seq::empty()
    } else {
        with_tab(tabs_from(list.drop_last()), list.last())
    }
}

/// The connections that a store holds once those of `list` are put into
/// an empty one, one after the other: of several under one identifier the
/// last stays.
pub open spec fn saved_from(list: Seq<ConfigModel>) -> Seq<ConfigModel>
    decreases list.len(),
{
    if list.len() == 0 {
        Seq::empty()
    } else {
        with_saved(saved_from(list.drop_last()), list.last())
    }
}

/// Whether `now` can be what a store that held `saved` holds after the
/// first `count` configurations of `list` were saved into it, one after
/// the other, each under its unique name with its password encrypted
/// under `key`.
pub open spec fn imported(
    saved: Seq<ConfigModel>,
    key: Seq<u8>,
    list: Seq<ConfigModel>,
    count: nat,
    now: Seq<ConfigModel>,
) -> bool
    decreases count,
{
    if count == 0 {
        now == saved
    } else {
        exists|before: Seq<ConfigModel>, stored: ConfigModel|
            imported(saved, key, list, (count - 1) as nat, before) && #[trigger] stores(
                before,
                key,
                list[count - 1],
                unique_name(before, list[count - 1].name),
                stored,
            ) && now == with_saved(before, stored)
    }
}

impl ConnectionStorage {
    /// Puts `tab` in place of any tab under its identifier.
    fn put_tab(&mut self, tab: TabInfo)
        requires
            old(self).wf(),
        ensures
            final(self).wf(),
            final(self)@ == (StoreModel { tabs: with_tab(old(self)@.tabs, tab@), ..old(self)@ }),
    {
        proof {
            lemma_without_tab(self@.tabs, tab@.id);
        }
        if let Some(i) = self.find_tab(tab.id.as_str()) {
            let _ = self.tabs.remove(i);
            proof {
                assert(self@.tabs =~= old(self)@.tabs.remove(i as int));
            }
        }
        let ghost rest = self@.tabs;
        self.tabs.push(tab);
        proof {
            assert(self@.tabs =~= rest.push(tab@));
            assert forall|a: int, b: int|
                0 <= a < self@.tabs.len() && 0 <= b < self@.tabs.len() && a != b implies (
            #[trigger] self@.tabs[a]).id != (#[trigger] self@.tabs[b]).id by {
                if a < rest.len() {
                    assert(self@.tabs[a] == rest[a]);
                }
                if b < rest.len() {
                    assert(self@.tabs[b] == rest[b]);
                }
            }
        }
    }

    /// Replaces the saved tabs by those of `tabs`.
    pub fn save_tabs(&mut self, tabs: Vec<TabInfo>) -> (result: Result<(), StorageError>)
        requires
            old(self).wf(),
        ensures
            final(self).wf(),
            result is Ok,
            final(self)@ == (StoreModel { tabs: tabs_from(tab_models(tabs@)), ..old(self)@ }),
    {
        self.tabs = Vec::new();
        proof {
            assert(self@.tabs =~= Seq::<TabModel>::empty());
            assert(tab_models(tabs@).take(0) =~= Seq::<TabModel>::empty());
        }
        let mut i: usize = 0;
        while i < tabs.len()
            invariant
                i <= tabs.len(),
                self.wf(),
                self@.connections == old(self)@.connections,
                self@.master_key == old(self)@.master_key,
                self@.tabs == tabs_from(tab_models(tabs@).take(i as int)),
            decreases tabs.len() - i,
        {
            proof {
                assert(tab_models(tabs@).take(i + 1).drop_last() =~= tab_models(tabs@).take(
                    i as int,
                ));
                assert(tab_models(tabs@).take(i + 1).last() == tabs@[i as int]@);
            }
            self.put_tab(tabs[i].clone());
            i += 1;
        }
        proof {
            assert(tab_models(tabs@).take(i as int) =~= tab_models(tabs@));
        }
        Ok(())
    }

    /// Replaces the saved connections by those of `configs`, taken as
    /// they are: passwords are expected in their stored form.
    pub fn save_connections(&mut self, configs: Vec<ConnectionConfig>) -> (result: Result<
        (),
        StorageError,
    >)
        requires
            old(self).wf(),
        ensures
            final(self).wf(),
            result is Ok,
            final(self)@ == (StoreModel {
                connections: saved_from(saved_models(configs@)),
                ..old(self)@
            }),
    {
        self.connections = Vec::new();
        proof {
            assert(self@.connections =~= Seq::<ConfigModel>::empty());
            assert(saved_models(configs@).take(0) =~= Seq::<ConfigModel>::empty());
        }
        let mut i: usize = 0;
        while i < configs.len()
            invariant
                i <= configs.len(),
                self.wf(),
                self@.tabs == old(self)@.tabs,
                self@.master_key == old(self)@.master_key,
                self@.connections == saved_from(saved_models(configs@).take(i as int)),
            decreases configs.len() - i,
        {
            proof {
                assert(saved_models(configs@).take(i + 1).drop_last() =~= saved_models(
                    configs@,
                ).take(i as int));
                assert(saved_models(configs@).take(i + 1).last() == configs@[i as int]@);
            }
            self.put_saved(configs[i].clone());
            i += 1;
        }
        proof {
            assert(saved_models(configs@).take(i as int) =~= saved_models(configs@));
        }
        Ok(())
    }

    /// The first tab that refers to the connection `connection_id`.
    fn find_tab_of(&self, connection_id: &str) -> (found: Option<usize>)
        ensures
            match found {
                Some(i) => i < self@.tabs.len() && tab_of_connection(
                    self@.tabs,
                    connection_id@,
                    0,
                ) == Some(self@.tabs[i as int]),
                None => tab_of_connection(self@.tabs, connection_id@, 0) is None,
            },
            self@.tabs.len() == self.tabs.len(),
    {
        let mut i: usize = 0;
        while i < self.tabs.len()
            invariant
                i <= self.tabs.len(),
                self@.tabs.len() == self.tabs.len(),
                tab_of_connection(self@.tabs, connection_id@, 0) == tab_of_connection(
                    self@.tabs,
                    connection_id@,
                    i as int,
                ),
            decreases self.tabs.len() - i,
        {
            if same_text(self.tabs[i].connection_id.as_str(), connection_id) {
                return Some(i);
            }
            i += 1;
        }
        None
    }

    /// Adds `tab` and gives its identifier, unless the connection it
    /// refers to already has a tab; then nothing changes, and the error
    /// names that tab's title.
    pub fn add_tab(&mut self, tab: TabInfo) -> (result: Result<String, StorageError>)
        requires
            old(self).wf(),
        ensures
            final(self).wf(),
            match tab_of_connection(old(self)@.tabs, tab@.connection_id, 0) {
                Some(existing) => result is Err && result->Err_0@ == StorageFault::TabExists(
                    existing.title,
                ) && final(self)@ == old(self)@,
                None => result is Ok && result->Ok_0@ == tab@.id && final(self)@ == (StoreModel {
                    tabs: with_tab(old(self)@.tabs, tab@),
                    ..old(self)@
                }),
            },
    {
        match self.find_tab_of(tab.connection_id.as_str()) {
            Some(i) => Err(StorageError::TabExists(self.tabs[i].title.clone())),
            None => {
                let id: String = tab.id.clone();
                self.put_tab(tab);
                Ok(id)
            },
        }
    }

    /// Puts `tab` in place of the tab saved under its identifier; fails,
    /// and changes nothing, where none is.
    pub fn update_tab(&mut self, tab: TabInfo) -> (result: Result<(), StorageError>)
        requires
            old(self).wf(),
        ensures
            final(self).wf(),
            match result {
                Ok(_) => has_tab(old(self)@.tabs, tab@.id) && final(self)@ == (StoreModel {
                    tabs: with_tab(old(self)@.tabs, tab@),
                    ..old(self)@
                }),
                Err(error) => !has_tab(old(self)@.tabs, tab@.id) && error@
                    == StorageFault::TabNotFound && final(self)@ == old(self)@,
            },
    {
        if self.find_tab(tab.id.as_str()).is_none() {
            return Err(StorageError::TabNotFound);
        }
        self.put_tab(tab);
        Ok(())
    }

    /// Saves the configurations of `list`, one after the other, each as
    /// `save_connection` would. Where one of them is unusable or its
    /// password cannot be encrypted, nothing is saved.
    pub fn import_connections(&mut self, list: Vec<ConnectionConfig>) -> (result: Result<
        (),
        StorageError,
    >)
        requires
            old(self).wf(),
        ensures
            final(self).wf(),
            final(self)@.tabs == old(self)@.tabs,
            final(self)@.master_key == old(self)@.master_key,
            match result {
                Ok(_) => imported(
                    old(self)@.connections,
                    old(self)@.master_key,
                    saved_models(list@),
                    list.len() as nat,
                    final(self)@.connections,
                ) && forall|i: int|
                    0 <= i < list.len() ==> (#[trigger] list@[i])@.defect() is None,
                Err(error) => final(self)@ == old(self)@ && match error@ {
                    StorageFault::Invalid(defect) => exists|i: int|
                        0 <= i < list.len() && (#[trigger] list@[i])@.defect() == Some(defect),
                    StorageFault::Crypto(_) => exists|i: int|
                        0 <= i < list.len() && (#[trigger] list@[i])@.password is Some,
                    _ => false,
                },
            },
    {
        let backup: Vec<ConnectionConfig> = self.load_connections();
        let mut i: usize = 0;
        while i < list.len()
            invariant
                i <= list.len(),
                self.wf(),
                self@.tabs == old(self)@.tabs,
                self@.master_key == old(self)@.master_key,
                saved_models(backup@) == old(self)@.connections,
                old(self).wf(),
                imported(
                    old(self)@.connections,
                    old(self)@.master_key,
                    saved_models(list@),
                    i as nat,
                    self@.connections,
                ),
                forall|j: int| 0 <= j < i ==> (#[trigger] list@[j])@.defect() is None,
            decreases list.len() - i,
        {
            let ghost before = self@.connections;
            let outcome: Result<(), StorageError> = match list[i].check() {
                Err(defect) => Err(StorageError::Invalid(defect)),
                Ok(_) => self.save_connection(&list[i]),
            };
            if let Err(error) = outcome {
                self.connections = backup;
                return Err(error);
            }
            proof {
                assert(saved_models(list@)[i as int] == list@[i as int]@);
                let stored = choose|stored: ConfigModel|
                    #[trigger] stores(
                        before,
                        self@.master_key,
                        list@[i as int]@,
                        unique_name(before, list@[i as int]@.name),
                        stored,
                    ) && self@.connections == with_saved(before, stored);
                let key = old(self)@.master_key;
                let models = saved_models(list@);
                let count = (i + 1) as nat;
                assert(imported(old(self)@.connections, key, models, (count - 1) as nat, before));
                assert(stores(
                    before,
                    key,
                    models[count - 1],
                    unique_name(before, models[count - 1].name),
                    stored,
                ));
                assert(self@.connections == with_saved(before, stored));
                assert(imported(old(self)@.connections, key, models, count, self@.connections));
            }
            i += 1;
        }
        Ok(())
    }
}

/// Whether the configurations stand from the newest to the oldest.
pub open spec fn newest_first(list: Seq<ConfigModel>) -> bool {
    forall|i: int, j: int|
        0 <= i < j < list.len() ==> (#[trigger] list[i]).created_at >= (
        #[trigger] list[j]).created_at
}

/// `config` with its password decrypted under `key`; as it is where that
/// fails.
pub open spec fn revealed_or_same(config: ConfigModel, key: Seq<u8>) -> ConfigModel {
    match revealed(config, key) {
        Ok(plain) => plain,
        Err(_) => config,
    }
}

impl ConnectionStorage {
    /// The saved connections, their passwords decrypted, from the newest
    /// to the oldest. Fails where a password cannot be decrypted.
    pub fn get_all_connections(&self) -> (result: Result<Vec<ConnectionConfig>, StorageError>)
        requires
            self.wf(),
        ensures
            match result {
                Ok(list) => {
                    &&& forall|i: int|
                        0 <= i < self@.connections.len() ==> revealed(
                            #[trigger] self@.connections[i],
                            self@.master_key,
                        ) is Ok
                    &&& saved_models(list@).to_multiset() == self@.connections.map_values(
                        |config: ConfigModel| revealed_or_same(config, self@.master_key),
                    ).to_multiset()
                    &&& newest_first(saved_models(list@))
                },
                Err(error) => error@ is Crypto && exists|i: int|
                    0 <= i < self@.connections.len() && revealed(
                        #[trigger] self@.connections[i],
                        self@.master_key,
                    ) == Err::<ConfigModel, CryptoFault>(error@->Crypto_0),
            },
    {
        let mut list: Vec<ConnectionConfig> = Vec::new();
        let mut i: usize = 0;
        let ghost key = self@.master_key;
        let ghost plain = self@.connections.map_values(
            |config: ConfigModel| revealed_or_same(config, key),
        );
        proof {
            assert(plain.take(0) =~= Seq::<ConfigModel>::empty());
            assert(saved_models(list@) =~= Seq::<ConfigModel>::empty());
        }
        while i < self.connections.len()
            invariant
                self.wf(),
                i <= self.connections.len(),
                self@.connections.len() == self.connections.len(),
                key == self@.master_key,
                plain == self@.connections.map_values(
                    |config: ConfigModel| revealed_or_same(config, key),
                ),
                forall|j: int| 0 <= j < i ==> revealed(#[trigger] self@.connections[j], key) is Ok,
                saved_models(list@).to_multiset() == plain.take(i as int).to_multiset(),
                newest_first(saved_models(list@)),
            decreases self.connections.len() - i,
        {
            let config: ConnectionConfig = match self.reveal_at(i) {
                Ok(config) => config,
                Err(error) => {
                    return Err(error);
                },
            };
            let mut at: usize = 0;
            while at < list.len() && list[at].created_at >= config.created_at
                invariant
                    at <= list.len(),
                    forall|j: int|
                        0 <= j < at ==> (#[trigger] list@[j]).created_at >= config.created_at,
                decreases list.len() - at,
            {
                at += 1;
            }
            let ghost before = saved_models(list@);
            proof {
                assert(plain[i as int] == config@);
                assert(plain.take(i + 1) =~= plain.take(i as int).push(config@));
                to_multiset_build(plain.take(i as int), config@);
                to_multiset_insert(before, at as int, config@);
                assert(saved_models(list@.insert(at as int, config)) =~= before.insert(
                    at as int,
                    config@,
                ));
                assert forall|a: int, b: int|
                    0 <= a < b < before.insert(at as int, config@).len() implies (
                #[trigger] before.insert(at as int, config@)[a]).created_at >= (
                #[trigger] before.insert(at as int, config@)[b]).created_at by {
                    let grown = before.insert(at as int, config@);
                    if a < at {
                        assert(grown[a] == before[a]);
                        assert(before[a] == list@[a]@);
                    } else if a > at {
                        assert(grown[a] == before[a - 1]);
                    }
                    if b < at {
                        assert(grown[b] == before[b]);
                    } else if b > at {
                        assert(grown[b] == before[b - 1]);
                        assert(before[b - 1] == list@[b - 1]@);
                        if a == at {
                            assert(before[at as int] == list@[at as int]@);
                        }
                    }
                }
            }
            list.insert(at, config);
            i += 1;
        }
        proof {
            assert(plain.take(i as int) =~= plain);
        }
        Ok(list)
    }
}

} // verus!
