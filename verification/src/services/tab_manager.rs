//! The tabs of the user interface: a list in memory beside the saved one.

use vstd::prelude::*;
use vstd::pervasive::VecAdditionalExecFns;
use vstd::seq_lib::{to_multiset_build, to_multiset_insert};
use crate::clock::now_millis;
use crate::models::connection::{TabInfo, TabModel};
use crate::services::storage::{
    ConnectionStorage, StorageError, StorageFault, StoreModel, activated, activated_tab,
    distinct_tabs, has_tab, tab_models, tab_of_connection, tab_position, with_tab, without_tab,
};
use crate::text::same_text;

verus! {

/// The first active tab at or after position `from`.
pub open spec fn first_active(tabs: Seq<TabModel>, from: int) -> Option<TabModel>
    decreases tabs.len() - from,
{
    if from < 0 || from >= tabs.len() {
        None
    } else if tabs[from].active {
        Some(tabs[from])
    } else {
        first_active(tabs, from + 1)
    }
}

/// Whether the tabs stand from the newest to the oldest.
pub open spec fn newest_tab_first(list: Seq<TabModel>) -> bool {
    forall|i: int, j: int|
        0 <= i < j < list.len() ==> (#[trigger] list[i]).created_at >= (
        #[trigger] list[j]).created_at
}

/// The model of an optional tab.
pub open spec fn optional_tab(tab: Option<TabInfo>) -> Option<TabModel> {
    match tab {
        Some(t) => Some(t@),
        None => None,
    }
}

/// The saved tabs, the tabs in memory and whether closing succeeded, once
/// the tab under `id` is closed at time `now`.
pub open spec fn after_removal(saved: Seq<TabModel>, memory: Seq<TabModel>, id: Seq<char>, now: i64) -> (
    Seq<TabModel>,
    Seq<TabModel>,
    bool,
) {
    if !has_tab(saved, id) {
        (saved, memory, false)
    } else if !has_tab(memory, id) {
        (without_tab(saved, id), memory, false)
    } else {
        let closed = memory[tab_position(memory, id)];
        let left = without_tab(memory, id);
        if closed.active && left.len() > 0 {
            if has_tab(without_tab(saved, id), left[0].id) {
                (activated(without_tab(saved, id), left[0].id, now), left, true)
            } else {
                (without_tab(saved, id), left, false)
            }
        } else {
            (without_tab(saved, id), left, true)
        }
    }
}

/// The tabs as the user interface last saw them.
pub struct SshTabManager {
    tabs: Vec<TabInfo>,
}

impl View for SshTabManager {
    type V = Seq<TabModel>;

    closed spec fn view(&self) -> Seq<TabModel> {
        tab_models(self.tabs@)
    }
}

impl SshTabManager {
    /// No two tabs in memory share an identifier.
    pub open spec fn wf(&self) -> bool {
        distinct_tabs(self@)
    }

    /// A manager that has seen no tab.
    pub fn new() -> (manager: Self)
        ensures
            manager.wf(),
            manager@.len() == 0,
    {
        let manager = SshTabManager { tabs: Vec::new() };
        proof {
            assert(manager@ =~= Seq::<TabModel>::empty());
        }
        manager
    }

    /// Where the tab under `tab_id` stands in memory.
    fn find(&self, tab_id: &str) -> (found: Option<usize>)
        requires
            self.wf(),
        ensures
            match found {
                Some(i) => i < self@.len() && self@[i as int].id == tab_id@ && has_tab(
                    self@,
                    tab_id@,
                ) && tab_position(self@, tab_id@) == i,
                None => !has_tab(self@, tab_id@),
            },
            self@.len() == self.tabs.len(),
    {
        let mut i: usize = 0;
        while i < self.tabs.len()
            invariant
                self.wf(),
                i <= self.tabs.len(),
                self@.len() == self.tabs.len(),
                forall|j: int| 0 <= j < i ==> (#[trigger] self@[j]).id != tab_id@,
            decreases self.tabs.len() - i,
        {
            if same_text(self.tabs[i].id.as_str(), tab_id) {
                proof {
                    assert(self@[i as int].id == tab_id@);
                }
                return Some(i);
            }
            i += 1;
        }
        None
    }

    /// Makes the tab under `tab_id` the active one in memory, as of
    /// `now`; all others become inactive.
    fn activate(&mut self, tab_id: &str, now: i64)
        requires
            old(self).wf(),
        ensures
            final(self).wf(),
            final(self)@ == activated(old(self)@, tab_id@, now),
    {
        let mut i: usize = 0;
        while i < self.tabs.len()
            invariant
                i <= self.tabs.len(),
                self.tabs.len() == old(self).tabs.len(),
                forall|j: int|
                    0 <= j < i ==> (#[trigger] self.tabs@[j])@ == activated_tab(
                        old(self).tabs@[j]@,
                        tab_id@,
                        now,
                    ),
                forall|j: int|
                    i <= j < self.tabs.len() ==> (#[trigger] self.tabs@[j])@ == old(self).tabs@[j]@,
            decreases self.tabs.len() - i,
        {
            let chosen: bool = same_text(self.tabs[i].id.as_str(), tab_id);
            let renewed = TabInfo {
                id: self.tabs[i].id.clone(),
                connection_id: self.tabs[i].connection_id.clone(),
                title: self.tabs[i].title.clone(),
                active: chosen,
                created_at: self.tabs[i].created_at,
                updated_at: if chosen {
                    now
                } else {
                    self.tabs[i].updated_at
                },
            };
            self.tabs.set(i, renewed);
            i += 1;
        }
        proof {
            assert(self@ =~= activated(old(self)@, tab_id@, now));
            assert forall|a: int, b: int|
                0 <= a < self@.len() && 0 <= b < self@.len() && a != b implies (
            #[trigger] self@[a]).id != (#[trigger] self@[b]).id by {
                assert(self@[a].id == old(self)@[a].id);
                assert(self@[b].id == old(self)@[b].id);
            }
        }
    }

    /// Takes the saved tabs into memory and lists them from the newest to
    /// the oldest.
    pub fn get_tabs_list(&mut self, storage: &ConnectionStorage) -> (list: Vec<TabInfo>)
        requires
            storage.wf(),
        ensures
            final(self).wf(),
            final(self)@ == storage@.tabs,
            tab_models(list@).to_multiset() == storage@.tabs.to_multiset(),
            newest_tab_first(tab_models(list@)),
    {
        self.tabs = storage.load_tabs();
        let mut list: Vec<TabInfo> = Vec::new();
        let mut i: usize = 0;
        let ghost all = self@;
        proof {
            assert(all.take(0) =~= Seq::<TabModel>::empty());
            assert(tab_models(list@) =~= Seq::<TabModel>::empty());
        }
        while i < self.tabs.len()
            invariant
                i <= self.tabs.len(),
                all == self@,
                all == storage@.tabs,
                all.len() == self.tabs.len(),
                tab_models(list@).to_multiset() == all.take(i as int).to_multiset(),
                newest_tab_first(tab_models(list@)),
            decreases self.tabs.len() - i,
        {
            let tab: TabInfo = self.tabs[i].clone();
            let mut at: usize = 0;
            while at < list.len() && list[at].created_at >= tab.created_at
                invariant
                    at <= list.len(),
                    forall|j: int| 0 <= j < at ==> (#[trigger] list@[j]).created_at >= tab.created_at,
                decreases list.len() - at,
            {
                at += 1;
            }
            let ghost before = tab_models(list@);
            proof {
                assert(all[i as int] == tab@);
                assert(all.take(i + 1) =~= all.take(i as int).push(tab@));
                to_multiset_build(all.take(i as int), tab@);
                to_multiset_insert(before, at as int, tab@);
                assert(tab_models(list@.insert(at as int, tab)) =~= before.insert(at as int, tab@));
                assert forall|a: int, b: int|
                    0 <= a < b < before.insert(at as int, tab@).len() implies (
                #[trigger] before.insert(at as int, tab@)[a]).created_at >= (
                #[trigger] before.insert(at as int, tab@)[b]).created_at by {
                    let grown = before.insert(at as int, tab@);
                    if a < at {
                        assert(grown[a] == before[a]);
                        assert(before[a] == list@[a]@);
                    } else if a > at {
                        assert(grown[a] == before[a - 1]);
                    }
                    if b < at {
                        assert(grown[b] == before[b]);
                    } else if b > at {
                        assert(grown[b] == before[b - 1]);
                        assert(before[b - 1] == list@[b - 1]@);
                        if a == at {
                            assert(before[at as int] == list@[at as int]@);
                        }
                    }
                }
            }
            list.insert(at, tab);
            i += 1;
        }
        proof {
            assert(all.take(i as int) =~= all);
        }
        list
    }

    /// Makes the tab under `tab_id` the active one, as of `now`, in the
    /// store and in memory. Fails where the store does not hold the tab,
    /// and then nothing changes; fails also where only memory does not
    /// hold it, and then the store has the tab active and memory has none
    /// active.
    pub fn set_active_tab_at(&mut self, storage: &mut ConnectionStorage, tab_id: &str, now: i64) -> (result:
        Result<(), StorageError>)
        requires
            old(self).wf(),
            old(storage).wf(),
        ensures
            final(self).wf(),
            final(storage).wf(),
            result is Ok <==> has_tab(old(storage)@.tabs, tab_id@) && has_tab(old(self)@, tab_id@),
            result is Err ==> result->Err_0@ == StorageFault::TabNotFound,
            if has_tab(old(storage)@.tabs, tab_id@) {
                final(storage)@ == (StoreModel {
                    tabs: activated(old(storage)@.tabs, tab_id@, now),
                    ..old(storage)@
                }) && final(self)@ == activated(old(self)@, tab_id@, now)
            } else {
                final(storage)@ == old(storage)@ && final(self)@ == old(self)@
            },
    {
        if let Err(error) = storage.set_active_tab_at(tab_id, now) {
            return Err(error);
        }
        let known: bool = self.find(tab_id).is_some();
        self.activate(tab_id, now);
        if known {
            Ok(())
        } else {
            Err(StorageError::TabNotFound)
        }
    }

    /// Makes the tab under `tab_id` the active one, as of now.
    pub fn set_active_tab(&mut self, storage: &mut ConnectionStorage, tab_id: &str) -> (result:
        Result<(), StorageError>)
        requires
            old(self).wf(),
            old(storage).wf(),
        ensures
            final(self).wf(),
            final(storage).wf(),
            result is Ok <==> has_tab(old(storage)@.tabs, tab_id@) && has_tab(old(self)@, tab_id@),
            result is Err ==> result->Err_0@ == StorageFault::TabNotFound,
            !has_tab(old(storage)@.tabs, tab_id@) ==> final(storage)@ == old(storage)@,
            !has_tab(old(storage)@.tabs, tab_id@) ==> final(self)@ == old(self)@,
    {
        let now: i64 = now_millis();
        self.set_active_tab_at(storage, tab_id, now)
    }

    /// Puts `tab` in memory in place of any tab under its identifier.
    fn put(&mut self, tab: TabInfo)
        requires
            old(self).wf(),
        ensures
            final(self).wf(),
            final(self)@ == with_tab(old(self)@, tab@),
    {
        proof {
            crate::services::storage::lemma_without_tab(self@, tab@.id);
        }
        if let Some(i) = self.find(tab.id.as_str()) {
            let _ = self.tabs.remove(i);
            proof {
                assert(self@ =~= old(self)@.remove(i as int));
            }
        }
        let ghost rest = self@;
        self.tabs.push(tab);
        proof {
            assert(self@ =~= rest.push(tab@));
            assert forall|a: int, b: int|
                0 <= a < self@.len() && 0 <= b < self@.len() && a != b implies (
            #[trigger] self@[a]).id != (#[trigger] self@[b]).id by {
                if a < rest.len() {
                    assert(self@[a] == rest[a]);
                }
                if b < rest.len() {
                    assert(self@[b] == rest[b]);
                }
            }
        }
    }

    /// Opens `tab` for its connection, as of `now`. Where the store holds
    /// a tab for the connection already, that one is made the active one
    /// instead and its identifier is given. Else `tab` is saved, and in
    /// memory it is added and made the only active one.
    pub fn add_tab_at(&mut self, storage: &mut ConnectionStorage, tab: TabInfo, now: i64) -> (result:
        Result<String, StorageError>)
        requires
            old(self).wf(),
            old(storage).wf(),
        ensures
            final(self).wf(),
            final(storage).wf(),
            match tab_of_connection(old(storage)@.tabs, tab@.connection_id, 0) {
                Some(existing) => {
                    &&& final(storage)@ == (StoreModel {
                        tabs: activated(old(storage)@.tabs, existing.id, now),
                        ..old(storage)@
                    })
                    &&& final(self)@ == activated(old(self)@, existing.id, now)
                    &&& match result {
                        Ok(id) => id@ == existing.id && has_tab(old(self)@, existing.id),
                        Err(error) => error@ == StorageFault::TabNotFound && !has_tab(
                            old(self)@,
                            existing.id,
                        ),
                    }
                },
                None => {
                    &&& result is Ok
                    &&& result->Ok_0@ == tab@.id
                    &&& final(storage)@ == (StoreModel {
                        tabs: with_tab(old(storage)@.tabs, tab@),
                        ..old(storage)@
                    })
                    &&& final(self)@ == activated(
                        with_tab(old(self)@, tab@),
                        tab@.id,
                        tab@.updated_at,
                    )
                },
            },
    {
        let tabs: Vec<TabInfo> = storage.load_tabs();
        let connection_id: String = tab.connection_id.clone();
        let mut i: usize = 0;
        while i < tabs.len()
            invariant
                i <= tabs.len(),
                self.wf(),
                storage.wf(),
                self@ == old(self)@,
                storage@ == old(storage)@,
                tab_models(tabs@) == storage@.tabs,
                connection_id@ == tab@.connection_id,
                tab_of_connection(storage@.tabs, tab@.connection_id, 0) == tab_of_connection(
                    storage@.tabs,
                    tab@.connection_id,
                    i as int,
                ),
            decreases tabs.len() - i,
        {
            proof {
                assert(tab_models(tabs@)[i as int] == tabs@[i as int]@);
            }
            if same_text(tabs[i].connection_id.as_str(), connection_id.as_str()) {
                let id: String = tabs[i].id.clone();
                proof {
                    assert(has_tab(storage@.tabs, id@));
                }
                return match self.set_active_tab_at(storage, id.as_str(), now) {
                    Ok(_) => Ok(id),
                    Err(error) => Err(error),
                };
            }
            i += 1;
        }
        let id: String = tab.id.clone();
        let saved: TabInfo = tab.clone();
        let stamp: i64 = tab.updated_at;
        match storage.add_tab(saved) {
            Ok(_) => {},
            Err(error) => {
                return Err(error);
            },
        }
        self.put(tab);
        self.activate(id.as_str(), stamp);
        Ok(id)
    }

    /// Opens a tab with `title` for the connection `connection_id`, under
    /// a fresh identifier, as of now; or makes the tab that the connection
    /// already has the active one.
    pub fn add_tab(&mut self, storage: &mut ConnectionStorage, connection_id: String, title: String) -> (result:
        Result<String, StorageError>)
        requires
            old(self).wf(),
            old(storage).wf(),
        ensures
            final(self).wf(),
            final(storage).wf(),
            match tab_of_connection(old(storage)@.tabs, connection_id@, 0) {
                Some(existing) => match result {
                    Ok(id) => id@ == existing.id && has_tab(old(self)@, existing.id),
                    Err(error) => error@ == StorageFault::TabNotFound && !has_tab(
                        old(self)@,
                        existing.id,
                    ),
                },
                None => result is Ok && result->Ok_0@.len() == 36 && has_tab(
                    final(storage)@.tabs,
                    result->Ok_0@,
                ),
            },
    {
        let tab: TabInfo = TabInfo::new(connection_id, title);
        let now: i64 = tab.updated_at;
        let ghost fresh = tab@;
        let result = self.add_tab_at(storage, tab, now);
        proof {
            if tab_of_connection(old(storage)@.tabs, connection_id@, 0) is None {
                let rest = without_tab(old(storage)@.tabs, fresh.id);
                assert(with_tab(old(storage)@.tabs, fresh)[rest.len() as int] == fresh);
            }
        }
        result
    }

    /// Closes the tab under `tab_id`, as of `now`: takes it out of the
    /// store and of memory. Where it was the active one in memory and tabs
    /// are left there, the first of them is made the active one in the
    /// store. Fails where the store or memory does not hold the tab, or
    /// where the store does not hold the tab that is to become active.
    pub fn remove_tab_at(&mut self, storage: &mut ConnectionStorage, tab_id: &str, now: i64) -> (result:
        Result<(), StorageError>)
        requires
            old(self).wf(),
            old(storage).wf(),
        ensures
            final(self).wf(),
            final(storage).wf(),
            (final(storage)@.tabs, final(self)@, result is Ok) == after_removal(
                old(storage)@.tabs,
                old(self)@,
                tab_id@,
                now,
            ),
            result is Err ==> result->Err_0@ == StorageFault::TabNotFound,
            final(storage)@.connections == old(storage)@.connections,
            final(storage)@.master_key == old(storage)@.master_key,
    {
        if let Err(error) = storage.remove_tab(tab_id) {
            return Err(error);
        }
        match self.find(tab_id) {
            None => Err(StorageError::TabNotFound),
            Some(i) => {
                let removed: TabInfo = self.tabs.remove(i);
                proof {
                    crate::services::storage::lemma_without_tab(old(self)@, tab_id@);
                    assert(self@ =~= old(self)@.remove(i as int));
                }
                if removed.active && self.tabs.len() > 0 {
                    let next: String = self.tabs[0].id.clone();
                    proof {
                        assert(self@[0] == self.tabs@[0]@);
                    }
                    storage.set_active_tab_at(next.as_str(), now)
                } else {
                    Ok(())
                }
            },
        }
    }

    /// Closes the tab under `tab_id`, as of now.
    pub fn remove_tab(&mut self, storage: &mut ConnectionStorage, tab_id: &str) -> (result: Result<
        (),
        StorageError,
    >)
        requires
            old(self).wf(),
            old(storage).wf(),
        ensures
            final(self).wf(),
            final(storage).wf(),
            exists|now: i64|
                (final(storage)@.tabs, final(self)@, result is Ok) == #[trigger] after_removal(
                    old(storage)@.tabs,
                    old(self)@,
                    tab_id@,
                    now,
                ),
            result is Err ==> result->Err_0@ == StorageFault::TabNotFound,
            final(storage)@.connections == old(storage)@.connections,
            final(storage)@.master_key == old(storage)@.master_key,
    {
        let now: i64 = now_millis();
        self.remove_tab_at(storage, tab_id, now)
    }

    /// The first tab in memory that is active.
    pub fn get_active_tab(&self) -> (tab: Option<TabInfo>)
        ensures
            optional_tab(tab) == first_active(self@, 0),
    {
        let mut i: usize = 0;
        while i < self.tabs.len()
            invariant
                i <= self.tabs.len(),
                self@.len() == self.tabs.len(),
                first_active(self@, 0) == first_active(self@, i as int),
            decreases self.tabs.len() - i,
        {
            proof {
                assert(self@[i as int] == self.tabs@[i as int]@);
            }
            if self.tabs[i].active {
                return Some(self.tabs[i].clone());
            }
            i += 1;
        }
        None
    }

    /// The first tab in memory that refers to the connection
    /// `connection_id`.
    pub fn get_tab_by_connection_id(&self, connection_id: &str) -> (tab: Option<TabInfo>)
        ensures
            optional_tab(tab) == tab_of_connection(self@, connection_id@, 0),
    {
        let mut i: usize = 0;
        while i < self.tabs.len()
            invariant
                i <= self.tabs.len(),
                self@.len() == self.tabs.len(),
                tab_of_connection(self@, connection_id@, 0) == tab_of_connection(
                    self@,
                    connection_id@,
                    i as int,
                ),
            decreases self.tabs.len() - i,
        {
            proof {
                assert(self@[i as int] == self.tabs@[i as int]@);
            }
            if same_text(self.tabs[i].connection_id.as_str(), connection_id) {
                return Some(self.tabs[i].clone());
            }
            i += 1;
        }
        None
    }

    /// Closes every tab, in the store and in memory.
    pub fn close_all_tabs(&mut self, storage: &mut ConnectionStorage) -> (result: Result<
        (),
        StorageError,
    >)
        requires
            old(self).wf(),
            old(storage).wf(),
        ensures
            final(self).wf(),
            final(storage).wf(),
            result is Ok,
            final(self)@.len() == 0,
            final(storage)@ == (StoreModel { tabs: Seq::empty(), ..old(storage)@ }),
    {
        let _ = storage.clear_all_tabs();
        self.tabs = Vec::new();
        proof {
            assert(self@ =~= Seq::<TabModel>::empty());
        }
        Ok(())
    }

    /// Closes every tab but the one under `keep_tab_id`, which memory
    /// must hold; fails, and changes nothing, where it does not.
    pub fn close_other_tabs(&mut self, storage: &mut ConnectionStorage, keep_tab_id: &str) -> (result:
        Result<(), StorageError>)
        requires
            old(self).wf(),
            old(storage).wf(),
        ensures
            final(self).wf(),
            final(storage).wf(),
            match result {
                Ok(_) => {
                    let kept = old(self)@[tab_position(old(self)@, keep_tab_id@)];
                    &&& has_tab(old(self)@, keep_tab_id@)
                    &&& final(self)@ == seq![kept]
                    &&& final(storage)@ == (StoreModel { tabs: seq![kept], ..old(storage)@ })
                },
                Err(error) => !has_tab(old(self)@, keep_tab_id@) && error@
                    == StorageFault::TabNotFound && final(self)@ == old(self)@ && final(storage)@
                    == old(storage)@,
            },
    {
        match self.find(keep_tab_id) {
            None => Err(StorageError::TabNotFound),
            Some(i) => {
                let kept: TabInfo = self.tabs[i].clone();
                let again: TabInfo = self.tabs[i].clone();
                let _ = storage.clear_all_tabs();
                proof {
                    assert(tab_of_connection(storage@.tabs, kept@.connection_id, 0) is None);
                    assert(!has_tab(storage@.tabs, kept@.id));
                    assert(with_tab(storage@.tabs, kept@) =~= seq![kept@]);
                }
                let _ = storage.add_tab(kept);
                self.tabs = Vec::new();
                self.tabs.push(again);
                proof {
                    assert(self@ =~= seq![old(self)@[i as int]]);
                }
                Ok(())
            },
        }
    }
}

} // verus!
