//! The project item store: verified identifier allocation, membership-list
//! maintenance, and record CRUD over the persistent substrate.

use vstd::prelude::*;

use crate::item::{ItemView, ProjectItem};
use crate::storage::{
    counter_get, counter_set, counter_table, member_table, members_get, members_set, record_get,
    record_has, record_remove, record_set, record_table, store_env_ok,
};

verus! {

/// The abstract state of the store: the three index families.
#[verifier::ext_equal]
pub ghost struct StoreView {
    /// Project identifier to the next unused item identifier, where a
    /// counter key is present.
    pub counters: Map<u32, u32>,
    /// Project identifier to the stored membership list, where a membership
    /// key is present.
    pub members: Map<u32, Seq<u32>>,
    /// (project identifier, item identifier) to the stored record, where a
    /// record key is present.
    pub records: Map<(u32, u32), ItemView>,
}

/// The identifiers of `ids` with `removed` taken out, surviving order kept.
pub open spec fn survivors(ids: Seq<u32>, removed: u32) -> Seq<u32>
    decreases ids.len(),
{
    if ids.len() == 0 {
        Seq::empty()
    } else if ids.last() == removed {
        survivors(ids.drop_last(), removed)
    } else {
        survivors(ids.drop_last(), removed).push(ids.last())
    }
}

/// The identifiers of a sequence of item record values, in order.
pub open spec fn ids_of(items: Seq<ItemView>) -> Seq<u32>
    decreases items.len(),
{
    if items.len() == 0 {
        Seq::empty()
    } else {
        ids_of(items.drop_last()).push(items.last().id)
    }
}

/// The mathematical values of a sequence of item records.
pub open spec fn views_of(items: Seq<ProjectItem>) -> Seq<ItemView>
    decreases items.len(),
{
    if items.len() == 0 {
        Seq::empty()
    } else {
        views_of(items.drop_last()).push(items.last()@)
    }
}

impl StoreView {
    /// The state with no key of any family present: every project is empty.
    pub open spec fn empty() -> StoreView {
        StoreView { counters: Map::empty(), members: Map::empty(), records: Map::empty() }
    }

    /// The next item identifier to assign for a project: the stored counter,
    /// 0 when the counter key is absent.
    pub open spec fn next_id(self, project_id: u32) -> u32 {
        if self.counters.dom().contains(project_id) {
            self.counters[project_id]
        } else {
            0u32
        }
    }

    /// The membership list of a project: the stored sequence, empty when the
    /// membership key is absent.
    pub open spec fn members_of(self, project_id: u32) -> Seq<u32> {
        if self.members.dom().contains(project_id) {
            self.members[project_id]
        } else {
            Seq::empty()
        }
    }

    /// Whether the membership list of a project lists an identifier.
    pub open spec fn member_listed(self, project_id: u32, item_id: u32) -> bool {
        self.members_of(project_id).contains(item_id)
    }

    /// Whether a record exists for (project, item).
    pub open spec fn has_record(self, project_id: u32, item_id: u32) -> bool {
        self.records.dom().contains((project_id, item_id))
    }

    /// The record stored for (project, item).
    pub open spec fn record_of(self, project_id: u32, item_id: u32) -> ItemView {
        self.records[(project_id, item_id)]
    }

    /// The state after storing a new item on a project: the counter advances
    /// by one, the record is stored under the assigned identifier, and the
    /// identifier is appended to the membership list.
    pub open spec fn after_store(
        self,
        project_id: u32,
        title: Seq<char>,
        description: Seq<char>,
        status: Seq<char>,
    ) -> StoreView {
        let id = self.next_id(project_id);
        StoreView {
            counters: self.counters.insert(project_id, (id + 1) as u32),
            members: self.members.insert(project_id, self.members_of(project_id).push(id)),
            records: self.records.insert(
                (project_id, id),
                ItemView { id, title, description, status },
            ),
        }
    }

    /// The state after deleting an item. Without a record the operation is a
    /// no-op. With one, the record is removed and the identifier is taken
    /// out of the membership list, other entries keeping their order; a
    /// record without a membership key is tolerated and only removed.
    pub open spec fn after_delete(self, project_id: u32, item_id: u32) -> StoreView {
        if !self.has_record(project_id, item_id) {
            self
        } else {
            StoreView {
                counters: self.counters,
                members: if self.members.dom().contains(project_id) {
                    self.members.insert(
                        project_id,
                        survivors(self.members[project_id], item_id),
                    )
                } else {
                    self.members
                },
                records: self.records.remove((project_id, item_id)),
            }
        }
    }

    /// The records assembled for a prefix of a membership list: for each
    /// listed identifier, in order, the record stored under it; identifiers
    /// without a record are skipped.
    pub open spec fn assemble(self, project_id: u32, ids: Seq<u32>) -> Seq<ItemView>
        decreases ids.len(),
    {
        if ids.len() == 0 {
            Seq::empty()
        } else {
            let prefix = self.assemble(project_id, ids.drop_last());
            if self.has_record(project_id, ids.last()) {
                prefix.push(self.record_of(project_id, ids.last()))
            } else {
                prefix
            }
        }
    }

    /// What a read of a project returns: the records of its membership list,
    /// in list order, identifiers without a record silently skipped.
    pub open spec fn live_items(self, project_id: u32) -> Seq<ItemView> {
        self.assemble(project_id, self.members_of(project_id))
    }
}

/// The abstract state held by an environment, family by family.
pub open spec fn env_view(e: soroban_sdk::Env) -> StoreView {
    StoreView {
        counters: counter_table(e),
        members: member_table(e),
        records: record_table(e),
    }
}

/// The project item store, bound to the host environment whose persistent
/// storage holds its three index families.
pub struct ProjectManagement {
    env: soroban_sdk::Env,
}

impl View for ProjectManagement {
    type V = StoreView;

    closed spec fn view(&self) -> StoreView {
        env_view(self.env)
    }
}

impl ProjectManagement {
    /// Whether the bound environment can serve the store (a contract frame
    /// is active and the store's keys are well-typed).
    pub closed spec fn env_ok(&self) -> bool {
        store_env_ok(self.env)
    }

    /// Bind a store to a host environment. The store's state is whatever the
    /// environment's persistent storage already holds.
    pub fn new(env: soroban_sdk::Env) -> (s: Self)
        ensures
            s@ == env_view(env),
            s.env_ok() == store_env_ok(env),
    {
        ProjectManagement { env }
    }

    /// Initialize the store. No setup is needed; the call is kept for
    /// callers that expect one and changes nothing.
    pub fn init(&self) {
    }

    /// Store a new item on a project and return the assigned identifier.
    ///
    /// The identifier is the project's counter (0 for a project never seen
    /// before); the counter advances by one, the record is written, and the
    /// identifier is appended to the project's membership list.
    pub fn store_item(
        &mut self,
        project_id: u32,
        title: String,
        description: String,
        status: String,
    ) -> (item_id: u32)
        requires
            old(self).env_ok(),
            old(self)@.next_id(project_id) < u32::MAX,
        ensures
            final(self).env_ok(),
            item_id == old(self)@.next_id(project_id),
            final(self)@ == old(self)@.after_store(project_id, title@, description@, status@),
    {
        let item_id = match counter_get(&self.env, project_id) {
            Some(v) => v,
            None => 0,
        };
        counter_set(&mut self.env, project_id, item_id + 1);

        let item = ProjectItem { id: item_id, title, description, status };
        record_set(&mut self.env, project_id, item_id, &item);

        let mut ids: Vec<u32> = match members_get(&self.env, project_id) {
            Some(v) => v,
            None => Vec::new(),
        };
        ids.push(item_id);
        members_set(&mut self.env, project_id, &ids);

        proof {
            assert(self@ =~= old(self)@.after_store(
                project_id, item@.title, item@.description, item@.status));
        }
        item_id
    }

    /// Store a new item if the project's identifier space is not exhausted.
    ///
    /// Returns the assigned identifier as `store_item` does, or `None` —
    /// with the store left unchanged — when the project's counter has
    /// reached `u32::MAX` and `store_item`'s precondition cannot be met.
    pub fn try_store_item(
        &mut self,
        project_id: u32,
        title: String,
        description: String,
        status: String,
    ) -> (r: Option<u32>)
        requires
            old(self).env_ok(),
        ensures
            final(self).env_ok(),
            r is Some <==> old(self)@.next_id(project_id) < u32::MAX,
            r matches Some(item_id) ==> item_id == old(self)@.next_id(project_id)
                && final(self)@ == old(self)@.after_store(project_id, title@, description@, status@),
            r is None ==> final(self)@ == old(self)@,
    {
        let current = match counter_get(&self.env, project_id) {
            Some(v) => v,
            None => 0,
        };
        if current == u32::MAX {
            return None;
        }
        Some(self.store_item(project_id, title, description, status))
    }

    /// Read a project's items: the record of each identifier on the
    /// membership list, in list order; identifiers whose record is missing
    /// are silently skipped. A project never seen before reads as empty.
    pub fn get_items(&self, project_id: u32) -> (items: Vec<ProjectItem>)
        requires
            self.env_ok(),
        ensures
            views_of(items@) == self@.live_items(project_id),
    {
        let ids: Vec<u32> = match members_get(&self.env, project_id) {
            Some(v) => v,
            None => Vec::new(),
        };
        let ghost all_ids: Seq<u32> = ids@;
        assert(all_ids == self@.members_of(project_id));

        let mut items: Vec<ProjectItem> = Vec::new();
        let mut i: usize = 0;
        while i < ids.len()
            invariant
                self.env_ok(),
                all_ids == self@.members_of(project_id),
                i <= all_ids.len(),
                ids@ == all_ids,
                views_of(items@) == self@.assemble(project_id, all_ids.subrange(0, i as int)),
            decreases all_ids.len() - i,
        {
            let ghost prev_items = items@;
            let id = ids[i];
            match record_get(&self.env, project_id, id) {
                Some(item) => items.push(item),
                None => {},
            }
            proof {
                let prefix = all_ids.subrange(0, i as int);
                let step = all_ids.subrange(0, i as int + 1);
                assert(step.drop_last() =~= prefix);
                assert(step.last() == id);
                if self@.has_record(project_id, id) {
                    assert(items@.drop_last() =~= prev_items);
                }
            }
            i += 1;
        }
        proof {
            assert(all_ids.subrange(0, all_ids.len() as int) =~= all_ids);
        }
        items
    }

    /// Delete an item from a project. Without a record for the identifier
    /// the call is a no-op (deleting is idempotent, and an identifier never
    /// created is no error). With one, the record is removed and the
    /// identifier is taken out of the membership list, the other entries
    /// keeping their order.
    pub fn delete_item(&mut self, project_id: u32, item_id: u32)
        requires
            old(self).env_ok(),
        ensures
            final(self).env_ok(),
            final(self)@ == old(self)@.after_delete(project_id, item_id),
    {
        if !record_has(&self.env, project_id, item_id) {
            return;
        }
        record_remove(&mut self.env, project_id, item_id);

        match members_get(&self.env, project_id) {
            Some(ids) => {
                let ghost all_ids: Seq<u32> = ids@;
                let mut kept: Vec<u32> = Vec::new();
                let mut i: usize = 0;
                while i < ids.len()
                    invariant
                        self.env_ok(),
                        self@.counters == old(self)@.counters,
                        self@.members == old(self)@.members,
                        self@.records == old(self)@.records.remove((project_id, item_id)),
                        old(self)@.has_record(project_id, item_id),
                        old(self)@.members.dom().contains(project_id),
                        all_ids == old(self)@.members[project_id],
                        i <= all_ids.len(),
                        ids@ == all_ids,
                        kept@ == survivors(all_ids.subrange(0, i as int), item_id),
                    decreases all_ids.len() - i,
                {
                    let id = ids[i];
                    if id != item_id {
                        kept.push(id);
                    }
                    proof {
                        let prefix = all_ids.subrange(0, i as int);
                        let step = all_ids.subrange(0, i as int + 1);
                        assert(step.drop_last() =~= prefix);
                        assert(step.last() == id);
                    }
                    i += 1;
                }
                proof {
                    assert(all_ids.subrange(0, all_ids.len() as int) =~= all_ids);
                }
                members_set(&mut self.env, project_id, &kept);
                proof {
                    assert(self@ =~= old(self)@.after_delete(project_id, item_id));
                }
            },
            None => {
                proof {
                    assert(self@ =~= old(self)@.after_delete(project_id, item_id));
                }
            },
        }
    }
}

} // verus!
