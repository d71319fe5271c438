//! The trusted boundary to the persistent key-value substrate.
//!
//! The store keeps its state in the host environment's persistent storage,
//! reached through `soroban_sdk`. Three key families are used, and they can
//! never collide with one another:
//! - counters under `(Symbol("next_id"), project_id)`, holding a `u32`;
//! - membership lists under `(Symbol("items"), project_id)`, holding a
//!   vector of `u32`;
//! - records under `(project_id, item_id)`, holding the record's fields.
//!
//! Each family's abstract contents are named by an uninterpreted spec
//! function over the environment, and every read and write goes through one
//! of the `external_body` wrappers below, whose contracts state what the
//! underlying storage call does to those contents.

use vstd::prelude::*;

use crate::item::{ItemView, ProjectItem};

verus! {

#[verifier::external_type_specification]
#[verifier::external_body]
pub struct ExEnv(soroban_sdk::Env);

/// The counter family: project identifier to the next unused item
/// identifier, for the projects whose counter key is present.
pub uninterp spec fn counter_table(e: soroban_sdk::Env) -> Map<u32, u32>;

/// The membership family: project identifier to the stored sequence of item
/// identifiers, for the projects whose membership key is present.
pub uninterp spec fn member_table(e: soroban_sdk::Env) -> Map<u32, Seq<u32>>;

/// The record family: (project identifier, item identifier) to the stored
/// record, for the pairs whose record key is present.
pub uninterp spec fn record_table(e: soroban_sdk::Env) -> Map<(u32, u32), ItemView>;

/// Holds when the environment can serve the store: a contract frame is
/// active (storage is scoped to the contract being executed, and the host
/// refuses access outside of one), and the store's keys hold values of the
/// store's own types, with record text stored as UTF-8. Every value the
/// wrappers below write keeps this so.
pub uninterp spec fn store_env_ok(e: soroban_sdk::Env) -> bool;

/// Relies on `soroban_sdk::storage::Persistent::get`: returns the value
/// stored under the key, `None` when the key is absent.
#[verifier::external_body]
pub(crate) fn counter_get(e: &soroban_sdk::Env, project_id: u32) -> (r: Option<u32>)
    requires
        store_env_ok(*e),
    ensures
        counter_table(*e).dom().contains(project_id) ==> r == Some(counter_table(*e)[project_id]),
        !counter_table(*e).dom().contains(project_id) ==> r is None,
{
    let key = (soroban_sdk::Symbol::new(e, "next_id"), project_id);
    e.storage().persistent().get::<_, u32>(&key)
}

/// Relies on `soroban_sdk::storage::Persistent::set`: stores the value under
/// the key, leaving every other key untouched.
#[verifier::external_body]
pub(crate) fn counter_set(e: &mut soroban_sdk::Env, project_id: u32, value: u32)
    requires
        store_env_ok(*old(e)),
    ensures
        store_env_ok(*final(e)),
        counter_table(*final(e)) == counter_table(*old(e)).insert(project_id, value),
        member_table(*final(e)) == member_table(*old(e)),
        record_table(*final(e)) == record_table(*old(e)),
{
    let key = (soroban_sdk::Symbol::new(e, "next_id"), project_id);
    e.storage().persistent().set(&key, &value);
}

/// Relies on `soroban_sdk::storage::Persistent::get`: returns the value
/// stored under the key, `None` when the key is absent. The stored vector is
/// handed out as a plain vector, element for element.
#[verifier::external_body]
pub(crate) fn members_get(e: &soroban_sdk::Env, project_id: u32) -> (r: Option<Vec<u32>>)
    requires
        store_env_ok(*e),
    ensures
        r is Some <==> member_table(*e).dom().contains(project_id),
        r matches Some(ids) ==> ids@ == member_table(*e)[project_id],
{
    let key = (soroban_sdk::Symbol::new(e, "items"), project_id);
    match e.storage().persistent().get::<_, soroban_sdk::Vec<u32>>(&key) {
        Some(v) => Some(v.iter().collect()),
        None => None,
    }
}

/// Relies on `soroban_sdk::storage::Persistent::set`: stores the vector
/// under the key, element for element, leaving every other key untouched.
#[verifier::external_body]
pub(crate) fn members_set(e: &mut soroban_sdk::Env, project_id: u32, ids: &Vec<u32>)
    requires
        store_env_ok(*old(e)),
    ensures
        store_env_ok(*final(e)),
        member_table(*final(e)) == member_table(*old(e)).insert(project_id, ids@),
        counter_table(*final(e)) == counter_table(*old(e)),
        record_table(*final(e)) == record_table(*old(e)),
{
    let key = (soroban_sdk::Symbol::new(e, "items"), project_id);
    let v = soroban_sdk::Vec::from_slice(e, ids.as_slice());
    e.storage().persistent().set(&key, &v);
}

/// Relies on `soroban_sdk::storage::Persistent::has`: reports whether the
/// key is present.
#[verifier::external_body]
pub(crate) fn record_has(e: &soroban_sdk::Env, project_id: u32, item_id: u32) -> (r: bool)
    requires
        store_env_ok(*e),
    ensures
        r == record_table(*e).dom().contains((project_id, item_id)),
{
    e.storage().persistent().has(&(project_id, item_id))
}

/// Relies on `soroban_sdk::storage::Persistent::get`: returns the value
/// stored under the key, `None` when the key is absent. The stored fields
/// come back as a plain record, field for field.
#[verifier::external_body]
pub(crate) fn record_get(e: &soroban_sdk::Env, project_id: u32, item_id: u32) -> (r: Option<ProjectItem>)
    requires
        store_env_ok(*e),
    ensures
        r is Some <==> record_table(*e).dom().contains((project_id, item_id)),
        r matches Some(item) ==> item@ == record_table(*e)[(project_id, item_id)],
{
    let key = (project_id, item_id);
    let stored: Option<(u32, soroban_sdk::String, soroban_sdk::String, soroban_sdk::String)> =
        e.storage().persistent().get(&key);
    match stored {
        Some((id, title, description, status)) => Some(ProjectItem {
            id,
            title: title.to_string(),
            description: description.to_string(),
            status: status.to_string(),
        }),
        None => None,
    }
}

/// Relies on `soroban_sdk::storage::Persistent::set`: stores the record's
/// fields under the key, field for field, leaving every other key untouched.
#[verifier::external_body]
pub(crate) fn record_set(e: &mut soroban_sdk::Env, project_id: u32, item_id: u32, item: &ProjectItem)
    requires
        store_env_ok(*old(e)),
        item.id == item_id,
    ensures
        store_env_ok(*final(e)),
        record_table(*final(e)) == record_table(*old(e)).insert((project_id, item_id), item@),
        counter_table(*final(e)) == counter_table(*old(e)),
        member_table(*final(e)) == member_table(*old(e)),
{
    let key = (project_id, item_id);
    let value = (
        item.id,
        soroban_sdk::String::from_str(e, item.title.as_str()),
        soroban_sdk::String::from_str(e, item.description.as_str()),
        soroban_sdk::String::from_str(e, item.status.as_str()),
    );
    e.storage().persistent().set(&key, &value);
}

/// Relies on `soroban_sdk::storage::Persistent::remove`: deletes the key,
/// leaving every other key untouched. Removing an absent key is a no-op.
#[verifier::external_body]
pub(crate) fn record_remove(e: &mut soroban_sdk::Env, project_id: u32, item_id: u32)
    requires
        store_env_ok(*old(e)),
    ensures
        store_env_ok(*final(e)),
        record_table(*final(e)) == record_table(*old(e)).remove((project_id, item_id)),
        counter_table(*final(e)) == counter_table(*old(e)),
        member_table(*final(e)) == member_table(*old(e)),
{
    e.storage().persistent().remove(&(project_id, item_id));
}

} // verus!
