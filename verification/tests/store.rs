//! Tests of the project item store, run against the real host environment.

use project_items::{ProjectItem, ProjectManagement};
use soroban_sdk::testutils::ContractFunctionSet;
use soroban_sdk::{Address, Env, Val};

/// A contract with no functions of its own; it exists so that the tests
/// have a registered contract instance to run the store under.
struct NullContract;

impl ContractFunctionSet for NullContract {
    fn call(&self, _func: &str, _env: Env, _args: &[Val]) -> Option<Val> {
        None
    }
}

/// A fresh environment, a contract address to run under, and a store bound
/// to the environment. Storage is scoped to the contract being executed, so
/// every store call below runs under `env.as_contract`.
fn setup() -> (Env, Address, ProjectManagement) {
    let env = Env::new_with_config(soroban_sdk::testutils::EnvTestConfig {
        capture_snapshot_at_drop: false,
    });
    let contract_id = env.register(NullContract, ());
    let store = ProjectManagement::new(env.clone());
    (env, contract_id, store)
}

#[test]
fn test_store_and_get_items() {
    let (env, contract_id, mut store) = setup();
    store.init();

    let project_id = 1u32;
    let title = "Test Task";
    let description = "This is a test task";
    let status = "open";

    let item_id = env.as_contract(&contract_id, || {
        store.store_item(
            project_id,
            title.to_string(),
            description.to_string(),
            status.to_string(),
        )
    });
    assert_eq!(item_id, 0u32);

    let items = env.as_contract(&contract_id, || store.get_items(project_id));
    assert_eq!(items.len(), 1);

    let first_item = &items[0];
    assert_eq!(first_item.id, 0u32);
    assert_eq!(first_item.title, title);
    assert_eq!(first_item.description, description);
    assert_eq!(first_item.status, status);
}

#[test]
fn test_delete_item() {
    let (env, contract_id, mut store) = setup();
    store.init();

    let project_id = 1u32;
    let title = "Task to Delete";
    let description = "This will be deleted";
    let status = "open";

    let item_id = env.as_contract(&contract_id, || {
        store.store_item(
            project_id,
            title.to_string(),
            description.to_string(),
            status.to_string(),
        )
    });

    let items = env.as_contract(&contract_id, || store.get_items(project_id));
    assert_eq!(items.len(), 1);

    env.as_contract(&contract_id, || store.delete_item(project_id, item_id));

    let items_after = env.as_contract(&contract_id, || store.get_items(project_id));
    assert_eq!(items_after.len(), 0);
}

#[test]
fn delete_middle_keeps_order_and_counter() {
    let (env, contract_id, mut store) = setup();
    let project_id = 5u32;

    for n in 0..3u32 {
        let id = env.as_contract(&contract_id, || {
            store.store_item(
                project_id,
                format!("task {n}"),
                "body".to_string(),
                "open".to_string(),
            )
        });
        assert_eq!(id, n);
    }

    env.as_contract(&contract_id, || store.delete_item(project_id, 1u32));

    let items = env.as_contract(&contract_id, || store.get_items(project_id));
    let ids: Vec<u32> = items.iter().map(|item| item.id).collect();
    assert_eq!(ids, vec![0u32, 2u32]);

    let fourth = env.as_contract(&contract_id, || {
        store.store_item(
            project_id,
            "task 3".to_string(),
            "body".to_string(),
            "open".to_string(),
        )
    });
    assert_eq!(fourth, 3u32);
}

#[test]
fn get_items_of_untouched_project_is_empty() {
    let (env, contract_id, store) = setup();
    let items = env.as_contract(&contract_id, || store.get_items(999u32));
    assert_eq!(items.len(), 0);
}

#[test]
fn delete_of_never_created_id_is_a_noop() {
    let (env, contract_id, mut store) = setup();
    let project_id = 2u32;

    let kept = env.as_contract(&contract_id, || {
        store.store_item(
            project_id,
            "kept".to_string(),
            "stays".to_string(),
            "open".to_string(),
        )
    });
    assert_eq!(kept, 0u32);

    env.as_contract(&contract_id, || store.delete_item(project_id, 7u32));

    let items = env.as_contract(&contract_id, || store.get_items(project_id));
    assert_eq!(items.len(), 1);
    assert_eq!(items[0].id, 0u32);
    assert_eq!(items[0].title, "kept");
}

#[test]
fn delete_is_idempotent() {
    let (env, contract_id, mut store) = setup();
    let project_id = 4u32;

    for n in 0..2u32 {
        env.as_contract(&contract_id, || {
            store.store_item(
                project_id,
                format!("task {n}"),
                "body".to_string(),
                "open".to_string(),
            )
        });
    }
    env.as_contract(&contract_id, || store.delete_item(project_id, 0u32));
    env.as_contract(&contract_id, || store.delete_item(project_id, 0u32));

    let items = env.as_contract(&contract_id, || store.get_items(project_id));
    assert_eq!(items.len(), 1);
    assert_eq!(items[0].id, 1u32);
}

#[test]
fn ids_keep_increasing_after_deletes() {
    let (env, contract_id, mut store) = setup();
    let project_id = 3u32;

    let mut assigned = Vec::new();
    for n in 0..3u32 {
        let id = env.as_contract(&contract_id, || {
            store.store_item(
                project_id,
                format!("task {n}"),
                "body".to_string(),
                "open".to_string(),
            )
        });
        assigned.push(id);
    }
    assert_eq!(assigned, vec![0u32, 1u32, 2u32]);

    env.as_contract(&contract_id, || store.delete_item(project_id, 0u32));
    env.as_contract(&contract_id, || store.delete_item(project_id, 2u32));

    let next = env.as_contract(&contract_id, || {
        store.store_item(
            project_id,
            "after deletes".to_string(),
            "body".to_string(),
            "open".to_string(),
        )
    });
    assert_eq!(next, 3u32);
}

#[test]
fn projects_do_not_affect_each_other() {
    let (env, contract_id, mut store) = setup();

    for n in 0..2u32 {
        env.as_contract(&contract_id, || {
            store.store_item(
                10u32,
                format!("p10 task {n}"),
                "body".to_string(),
                "open".to_string(),
            )
        });
    }
    let other_first = env.as_contract(&contract_id, || {
        store.store_item(
            11u32,
            "p11 task".to_string(),
            "body".to_string(),
            "open".to_string(),
        )
    });
    assert_eq!(other_first, 0u32);

    env.as_contract(&contract_id, || store.delete_item(10u32, 0u32));

    let other_items = env.as_contract(&contract_id, || store.get_items(11u32));
    assert_eq!(other_items.len(), 1);
    assert_eq!(other_items[0].id, 0u32);
    assert_eq!(other_items[0].title, "p11 task");

    let own_items = env.as_contract(&contract_id, || store.get_items(10u32));
    let ids: Vec<u32> = own_items.iter().map(|item| item.id).collect();
    assert_eq!(ids, vec![1u32]);
}

#[test]
fn try_store_item_assigns_like_store_item() {
    let (env, contract_id, mut store) = setup();
    let project_id = 6u32;

    let first = env.as_contract(&contract_id, || {
        store.try_store_item(
            project_id,
            "first".to_string(),
            "body".to_string(),
            "open".to_string(),
        )
    });
    assert_eq!(first, Some(0u32));

    let second = env.as_contract(&contract_id, || {
        store.try_store_item(
            project_id,
            "second".to_string(),
            "body".to_string(),
            "open".to_string(),
        )
    });
    assert_eq!(second, Some(1u32));

    let items = env.as_contract(&contract_id, || store.get_items(project_id));
    assert_eq!(items.len(), 2);
}

#[test]
fn record_fields_survive_the_round_trip() {
    let (env, contract_id, mut store) = setup();
    let project_id = 8u32;

    env.as_contract(&contract_id, || {
        store.store_item(
            project_id,
            String::new(),
            "tâche à vérifier ✓".to_string(),
            "doing".to_string(),
        )
    });

    let items = env.as_contract(&contract_id, || store.get_items(project_id));
    assert_eq!(items.len(), 1);
    let got: &ProjectItem = &items[0];
    assert_eq!(got.id, 0u32);
    assert_eq!(got.title, "");
    assert_eq!(got.description, "tâche à vérifier ✓");
    assert_eq!(got.status, "doing");
}
