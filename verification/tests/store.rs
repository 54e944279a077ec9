use todo_store::store::{TodoError, TodoStore};

fn titles_of(store: &TodoStore) -> Vec<String> {
    store.list().into_iter().map(|t| t.title).collect()
}

#[test]
fn new_store_is_empty() {
    let store = TodoStore::new();
    assert_eq!(store.list().len(), 0);
}

#[test]
fn created_ids_are_pairwise_distinct() {
    let mut store = TodoStore::new();
    let mut ids: Vec<u128> = Vec::new();
    for k in 0..8 {
        let t = store.create(format!("task {}", k), false);
        ids.push(t.id);
    }
    for i in 0..ids.len() {
        for j in 0..ids.len() {
            if i != j {
                assert_ne!(ids[i], ids[j]);
            }
        }
    }
}

#[test]
fn create_then_get_round_trips() {
    let mut store = TodoStore::new();
    let created = store.create("A".to_string(), false);
    let got = store.get(created.id).expect("created record must be found");
    assert_eq!(got.id, created.id);
    assert_eq!(got.title, "A");
    assert_eq!(got.completed, false);
    assert_eq!(created.title, "A");
    assert_eq!(created.completed, false);
}

#[test]
fn get_on_unissued_id_is_not_found() {
    let store = TodoStore::new();
    assert_eq!(store.get(42).unwrap_err(), TodoError::NotFound);
}

#[test]
fn update_on_unissued_id_is_not_found() {
    let mut store = TodoStore::new();
    let issued = store.create("A".to_string(), false);
    let other = issued.id.wrapping_add(1);
    let err = store.update(other, "B".to_string(), true).unwrap_err();
    assert_eq!(err, TodoError::NotFound);
    let kept = store.get(issued.id).expect("existing record must remain");
    assert_eq!(kept.title, "A");
    assert_eq!(kept.completed, false);
}

#[test]
fn delete_on_unissued_id_is_not_found() {
    let mut store = TodoStore::new();
    let issued = store.create("A".to_string(), false);
    let other = issued.id.wrapping_add(1);
    assert_eq!(store.delete(other).unwrap_err(), TodoError::NotFound);
    assert_eq!(store.list().len(), 1);
}

#[test]
fn list_reflects_creates_and_deletes_in_order() {
    let mut store = TodoStore::new();
    let t1 = store.create("t1".to_string(), false);
    let t2 = store.create("t2".to_string(), true);

    let listed = store.list();
    assert_eq!(listed.len(), 2);
    assert_eq!(listed[0].id, t1.id);
    assert_eq!(listed[0].title, "t1");
    assert_eq!(listed[0].completed, false);
    assert_eq!(listed[1].id, t2.id);
    assert_eq!(listed[1].title, "t2");
    assert_eq!(listed[1].completed, true);

    store.delete(t1.id).expect("t1 must be deletable");
    let remaining = titles_of(&store);
    assert_eq!(remaining, vec!["t2".to_string()]);
    assert_eq!(store.list()[0].id, t2.id);
}

#[test]
fn update_overwrites_title_and_flag_and_keeps_id() {
    let mut store = TodoStore::new();
    let x = store.create("A".to_string(), false);
    let updated = store.update(x.id, "B".to_string(), true).expect("record exists");
    assert_eq!(updated.id, x.id);
    assert_eq!(updated.title, "B");
    assert_eq!(updated.completed, true);

    let got = store.get(x.id).expect("record exists after update");
    assert_eq!(got.id, x.id);
    assert_eq!(got.title, "B");
    assert_eq!(got.completed, true);
}

#[test]
fn update_leaves_other_records_alone() {
    let mut store = TodoStore::new();
    let a = store.create("a".to_string(), false);
    let b = store.create("b".to_string(), false);
    store.update(a.id, "a2".to_string(), true).expect("a exists");
    let got_b = store.get(b.id).expect("b exists");
    assert_eq!(got_b.title, "b");
    assert_eq!(got_b.completed, false);
}

#[test]
fn delete_does_not_resurrect_the_id() {
    let mut store = TodoStore::new();
    let t = store.create("gone".to_string(), true);
    store.delete(t.id).expect("record exists");
    assert_eq!(store.get(t.id).unwrap_err(), TodoError::NotFound);
    assert_eq!(store.delete(t.id).unwrap_err(), TodoError::NotFound);
    assert_eq!(
        store.update(t.id, "back".to_string(), false).unwrap_err(),
        TodoError::NotFound
    );
}

#[test]
fn has_id_tracks_creation_and_deletion() {
    let mut store = TodoStore::new();
    let t = store.create("x".to_string(), false);
    assert!(store.has_id(t.id));
    store.delete(t.id).expect("record exists");
    assert!(!store.has_id(t.id));
}
