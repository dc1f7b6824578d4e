use shadotask::{Todo, TodoState};

fn s(text: &str) -> String {
    text.to_string()
}

fn holding(pairs: &[(&str, u8)]) -> Todo {
    let pairs = pairs.iter().map(|pair| (pair.0.to_string(), pair.1)).collect();
    Todo::from_decoded(Ok(pairs)).expect("every ordinal stands for a state")
}

fn sorted(mut titles: Vec<String>) -> Vec<String> {
    titles.sort();
    titles
}

#[test]
fn a_new_store_is_empty() {
    let store = Todo::new();
    assert_eq!(store.len(), 0);
    assert_eq!(store.get(&s("x")), None);
    assert!(store.list(TodoState::Active).is_empty());
    assert!(store.ordinals().is_empty());
}

#[test]
fn insert_adds_active_tasks() {
    let mut store = Todo::new();
    store.insert(&vec![s("buy milk"), s("write spec")]);
    assert_eq!(store.len(), 2);
    assert_eq!(store.get(&s("buy milk")), Some(TodoState::Active));
    assert_eq!(store.get(&s("write spec")), Some(TodoState::Active));
    assert_eq!(
        sorted(store.list(TodoState::Active)),
        vec![s("buy milk"), s("write spec")]
    );
}

#[test]
fn insert_of_nothing_changes_nothing() {
    let mut store = Todo::new();
    store.insert_one(s("a"));
    store.insert(&Vec::new());
    assert_eq!(store.len(), 1);
    assert_eq!(store.get(&s("a")), Some(TodoState::Active));
}

#[test]
fn duplicate_titles_in_one_call_collapse() {
    let mut store = Todo::new();
    store.insert(&vec![s("a"), s("b"), s("a"), s("a")]);
    assert_eq!(store.len(), 2);
    assert_eq!(sorted(store.list(TodoState::Active)), vec![s("a"), s("b")]);
}

#[test]
fn adding_twice_leaves_one_active_task() {
    let mut store = Todo::new();
    store.insert(&vec![s("x")]);
    store.insert(&vec![s("x")]);
    assert_eq!(store.len(), 1);
    assert_eq!(store.get(&s("x")), Some(TodoState::Active));
    assert_eq!(store.list(TodoState::Active), vec![s("x")]);
}

#[test]
fn adding_again_resets_a_completed_task() {
    let mut store = Todo::new();
    store.insert_one(s("x"));
    assert_eq!(store.complete(&s("x")), Some(()));
    assert_eq!(store.get(&s("x")), Some(TodoState::Complete));
    store.insert_one(s("x"));
    assert_eq!(store.len(), 1);
    assert_eq!(store.get(&s("x")), Some(TodoState::Active));
    assert!(store.list(TodoState::Complete).is_empty());
}

#[test]
fn titles_are_case_and_space_sensitive() {
    let mut store = Todo::new();
    store.insert(&vec![s("Task"), s("task"), s("task "), s(" task")]);
    assert_eq!(store.len(), 4);
    assert_eq!(store.complete(&s("task")), Some(()));
    assert_eq!(store.get(&s("Task")), Some(TodoState::Active));
    assert_eq!(store.get(&s("task")), Some(TodoState::Complete));
    assert_eq!(store.get(&s("task ")), Some(TodoState::Active));
    assert_eq!(store.get(&s("TASK")), None);
}

#[test]
fn complete_on_an_empty_store_finds_nothing() {
    let mut store = Todo::new();
    assert_eq!(store.complete(&s("x")), None);
    assert_eq!(store.len(), 0);
    assert_eq!(store.get(&s("x")), None);
}

#[test]
fn complete_of_an_absent_title_changes_nothing() {
    let mut store = Todo::new();
    store.insert(&vec![s("a"), s("b")]);
    assert_eq!(store.complete(&s("c")), None);
    assert_eq!(store.len(), 2);
    assert_eq!(store.get(&s("a")), Some(TodoState::Active));
    assert_eq!(store.get(&s("b")), Some(TodoState::Active));
    assert_eq!(store.get(&s("c")), None);
}

#[test]
fn complete_after_insert_is_listed_as_complete() {
    let mut store = Todo::new();
    store.insert(&vec![s("x")]);
    assert_eq!(store.complete(&s("x")), Some(()));
    assert_eq!(store.list(TodoState::Complete), vec![s("x")]);
    assert!(store.list(TodoState::Active).is_empty());
}

#[test]
fn complete_twice_stays_complete() {
    let mut store = Todo::new();
    store.insert_one(s("x"));
    assert_eq!(store.complete(&s("x")), Some(()));
    assert_eq!(store.complete(&s("x")), Some(()));
    assert_eq!(store.len(), 1);
    assert_eq!(store.get(&s("x")), Some(TodoState::Complete));
}

#[test]
fn list_selects_by_state() {
    let store = holding(&[("a", 0), ("b", 1), ("c", 2), ("d", 3), ("e", 3), ("f", 4)]);
    assert_eq!(store.list(TodoState::Active), vec![s("a")]);
    assert_eq!(store.list(TodoState::InProgress), vec![s("b")]);
    assert_eq!(store.list(TodoState::Holding), vec![s("c")]);
    assert_eq!(sorted(store.list(TodoState::Complete)), vec![s("d"), s("e")]);
}

#[test]
fn list_unknown_selects_nothing() {
    assert!(Todo::new().list(TodoState::Unknown).is_empty());
    let store = holding(&[("a", 0), ("f", 4)]);
    assert_eq!(store.get(&s("f")), Some(TodoState::Unknown));
    assert!(store.list(TodoState::Unknown).is_empty());
}

#[test]
fn list_does_not_change_the_store() {
    let mut store = Todo::new();
    store.insert(&vec![s("a"), s("b")]);
    store.complete(&s("a"));
    let before = store.ordinals();
    store.list(TodoState::Active);
    store.list(TodoState::Complete);
    assert_eq!(store.ordinals(), before);
}

#[test]
fn ordinals_pair_each_title_with_its_ordinal() {
    let mut store = Todo::new();
    store.insert(&vec![s("write spec"), s("buy milk")]);
    store.complete(&s("buy milk"));
    let mut pairs = store.ordinals();
    pairs.sort();
    assert_eq!(pairs, vec![(s("buy milk"), 3), (s("write spec"), 0)]);
}

#[test]
fn the_empty_title_is_a_title() {
    let mut store = Todo::new();
    store.insert_one(s(""));
    assert_eq!(store.len(), 1);
    assert_eq!(store.complete(&s("")), Some(()));
    assert_eq!(store.list(TodoState::Complete), vec![s("")]);
}
