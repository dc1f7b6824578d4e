use shadotask::persist::blank;
use shadotask::{LoadError, Todo, TodoState};

fn s(text: &str) -> String {
    text.to_string()
}

fn load(text: &str) -> Todo {
    match Todo::from_json(text.as_bytes()) {
        Ok(store) => store,
        Err(error) => panic!("the text should load: {:?}", error),
    }
}

fn refused(text: &str) -> LoadError {
    match Todo::from_json(text.as_bytes()) {
        Ok(_) => panic!("the text should be refused"),
        Err(error) => error,
    }
}

#[test]
fn an_empty_store_is_written_as_an_empty_object() {
    assert_eq!(Todo::new().to_json(), "{}");
}

#[test]
fn a_store_is_written_as_a_pretty_object_of_ordinals() {
    let mut store = Todo::new();
    store.insert(&vec![s("write spec"), s("buy milk")]);
    store.complete(&s("buy milk"));
    assert_eq!(
        store.to_json(),
        "{\n  \"buy milk\": 3,\n  \"write spec\": 0\n}"
    );
}

#[test]
fn every_state_is_written_by_its_ordinal() {
    let pairs = vec![(s("a"), 0), (s("b"), 1), (s("c"), 2), (s("d"), 3), (s("e"), 4)];
    let store = Todo::from_decoded(Ok(pairs)).expect("every ordinal stands for a state");
    assert_eq!(
        store.to_json(),
        "{\n  \"a\": 0,\n  \"b\": 1,\n  \"c\": 2,\n  \"d\": 3,\n  \"e\": 4\n}"
    );
}

#[test]
fn titles_are_escaped_when_written() {
    let mut store = Todo::new();
    store.insert_one(s("say \"hi\"\n"));
    assert_eq!(store.to_json(), "{\n  \"say \\\"hi\\\"\\n\": 0\n}");
}

#[test]
fn a_document_loads_as_its_mapping() {
    let store = load("{\n  \"write spec\": 0,\n  \"buy milk\": 3\n}");
    assert_eq!(store.len(), 2);
    assert_eq!(store.get(&s("write spec")), Some(TodoState::Active));
    assert_eq!(store.get(&s("buy milk")), Some(TodoState::Complete));
}

#[test]
fn a_compact_document_loads_too() {
    let store = load("{\"buy milk\":0,\"write spec\":0}");
    assert_eq!(store.len(), 2);
    assert_eq!(store.get(&s("buy milk")), Some(TodoState::Active));
    assert_eq!(store.get(&s("write spec")), Some(TodoState::Active));
}

#[test]
fn every_ordinal_loads_as_its_state() {
    let store = load("{\"a\":0,\"b\":1,\"c\":2,\"d\":3,\"e\":4}");
    assert_eq!(store.get(&s("a")), Some(TodoState::Active));
    assert_eq!(store.get(&s("b")), Some(TodoState::InProgress));
    assert_eq!(store.get(&s("c")), Some(TodoState::Holding));
    assert_eq!(store.get(&s("d")), Some(TodoState::Complete));
    assert_eq!(store.get(&s("e")), Some(TodoState::Unknown));
}

#[test]
fn an_empty_object_loads_as_an_empty_store() {
    assert_eq!(load("{}").len(), 0);
}

#[test]
fn an_empty_text_loads_as_an_empty_store() {
    assert_eq!(load("").len(), 0);
}

#[test]
fn a_blank_text_loads_as_an_empty_store() {
    assert_eq!(load(" ").len(), 0);
    assert_eq!(load("\n").len(), 0);
    assert_eq!(load(" \r\n\t ").len(), 0);
}

#[test]
fn only_white_space_is_blank() {
    assert!(blank(b""));
    assert!(blank(b" \t\r\n"));
    assert!(!blank(b"{}"));
    assert!(!blank(b"  x  "));
    assert!(!blank(b"\0"));
    assert!(!blank(&[0x0b]));
    assert!(!blank(&[0x0c]));
    assert!(!blank(&[0xa0]));
}

#[test]
fn a_text_that_ends_too_early_is_refused() {
    assert!(matches!(refused("{"), LoadError::Malformed(_)));
    assert!(matches!(refused("{\"a\": 0,"), LoadError::Malformed(_)));
    assert!(matches!(refused("{\"a\": 0"), LoadError::Malformed(_)));
    assert!(matches!(refused("{\"a"), LoadError::Malformed(_)));
    assert_eq!(
        refused(" {\"a\":"),
        LoadError::Malformed(s("EOF while parsing a value at line 1 column 6"))
    );
}

#[test]
fn an_unknown_ordinal_before_an_early_end_is_refused_too() {
    assert!(matches!(refused("{\"a\": 7"), LoadError::Malformed(_)));
}

#[test]
fn a_repeated_title_keeps_its_last_ordinal() {
    let store = load("{\"a\": 0, \"a\": 3}");
    assert_eq!(store.len(), 1);
    assert_eq!(store.get(&s("a")), Some(TodoState::Complete));
}

#[test]
fn plain_text_is_refused() {
    match refused("not json") {
        LoadError::Malformed(message) => assert!(!message.is_empty()),
        other => panic!("unexpected error: {:?}", other),
    }
}

#[test]
fn a_document_of_another_shape_is_refused() {
    assert!(matches!(refused("[1, 2]"), LoadError::Malformed(_)));
    assert!(matches!(refused("3"), LoadError::Malformed(_)));
    assert!(matches!(refused("{\"a\": \"Active\"}"), LoadError::Malformed(_)));
    assert!(matches!(refused("{\"a\": -1}"), LoadError::Malformed(_)));
    assert!(matches!(refused("{\"a\": 256}"), LoadError::Malformed(_)));
    assert!(matches!(refused("{\"a\": 0} x"), LoadError::Malformed(_)));
    assert!(matches!(refused("{\"a\": 0,}"), LoadError::Malformed(_)));
}

#[test]
fn the_diagnostic_names_the_parse_failure() {
    assert_eq!(
        refused("{\"a\": 0} x"),
        LoadError::Malformed(s("trailing characters at line 1 column 10"))
    );
}

#[test]
fn an_ordinal_out_of_range_is_refused() {
    assert_eq!(
        refused("{\"a\": 0, \"b\": 5}"),
        LoadError::UnknownOrdinal { title: s("b"), ordinal: 5 }
    );
    assert_eq!(
        refused("{\"z\": 255}"),
        LoadError::UnknownOrdinal { title: s("z"), ordinal: 255 }
    );
}

#[test]
fn saving_and_reloading_restores_the_store() {
    let mut store = Todo::new();
    store.insert(&vec![s("c"), s("a"), s("b \"quoted\""), s("")]);
    store.complete(&s("a"));
    store.insert(&vec![s("d")]);
    store.complete(&s("d"));
    store.insert(&vec![s("d")]);
    let text = store.to_json();
    let again = load(&text);
    assert_eq!(again.len(), store.len());
    let mut before = store.ordinals();
    let mut after = again.ordinals();
    before.sort();
    after.sort();
    assert_eq!(before, after);
    assert_eq!(again.to_json(), text);
}

#[test]
fn decoded_pairs_load_as_their_store() {
    let loaded = Todo::from_decoded(Ok(vec![(s("a"), 0), (s("b"), 3), (s("a"), 2)]));
    let store = loaded.expect("every ordinal stands for a state");
    assert_eq!(store.len(), 2);
    assert_eq!(store.get(&s("a")), Some(TodoState::Holding));
    assert_eq!(store.get(&s("b")), Some(TodoState::Complete));
}

#[test]
fn the_first_unknown_ordinal_is_reported() {
    let loaded = Todo::from_decoded(Ok(vec![(s("a"), 0), (s("b"), 9), (s("c"), 7)]));
    assert_eq!(
        loaded.err(),
        Some(LoadError::UnknownOrdinal { title: s("b"), ordinal: 9 })
    );
}

#[test]
fn a_failure_to_decode_is_reported_with_its_diagnostic() {
    assert_eq!(
        Todo::from_decoded(Err(s("expected value"))).err(),
        Some(LoadError::Malformed(s("expected value")))
    );
    assert_eq!(
        Todo::from_decoded(Err(s(""))).err(),
        Some(LoadError::Malformed(s("")))
    );
}
