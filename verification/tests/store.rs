use llm_chat::errors::ChatError;
use llm_chat::message::Role;
use llm_chat::store::ConversationStore;

fn contents(store: &ConversationStore, path: &[usize]) -> Vec<String> {
    store.resolve(path).unwrap().into_iter().map(|m| m.content).collect()
}

#[test]
fn new_store_is_empty() {
    let store = ConversationStore::new();
    assert_eq!(store.len(), 0);
    assert!(store.current_path().is_empty());
    assert!(store.resolve(&[]).unwrap().is_empty());
}

#[test]
fn append_returns_position_in_branch() {
    let mut store = ConversationStore::new();
    assert_eq!(store.append(Role::User, "a"), 0);
    assert_eq!(store.append(Role::Assistant, "b"), 1);
    assert_eq!(store.append(Role::User, "c"), 2);
    assert_eq!(store.len(), 3);
    assert_eq!(store.current_path(), &vec![0, 0, 0]);
    assert_eq!(contents(&store, &[0, 0, 0]), vec!["a", "b", "c"]);
    let resolved = store.resolve(&[0, 0]).unwrap();
    assert_eq!(resolved[0].role, Role::User);
    assert_eq!(resolved[1].role, Role::Assistant);
}

#[test]
fn selector_out_of_range_is_invalid_path() {
    let mut store = ConversationStore::new();
    assert_eq!(store.resolve(&[0]).unwrap_err(), ChatError::InvalidPath);
    store.append(Role::User, "a");
    store.append(Role::Assistant, "b");
    assert_eq!(store.resolve(&[1]).unwrap_err(), ChatError::InvalidPath);
    assert_eq!(store.resolve(&[0, 1]).unwrap_err(), ChatError::InvalidPath);
    assert_eq!(store.resolve(&[0, 0, 0]).unwrap_err(), ChatError::InvalidPath);
    assert_eq!(store.resolve(&[0, 7, 0]).unwrap_err(), ChatError::InvalidPath);
    assert!(store.resolve(&[0, 0]).is_ok());
}

#[test]
fn branches_share_their_prefix() {
    let mut store = ConversationStore::new();
    store.append(Role::User, "question");
    store.append(Role::Assistant, "first answer");
    store.append(Role::User, "follow-up");
    store.select(&[0]).unwrap();
    assert_eq!(store.append(Role::Assistant, "second answer"), 1);
    assert_eq!(store.current_path(), &vec![0, 1]);
    assert_eq!(store.len(), 4);
    assert_eq!(contents(&store, &[0, 0, 0]), vec!["question", "first answer", "follow-up"]);
    assert_eq!(contents(&store, &[0, 1]), vec!["question", "second answer"]);
    assert_eq!(contents(&store, &[0]), vec!["question"]);
}

#[test]
fn select_rejects_invalid_path_and_keeps_the_branch() {
    let mut store = ConversationStore::new();
    store.append(Role::User, "a");
    assert_eq!(store.select(&[0, 0]).unwrap_err(), ChatError::InvalidPath);
    assert_eq!(store.current_path(), &vec![0]);
    assert_eq!(store.len(), 1);
    store.select(&[]).unwrap();
    assert!(store.current_path().is_empty());
    assert_eq!(store.append(Role::User, "another start"), 0);
    assert_eq!(store.current_path(), &vec![1]);
    assert_eq!(contents(&store, &[0]), vec!["a"]);
    assert_eq!(contents(&store, &[1]), vec!["another start"]);
}

#[test]
fn append_never_changes_what_older_paths_resolve_to() {
    let mut store = ConversationStore::new();
    store.append(Role::User, "a");
    store.append(Role::Assistant, "b");
    let before = contents(&store, &[0, 0]);
    store.select(&[0]).unwrap();
    store.append(Role::Assistant, "c");
    store.append(Role::User, "d");
    assert_eq!(contents(&store, &[0, 0]), before);
    assert_eq!(contents(&store, &[0, 1, 0]), vec!["a", "c", "d"]);
}

#[test]
fn continuation_count_is_the_number_of_selectors_that_may_follow() {
    let mut store = ConversationStore::new();
    assert_eq!(store.continuation_count(&[]).unwrap(), 0);
    store.append(Role::User, "q");
    store.append(Role::Assistant, "a1");
    store.select(&[0]).unwrap();
    store.append(Role::Assistant, "a2");
    store.select(&[0]).unwrap();
    store.append(Role::Assistant, "a3");
    assert_eq!(store.continuation_count(&[]).unwrap(), 1);
    assert_eq!(store.continuation_count(&[0]).unwrap(), 3);
    assert_eq!(store.continuation_count(&[0, 2]).unwrap(), 0);
    assert_eq!(store.continuation_count(&[0, 3]).unwrap_err(), ChatError::InvalidPath);
    assert_eq!(store.continuation_count(&[1]).unwrap_err(), ChatError::InvalidPath);
    assert_eq!(store.current_path(), &vec![0, 2]);
}

#[test]
fn append_changes_the_continuations_of_its_own_path_only() {
    let mut store = ConversationStore::new();
    store.append(Role::User, "q");
    store.append(Role::Assistant, "a1");
    store.select(&[0]).unwrap();
    store.append(Role::Assistant, "a2");
    let counts = |store: &ConversationStore| -> Vec<usize> {
        vec![
            store.continuation_count(&[]).unwrap(),
            store.continuation_count(&[0]).unwrap(),
            store.continuation_count(&[0, 0]).unwrap(),
            store.continuation_count(&[0, 1]).unwrap(),
        ]
    };
    assert_eq!(counts(&store), vec![1, 2, 0, 0]);
    store.select(&[0, 0]).unwrap();
    store.append(Role::User, "more");
    assert_eq!(counts(&store), vec![1, 2, 1, 0]);
    assert_eq!(store.continuation_count(&[0, 0, 0]).unwrap(), 0);
    store.select(&[]).unwrap();
    store.append(Role::User, "other start");
    assert_eq!(counts(&store), vec![2, 2, 1, 0]);
    assert_eq!(store.resolve(&[1]).unwrap()[0].content, "other start");
}
