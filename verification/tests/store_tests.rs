use source_watch::store::StateStore;

#[test]
fn new_store_has_no_entries() {
    let store = StateStore::new();
    assert_eq!(store.get("target_A-1"), None);
    assert_eq!(store.get(""), None);
}

#[test]
fn get_returns_what_set_stored() {
    let mut store = StateStore::new();
    store.set("reddit_someone", 1_600_000_000);
    assert_eq!(store.get("reddit_someone"), Some(1_600_000_000));
}

#[test]
fn set_overwrites_and_leaves_other_keys_alone() {
    let mut store = StateStore::new();
    store.set("a", 1);
    store.set("b", 2);
    store.set("a", 3);
    assert_eq!(store.get("a"), Some(3));
    assert_eq!(store.get("b"), Some(2));
    assert_eq!(store.get("c"), None);
}

#[test]
fn two_sets_on_one_key_keep_the_last_in_either_order() {
    let mut first = StateStore::new();
    first.set("k", 10);
    first.set("k", 20);
    assert_eq!(first.get("k"), Some(20));

    let mut second = StateStore::new();
    second.set("k", 20);
    second.set("k", 10);
    assert_eq!(second.get("k"), Some(10));
}

#[test]
fn keys_are_compared_by_content() {
    let mut store = StateStore::new();
    let key = format!("{}_{}", "amazon", "B08FC5L3RG");
    store.set(&key, 1);
    assert_eq!(store.get("amazon_B08FC5L3RG"), Some(1));
    assert_eq!(store.get("amazon_B08FC5L3R"), None);
}
