use source_watch::error::ErrorCode;
use source_watch::schedule::{run_tick, Fetched, Observation, Source, WAIT_INTERVAL_SECS};
use source_watch::source::RedditCommentData;
use source_watch::store::StateStore;

fn target() -> Source {
    Source::Target { name: "PS5".to_string(), id: "A-81114595".to_string() }
}

fn amazon() -> Source {
    Source::Amazon {
        name: "PS5".to_string(),
        domain: "com".to_string(),
        asin: "B08FC5L3RG".to_string(),
    }
}

fn reddit() -> Source {
    Source::Reddit { username: "Fast-Wolverine".to_string() }
}

fn body(text: &str) -> Fetched {
    Fetched::Body(text.to_string())
}

fn comments(stamps: &[u64]) -> Fetched {
    Fetched::Comments(
        stamps
            .iter()
            .map(|t| RedditCommentData {
                author: "fw".to_string(),
                body: format!("at {}", t),
                created_utc: *t,
            })
            .collect(),
    )
}

#[test]
fn the_interval_is_five_minutes() {
    assert_eq!(WAIT_INTERVAL_SECS, 300);
}

#[test]
fn sources_name_their_keys_and_urls() {
    assert_eq!(target().key(), "target_A-81114595");
    assert_eq!(target().request_url(), "https://www.target.com/p/A-81114595");
    assert_eq!(amazon().key(), "amazon_B08FC5L3RG");
    assert_eq!(amazon().request_url(), "https://www.amazon.com/dp/B08FC5L3RG");
    assert_eq!(reddit().key(), "reddit_Fast-Wolverine");
    assert_eq!(
        reddit().request_url(),
        "https://www.reddit.com/user/Fast-Wolverine/comments.json"
    );
}

#[test]
fn failed_fetch_is_a_fetch_error_and_writes_nothing() {
    let mut store = StateStore::new();
    store.set("target_A-81114595", 0);
    let r = target().check(&Fetched::Failed, &mut store);
    assert_eq!(r.err(), Some(ErrorCode::FetchError));
    assert_eq!(store.get("target_A-81114595"), Some(0));
}

#[test]
fn fetch_of_the_wrong_shape_is_a_fetch_error() {
    let mut store = StateStore::new();
    assert_eq!(target().check(&comments(&[1]), &mut store).err(), Some(ErrorCode::FetchError));
    assert_eq!(amazon().check(&comments(&[1]), &mut store).err(), Some(ErrorCode::FetchError));
    assert_eq!(reddit().check(&body("text"), &mut store).err(), Some(ErrorCode::FetchError));
    assert_eq!(store.get("target_A-81114595"), None);
    assert_eq!(store.get("amazon_B08FC5L3RG"), None);
    assert_eq!(store.get("reddit_Fast-Wolverine"), None);
}

#[test]
fn check_dispatches_on_the_source_kind() {
    let mut store = StateStore::new();
    store.set("target_A-81114595", 0);
    store.set("amazon_B08FC5L3RG", 0);
    store.set("reddit_Fast-Wolverine", 10);
    let t = target().check(&body("in stock"), &mut store).ok().unwrap();
    assert_eq!(t.messages, vec!["PS5 back in stock on Target".to_string()]);
    let a = amazon()
        .check(&body("type=\"submit\" value=\"Add to Cart\""), &mut store)
        .ok()
        .unwrap();
    assert_eq!(a.messages, vec!["PS5 (B08FC5L3RG) back in stock on Amazon.com".to_string()]);
    let r = reddit().check(&comments(&[12, 11, 10]), &mut store).ok().unwrap();
    assert_eq!(r.messages, vec!["fw: at 11".to_string(), "fw: at 12".to_string()]);
    assert_eq!(store.get("reddit_Fast-Wolverine"), Some(12));
}

#[test]
fn one_failed_source_does_not_stop_the_tick() {
    let mut store = StateStore::new();
    store.set("amazon_B08FC5L3RG", 0);
    store.set("target_A-81114595", 0);
    let tick = vec![
        Observation { source: reddit(), fetched: Fetched::Failed },
        Observation { source: amazon(), fetched: body("type=\"submit\" value=\"Add to Cart\"") },
        Observation { source: target(), fetched: body("Out of stock in stores near you") },
    ];
    let results = run_tick(&tick, &mut store);
    assert_eq!(results.len(), 3);
    assert_eq!(results[0].as_ref().err(), Some(&ErrorCode::FetchError));
    let amazon_report = results[1].as_ref().ok().unwrap();
    assert!(amazon_report.changed);
    assert_eq!(
        amazon_report.messages,
        vec!["PS5 (B08FC5L3RG) back in stock on Amazon.com".to_string()]
    );
    let target_report = results[2].as_ref().ok().unwrap();
    assert!(!target_report.changed);
    assert!(target_report.messages.is_empty());
    assert_eq!(store.get("amazon_B08FC5L3RG"), Some(1));
    assert_eq!(store.get("reddit_Fast-Wolverine"), None);
}

#[test]
fn missing_baseline_does_not_stop_the_tick() {
    let mut store = StateStore::new();
    let tick = vec![
        Observation { source: reddit(), fetched: comments(&[]) },
        Observation { source: target(), fetched: body("fine") },
    ];
    let results = run_tick(&tick, &mut store);
    assert_eq!(results[0].as_ref().err(), Some(&ErrorCode::BaselineMissingError));
    assert!(results[1].is_ok());
    assert_eq!(store.get("target_A-81114595"), Some(1));
}

#[test]
fn later_checks_see_what_earlier_ones_stored() {
    let mut store = StateStore::new();
    let tick = vec![
        Observation { source: target(), fetched: body("Out of stock in stores near you") },
        Observation { source: target(), fetched: body("available") },
    ];
    let results = run_tick(&tick, &mut store);
    assert!(results[0].as_ref().ok().unwrap().messages.is_empty());
    assert_eq!(
        results[1].as_ref().ok().unwrap().messages,
        vec!["PS5 back in stock on Target".to_string()]
    );
    assert_eq!(store.get("target_A-81114595"), Some(1));
}

#[test]
fn empty_tick_does_nothing() {
    let mut store = StateStore::new();
    store.set("k", 1);
    assert!(run_tick(&Vec::new(), &mut store).is_empty());
    assert_eq!(store.get("k"), Some(1));
}

#[test]
fn ticks_carry_state_from_one_to_the_next() {
    let mut store = StateStore::new();
    let first = vec![
        Observation { source: reddit(), fetched: comments(&[20, 10]) },
        Observation { source: amazon(), fetched: body("nothing here") },
    ];
    for r in run_tick(&first, &mut store) {
        assert!(r.ok().unwrap().messages.is_empty());
    }
    let second = vec![
        Observation { source: reddit(), fetched: comments(&[30, 20, 10]) },
        Observation { source: amazon(), fetched: body("type=\"submit\" value=\"Add to Cart\"") },
    ];
    let results = run_tick(&second, &mut store);
    assert_eq!(results[0].as_ref().ok().unwrap().messages, vec!["fw: at 30".to_string()]);
    assert_eq!(
        results[1].as_ref().ok().unwrap().messages,
        vec!["PS5 (B08FC5L3RG) back in stock on Amazon.com".to_string()]
    );
}
