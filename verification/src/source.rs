//! The monitored sources: how each names its store entry, where it is
//! fetched from, how a fetched page becomes a sample, and what its
//! notifications say.

use crate::detect::{
    binary_report, binary_store, detect_binary, detect_ordered, ordered_report, ordered_store,
    report_is, sample_views, texts, CheckReport, Sample, SampleView,
};
use crate::error::ErrorCode;
use crate::store::{lookup, StateStore};
use vstd::prelude::*;
use vstd::string::*;

verus! {

/// One comment of a user's feed, as far as the check reads it.
pub struct RedditCommentData {
    pub author: String,
    pub body: String,
    /// Creation time, in whole seconds.
    pub created_utc: u64,
}

/// `needle` is a contiguous part of `text`.
pub open spec fn occurs_in(needle: Seq<char>, text: Seq<char>) -> bool {
    exists|i: int|
        0 <= i && i + needle.len() <= text.len() && #[trigger] text.subrange(
            i,
            i + needle.len(),
        ) == needle
}

/// `str::contains` with a string pattern: whether `needle` occurs in `text`
/// as a contiguous run of characters.
#[verifier::external_body]
fn str_contains(text: &str, needle: &str) -> (r: bool)
    ensures
        r == occurs_in(needle@, text@),
{
    text.contains(needle)
}

/// The notifier's executable: the file `trigger` in `directory`.
pub open spec fn trigger_path(directory: Seq<char>) -> Seq<char> {
    directory + "/"@ + "trigger"@
}

/// The address of a product page of the first retailer.
pub open spec fn target_url(id: Seq<char>) -> Seq<char> {
    "https://www.target.com/p/"@ + id
}

/// The store key of a product of the first retailer.
pub open spec fn target_key(id: Seq<char>) -> Seq<char> {
    "target_"@ + id
}

/// What is sent when a product of the first retailer is back in stock.
pub open spec fn target_message(name: Seq<char>) -> Seq<char> {
    name + " back in stock on Target"@
}

/// A product page of the first retailer shows stock unless it carries the
/// sold-out notice.
pub open spec fn target_indicator(response: Seq<char>) -> u64 {
    if occurs_in("Out of stock in stores near you"@, response) {
        0
    } else {
        1
    }
}

/// The address of a product page of the second retailer on `domain`.
pub open spec fn amazon_url(domain: Seq<char>, asin: Seq<char>) -> Seq<char> {
    "https://www.amazon."@ + domain + "/dp/"@ + asin
}

/// The store key of a product of the second retailer.
pub open spec fn amazon_key(asin: Seq<char>) -> Seq<char> {
    "amazon_"@ + asin
}

/// What is sent when a product of the second retailer is back in stock.
pub open spec fn amazon_message(name: Seq<char>, domain: Seq<char>, asin: Seq<char>) -> Seq<char> {
    name + " ("@ + asin + ") back in stock on Amazon."@ + domain
}

/// A product page of the second retailer shows stock exactly where it
/// carries the purchase button.
pub open spec fn amazon_indicator(response: Seq<char>) -> u64 {
    if occurs_in("type=\"submit\" value=\"Add to Cart\""@, response) {
        1
    } else {
        0
    }
}

/// The address of a user's comment feed.
pub open spec fn reddit_url(username: Seq<char>) -> Seq<char> {
    "https://www.reddit.com/user/"@ + username + "/comments.json"@
}

/// The store key of a user's comment feed.
pub open spec fn reddit_key(username: Seq<char>) -> Seq<char> {
    "reddit_"@ + username
}

/// What is sent for a new comment: its author, then its text.
pub open spec fn comment_message(author: Seq<char>, body: Seq<char>) -> Seq<char> {
    author + ": "@ + body
}

/// The sample that a comment stands for.
pub open spec fn comment_view(c: RedditCommentData) -> SampleView {
    SampleView { timestamp: c.created_utc, message: comment_message(c.author@, c.body@) }
}

/// The samples that the comments of one fetch stand for, in the order given.
pub open spec fn comment_views(comments: Seq<RedditCommentData>) -> Seq<SampleView> {
    Seq::new(comments.len(), |i: int| comment_view(comments[i]))
}

/// The path of the notifier's executable, `trigger` in `directory`.
pub fn get_trigger_executable_path(directory: &str) -> (r: String)
    ensures
        r@ == trigger_path(directory@),
{
    let mut path = String::from_str(directory);
    path.append("/");
    path.append("trigger");
    path
}

/// The address to fetch a product page of the first retailer from.
pub fn target_request_url(id: &str) -> (r: String)
    ensures
        r@ == target_url(id@),
{
    let mut url = String::from_str("https://www.target.com/p/");
    url.append(id);
    url
}

/// The store key of a product of the first retailer.
pub fn target_store_key(id: &str) -> (r: String)
    ensures
        r@ == target_key(id@),
{
    let mut key = String::from_str("target_");
    key.append(id);
    key
}

/// The stock indicator that a page of the first retailer shows: 0 or 1.
pub fn target_stock(response: &str) -> (r: u64)
    ensures
        r == target_indicator(response@),
{
    if str_contains(response, "Out of stock in stores near you") {
        0
    } else {
        1
    }
}

/// The address to fetch a product page of the second retailer from.
pub fn amazon_request_url(domain: &str, asin: &str) -> (r: String)
    ensures
        r@ == amazon_url(domain@, asin@),
{
    let mut url = String::from_str("https://www.amazon.");
    url.append(domain);
    url.append("/dp/");
    url.append(asin);
    url
}

/// The store key of a product of the second retailer.
pub fn amazon_store_key(asin: &str) -> (r: String)
    ensures
        r@ == amazon_key(asin@),
{
    let mut key = String::from_str("amazon_");
    key.append(asin);
    key
}

/// The stock indicator that a page of the second retailer shows: 0 or 1.
pub fn amazon_stock(response: &str) -> (r: u64)
    ensures
        r == amazon_indicator(response@),
{
    if str_contains(response, "type=\"submit\" value=\"Add to Cart\"") {
        1
    } else {
        0
    }
}

/// The address to fetch a user's comments from.
pub fn reddit_request_url(username: &str) -> (r: String)
    ensures
        r@ == reddit_url(username@),
{
    let mut url = String::from_str("https://www.reddit.com/user/");
    url.append(username);
    url.append("/comments.json");
    url
}

/// The store key of a user's comment feed.
pub fn reddit_store_key(username: &str) -> (r: String)
    ensures
        r@ == reddit_key(username@),
{
    let mut key = String::from_str("reddit_");
    key.append(username);
    key
}

/// Turns the comments of one fetch into samples, keeping their order.
pub fn comment_samples(comments: &Vec<RedditCommentData>) -> (r: Vec<Sample>)
    ensures
        sample_views(r@) == comment_views(comments@),
{
    let mut samples: Vec<Sample> = Vec::new();
    let mut i: usize = 0;
    while i < comments.len()
        invariant
            i <= comments.len(),
            samples.len() == i,
            forall|j: int| 0 <= j < i ==> (#[trigger] samples[j])@ == comment_view(comments[j]),
        decreases comments.len() - i,
    {
        let comment = &comments[i];
        let mut message = comment.author.clone();
        message.append(": ");
        message.append(comment.body.as_str());
        samples.push(Sample { timestamp: comment.created_utc, message });
        i += 1;
    }
    assert(sample_views(samples@) =~= comment_views(comments@));
    samples
}

/// Checks the first retailer's page for a product against the store: the
/// first observation sets the baseline, a repeated indicator does nothing,
/// a changed one is stored and reported, and a change to in-stock also
/// yields the message for the notifier.
pub fn check_target_stock(
    name: &str,
    id: &str,
    response: &str,
    store: &mut StateStore,
) -> (r: CheckReport)
    ensures
        r@ == binary_report(
            lookup(old(store)@, target_key(id@)),
            target_indicator(response@),
            target_message(name@),
        ),
        final(store)@ == binary_store(old(store)@, target_key(id@), target_indicator(response@)),
{
    let stock = target_stock(response);
    let key = target_store_key(id);
    let transition = detect_binary(store, key.as_str(), stock);
    let mut messages: Vec<String> = Vec::new();
    if transition.notify {
        let mut product = String::from_str(name);
        product.append(" back in stock on Target");
        messages.push(product);
        assert(texts(messages@) =~= seq![target_message(name@)]);
    } else {
        assert(texts(messages@) =~= Seq::<Seq<char>>::empty());
    }
    CheckReport { changed: transition.changed(), messages }
}

/// Checks the second retailer's page for a product against the store, by
/// the same rules as the first retailer's.
pub fn check_amazon_stock(
    name: &str,
    domain: &str,
    asin: &str,
    response: &str,
    store: &mut StateStore,
) -> (r: CheckReport)
    ensures
        r@ == binary_report(
            lookup(old(store)@, amazon_key(asin@)),
            amazon_indicator(response@),
            amazon_message(name@, domain@, asin@),
        ),
        final(store)@ == binary_store(old(store)@, amazon_key(asin@), amazon_indicator(response@)),
{
    let stock = amazon_stock(response);
    let key = amazon_store_key(asin);
    let transition = detect_binary(store, key.as_str(), stock);
    let mut messages: Vec<String> = Vec::new();
    if transition.notify {
        let mut product = String::from_str(name);
        product.append(" (");
        product.append(asin);
        product.append(") back in stock on Amazon.");
        product.append(domain);
        messages.push(product);
        assert(texts(messages@) =~= seq![amazon_message(name@, domain@, asin@)]);
    } else {
        assert(texts(messages@) =~= Seq::<Seq<char>>::empty());
    }
    CheckReport { changed: transition.changed(), messages }
}

/// Checks a user's comments, given newest first, against the store: the
/// first observation takes the newest comment as the baseline and sends
/// nothing; afterwards each comment later than everything seen before it
/// yields its message, the oldest first.
pub fn check_reddit_user_comments(
    username: &str,
    comments: &Vec<RedditCommentData>,
    store: &mut StateStore,
) -> (r: Result<CheckReport, ErrorCode>)
    ensures
        report_is(
            r,
            ordered_report(lookup(old(store)@, reddit_key(username@)), comment_views(comments@)),
        ),
        final(store)@ == ordered_store(
            old(store)@,
            reddit_key(username@),
            comment_views(comments@),
        ),
{
    let key = reddit_store_key(username);
    let samples = comment_samples(comments);
    match detect_ordered(store, key.as_str(), &samples) {
        Ok(messages) => Ok(CheckReport { changed: messages.len() > 0, messages }),
        Err(e) => Err(e),
    }
}

} // verus!
