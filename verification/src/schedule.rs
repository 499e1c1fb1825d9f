//! One scheduler tick: every configured source is checked in turn against
//! what was fetched for it, and a failure of one check stays with that
//! check.

use crate::detect::{
    binary_report, binary_store, lemma_repeated_fetch_is_idle, ordered_report, ordered_store,
    report_is, CheckReport, ReportView,
};
use crate::error::ErrorCode;
use crate::source::{
    amazon_indicator, amazon_key, amazon_message, amazon_request_url, amazon_store_key,
    amazon_url, check_amazon_stock, check_reddit_user_comments, check_target_stock,
    comment_views, reddit_key, reddit_request_url, reddit_store_key, reddit_url,
    target_indicator, target_key, target_message, target_request_url, target_store_key,
    target_url, RedditCommentData,
};
use crate::store::{lookup, StateStore};
use vstd::prelude::*;

verus! {

/// Seconds between the end of one tick and the start of the next.
pub const WAIT_INTERVAL_SECS: u64 = 300;

/// A monitored entity.
pub enum Source {
    /// A product page of the first retailer.
    Target { name: String, id: String },
    /// A product page of the second retailer, on one of its domains.
    Amazon { name: String, domain: String, asin: String },
    /// A user's public comment feed.
    Reddit { username: String },
}

/// What a fetch for a source brought back.
pub enum Fetched {
    /// The request failed, or the response could not be read.
    Failed,
    /// The text of a page.
    Body(String),
    /// The comments of a feed, newest first.
    Comments(Vec<RedditCommentData>),
}

/// A source together with what was fetched for it in this tick.
pub struct Observation {
    pub source: Source,
    pub fetched: Fetched,
}

impl Source {
    /// The key of the source's entry in the store.
    pub open spec fn key_chars(&self) -> Seq<char> {
        match *self {
            Source::Target { name, id } => target_key(id@),
            Source::Amazon { name, domain, asin } => amazon_key(asin@),
            Source::Reddit { username } => reddit_key(username@),
        }
    }

    /// The address that the source is fetched from.
    pub open spec fn url_chars(&self) -> Seq<char> {
        match *self {
            Source::Target { name, id } => target_url(id@),
            Source::Amazon { name, domain, asin } => amazon_url(domain@, asin@),
            Source::Reddit { username } => reddit_url(username@),
        }
    }

    /// What a check of the source reports, given the entries `m` and what
    /// was fetched. A failed fetch, or one of the wrong shape for the
    /// source, is a fetch error.
    pub open spec fn outcome(&self, m: Map<Seq<char>, u64>, fetched: Fetched) -> Result<
        ReportView,
        ErrorCode,
    > {
        match (*self, fetched) {
            (Source::Target { name, id }, Fetched::Body(body)) => Ok(
                binary_report(
                    lookup(m, target_key(id@)),
                    target_indicator(body@),
                    target_message(name@),
                ),
            ),
            (Source::Amazon { name, domain, asin }, Fetched::Body(body)) => Ok(
                binary_report(
                    lookup(m, amazon_key(asin@)),
                    amazon_indicator(body@),
                    amazon_message(name@, domain@, asin@),
                ),
            ),
            (Source::Reddit { username }, Fetched::Comments(comments)) => ordered_report(
                lookup(m, reddit_key(username@)),
                comment_views(comments@),
            ),
            _ => Err(ErrorCode::FetchError),
        }
    }

    /// The entries after a check of the source. A fetch error leaves them
    /// as they are.
    pub open spec fn store_after(&self, m: Map<Seq<char>, u64>, fetched: Fetched) -> Map<
        Seq<char>,
        u64,
    > {
        match (*self, fetched) {
            (Source::Target { name, id }, Fetched::Body(body)) => binary_store(
                m,
                target_key(id@),
                target_indicator(body@),
            ),
            (Source::Amazon { name, domain, asin }, Fetched::Body(body)) => binary_store(
                m,
                amazon_key(asin@),
                amazon_indicator(body@),
            ),
            (Source::Reddit { username }, Fetched::Comments(comments)) => ordered_store(
                m,
                reddit_key(username@),
                comment_views(comments@),
            ),
            _ => m,
        }
    }

    /// The key of the source's entry in the store.
    pub fn key(&self) -> (r: String)
        ensures
            r@ == self.key_chars(),
    {
        match self {
            Source::Target { name: _, id } => target_store_key(id.as_str()),
            Source::Amazon { name: _, domain: _, asin } => amazon_store_key(asin.as_str()),
            Source::Reddit { username } => reddit_store_key(username.as_str()),
        }
    }

    /// The address that the source is fetched from.
    pub fn request_url(&self) -> (r: String)
        ensures
            r@ == self.url_chars(),
    {
        match self {
            Source::Target { name: _, id } => target_request_url(id.as_str()),
            Source::Amazon { name: _, domain, asin } => amazon_request_url(
                domain.as_str(),
                asin.as_str(),
            ),
            Source::Reddit { username } => reddit_request_url(username.as_str()),
        }
    }

    /// Checks the source against the store, given what was fetched for it.
    pub fn check(&self, fetched: &Fetched, store: &mut StateStore) -> (r: Result<
        CheckReport,
        ErrorCode,
    >)
        ensures
            report_is(r, self.outcome(old(store)@, *fetched)),
            final(store)@ == self.store_after(old(store)@, *fetched),
    {
        match self {
            Source::Target { name, id } => match fetched {
                Fetched::Body(body) => Ok(
                    check_target_stock(name.as_str(), id.as_str(), body.as_str(), store),
                ),
                _ => Err(ErrorCode::FetchError),
            },
            Source::Amazon { name, domain, asin } => match fetched {
                Fetched::Body(body) => Ok(
                    check_amazon_stock(
                        name.as_str(),
                        domain.as_str(),
                        asin.as_str(),
                        body.as_str(),
                        store,
                    ),
                ),
                _ => Err(ErrorCode::FetchError),
            },
            Source::Reddit { username } => match fetched {
                Fetched::Comments(comments) => check_reddit_user_comments(
                    username.as_str(),
                    comments,
                    store,
                ),
                _ => Err(ErrorCode::FetchError),
            },
        }
    }
}

/// The entries after the observations have been checked in turn, starting
/// from `m`.
pub open spec fn tick_store(m: Map<Seq<char>, u64>, observations: Seq<Observation>) -> Map<
    Seq<char>,
    u64,
>
    decreases observations.len(),
{
    if observations.len() == 0 {
        m
    } else {
        observations.last().source.store_after(
            tick_store(m, observations.drop_last()),
            observations.last().fetched,
        )
    }
}

/// What the check of observation `i` reports within a tick that starts from
/// `m`: it meets the entries as the checks before it left them.
pub open spec fn tick_outcome(m: Map<Seq<char>, u64>, observations: Seq<Observation>, i: int) -> Result<
    ReportView,
    ErrorCode,
> {
    observations[i].source.outcome(
        tick_store(m, observations.take(i)),
        observations[i].fetched,
    )
}

/// Runs one tick: checks every observation in turn and returns one result
/// for each, in order. An error of one check is that check's result and
/// nothing more; the checks after it run as they would have.
pub fn run_tick(observations: &Vec<Observation>, store: &mut StateStore) -> (r: Vec<
    Result<CheckReport, ErrorCode>,
>)
    ensures
        r.len() == observations.len(),
        forall|i: int|
            0 <= i < r.len() ==> report_is(
                #[trigger] r[i],
                tick_outcome(old(store)@, observations@, i),
            ),
        final(store)@ == tick_store(old(store)@, observations@),
{
    let ghost before = store@;
    let mut results: Vec<Result<CheckReport, ErrorCode>> = Vec::new();
    let mut i: usize = 0;
    assert(observations@.take(0) =~= Seq::<Observation>::empty());
    while i < observations.len()
        invariant
            i <= observations.len(),
            results.len() == i,
            store@ == tick_store(before, observations@.take(i as int)),
            forall|j: int|
                0 <= j < i ==> report_is(
                    #[trigger] results[j],
                    tick_outcome(before, observations@, j),
                ),
        decreases observations.len() - i,
    {
        let observation = &observations[i];
        let result = observation.source.check(&observation.fetched, store);
        proof {
            let upto = observations@.take(i + 1);
            assert(upto.last() == observations@[i as int]);
            assert(upto.drop_last() =~= observations@.take(i as int));
        }
        results.push(result);
        i += 1;
    }
    assert(observations@.take(i as int) =~= observations@);
    results
}

/// The first check of a source, whatever its kind and whatever was fetched,
/// yields no message and reports no change.
pub proof fn lemma_first_check_is_silent(source: Source, m: Map<Seq<char>, u64>, fetched: Fetched)
    requires
        !m.contains_key(source.key_chars()),
    ensures
        source.outcome(m, fetched).is_ok() ==> {
            &&& source.outcome(m, fetched).unwrap().messages.len() == 0
            &&& !source.outcome(m, fetched).unwrap().changed
        },
{
}

/// Checking a source again on what was fetched before yields no message,
/// reports no change and leaves the entries as the first check left them.
/// For a feed this holds where the key had an entry before the first check,
/// or where no comment is later than the first one given.
pub proof fn lemma_repeated_check_is_idle(source: Source, m: Map<Seq<char>, u64>, fetched: Fetched)
    requires
        source is Reddit && fetched is Comments ==> m.contains_key(source.key_chars())
            || forall|i: int|
            0 <= i < fetched->Comments_0.len() ==> (#[trigger] fetched->Comments_0[i]).created_utc
                <= fetched->Comments_0[0].created_utc,
    ensures
        source.store_after(source.store_after(m, fetched), fetched) == source.store_after(
            m,
            fetched,
        ),
        source.outcome(source.store_after(m, fetched), fetched).is_ok() ==> {
            &&& source.outcome(source.store_after(m, fetched), fetched).unwrap().messages.len()
                == 0
            &&& !source.outcome(source.store_after(m, fetched), fetched).unwrap().changed
        },
{
    if source is Reddit && fetched is Comments {
        let samples = comment_views(fetched->Comments_0@);
        assert forall|i: int| 0 <= i < samples.len() implies (#[trigger] samples[i]).timestamp
            == fetched->Comments_0[i].created_utc by {}
        lemma_repeated_fetch_is_idle(m, source.key_chars(), samples);
    }
}

/// A failed fetch does not reach past its own check: the entries after the
/// tick, and the result of every other check, are what they would be had
/// the failed source not been part of the tick.
pub proof fn lemma_failed_fetch_is_isolated(
    m: Map<Seq<char>, u64>,
    observations: Seq<Observation>,
    i: int,
)
    requires
        0 <= i < observations.len(),
        observations[i].fetched is Failed,
    ensures
        tick_outcome(m, observations, i) == Err::<ReportView, ErrorCode>(ErrorCode::FetchError),
        tick_store(m, observations) == tick_store(m, observations.remove(i)),
        forall|j: int|
            0 <= j < i ==> tick_outcome(m, observations, j) == tick_outcome(
                m,
                observations.remove(i),
                j,
            ),
        forall|j: int|
            i < j < observations.len() ==> tick_outcome(m, observations, j) == tick_outcome(
                m,
                observations.remove(i),
                j - 1,
            ),
{
    let without = observations.remove(i);
    lemma_failed_fetch_keeps_store(m, observations, i);
    assert forall|j: int| 0 <= j < i implies tick_outcome(m, observations, j) == tick_outcome(
        m,
        without,
        j,
    ) by {
        assert(observations.take(j) =~= without.take(j));
    }
    assert forall|j: int| i < j < observations.len() implies tick_outcome(m, observations, j)
        == tick_outcome(m, without, j - 1) by {
        let upto = observations.take(j);
        lemma_failed_fetch_keeps_store(m, upto, i);
        assert(upto.remove(i) =~= without.take(j - 1));
    }
}

/// The entries after a tick are those of the tick without a source whose
/// fetch failed.
proof fn lemma_failed_fetch_keeps_store(
    m: Map<Seq<char>, u64>,
    observations: Seq<Observation>,
    i: int,
)
    requires
        0 <= i < observations.len(),
        observations[i].fetched is Failed,
    ensures
        tick_store(m, observations) == tick_store(m, observations.remove(i)),
    decreases observations.len(),
{
    let without = observations.remove(i);
    if i == observations.len() - 1 {
        assert(without =~= observations.drop_last());
    } else {
        lemma_failed_fetch_keeps_store(m, observations.drop_last(), i);
        assert(without.drop_last() =~= observations.drop_last().remove(i));
        assert(without.last() == observations.last());
    }
}

} // verus!
