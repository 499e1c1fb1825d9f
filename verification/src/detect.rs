//! The change detector: decides, from the stored value and a fresh sample,
//! what is stored next and which notifications are due.

use crate::error::ErrorCode;
use crate::store::{lookup, StateStore};
use vstd::prelude::*;
use vstd::string::*;

verus! {

/// The decision taken on one sample of a binary-indicator source.
pub struct Transition {
    pub key: String,
    /// The value stored before the sample was examined.
    pub previous: Option<u64>,
    /// The sampled value.
    pub current: u64,
    /// Whether the external action is due.
    pub notify: bool,
}

impl Transition {
    /// The sample differs from a value that was stored before it.
    pub open spec fn is_change(&self) -> bool {
        differs(self.previous, self.current)
    }

    /// Whether the stored value changed, which is worth reporting even
    /// where no action is due.
    pub fn changed(&self) -> (r: bool)
        ensures
            r == self.is_change(),
    {
        match self.previous {
            Some(p) => p != self.current,
            None => false,
        }
    }
}

/// One fetched value of an ordered-event source, with the text to send
/// should it turn out to be new.
pub struct Sample {
    pub timestamp: u64,
    pub message: String,
}

/// A sample as contracts see it: its timestamp and the characters of its
/// message.
pub struct SampleView {
    pub timestamp: u64,
    pub message: Seq<char>,
}

impl View for Sample {
    type V = SampleView;

    open spec fn view(&self) -> SampleView {
        SampleView { timestamp: self.timestamp, message: self.message@ }
    }
}

/// The view of each sample, in order.
pub open spec fn sample_views(v: Seq<Sample>) -> Seq<SampleView> {
    Seq::new(v.len(), |i: int| v[i]@)
}

/// What a source check reports: whether the stored value changed, and the
/// messages to hand to the notifier, in order.
pub struct CheckReport {
    pub changed: bool,
    pub messages: Vec<String>,
}

/// A report as contracts see it.
pub struct ReportView {
    pub changed: bool,
    pub messages: Seq<Seq<char>>,
}

impl View for CheckReport {
    type V = ReportView;

    open spec fn view(&self) -> ReportView {
        ReportView { changed: self.changed, messages: texts(self.messages@) }
    }
}

/// A stored value exists and `value` is not equal to it.
pub open spec fn differs(previous: Option<u64>, value: u64) -> bool {
    match previous {
        Some(p) => p != value,
        None => false,
    }
}

/// A binary source notifies on a change to 1 and on nothing else.
pub open spec fn binary_notifies(previous: Option<u64>, value: u64) -> bool {
    differs(previous, value) && value == 1
}

/// The entries after a binary sample: untouched where the sample repeats
/// the stored value, else `value` under `key`.
pub open spec fn binary_store(m: Map<Seq<char>, u64>, key: Seq<char>, value: u64) -> Map<
    Seq<char>,
    u64,
> {
    if lookup(m, key) == Some(value) {
        m
    } else {
        m.insert(key, value)
    }
}

/// The last-seen timestamp after the samples, given newest first, have been
/// examined from the oldest to the newest, starting from `seen`.
pub open spec fn last_seen(seen: u64, samples: Seq<SampleView>) -> u64
    decreases samples.len(),
{
    if samples.len() == 0 {
        seen
    } else if samples.last().timestamp > seen {
        last_seen(samples.last().timestamp, samples.drop_last())
    } else {
        last_seen(seen, samples.drop_last())
    }
}

/// The messages due for the samples, given newest first: one for each sample
/// that, examined from the oldest to the newest, is later than everything
/// seen before it; in the order in which they are examined.
pub open spec fn fresh_messages(seen: u64, samples: Seq<SampleView>) -> Seq<Seq<char>>
    decreases samples.len(),
{
    if samples.len() == 0 {
        Seq::empty()
    } else if samples.last().timestamp > seen {
        seq![samples.last().message] + fresh_messages(
            samples.last().timestamp,
            samples.drop_last(),
        )
    } else {
        fresh_messages(seen, samples.drop_last())
    }
}

/// The characters of each string, in order.
pub open spec fn texts(v: Seq<String>) -> Seq<Seq<char>> {
    Seq::new(v.len(), |i: int| v[i]@)
}

/// What a check of an ordered source yields: nothing on the first
/// observation (an error where there is no sample to take a baseline from),
/// afterwards the messages of the new samples.
pub open spec fn ordered_outcome(previous: Option<u64>, samples: Seq<SampleView>) -> Result<
    Seq<Seq<char>>,
    ErrorCode,
> {
    match previous {
        None => if samples.len() == 0 {
            Err(ErrorCode::BaselineMissingError)
        } else {
            Ok(Seq::empty())
        },
        Some(seen) => Ok(fresh_messages(seen, samples)),
    }
}

/// The entries after a check of an ordered source: on the first observation
/// the newest sample's timestamp becomes the baseline; afterwards the entry
/// advances to the last-seen timestamp, and nothing is written where no
/// sample is new.
pub open spec fn ordered_store(m: Map<Seq<char>, u64>, key: Seq<char>, samples: Seq<SampleView>) -> Map<
    Seq<char>,
    u64,
> {
    match lookup(m, key) {
        None => if samples.len() == 0 {
            m
        } else {
            m.insert(key, samples[0].timestamp)
        },
        Some(seen) => if last_seen(seen, samples) == seen {
            m
        } else {
            m.insert(key, last_seen(seen, samples))
        },
    }
}

/// The report of a binary check whose message, should one be due, is
/// `message`.
pub open spec fn binary_report(previous: Option<u64>, value: u64, message: Seq<char>) -> ReportView {
    ReportView {
        changed: differs(previous, value),
        messages: if binary_notifies(previous, value) {
            seq![message]
        } else {
            Seq::empty()
        },
    }
}

/// The report of an ordered check: a change is reported exactly where a
/// message is due.
pub open spec fn ordered_report(previous: Option<u64>, samples: Seq<SampleView>) -> Result<
    ReportView,
    ErrorCode,
> {
    match ordered_outcome(previous, samples) {
        Ok(messages) => Ok(ReportView { changed: messages.len() > 0, messages }),
        Err(e) => Err(e),
    }
}

/// The result `r` of a check is the one that `expected` describes.
pub open spec fn report_is(r: Result<CheckReport, ErrorCode>, expected: Result<
    ReportView,
    ErrorCode,
>) -> bool {
    match expected {
        Ok(report) => r.is_ok() && r.unwrap()@ == report,
        Err(e) => r == Err::<CheckReport, ErrorCode>(e),
    }
}

/// Examines one sample of a binary-indicator source against the store.
pub fn detect_binary(store: &mut StateStore, key: &str, value: u64) -> (t: Transition)
    ensures
        t.key@ == key@,
        t.previous == lookup(old(store)@, key@),
        t.current == value,
        t.notify == binary_notifies(t.previous, value),
        final(store)@ == binary_store(old(store)@, key@, value),
{
    let previous = store.get(key);
    let mut notify = false;
    match previous {
        None => {
            store.set(key, value);
        },
        Some(stored) => {
            if stored != value {
                store.set(key, value);
                notify = value == 1;
            }
        },
    }
    Transition { key: String::from_str(key), previous, current: value, notify }
}

/// Examines the samples of one fetch of an ordered-event source, given
/// newest first, against the store, and returns the messages to send, in
/// the order in which the events occurred.
pub fn detect_ordered(store: &mut StateStore, key: &str, samples: &Vec<Sample>) -> (r: Result<
    Vec<String>,
    ErrorCode,
>)
    ensures
        match ordered_outcome(lookup(old(store)@, key@), sample_views(samples@)) {
            Ok(messages) => r.is_ok() && texts(r.unwrap()@) == messages,
            Err(e) => r == Err::<Vec<String>, ErrorCode>(e),
        },
        final(store)@ == ordered_store(old(store)@, key@, sample_views(samples@)),
{
    let ghost before = store@;
    let ghost views = sample_views(samples@);
    let n = samples.len();
    let mut out: Vec<String> = Vec::new();
    match store.get(key) {
        None => {
            if n == 0 {
                return Err(ErrorCode::BaselineMissingError);
            }
            store.set(key, samples[0].timestamp);
            assert(texts(out@) =~= Seq::<Seq<char>>::empty());
        },
        Some(baseline) => {
            let mut seen: u64 = baseline;
            let mut i: usize = n;
            assert(views.take(n as int) =~= views);
            assert(texts(out@) + fresh_messages(seen, views) =~= fresh_messages(seen, views));
            while i > 0
                invariant
                    i <= n,
                    n == samples.len(),
                    views == sample_views(samples@),
                    seen >= baseline,
                    lookup(before, key@) == Some(baseline),
                    last_seen(baseline, views) == last_seen(seen, views.take(i as int)),
                    fresh_messages(baseline, views) == texts(out@) + fresh_messages(
                        seen,
                        views.take(i as int),
                    ),
                    store@ == (if seen == baseline {
                        before
                    } else {
                        before.insert(key@, seen)
                    }),
                decreases i,
            {
                i -= 1;
                let sample = &samples[i];
                proof {
                    let upto = views.take(i + 1);
                    assert(upto.last() == samples@[i as int]@);
                    assert(upto.drop_last() =~= views.take(i as int));
                }
                if sample.timestamp > seen {
                    let ghost sent = texts(out@);
                    seen = sample.timestamp;
                    store.set(key, seen);
                    out.push(sample.message.clone());
                    proof {
                        assert(texts(out@) =~= sent.push(sample.message@));
                        let rest = fresh_messages(seen, views.take(i as int));
                        assert(sent.push(sample.message@) + rest =~= sent + (seq![
                            sample.message@,
                        ] + rest));
                        assert(store@ =~= before.insert(key@, seen));
                    }
                }
            }
            assert(texts(out@) + Seq::<Seq<char>>::empty() =~= texts(out@));
        },
    }
    Ok(out)
}

/// The first observation of a key never notifies, whatever the source kind
/// and whatever was sampled.
pub proof fn lemma_first_observation_is_silent(
    m: Map<Seq<char>, u64>,
    key: Seq<char>,
    value: u64,
    samples: Seq<SampleView>,
)
    requires
        !m.contains_key(key),
    ensures
        !binary_notifies(lookup(m, key), value),
        ordered_outcome(lookup(m, key), samples).is_ok() ==> ordered_outcome(
            lookup(m, key),
            samples,
        ).unwrap().len() == 0,
{
}

/// A binary sample equal to the stored value never notifies and leaves the
/// entries as they are; and once a sample has been examined, examining the
/// same value again does neither.
pub proof fn lemma_repeated_indicator_is_idle(m: Map<Seq<char>, u64>, key: Seq<char>, value: u64)
    ensures
        lookup(m, key) == Some(value) ==> !binary_notifies(lookup(m, key), value) && binary_store(
            m,
            key,
            value,
        ) == m,
        !binary_notifies(lookup(binary_store(m, key, value), key), value),
        binary_store(binary_store(m, key, value), key, value) == binary_store(m, key, value),
{
}

/// A binary source notifies exactly on a change to 1: never on a change
/// to another value, and on every change to 1 however often it recurs.
pub proof fn lemma_only_rising_edge_notifies(previous: Option<u64>, value: u64)
    ensures
        binary_notifies(previous, value) <==> (previous.is_some() && previous.unwrap() != value
            && value == 1),
{
}

/// The last-seen timestamp never moves back, after a check no sample of
/// the fetch is later than it, and it is the value it started from or the
/// timestamp of one of the samples.
pub proof fn lemma_last_seen_bounds(seen: u64, samples: Seq<SampleView>)
    ensures
        last_seen(seen, samples) >= seen,
        forall|i: int|
            0 <= i < samples.len() ==> (#[trigger] samples[i]).timestamp <= last_seen(
                seen,
                samples,
            ),
        last_seen(seen, samples) == seen || exists|i: int|
            0 <= i < samples.len() && (#[trigger] samples[i]).timestamp == last_seen(
                seen,
                samples,
            ),
    decreases samples.len(),
{
    if samples.len() > 0 {
        let rest = samples.drop_last();
        let next = if samples.last().timestamp > seen {
            samples.last().timestamp
        } else {
            seen
        };
        lemma_last_seen_bounds(next, rest);
        assert forall|i: int| 0 <= i < samples.len() implies (#[trigger] samples[i]).timestamp
            <= last_seen(seen, samples) by {
            if i < samples.len() - 1 {
                assert(rest[i] == samples[i]);
            }
        }
        if last_seen(seen, samples) != seen {
            if last_seen(next, rest) == next {
                assert(samples[samples.len() - 1].timestamp == last_seen(seen, samples));
            } else {
                let i = choose|i: int|
                    0 <= i < rest.len() && (#[trigger] rest[i]).timestamp == last_seen(next, rest);
                assert(samples[i].timestamp == last_seen(seen, samples));
            }
        }
    }
}

/// A check of an ordered source never moves the stored value back.
pub proof fn lemma_stored_value_never_moves_back(
    m: Map<Seq<char>, u64>,
    key: Seq<char>,
    samples: Seq<SampleView>,
)
    requires
        m.contains_key(key),
    ensures
        ordered_store(m, key, samples).contains_key(key),
        ordered_store(m, key, samples)[key] >= m[key],
        forall|other: Seq<char>|
            other != key ==> lookup(ordered_store(m, key, samples), other) == lookup(m, other),
{
    lemma_last_seen_bounds(m[key], samples);
}

/// Samples that are not later than the stored value are skipped: they
/// produce no message and leave the stored value where it is.
pub proof fn lemma_stale_samples_are_skipped(seen: u64, samples: Seq<SampleView>)
    requires
        forall|i: int| 0 <= i < samples.len() ==> (#[trigger] samples[i]).timestamp <= seen,
    ensures
        fresh_messages(seen, samples).len() == 0,
        last_seen(seen, samples) == seen,
    decreases samples.len(),
{
    if samples.len() > 0 {
        let rest = samples.drop_last();
        assert forall|i: int| 0 <= i < rest.len() implies (#[trigger] rest[i]).timestamp
            <= seen by {
            assert(rest[i] == samples[i]);
        }
        lemma_stale_samples_are_skipped(seen, rest);
    }
}

/// Once a fetch has been checked, a second check on the same fetch sends
/// nothing and writes nothing, provided that the key had an entry before
/// the first check or that no sample is later than the first one given.
pub proof fn lemma_repeated_fetch_is_idle(
    m: Map<Seq<char>, u64>,
    key: Seq<char>,
    samples: Seq<SampleView>,
)
    requires
        m.contains_key(key) || forall|i: int|
            0 <= i < samples.len() ==> (#[trigger] samples[i]).timestamp <= samples[0].timestamp,
    ensures
        ordered_outcome(lookup(ordered_store(m, key, samples), key), samples).is_ok()
            ==> ordered_outcome(
            lookup(ordered_store(m, key, samples), key),
            samples,
        ).unwrap().len() == 0,
        ordered_store(ordered_store(m, key, samples), key, samples) == ordered_store(
            m,
            key,
            samples,
        ),
{
    let after = ordered_store(m, key, samples);
    if samples.len() > 0 || m.contains_key(key) {
        let stored = match lookup(m, key) {
            None => samples[0].timestamp,
            Some(seen) => last_seen(seen, samples),
        };
        assert(lookup(after, key) == Some(stored));
        if let Some(seen) = lookup(m, key) {
            lemma_last_seen_bounds(seen, samples);
        }
        lemma_stale_samples_are_skipped(stored, samples);
    }
}

/// A sample is new where it is later than the stored value and than every
/// sample examined before it, that is, every sample given after it.
pub open spec fn is_new(seen: u64, samples: Seq<SampleView>, i: int) -> bool {
    &&& samples[i].timestamp > seen
    &&& forall|j: int| i < j < samples.len() ==> (#[trigger] samples[j]).timestamp < samples[i].timestamp
}

/// A sample that is not new when it is examined counts for nothing: the
/// messages and the last-seen timestamp are those of the fetch without it.
pub proof fn lemma_skipped_sample_changes_nothing(seen: u64, samples: Seq<SampleView>, i: int)
    requires
        0 <= i < samples.len(),
        !is_new(seen, samples, i),
    ensures
        fresh_messages(seen, samples) == fresh_messages(seen, samples.remove(i)),
        last_seen(seen, samples) == last_seen(seen, samples.remove(i)),
    decreases samples.len(),
{
    let without = samples.remove(i);
    let rest = samples.drop_last();
    if i == samples.len() - 1 {
        assert(without =~= rest);
    } else {
        let next = if samples.last().timestamp > seen {
            samples.last().timestamp
        } else {
            seen
        };
        assert(without.last() == samples.last());
        assert(without.drop_last() =~= rest.remove(i));
        assert(rest[i] == samples[i]);
        if is_new(next, rest, i) {
            assert forall|j: int| i < j < samples.len() implies (#[trigger] samples[j]).timestamp
                < samples[i].timestamp by {
                if j < samples.len() - 1 {
                    assert(rest[j] == samples[j]);
                }
            }
            assert(false);
        }
        lemma_skipped_sample_changes_nothing(next, rest, i);
    }
}

/// Where every sample of a fetch is later than the stored value and the
/// fetch is strictly newest first, each sample is notified, the oldest
/// first, and the newest sample's timestamp is what is stored.
pub proof fn lemma_backlog_is_sent_oldest_first(seen: u64, samples: Seq<SampleView>)
    requires
        samples.len() > 0,
        samples.last().timestamp > seen,
        forall|i: int, j: int|
            0 <= i < j < samples.len() ==> (#[trigger] samples[i]).timestamp
                > (#[trigger] samples[j]).timestamp,
    ensures
        fresh_messages(seen, samples) == Seq::new(
            samples.len(),
            |k: int| samples[samples.len() - 1 - k].message,
        ),
        last_seen(seen, samples) == samples[0].timestamp,
    decreases samples.len(),
{
    let rest = samples.drop_last();
    let n = samples.len();
    let expected = Seq::new(n, |k: int| samples[n - 1 - k].message);
    if rest.len() == 0 {
        assert(fresh_messages(samples.last().timestamp, rest) =~= Seq::empty());
        assert(last_seen(samples.last().timestamp, rest) == samples.last().timestamp);
        assert(fresh_messages(seen, samples) =~= expected);
    } else {
        assert(rest.last() == samples[n - 2]);
        assert(samples[n - 2].timestamp > samples[n - 1].timestamp);
        assert forall|i: int, j: int| 0 <= i < j < rest.len() implies (#[trigger] rest[i]).timestamp
            > (#[trigger] rest[j]).timestamp by {
            assert(rest[i] == samples[i] && rest[j] == samples[j]);
        }
        lemma_backlog_is_sent_oldest_first(samples.last().timestamp, rest);
        assert(rest[0] == samples[0]);
        assert(fresh_messages(seen, samples) =~= expected);
    }
}

} // verus!
