//! Timestamped snapshots and the per-source refresh state machine.
//!
//! A source keeps at most one snapshot, serves it to readers whatever its
//! age, asks for a refresh when it is missing or older than the source's TTL,
//! and never has more than one fetch outstanding. Staleness is judged against
//! an instant handed in by the caller: the scheduler pins it to its tick.

pub mod countdown;
pub mod transit;
pub mod weather;

use crate::clock::now_millis;
use vstd::prelude::*;

verus! {

/// What a snapshot holds, as a mathematical value.
pub struct Snapshot<T> {
    pub payload: T,
    pub fetched_at: int,
}

/// True when data fetched at `fetched_at` has reached the age `ttl` at `now`.
pub open spec fn expired(fetched_at: int, ttl: int, now: int) -> bool {
    now - fetched_at >= ttl
}

/// One successfully fetched payload, stamped with the instant (milliseconds
/// since the Unix epoch) at which the fetch completed.
#[derive(Debug)]
pub struct FetchedData<T> {
    fetched_at: i64,
    data: T,
}

impl<T> View for FetchedData<T> {
    type V = Snapshot<T>;

    closed spec fn view(&self) -> Snapshot<T> {
        Snapshot { payload: self.data, fetched_at: self.fetched_at as int }
    }
}

impl<T> FetchedData<T> {
    /// Stamps `data` with the current time.
    pub fn new(data: T) -> (r: Self)
        ensures
            r@.payload == data,
    {
        Self::at(data, now_millis())
    }

    /// Stamps `data` with the instant `fetched_at`.
    pub fn at(data: T, fetched_at: i64) -> (r: Self)
        ensures
            r@ == (Snapshot { payload: data, fetched_at: fetched_at as int }),
    {
        FetchedData { fetched_at, data }
    }

    pub fn fetched_at(&self) -> (r: i64)
        ensures
            r == self@.fetched_at,
    {
        self.fetched_at
    }

    pub fn data(&self) -> (r: &T)
        ensures
            *r == self@.payload,
    {
        &self.data
    }

    /// Milliseconds elapsed between the fetch and `now`.
    pub fn age(&self, now: i64) -> (r: i128)
        ensures
            r == now - self@.fetched_at,
    {
        now as i128 - self.fetched_at as i128
    }

    /// Whether the snapshot has reached the age `ttl` (milliseconds) at `now`.
    pub fn is_expired_at(&self, ttl: u64, now: i64) -> (r: bool)
        ensures
            r == expired(self@.fetched_at, ttl as int, now as int),
    {
        self.age(now) >= ttl as i128
    }

    /// Whether the snapshot has reached the age `ttl` (milliseconds) by now.
    pub fn is_expired(&self, ttl: u64) -> (r: bool)
        ensures
            exists|now: i64| r == expired(self@.fetched_at, ttl as int, now as int),
    {
        self.is_expired_at(ttl, now_millis())
    }
}


/// How a fetch attempt failed.
#[derive(Debug, Clone, Copy, PartialEq, Eq)]
pub enum FetchErrorKind {
    /// The request could not be sent or no response came back.
    Transport,
    /// A response came back with a non-success status.
    Status,
    /// The response body could not be decoded into the payload type.
    Decode,
}

/// A failed fetch, with enough context to log which source failed and why.
#[derive(Debug, Clone)]
pub struct FetchError {
    pub kind: FetchErrorKind,
    /// Identity of the source, its endpoint.
    pub source: String,
    /// Human-readable cause chain.
    pub cause: String,
}

/// The state of a source as a mathematical value.
pub struct SourceModel<T> {
    pub url: Seq<char>,
    pub ttl: int,
    pub snapshot: Option<Snapshot<T>>,
    pub in_flight: bool,
}

/// Data is missing, or older than the TTL at `now`.
pub open spec fn is_stale<T>(s: SourceModel<T>, now: int) -> bool {
    match s.snapshot {
        None => true,
        Some(d) => expired(d.fetched_at, s.ttl, now),
    }
}

/// A refresh request at `now` launches a fetch exactly when the data is stale
/// and no fetch is outstanding.
pub open spec fn launches_fetch<T>(s: SourceModel<T>, now: int) -> bool {
    is_stale(s, now) && !s.in_flight
}

/// The state after a refresh request at `now`.
pub open spec fn after_request<T>(s: SourceModel<T>, now: int) -> SourceModel<T> {
    if launches_fetch(s, now) {
        SourceModel { in_flight: true, ..s }
    } else {
        s
    }
}

/// The state after the outstanding fetch ended with `outcome` at `now`: a
/// payload replaces the snapshot wholesale, a failure leaves it as it was.
pub open spec fn after_completion<T>(
    s: SourceModel<T>,
    outcome: Result<T, FetchError>,
    now: int,
) -> SourceModel<T> {
    match outcome {
        Ok(payload) => SourceModel {
            snapshot: Some(Snapshot { payload, fetched_at: now }),
            in_flight: false,
            ..s
        },
        Err(_) => SourceModel { in_flight: false, ..s },
    }
}

/// The state after a series of refresh requests, at the instants `times`.
pub open spec fn after_requests<T>(s: SourceModel<T>, times: Seq<int>) -> SourceModel<T>
    decreases times.len(),
{
    if times.len() == 0 {
        s
    } else {
        after_request(after_requests(s, times.drop_last()), times.last())
    }
}

/// How many fetches a series of refresh requests launches.
pub open spec fn fetches_launched<T>(s: SourceModel<T>, times: Seq<int>) -> nat
    decreases times.len(),
{
    if times.len() == 0 {
        0
    } else {
        let before = after_requests(s, times.drop_last());
        fetches_launched(s, times.drop_last()) + if launches_fetch(before, times.last()) {
            1nat
        } else {
            0nat
        }
    }
}

/// A polled external source: its endpoint, its TTL in milliseconds, the
/// latest snapshot and whether a fetch is outstanding.
///
/// The network call itself happens outside: a request that returns `true`
/// obliges the caller to perform one fetch and to report its outcome through
/// `finish_fetch_at`. Readers are served the snapshot whatever its age.
#[derive(Debug)]
pub struct ApiFetcher<T> {
    url: String,
    ttl: u64,
    data: Option<FetchedData<T>>,
    in_flight: bool,
}

impl<T> View for ApiFetcher<T> {
    type V = SourceModel<T>;

    closed spec fn view(&self) -> SourceModel<T> {
        SourceModel {
            url: self.url@,
            ttl: self.ttl as int,
            snapshot: match self.data {
                Some(d) => Some(d@),
                None => None,
            },
            in_flight: self.in_flight,
        }
    }
}

impl<T> ApiFetcher<T> {
    /// A source with no data and no fetch outstanding.
    pub fn new(url: String, ttl: u64) -> (r: Self)
        ensures
            r@ == (SourceModel::<T> { url: url@, ttl: ttl as int, snapshot: None, in_flight: false }),
    {
        ApiFetcher { url, ttl, data: None, in_flight: false }
    }

    pub fn url(&self) -> (r: &str)
        ensures
            r@ == self@.url,
    {
        self.url.as_str()
    }

    pub fn ttl(&self) -> (r: u64)
        ensures
            r == self@.ttl,
    {
        self.ttl
    }

    /// The latest snapshot, without waiting on any outstanding fetch.
    pub fn snapshot(&self) -> (r: Option<&FetchedData<T>>)
        ensures
            r is None <==> self@.snapshot is None,
            r matches Some(d) ==> self@.snapshot == Some(d@),
    {
        self.data.as_ref()
    }

    pub fn is_in_flight(&self) -> (r: bool)
        ensures
            r == self@.in_flight,
    {
        self.in_flight
    }

    pub fn is_stale_at(&self, now: i64) -> (r: bool)
        ensures
            r == is_stale(self@, now as int),
    {
        match &self.data {
            None => true,
            Some(d) => d.is_expired_at(self.ttl, now),
        }
    }

    /// A refresh request at `now`: when the data is stale and no fetch is
    /// outstanding, marks a fetch as outstanding and returns `true`; the
    /// caller then performs exactly one fetch. Otherwise changes nothing.
    pub fn fetch_if_needed_at(&mut self, now: i64) -> (r: bool)
        ensures
            r == launches_fetch(old(self)@, now as int),
            final(self)@ == after_request(old(self)@, now as int),
    {
        if !self.in_flight && self.is_stale_at(now) {
            self.in_flight = true;
            true
        } else {
            false
        }
    }

    /// A refresh request judged against the current time.
    pub fn fetch_if_needed(&mut self) -> (r: bool)
        ensures
            exists|now: i64|
                r == launches_fetch(old(self)@, now as int) && final(self)@ == after_request(
                    old(self)@,
                    now as int,
                ),
    {
        self.fetch_if_needed_at(now_millis())
    }

    /// Replaces the snapshot wholesale.
    pub fn set_data(&mut self, data: FetchedData<T>)
        ensures
            final(self)@ == (SourceModel { snapshot: Some(data@), ..old(self)@ }),
    {
        self.data = Some(data);
    }

    /// Applies the outcome of the outstanding fetch, completed at `now`.
    pub fn finish_fetch_at(&mut self, outcome: Result<T, FetchError>, now: i64)
        ensures
            final(self)@ == after_completion(old(self)@, outcome, now as int),
    {
        match outcome {
            Ok(payload) => self.set_data(FetchedData::at(payload, now)),
            Err(_) => {},
        }
        self.in_flight = false;
    }

    /// Applies the outcome of the outstanding fetch, completed now.
    pub fn finish_fetch(&mut self, outcome: Result<T, FetchError>)
        ensures
            exists|now: i64| final(self)@ == after_completion(old(self)@, outcome, now as int),
    {
        self.finish_fetch_at(outcome, now_millis())
    }
}

impl<T: Clone> ApiFetcher<T> {
    /// Reads the latest payload and, in the same step, makes a refresh
    /// request at `now`. The payload is returned even when stale, and even
    /// while a fetch is outstanding; the flag says whether the caller must
    /// now perform a fetch.
    pub fn data_at(&mut self, now: i64) -> (r: (Option<T>, bool))
        ensures
            r.0 is None <==> old(self)@.snapshot is None,
            r.0 matches Some(v) ==> cloned(old(self)@.snapshot->0.payload, v),
            r.1 == launches_fetch(old(self)@, now as int),
            final(self)@ == after_request(old(self)@, now as int),
    {
        let launch = self.fetch_if_needed_at(now);
        let value = match &self.data {
            Some(d) => Some(d.data().clone()),
            None => None,
        };
        (value, launch)
    }

    /// Reads the latest payload and makes a refresh request judged against
    /// the current time.
    pub fn data(&mut self) -> (r: (Option<T>, bool))
        ensures
            r.0 is None <==> old(self)@.snapshot is None,
            r.0 matches Some(v) ==> cloned(old(self)@.snapshot->0.payload, v),
            exists|now: i64|
                r.1 == launches_fetch(old(self)@, now as int) && final(self)@ == after_request(
                    old(self)@,
                    now as int,
                ),
    {
        self.data_at(now_millis())
    }
}

/// At most one fetch per source is ever outstanding: any series of refresh
/// requests, however many and at whatever instants, launches at most one
/// fetch, and none at all while a fetch is already outstanding, in which case
/// every request leaves the source unchanged.
pub proof fn lemma_at_most_one_in_flight<T>(s: SourceModel<T>, times: Seq<int>)
    ensures
        fetches_launched(s, times) <= 1,
        fetches_launched(s, times) == 1 ==> after_requests(s, times).in_flight,
        s.in_flight ==> fetches_launched(s, times) == 0 && after_requests(s, times) == s,
    decreases times.len(),
{
    if times.len() > 0 {
        lemma_at_most_one_in_flight(s, times.drop_last());
    }
}

/// Stale-while-revalidate: refresh requests never touch the snapshot, so
/// readers keep being served the old value while a refresh is outstanding,
/// until its outcome is applied.
pub proof fn lemma_requests_keep_snapshot<T>(s: SourceModel<T>, times: Seq<int>)
    ensures
        after_requests(s, times).snapshot == s.snapshot,
        after_requests(s, times).url == s.url,
        after_requests(s, times).ttl == s.ttl,
    decreases times.len(),
{
    if times.len() > 0 {
        lemma_requests_keep_snapshot(s, times.drop_last());
    }
}

/// A failed fetch leaves the snapshot exactly as it was, fetch time included,
/// and clears the outstanding mark.
pub proof fn lemma_failure_keeps_snapshot<T>(s: SourceModel<T>, err: FetchError, now: int)
    ensures
        after_completion(s, Err(err), now).snapshot == s.snapshot,
        !after_completion(s, Err(err), now).in_flight,
{
}

/// With TTL `s.ttl`, data fetched more than a TTL ago is refreshed by the next
/// request, and data fetched less than a TTL ago is not.
pub proof fn lemma_expiry_triggers_refresh<T>(s: SourceModel<T>, now: int, eps: int)
    requires
        s.snapshot is Some,
        !s.in_flight,
        eps > 0,
    ensures
        s.snapshot->0.fetched_at == now - s.ttl - eps ==> launches_fetch(s, now) && after_request(
            s,
            now,
        ).in_flight,
        s.snapshot->0.fetched_at == now - s.ttl + eps ==> !launches_fetch(s, now) && after_request(
            s,
            now,
        ) == s,
{
}

} // verus!
