//! Pollable query state machine for non-blocking data fetching.
//!
//! A `Query<T>` tracks one asynchronous fetch at a time through the states
//! `Idle -> Loading -> Success(T) | Error(message)`. The surrounding
//! application schedules the actual network work and hands each observed
//! channel event back through [`Query::poll`], tagged with the attempt
//! number the event belongs to; events from an abandoned attempt are
//! discarded, so after a [`Query::refetch`] an earlier attempt's result can
//! never be observed.

use vstd::prelude::*;

verus! {

/// Seconds after which a successful result counts as stale by default.
pub const DEFAULT_QUERY_STALE_TIME: i64 = 60;

/// The state of a query.
#[derive(Debug, Clone)]
pub enum QueryState<T> {
    /// The query has not been started.
    Idle,
    /// The query is currently fetching data.
    Loading,
    /// The query completed successfully.
    Success(T),
    /// The query failed with an error message.
    Error(String),
}

impl<T> QueryState<T> {
    pub fn is_loading(&self) -> (r: bool)
        ensures
            r == (self is Loading),
    {
        matches!(self, QueryState::Loading)
    }

    pub fn is_success(&self) -> (r: bool)
        ensures
            r == (self is Success),
    {
        matches!(self, QueryState::Success(_))
    }

    pub fn is_error(&self) -> (r: bool)
        ensures
            r == (self is Error),
    {
        matches!(self, QueryState::Error(_))
    }

    /// The data, if the query succeeded.
    pub fn data(&self) -> (r: Option<&T>)
        ensures
            match r {
                Some(d) => self is Success && d == &self->Success_0,
                None => !(self is Success),
            },
    {
        match self {
            QueryState::Success(data) => Some(data),
            _ => None,
        }
    }

    /// The error message, if the query failed.
    pub fn error(&self) -> (r: Option<&str>)
        ensures
            match r {
                Some(e) => self is Error && e@ == self->Error_0@,
                None => !(self is Error),
            },
    {
        match self {
            QueryState::Error(e) => Some(e.as_str()),
            _ => None,
        }
    }
}

/// What a non-blocking receive observed for an attempt.
pub enum Delivery<T> {
    /// No result yet.
    Pending,
    /// The sending side went away without delivering a result.
    Closed,
    /// The attempt finished with this outcome.
    Done(Result<T, String>),
}

/// A pollable query: one in-flight fetch attempt at a time, driven by a
/// single caller that never blocks.
///
/// `fetch` starts an attempt unless one is already loading; `refetch`
/// abandons any in-flight attempt and starts a new one; `poll` folds an
/// observed [`Delivery`] into the state, ignoring deliveries that do not
/// carry the current attempt number. The caller schedules the actual work
/// for attempt `current_attempt()` whenever `fetch`/`refetch` report that a
/// new attempt began.
pub struct Query<T> {
    state: QueryState<T>,
    attempt: u64,
    live: bool,
    fetched_at: Option<i64>,
    stale_time: i64,
}

impl<T> Query<T> {
    /// Current state.
    pub closed spec fn spec_state(&self) -> QueryState<T> {
        self.state
    }

    /// Number of the current attempt; deliveries for other attempts are
    /// ignored.
    pub closed spec fn spec_attempt(&self) -> u64 {
        self.attempt
    }

    /// Whether the current attempt's result can still be observed.
    pub closed spec fn spec_live(&self) -> bool {
        self.live
    }

    /// When the last success was observed.
    pub closed spec fn spec_fetched_at(&self) -> Option<i64> {
        self.fetched_at
    }

    /// The configured stale time, in seconds.
    pub closed spec fn spec_stale_time(&self) -> int {
        self.stale_time as int
    }

    /// A fresh, idle query.
    pub fn new() -> (r: Self)
        ensures
            r.spec_state() is Idle,
            r.spec_attempt() == 0,
            !r.spec_live(),
            r.spec_fetched_at() is None,
            r.spec_stale_time() == DEFAULT_QUERY_STALE_TIME as int,
    {
        Query {
            state: QueryState::Idle,
            attempt: 0,
            live: false,
            fetched_at: None,
            stale_time: DEFAULT_QUERY_STALE_TIME,
        }
    }

    /// Set the stale time for this query.
    pub fn with_stale_time(self, stale_time: i64) -> (r: Self)
        ensures
            r.spec_state() == self.spec_state(),
            r.spec_attempt() == self.spec_attempt(),
            r.spec_live() == self.spec_live(),
            r.spec_fetched_at() == self.spec_fetched_at(),
            r.spec_stale_time() == stale_time as int,
    {
        Query {
            state: self.state,
            attempt: self.attempt,
            live: self.live,
            fetched_at: self.fetched_at,
            stale_time,
        }
    }

    /// The current state.
    pub fn state(&self) -> (r: &QueryState<T>)
        ensures
            r == &self.spec_state(),
    {
        &self.state
    }

    /// The data, if the query succeeded.
    pub fn data(&self) -> (r: Option<&T>)
        ensures
            match r {
                Some(d) => self.spec_state() is Success && d == &self.spec_state()->Success_0,
                None => !(self.spec_state() is Success),
            },
    {
        self.state.data()
    }

    pub fn is_loading(&self) -> (r: bool)
        ensures
            r == (self.spec_state() is Loading),
    {
        self.state.is_loading()
    }

    pub fn is_success(&self) -> (r: bool)
        ensures
            r == (self.spec_state() is Success),
    {
        self.state.is_success()
    }

    pub fn is_error(&self) -> (r: bool)
        ensures
            r == (self.spec_state() is Error),
    {
        self.state.is_error()
    }

    /// The error message, if the query failed.
    pub fn error(&self) -> (r: Option<&str>)
        ensures
            match r {
                Some(e) => self.spec_state() is Error && e@ == self.spec_state()->Error_0@,
                None => !(self.spec_state() is Error),
            },
    {
        self.state.error()
    }

    /// The attempt number the caller should tag scheduled work with.
    pub fn current_attempt(&self) -> (r: u64)
        ensures
            r == self.spec_attempt(),
    {
        self.attempt
    }

    /// Is the successful data older than the stale time at `now`? Never
    /// true outside `Success`.
    pub fn is_stale(&self, now: i64) -> (r: bool)
        ensures
            r == (self.spec_state() is Success && match self.spec_fetched_at() {
                Some(t) => now - t > self.spec_stale_time(),
                None => true,
            }),
    {
        match &self.state {
            QueryState::Success(_) => match self.fetched_at {
                Some(t) => (now as i128) - (t as i128) > (self.stale_time as i128),
                None => true,
            },
            _ => false,
        }
    }

    /// Start fetching unless a fetch is already in flight. Returns whether a
    /// new attempt began; if so, the caller schedules work for the new
    /// `current_attempt()`. Calling this while `Loading` changes nothing and
    /// schedules nothing.
    pub fn fetch(&mut self) -> (started: bool)
        requires
            old(self).spec_attempt() < u64::MAX,
        ensures
            old(self).spec_state() is Loading ==> !started && *final(self) == *old(self),
            !(old(self).spec_state() is Loading) ==> started && final(self).spec_state()
                is Loading && final(self).spec_attempt() == old(self).spec_attempt() + 1
                && final(self).spec_live()
                && final(self).spec_fetched_at() == old(self).spec_fetched_at()
                && final(self).spec_stale_time() == old(self).spec_stale_time(),
    {
        if self.state.is_loading() {
            return false;
        }
        self.start_attempt();
        true
    }

    /// Unconditionally abandon any in-flight attempt and start a new one.
    /// The abandoned attempt's result becomes unobservable: `poll` ignores
    /// deliveries that do not carry the new attempt number.
    pub fn refetch(&mut self)
        requires
            old(self).spec_attempt() < u64::MAX,
        ensures
            final(self).spec_state() is Loading,
            final(self).spec_attempt() == old(self).spec_attempt() + 1,
            final(self).spec_live(),
            final(self).spec_fetched_at() == old(self).spec_fetched_at(),
            final(self).spec_stale_time() == old(self).spec_stale_time(),
    {
        self.start_attempt();
    }

    /// Begin a new attempt.
    fn start_attempt(&mut self)
        requires
            old(self).spec_attempt() < u64::MAX,
        ensures
            final(self).spec_state() is Loading,
            final(self).spec_attempt() == old(self).spec_attempt() + 1,
            final(self).spec_live(),
            final(self).spec_fetched_at() == old(self).spec_fetched_at(),
            final(self).spec_stale_time() == old(self).spec_stale_time(),
    {
        self.state = QueryState::Loading;
        self.attempt = self.attempt + 1;
        self.live = true;
    }

    /// Fold one observed delivery into the state. Returns `true` exactly
    /// when the state changed. A delivery is acted on only when it carries
    /// the current attempt number and that attempt is still live; in
    /// particular, a result from an attempt abandoned by `refetch` is
    /// dropped unseen.
    pub fn poll(&mut self, attempt: u64, delivery: Delivery<T>, now: i64) -> (changed: bool)
        ensures
            final(self).spec_stale_time() == old(self).spec_stale_time(),
            !(old(self).spec_live() && attempt == old(self).spec_attempt()) ==> !changed
                && *final(self) == *old(self),
            old(self).spec_live() && attempt == old(self).spec_attempt() ==> match delivery {
                Delivery::Pending => !changed && *final(self) == *old(self),
                Delivery::Done(out) => changed && !final(self).spec_live()
                    && final(self).spec_attempt() == old(self).spec_attempt() && match out {
                    Ok(data) => final(self).spec_state() == QueryState::Success(data)
                        && final(self).spec_fetched_at() == Some(now),
                    Err(e) => final(self).spec_state() == QueryState::<T>::Error(e)
                        && final(self).spec_fetched_at() == old(self).spec_fetched_at(),
                },
                Delivery::Closed => changed && !final(self).spec_live()
                    && final(self).spec_attempt() == old(self).spec_attempt() && (
                match final(self).spec_state() {
                    QueryState::Error(m) => m@ == "Query was cancelled"@,
                    _ => false,
                }) && final(self).spec_fetched_at() == old(self).spec_fetched_at(),
            },
    {
        if !self.live || attempt != self.attempt {
            return false;
        }
        match delivery {
            Delivery::Pending => false,
            Delivery::Done(out) => {
                match out {
                    Ok(data) => {
                        self.state = QueryState::Success(data);
                        self.fetched_at = Some(now);
                    }
                    Err(e) => {
                        self.state = QueryState::Error(e);
                    }
                }
                self.live = false;
                true
            }
            Delivery::Closed => {
                self.state = QueryState::Error("Query was cancelled".to_owned());
                self.live = false;
                true
            }
        }
    }
}

} // verus!
