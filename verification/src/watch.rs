//! Change notification: a synchronous broadcast bus inside the process.
//!
//! Nothing here watches files or starts a thread: a change is announced only
//! by an explicit `reload` of the store or `notify` of the bus, and subscribers
//! block until the generation grows or the bus is closed.

use std::sync::{Arc, Condvar, Mutex};
use std::time::Duration;

use vstd::prelude::*;

use crate::error::{error_is, ConfigxError, ConfigxResult, ErrorKind};
use crate::text::{decimal, push_decimal, push_str};

verus! {

#[verifier::external_type_specification]
#[verifier::external_body]
#[verifier::reject_recursive_types(T)]
pub struct ExMutex<T: ?Sized>(Mutex<T>);

#[verifier::external_type_specification]
#[verifier::external_body]
pub struct ExCondvar(Condvar);

pub assume_specification<T>[ Mutex::<T>::new ](t: T) -> Mutex<T>;

pub assume_specification[ Condvar::new ]() -> Condvar;

/// Message when the lock that orders changes is poisoned.
pub const MUTATION_LOCK_POISONED: &'static str = "配置监听变更锁已中毒";

/// Message when the lock that guards the state is poisoned.
pub const STATE_LOCK_POISONED: &'static str = "配置监听状态锁已中毒";

/// Message when the bus is closed.
pub const WATCH_CLOSED: &'static str = "配置监听已关闭";

/// Message when the generation cannot grow any more.
pub const GENERATION_OVERFLOW: &'static str = "配置监听 generation 溢出";

/// One announced change; generations grow by one and start at 1.
#[derive(Debug, Clone, Copy, PartialEq, Eq, Structural)]
pub struct ConfigChange {
    /// Number of the change, from 1.
    pub generation: u64,
}

/// The outcome of waiting for a change.
#[non_exhaustive]
#[derive(Debug, Clone, Copy, PartialEq, Eq, Structural)]
pub enum ConfigWaitOutcome {
    /// A newer generation was seen.
    Changed(ConfigChange),
    /// The deadline passed and no newer generation was seen.
    TimedOut,
    /// The bus is closed.
    Closed,
}

impl ConfigWaitOutcome {
    /// The change, for the waits that only report changes.
    fn into_change(self) -> (r: Option<ConfigChange>)
        ensures
            match self {
                ConfigWaitOutcome::Changed(c) => r == Some(c),
                _ => r is None,
            },
    {
        match self {
            ConfigWaitOutcome::Changed(change) => Some(change),
            _ => None,
        }
    }
}

/// The state of the bus: the last generation announced, and whether it is closed.
#[derive(Debug, Clone, Copy, PartialEq, Eq, Structural)]
pub struct WatchState {
    /// Last generation announced; 0 before the first change.
    pub generation: u64,
    /// Whether the bus is closed.
    pub closed: bool,
}

/// The generation that a change announced in state `s` gets, or the message
/// that refuses the change.
pub open spec fn next_generation_spec(s: WatchState) -> Result<u64, Seq<char>> {
    if s.closed {
        Err(WATCH_CLOSED@)
    } else if s.generation == u64::MAX {
        Err(GENERATION_OVERFLOW@)
    } else {
        Ok((s.generation + 1) as u64)
    }
}

/// What a subscriber that has seen `seen` observes in state `s`, with what it
/// has seen afterwards; a closed bus takes precedence over a newer generation.
pub open spec fn observe_spec(seen: u64, s: WatchState) -> Option<(ConfigWaitOutcome, u64)> {
    if s.closed {
        Some((ConfigWaitOutcome::Closed, seen))
    } else if s.generation > seen {
        Some((ConfigWaitOutcome::Changed(ConfigChange { generation: s.generation }), s.generation))
    } else {
        None
    }
}

/// What a wait with a deadline reports when it ends in state `s`: a closed bus
/// first, then a generation newer than what was seen; a timeout only when the
/// bus is open and nothing newer is there.
pub open spec fn timed_outcome_spec(seen: u64, s: WatchState) -> (ConfigWaitOutcome, u64) {
    if s.closed {
        (ConfigWaitOutcome::Closed, seen)
    } else if s.generation > seen {
        (ConfigWaitOutcome::Changed(ConfigChange { generation: s.generation }), s.generation)
    } else {
        (ConfigWaitOutcome::TimedOut, seen)
    }
}

/// The errors with which announcing a change can fail: a poisoned lock, a
/// closed bus, or a generation that cannot grow any more; all are conflicts.
pub open spec fn notify_refusal(e: ConfigxError) -> bool {
    ||| error_is(e, ErrorKind::Conflict, MUTATION_LOCK_POISONED@)
    ||| error_is(e, ErrorKind::Conflict, STATE_LOCK_POISONED@)
    ||| error_is(e, ErrorKind::Conflict, WATCH_CLOSED@)
    ||| error_is(e, ErrorKind::Conflict, GENERATION_OVERFLOW@)
}

/// Whether a subscriber that has seen `seen` still has to wait in state `s`.
pub open spec fn pending_spec(seen: u64, s: WatchState) -> bool {
    !s.closed && s.generation <= seen
}

/// The state after announcing a change in state `s`, when it may be announced.
pub open spec fn notify_step(s: WatchState) -> Option<WatchState> {
    match next_generation_spec(s) {
        Ok(g) => Some(WatchState { generation: g, closed: s.closed }),
        Err(_) => None,
    }
}

/// The state after closing the bus in state `s`.
pub open spec fn close_step(s: WatchState) -> WatchState {
    WatchState { generation: s.generation, closed: true }
}

/// Each announced change raises the generation by exactly one, and a change
/// can be announced only while the bus is open.
pub proof fn lemma_notify_advances_by_one(s: WatchState)
    ensures
        notify_step(s) matches Some(t) ==> t.generation == s.generation + 1 && !t.closed && !s.closed,
        s.closed ==> notify_step(s) is None,
{
}

/// Closing is final: a closed bus announces no change, stays closed when
/// closed again, and every subscriber observes that it is closed, whatever it
/// has seen.
pub proof fn lemma_closed_is_final(s: WatchState, seen: u64)
    ensures
        notify_step(close_step(s)) is None,
        close_step(close_step(s)) == close_step(s),
        observe_spec(seen, close_step(s)) == Some((ConfigWaitOutcome::Closed, seen)),
        timed_outcome_spec(seen, close_step(s)).0 == ConfigWaitOutcome::Closed,
{
}

/// What a subscriber has seen never decreases, and a reported change is newer
/// than anything seen before.
pub proof fn lemma_seen_is_monotone(seen: u64, s: WatchState)
    ensures
        observe_spec(seen, s) matches Some((o, after)) ==> after >= seen && (o matches ConfigWaitOutcome::Changed(c) ==> c.generation > seen && after == c.generation),
        timed_outcome_spec(seen, s).1 >= seen,
        timed_outcome_spec(seen, s).0 matches ConfigWaitOutcome::Changed(c) ==> c.generation > seen,
{
}

/// A wait with a deadline reports what a wait without one would observe, and
/// `TimedOut` exactly when there is nothing to observe: the bus is open and no
/// generation newer than what was seen is there.
pub proof fn lemma_timed_wait_reports_what_is_there(seen: u64, s: WatchState)
    ensures
        observe_spec(seen, s) matches Some(x) ==> timed_outcome_spec(seen, s) == x,
        observe_spec(seen, s) is None <==> timed_outcome_spec(seen, s).0 is TimedOut,
        timed_outcome_spec(seen, s).0 is TimedOut <==> pending_spec(seen, s),
{
}

/// After a change is announced, a subscriber that had seen the previous
/// generation observes exactly that change.
pub proof fn lemma_subscriber_sees_next_change(s: WatchState)
    requires
        notify_step(s) is Some,
    ensures
        notify_step(s) matches Some(t) && observe_spec(s.generation, t) == Some(
            (ConfigWaitOutcome::Changed(ConfigChange { generation: t.generation }), t.generation),
        ),
{
}

/// The generation that a change announced in `state` gets.
pub fn next_generation(state: &WatchState) -> (r: ConfigxResult<u64>)
    ensures
        match next_generation_spec(*state) {
            Ok(g) => r == Ok::<u64, ConfigxError>(g),
            Err(m) => r matches Err(e) && error_is(e, ErrorKind::Conflict, m),
        },
{
    if state.closed {
        return Err(ConfigxError::conflict(WATCH_CLOSED));
    }
    match state.generation.checked_add(1) {
        Some(g) => Ok(g),
        None => Err(ConfigxError::conflict(GENERATION_OVERFLOW)),
    }
}

/// What a subscriber that has seen `*seen` observes in `state`; a closed bus
/// takes precedence over a newer generation, and a change updates `*seen`.
pub fn observe(seen: &mut u64, state: &WatchState) -> (r: Option<ConfigWaitOutcome>)
    ensures
        match observe_spec(*old(seen), *state) {
            Some((o, after)) => r == Some(o) && *final(seen) == after,
            None => r is None && *final(seen) == *old(seen),
        },
{
    if state.closed {
        return Some(ConfigWaitOutcome::Closed);
    }
    if state.generation > *seen {
        *seen = state.generation;
        return Some(ConfigWaitOutcome::Changed(ConfigChange { generation: state.generation }));
    }
    None
}

/// What a wait with a deadline reports, and what has been seen afterwards.
pub fn timed_outcome(seen: u64, state: &WatchState) -> (r: (ConfigWaitOutcome, u64))
    ensures
        r == timed_outcome_spec(seen, *state),
{
    if state.closed {
        (ConfigWaitOutcome::Closed, seen)
    } else if state.generation > seen {
        (ConfigWaitOutcome::Changed(ConfigChange { generation: state.generation }), state.generation)
    } else {
        (ConfigWaitOutcome::TimedOut, seen)
    }
}

/// Whether a subscriber that has seen `seen` still has to wait in `state`.
fn pending(seen: u64, state: &WatchState) -> (r: bool)
    ensures
        r == pending_spec(seen, *state),
{
    !state.closed && state.generation <= seen
}

/// Which lock of the bus was found poisoned.
enum Poisoned {
    /// The lock that orders changes.
    Mutation,
    /// The lock that guards the state.
    State,
}

/// The state of the bus, read with both of its locks taken in order (`Mutex::lock`,
/// then the guard's `Deref`); the locks are released before it returns, so no
/// lock of the bus is ever held by the caller. Other threads change the state
/// between calls, so nothing is promised of the value.
#[verifier::external_body]
fn read_bus(w: &ConfigWatch) -> Result<WatchState, Poisoned> {
    let _mutation = w.mutation.lock().map_err(|_| Poisoned::Mutation)?;
    let state = w.state.lock().map_err(|_| Poisoned::State)?;
    Ok(*state)
}

/// Replaces the state of the bus by `step` of it with both locks taken in order
/// (`Mutex::lock`, the guard's `Deref` and `DerefMut`), wakes every waiting
/// subscriber (`Condvar::notify_all`) and returns the state it found; the locks
/// are released before it returns. `step` runs while both locks are held: its
/// callers hand it a pure transition of the state, which touches no lock.
#[verifier::external_body]
fn update_bus<F: FnOnce(WatchState) -> WatchState>(w: &ConfigWatch, step: F) -> Result<WatchState, Poisoned>
    requires
        forall|s: WatchState| step.requires((s,)),
{
    let _mutation = w.mutation.lock().map_err(|_| Poisoned::Mutation)?;
    let mut state = w.state.lock().map_err(|_| Poisoned::State)?;
    let before = *state;
    *state = step(before);
    w.cvar.notify_all();
    Ok(before)
}

/// Blocks, with the state lock taken (`Mutex::lock`), until the state no
/// longer keeps a subscriber that has seen `seen` waiting (`Condvar::wait_while`
/// on the bus's one condition variable, always with that same lock), and
/// returns the state it found; `None` when the lock is poisoned. As documented,
/// `wait_while` returns only once the condition is false, so the state returned
/// is not pending.
#[verifier::external_body]
fn wait_bus(w: &ConfigWatch, seen: u64) -> (r: Option<WatchState>)
    ensures
        r matches Some(s) ==> !pending_spec(seen, s),
{
    let state = w.state.lock().ok()?;
    let state = w.cvar.wait_while(state, |s| pending(seen, s)).ok()?;
    Some(*state)
}

/// Blocks, with the state lock taken (`Mutex::lock`), until the state no
/// longer keeps a subscriber that has seen `seen` waiting or `timeout` has
/// passed (`Condvar::wait_timeout_while` on the bus's one condition variable,
/// always with that same lock), and returns the state it found; `None` when the
/// lock is poisoned. Which of the two ended the wait depends on other threads
/// and on time, so nothing is promised of the state.
#[verifier::external_body]
fn wait_bus_until(w: &ConfigWatch, seen: u64, timeout: Duration) -> Option<WatchState> {
    let state = w.state.lock().ok()?;
    let (state, _) = w.cvar.wait_timeout_while(state, timeout, |s| pending(seen, s)).ok()?;
    Some(*state)
}

/// The bus that announces changes inside the process.
///
/// `subscribe` gives a subscription; `notify` announces a change (generation
/// plus one); after `close`, every wait returns `Closed` at once and every
/// `notify` fails. Changes are ordered by a lock of their own; the state lock is
/// held only for short checks and updates.
pub struct ConfigWatch {
    mutation: Mutex<()>,
    state: Mutex<WatchState>,
    cvar: Condvar,
}

impl ConfigWatch {
    /// An open bus at generation 0.
    pub fn new() -> (r: Self) {
        ConfigWatch {
            mutation: Mutex::new(()),
            state: Mutex::new(WatchState { generation: 0, closed: false }),
            cvar: Condvar::new(),
        }
    }

    /// The current generation; 0 before the first change, and 0 when a lock is
    /// poisoned. Other threads may change it at any time.
    pub fn generation(&self) -> (r: u64) {
        match read_bus(self) {
            Ok(state) => state.generation,
            Err(_) => 0,
        }
    }

    /// A subscription that waits for changes after the current generation.
    pub fn subscribe(self: &Arc<Self>) -> (r: ConfigSubscription)
        ensures
            r.bus() == *self,
    {
        let seen = self.generation();
        ConfigSubscription { watch: Arc::clone(self), seen }
    }

    /// Announces a change: the generation grows by one and every waiting
    /// subscriber wakes up.
    ///
    /// Fails with a conflict when a lock is poisoned, when the bus is closed, or
    /// when the generation cannot grow any more; nothing changes then.
    pub fn notify(&self) -> (r: ConfigxResult<ConfigChange>)
        ensures
            r matches Ok(c) ==> exists|s: WatchState| #[trigger] next_generation_spec(s) == Ok::<u64, Seq<char>>(c.generation),
            r matches Ok(c) ==> c.generation >= 1,
            r matches Err(e) ==> notify_refusal(e),
    {
        match update_bus(self, |s: WatchState| notify_state(&s)) {
            Err(Poisoned::Mutation) => Err(ConfigxError::conflict(MUTATION_LOCK_POISONED)),
            Err(Poisoned::State) => Err(ConfigxError::conflict(STATE_LOCK_POISONED)),
            Ok(before) => match next_generation(&before) {
                Err(e) => Err(e),
                Ok(generation) => Ok(ConfigChange { generation }),
            },
        }
    }

    /// Closes the bus: later waits return `Closed` and later changes fail.
    ///
    /// Fails with a conflict when a lock is poisoned.
    pub fn close(&self) -> (r: ConfigxResult<()>)
        ensures
            r matches Err(e) ==> {
                ||| error_is(e, ErrorKind::Conflict, MUTATION_LOCK_POISONED@)
                ||| error_is(e, ErrorKind::Conflict, STATE_LOCK_POISONED@)
            },
    {
        match update_bus(self, |s: WatchState| close_state(&s)) {
            Err(Poisoned::Mutation) => Err(ConfigxError::conflict(MUTATION_LOCK_POISONED)),
            Err(Poisoned::State) => Err(ConfigxError::conflict(STATE_LOCK_POISONED)),
            Ok(_) => Ok(()),
        }
    }

    /// A description that gives the current generation.
    pub fn debug_string(&self) -> (r: String)
        ensures
            exists|g: u64| r@ == "ConfigWatch { generation: "@ + decimal(g as nat) + " }"@,
    {
        let g = self.generation();
        let mut out = "ConfigWatch { generation: ".to_owned();
        push_decimal(&mut out, g as u128);
        push_str(&mut out, " }");
        out
    }
}

/// The state after announcing a change in `state`: the next generation when a
/// change may be announced, `state` itself otherwise.
fn notify_state(state: &WatchState) -> (r: WatchState)
    ensures
        r == match notify_step(*state) {
            Some(t) => t,
            None => *state,
        },
{
    match next_generation(state) {
        Ok(generation) => WatchState { generation, closed: state.closed },
        Err(_) => *state,
    }
}

/// The state after closing the bus in `state`.
fn close_state(state: &WatchState) -> (r: WatchState)
    ensures
        r == close_step(*state),
{
    WatchState { generation: state.generation, closed: true }
}

impl Default for ConfigWatch {
    /// An open bus at generation 0.
    fn default() -> (r: Self) {
        ConfigWatch::new()
    }
}

/// A subscription: it remembers the last generation it has seen and can block
/// until a newer one is announced.
///
/// Every wait blocks the calling thread; asynchronous code has to run it on a
/// thread meant for blocking work.
pub struct ConfigSubscription {
    watch: Arc<ConfigWatch>,
    seen: u64,
}

impl ConfigSubscription {
    /// The bus that this subscription listens to.
    pub closed spec fn bus(&self) -> Arc<ConfigWatch> {
        self.watch
    }

    /// The last generation seen.
    pub closed spec fn seen_spec(&self) -> u64 {
        self.seen
    }

    /// The last generation seen.
    pub fn seen(&self) -> (r: u64)
        ensures
            r == self.seen_spec(),
    {
        self.seen
    }

    /// Blocks until the generation grows past what was seen or the bus is
    /// closed, and says which of the two happened; a closed bus takes precedence.
    ///
    /// Fails with a conflict when the state lock is poisoned.
    pub fn wait_outcome(&mut self) -> (r: ConfigxResult<ConfigWaitOutcome>)
        ensures
            final(self).bus() == old(self).bus(),
            r matches Ok(o) ==> (o is Closed && final(self).seen_spec() == old(self).seen_spec()) || (o matches ConfigWaitOutcome::Changed(c) && c.generation > old(self).seen_spec() && final(self).seen_spec() == c.generation),
            r matches Err(e) ==> error_is(e, ErrorKind::Conflict, STATE_LOCK_POISONED@) && final(self).seen_spec() == old(self).seen_spec(),
    {
        let state = match wait_bus(&self.watch, self.seen) {
            Some(state) => state,
            None => {
                return Err(ConfigxError::conflict(STATE_LOCK_POISONED));
            },
        };
        match observe(&mut self.seen, &state) {
            Some(outcome) => Ok(outcome),
            None => {
                // The wait ends only in a state that is closed or newer than
                // what was seen, so there is always something to observe.
                assert(false);
                Ok(ConfigWaitOutcome::Closed)
            },
        }
    }

    /// Waits for a change; a closed bus gives `None`.
    ///
    /// Fails with a conflict when the state lock is poisoned.
    pub fn wait(&mut self) -> (r: ConfigxResult<Option<ConfigChange>>)
        ensures
            final(self).bus() == old(self).bus(),
            r matches Ok(Some(c)) ==> c.generation > old(self).seen_spec() && final(self).seen_spec() == c.generation,
            r matches Ok(None) ==> final(self).seen_spec() == old(self).seen_spec(),
            r matches Err(e) ==> error_is(e, ErrorKind::Conflict, STATE_LOCK_POISONED@),
    {
        match self.wait_outcome() {
            Ok(outcome) => Ok(outcome.into_change()),
            Err(e) => Err(e),
        }
    }

    /// Waits at most `timeout` for a change and says whether a change came, the
    /// deadline passed with nothing new, or the bus is closed. A closed bus takes
    /// precedence, and a generation newer than what was seen is reported as a
    /// change even when the deadline has passed; `TimedOut` means that the bus
    /// is open and nothing newer is there. The deadline counts from the moment
    /// the state lock is taken; that lock is held only for short checks and
    /// updates.
    ///
    /// Fails with a conflict when the state lock is poisoned.
    pub fn wait_timeout_outcome(&mut self, timeout: Duration) -> (r: ConfigxResult<ConfigWaitOutcome>)
        ensures
            final(self).bus() == old(self).bus(),
            r matches Ok(o) ==> (o matches ConfigWaitOutcome::Changed(c) ==> c.generation > old(self).seen_spec() && final(self).seen_spec() == c.generation),
            r matches Ok(o) ==> (!(o is Changed) ==> final(self).seen_spec() == old(self).seen_spec()),
            r matches Err(e) ==> error_is(e, ErrorKind::Conflict, STATE_LOCK_POISONED@) && final(self).seen_spec() == old(self).seen_spec(),
    {
        let state = match wait_bus_until(&self.watch, self.seen, timeout) {
            Some(state) => state,
            None => {
                return Err(ConfigxError::conflict(STATE_LOCK_POISONED));
            },
        };
        let (outcome, seen) = timed_outcome(self.seen, &state);
        self.seen = seen;
        Ok(outcome)
    }

    /// Waits at most `timeout`; a timeout and a closed bus both give `None`.
    ///
    /// Fails with a conflict when the state lock is poisoned.
    pub fn wait_timeout(&mut self, timeout: Duration) -> (r: ConfigxResult<Option<ConfigChange>>)
        ensures
            final(self).bus() == old(self).bus(),
            r matches Ok(Some(c)) ==> c.generation > old(self).seen_spec() && final(self).seen_spec() == c.generation,
            r matches Ok(None) ==> final(self).seen_spec() == old(self).seen_spec(),
            r matches Err(e) ==> error_is(e, ErrorKind::Conflict, STATE_LOCK_POISONED@),
    {
        match self.wait_timeout_outcome(timeout) {
            Ok(outcome) => Ok(outcome.into_change()),
            Err(e) => Err(e),
        }
    }
}

} // verus!
