//! Bookkeeping of a supervised background task: its cancellation
//! token, the drop guard that cancels it as a safety net, and the
//! handle through which its result is collected exactly once.
//!
//! Spawning the task and awaiting its handle are concurrency-runtime
//! work and stay with the caller; this module owns the state that makes
//! shutdown safe: the guard and the handle each leave the supervisor at
//! most once.

use vstd::prelude::*;

use tokio::task::JoinHandle;
use tokio_util::sync::CancellationToken;
use tokio_util::sync::DropGuard;

verus! {

#[verifier::external_type_specification]
#[verifier::external_body]
pub struct ExCancellationToken(CancellationToken);

#[verifier::external_type_specification]
#[verifier::external_body]
pub struct ExDropGuard(DropGuard);

#[verifier::external_type_specification]
#[verifier::external_body]
#[verifier::reject_recursive_types(T)]
pub struct ExJoinHandle<T>(JoinHandle<T>);

#[verifier::external_type_specification]
#[verifier::external_body]
pub struct ExJoinError(tokio::task::JoinError);

/// Relies on tokio_util's CancellationToken::cancel: moves the shared
/// token to the cancelled state and wakes every waiter; the transition
/// is one-way.
pub assume_specification[ CancellationToken::cancel ](token: &CancellationToken);

/// Relies on tokio_util's CancellationToken::is_cancelled: reports the
/// token's current state. The token is shared, so nothing is promised
/// of the result.
pub assume_specification[ CancellationToken::is_cancelled ](token: &CancellationToken) -> bool;

/// Relies on tokio_util's DropGuard::disarm: consumes the guard so its
/// destructor no longer cancels the token, and hands the token back.
pub assume_specification[ DropGuard::disarm ](guard: DropGuard) -> CancellationToken;

/// Supervisor state of one spawned unit of work.
///
/// While the guard is armed, dropping the supervisor cancels the token,
/// so the work never outlives its owner unobserved. The handle is
/// surrendered at most once: asking a second time fails rather than
/// waiting twice for one result.
#[verifier::reject_recursive_types(T)]
pub struct BackgroundTask<T> {
    /// Token the supervised work races its waits against.
    shutdown_token: CancellationToken,
    /// Guard that cancels the token when dropped; disarmed by
    /// `prepare_finish`.
    shutdown_dropguard: Option<DropGuard>,
    /// Handle to the running work, consumed by `prepare_finish`.
    join_handle: Option<JoinHandle<T>>,
}

impl<T> BackgroundTask<T> {
    /// Whether the drop guard is still armed.
    pub closed spec fn guard_armed(&self) -> bool {
        self.shutdown_dropguard is Some
    }

    /// Whether the handle to the running work is still held.
    pub closed spec fn handle_present(&self) -> bool {
        self.join_handle is Some
    }

    /// The handle to the running work, if still held.
    pub closed spec fn spec_handle(&self) -> Option<JoinHandle<T>> {
        self.join_handle
    }

    /// Assemble a supervisor from a cancellation token, a guard armed
    /// on that token, and the handle of the already-spawned work.
    pub fn new(
        shutdown_token: CancellationToken,
        shutdown_dropguard: DropGuard,
        join_handle: JoinHandle<T>,
    ) -> (r: Self)
        ensures
            r.guard_armed(),
            r.handle_present(),
    {
        BackgroundTask {
            shutdown_token,
            shutdown_dropguard: Some(shutdown_dropguard),
            join_handle: Some(join_handle),
        }
    }

    /// Begin finishing the task: signal cancellation, disarm the drop
    /// guard, and surrender the handle for the caller to await.
    ///
    /// Finishing is not idempotent: the handle comes back exactly when
    /// it was still held, so a second call yields `None` and the caller
    /// reports the task as already finished.
    pub fn prepare_finish(&mut self) -> (r: Option<JoinHandle<T>>)
        ensures
            !final(self).guard_armed(),
            !final(self).handle_present(),
            r == old(self).spec_handle(),
            r is Some <==> old(self).handle_present(),
    {
        self.shutdown_token.cancel();
        let guard = self.shutdown_dropguard.take();
        match guard {
            Some(guard) => {
                let _token = guard.disarm();
            },
            None => {},
        }
        self.join_handle.take()
    }
}

} // verus!
