//! The guard of the one connection to the storage.
//!
//! Whoever works on the storage holds the guard for as long as the work
//! takes, so that no two operations ever interleave.

use crate::error::StoreError;
use vstd::prelude::*;

verus! {

/// `std::sync::Mutex`. Nothing is known of what is inside.
#[verifier::external_type_specification]
#[verifier::external_body]
#[verifier::reject_recursive_types(T)]
pub struct ExMutex<T: ?Sized>(std::sync::Mutex<T>);

/// `std::sync::MutexGuard`: the held lock of a mutex. Nothing is known of
/// what is inside.
#[verifier::external_type_specification]
#[verifier::external_body]
#[verifier::reject_recursive_types(T)]
pub struct ExMutexGuard<'a, T: ?Sized + 'a>(std::sync::MutexGuard<'a, T>);

/// The connection to the storage, behind its guard.
pub struct DbState {
    pub conn: std::sync::Mutex<rusqlite::Connection>,
}

/// `std::sync::Mutex::new` around a connection.
#[verifier::external_body]
fn guard_connection(conn: rusqlite::Connection) -> (r: std::sync::Mutex<rusqlite::Connection>) {
    std::sync::Mutex::new(conn)
}

/// `std::sync::Mutex::lock`: waits until no one else holds the guard. `None`
/// where a holder panicked and left the guard poisoned.
#[verifier::external_body]
fn lock_connection<'a>(state: &'a DbState) -> (r: Option<
    std::sync::MutexGuard<'a, rusqlite::Connection>,
>) {
    state.conn.lock().ok()
}

/// The connection that a held guard protects: `DerefMut` of
/// `std::sync::MutexGuard`.
#[verifier::external_body]
pub(crate) fn guarded<'a, 'b>(
    guard: &'a mut std::sync::MutexGuard<'b, rusqlite::Connection>,
) -> (r: &'a mut rusqlite::Connection) {
    &mut *guard
}

/// What acquiring gives for each outcome of locking: the held guard, or
/// `Unavailable` for a guard that was found poisoned.
pub fn acquired<'a>(locked: Option<std::sync::MutexGuard<'a, rusqlite::Connection>>) -> (r: Result<
    std::sync::MutexGuard<'a, rusqlite::Connection>,
    StoreError,
>)
    ensures
        locked.is_some() ==> r.is_ok(),
        locked.is_none() ==> r == Err::<std::sync::MutexGuard<'a, rusqlite::Connection>, StoreError>(
            StoreError::Unavailable,
        ),
{
    match locked {
        Some(guard) => Ok(guard),
        None => Err(StoreError::Unavailable),
    }
}

impl DbState {
    /// Puts a connection behind a new guard.
    pub fn new(conn: rusqlite::Connection) -> (r: DbState) {
        DbState { conn: guard_connection(conn) }
    }

    /// Acquires the guard, waiting for its holder to release it. Fails with
    /// `Unavailable`, and with nothing else, where the guard is poisoned.
    pub fn acquire<'a>(&'a self) -> (r: Result<
        std::sync::MutexGuard<'a, rusqlite::Connection>,
        StoreError,
    >)
        ensures
            r matches Err(e) ==> e == StoreError::Unavailable,
    {
        acquired(lock_connection(self))
    }
}

} // verus!
