//! The connection-pool lifecycle: a single pool is created at process
//! start, the process serves only after the initial connect and schema
//! check succeed, a failed connect is fatal, and termination drains the
//! pool before closing it. The decisions live here; the embedding process
//! performs the connect, the queries and the shutdown.

use vstd::prelude::*;

verus! {

/// The lifecycle states of the single connection pool.
#[derive(Debug, Clone, Copy, PartialEq, Eq, Structural)]
pub enum PoolState {
    Unconnected,
    Connected,
    ShuttingDown,
}

/// What the embedding process reports about the pool.
#[derive(Debug, Clone, Copy, PartialEq, Eq, Structural)]
pub enum PoolEvent {
    ConnectSucceeded,
    ConnectFailed,
    ShutdownRequested,
}

/// What the embedding process must do next.
#[derive(Debug, Clone, Copy, PartialEq, Eq, Structural)]
pub enum PoolAction {
    Serve,
    AbortProcess,
    DrainAndClose,
    Wait,
}

/// One lifecycle step: connecting successfully starts serving, a failed
/// initial connect aborts the process before any request is served, and a
/// shutdown request drains the pool; nothing else moves the state, and a
/// pool that is shutting down never comes back.
pub fn pool_step(state: PoolState, event: PoolEvent) -> (r: (PoolState, PoolAction))
    ensures
        state == PoolState::Unconnected && event == PoolEvent::ConnectSucceeded ==> r == (
            (PoolState::Connected, PoolAction::Serve)
        ),
        state == PoolState::Unconnected && event == PoolEvent::ConnectFailed ==> r == (
            (PoolState::Unconnected, PoolAction::AbortProcess)
        ),
        state == PoolState::Connected && event == PoolEvent::ShutdownRequested ==> r == (
            (PoolState::ShuttingDown, PoolAction::DrainAndClose)
        ),
        r.1 == PoolAction::Serve ==> r.0 == PoolState::Connected,
        state == PoolState::ShuttingDown ==> r.0 == PoolState::ShuttingDown && r.1
            == PoolAction::Wait,
        state == PoolState::Connected && event != PoolEvent::ShutdownRequested ==> r == (
            (PoolState::Connected, PoolAction::Wait)
        ),
        state == PoolState::Unconnected && event == PoolEvent::ShutdownRequested ==> r == (
            (PoolState::Unconnected, PoolAction::Wait)
        ),
{
    match (state, event) {
        (PoolState::Unconnected, PoolEvent::ConnectSucceeded) => (
            PoolState::Connected,
            PoolAction::Serve,
        ),
        (PoolState::Unconnected, PoolEvent::ConnectFailed) => (
            PoolState::Unconnected,
            PoolAction::AbortProcess,
        ),
        (PoolState::Connected, PoolEvent::ShutdownRequested) => (
            PoolState::ShuttingDown,
            PoolAction::DrainAndClose,
        ),
        (s, _) => (s, PoolAction::Wait),
    }
}

} // verus!
