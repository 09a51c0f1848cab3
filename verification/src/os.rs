//! Trusted boundary around the operating-system facilities this crate
//! leans on: the `tokio` child-process type and string-slice equality.
//! Everything else in the crate is verified against the contracts stated
//! here.

use vstd::prelude::*;

verus! {

#[verifier::external_type_specification]
#[verifier::external_body]
pub struct ExChild(tokio::process::Child);

/// Relies on `tokio::process::Command::{new, args, spawn}`: starts the
/// executable named by `command` with exactly the strings of `args` as its
/// argument vector, in order, with no shell interpretation, inheriting the
/// environment and the standard streams. The returned handle is the sole
/// owner of the spawned process. `Err` carries the OS error text when the
/// spawn fails, or the tokio error text when no runtime is available to
/// supervise the child (spawning outside a runtime would otherwise panic).
#[verifier::external_body]
pub(crate) fn spawn_child(command: &String, args: &Vec<String>) -> (r: Result<
    tokio::process::Child,
    String,
>) {
    if let Err(e) = tokio::runtime::Handle::try_current() {
        return Err(e.to_string());
    }
    match tokio::process::Command::new(command).args(args).spawn() {
        Ok(c) => Ok(c),
        Err(e) => Err(e.to_string()),
    }
}

/// Relies on `tokio::process::Child::start_kill`: delivers an immediate,
/// forceful termination request (`SIGKILL` on Unix) without waiting for the
/// process to be reaped, and returns `Ok(())` when the child has already
/// been reaped by an earlier poll or wait.
#[verifier::external_body]
pub(crate) fn kill_child(child: &mut tokio::process::Child) -> (r: Result<(), String>) {
    match child.start_kill() {
        Ok(()) => Ok(()),
        Err(e) => Err(e.to_string()),
    }
}

/// Relies on `tokio::process::Child::try_wait`: a non-blocking liveness
/// poll that returns `Ok(Some(_))` once the child has exited (reaping it on
/// Unix) and `Ok(None)` while it is still running; reported here as
/// `Ok(true)` / `Ok(false)`.
#[verifier::external_body]
pub(crate) fn poll_child_exited(child: &mut tokio::process::Child) -> (r: Result<bool, String>) {
    match child.try_wait() {
        Ok(Some(_)) => Ok(true),
        Ok(None) => Ok(false),
        Err(e) => Err(e.to_string()),
    }
}

/// Relies on `tokio::process::Command::{new, args, process_group, spawn}`:
/// like `spawn_child`, but the child is placed in a fresh process group, an
/// explicit configuration that detaches it from the caller's group so that
/// a replacement instance outlives the caller and whatever signals the
/// caller's group receives.
#[verifier::external_body]
pub(crate) fn spawn_detached_child(command: &String, args: &Vec<String>) -> (r: Result<
    tokio::process::Child,
    String,
>) {
    if let Err(e) = tokio::runtime::Handle::try_current() {
        return Err(e.to_string());
    }
    match tokio::process::Command::new(command).args(args).process_group(0).spawn() {
        Ok(c) => Ok(c),
        Err(e) => Err(e.to_string()),
    }
}

/// Relies on `tokio::process::Child::wait`: blocks until the child has
/// exited and reaps it. The future is driven to completion with
/// `tokio::task::block_in_place` around `Handle::block_on`, which on a
/// multi-thread runtime is safe both from synchronous code and from inside
/// a task (the worker hands its core off before blocking; tokio still
/// refuses, with a panic, to block from inside a `LocalSet`). On a
/// current-thread runtime such blocking would panic or deadlock, so that
/// case — and the absence of any runtime — is answered with `Err` instead.
#[verifier::external_body]
pub(crate) fn wait_child(child: &mut tokio::process::Child) -> (r: Result<(), String>) {
    let handle = match tokio::runtime::Handle::try_current() {
        Ok(h) => h,
        Err(e) => return Err(e.to_string()),
    };
    if handle.runtime_flavor() == tokio::runtime::RuntimeFlavor::CurrentThread {
        return Err("waiting on a child would block the current-thread runtime".to_string());
    }
    match tokio::task::block_in_place(|| handle.block_on(child.wait())) {
        Ok(_) => Ok(()),
        Err(e) => Err(e.to_string()),
    }
}

/// Relies on `str`'s `PartialEq`: two string slices are equal exactly when
/// their character sequences are equal.
#[verifier::external_body]
pub(crate) fn str_eq(a: &str, b: &str) -> (r: bool)
    ensures
        r == (a@ == b@),
{
    a == b
}

} // verus!
