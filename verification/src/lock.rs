//! Writing the shared Agent API registry under a lock file. The writer tries
//! to create the lock file up to three times; this is what it does after
//! each try.

use vstd::prelude::*;
use crate::text::owned;

verus! {

/// How many times the writer tries to create the lock file.
pub open spec fn lock_attempts() -> u32 {
    3
}

pub open spec fn registry_busy_message() -> Seq<char> {
    "Agent API registry is busy."@
}

/// The outcome of one try to create the lock file.
#[derive(Debug)]
pub enum LockAttempt {
    /// The lock file was created: the lock is held.
    Created,
    /// Another writer holds the lock; `stale` where its file is more than
    /// two seconds old.
    AlreadyExists { stale: bool },
    /// Creating the file failed for another reason.
    Failed(String),
}

/// What the writer does next.
#[derive(Debug)]
pub enum LockAction {
    /// Write the registry, remove the lock file, and return the write's
    /// outcome.
    WriteAndRelease,
    /// Return this error.
    Fail(String),
    /// Remove the stale lock file, or wait a tenth of a second, then try
    /// again.
    Retry { remove_stale: bool },
    /// Remove the stale lock file, or wait, then return this error: the
    /// tries are used up.
    GiveUp { remove_stale: bool, error: String },
}

/// The tries made so far.
pub struct RegistryLock {
    pub attempts: u32,
}

impl RegistryLock {
    pub fn new() -> (r: Self)
        ensures
            r.attempts == 0,
    {
        RegistryLock { attempts: 0 }
    }

    /// Records one more try and decides what follows it.
    pub fn step(&mut self, attempt: LockAttempt) -> (r: LockAction)
        requires
            old(self).attempts < lock_attempts(),
        ensures
            final(self).attempts == old(self).attempts + 1,
            match attempt {
                LockAttempt::Created => r matches LockAction::WriteAndRelease,
                LockAttempt::Failed(e) => r matches LockAction::Fail(m) && m@ == e@,
                LockAttempt::AlreadyExists { stale } => if final(self).attempts < lock_attempts() {
                    r matches LockAction::Retry { remove_stale } && remove_stale == stale
                } else {
                    r matches LockAction::GiveUp { remove_stale, error } && remove_stale == stale
                        && error@ == registry_busy_message()
                },
            },
    {
        self.attempts = self.attempts + 1;
        match attempt {
            LockAttempt::Created => LockAction::WriteAndRelease,
            LockAttempt::Failed(e) => LockAction::Fail(e),
            LockAttempt::AlreadyExists { stale } => if self.attempts < 3 {
                LockAction::Retry { remove_stale: stale }
            } else {
                LockAction::GiveUp { remove_stale: stale, error: owned("Agent API registry is busy.") }
            },
        }
    }
}

} // verus!
